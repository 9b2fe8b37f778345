use vstd::prelude::*;

use crate::queue::{WorkItem, WorkQueue};

verus! {

/// Fetched image bytes and their content type.
#[derive(Clone, Debug)]
pub struct Image {
    pub data: Vec<u8>,
    pub content_type: String,
}

impl View for Image {
    type V = (Seq<u8>, Seq<char>);

    open spec fn view(&self) -> (Seq<u8>, Seq<char>) {
        (self.data@, self.content_type@)
    }
}

impl Image {
    /// A copy of the bytes and the content type.
    pub fn copy(&self) -> (r: Image)
        ensures
            r@ == self@,
    {
        let data = self.data.clone();
        proof {
            assert(data@ =~= self.data@);
        }
        Image { data, content_type: self.content_type.clone() }
    }
}

/// The answer to an image lookup.
#[derive(Clone, Debug)]
pub enum ImageCacheResponse {
    /// Not cached yet: serve the source URL meanwhile.
    Redirect(String),
    /// The cached image.
    Image(Image),
}

/// The fetches that a lookup of `url` puts on the work queue: one on a miss,
/// none on a hit.
pub open spec fn fetches_for(cached: Map<Seq<char>, (Seq<u8>, Seq<char>)>, url: String) -> Seq<
    WorkItem,
> {
    if cached.contains_key(url@) {
        Seq::empty()
    } else {
        seq![WorkItem::ThumbnailCache { url }]
    }
}

/// Images fetched so far, by source URL. Entries are only added or
/// overwritten, never dropped.
pub struct ImageCache {
    images: Vec<(String, Image)>,
}

impl View for ImageCache {
    type V = Map<Seq<char>, (Seq<u8>, Seq<char>)>;

    closed spec fn view(&self) -> Map<Seq<char>, (Seq<u8>, Seq<char>)> {
        Map::new(
            |u: Seq<char>| exists|i: int| 0 <= i < self.images@.len() && self.images@[i].0@ == u,
            |u: Seq<char>|
                {
                    let i = choose|i: int| 0 <= i < self.images@.len() && self.images@[i].0@ == u;
                    self.images@[i].1@
                },
        )
    }
}

impl ImageCache {
    /// At most one entry per URL.
    pub closed spec fn wf(&self) -> bool {
        forall|i: int, j: int|
            0 <= i < j < self.images@.len() ==> self.images@[i].0@ != self.images@[j].0@
    }

    /// The index of the entry for `url`, if there is one.
    fn find(&self, url: &String) -> (r: Option<usize>)
        requires
            self.wf(),
        ensures
            r is None <==> !self@.contains_key(url@),
            r matches Some(i) ==> i < self.images@.len() && self.images@[i as int].0@ == url@
                && self@[url@] == self.images@[i as int].1@,
    {
        let mut i: usize = 0;
        while i < self.images.len()
            invariant
                i <= self.images@.len(),
                forall|k: int| 0 <= k < i ==> self.images@[k].0@ != url@,
                self.wf(),
            decreases self.images@.len() - i,
        {
            if self.images[i].0 == *url {
                proof {
                    let j = choose|j: int|
                        0 <= j < self.images@.len() && self.images@[j].0@ == url@;
                    if j < i {
                        assert(self.images@[j].0@ != url@);
                    } else if j > i {
                        assert(self.images@[i as int].0@ != self.images@[j].0@);
                    }
                }
                return Some(i);
            }
            i = i + 1;
        }
        None
    }

    /// An empty cache.
    pub fn new() -> (r: ImageCache)
        ensures
            r.wf(),
            r@ == Map::<Seq<char>, (Seq<u8>, Seq<char>)>::empty(),
    {
        let r = ImageCache { images: Vec::new() };
        assert(r@ =~= Map::<Seq<char>, (Seq<u8>, Seq<char>)>::empty());
        r
    }

    /// Looks `url` up. A cached image is answered with a copy of it. On a
    /// miss a fetch of `url` is put on the work queue and the caller is told
    /// to redirect to `url` meanwhile; the cache itself does not change.
    pub fn get(&mut self, url: String, worker: &mut WorkQueue) -> (r: ImageCacheResponse)
        requires
            old(self).wf(),
            old(worker).wf(),
        ensures
            final(self).wf(),
            final(self)@ == old(self)@,
            old(self)@.contains_key(url@) ==> (r matches ImageCacheResponse::Image(img) && img@
                == old(self)@[url@]),
            old(self)@.contains_key(url@) ==> *final(worker) == *old(worker),
            !old(self)@.contains_key(url@) ==> (r matches ImageCacheResponse::Redirect(u) && u@
                == url@),
            !old(self)@.contains_key(url@) && old(worker).accepting() && old(worker).log().len()
                < u64::MAX ==> final(worker).log() == old(worker).log() + fetches_for(
                old(self)@,
                url,
            ),
            !old(self)@.contains_key(url@) && !(old(worker).accepting() && old(worker).log().len()
                < u64::MAX) ==> final(worker).log() == old(worker).log(),
            final(worker).wf(),
            final(worker).taken() == old(worker).taken(),
            final(worker).in_flight() == old(worker).in_flight(),
            final(worker).done() == old(worker).done(),
            final(worker).accepting() == old(worker).accepting(),
    {
        match self.find(&url) {
            Some(i) => ImageCacheResponse::Image(self.images[i].1.copy()),
            None => {
                let job = WorkItem::ThumbnailCache { url: url.clone() };
                proof {
                    assert(job == WorkItem::ThumbnailCache { url });
                }
                let _ = worker.enqueue(job);
                proof {
                    assert(old(worker).log().push(WorkItem::ThumbnailCache { url }) =~= old(
                        worker,
                    ).log() + fetches_for(old(self)@, url));
                }
                ImageCacheResponse::Redirect(url)
            },
        }
    }

    /// Stores `img` as the image of `url`, over any earlier one.
    pub fn add(&mut self, url: &str, img: Image)
        requires
            old(self).wf(),
        ensures
            final(self).wf(),
            final(self)@ == old(self)@.insert(url@, img@),
    {
        let key = url.to_owned();
        let ghost old_map = self@;
        match self.find(&key) {
            Some(i) => {
                let ghost before = self.images@;
                self.images.set(i, (key, img));
                proof {
                    assert forall|a: int, b: int|
                        0 <= a < b < self.images@.len() implies self.images@[a].0@
                        != self.images@[b].0@ by {
                        assert(before[a].0@ != before[b].0@);
                    }
                    assert forall|u: Seq<char>| #[trigger] self@.contains_key(u)
                        <==> old_map.insert(url@, img@).contains_key(u) by {
                        if old_map.contains_key(u) {
                            let k = choose|k: int| 0 <= k < before.len() && before[k].0@ == u;
                            assert(self.images@[k].0@ == u);
                        }
                        if self@.contains_key(u) {
                            let k = choose|k: int| 0 <= k < self.images@.len() && self.images@[k].0@ == u;
                            if k != i as int {
                                assert(before[k].0@ == u);
                            }
                        }
                    }
                    assert forall|u: Seq<char>| #[trigger] self@.contains_key(u) implies self@[u]
                        == old_map.insert(url@, img@)[u] by {
                        let k = choose|k: int| 0 <= k < self.images@.len() && self.images@[k].0@ == u;
                        if u != url@ {
                            assert(k != i as int);
                            assert(before[k].0@ == u);
                            let k2 = choose|k2: int| 0 <= k2 < before.len() && before[k2].0@ == u;
                            if k2 != k {
                                if k2 < k {
                                    assert(before[k2].0@ != before[k].0@);
                                } else {
                                    assert(before[k].0@ != before[k2].0@);
                                }
                            }
                        } else {
                            if k != i as int {
                                if k < i {
                                    assert(self.images@[k].0@ != self.images@[i as int].0@);
                                } else {
                                    assert(self.images@[i as int].0@ != self.images@[k].0@);
                                }
                            }
                        }
                    }
                    assert(self@ =~= old_map.insert(url@, img@));
                }
            },
            None => {
                let ghost before = self.images@;
                self.images.push((key, img));
                proof {
                    let n = before.len() as int;
                    assert forall|a: int, b: int|
                        0 <= a < b < self.images@.len() implies self.images@[a].0@
                        != self.images@[b].0@ by {
                        if b < n {
                            assert(before[a].0@ != before[b].0@);
                        } else {
                            assert(self.images@[a] == before[a]);
                        }
                    }
                    assert forall|u: Seq<char>| #[trigger] self@.contains_key(u)
                        <==> old_map.insert(url@, img@).contains_key(u) by {
                        if old_map.contains_key(u) {
                            let k = choose|k: int| 0 <= k < before.len() && before[k].0@ == u;
                            assert(self.images@[k].0@ == u);
                        }
                        if u == url@ {
                            assert(self.images@[n].0@ == u);
                        }
                        if self@.contains_key(u) && u != url@ {
                            let k = choose|k: int| 0 <= k < self.images@.len() && self.images@[k].0@ == u;
                            assert(before[k].0@ == u);
                        }
                    }
                    assert forall|u: Seq<char>| #[trigger] self@.contains_key(u) implies self@[u]
                        == old_map.insert(url@, img@)[u] by {
                        let k = choose|k: int| 0 <= k < self.images@.len() && self.images@[k].0@ == u;
                        if u != url@ {
                            assert(k != n);
                            assert(before[k].0@ == u);
                            let k2 = choose|k2: int| 0 <= k2 < before.len() && before[k2].0@ == u;
                            if k2 != k {
                                if k2 < k {
                                    assert(before[k2].0@ != before[k].0@);
                                } else {
                                    assert(before[k].0@ != before[k2].0@);
                                }
                            }
                        } else {
                            if k != n {
                                assert(before[k].0@ == u);
                            }
                        }
                    }
                    assert(self@ =~= old_map.insert(url@, img@));
                }
            },
        }
    }
}

/// A lookup of a URL that is not cached queues exactly one fetch of that URL
/// and none once the fetch's handler has added the image; from then on the
/// lookup finds that image.
pub proof fn lemma_cold_lookup_then_fill(
    cached: Map<Seq<char>, (Seq<u8>, Seq<char>)>,
    url: String,
    img: (Seq<u8>, Seq<char>),
)
    requires
        !cached.contains_key(url@),
    ensures
        fetches_for(cached, url) == seq![WorkItem::ThumbnailCache { url }],
        fetches_for(cached.insert(url@, img), url).len() == 0,
        cached.insert(url@, img).contains_key(url@),
        cached.insert(url@, img)[url@] == img,
{
}

} // verus!
