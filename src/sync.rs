use vstd::prelude::*;

use crate::model::{VideoInfo, VideoRecord};
use crate::time::Timestamp;

verus! {

/// Whether a video published at `t` is new to a channel whose newest known
/// video was published at `newest` (every video is new to a channel with none).
pub open spec fn is_new(newest: Option<Timestamp>, t: Timestamp) -> bool {
    match newest {
        None => true,
        Some(n) => t@ > n@,
    }
}

/// How many videos at the head of `fetched` are new: the scan stops at the
/// first one that is not.
pub open spec fn new_prefix_len(newest: Option<Timestamp>, fetched: Seq<VideoInfo>) -> nat
    decreases fetched.len(),
{
    if fetched.len() == 0 {
        0
    } else if is_new(newest, fetched[0].published_at) {
        1 + new_prefix_len(newest, fetched.drop_first())
    } else {
        0
    }
}

/// Newest first: no video is published later than one before it.
pub open spec fn is_newest_first(fetched: Seq<VideoInfo>) -> bool {
    forall|i: int, j: int|
        0 <= i < j < fetched.len() ==> fetched[j].published_at@ <= fetched[i].published_at@
}

/// The latest publish time among the videos of channel `chanid`, if it has any.
pub open spec fn is_newest_of(
    records: Seq<VideoRecord>,
    chanid: i64,
    r: Option<Timestamp>,
) -> bool {
    match r {
        None => forall|i: int| 0 <= i < records.len() ==> records[i].chanid != chanid,
        Some(t) => (exists|i: int|
            0 <= i < records.len() && records[i].chanid == chanid
                && records[i].info.published_at == t) && forall|i: int|
            0 <= i < records.len() && records[i].chanid == chanid
                ==> records[i].info.published_at@ <= t@,
    }
}

proof fn lemma_prefix_bounds(newest: Option<Timestamp>, fetched: Seq<VideoInfo>)
    ensures
        new_prefix_len(newest, fetched) <= fetched.len(),
        forall|i: int|
            0 <= i < new_prefix_len(newest, fetched) ==> is_new(newest, #[trigger] fetched[i].published_at),
        new_prefix_len(newest, fetched) < fetched.len() ==> !is_new(
            newest,
            fetched[new_prefix_len(newest, fetched) as int].published_at,
        ),
    decreases fetched.len(),
{
    if fetched.len() > 0 && is_new(newest, fetched[0].published_at) {
        let rest = fetched.drop_first();
        lemma_prefix_bounds(newest, rest);
        assert forall|i: int| 0 <= i < new_prefix_len(newest, fetched) implies is_new(
            newest,
            #[trigger] fetched[i].published_at,
        ) by {
            if i > 0 {
                assert(fetched[i] == rest[i - 1]);
            }
        }
    }
}

/// For a channel whose newest known video was published at `t`, and videos
/// fetched newest first, sync ingests exactly the videos published after `t`:
/// they are the head of the fetched list, and the scan stops at the first
/// video published at or before `t`.
pub proof fn lemma_sync_takes_newer(t: Timestamp, fetched: Seq<VideoInfo>)
    requires
        is_newest_first(fetched),
    ensures
        forall|i: int|
            0 <= i < fetched.len() ==> (i < new_prefix_len(Some(t), fetched) <==> #[trigger] fetched[i].published_at@
                > t@),
        new_prefix_len(Some(t), fetched) < fetched.len() ==> fetched[new_prefix_len(
            Some(t),
            fetched,
        ) as int].published_at@ <= t@,
{
    lemma_prefix_bounds(Some(t), fetched);
    let n = new_prefix_len(Some(t), fetched) as int;
    assert forall|i: int| 0 <= i < fetched.len() implies (i < n <==> #[trigger] fetched[i].published_at@
        > t@) by {
        if i >= n {
            assert(fetched[i].published_at@ <= fetched[n].published_at@);
        }
    }
}

/// A channel with no known video ingests every fetched video.
pub proof fn lemma_first_sync_takes_all(fetched: Seq<VideoInfo>)
    ensures
        new_prefix_len(None, fetched) == fetched.len(),
    decreases fetched.len(),
{
    if fetched.len() > 0 {
        lemma_first_sync_takes_all(fetched.drop_first());
    }
}

/// The publish time of the newest known video of channel `chanid` among
/// `records`, or `None` if the channel has no video yet.
pub fn newest_published(records: &Vec<VideoRecord>, chanid: i64) -> (r: Option<Timestamp>)
    ensures
        is_newest_of(records@, chanid, r),
{
    let mut best: Option<Timestamp> = None;
    let mut i: usize = 0;
    while i < records.len()
        invariant
            i <= records.len(),
            is_newest_of(records@.take(i as int), chanid, best),
        decreases records.len() - i,
    {
        let t = records[i].info.published_at;
        if records[i].chanid == chanid {
            let later = match best {
                None => true,
                Some(b) => t.is_after(&b),
            };
            if later {
                best = Some(t);
            }
        }
        proof {
            let prev = records@.take(i as int);
            let next = records@.take(i + 1);
            assert(next.drop_last() == prev);
            assert forall|k: int| 0 <= k < i implies next[k] == prev[k] by {}
            if records[i as int].chanid == chanid {
                assert(next[i as int] == records[i as int]);
            }
            match best {
                None => {},
                Some(b) => {
                    if next[i as int].chanid != chanid || b != t {
                        let w = choose|k: int|
                            0 <= k < prev.len() && prev[k].chanid == chanid
                                && prev[k].info.published_at == b;
                        assert(next[w] == prev[w]);
                    }
                },
            }
        }
        i = i + 1;
    }
    proof {
        assert(records@.take(records.len() as int) == records@);
    }
    best
}

/// Whether a video published at `published` is new to a channel whose newest
/// known video was published at `newest`.
pub fn should_ingest(newest: &Option<Timestamp>, published: &Timestamp) -> (r: bool)
    ensures
        r == is_new(*newest, *published),
{
    match newest {
        None => true,
        Some(n) => published.is_after(n),
    }
}

/// Reconciles a channel's fetched videos, newest first, with what is known of
/// it: keeps the videos before the first one that is not newer than the newest
/// known video, in the fetched order, and drops that one and all after it.
pub fn select_new_videos(newest: Option<Timestamp>, fetched: Vec<VideoInfo>) -> (r: Vec<VideoInfo>)
    ensures
        r@ == fetched@.take(new_prefix_len(newest, fetched@) as int),
{
    proof {
        lemma_prefix_bounds(newest, fetched@);
    }
    let mut n: usize = 0;
    while n < fetched.len() && should_ingest(&newest, &fetched[n].published_at)
        invariant
            n <= fetched.len(),
            n <= new_prefix_len(newest, fetched@),
            new_prefix_len(newest, fetched@) <= fetched.len(),
            forall|i: int|
                0 <= i < new_prefix_len(newest, fetched@) ==> is_new(
                    newest,
                    #[trigger] fetched@[i].published_at,
                ),
            new_prefix_len(newest, fetched@) < fetched.len() ==> !is_new(
                newest,
                fetched@[new_prefix_len(newest, fetched@) as int].published_at,
            ),
        decreases fetched.len() - n,
    {
        n = n + 1;
    }
    let mut r = fetched;
    r.truncate(n);
    r
}

/// The sync of one channel: of the videos fetched for channel `chanid`,
/// newest first, the new ones to store with status `New`, judged against the
/// newest video that `known` holds for the channel.
pub fn videos_to_ingest(known: &Vec<VideoRecord>, chanid: i64, fetched: Vec<VideoInfo>) -> (r: Vec<
    VideoInfo,
>)
    ensures
        exists|newest: Option<Timestamp>|
            is_newest_of(known@, chanid, newest) && r@ == fetched@.take(
                new_prefix_len(newest, fetched@) as int,
            ),
{
    let newest = newest_published(known, chanid);
    select_new_videos(newest, fetched)
}

/// Offering one more video to a scan: the new-prefix grows by that video when
/// every earlier one was taken and it is new too, and stays as it was
/// otherwise.
pub proof fn lemma_prefix_push(newest: Option<Timestamp>, s: Seq<VideoInfo>, x: VideoInfo)
    ensures
        new_prefix_len(newest, s.push(x)) == if new_prefix_len(newest, s) == s.len() && is_new(
            newest,
            x.published_at,
        ) {
            s.len() + 1
        } else {
            new_prefix_len(newest, s)
        },
    decreases s.len(),
{
    let t = s.push(x);
    if s.len() > 0 {
        assert(t.drop_first() =~= s.drop_first().push(x));
        assert(t[0] == s[0]);
        lemma_prefix_push(newest, s.drop_first(), x);
    } else {
        assert(t.drop_first() =~= Seq::<VideoInfo>::empty());
        assert(t[0] == x);
        assert(new_prefix_len(newest, t.drop_first()) == 0);
    }
}

/// A lazy walk over a channel's videos, newest first: each video offered is
/// taken while videos are new, and at the first one that is not the walk
/// stops for good, so its caller need not read the source further.
pub struct SyncScan {
    newest: Option<Timestamp>,
    stopped: bool,
    offered: Ghost<Seq<VideoInfo>>,
}

impl SyncScan {
    /// The publish time of the channel's newest known video.
    pub closed spec fn newest(&self) -> Option<Timestamp> {
        self.newest
    }

    /// The videos offered so far, in order.
    pub closed spec fn offered(&self) -> Seq<VideoInfo> {
        self.offered@
    }

    /// Whether the walk has met a video that is not new.
    pub closed spec fn stopped(&self) -> bool {
        self.stopped
    }

    /// Until the walk stops, every offered video was new; once stopped, the
    /// offered videos run past the new prefix.
    pub closed spec fn wf(&self) -> bool {
        &&& !self.stopped ==> new_prefix_len(self.newest, self.offered@) == self.offered@.len()
        &&& self.stopped ==> new_prefix_len(self.newest, self.offered@) < self.offered@.len()
    }

    /// A walk for a channel whose newest known video was published at
    /// `newest` (`None`: no video known yet).
    pub fn new(newest: Option<Timestamp>) -> (r: SyncScan)
        ensures
            r.wf(),
            r.newest() == newest,
            r.offered() == Seq::<VideoInfo>::empty(),
            !r.stopped(),
    {
        SyncScan { newest, stopped: false, offered: Ghost(Seq::empty()) }
    }

    /// Offers the next video of the walk; returns whether to ingest it. The
    /// videos ingested over the whole walk are exactly the new prefix of the
    /// videos offered.
    pub fn offer(&mut self, v: &VideoInfo) -> (r: bool)
        requires
            old(self).wf(),
        ensures
            final(self).wf(),
            final(self).newest() == old(self).newest(),
            final(self).offered() == old(self).offered().push(*v),
            r == (!old(self).stopped() && is_new(old(self).newest(), v.published_at)),
            final(self).stopped() == !r,
            r ==> new_prefix_len(final(self).newest(), final(self).offered())
                == final(self).offered().len(),
            !r ==> new_prefix_len(final(self).newest(), final(self).offered()) == new_prefix_len(
                old(self).newest(),
                old(self).offered(),
            ),
    {
        proof {
            lemma_prefix_push(self.newest, self.offered@, *v);
            self.offered@ = self.offered@.push(*v);
        }
        if self.stopped {
            return false;
        }
        let take = should_ingest(&self.newest, &v.published_at);
        self.stopped = !take;
        take
    }
}

} // verus!
