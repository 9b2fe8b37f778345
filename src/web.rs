use vstd::prelude::*;

use crate::model::{service_name, Channel, VideoRecord};
use crate::status::{css_class_of, VideoStatus};
use crate::time::rfc3339_of;

verus! {

/// A channel as the pages show it.
#[derive(Debug)]
pub struct WebChannel {
    pub id: i64,
    pub chanid: String,
    pub service: String,
    pub title: String,
    pub icon: String,
}

/// The channels of the channel list page.
#[derive(Debug)]
pub struct WebChannelList {
    pub channels: Vec<WebChannel>,
}

/// A video as the pages show it, with the channel it belongs to.
#[derive(Debug)]
pub struct WebVideoInfo<'a> {
    pub id: i64,
    pub video_id: String,
    pub url: String,
    pub title: String,
    pub description: String,
    pub thumbnail_url: String,
    pub published_at: String,
    pub status_class: String,
    pub channel: &'a WebChannel,
}

/// The videos of a video list page.
#[derive(Debug)]
pub struct WebChannelVideos<'a> {
    pub videos: Vec<WebVideoInfo<'a>>,
}

/// The CSS class that marks a video's status on the pages.
pub fn status_css_class(status: VideoStatus) -> (r: String)
    ensures
        r@ == css_class_of(status),
{
    proof {
        reveal_strlit("ytdl-new");
        reveal_strlit("ytdl-queued");
        reveal_strlit("ytdl-downloading");
        reveal_strlit("ytdl-grabbed");
        reveal_strlit("ytdl-graberror");
        reveal_strlit("ytdl-ignore");
    }
    let class: &str = match status {
        VideoStatus::New => "ytdl-new",
        VideoStatus::Queued => "ytdl-queued",
        VideoStatus::Downloading => "ytdl-downloading",
        VideoStatus::Grabbed => "ytdl-grabbed",
        VideoStatus::GrabError => "ytdl-graberror",
        VideoStatus::Ignore => "ytdl-ignore",
    };
    class.to_owned()
}

/// `w` shows channel `c`.
pub open spec fn shows_channel(w: WebChannel, c: Channel) -> bool {
    &&& w.id == c.id
    &&& w.chanid@ == c.chanid@
    &&& w.service@ == service_name(c.service)
    &&& w.title@ == c.title@
    &&& w.icon@ == c.thumbnail@
}

/// `w` shows video `v` of the channel shown by `chan`.
pub open spec fn shows_video(w: WebVideoInfo, v: VideoRecord, chan: WebChannel) -> bool {
    &&& w.id == v.id
    &&& w.video_id@ == v.info.id@
    &&& w.url@ == v.info.url@
    &&& w.title@ == v.info.title@
    &&& w.description@ == v.info.description@
    &&& w.thumbnail_url@ == v.info.thumbnail_url@
    &&& w.published_at@ == rfc3339_of(v.info.published_at@)
    &&& w.status_class@ == css_class_of(v.status)
    &&& *w.channel == chan
}

impl WebChannel {
    pub fn from_channel(src: Channel) -> (r: WebChannel)
        ensures
            shows_channel(r, src),
    {
        WebChannel {
            id: src.id,
            chanid: src.chanid,
            service: src.service.as_str().to_owned(),
            title: src.title,
            icon: src.thumbnail,
        }
    }
}

impl WebChannelList {
    /// Shows each channel, in order.
    pub fn from_channels(src: Vec<Channel>) -> (r: WebChannelList)
        ensures
            r.channels@.len() == src@.len(),
            forall|i: int| 0 <= i < src@.len() ==> shows_channel(#[trigger] r.channels@[i], src@[i]),
    {
        let mut src = src;
        let ghost orig = src@;
        let mut channels: Vec<WebChannel> = Vec::new();
        while src.len() > 0
            invariant
                channels@.len() + src@.len() == orig.len(),
                src@ == orig.subrange(channels@.len() as int, orig.len() as int),
                forall|i: int| 0 <= i < channels@.len() ==> shows_channel(#[trigger] channels@[i], orig[i]),
            decreases src@.len(),
        {
            let c = src.remove(0);
            channels.push(WebChannel::from_channel(c));
            proof {
                assert(src@ =~= orig.subrange(channels@.len() as int, orig.len() as int));
            }
        }
        WebChannelList { channels }
    }
}

impl<'a> WebVideoInfo<'a> {
    pub fn from_record(src: VideoRecord, chan: &'a WebChannel) -> (r: WebVideoInfo<'a>)
        ensures
            shows_video(r, src, *chan),
    {
        let published_at = src.info.published_at.to_rfc3339();
        WebVideoInfo {
            id: src.id,
            video_id: src.info.id,
            url: src.info.url,
            title: src.info.title,
            description: src.info.description,
            thumbnail_url: src.info.thumbnail_url,
            published_at,
            status_class: status_css_class(src.status),
            channel: chan,
        }
    }
}

/// The index of the first channel in `chans` with local identity `id`.
fn find_channel(chans: &Vec<WebChannel>, id: i64) -> (r: Option<usize>)
    ensures
        r is None <==> !(exists|k: int| 0 <= k < chans@.len() && chans@[k].id == id),
        r matches Some(k) ==> k < chans@.len() && chans@[k as int].id == id,
{
    let mut k: usize = 0;
    while k < chans.len()
        invariant
            k <= chans@.len(),
            forall|j: int| 0 <= j < k ==> chans@[j].id != id,
        decreases chans@.len() - k,
    {
        if chans[k].id == id {
            return Some(k);
        }
        k = k + 1;
    }
    None
}

/// Some channel in `chans` has local identity `id`.
pub open spec fn has_channel(chans: Seq<WebChannel>, id: i64) -> bool {
    exists|k: int| 0 <= k < chans.len() && chans[k].id == id
}

/// `w` shows video `v` with a channel of `chans` that has the video's
/// channel identity.
pub open spec fn shows_video_in(w: WebVideoInfo, v: VideoRecord, chans: Seq<WebChannel>) -> bool {
    exists|k: int| 0 <= k < chans.len() && chans[k].id == v.chanid && shows_video(w, v, chans[k])
}

impl<'a> WebChannelVideos<'a> {
    /// Shows each video, in order, with its channel taken from `chans` by
    /// local identity; `None` when some video's channel is not among them.
    pub fn from_records(videos: Vec<VideoRecord>, chans: &'a Vec<WebChannel>) -> (r: Option<
        WebChannelVideos<'a>,
    >)
        ensures
            r is Some <==> (forall|i: int|
                0 <= i < videos@.len() ==> has_channel(chans@, #[trigger] videos@[i].chanid)),
            r matches Some(page) ==> page.videos@.len() == videos@.len() && forall|i: int|
                0 <= i < videos@.len() ==> shows_video_in(
                    #[trigger] page.videos@[i],
                    videos@[i],
                    chans@,
                ),
    {
        let ghost orig = videos@;
        let mut rest = videos;
        let mut out: Vec<WebVideoInfo<'a>> = Vec::new();
        while rest.len() > 0
            invariant
                out@.len() + rest@.len() == orig.len(),
                orig == videos@,
                rest@ == orig.subrange(out@.len() as int, orig.len() as int),
                forall|i: int|
                    0 <= i < out@.len() ==> shows_video_in(#[trigger] out@[i], orig[i], chans@),
                forall|i: int|
                    0 <= i < out@.len() ==> has_channel(chans@, #[trigger] orig[i].chanid),
            decreases rest@.len(),
        {
            let v = rest.remove(0);
            let ghost i = out@.len() as int;
            assert(v == orig[i]);
            let k = match find_channel(chans, v.chanid) {
                Some(k) => k,
                None => {
                    assert(!has_channel(chans@, orig[i].chanid));
                    return None;
                },
            };
            let w = WebVideoInfo::from_record(v, &chans[k]);
            out.push(w);
            proof {
                assert(rest@ =~= orig.subrange(out@.len() as int, orig.len() as int));
                assert(shows_video(out@[i], orig[i], chans@[k as int]));
                assert(out@[i] == w);
                assert forall|j: int| 0 <= j < out@.len() implies shows_video_in(
                    #[trigger] out@[j],
                    orig[j],
                    chans@,
                ) by {
                }
            }
        }
        Some(WebChannelVideos { videos: out })
    }
}

} // verus!
