use vstd::prelude::*;

use crate::status::{next_status, step, StatusEvent, VideoStatus};
use crate::text::str_eq;
use crate::time::Timestamp;

verus! {

/// A video platform.
#[derive(Clone, Copy, Debug, PartialEq, Eq, Structural)]
pub enum Service {
    Youtube,
    Vimeo,
}

/// The name under which a platform is written.
pub open spec fn service_name(s: Service) -> Seq<char> {
    match s {
        Service::Youtube => "youtube"@,
        Service::Vimeo => "vimeo"@,
    }
}

/// A platform name that names no platform.
#[derive(Clone, Debug, PartialEq, Eq)]
pub struct UnknownService {
    pub name: String,
}

/// A channel's identifier on its platform.
#[derive(Clone, Debug, PartialEq, Eq)]
pub enum ChannelID {
    Youtube(String),
    Vimeo(String),
}

impl Service {
    pub fn as_str(&self) -> (r: &'static str)
        ensures
            r@ == service_name(*self),
    {
        proof {
            reveal_strlit("youtube");
            reveal_strlit("vimeo");
        }
        match self {
            Service::Youtube => "youtube",
            Service::Vimeo => "vimeo",
        }
    }

    pub fn from_str(s: &str) -> (r: Result<Service, UnknownService>)
        ensures
            r matches Ok(v) ==> service_name(v) == s@,
            r is Err <==> (s@ != "youtube"@ && s@ != "vimeo"@),
            r matches Err(e) ==> e.name@ == s@,
    {
        proof {
            reveal_strlit("youtube");
            reveal_strlit("vimeo");
        }
        if str_eq(s, "youtube") {
            Ok(Service::Youtube)
        } else if str_eq(s, "vimeo") {
            Ok(Service::Vimeo)
        } else {
            Err(UnknownService { name: s.to_owned() })
        }
    }

    /// The identifier `chanid` on this platform.
    pub fn get_channel_id(&self, chanid: &str) -> (r: ChannelID)
        ensures
            *self == Service::Youtube ==> (r matches ChannelID::Youtube(id) && id@ == chanid@),
            *self == Service::Vimeo ==> (r matches ChannelID::Vimeo(id) && id@ == chanid@),
    {
        match self {
            Service::Youtube => ChannelID::Youtube(chanid.to_owned()),
            Service::Vimeo => ChannelID::Vimeo(chanid.to_owned()),
        }
    }
}

/// A tracked channel.
#[derive(Clone, Debug)]
pub struct Channel {
    /// Local identity.
    pub id: i64,
    /// Identifier on the platform.
    pub chanid: String,
    pub service: Service,
    pub title: String,
    pub thumbnail: String,
}

/// What the platform tells of one video.
#[derive(Clone, Debug)]
pub struct VideoInfo {
    /// Identifier on the platform.
    pub id: String,
    pub url: String,
    pub title: String,
    pub description: String,
    pub thumbnail_url: String,
    pub published_at: Timestamp,
}

/// A stored video: what the platform told of it, the channel that owns it,
/// and its status.
#[derive(Clone, Debug)]
pub struct VideoRecord {
    /// Local identity.
    pub id: i64,
    /// Local identity of the owning channel.
    pub chanid: i64,
    pub info: VideoInfo,
    pub status: VideoStatus,
}

impl VideoRecord {
    /// Moves the status by one event; nothing else of the record changes.
    pub fn apply(&mut self, e: StatusEvent)
        ensures
            final(self).status == step(old(self).status, e),
            final(self).id == old(self).id,
            final(self).chanid == old(self).chanid,
            final(self).info == old(self).info,
    {
        self.status = next_status(self.status, e);
    }
}

} // verus!
