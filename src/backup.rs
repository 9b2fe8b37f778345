use vstd::prelude::*;

use crate::model::{service_name, Channel, VideoInfo, VideoRecord};
use crate::status::{token_of, FormatError, VideoStatus};
use crate::time::{rfc3339_of, rfc3339_secs, Timestamp, MAX_SECS, MIN_SECS};

verus! {

/// A channel as a backup holds it.
#[derive(Clone, Debug)]
pub struct BackupChannel {
    pub chanid: String,
    pub service: String,
    pub icon: String,
    pub id: i64,
}

/// A video as a backup holds it.
#[derive(Clone, Debug)]
pub struct BackupVideoInfo {
    pub status: String,
    pub title: String,
    pub url: String,
    pub videoid: String,
    pub publishdate: String,
    pub description: String,
    pub thumbnail_url: String,
    pub channel_id: i64,
}

/// Why a backed-up video cannot be read back.
#[derive(Clone, Debug, PartialEq, Eq)]
pub enum BackupError {
    /// The publish date is not an RFC 3339 instant of years 1 to 9999.
    BadDate(String),
    /// The status token names no status.
    BadStatus(FormatError),
}

impl BackupChannel {
    pub fn from_channel(src: &Channel) -> (r: BackupChannel)
        ensures
            r.chanid@ == src.chanid@,
            r.service@ == service_name(src.service),
            r.icon@ == src.thumbnail@,
            r.id == src.id,
    {
        BackupChannel {
            chanid: src.chanid.clone(),
            service: src.service.as_str().to_owned(),
            icon: src.thumbnail.clone(),
            id: src.id,
        }
    }
}

impl BackupVideoInfo {
    pub fn from_record(src: &VideoRecord) -> (r: BackupVideoInfo)
        ensures
            r.channel_id == src.chanid,
            r.status@ == token_of(src.status),
            r.title@ == src.info.title@,
            r.url@ == src.info.url@,
            r.videoid@ == src.info.id@,
            r.publishdate@ == rfc3339_of(src.info.published_at@),
            r.description@ == src.info.description@,
            r.thumbnail_url@ == src.info.thumbnail_url@,
    {
        BackupVideoInfo {
            channel_id: src.chanid,
            status: src.status.as_str().to_owned(),
            title: src.info.title.clone(),
            url: src.info.url.clone(),
            videoid: src.info.id.clone(),
            publishdate: src.info.published_at.to_rfc3339(),
            description: src.info.description.clone(),
            thumbnail_url: src.info.thumbnail_url.clone(),
        }
    }

    /// Reads the video and its status back. The status is checked first:
    /// an unknown status token is a `BadStatus` error whatever the date; with
    /// a known token, a date that is not an RFC 3339 instant of years 1 to
    /// 9999 is a `BadDate` error.
    pub fn into_video(self) -> (r: Result<(VideoInfo, VideoStatus), BackupError>)
        ensures
            (forall|v: VideoStatus| token_of(v) != self.status@) ==> (r matches Err(
                BackupError::BadStatus(e),
            ) && e.token@ == self.status@),
            (exists|v: VideoStatus| token_of(v) == self.status@) && (match rfc3339_secs(
                self.publishdate@,
            ) {
                None => true,
                Some(x) => !(MIN_SECS <= x <= MAX_SECS),
            }) ==> (r matches Err(BackupError::BadDate(d)) && d@ == self.publishdate@),
            (exists|v: VideoStatus| token_of(v) == self.status@) && (match rfc3339_secs(
                self.publishdate@,
            ) {
                None => false,
                Some(x) => MIN_SECS <= x <= MAX_SECS,
            }) ==> r is Ok,
            r matches Ok((v, s)) ==> {
                &&& rfc3339_secs(self.publishdate@) == Some(v.published_at@)
                &&& token_of(s) == self.status@
                &&& v.id@ == self.videoid@
                &&& v.url@ == self.url@
                &&& v.title@ == self.title@
                &&& v.description@ == self.description@
                &&& v.thumbnail_url@ == self.thumbnail_url@
            },
    {
        let status = match VideoStatus::from_str(&self.status) {
            Ok(s) => s,
            Err(e) => {
                return Err(BackupError::BadStatus(e));
            },
        };
        let when = match Timestamp::parse_rfc3339(&self.publishdate) {
            Some(t) => t,
            None => {
                return Err(BackupError::BadDate(self.publishdate));
            },
        };
        let info = VideoInfo {
            id: self.videoid,
            url: self.url,
            title: self.title,
            description: self.description,
            thumbnail_url: self.thumbnail_url,
            published_at: when,
        };
        Ok((info, status))
    }
}

} // verus!
