use vstd::prelude::*;

use crate::text::str_eq;

verus! {

/// Lifecycle stage of a video record.
#[derive(Clone, Copy, Debug, PartialEq, Eq, Structural)]
pub enum VideoStatus {
    New,
    Queued,
    Downloading,
    Grabbed,
    GrabError,
    Ignore,
}

/// A status token that names no status.
#[derive(Clone, Debug, PartialEq, Eq)]
pub struct FormatError {
    pub token: String,
}

/// The token under which a status is written in a backup.
pub open spec fn token_of(s: VideoStatus) -> Seq<char> {
    match s {
        VideoStatus::New => "new"@,
        VideoStatus::Queued => "queued"@,
        VideoStatus::Downloading => "downloading"@,
        VideoStatus::Grabbed => "grabbed"@,
        VideoStatus::GrabError => "grab-error"@,
        VideoStatus::Ignore => "ignore"@,
    }
}

/// The CSS class under which a status is shown.
pub open spec fn css_class_of(s: VideoStatus) -> Seq<char> {
    match s {
        VideoStatus::New => "ytdl-new"@,
        VideoStatus::Queued => "ytdl-queued"@,
        VideoStatus::Downloading => "ytdl-downloading"@,
        VideoStatus::Grabbed => "ytdl-grabbed"@,
        VideoStatus::GrabError => "ytdl-graberror"@,
        VideoStatus::Ignore => "ytdl-ignore"@,
    }
}

/// Statuses that no download job moves a record out of.
pub open spec fn is_terminal(s: VideoStatus) -> bool {
    s == VideoStatus::Grabbed || s == VideoStatus::GrabError || s == VideoStatus::Ignore
}

/// The status that a finished download leaves, by the fetch's outcome.
pub open spec fn outcome_status(fetched: bool) -> VideoStatus {
    if fetched {
        VideoStatus::Grabbed
    } else {
        VideoStatus::GrabError
    }
}

/// What moves a video record's status.
#[derive(Clone, Copy, Debug, PartialEq, Eq, Structural)]
pub enum StatusEvent {
    /// A download of the video was asked for.
    Enqueue,
    /// A worker started the download.
    Begin,
    /// The download ended; `true` when the bytes were fetched.
    Finish(bool),
    /// The operator set the video aside.
    MarkIgnore,
}

/// The status after one event.
pub open spec fn step(s: VideoStatus, e: StatusEvent) -> VideoStatus {
    match e {
        StatusEvent::Enqueue => VideoStatus::Queued,
        StatusEvent::Begin => VideoStatus::Downloading,
        StatusEvent::Finish(fetched) => outcome_status(fetched),
        StatusEvent::MarkIgnore => VideoStatus::Ignore,
    }
}

/// The status after a run of events, applied in order.
pub open spec fn status_after(s: VideoStatus, evs: Seq<StatusEvent>) -> VideoStatus
    decreases evs.len(),
{
    if evs.len() == 0 {
        s
    } else {
        step(status_after(s, evs.drop_last()), evs.last())
    }
}

/// The status after `e`, read fresh from the record just before the write.
pub fn next_status(s: VideoStatus, e: StatusEvent) -> (r: VideoStatus)
    ensures
        r == step(s, e),
{
    match e {
        StatusEvent::Enqueue => VideoStatus::Queued,
        StatusEvent::Begin => VideoStatus::Downloading,
        StatusEvent::Finish(fetched) => if fetched {
            VideoStatus::Grabbed
        } else {
            VideoStatus::GrabError
        },
        StatusEvent::MarkIgnore => VideoStatus::Ignore,
    }
}

/// However the steps of download jobs on one video interleave, once the last
/// event is a finished download the record holds that download's outcome,
/// which is terminal: it is never left at `Downloading`.
pub proof fn lemma_last_outcome_wins(s: VideoStatus, evs: Seq<StatusEvent>, fetched: bool)
    requires
        evs.len() > 0,
        evs.last() == StatusEvent::Finish(fetched),
    ensures
        status_after(s, evs) == outcome_status(fetched),
        is_terminal(status_after(s, evs)),
        status_after(s, evs) != VideoStatus::Downloading,
{
}

/// A run made only of download jobs' steps, in which every start is later
/// followed by a finish, leaves the outcome of the last finish: never
/// `Downloading`, whatever the number of jobs on the video.
pub proof fn lemma_download_jobs_end_terminal(s: VideoStatus, evs: Seq<StatusEvent>)
    requires
        evs.len() > 0,
        forall|i: int| 0 <= i < evs.len() ==> (evs[i] == StatusEvent::Begin || evs[i] is Finish),
        forall|i: int|
            0 <= i < evs.len() && evs[i] == StatusEvent::Begin ==> exists|j: int|
                i < j < evs.len() && evs[j] is Finish,
    ensures
        evs.last() is Finish,
        status_after(s, evs) == outcome_status(evs.last()->Finish_0),
        is_terminal(status_after(s, evs)),
{
    let k = evs.len() - 1;
    if evs[k] == StatusEvent::Begin {
        let j = choose|j: int| k < j < evs.len() && evs[j] is Finish;
    }
    lemma_last_outcome_wins(s, evs, evs.last()->Finish_0);
}

impl VideoStatus {
    pub fn as_str(&self) -> (r: &'static str)
        ensures
            r@ == token_of(*self),
    {
        proof {
            reveal_strlit("new");
            reveal_strlit("queued");
            reveal_strlit("downloading");
            reveal_strlit("grabbed");
            reveal_strlit("grab-error");
            reveal_strlit("ignore");
        }
        match self {
            VideoStatus::New => "new",
            VideoStatus::Queued => "queued",
            VideoStatus::Downloading => "downloading",
            VideoStatus::Grabbed => "grabbed",
            VideoStatus::GrabError => "grab-error",
            VideoStatus::Ignore => "ignore",
        }
    }

    /// Reads a status back from its token; an unknown token is a `FormatError`.
    pub fn from_str(s: &str) -> (r: Result<VideoStatus, FormatError>)
        ensures
            r matches Ok(v) ==> token_of(v) == s@,
            r is Err <==> (forall|v: VideoStatus| token_of(v) != s@),
            r matches Err(e) ==> e.token@ == s@,
    {
        proof {
            reveal_strlit("new");
            reveal_strlit("queued");
            reveal_strlit("downloading");
            reveal_strlit("grabbed");
            reveal_strlit("grab-error");
            reveal_strlit("ignore");
        }
        if str_eq(s, "new") {
            assert(token_of(VideoStatus::New) == s@);
            Ok(VideoStatus::New)
        } else if str_eq(s, "queued") {
            assert(token_of(VideoStatus::Queued) == s@);
            Ok(VideoStatus::Queued)
        } else if str_eq(s, "downloading") {
            assert(token_of(VideoStatus::Downloading) == s@);
            Ok(VideoStatus::Downloading)
        } else if str_eq(s, "grabbed") {
            assert(token_of(VideoStatus::Grabbed) == s@);
            Ok(VideoStatus::Grabbed)
        } else if str_eq(s, "grab-error") {
            assert(token_of(VideoStatus::GrabError) == s@);
            Ok(VideoStatus::GrabError)
        } else if str_eq(s, "ignore") {
            assert(token_of(VideoStatus::Ignore) == s@);
            Ok(VideoStatus::Ignore)
        } else {
            proof {
                assert forall|v: VideoStatus| token_of(v) != s@ by {
                    match v {
                        VideoStatus::New => {},
                        VideoStatus::Queued => {},
                        VideoStatus::Downloading => {},
                        VideoStatus::Grabbed => {},
                        VideoStatus::GrabError => {},
                        VideoStatus::Ignore => {},
                    }
                }
            }
            Err(FormatError { token: s.to_owned() })
        }
    }
}

/// Distinct statuses have distinct tokens, so a token names at most one status.
pub proof fn lemma_token_injective(a: VideoStatus, b: VideoStatus)
    ensures
        token_of(a) == token_of(b) ==> a == b,
{
    reveal_strlit("new");
    reveal_strlit("queued");
    reveal_strlit("downloading");
    reveal_strlit("grabbed");
    reveal_strlit("grab-error");
    reveal_strlit("ignore");
    if token_of(a) == token_of(b) && a != b {
        let (ta, tb) = (token_of(a), token_of(b));
        assert(ta.len() != tb.len() || exists|i: int| 0 <= i < ta.len() && ta[i] != tb[i]) by {
            match a {
                VideoStatus::New => { assert(ta[0] != tb[0] || ta.len() != tb.len()); },
                VideoStatus::Queued => { assert(ta[0] != tb[0] || ta.len() != tb.len()); },
                VideoStatus::Downloading => { assert(ta[0] != tb[0] || ta.len() != tb.len()); },
                VideoStatus::Grabbed => { assert(ta[4] != tb[4] || ta.len() != tb.len()); },
                VideoStatus::GrabError => { assert(ta[4] != tb[4] || ta.len() != tb.len()); },
                VideoStatus::Ignore => { assert(ta[0] != tb[0] || ta.len() != tb.len()); },
            }
        }
    }
}

/// Reading back the token of a status gives that status.
pub proof fn lemma_token_round_trip(v: VideoStatus, r: Result<VideoStatus, FormatError>)
    requires
        r matches Ok(w) ==> token_of(w) == token_of(v),
        r is Err <==> (forall|w: VideoStatus| token_of(w) != token_of(v)),
    ensures
        r == Ok::<VideoStatus, FormatError>(v),
{
    if let Ok(w) = r {
        lemma_token_injective(w, v);
    } else {
        assert(token_of(v) == token_of(v));
    }
}

} // verus!
