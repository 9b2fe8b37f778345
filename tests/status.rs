use vidl::model::{VideoInfo, VideoRecord};
use vidl::status::{next_status, StatusEvent, VideoStatus};
use vidl::time::Timestamp;
use vidl::web::status_css_class;

const ALL: [VideoStatus; 6] = [
    VideoStatus::New,
    VideoStatus::Queued,
    VideoStatus::Downloading,
    VideoStatus::Grabbed,
    VideoStatus::GrabError,
    VideoStatus::Ignore,
];

fn record(status: VideoStatus) -> VideoRecord {
    VideoRecord {
        id: 5,
        chanid: 2,
        info: VideoInfo {
            id: "abc".to_string(),
            url: "https://example.com/abc".to_string(),
            title: "t".to_string(),
            description: "d".to_string(),
            thumbnail_url: "https://example.com/abc.jpg".to_string(),
            published_at: Timestamp::from_secs(0).unwrap(),
        },
        status,
    }
}

#[test]
fn status_tokens() {
    let tokens: Vec<&str> = ALL.iter().map(|s| s.as_str()).collect();
    assert_eq!(tokens, vec!["new", "queued", "downloading", "grabbed", "grab-error", "ignore"]);
}

#[test]
fn status_token_round_trip() {
    for s in ALL {
        assert_eq!(VideoStatus::from_str(s.as_str()), Ok(s));
    }
}

#[test]
fn unknown_status_token_is_format_error() {
    let e = VideoStatus::from_str("Grabbed").unwrap_err();
    assert_eq!(e.token, "Grabbed");
    assert!(VideoStatus::from_str("").is_err());
    assert!(VideoStatus::from_str("graberror").is_err());
}

#[test]
fn css_classes() {
    let classes: Vec<String> = ALL.iter().map(|s| status_css_class(*s)).collect();
    assert_eq!(
        classes,
        vec![
            "ytdl-new",
            "ytdl-queued",
            "ytdl-downloading",
            "ytdl-grabbed",
            "ytdl-graberror",
            "ytdl-ignore"
        ]
    );
}

#[test]
fn status_steps() {
    for s in ALL {
        assert_eq!(next_status(s, StatusEvent::Enqueue), VideoStatus::Queued);
        assert_eq!(next_status(s, StatusEvent::Begin), VideoStatus::Downloading);
        assert_eq!(next_status(s, StatusEvent::Finish(true)), VideoStatus::Grabbed);
        assert_eq!(next_status(s, StatusEvent::Finish(false)), VideoStatus::GrabError);
        assert_eq!(next_status(s, StatusEvent::MarkIgnore), VideoStatus::Ignore);
    }
}

#[test]
fn two_download_jobs_end_with_last_outcome() {
    // Job A starts, job B starts, A fails, B succeeds.
    let mut v = record(VideoStatus::Queued);
    v.apply(StatusEvent::Begin);
    v.apply(StatusEvent::Begin);
    v.apply(StatusEvent::Finish(false));
    v.apply(StatusEvent::Finish(true));
    assert_eq!(v.status, VideoStatus::Grabbed);
    // Job A starts, B starts, B succeeds, A fails.
    let mut w = record(VideoStatus::New);
    w.apply(StatusEvent::Begin);
    w.apply(StatusEvent::Begin);
    w.apply(StatusEvent::Finish(true));
    w.apply(StatusEvent::Finish(false));
    assert_eq!(w.status, VideoStatus::GrabError);
    // A starts and fails, then B starts and succeeds.
    let mut x = record(VideoStatus::Queued);
    x.apply(StatusEvent::Begin);
    x.apply(StatusEvent::Finish(false));
    x.apply(StatusEvent::Begin);
    assert_eq!(x.status, VideoStatus::Downloading);
    x.apply(StatusEvent::Finish(true));
    assert_eq!(x.status, VideoStatus::Grabbed);
}

#[test]
fn apply_keeps_the_rest_of_the_record() {
    let mut v = record(VideoStatus::New);
    v.apply(StatusEvent::Enqueue);
    assert_eq!(v.status, VideoStatus::Queued);
    assert_eq!(v.id, 5);
    assert_eq!(v.chanid, 2);
    assert_eq!(v.info.id, "abc");
}
