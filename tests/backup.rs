use vidl::backup::{BackupChannel, BackupError, BackupVideoInfo};
use vidl::model::{Channel, Service, VideoInfo, VideoRecord};
use vidl::status::VideoStatus;
use vidl::time::{Timestamp, MAX_SECS, MIN_SECS};

fn record(status: VideoStatus, secs: i64) -> VideoRecord {
    VideoRecord {
        id: 1,
        chanid: 3,
        info: VideoInfo {
            id: "vid".to_string(),
            url: "https://example.com/vid".to_string(),
            title: "A title".to_string(),
            description: "A description".to_string(),
            thumbnail_url: "https://example.com/vid.jpg".to_string(),
            published_at: Timestamp::from_secs(secs).unwrap(),
        },
        status,
    }
}

#[test]
fn backup_channel_fields() {
    let c = Channel {
        id: 3,
        chanid: "UCabc".to_string(),
        service: Service::Youtube,
        title: "T".to_string(),
        thumbnail: "https://example.com/t.jpg".to_string(),
    };
    let b = BackupChannel::from_channel(&c);
    assert_eq!(b.chanid, "UCabc");
    assert_eq!(b.service, "youtube");
    assert_eq!(b.icon, "https://example.com/t.jpg");
    assert_eq!(b.id, 3);
}

#[test]
fn backup_video_round_trip() {
    let b = BackupVideoInfo::from_record(&record(VideoStatus::GrabError, 1675209600));
    assert_eq!(b.status, "grab-error");
    assert_eq!(b.publishdate, "2023-02-01T00:00:00+00:00");
    assert_eq!(b.channel_id, 3);
    let (v, s) = b.into_video().unwrap();
    assert_eq!(s, VideoStatus::GrabError);
    assert_eq!(v.published_at, Timestamp::from_secs(1675209600).unwrap());
    assert_eq!(v.id, "vid");
    assert_eq!(v.title, "A title");
}

#[test]
fn backup_date_with_offset_is_read_as_instant() {
    let mut b = BackupVideoInfo::from_record(&record(VideoStatus::New, 0));
    b.publishdate = "2023-01-01T02:00:00+02:00".to_string();
    let (v, _) = b.into_video().unwrap();
    assert_eq!(v.published_at.secs(), 1672531200);
}

#[test]
fn backup_bad_date() {
    let mut b = BackupVideoInfo::from_record(&record(VideoStatus::New, 0));
    b.publishdate = "yesterday".to_string();
    assert_eq!(b.into_video().unwrap_err(), BackupError::BadDate("yesterday".to_string()));
}

#[test]
fn backup_bad_status() {
    let mut b = BackupVideoInfo::from_record(&record(VideoStatus::New, 0));
    b.status = "lost".to_string();
    match b.into_video() {
        Err(BackupError::BadStatus(e)) => assert_eq!(e.token, "lost"),
        other => panic!("expected a status error, got {:?}", other),
    }
}

#[test]
fn timestamp_range_and_parse() {
    assert!(Timestamp::from_secs(MIN_SECS).is_some());
    assert!(Timestamp::from_secs(MAX_SECS).is_some());
    assert!(Timestamp::from_secs(MIN_SECS - 1).is_none());
    assert!(Timestamp::from_secs(MAX_SECS + 1).is_none());
    assert_eq!(
        Timestamp::parse_rfc3339("2023-03-01T00:00:00Z"),
        Timestamp::from_secs(1677628800)
    );
    assert_eq!(Timestamp::from_secs(MAX_SECS).unwrap().to_rfc3339(), "9999-12-31T23:59:59+00:00");
    assert!(Timestamp::parse_rfc3339("not a date").is_none());
    let t = Timestamp::from_secs(10).unwrap();
    assert!(t.is_after(&Timestamp::from_secs(9).unwrap()));
    assert!(!t.is_after(&t));
}

#[test]
fn backup_bad_status_wins_over_bad_date() {
    let mut b = BackupVideoInfo::from_record(&record(VideoStatus::New, 0));
    b.status = "bogus".to_string();
    b.publishdate = "yesterday".to_string();
    match b.into_video() {
        Err(BackupError::BadStatus(e)) => assert_eq!(e.token, "bogus"),
        other => panic!("expected a status error, got {:?}", other),
    }
}
