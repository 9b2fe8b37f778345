use vidl::model::{VideoInfo, VideoRecord};
use vidl::status::VideoStatus;
use vidl::sync::{newest_published, select_new_videos, should_ingest, videos_to_ingest, SyncScan};
use vidl::time::Timestamp;

const JAN_2023: i64 = 1672531200;
const MAR_2023: i64 = 1677628800;
const FEB_2023: i64 = 1675209600;
const DEC_2022: i64 = 1669852800;

fn ts(secs: i64) -> Timestamp {
    Timestamp::from_secs(secs).unwrap()
}

fn video(id: &str, secs: i64) -> VideoInfo {
    VideoInfo {
        id: id.to_string(),
        url: format!("https://example.com/watch?v={}", id),
        title: format!("title {}", id),
        description: String::new(),
        thumbnail_url: format!("https://example.com/{}.jpg", id),
        published_at: ts(secs),
    }
}

fn record(id: i64, chanid: i64, vid: &str, secs: i64) -> VideoRecord {
    VideoRecord { id, chanid, info: video(vid, secs), status: VideoStatus::New }
}

fn ids(vs: &[VideoInfo]) -> Vec<String> {
    vs.iter().map(|v| v.id.clone()).collect()
}

#[test]
fn sync_scenario_takes_newer_than_known() {
    let known = vec![record(1, 7, "V0", JAN_2023)];
    let fetched = vec![video("V3", MAR_2023), video("V2", FEB_2023), video("V1", DEC_2022)];
    let new = videos_to_ingest(&known, 7, fetched);
    assert_eq!(ids(&new), vec!["V3", "V2"]);
}

#[test]
fn sync_stops_at_first_not_newer() {
    // Out of order after the stop: the scan does not look past V1.
    let fetched = vec![
        video("V3", MAR_2023),
        video("V1", DEC_2022),
        video("V9", MAR_2023 + 100),
    ];
    let new = select_new_videos(Some(ts(JAN_2023)), fetched);
    assert_eq!(ids(&new), vec!["V3"]);
}

#[test]
fn sync_equal_time_is_not_new() {
    let fetched = vec![video("V0", JAN_2023), video("V-1", DEC_2022)];
    let new = select_new_videos(Some(ts(JAN_2023)), fetched);
    assert!(new.is_empty());
}

#[test]
fn sync_descending_takes_exactly_newer() {
    let t = JAN_2023;
    let fetched = vec![
        video("a", t + 30),
        video("b", t + 20),
        video("c", t + 1),
        video("d", t),
        video("e", t - 5),
    ];
    let new = select_new_videos(Some(ts(t)), fetched);
    assert_eq!(ids(&new), vec!["a", "b", "c"]);
}

#[test]
fn first_sync_takes_every_video() {
    let known = vec![record(1, 8, "other", MAR_2023)];
    let fetched = vec![video("V3", MAR_2023), video("V2", FEB_2023), video("V1", DEC_2022)];
    let new = videos_to_ingest(&known, 7, fetched);
    assert_eq!(ids(&new), vec!["V3", "V2", "V1"]);
}

#[test]
fn first_sync_of_empty_fetch_is_empty() {
    let new = select_new_videos(None, Vec::new());
    assert!(new.is_empty());
}

#[test]
fn newest_published_picks_latest_of_channel() {
    let known = vec![
        record(1, 7, "a", DEC_2022),
        record(2, 8, "b", MAR_2023),
        record(3, 7, "c", FEB_2023),
        record(4, 7, "d", JAN_2023),
    ];
    assert_eq!(newest_published(&known, 7), Some(ts(FEB_2023)));
    assert_eq!(newest_published(&known, 8), Some(ts(MAR_2023)));
    assert_eq!(newest_published(&known, 9), None);
}

#[test]
fn should_ingest_compares_strictly() {
    assert!(should_ingest(&None, &ts(DEC_2022)));
    assert!(should_ingest(&Some(ts(JAN_2023)), &ts(JAN_2023 + 1)));
    assert!(!should_ingest(&Some(ts(JAN_2023)), &ts(JAN_2023)));
    assert!(!should_ingest(&Some(ts(JAN_2023)), &ts(DEC_2022)));
}

#[test]
fn lazy_scan_stops_at_first_old_video() {
    let mut scan = SyncScan::new(Some(ts(JAN_2023)));
    assert!(scan.offer(&video("V3", MAR_2023)));
    assert!(scan.offer(&video("V2", FEB_2023)));
    assert!(!scan.offer(&video("V1", DEC_2022)));
    // Once stopped, later (even newer, out of order) videos are not taken.
    assert!(!scan.offer(&video("V9", MAR_2023 + 100)));
}

#[test]
fn lazy_scan_first_sync_takes_all() {
    let mut scan = SyncScan::new(None);
    for (i, secs) in [MAR_2023, FEB_2023, DEC_2022].iter().enumerate() {
        assert!(scan.offer(&video(&format!("V{}", i), *secs)));
    }
}
