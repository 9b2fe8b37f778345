use vidl::model::{Channel, Service, VideoInfo, VideoRecord};
use vidl::status::VideoStatus;
use vidl::time::Timestamp;
use vidl::web::{WebChannel, WebChannelList, WebChannelVideos, WebVideoInfo};

fn channel(id: i64, chanid: &str, service: Service) -> Channel {
    Channel {
        id,
        chanid: chanid.to_string(),
        service,
        title: format!("title {}", id),
        thumbnail: format!("https://example.com/c{}.jpg", id),
    }
}

fn record(id: i64, chanid: i64, secs: i64, status: VideoStatus) -> VideoRecord {
    VideoRecord {
        id,
        chanid,
        info: VideoInfo {
            id: format!("v{}", id),
            url: format!("https://example.com/v{}", id),
            title: format!("video {}", id),
            description: "about".to_string(),
            thumbnail_url: format!("https://example.com/v{}.jpg", id),
            published_at: Timestamp::from_secs(secs).unwrap(),
        },
        status,
    }
}

#[test]
fn web_channel_shows_channel() {
    let w = WebChannel::from_channel(channel(3, "UCabc", Service::Youtube));
    assert_eq!(w.id, 3);
    assert_eq!(w.chanid, "UCabc");
    assert_eq!(w.service, "youtube");
    assert_eq!(w.title, "title 3");
    assert_eq!(w.icon, "https://example.com/c3.jpg");
}

#[test]
fn web_channel_list_keeps_order() {
    let l = WebChannelList::from_channels(vec![
        channel(2, "b", Service::Vimeo),
        channel(1, "a", Service::Youtube),
    ]);
    let got: Vec<(i64, String)> = l.channels.iter().map(|c| (c.id, c.service.clone())).collect();
    assert_eq!(got, vec![(2, "vimeo".to_string()), (1, "youtube".to_string())]);
    assert!(WebChannelList::from_channels(Vec::new()).channels.is_empty());
}

#[test]
fn web_video_formats_date_and_status() {
    let chan = WebChannel::from_channel(channel(1, "a", Service::Youtube));
    let w = WebVideoInfo::from_record(record(9, 1, 1672531200, VideoStatus::GrabError), &chan);
    assert_eq!(w.id, 9);
    assert_eq!(w.video_id, "v9");
    assert_eq!(w.published_at, "2023-01-01T00:00:00+00:00");
    assert_eq!(w.status_class, "ytdl-graberror");
    assert_eq!(w.channel.id, 1);
}

#[test]
fn web_channel_videos_pairs_each_video_with_its_channel() {
    let chans = vec![
        WebChannel::from_channel(channel(1, "a", Service::Youtube)),
        WebChannel::from_channel(channel(2, "b", Service::Youtube)),
    ];
    let page = WebChannelVideos::from_records(
        vec![
            record(10, 2, 100, VideoStatus::New),
            record(11, 1, 50, VideoStatus::Grabbed),
        ],
        &chans,
    )
    .unwrap();
    let got: Vec<(i64, i64, String)> =
        page.videos.iter().map(|v| (v.id, v.channel.id, v.status_class.clone())).collect();
    assert_eq!(
        got,
        vec![(10, 2, "ytdl-new".to_string()), (11, 1, "ytdl-grabbed".to_string())]
    );
    assert_eq!(page.videos[1].published_at, "1970-01-01T00:00:50+00:00");
}

#[test]
fn web_channel_videos_missing_channel_is_none() {
    let chans = vec![WebChannel::from_channel(channel(1, "a", Service::Youtube))];
    let page =
        WebChannelVideos::from_records(vec![record(10, 2, 100, VideoStatus::New)], &chans);
    assert!(page.is_none());
}
