use vidl::cache::{Image, ImageCache, ImageCacheResponse};
use vidl::queue::{WorkItem, WorkQueue, WorkerAction};

fn png(bytes: &[u8]) -> Image {
    Image { data: bytes.to_vec(), content_type: "image/png".to_string() }
}

#[test]
fn cold_get_redirects_and_queues_one_fetch() {
    let mut cache = ImageCache::new();
    let mut q = WorkQueue::new();
    let url = "https://example.com/a.png".to_string();
    match cache.get(url.clone(), &mut q) {
        ImageCacheResponse::Redirect(u) => assert_eq!(u, url),
        other => panic!("expected a redirect, got {:?}", other),
    }
    match q.next_action() {
        WorkerAction::Run { ticket, item } => {
            assert_eq!(item, WorkItem::ThumbnailCache { url: url.clone() });
            cache.add(&url, png(&[1, 2, 3]));
            assert!(q.complete(ticket));
        }
        other => panic!("expected one fetch, got {:?}", other),
    }
    assert_eq!(q.next_action(), WorkerAction::Wait);
    match cache.get(url.clone(), &mut q) {
        ImageCacheResponse::Image(img) => {
            assert_eq!(img.data, vec![1, 2, 3]);
            assert_eq!(img.content_type, "image/png");
        }
        other => panic!("expected the image, got {:?}", other),
    }
    // A hit queues nothing.
    assert_eq!(q.next_action(), WorkerAction::Wait);
}

#[test]
fn add_overwrites_earlier_image() {
    let mut cache = ImageCache::new();
    let mut q = WorkQueue::new();
    cache.add("u", png(&[1]));
    cache.add("v", png(&[2]));
    cache.add("u", Image { data: vec![9, 9], content_type: "image/jpeg".to_string() });
    match cache.get("u".to_string(), &mut q) {
        ImageCacheResponse::Image(img) => {
            assert_eq!(img.data, vec![9, 9]);
            assert_eq!(img.content_type, "image/jpeg");
        }
        other => panic!("expected the image, got {:?}", other),
    }
    match cache.get("v".to_string(), &mut q) {
        ImageCacheResponse::Image(img) => assert_eq!(img.data, vec![2]),
        other => panic!("expected the image, got {:?}", other),
    }
}

#[test]
fn miss_on_stopped_queue_still_redirects() {
    let mut cache = ImageCache::new();
    let mut q = WorkQueue::new();
    q.stop();
    match cache.get("w".to_string(), &mut q) {
        ImageCacheResponse::Redirect(u) => assert_eq!(u, "w"),
        other => panic!("expected a redirect, got {:?}", other),
    }
    assert_eq!(q.next_action(), WorkerAction::Exit);
}
