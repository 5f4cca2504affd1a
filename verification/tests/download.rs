use ai_reader::asset::{
    absolute_image_index, asset_extensions, image_data_url, mime_type,
};
use ai_reader::download::{
    classify_status, gutenberg_host, needs_throttle, RateLimiter, ResponseKind, MIN_INTERVAL_MS,
};

#[test]
fn throttled_hosts() {
    assert!(gutenberg_host("gutenberg.org"));
    assert!(gutenberg_host("www.gutenberg.org"));
    assert!(gutenberg_host("a.b.gutenberg.org"));
    assert!(gutenberg_host(".gutenberg.org"));
    assert!(!gutenberg_host("notgutenberg.org"));
    assert!(!gutenberg_host("gutenberg.org.example.com"));
    assert!(!gutenberg_host("gutenberg.com"));
    assert!(!gutenberg_host("Gutenberg.org"));
    assert!(!gutenberg_host("org"));
    assert!(!gutenberg_host(""));
}

#[test]
fn throttled_addresses() {
    assert!(needs_throttle("https://www.gutenberg.org/ebooks/6130.kf8.images"));
    assert!(needs_throttle("http://gutenberg.org/"));
    assert!(needs_throttle("https://WWW.GUTENBERG.ORG/x"));
    assert!(!needs_throttle("https://gutendex.com/books/"));
    assert!(!needs_throttle("https://example.com/?host=gutenberg.org"));
    assert!(!needs_throttle("not an address"));
    assert!(!needs_throttle("mailto:someone@gutenberg.org"));
    assert!(!needs_throttle(""));
}

#[test]
fn first_caller_goes_at_once() {
    let mut limiter = RateLimiter::new(1000);
    assert_eq!(limiter.reserve(1000), 0);
    assert_eq!(limiter.next_allowed, 3000);
    let mut limiter = RateLimiter::new(1000);
    assert_eq!(limiter.reserve(5000), 0);
    assert_eq!(limiter.next_allowed, 7000);
}

#[test]
fn callers_that_ask_together_wake_one_after_the_other() {
    let mut limiter = RateLimiter::new(0);
    let now = 10_000u64;
    let mut wakes = Vec::new();
    for _ in 0..6 {
        let delay = limiter.reserve(now);
        wakes.push(now + delay);
    }
    assert_eq!(wakes, vec![10_000, 12_000, 14_000, 16_000, 18_000, 20_000]);
    for pair in wakes.windows(2) {
        assert!(pair[1] - pair[0] >= MIN_INTERVAL_MS);
    }
}

#[test]
fn callers_keep_their_distance_whenever_they_ask() {
    let mut limiter = RateLimiter::new(0);
    let asks = [5u64, 100, 90, 2500, 9000, 9000, 8000];
    let mut wakes = Vec::new();
    for now in asks {
        wakes.push(now + limiter.reserve(now));
    }
    assert_eq!(wakes, vec![5, 2005, 4005, 6005, 9000, 11_000, 13_000]);
    for i in 0..wakes.len() {
        for j in (i + 1)..wakes.len() {
            assert!(wakes[j] - wakes[i] >= 2000 * (j - i) as u64);
        }
    }
}

#[test]
fn limiter_stops_at_the_last_moment() {
    let mut limiter = RateLimiter::new(u64::MAX - 10);
    assert_eq!(limiter.reserve(u64::MAX - 10), 0);
    assert_eq!(limiter.next_allowed, u64::MAX);
    assert_eq!(limiter.reserve(u64::MAX - 10), 10);
    assert_eq!(limiter.next_allowed, u64::MAX);
    let mut limiter = RateLimiter::new(u64::MAX - 2000);
    assert_eq!(limiter.reserve(0), u64::MAX - 2000);
    assert_eq!(limiter.next_allowed, u64::MAX);
}

#[test]
fn only_throttled_addresses_reserve_a_slot() {
    let mut limiter = RateLimiter::new(0);
    assert_eq!(limiter.throttle_if_needed("https://www.gutenberg.org/a", 100), 0);
    assert_eq!(limiter.throttle_if_needed("https://example.com/a", 100), 0);
    assert_eq!(limiter.next_allowed, 2100);
    assert_eq!(limiter.throttle_if_needed("https://www.gutenberg.org/b", 600), 1500);
    assert_eq!(limiter.next_allowed, 4100);
    assert_eq!(limiter.throttle_if_needed("nonsense", 600), 0);
    assert_eq!(limiter.next_allowed, 4100);
}

#[test]
fn response_statuses() {
    assert_eq!(classify_status(200), ResponseKind::Success);
    assert_eq!(classify_status(204), ResponseKind::Success);
    assert_eq!(classify_status(299), ResponseKind::Success);
    assert_eq!(classify_status(403), ResponseKind::Blocked);
    assert_eq!(classify_status(429), ResponseKind::Blocked);
    assert_eq!(classify_status(199), ResponseKind::Failed);
    assert_eq!(classify_status(300), ResponseKind::Failed);
    assert_eq!(classify_status(404), ResponseKind::Failed);
    assert_eq!(classify_status(500), ResponseKind::Failed);
    assert_eq!(classify_status(0), ResponseKind::Failed);
}

#[test]
fn image_numbers_and_record_indices() {
    assert_eq!(absolute_image_index(449, 1), Some(449));
    assert_eq!(absolute_image_index(449, 3), Some(451));
    assert_eq!(absolute_image_index(1, 0), Some(0));
    assert_eq!(absolute_image_index(0, 0), None);
    assert_eq!(absolute_image_index(-1, 1), None);
    assert_eq!(absolute_image_index(i32::MAX, 1), Some(i32::MAX as usize));
    assert_eq!(absolute_image_index(i32::MAX, 2), None);
    assert_eq!(absolute_image_index(i32::MIN, i32::MIN), None);
}

#[test]
fn asset_lookup_order_and_media_types() {
    assert_eq!(asset_extensions(), vec!["jpg", "png", "gif", "bin"]);
    assert_eq!(mime_type("jpg"), "image/jpeg");
    assert_eq!(mime_type("jpeg"), "image/jpeg");
    assert_eq!(mime_type("png"), "image/png");
    assert_eq!(mime_type("gif"), "image/gif");
    assert_eq!(mime_type("bin"), "image/jpeg");
    assert_eq!(mime_type("PNG"), "image/jpeg");
}

#[test]
fn data_address_of_an_image() {
    assert_eq!(
        image_data_url("png", b"Hello world"),
        "data:image/png;base64,SGVsbG8gd29ybGQ="
    );
    assert_eq!(image_data_url("jpg", &[0xff, 0xd8, 0xff]), "data:image/jpeg;base64,/9j/");
    assert_eq!(image_data_url("gif", b""), "data:image/gif;base64,");
}
