use paker::listing_cache::ListingCache;
use paker::s3_ops::{parent_listing_prefix, ListObjectsResult, ObjectInfo};

fn sample_listing() -> ListObjectsResult {
    ListObjectsResult {
        objects: vec![ObjectInfo {
            key: "photos/cat.jpg".to_string(),
            size: 1024,
            last_modified: None,
            etag: None,
            storage_class: None,
            is_prefix: false,
        }],
        common_prefixes: vec!["photos/dogs/".to_string()],
        continuation_token: None,
        is_truncated: false,
    }
}

#[test]
fn first_page_listing_uses_lru() {
    let mut cache = ListingCache::new();
    let listing = sample_listing();
    cache.remember("conn-1", "my-bucket", "photos/", "", &listing, "1718000000");
    let (from_lru, fetched_at) = cache
        .get("conn-1", "my-bucket", "photos/", "")
        .expect("listing should be cached");
    assert_eq!(from_lru.objects.len(), 1);
    assert_eq!(from_lru.common_prefixes, vec!["photos/dogs/".to_string()]);
    assert_eq!(fetched_at, "1718000000");
}

#[test]
fn continuation_token_bypasses_lru() {
    let mut cache = ListingCache::new();
    let first_page = sample_listing();
    let second_page = ListObjectsResult {
        objects: vec![ObjectInfo {
            key: "photos/zebra.jpg".to_string(),
            size: 2048,
            last_modified: None,
            etag: None,
            storage_class: None,
            is_prefix: false,
        }],
        common_prefixes: vec![],
        continuation_token: Some("token-2".to_string()),
        is_truncated: false,
    };
    cache.remember("conn-1", "bucket", "photos/", "", &first_page, "1");
    cache.remember("conn-1", "bucket", "photos/", "token-2", &second_page, "2");
    // Later pages are never kept in memory: the database answers for them.
    assert!(cache.get("conn-1", "bucket", "photos/", "token-2").is_none());
    let (first, _) = cache.get("conn-1", "bucket", "photos/", "").expect("first page");
    assert_eq!(first.objects[0].key, "photos/cat.jpg");
}

#[test]
fn invalidate_prefix_removes_listings_heads_and_sizes() {
    let mut cache = ListingCache::new();
    let listing = sample_listing();
    cache.remember("conn-1", "bucket", "photos/", "", &listing, "1");
    cache.remember("conn-1", "bucket", "photos/nested/", "", &listing, "1");
    cache.remember("conn-1", "bucket", "videos/", "", &listing, "1");
    cache.remember("conn-2", "bucket", "photos/", "", &listing, "1");
    cache.invalidate_under_prefix("conn-1", "bucket", "photos/");
    assert!(cache.get("conn-1", "bucket", "photos/", "").is_none());
    assert!(cache.get("conn-1", "bucket", "photos/nested/", "").is_none());
    assert!(cache.get("conn-1", "bucket", "videos/", "").is_some());
    assert!(cache.get("conn-2", "bucket", "photos/", "").is_some());
}

#[test]
fn invalidate_parent_if_needed_clears_parent_listing_only() {
    let mut cache = ListingCache::new();
    let parent_listing = ListObjectsResult {
        objects: vec![],
        common_prefixes: vec!["photos/".to_string()],
        continuation_token: None,
        is_truncated: false,
    };
    cache.remember("conn-1", "bucket", "", "", &parent_listing, "1");
    cache.remember("conn-1", "bucket", "photos/", "", &sample_listing(), "1");
    let parent = parent_listing_prefix("photos/").expect("photos/ has a parent");
    cache.invalidate_exact("conn-1", "bucket", &parent);
    assert!(cache.get("conn-1", "bucket", "", "").is_none());
    assert!(cache.get("conn-1", "bucket", "photos/", "").is_some());
}

#[test]
fn lru_evicts_oldest_entry_at_capacity() {
    let mut cache = ListingCache::with_capacity(2);
    let listing = sample_listing();
    cache.remember("conn", "bucket", "a/", "", &listing, "1");
    cache.remember("conn", "bucket", "b/", "", &listing, "1");
    cache.remember("conn", "bucket", "c/", "", &listing, "1");
    assert!(cache.get("conn", "bucket", "a/", "").is_none());
    assert!(cache.get("conn", "bucket", "b/", "").is_some());
    assert!(cache.get("conn", "bucket", "c/", "").is_some());
}

#[test]
fn lookup_refreshes_recency() {
    let mut cache = ListingCache::with_capacity(2);
    let listing = sample_listing();
    cache.remember("conn", "bucket", "a/", "", &listing, "1");
    cache.remember("conn", "bucket", "b/", "", &listing, "1");
    // Using a/ makes b/ the least recently used, so c/ evicts b/.
    assert!(cache.get("conn", "bucket", "a/", "").is_some());
    cache.remember("conn", "bucket", "c/", "", &listing, "1");
    assert!(cache.get("conn", "bucket", "b/", "").is_none());
    assert!(cache.get("conn", "bucket", "a/", "").is_some());
    // Remembering a kept page again replaces it without evicting another.
    cache.remember("conn", "bucket", "a/", "", &listing, "2");
    let (_, fetched_at) = cache.get("conn", "bucket", "a/", "").expect("a/ kept");
    assert_eq!(fetched_at, "2");
    assert!(cache.get("conn", "bucket", "c/", "").is_some());
}
