use daily_wallpapers::listing::{sort_listing, str_le};
use daily_wallpapers::text::{mime_is_image, str_eq};

fn strings(items: &[&str]) -> Vec<String> {
    items.iter().map(|s| s.to_string()).collect()
}

#[test]
fn sort_listing_orders_paths_lexicographically() {
    let sorted = sort_listing(strings(&["/d/c.png", "/d/a.png", "/d/b.png"]));
    assert_eq!(sorted, strings(&["/d/a.png", "/d/b.png", "/d/c.png"]));
}

#[test]
fn sort_listing_keeps_duplicates() {
    let sorted = sort_listing(strings(&["/d/b.png", "/d/a.png", "/d/a.png"]));
    assert_eq!(sorted, strings(&["/d/a.png", "/d/a.png", "/d/b.png"]));
}

#[test]
fn sort_listing_is_case_sensitive() {
    // Capital letters order before lower-case ones, as in the candidate
    // listing contract.
    let sorted = sort_listing(strings(&["/d/b.png", "/d/B.png", "/d/A.png"]));
    assert_eq!(sorted, strings(&["/d/A.png", "/d/B.png", "/d/b.png"]));
}

#[test]
fn sort_listing_of_empty_listing_is_empty() {
    assert!(sort_listing(Vec::new()).is_empty());
}

#[test]
fn relisting_the_same_contents_gives_the_same_order() {
    let first = sort_listing(strings(&["/d/c.png", "/d/a.png", "/d/b.png"]));
    let second = sort_listing(strings(&["/d/b.png", "/d/c.png", "/d/a.png"]));
    assert_eq!(first, second);
}

#[test]
fn str_le_compares_prefix_and_characters() {
    assert!(str_le("a", "ab"));
    assert!(!str_le("ab", "a"));
    assert!(str_le("abc", "abd"));
    assert!(!str_le("abd", "abc"));
    assert!(str_le("", ""));
    assert!(str_le("same", "same"));
}

#[test]
fn str_eq_compares_whole_strings() {
    assert!(str_eq("minute", "minute"));
    assert!(!str_eq("minute", "minutes"));
    assert!(!str_eq("hour", "day"));
    assert!(str_eq("", ""));
}

#[test]
fn mime_is_image_checks_top_level_type() {
    assert!(mime_is_image("image/png"));
    assert!(mime_is_image("image/jpeg"));
    assert!(mime_is_image("image"));
    assert!(!mime_is_image("text/plain"));
    assert!(!mime_is_image("imagery/x"));
    assert!(!mime_is_image("inode/directory"));
    assert!(!mime_is_image("img"));
}
