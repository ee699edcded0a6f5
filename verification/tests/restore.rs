use minibrowser::restore::{accepts_restore_url, restore_url_valid, snapshot_valid};

/// The verdict on a page's scroll position and media values.
fn page_ok(x: f64, y: f64, media: &[(f64, f64, f64)]) -> bool {
    x.is_finite()
        && y.is_finite()
        && media.iter().all(|&(time, volume, rate)| {
            time.is_finite()
                && time >= 0.0
                && (0.0..=1.0).contains(&volume)
                && rate.is_finite()
                && rate > 0.0
                && rate <= 16.0
        })
}

#[test]
fn rejects_invalid_restore_data() {
    let url = "https://www.youtube.com/watch?v=test";
    assert!(snapshot_valid(url, 0, page_ok(0.0, 100.0, &[])));
    let url = "javascript:alert(1)";
    assert!(!snapshot_valid(url, 0, page_ok(0.0, 100.0, &[])));
    let url = "https://example.com";
    let media = [(f64::NAN, 1.0, 1.0)];
    assert!(!snapshot_valid(url, media.len(), page_ok(0.0, 100.0, &media)));
}

#[test]
fn restore_urls_must_be_short_web_addresses() {
    assert!(restore_url_valid("https://example.com"));
    assert!(restore_url_valid("http://example.com/a"));
    assert!(restore_url_valid("HTTPS://EXAMPLE.COM"));
    assert!(!restore_url_valid("file:///etc/passwd"));
    assert!(!restore_url_valid("not a url"));
    let long = format!("https://example.com/{}", "a".repeat(8192));
    assert!(!restore_url_valid(&long));
    assert!(accepts_restore_url("x", Some("https")));
    assert!(!accepts_restore_url("x", Some("ftp")));
    assert!(!accepts_restore_url("x", None));
}

#[test]
fn at_most_sixteen_media_elements() {
    let url = "https://example.com";
    assert!(snapshot_valid(url, 16, true));
    assert!(!snapshot_valid(url, 17, true));
    assert!(!snapshot_valid(url, 0, false));
}
