use minibrowser::adblock::{blocked_hosts, blocks_request, is_blocked, url_blocked};

fn set() -> Vec<String> {
    blocked_hosts()
}

#[test]
fn adblock_blocks_exact_domain() {
    let s = set();
    assert!(is_blocked("doubleclick.net", &s));
}

#[test]
fn adblock_blocks_subdomain() {
    let s = set();
    assert!(is_blocked("securepubads.g.doubleclick.net", &s));
    assert!(is_blocked("www.google-analytics.com", &s));
}

#[test]
fn adblock_allows_normal_sites() {
    let s = set();
    assert!(!is_blocked("example.com", &s));
    assert!(!is_blocked("wikipedia.org", &s));
    assert!(!is_blocked("doubleclick.evil.com", &s));
}

#[test]
fn adblock_case_insensitive() {
    let s = set();
    assert!(is_blocked("DOUBLECLICK.NET", &s));
}

#[test]
fn url_blocked_youtube_ads() {
    let u = "https://www.youtube.com/api/stats/ads?x=1";
    assert!(url_blocked(u));
    let u = "https://rr1---sn-xxx.googlevideo.com/videoplayback?id=abc&oad=1&x=2";
    assert!(url_blocked(u));
    let u = "https://rr1.googlevideo.com/videoplayback?id=abc&x=2";
    assert!(!url_blocked(u));
    assert!(url_blocked("https://www.google.com/aclk?sa=L&ai=test"));
    assert!(url_blocked(
        "https://www.youtube.com/pagead/interaction/?ai=test"
    ));
}

#[test]
fn blocked_hosts_lists_every_domain_once() {
    let s = set();
    assert_eq!(s.len(), 111);
    assert_eq!(s[0], "2mdn.net");
    assert_eq!(s[110], "zedo.com");
    let unique: std::collections::HashSet<&String> = s.iter().collect();
    assert_eq!(unique.len(), s.len());
}

#[test]
fn trailing_dots_are_ignored() {
    let s = set();
    assert!(is_blocked("doubleclick.net.", &s));
    assert!(is_blocked("Ads.DoubleClick.Net..", &s));
    assert!(!is_blocked("notdoubleclick.net", &s));
    assert!(!is_blocked("", &s));
}

#[test]
fn subdomain_of_any_blocked_host_is_blocked() {
    let s = set();
    for host in &s {
        let sub = format!("cdn.{}", host);
        assert!(is_blocked(&sub, &s));
        assert!(is_blocked(host, &s));
    }
}

#[test]
fn googlevideo_needs_both_host_and_marker() {
    assert!(!url_blocked("https://example.com/videoplayback?oad=1"));
    assert!(!url_blocked("googlevideo.com/videoplayback?oad=1"));
    assert!(url_blocked("http://r3.googlevideo.com/v?oad=2"));
    assert!(url_blocked("https://x.com/get_midroll_info?v=1"));
    assert!(!url_blocked("http://r3.googlevideo.com?oad=2"));
    assert!(!url_blocked(""));
}

#[test]
fn request_decision_combines_url_and_host() {
    let s = set();
    assert!(blocks_request(true, "https://doubleclick.net/x", Some("doubleclick.net"), &s));
    assert!(blocks_request(true, "https://www.youtube.com/pagead/x", Some("www.youtube.com"), &s));
    assert!(!blocks_request(true, "https://example.com/", Some("example.com"), &s));
    assert!(!blocks_request(false, "https://doubleclick.net/x", Some("doubleclick.net"), &s));
    assert!(!blocks_request(true, "data:text/plain,hi", None, &s));
}
