use minibrowser::query::resolve_query;

#[test]
fn resolve_url_direct() {
    assert_eq!(
        resolve_query("example.com", "google"),
        "https://example.com"
    );
    assert_eq!(
        resolve_query("https://x.org/a", "google"),
        "https://x.org/a"
    );
    assert_eq!(
        resolve_query("localhost:8080", "google"),
        "http://localhost:8080"
    );
    assert_eq!(
        resolve_query("127.0.0.1:3000", "google"),
        "http://127.0.0.1:3000"
    );
}

#[test]
fn resolve_url_search() {
    let g = resolve_query("gatos bonitos", "google");
    assert!(g.starts_with("https://www.google.com/search?q="));
    assert!(g.contains("gatos"));
}

#[test]
fn resolve_empty_query_uses_selected_engine() {
    assert_eq!(
        resolve_query("  ", "ddg"),
        "https://html.duckduckgo.com/html/"
    );
    assert_eq!(resolve_query("", "bing"), "https://www.bing.com/");
}

#[test]
fn search_query_is_form_encoded() {
    assert_eq!(
        resolve_query("gatos bonitos", "google"),
        "https://www.google.com/search?q=gatos+bonitos"
    );
    assert_eq!(
        resolve_query("a&b=c", "bing"),
        "https://www.bing.com/search?q=a%26b%3Dc"
    );
    assert_eq!(
        resolve_query("  año nuevo ", "ddg"),
        "https://html.duckduckgo.com/html/?q=a%C3%B1o+nuevo"
    );
    assert_eq!(
        resolve_query("x*-_y z", "other"),
        "https://html.duckduckgo.com/html/?q=x*-_y+z"
    );
}

#[test]
fn scheme_prefix_is_case_insensitive_and_kept() {
    assert_eq!(resolve_query("  HTTP://Example.com ", "google"), "HTTP://Example.com");
    assert_eq!(resolve_query("LOCALHOST", "google"), "http://LOCALHOST");
    assert_eq!(resolve_query("[::1]:80", "google"), "http://[::1]:80");
    assert_eq!(resolve_query("a/b", "google"), "https://a/b");
    assert_eq!(resolve_query("x*-._y", "google"), "https://x*-._y");
}

#[test]
fn home_pages_of_each_engine() {
    assert_eq!(resolve_query("\t\n", "google"), "https://www.google.com/");
    assert_eq!(resolve_query("\u{3000}", "unknown"), "https://html.duckduckgo.com/html/");
}

#[test]
fn surrounding_space_changes_nothing() {
    for q in ["example.com", "gatos bonitos", "HTTPS://a.b", "localhost", ""] {
        for engine in ["google", "bing", "ddg"] {
            let padded = format!(" \t{}\n ", q);
            assert_eq!(resolve_query(&padded, engine), resolve_query(q, engine));
            let r = resolve_query(q, engine);
            let lower = r.to_ascii_lowercase();
            assert!(lower.starts_with("http://") || lower.starts_with("https://"));
            assert_eq!(r.trim(), r);
            for other in ["google", "bing", "ddg", "x"] {
                assert_eq!(resolve_query(&r, other), r);
            }
        }
    }
}
