//! Request blocking: a list of advertising and tracking domains, matched with
//! their subdomains, and URL patterns of ads that no domain rule covers.
use vstd::prelude::*;
use crate::text::{
    lemma_lower_concat, lemma_lower_trim_end_dots, lemma_trim_end_char_concat,    occurs_at,    chars_of, concat_vec, contains_seq, contains_vec, find, find_vec, has_suffix, is_suffix, lower,
    lower_vec, seq_eq, slice_vec, trim_end_char, trim_end_char_vec,
};

verus! {

/// The blocked advertising and tracking domains, in their listed order.
pub open spec fn adblock_domains() -> Seq<Seq<char>> {
    seq![
        "2mdn.net"@,
        "adcolony.com"@,
        "adform.net"@,
        "admarvel.com"@,
        "adnxs.com"@,
        "adsafeprotected.com"@,
        "adservice.google.com"@,
        "adsrvr.org"@,
        "adsterra.com"@,
        "adsymptotic.com"@,
        "adskeeper.com"@,
        "adjust.com"@,
        "admob.com"@,
        "adroll.com"@,
        "adobedtm.com"@,
        "amplitude.com"@,
        "appsflyer.com"@,
        "appnexus.com"@,
        "atdmt.com"@,
        "bidswitch.net"@,
        "bluekai.com"@,
        "branch.io"@,
        "burstnet.com"@,
        "c1exchange.com"@,
        "casalemedia.com"@,
        "chartbeat.com"@,
        "chartboost.com"@,
        "clickbank.net"@,
        "clicktale.net"@,
        "clarity.ms"@,
        "comscore.com"@,
        "contextweb.com"@,
        "crazyegg.com"@,
        "criteo.com"@,
        "criteo.net"@,
        "demdex.net"@,
        "doubleclick.net"@,
        "everesttech.net"@,
        "exelator.com"@,
        "eyeota.net"@,
        "facebook.net"@,
        "fullstory.com"@,
        "fyber.com"@,
        "googleadservices.com"@,
        "google-analytics.com"@,
        "googlesyndication.com"@,
        "googletagmanager.com"@,
        "googletagservices.com"@,
        "gumgum.com"@,
        "heap.io"@,
        "hilltopads.net"@,
        "hotjar.com"@,
        "improvedigital.com"@,
        "imrworldwide.com"@,
        "indexww.com"@,
        "inmobi.com"@,
        "inspectlet.com"@,
        "ironsrc.com"@,
        "juicyads.com"@,
        "kochava.com"@,
        "krxd.net"@,
        "lijit.com"@,
        "loopme.me"@,
        "luckyorange.com"@,
        "mathtag.com"@,
        "media.net"@,
        "mgid.com"@,
        "mintegral.com"@,
        "mixpanel.com"@,
        "moatads.com"@,
        "mopub.com"@,
        "mouseflow.com"@,
        "mparticle.com"@,
        "nativo.com"@,
        "omtrdc.net"@,
        "onetag.com"@,
        "openx.net"@,
        "optimizely.com"@,
        "outbrain.com"@,
        "parsely.com"@,
        "plista.com"@,
        "popads.net"@,
        "propellerads.com"@,
        "pubmatic.com"@,
        "quantserve.com"@,
        "rfihub.com"@,
        "rhythmone.com"@,
        "rlcdn.com"@,
        "rubiconproject.com"@,
        "scorecardresearch.com"@,
        "segment.com"@,
        "sharethrough.com"@,
        "smartadserver.com"@,
        "smaato.net"@,
        "sovrn.com"@,
        "spotxchange.com"@,
        "taboola.com"@,
        "tapad.com"@,
        "tapjoy.com"@,
        "teads.tv"@,
        "trafficrooster.com"@,
        "tremorhub.com"@,
        "tribalfusion.com"@,
        "triplelift.com"@,
        "undertone.com"@,
        "unityads.unity3d.com"@,
        "verve.com"@,
        "vungle.com"@,
        "vwo.com"@,
        "yieldmo.com"@,
        "zedo.com"@,
    ]
}

/// URL fragments of ads that the domain list does not cover (mostly YouTube).
pub open spec fn adblock_url_patterns() -> Seq<Seq<char>> {
    seq![
        "youtube.com/api/stats/ads"@,
        "youtube.com/pagead/"@,
        "/youtubei/v1/player/get_ad_break"@,
        "/get_midroll_info"@,
        "youtube.com/api/timedtext?type=track"@,
        "adservice.google.com"@,
        "googleads.g.doubleclick.net"@,
        "pagead2.googlesyndication.com"@,
        "securepubads.g.doubleclick.net"@,
        "static.doubleclick.net"@,
        "ad.doubleclick.net"@,
        "g.doubleclick.net"@,
        "google.com/aclk"@,
        "google.com/pagead/"@,
        "/pagead/"@,
    ]
}

/// A host as it is compared: trailing dots removed, ASCII-lowercased.
pub open spec fn normalize_host(host: Seq<char>) -> Seq<char> {
    lower(trim_end_char(host, '.'))
}

/// `host` is the blocked domain `domain` or one of its subdomains.
pub open spec fn domain_matches(host: Seq<char>, domain: Seq<char>) -> bool {
    host == domain || is_suffix(seq!['.'] + domain, host)
}

/// Whether `host` falls under one of the `blocked` domains.
pub open spec fn host_blocked(host: Seq<char>, blocked: Seq<Seq<char>>) -> bool {
    exists|i: int| 0 <= i < blocked.len() && domain_matches(normalize_host(host), blocked[i])
}

/// The views of a list of strings.
pub open spec fn views(v: Seq<String>) -> Seq<Seq<char>> {
    v.map_values(|s: String| s@)
}

/// The host of a URL's remainder after `://`: everything before the first `/`.
pub open spec fn first_segment(rest: Seq<char>) -> Seq<char> {
    match find(rest, seq!['/']) {
        Some(k) => rest.subrange(0, k),
        None => rest,
    }
}

/// Whether a request URL is an ad by its text alone.
pub open spec fn url_is_ad(s: Seq<char>) -> bool {
    (exists|k: int| 0 <= k < adblock_url_patterns().len() && contains_seq(s, adblock_url_patterns()[k]))
    || match find(s, "://"@) {
        Some(pos) => is_suffix(
            "googlevideo.com"@,
            first_segment(s.subrange(pos + "://"@.len(), s.len() as int)),
        )
            && contains_seq(s, "oad="@),
        None => false,
    }
}

fn domain_list() -> (r: Vec<&'static str>)
    ensures
        r@.map_values(|s: &str| s@) == adblock_domains(),
{
    let r = vec![
        "2mdn.net",
        "adcolony.com",
        "adform.net",
        "admarvel.com",
        "adnxs.com",
        "adsafeprotected.com",
        "adservice.google.com",
        "adsrvr.org",
        "adsterra.com",
        "adsymptotic.com",
        "adskeeper.com",
        "adjust.com",
        "admob.com",
        "adroll.com",
        "adobedtm.com",
        "amplitude.com",
        "appsflyer.com",
        "appnexus.com",
        "atdmt.com",
        "bidswitch.net",
        "bluekai.com",
        "branch.io",
        "burstnet.com",
        "c1exchange.com",
        "casalemedia.com",
        "chartbeat.com",
        "chartboost.com",
        "clickbank.net",
        "clicktale.net",
        "clarity.ms",
        "comscore.com",
        "contextweb.com",
        "crazyegg.com",
        "criteo.com",
        "criteo.net",
        "demdex.net",
        "doubleclick.net",
        "everesttech.net",
        "exelator.com",
        "eyeota.net",
        "facebook.net",
        "fullstory.com",
        "fyber.com",
        "googleadservices.com",
        "google-analytics.com",
        "googlesyndication.com",
        "googletagmanager.com",
        "googletagservices.com",
        "gumgum.com",
        "heap.io",
        "hilltopads.net",
        "hotjar.com",
        "improvedigital.com",
        "imrworldwide.com",
        "indexww.com",
        "inmobi.com",
        "inspectlet.com",
        "ironsrc.com",
        "juicyads.com",
        "kochava.com",
        "krxd.net",
        "lijit.com",
        "loopme.me",
        "luckyorange.com",
        "mathtag.com",
        "media.net",
        "mgid.com",
        "mintegral.com",
        "mixpanel.com",
        "moatads.com",
        "mopub.com",
        "mouseflow.com",
        "mparticle.com",
        "nativo.com",
        "omtrdc.net",
        "onetag.com",
        "openx.net",
        "optimizely.com",
        "outbrain.com",
        "parsely.com",
        "plista.com",
        "popads.net",
        "propellerads.com",
        "pubmatic.com",
        "quantserve.com",
        "rfihub.com",
        "rhythmone.com",
        "rlcdn.com",
        "rubiconproject.com",
        "scorecardresearch.com",
        "segment.com",
        "sharethrough.com",
        "smartadserver.com",
        "smaato.net",
        "sovrn.com",
        "spotxchange.com",
        "taboola.com",
        "tapad.com",
        "tapjoy.com",
        "teads.tv",
        "trafficrooster.com",
        "tremorhub.com",
        "tribalfusion.com",
        "triplelift.com",
        "undertone.com",
        "unityads.unity3d.com",
        "verve.com",
        "vungle.com",
        "vwo.com",
        "yieldmo.com",
        "zedo.com",
    ];
    proof {
        assert(r@.map_values(|s: &str| s@) =~= adblock_domains());
    }
    r
}

fn url_pattern_list() -> (r: Vec<&'static str>)
    ensures
        r@.map_values(|s: &str| s@) == adblock_url_patterns(),
{
    let r = vec![
        "youtube.com/api/stats/ads",
        "youtube.com/pagead/",
        "/youtubei/v1/player/get_ad_break",
        "/get_midroll_info",
        "youtube.com/api/timedtext?type=track",
        "adservice.google.com",
        "googleads.g.doubleclick.net",
        "pagead2.googlesyndication.com",
        "securepubads.g.doubleclick.net",
        "static.doubleclick.net",
        "ad.doubleclick.net",
        "g.doubleclick.net",
        "google.com/aclk",
        "google.com/pagead/",
        "/pagead/",
    ];
    proof {
        assert(r@.map_values(|s: &str| s@) =~= adblock_url_patterns());
    }
    r
}


/// The blocked domains, one string each.
pub fn blocked_hosts() -> (r: Vec<String>)
    ensures
        views(r@) == adblock_domains(),
{
    let list = domain_list();
    let mut r: Vec<String> = Vec::new();
    let mut i: usize = 0;
    while i < list.len()
        invariant
            i <= list.len(),
            list@.map_values(|s: &str| s@) == adblock_domains(),
            views(r@) == adblock_domains().subrange(0, i as int),
        decreases list.len() - i,
    {
        let s = String::from_str(list[i]);
        let ghost before = r@;
        r.push(s);
        proof {
            assert(list@.map_values(|s: &str| s@)[i as int] == list@[i as int]@);
            assert(r@ == before.push(s));
            assert(views(r@) =~= views(before).push(s@));
            assert(views(r@) =~= adblock_domains().subrange(0, i + 1));
        }
        i = i + 1;
    }
    proof {
        assert(adblock_domains().subrange(0, list@.len() as int) =~= adblock_domains());
    }
    r
}

/// The host as it is compared: trailing dots removed, ASCII-lowercased.
pub fn normalized_host(host: &str) -> (r: Vec<char>)
    ensures
        r@ == normalize_host(host@),
{
    let chars = chars_of(host);
    let trimmed = trim_end_char_vec(&chars, '.');
    lower_vec(&trimmed)
}

/// Whether `host` is one of the `blocked` domains or a subdomain of one,
/// ignoring ASCII case and trailing dots in `host`.
pub fn is_blocked(host: &str, blocked: &Vec<String>) -> (r: bool)
    ensures
        r == host_blocked(host@, views(blocked@)),
{
    let h = normalized_host(host);
    let dot: Vec<char> = vec!['.'];
    let mut i: usize = 0;
    while i < blocked.len()
        invariant
            i <= blocked.len(),
            h@ == normalize_host(host@),
            dot@ == seq!['.'],
            forall|j: int| 0 <= j < i ==> !domain_matches(h@, #[trigger] views(blocked@)[j]),
        decreases blocked.len() - i,
    {
        let b = chars_of(blocked[i].as_str());
        let dotted = concat_vec(&dot, &b);
        if seq_eq(&h, &b) || has_suffix(&h, &dotted) {
            proof {
                assert(views(blocked@)[i as int] == blocked@[i as int]@);
                assert(domain_matches(normalize_host(host@), views(blocked@)[i as int]));
            }
            return true;
        }
        proof {
            assert(views(blocked@)[i as int] == blocked@[i as int]@);
        }
        i = i + 1;
    }
    false
}

/// Whether a request URL is an ad by its text: it holds one of the listed
/// fragments, or it is a `googlevideo.com` video request that carries `oad=`.
pub fn url_blocked(uri: &str) -> (r: bool)
    ensures
        r == url_is_ad(uri@),
{
    let s = chars_of(uri);
    let patterns = url_pattern_list();
    let mut k: usize = 0;
    while k < patterns.len()
        invariant
            k <= patterns.len(),
            s@ == uri@,
            patterns@.map_values(|p: &str| p@) == adblock_url_patterns(),
            forall|j: int| 0 <= j < k ==> !contains_seq(s@, #[trigger] adblock_url_patterns()[j]),
        decreases patterns.len() - k,
    {
        let p = chars_of(patterns[k]);
        proof {
            assert(p@ == adblock_url_patterns()[k as int]);
        }
        if contains_vec(&s, &p) {
            return true;
        }
        k = k + 1;
    }
    let sep = chars_of("://");
    let n = s.len();
    let m = sep.len();
    match find_vec(&s, &sep) {
        Some(pos) => {
            proof {
                crate::text::lemma_find_some_iff_contains(s@, sep@);
                assert(occurs_at(s@, sep@, pos as int));
                assert(pos + sep@.len() <= s@.len());
            }
            let start = pos + m;
            let rest = slice_vec(&s, start, n);
            let slash: Vec<char> = vec!['/'];
            proof {
                assert(slash@ =~= seq!['/']);
            }
            let host = match find_vec(&rest, &slash) {
                Some(end) => {
                    proof {
                        crate::text::lemma_find_some_iff_contains(rest@, slash@);
                    }
                    slice_vec(&rest, 0, end)
                },
                None => rest,
            };
            let video = chars_of("googlevideo.com");
            let oad = chars_of("oad=");
            has_suffix(&host, &video) && contains_vec(&s, &oad)
        },
        None => false,
    }
}

/// The decision for one web request: block it when blocking is on and either
/// its URL is an ad or its host is a blocked domain.
pub fn blocks_request(enabled: bool, uri: &str, host: Option<&str>, blocked: &Vec<String>) -> (r:
    bool)
    ensures
        r == (enabled && (url_is_ad(uri@) || match host {
            Some(h) => host_blocked(h@, views(blocked@)),
            None => false,
        })),
{
    if !enabled {
        return false;
    }
    let by_url = url_blocked(uri);
    let by_host = match host {
        Some(h) => is_blocked(h, blocked),
        None => false,
    };
    by_host || by_url
}

/// Blocking ignores ASCII case: two hosts that lowercase alike are blocked
/// alike.
pub proof fn lemma_blocking_ignores_case(h1: Seq<char>, h2: Seq<char>, blocked: Seq<Seq<char>>)
    requires
        lower(h1) == lower(h2),
    ensures
        host_blocked(h1, blocked) == host_blocked(h2, blocked),
{
    lemma_lower_trim_end_dots(h1);
    lemma_lower_trim_end_dots(h2);
    assert(normalize_host(h1) == normalize_host(h2));
}

/// Every subdomain of a blocked host is blocked: prefixing a label and a dot
/// to a blocked host (one that is more than dots) keeps it blocked.
pub proof fn lemma_subdomains_blocked(h: Seq<char>, sub: Seq<char>, blocked: Seq<Seq<char>>)
    requires
        host_blocked(h, blocked),
        trim_end_char(h, '.').len() > 0,
    ensures
        host_blocked(sub + seq!['.'] + h, blocked),
{
    let i = choose|i: int|
        0 <= i < blocked.len() && domain_matches(normalize_host(h), blocked[i]);
    let prefix = sub + seq!['.'];
    lemma_trim_end_char_concat(prefix, h, '.');
    assert(sub + seq!['.'] + h == prefix + h);
    lemma_lower_concat(prefix, trim_end_char(h, '.'));
    lemma_lower_concat(sub, seq!['.']);
    assert(lower(seq!['.']) =~= seq!['.']);
    let n = normalize_host(h);
    let full = normalize_host(sub + seq!['.'] + h);
    assert(full == lower(sub) + seq!['.'] + n);
    let d = seq!['.'] + blocked[i];
    if n == blocked[i] {
        assert(full.subrange(full.len() - d.len(), full.len() as int) =~= d);
    } else {
        assert(n.subrange(n.len() - d.len(), n.len() as int) == d);
        assert(full.subrange(full.len() - d.len(), full.len() as int) =~= n.subrange(
            n.len() - d.len(),
            n.len() as int,
        ));
    }
    assert(domain_matches(full, blocked[i]));
}

/// A request whose URL holds any of the ad fragments is an ad: the YouTube ad
/// statistics, ad pages, ad breaks, mid-roll information and ad captions, the
/// Google ad services and DoubleClick hosts, ad click-throughs, and any
/// `/pagead/` path.
pub proof fn lemma_listed_fragments_are_ads(s: Seq<char>)
    ensures
        contains_seq(s, "youtube.com/api/stats/ads"@) ==> url_is_ad(s),
        contains_seq(s, "youtube.com/pagead/"@) ==> url_is_ad(s),
        contains_seq(s, "/youtubei/v1/player/get_ad_break"@) ==> url_is_ad(s),
        contains_seq(s, "/get_midroll_info"@) ==> url_is_ad(s),
        contains_seq(s, "youtube.com/api/timedtext?type=track"@) ==> url_is_ad(s),
        contains_seq(s, "adservice.google.com"@) ==> url_is_ad(s),
        contains_seq(s, "googleads.g.doubleclick.net"@) ==> url_is_ad(s),
        contains_seq(s, "pagead2.googlesyndication.com"@) ==> url_is_ad(s),
        contains_seq(s, "securepubads.g.doubleclick.net"@) ==> url_is_ad(s),
        contains_seq(s, "static.doubleclick.net"@) ==> url_is_ad(s),
        contains_seq(s, "ad.doubleclick.net"@) ==> url_is_ad(s),
        contains_seq(s, "g.doubleclick.net"@) ==> url_is_ad(s),
        contains_seq(s, "google.com/aclk"@) ==> url_is_ad(s),
        contains_seq(s, "google.com/pagead/"@) ==> url_is_ad(s),
        contains_seq(s, "/pagead/"@) ==> url_is_ad(s),
{
    assert(adblock_url_patterns().len() == 15);
    assert(adblock_url_patterns()[0] == "youtube.com/api/stats/ads"@);
    assert(adblock_url_patterns()[1] == "youtube.com/pagead/"@);
    assert(adblock_url_patterns()[2] == "/youtubei/v1/player/get_ad_break"@);
    assert(adblock_url_patterns()[3] == "/get_midroll_info"@);
    assert(adblock_url_patterns()[4] == "youtube.com/api/timedtext?type=track"@);
    assert(adblock_url_patterns()[5] == "adservice.google.com"@);
    assert(adblock_url_patterns()[6] == "googleads.g.doubleclick.net"@);
    assert(adblock_url_patterns()[7] == "pagead2.googlesyndication.com"@);
    assert(adblock_url_patterns()[8] == "securepubads.g.doubleclick.net"@);
    assert(adblock_url_patterns()[9] == "static.doubleclick.net"@);
    assert(adblock_url_patterns()[10] == "ad.doubleclick.net"@);
    assert(adblock_url_patterns()[11] == "g.doubleclick.net"@);
    assert(adblock_url_patterns()[12] == "google.com/aclk"@);
    assert(adblock_url_patterns()[13] == "google.com/pagead/"@);
    assert(adblock_url_patterns()[14] == "/pagead/"@);
}

/// Every listed advertising and tracking domain is blocked.
pub proof fn lemma_listed_domains_are_blocked()
    ensures
        adblock_domains().len() == 111,
        adblock_domains().contains("2mdn.net"@),
        adblock_domains().contains("adcolony.com"@),
        adblock_domains().contains("adform.net"@),
        adblock_domains().contains("admarvel.com"@),
        adblock_domains().contains("adnxs.com"@),
        adblock_domains().contains("adsafeprotected.com"@),
        adblock_domains().contains("adservice.google.com"@),
        adblock_domains().contains("adsrvr.org"@),
        adblock_domains().contains("adsterra.com"@),
        adblock_domains().contains("adsymptotic.com"@),
        adblock_domains().contains("adskeeper.com"@),
        adblock_domains().contains("adjust.com"@),
        adblock_domains().contains("admob.com"@),
        adblock_domains().contains("adroll.com"@),
        adblock_domains().contains("adobedtm.com"@),
        adblock_domains().contains("amplitude.com"@),
        adblock_domains().contains("appsflyer.com"@),
        adblock_domains().contains("appnexus.com"@),
        adblock_domains().contains("atdmt.com"@),
        adblock_domains().contains("bidswitch.net"@),
        adblock_domains().contains("bluekai.com"@),
        adblock_domains().contains("branch.io"@),
        adblock_domains().contains("burstnet.com"@),
        adblock_domains().contains("c1exchange.com"@),
        adblock_domains().contains("casalemedia.com"@),
        adblock_domains().contains("chartbeat.com"@),
        adblock_domains().contains("chartboost.com"@),
        adblock_domains().contains("clickbank.net"@),
        adblock_domains().contains("clicktale.net"@),
        adblock_domains().contains("clarity.ms"@),
        adblock_domains().contains("comscore.com"@),
        adblock_domains().contains("contextweb.com"@),
        adblock_domains().contains("crazyegg.com"@),
        adblock_domains().contains("criteo.com"@),
        adblock_domains().contains("criteo.net"@),
        adblock_domains().contains("demdex.net"@),
        adblock_domains().contains("doubleclick.net"@),
        adblock_domains().contains("everesttech.net"@),
        adblock_domains().contains("exelator.com"@),
        adblock_domains().contains("eyeota.net"@),
        adblock_domains().contains("facebook.net"@),
        adblock_domains().contains("fullstory.com"@),
        adblock_domains().contains("fyber.com"@),
        adblock_domains().contains("googleadservices.com"@),
        adblock_domains().contains("google-analytics.com"@),
        adblock_domains().contains("googlesyndication.com"@),
        adblock_domains().contains("googletagmanager.com"@),
        adblock_domains().contains("googletagservices.com"@),
        adblock_domains().contains("gumgum.com"@),
        adblock_domains().contains("heap.io"@),
        adblock_domains().contains("hilltopads.net"@),
        adblock_domains().contains("hotjar.com"@),
        adblock_domains().contains("improvedigital.com"@),
        adblock_domains().contains("imrworldwide.com"@),
        adblock_domains().contains("indexww.com"@),
        adblock_domains().contains("inmobi.com"@),
        adblock_domains().contains("inspectlet.com"@),
        adblock_domains().contains("ironsrc.com"@),
        adblock_domains().contains("juicyads.com"@),
        adblock_domains().contains("kochava.com"@),
        adblock_domains().contains("krxd.net"@),
        adblock_domains().contains("lijit.com"@),
        adblock_domains().contains("loopme.me"@),
        adblock_domains().contains("luckyorange.com"@),
        adblock_domains().contains("mathtag.com"@),
        adblock_domains().contains("media.net"@),
        adblock_domains().contains("mgid.com"@),
        adblock_domains().contains("mintegral.com"@),
        adblock_domains().contains("mixpanel.com"@),
        adblock_domains().contains("moatads.com"@),
        adblock_domains().contains("mopub.com"@),
        adblock_domains().contains("mouseflow.com"@),
        adblock_domains().contains("mparticle.com"@),
        adblock_domains().contains("nativo.com"@),
        adblock_domains().contains("omtrdc.net"@),
        adblock_domains().contains("onetag.com"@),
        adblock_domains().contains("openx.net"@),
        adblock_domains().contains("optimizely.com"@),
        adblock_domains().contains("outbrain.com"@),
        adblock_domains().contains("parsely.com"@),
        adblock_domains().contains("plista.com"@),
        adblock_domains().contains("popads.net"@),
        adblock_domains().contains("propellerads.com"@),
        adblock_domains().contains("pubmatic.com"@),
        adblock_domains().contains("quantserve.com"@),
        adblock_domains().contains("rfihub.com"@),
        adblock_domains().contains("rhythmone.com"@),
        adblock_domains().contains("rlcdn.com"@),
        adblock_domains().contains("rubiconproject.com"@),
        adblock_domains().contains("scorecardresearch.com"@),
        adblock_domains().contains("segment.com"@),
        adblock_domains().contains("sharethrough.com"@),
        adblock_domains().contains("smartadserver.com"@),
        adblock_domains().contains("smaato.net"@),
        adblock_domains().contains("sovrn.com"@),
        adblock_domains().contains("spotxchange.com"@),
        adblock_domains().contains("taboola.com"@),
        adblock_domains().contains("tapad.com"@),
        adblock_domains().contains("tapjoy.com"@),
        adblock_domains().contains("teads.tv"@),
        adblock_domains().contains("trafficrooster.com"@),
        adblock_domains().contains("tremorhub.com"@),
        adblock_domains().contains("tribalfusion.com"@),
        adblock_domains().contains("triplelift.com"@),
        adblock_domains().contains("undertone.com"@),
        adblock_domains().contains("unityads.unity3d.com"@),
        adblock_domains().contains("verve.com"@),
        adblock_domains().contains("vungle.com"@),
        adblock_domains().contains("vwo.com"@),
        adblock_domains().contains("yieldmo.com"@),
        adblock_domains().contains("zedo.com"@),
{
    assert(adblock_domains()[0] == "2mdn.net"@);
    assert(adblock_domains()[1] == "adcolony.com"@);
    assert(adblock_domains()[2] == "adform.net"@);
    assert(adblock_domains()[3] == "admarvel.com"@);
    assert(adblock_domains()[4] == "adnxs.com"@);
    assert(adblock_domains()[5] == "adsafeprotected.com"@);
    assert(adblock_domains()[6] == "adservice.google.com"@);
    assert(adblock_domains()[7] == "adsrvr.org"@);
    assert(adblock_domains()[8] == "adsterra.com"@);
    assert(adblock_domains()[9] == "adsymptotic.com"@);
    assert(adblock_domains()[10] == "adskeeper.com"@);
    assert(adblock_domains()[11] == "adjust.com"@);
    assert(adblock_domains()[12] == "admob.com"@);
    assert(adblock_domains()[13] == "adroll.com"@);
    assert(adblock_domains()[14] == "adobedtm.com"@);
    assert(adblock_domains()[15] == "amplitude.com"@);
    assert(adblock_domains()[16] == "appsflyer.com"@);
    assert(adblock_domains()[17] == "appnexus.com"@);
    assert(adblock_domains()[18] == "atdmt.com"@);
    assert(adblock_domains()[19] == "bidswitch.net"@);
    assert(adblock_domains()[20] == "bluekai.com"@);
    assert(adblock_domains()[21] == "branch.io"@);
    assert(adblock_domains()[22] == "burstnet.com"@);
    assert(adblock_domains()[23] == "c1exchange.com"@);
    assert(adblock_domains()[24] == "casalemedia.com"@);
    assert(adblock_domains()[25] == "chartbeat.com"@);
    assert(adblock_domains()[26] == "chartboost.com"@);
    assert(adblock_domains()[27] == "clickbank.net"@);
    assert(adblock_domains()[28] == "clicktale.net"@);
    assert(adblock_domains()[29] == "clarity.ms"@);
    assert(adblock_domains()[30] == "comscore.com"@);
    assert(adblock_domains()[31] == "contextweb.com"@);
    assert(adblock_domains()[32] == "crazyegg.com"@);
    assert(adblock_domains()[33] == "criteo.com"@);
    assert(adblock_domains()[34] == "criteo.net"@);
    assert(adblock_domains()[35] == "demdex.net"@);
    assert(adblock_domains()[36] == "doubleclick.net"@);
    assert(adblock_domains()[37] == "everesttech.net"@);
    assert(adblock_domains()[38] == "exelator.com"@);
    assert(adblock_domains()[39] == "eyeota.net"@);
    assert(adblock_domains()[40] == "facebook.net"@);
    assert(adblock_domains()[41] == "fullstory.com"@);
    assert(adblock_domains()[42] == "fyber.com"@);
    assert(adblock_domains()[43] == "googleadservices.com"@);
    assert(adblock_domains()[44] == "google-analytics.com"@);
    assert(adblock_domains()[45] == "googlesyndication.com"@);
    assert(adblock_domains()[46] == "googletagmanager.com"@);
    assert(adblock_domains()[47] == "googletagservices.com"@);
    assert(adblock_domains()[48] == "gumgum.com"@);
    assert(adblock_domains()[49] == "heap.io"@);
    assert(adblock_domains()[50] == "hilltopads.net"@);
    assert(adblock_domains()[51] == "hotjar.com"@);
    assert(adblock_domains()[52] == "improvedigital.com"@);
    assert(adblock_domains()[53] == "imrworldwide.com"@);
    assert(adblock_domains()[54] == "indexww.com"@);
    assert(adblock_domains()[55] == "inmobi.com"@);
    assert(adblock_domains()[56] == "inspectlet.com"@);
    assert(adblock_domains()[57] == "ironsrc.com"@);
    assert(adblock_domains()[58] == "juicyads.com"@);
    assert(adblock_domains()[59] == "kochava.com"@);
    assert(adblock_domains()[60] == "krxd.net"@);
    assert(adblock_domains()[61] == "lijit.com"@);
    assert(adblock_domains()[62] == "loopme.me"@);
    assert(adblock_domains()[63] == "luckyorange.com"@);
    assert(adblock_domains()[64] == "mathtag.com"@);
    assert(adblock_domains()[65] == "media.net"@);
    assert(adblock_domains()[66] == "mgid.com"@);
    assert(adblock_domains()[67] == "mintegral.com"@);
    assert(adblock_domains()[68] == "mixpanel.com"@);
    assert(adblock_domains()[69] == "moatads.com"@);
    assert(adblock_domains()[70] == "mopub.com"@);
    assert(adblock_domains()[71] == "mouseflow.com"@);
    assert(adblock_domains()[72] == "mparticle.com"@);
    assert(adblock_domains()[73] == "nativo.com"@);
    assert(adblock_domains()[74] == "omtrdc.net"@);
    assert(adblock_domains()[75] == "onetag.com"@);
    assert(adblock_domains()[76] == "openx.net"@);
    assert(adblock_domains()[77] == "optimizely.com"@);
    assert(adblock_domains()[78] == "outbrain.com"@);
    assert(adblock_domains()[79] == "parsely.com"@);
    assert(adblock_domains()[80] == "plista.com"@);
    assert(adblock_domains()[81] == "popads.net"@);
    assert(adblock_domains()[82] == "propellerads.com"@);
    assert(adblock_domains()[83] == "pubmatic.com"@);
    assert(adblock_domains()[84] == "quantserve.com"@);
    assert(adblock_domains()[85] == "rfihub.com"@);
    assert(adblock_domains()[86] == "rhythmone.com"@);
    assert(adblock_domains()[87] == "rlcdn.com"@);
    assert(adblock_domains()[88] == "rubiconproject.com"@);
    assert(adblock_domains()[89] == "scorecardresearch.com"@);
    assert(adblock_domains()[90] == "segment.com"@);
    assert(adblock_domains()[91] == "sharethrough.com"@);
    assert(adblock_domains()[92] == "smartadserver.com"@);
    assert(adblock_domains()[93] == "smaato.net"@);
    assert(adblock_domains()[94] == "sovrn.com"@);
    assert(adblock_domains()[95] == "spotxchange.com"@);
    assert(adblock_domains()[96] == "taboola.com"@);
    assert(adblock_domains()[97] == "tapad.com"@);
    assert(adblock_domains()[98] == "tapjoy.com"@);
    assert(adblock_domains()[99] == "teads.tv"@);
    assert(adblock_domains()[100] == "trafficrooster.com"@);
    assert(adblock_domains()[101] == "tremorhub.com"@);
    assert(adblock_domains()[102] == "tribalfusion.com"@);
    assert(adblock_domains()[103] == "triplelift.com"@);
    assert(adblock_domains()[104] == "undertone.com"@);
    assert(adblock_domains()[105] == "unityads.unity3d.com"@);
    assert(adblock_domains()[106] == "verve.com"@);
    assert(adblock_domains()[107] == "vungle.com"@);
    assert(adblock_domains()[108] == "vwo.com"@);
    assert(adblock_domains()[109] == "yieldmo.com"@);
    assert(adblock_domains()[110] == "zedo.com"@);
}

/// A host is blocked exactly when, with trailing dots removed and in ASCII
/// lowercase, it is a listed domain or ends with a dot followed by one.
pub proof fn lemma_blocked_means_domain_or_subdomain(host: Seq<char>, blocked: Seq<Seq<char>>)
    ensures
        host_blocked(host, blocked) <==> exists|i: int|
            0 <= i < blocked.len() && ({
                let n = lower(trim_end_char(host, '.'));
                let d = #[trigger] blocked[i];
                n == d || (n.len() > d.len() && n[n.len() - d.len() - 1] == '.' && n.subrange(
                    n.len() - d.len(),
                    n.len() as int,
                ) == d)
            }),
{
    assert forall|i: int| 0 <= i < blocked.len() implies (domain_matches(
        normalize_host(host),
        #[trigger] blocked[i],
    ) <==> ({
        let n = lower(trim_end_char(host, '.'));
        let d = blocked[i];
        n == d || (n.len() > d.len() && n[n.len() - d.len() - 1] == '.' && n.subrange(
            n.len() - d.len(),
            n.len() as int,
        ) == d)
    })) by {
        let n = normalize_host(host);
        let d = blocked[i];
        let dd = seq!['.'] + d;
        assert(dd.len() == d.len() + 1);
        assert(dd[0] == '.');
        assert forall|k: int| 0 <= k < d.len() implies dd[k + 1] == d[k] by {}
        if is_suffix(dd, n) {
            let tail = n.subrange(n.len() - dd.len(), n.len() as int);
            assert(tail == dd);
            assert(tail[0] == n[n.len() - d.len() - 1]);
            assert(n[n.len() - d.len() - 1] == '.');
            assert forall|k: int| 0 <= k < d.len() implies n.subrange(
                n.len() - d.len(),
                n.len() as int,
            )[k] == d[k] by {
                assert(tail[k + 1] == dd[k + 1]);
            }
            assert(n.subrange(n.len() - d.len(), n.len() as int) =~= d);
        }
        if n.len() > d.len() && n[n.len() - d.len() - 1] == '.' && n.subrange(
            n.len() - d.len(),
            n.len() as int,
        ) == d {
            let tail = n.subrange(n.len() - dd.len(), n.len() as int);
            assert forall|k: int| 1 <= k < dd.len() implies tail[k] == dd[k] by {
                assert(n.subrange(n.len() - d.len(), n.len() as int)[k - 1] == d[k - 1]);
                assert(dd[(k - 1) + 1] == d[k - 1]);
            }
            assert(tail =~= dd);
        }
    }
}

} // verus!
