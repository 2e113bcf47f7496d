use data_eng_interview::finder::{normalize_url, page_from_body, resolve, site_from_page, Page, Resolution};
use data_eng_interview::{Logo, Site};

#[test]
fn normalize_adds_a_scheme() {
    assert_eq!(normalize_url("facebook.com"), Some("https://facebook.com/".to_string()));
}

#[test]
fn normalize_keeps_absolute_urls() {
    assert_eq!(normalize_url("http://wix.com/a?b=1"), Some("http://wix.com/a?b=1".to_string()));
}

#[test]
fn normalize_rejects_spaces() {
    assert_eq!(normalize_url("not a domain"), None);
}

#[test]
fn unparseable_host_degrades_to_raw_name() {
    let r = resolve("not a domain", &|_t: &String| -> Option<Page> { panic!("never fetched") });
    assert!(r.is_degraded());
    assert_eq!(r.into_site(), Site::new("not a domain".to_string()));
}

#[test]
fn unreachable_host_degrades_every_time() {
    for _ in 0..3 {
        let r = resolve("wix.com", &|_t: &String| None);
        assert!(r.is_degraded());
        let site = r.into_site();
        assert_eq!(site, Site::new("https://wix.com/".to_string()));
        assert_eq!(site.to_csv(), "https://wix.com/, null, null");
    }
}

#[test]
fn reached_host_takes_first_candidates() {
    let r = resolve("wix.com", &|t: &String| {
        assert_eq!(t, "https://wix.com/");
        Some(Page {
            logos: vec![Logo::new("/a.png".to_string()), Logo::new("/b.png".to_string())],
            favicons: vec![],
        })
    });
    assert!(!r.is_degraded());
    let site = r.into_site();
    assert_eq!(site.to_csv(), "https://wix.com/, /a.png, null");
}

#[test]
fn page_from_body_collects_candidates() {
    let page = page_from_body(r#"<link rel="shortcut icon" href="/f.ico"><img class="logo" src="/l.svg">"#);
    let site = site_from_page("https://x.com/".to_string(), page);
    assert_eq!(site.to_csv(), "https://x.com/, /l.svg, /f.ico");
}

#[test]
fn resolution_variants_hold_their_site() {
    let r = Resolution::Found(Site::new("a".to_string()));
    assert!(!r.is_degraded());
    assert_eq!(r.into_site().domain, "a");
}
