use data_eng_interview::query::{choice, favicon, img_tag, logos_from, og_image, og_image_from_pairs};
use data_eng_interview::Logo;
use scraper::Html;

#[test]
fn test_og_image() {
    let html = r#"
            <!DOCTYPE html>
            <head>
            <meta content="https://some/assets/logo.jpg" property="og:image">
            <meta content="64" property="og:image:height">
            <meta content="64" property="og:image:width">
            </head>
            <h1 class="foo">Hello, <i>world!</i></h1>
        "#;

    let expected = vec![Logo {
        url: "https://some/assets/logo.jpg".to_string(),
        mime: None,
        width: Some(64),
        height: Some(64),
    }];

    let got = og_image(&Html::parse_document(&html));

    for (l, r) in expected.iter().zip(got) {
        assert_eq!(l, &r)
    }
}

#[test]
fn test_og_image_with_repetition() {
    let html = r#"
            <!DOCTYPE html>
            <head>
            <meta content="https://some/assets/logo.jpg" property="og:image">
            <meta content="64" property="og:image:height">
            <meta content="64" property="og:image:width">
            <meta content="https://some/assets/logo.jpg" property="og:image">
            <meta content="https://some/assets/logo.jpg" property="og:image">
            <meta content="64" property="og:image:width">
            </head>
            <h1 class="foo">Hello, <i>world!</i></h1>
        "#;

    let expected = vec![
        Logo {
            url: "https://some/assets/logo.jpg".to_string(),
            mime: None,
            width: Some(64),
            height: Some(64),
        },
        Logo {
            url: "https://some/assets/logo.jpg".to_string(),
            mime: None,
            width: None,
            height: None,
        },
        Logo {
            url: "https://some/assets/logo.jpg".to_string(),
            mime: None,
            width: Some(64),
            height: None,
        },
    ];

    let got = og_image(&Html::parse_document(&html));

    for (l, r) in expected.iter().zip(got) {
        assert_eq!(l, &r)
    }
}

#[test]
fn test_favicon() {
    let html = r#"
            <!DOCTYPE html>
            <head>
            <link rel="icon" href="/favicon.svg"/>
            <link rel="icon" href="/favicon_dark.svg"/>
            <link rel="stylesheet" href="/main.css"/>
            </head>
        "#;

    let expected = vec![
        Logo {
            url: "/favicon.svg".to_string(),
            mime: None,
            width: None,
            height: None,
        },
        Logo {
            url: "/favicon_dark.svg".to_string(),
            mime: None,
            width: None,
            height: None,
        },
    ];

    let got = favicon(&Html::parse_document(&html));

    for (l, r) in expected.iter().zip(got) {
        assert_eq!(l, &r)
    }
}

fn pair(p: &str, c: &str) -> (String, String) {
    (p.to_string(), c.to_string())
}

#[test]
fn og_pairs_metadata_goes_to_latest_image() {
    let got = og_image_from_pairs(&vec![
        pair("og:image:width", "10"),
        pair("og:image", "a.png"),
        pair("og:image:type", "image/png"),
        pair("og:image:width", "+32"),
        pair("og:image", "b.png"),
        pair("og:image:height", "abc"),
        pair("og:image:height", "18446744073709551615"),
    ]);
    assert_eq!(got.len(), 2);
    assert_eq!(got[0].url, "a.png");
    assert_eq!(got[0].width, Some(32));
    assert_eq!(got[0].height, None);
    assert_eq!(got[1].url, "b.png");
    assert_eq!(got[1].height, Some(u64::MAX));
}

#[test]
fn og_pairs_bad_numbers_clear_the_field() {
    let got = og_image_from_pairs(&vec![
        pair("og:image", "a.png"),
        pair("og:image:width", "64"),
        pair("og:image:width", " 64"),
        pair("og:image:height", "18446744073709551616"),
    ]);
    assert_eq!(got.len(), 1);
    assert_eq!(got[0].width, None);
    assert_eq!(got[0].height, None);
}

#[test]
fn og_pairs_without_image_give_nothing() {
    assert!(og_image_from_pairs(&vec![pair("og:image:width", "1")]).is_empty());
    assert!(og_image_from_pairs(&vec![]).is_empty());
}

#[test]
fn img_tag_finds_logo_sources() {
    let doc = Html::parse_document(
        r#"<div class="brand"><img src="/b.png"/></div><img src="/x.png"/><img alt="logo"/><img id="logo" src="/l.png"/>"#,
    );
    let got: Vec<String> = img_tag(&doc).into_iter().map(|l| l.url).collect();
    assert_eq!(got, vec!["/b.png".to_string(), "/l.png".to_string()]);
}

#[test]
fn logos_from_keeps_present_values_in_order() {
    let got = logos_from(vec![Some("a".to_string()), None, Some("b".to_string())]);
    let urls: Vec<String> = got.into_iter().map(|l| l.url).collect();
    assert_eq!(urls, vec!["a".to_string(), "b".to_string()]);
}

fn nothing(_: &Html) -> Vec<Logo> {
    Vec::new()
}

fn favicons(doc: &Html) -> Vec<Logo> {
    favicon(doc)
}

#[test]
fn choice_takes_first_non_empty() {
    let doc = Html::parse_document(r#"<link rel="icon" href="/f.ico"/>"#);
    let queries: Vec<fn(&Html) -> Vec<Logo>> = vec![nothing, favicons, nothing];
    let got = choice(&doc, &queries);
    assert_eq!(got.len(), 1);
    assert_eq!(got[0].url, "/f.ico");
    let none: Vec<fn(&Html) -> Vec<Logo>> = vec![nothing];
    assert!(choice(&doc, &none).is_empty());
}
