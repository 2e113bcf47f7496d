use data_eng_interview::matcher::MatcherBuilder;
use scraper::Html;

#[test]
fn test_matcher() {
    let html = r#"
        <img id="logo"/>
        <img id="brand"/>
        <div class="logo">
            <img/>
        </div>
        <header>
            <div>
                <img src="/some.png"/>
                <img src="/logo.png"/>
            </div>
        </header>
        "#;

    let matcher = MatcherBuilder::new()
        .select("img")
        .attr("class")
        .attr("id")
        .attr("alt")
        .attr("src")
        .contains("logo")
        .contains("brand")
        .build()
        .unwrap();

    let doc = Html::parse_document(&html);
    let matches: Vec<_> = matcher.matches(&doc);

    assert_eq!(matches.len(), 4)
}

#[test]
fn invalid_selector_builds_nothing() {
    assert!(MatcherBuilder::new().select("img[").build().is_none());
}

#[test]
fn attr_matches_needs_a_target_in_a_present_value() {
    let matcher = MatcherBuilder::new()
        .select("img")
        .attr("id")
        .attr("class")
        .contains("logo")
        .build()
        .unwrap();
    assert!(matcher.attr_matches(&vec![None, Some("site-logo big".to_string())]));
    assert!(!matcher.attr_matches(&vec![Some("banner".to_string()), None]));
    assert!(!matcher.attr_matches(&vec![None, None]));
}

#[test]
fn element_matches_through_an_ancestor() {
    let matcher = MatcherBuilder::new()
        .select("img")
        .attr("class")
        .contains("brand")
        .build()
        .unwrap();
    let own = vec![Some("photo".to_string())];
    let ancestors = vec![vec![None], vec![Some("brand-box".to_string())]];
    assert!(matcher.element_matches(&own, &ancestors));
    assert!(!matcher.element_matches(&own, &vec![vec![None]]));
}

#[test]
fn builder_keeps_attrs_in_order() {
    let matcher = MatcherBuilder::new()
        .select("link")
        .attr("rel")
        .attr("type")
        .contains("icon")
        .build()
        .unwrap();
    assert_eq!(matcher.attr_names(), &vec!["rel".to_string(), "type".to_string()]);
}
