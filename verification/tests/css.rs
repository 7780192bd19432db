use mozcomp::dependencies::css::{combine_dependencies, RuleVisitor, UrlVisitor};
use mozcomp::errors::TransformError;
use mozcomp::replacements::ReplacementMap;
use mozcomp::transform::css::{clean_url, rewrite_url, should_transform_url, ImportReplacer, UrlReplacer};

fn map(pairs: &[(&str, &str)]) -> ReplacementMap {
    let mut m = ReplacementMap::new();
    for (k, v) in pairs {
        m.insert(String::from(*k), String::from(*v));
    }
    m
}

#[test]
fn replacement_maps() {
    let mut m = ReplacementMap::new();
    assert!(m.is_empty());
    assert!(m.get("a").is_none());
    m.insert(String::from("a"), String::from("1"));
    m.insert(String::from("b"), String::from("2"));
    m.insert(String::from("a"), String::from("3"));
    assert!(!m.is_empty());
    assert_eq!(m.get("a").unwrap(), "3");
    assert_eq!(m.get("b").unwrap(), "2");
    assert!(m.contains_key("b"));
    assert!(!m.contains_key("c"));
}

#[test]
fn css_with_query_suffix() {
    let m = map(&[("icon.svg", "../assets/icon.svg")]);
    assert_eq!(UrlReplacer::new(&m).visit_url("icon.svg?v=2").unwrap(), "../assets/icon.svg?v=2");
    assert_eq!(rewrite_url(&m, "icon.svg#frag?x").unwrap(), "../assets/icon.svg#frag?x");
    assert_eq!(rewrite_url(&m, "icon.svg").unwrap(), "../assets/icon.svg");
    assert_eq!(rewrite_url(&m, "icon.svg?").unwrap(), "../assets/icon.svg?");
}

#[test]
fn external_urls_stay() {
    let m = map(&[("data:image/png;base64,AAAA", "never"), ("//cdn/x.css", "never")]);
    for url in [
        "data:image/png;base64,AAAA",
        "http://example.org/a.png?x=1",
        "https://example.org/a.png",
        "//cdn/x.css",
        "http:relative",
    ] {
        assert_eq!(UrlReplacer::new(&m).visit_url(url).unwrap(), url);
        assert_eq!(ImportReplacer::new(&m).visit_rule(url).unwrap(), url);
    }
}

#[test]
fn unknown_urls_are_errors() {
    let m = map(&[("icon.svg", "../assets/icon.svg")]);
    assert!(matches!(
        UrlReplacer::new(&m).visit_url("other.svg?v=2#x"),
        Err(TransformError::UrlNotFound { url }) if url == "other.svg"
    ));
    assert!(matches!(
        ImportReplacer::new(&m).visit_rule("chrome://global/skin/a.css"),
        Err(TransformError::UrlNotFound { url }) if url == "chrome://global/skin/a.css"
    ));
    assert!(matches!(rewrite_url(&m, ""), Err(TransformError::UrlNotFound { url }) if url.is_empty()));
    assert!(matches!(rewrite_url(&m, "?icon.svg"), Err(TransformError::UrlNotFound { url }) if url.is_empty()));
}

#[test]
fn import_targets_are_rewritten() {
    let m = map(&[("chrome://global/skin/a.css", "../dependencies/a.css")]);
    assert_eq!(
        ImportReplacer::new(&m).visit_rule("chrome://global/skin/a.css").unwrap(),
        "../dependencies/a.css"
    );
    assert_eq!(
        ImportReplacer::new(&m).visit_rule("chrome://global/skin/a.css?x").unwrap(),
        "../dependencies/a.css?x"
    );
}

#[test]
fn url_helpers() {
    assert!(should_transform_url("a.css"));
    assert!(should_transform_url("chrome://a/b.css"));
    assert!(should_transform_url(""));
    assert!(!should_transform_url("data:x"));
    assert!(!should_transform_url("https://a"));
    assert!(!should_transform_url("//a"));
    assert_eq!(clean_url("a.css?x#y"), "a.css");
    assert_eq!(clean_url("a.css#y?x"), "a.css");
    assert_eq!(clean_url("a.css"), "a.css");
    assert_eq!(clean_url("#only"), "");
}

#[test]
fn stylesheet_references_are_collected_once() {
    let mut urls = UrlVisitor::new();
    for url in ["a.svg", "b.svg?v=1", "a.svg#x", "data:abc", "https://h/c.svg", "//h/d.svg", "#local", "b.svg"] {
        urls.add_dependency(url);
    }
    assert_eq!(urls.dependencies, vec!["a.svg", "b.svg", ""]);
    let mut rules = RuleVisitor::new();
    for url in ["base.css", "a.svg", "base.css?x", "http://h/x.css"] {
        rules.add_dependency(url);
    }
    assert_eq!(rules.dependencies, vec!["base.css", "a.svg"]);
    assert_eq!(combine_dependencies(&urls, &rules), vec!["a.svg", "b.svg", "base.css", "a.svg"]);
    assert!(combine_dependencies(&UrlVisitor::new(), &RuleVisitor::new()).is_empty());
}
