use wikipath::classifier::{is_excluded, is_hitler_url, is_wikipedia_url, validate_start, UrlError};

#[test]
fn accepts_standard_form() {
    assert!(is_wikipedia_url("https://en.wikipedia.org/wiki/Cat"));
    assert!(is_wikipedia_url("https://de.wikipedia.org/wiki/Katze"));
    assert!(is_wikipedia_url("https://en.wikipedia.org/wiki/Philosophy"));
}

#[test]
fn accepts_mobile_form() {
    assert!(is_wikipedia_url("https://en.m.wikipedia.org/wiki/Cat"));
    assert!(is_wikipedia_url("https://fr.m.wikipedia.org/wiki/Chat"));
}

#[test]
fn rejects_wrong_scheme() {
    assert!(!is_wikipedia_url("http://en.wikipedia.org/wiki/Cat"));
    assert!(!is_wikipedia_url("ftp://en.wikipedia.org/wiki/Cat"));
    assert!(!is_wikipedia_url("en.wikipedia.org/wiki/Cat"));
}

#[test]
fn rejects_wrong_host_labels() {
    assert!(!is_wikipedia_url("https://en.wikipedio.org/wiki/Cat"));
    assert!(!is_wikipedia_url("https://wikipedia.org/wiki/Cat"));
    assert!(!is_wikipedia_url("https://en.a.wikipedia.org/wiki/Cat"));
    assert!(!is_wikipedia_url("https://en.m.m.wikipedia.org/wiki/Cat"));
    assert!(!is_wikipedia_url("https://en.wikipedia.com/wiki/Cat"));
}

#[test]
fn rejects_wrong_suffix() {
    assert!(!is_wikipedia_url("https://en.wikipedia.org/w/Cat"));
    assert!(!is_wikipedia_url("https://en.wikipedia.org"));
    assert!(!is_wikipedia_url("https://en.wikipedia"));
}

#[test]
fn accepts_article_names_with_dots() {
    assert!(is_wikipedia_url("https://en.wikipedia.org/wiki/Web_2.0"));
}

#[test]
fn target_matches_exactly() {
    assert!(is_hitler_url("/wiki/Adolf_Hitler"));
}

#[test]
fn target_rejects_near_matches() {
    assert!(!is_hitler_url("/wiki/adolf_hitler"));
    assert!(!is_hitler_url("/wiki/Adolf_Hitler/"));
    assert!(!is_hitler_url("/wiki/Adolf_Hitle"));
    assert!(!is_hitler_url("Adolf_Hitler"));
    assert!(!is_hitler_url(""));
}

#[test]
fn excluded_iff_colon() {
    assert!(is_excluded("/wiki/Talk:Rust"));
    assert!(is_excluded("/wiki/Category:Animals"));
    assert!(is_excluded(":"));
    assert!(!is_excluded("/wiki/Rust"));
    assert!(!is_excluded(""));
}

#[test]
fn validate_splits_standard_form() {
    let site = validate_start("https://en.wikipedia.org/wiki/Philosophy").unwrap();
    assert_eq!(site.base, "https://en.wikipedia.org");
    assert_eq!(site.relative, "/wiki/Philosophy");
}

#[test]
fn validate_splits_mobile_form() {
    let site = validate_start("https://en.m.wikipedia.org/wiki/Cat").unwrap();
    assert_eq!(site.base, "https://en.m.wikipedia.org");
    assert_eq!(site.relative, "/wiki/Cat");
}

#[test]
fn validate_rejects_wrong_scheme() {
    let r = validate_start("http://en.wikipedia.org/wiki/Cat");
    assert!(matches!(r, Err(UrlError::NotWikipedia)));
}

#[test]
fn validate_rejects_garbage() {
    assert!(matches!(validate_start(""), Err(UrlError::NotWikipedia)));
    assert!(matches!(validate_start("https://"), Err(UrlError::NotWikipedia)));
}
