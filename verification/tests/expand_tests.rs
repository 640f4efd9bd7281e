use wikipath::expand::{child_path, expand_fetched, make_children, plan_expansion, FetchPlan};

fn path(ids: &[&str]) -> Vec<String> {
    ids.iter().map(|s| s.to_string()).collect()
}

#[test]
fn plan_skips_special_pages() {
    let p = path(&["/wiki/Philosophy", "/wiki/Talk:Rust"]);
    let plan = plan_expansion("https://en.wikipedia.org", &p);
    assert!(matches!(plan, FetchPlan::Skip));
}

#[test]
fn plan_reports_the_target_without_fetching() {
    let p = path(&["/wiki/Philosophy", "/wiki/Adolf_Hitler"]);
    let plan = plan_expansion("https://en.wikipedia.org", &p);
    assert!(matches!(plan, FetchPlan::Found));
}

#[test]
fn plan_fetches_ordinary_articles_at_base_plus_identifier() {
    let p = path(&["/wiki/Philosophy"]);
    let plan = plan_expansion("https://en.wikipedia.org", &p);
    match plan {
        FetchPlan::Fetch(url) => assert_eq!(url, "https://en.wikipedia.org/wiki/Philosophy"),
        _ => panic!("expected a fetch"),
    }
}

#[test]
fn child_path_appends_one_identifier() {
    let p = path(&["/wiki/A", "/wiki/B"]);
    let c = child_path(&p, "/wiki/C");
    assert_eq!(c, path(&["/wiki/A", "/wiki/B", "/wiki/C"]));
    assert_eq!(p, path(&["/wiki/A", "/wiki/B"]));
}

#[test]
fn make_children_keeps_link_order() {
    let p = path(&["/wiki/A"]);
    let links = path(&["/wiki/B", "/wiki/C"]);
    let children = make_children(&p, &links);
    assert_eq!(
        children,
        vec![path(&["/wiki/A", "/wiki/B"]), path(&["/wiki/A", "/wiki/C"])]
    );
}

#[test]
fn expand_extracts_internal_links_only() {
    let p = path(&["/wiki/A"]);
    let body = "<html><body>\
        <a href=\"/wiki/B\">one</a>\
        <a href=\"/wiki/Talk:C\">talk</a>\
        <a href=\"https://example.org/wiki/D\">offsite</a>\
        <a href=\"/other/E\">other</a>\
        <a name=\"no-href\">none</a>\
        <a href=\"/wiki/F\">two</a>\
        </body></html>";
    let children = expand_fetched(&p, body);
    assert_eq!(
        children,
        vec![
            path(&["/wiki/A", "/wiki/B"]),
            path(&["/wiki/A", "/wiki/Talk:C"]),
            path(&["/wiki/A", "/wiki/F"]),
        ]
    );
}

#[test]
fn expand_of_linkless_body_yields_no_children() {
    let p = path(&["/wiki/A"]);
    let children = expand_fetched(&p, "plain text, no anchors at all");
    assert!(children.is_empty());
}
