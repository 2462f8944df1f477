use muffetbot::scraper::{Links, ScrapeError, SteelCutter};

const GOALS_PAGE: &str = "<html><body><ul>\
<li><p>a</p></li>\
<li><p>b</p></li>\
<li><p>a</p></li>\
</ul></body></html>";

#[test]
fn fetch_populates_the_slot() {
    let mut cutter = SteelCutter::new(Links::Goals);
    assert_eq!(cutter.fetch(Some(GOALS_PAGE)), Ok(()));
    let goals = cutter.get_nodes_vec("goal").expect("populated");
    assert_eq!(goals, vec![String::from("a"), String::from("b")]);
}

#[test]
fn second_fetch_is_rejected_and_slot_unchanged() {
    let mut cutter = SteelCutter::new(Links::Goals);
    assert_eq!(cutter.fetch(Some(GOALS_PAGE)), Ok(()));
    let before = cutter.get_nodes_vec("goal").expect("populated");
    let other = "<html><body><ul><li><p>z</p></li></ul></body></html>";
    assert_eq!(cutter.fetch(Some(other)), Err(ScrapeError::AlreadySet));
    let after = cutter.get_nodes_vec("goal").expect("still populated");
    assert_eq!(before, after);
}

#[test]
fn get_all_deduplicates_in_first_seen_order() {
    let mut cutter = SteelCutter::new(Links::Goals);
    cutter.fetch(Some(GOALS_PAGE)).unwrap();
    assert_eq!(
        cutter.get_nodes_vec("goal").unwrap(),
        vec![String::from("a"), String::from("b")]
    );
}

#[test]
fn get_node_val_returns_first_occurrence() {
    let mut cutter = SteelCutter::new(Links::Goals);
    cutter.fetch(Some(GOALS_PAGE)).unwrap();
    assert_eq!(cutter.get_node_val("goal"), Some("a"));
    assert_eq!(cutter.get_node_val("missing"), None);
}

#[test]
fn unfetched_instance_answers_nothing() {
    let cutter = SteelCutter::new(Links::Goals);
    assert!(cutter.get_nodes_vec("goal").is_none());
    assert!(cutter.get_node_val("goal").is_none());
}

#[test]
fn failed_fetch_leaves_instance_retryable_state() {
    let mut cutter = SteelCutter::new(Links::Goals);
    assert_eq!(cutter.fetch(None), Err(ScrapeError::NetworkError));
    assert!(cutter.get_nodes_vec("goal").is_none());
    assert_eq!(cutter.fetch(Some(GOALS_PAGE)), Ok(()));
    assert!(cutter.get_nodes_vec("goal").is_some());
}

#[test]
fn shop_pattern_extracts_names_and_urls() {
    let page = "<html><body>\
<div data-controller=\"ProductListImageLoader\">\
<a href=\"/shop/zine\" aria-label=\"Zine\"></a>\
</div>\
<div data-controller=\"ProductListImageLoader\">\
<a href=\"/shop/print\" aria-label=\"Print\"></a>\
</div>\
</body></html>";
    let mut cutter = SteelCutter::new(Links::Shop);
    cutter.fetch(Some(page)).unwrap();
    let names = cutter.get_nodes_vec("item_name").unwrap();
    let urls = cutter.get_nodes_vec("shop_url").unwrap();
    assert_eq!(names, vec![String::from("Zine"), String::from("Print")]);
    assert_eq!(urls, vec![String::from("/shop/zine"), String::from("/shop/print")]);
}

#[test]
fn display_joins_site_url_and_page_path() {
    assert_eq!(Links::About.display("https://x.com"), "https://x.com/about");
    assert_eq!(Links::Goals.display("https://x.com"), "https://x.com/goals");
    assert_eq!(Links::Shop.display(""), "/shop");
}

#[test]
fn patterns_name_their_fields() {
    assert!(Links::About.pattern().contains("{{about}}"));
    assert!(Links::Goals.pattern().contains("{{goal}}"));
    assert!(Links::Shop.pattern().contains("{{shop_url}}"));
}
