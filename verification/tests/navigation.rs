use polywatcher::clob::Credentials;
use polywatcher::gamma::{events_query, tags_query};
use polywatcher::keyed::KeyedList;
use polywatcher::sports::{soccer_status, SportsData};
use polywatcher::state::{
    accepts_book, allowed_leagues, begin_loading, event_has_tag, event_status, event_title,
    first_market_token, is_live, lacks_funder, league_tag_id, matches_search, receive_events,
    SportSummary, StatusLog, STATUS_LOG_LIMIT,
};

fn update(slug: &str, status: &str) -> SportsData {
    SportsData { slug: slug.to_string(), status: status.to_string(), league_abbreviation: "epl".to_string() }
}

#[test]
fn keyed_list_upsert_get_remove() {
    let mut l: KeyedList<i32> = KeyedList::new();
    l.upsert("a".to_string(), 1);
    l.upsert("b".to_string(), 2);
    l.upsert("a".to_string(), 3);
    assert_eq!(l.len(), 2);
    assert_eq!(l.get("a"), Some(&3));
    assert_eq!(l.get("b"), Some(&2));
    assert_eq!(l.get("c"), None);
    assert_eq!(l.values(), &vec![3, 2]);
    assert_eq!(l.keys(), &vec!["a".to_string(), "b".to_string()]);
    l.remove("a");
    assert!(!l.contains_key("a"));
    assert_eq!(l.values(), &vec![2]);
    l.remove("zzz");
    assert_eq!(l.len(), 1);
}

#[test]
fn status_log_keeps_last_twenty() {
    let mut log = StatusLog::new();
    assert_eq!(log.entries, vec!["Sistema iniciado".to_string()]);
    for i in 0..30 {
        log.record(format!("m{}", i));
    }
    assert_eq!(log.entries.len(), STATUS_LOG_LIMIT);
    assert_eq!(log.entries[0], "m10");
    assert_eq!(log.last().unwrap(), "m29");
    log.note("extra".to_string());
    assert_eq!(log.entries.len(), 21);
    log.record("again".to_string());
    assert_eq!(log.entries.len(), 21);
    assert_eq!(log.entries[0], "m11");
}

#[test]
fn leagues_table() {
    let l = allowed_leagues();
    assert_eq!(l.len(), 16);
    assert_eq!(l[0].slug, "ucl");
    assert_eq!(l[0].label, "Champions League");
    assert_eq!(l[6].label, "Süper Lig");
    assert_eq!(l[15].slug, "arg");
    assert_eq!(l[15].label, "Argentina Primera");
}

#[test]
fn league_tags_come_from_first_matching_sport() {
    let sports = vec![
        SportSummary { sport: "nba".to_string(), tags: vec!["1".to_string()] },
        SportSummary { sport: "epl".to_string(), tags: vec!["1".to_string(), "82".to_string()] },
        SportSummary { sport: "epl".to_string(), tags: vec!["99".to_string()] },
        SportSummary { sport: "ucl".to_string(), tags: vec![] },
    ];
    assert_eq!(league_tag_id(&sports, "epl"), "82");
    assert_eq!(league_tag_id(&sports, "ucl"), "");
    assert_eq!(league_tag_id(&sports, "mls"), "");
}

#[test]
fn event_tags() {
    let tags = Some(vec!["1".to_string(), "82".to_string()]);
    assert!(event_has_tag(&tags, "82"));
    assert!(!event_has_tag(&tags, "8"));
    assert!(!event_has_tag(&None, "82"));
}

#[test]
fn search_is_case_insensitive() {
    let title = Some("Arsenal vs. Chelsea".to_string());
    assert!(matches_search(&title, "CHELSEA"));
    assert!(matches_search(&title, ""));
    assert!(!matches_search(&title, "Liverpool"));
    assert!(matches_search(&None, "untit"));
    assert_eq!(event_title(&None), "Untitled");
}

#[test]
fn match_status_of_events() {
    let mut updates: KeyedList<SportsData> = KeyedList::new();
    updates.upsert("ars-che".to_string(), update("ars-che", "InProgress"));
    assert_eq!(event_status(&updates, &Some("ars-che".to_string())), "InProgress");
    assert_eq!(event_status(&updates, &Some("liv-eve".to_string())), "Scheduled");
    assert_eq!(event_status(&updates, &None), "Scheduled");
    assert!(is_live("InProgress"));
    assert!(!is_live("Final"));
}

#[test]
fn book_updates_only_for_selected_token() {
    assert!(accepts_book(&Some("12".to_string()), "12"));
    assert!(!accepts_book(&Some("12".to_string()), "13"));
    assert!(!accepts_book(&None, "12"));
}

#[test]
fn funder_needed_for_value() {
    let mut c = Credentials {
        address: "a".to_string(),
        api_key: "k".to_string(),
        api_secret: "s".to_string(),
        passphrase: "p".to_string(),
        private_key: "pk".to_string(),
        funder_address: None,
    };
    assert!(lacks_funder(&c));
    c.funder_address = Some(String::new());
    assert!(lacks_funder(&c));
    c.funder_address = Some("0x1".to_string());
    assert!(!lacks_funder(&c));
}

#[test]
fn loading_tags_start_once() {
    let mut loading: KeyedList<()> = KeyedList::new();
    assert!(begin_loading(&mut loading, "82".to_string()));
    assert!(!begin_loading(&mut loading, "82".to_string()));
    loading.remove("82");
    assert!(begin_loading(&mut loading, "82".to_string()));
}

#[test]
fn sports_statuses_forwarded() {
    assert!(update("x", "Scheduled").should_forward());
    assert!(update("x", "PenaltyShootout").should_forward());
    assert!(update("x", "Canceled").should_forward());
    assert!(!update("x", "scheduled").should_forward());
    assert!(!update("x", "Halftime").should_forward());
    assert!(soccer_status("Final"));
}

#[test]
fn gamma_queries() {
    assert_eq!(tags_query().limit, 3000);
    let q = events_query(Some("100350".to_string()));
    assert!(q.active);
    assert!(!q.closed);
    assert_eq!(q.order, vec!["startDate".to_string()]);
    assert!(q.ascending);
    assert_eq!(q.limit, 500);
    assert_eq!(q.tag_id.as_deref(), Some("100350"));
    assert_eq!(events_query(None).tag_id, None);
}

fn item(k: &str, v: Option<i32>) -> (String, Option<i32>) {
    (k.to_string(), v)
}

#[test]
fn batch_upsert_last_wins_new_keys_in_first_order() {
    let mut l: KeyedList<i32> = KeyedList::new();
    l.upsert("a".to_string(), 1);
    l.upsert("b".to_string(), 2);
    l.upsert_all(vec![
        item("c", Some(3)),
        item("a", Some(4)),
        item("d", None),
        item("e", Some(6)),
        item("c", Some(5)),
    ]);
    assert_eq!(l.keys(), &vec!["a".to_string(), "b".to_string(), "c".to_string(), "e".to_string()]);
    assert_eq!(l.values(), &vec![4, 2, 5, 6]);
    assert!(!l.contains_key("d"));
}

#[test]
fn events_batch_clears_loading_tag() {
    let mut events: KeyedList<i32> = KeyedList::new();
    let mut loading: KeyedList<()> = KeyedList::new();
    assert!(begin_loading(&mut loading, "82".to_string()));
    assert!(begin_loading(&mut loading, "7".to_string()));
    events.upsert("e1".to_string(), 1);
    receive_events(&mut events, &mut loading, vec![item("e2", Some(2)), item("e1", Some(10))], Some("82".to_string()));
    assert_eq!(events.keys(), &vec!["e1".to_string(), "e2".to_string()]);
    assert_eq!(events.values(), &vec![10, 2]);
    assert!(!loading.contains_key("82"));
    assert!(loading.contains_key("7"));
    receive_events(&mut events, &mut loading, vec![], None);
    assert_eq!(events.len(), 2);
    assert!(loading.contains_key("7"));
}

#[test]
fn first_token_of_first_market() {
    let some = |v: Vec<&str>| Some(v.into_iter().map(|s| s.to_string()).collect::<Vec<_>>());
    assert_eq!(first_market_token(&Some(vec![some(vec!["11", "12"]), some(vec!["21"])])), Some("11".to_string()));
    assert_eq!(first_market_token(&Some(vec![None, some(vec!["21"])])), None);
    assert_eq!(first_market_token(&Some(vec![some(vec![])])), None);
    assert_eq!(first_market_token(&Some(vec![])), None);
    assert_eq!(first_market_token(&None), None);
}
