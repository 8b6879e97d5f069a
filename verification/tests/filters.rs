use rusthub::creations::{
    creation_duplicate_filter, creation_file_filter, link_new_decision, creations_by_filter_filter, creations_by_user_filter,
    creations_in_filter, files_filter, filter_status, position_filter, random_creation_filter,
    topic_creations_filter,
};
use rusthub::filter::{Cond, Filter};
use rusthub::time::DAY_MILLIS;
use rusthub::topics::{topic_creation_filter, topic_user_filter, topics_users_filter};

fn entries(f: &Filter) -> Vec<(String, Cond)> {
    (0..f.len())
        .map(|i| (f.key_at(i).clone(), clone_cond(f.cond_at(i))))
        .collect()
}

fn clone_cond(c: &Cond) -> Cond {
    match c {
        Cond::EqId(x) => Cond::EqId(*x),
        Cond::EqStr(s) => Cond::EqStr(s.clone()),
        Cond::EqInt(n) => Cond::EqInt(*n),
        Cond::GteInt(n) => Cond::GteInt(*n),
        Cond::GteTime(t) => Cond::GteTime(*t),
        Cond::NeStr(s) => Cond::NeStr(s.clone()),
        Cond::InIds(v) => Cond::InIds(v.clone()),
        Cond::Exists(b) => Cond::Exists(*b),
    }
}

#[test]
fn insert_replaces_in_place() {
    let mut f = Filter::new();
    f.insert("a", Cond::EqInt(1));
    f.insert("b", Cond::EqInt(2));
    f.insert("a", Cond::EqInt(3));
    assert_eq!(
        entries(&f),
        vec![("a".to_string(), Cond::EqInt(3)), ("b".to_string(), Cond::EqInt(2))]
    );
    assert_eq!(f.get("a"), Some(&Cond::EqInt(3)));
    assert_eq!(f.get("b"), Some(&Cond::EqInt(2)));
    assert_eq!(f.get("c"), None);
    assert_eq!(f.find("b"), Some(1));
}

#[test]
fn status_narrowing() {
    let mut f = Filter::new();
    filter_status(0, &mut f);
    assert_eq!(f.len(), 0);
    filter_status(3, &mut f);
    assert_eq!(f.get("status"), Some(&Cond::GteInt(3)));
    filter_status(-1, &mut f);
    assert_eq!(f.get("status"), Some(&Cond::EqInt(-1)));
    assert_eq!(f.len(), 1);
}

#[test]
fn named_listing_filters() {
    let f = creations_by_filter_filter("open-source", 1);
    assert_eq!(
        entries(&f),
        vec![
            ("status".to_string(), Cond::GteInt(1)),
            ("source_url".to_string(), Cond::NeStr(String::new()))
        ]
    );
    let f = creations_by_filter_filter("with-website", 0);
    assert_eq!(entries(&f), vec![("website".to_string(), Cond::NeStr(String::new()))]);
    let f = creations_by_filter_filter("recommended", 2);
    assert_eq!(entries(&f), vec![("status".to_string(), Cond::GteInt(2))]);
}

#[test]
fn positions() {
    let mut f = Filter::new();
    position_filter(" recommended ", &mut f);
    assert_eq!(f.get("status"), Some(&Cond::GteInt(2)));
    let mut f = Filter::new();
    position_filter("published", &mut f);
    assert_eq!(f.get("status"), Some(&Cond::GteInt(1)));
    let mut f = Filter::new();
    position_filter("managed", &mut f);
    assert_eq!(f.len(), 0);
}

#[test]
fn user_and_id_filters() {
    let f = creations_by_user_filter(7, -2);
    assert_eq!(
        entries(&f),
        vec![("user_id".to_string(), Cond::EqId(7)), ("status".to_string(), Cond::EqInt(-2))]
    );
    let f = creations_in_filter(vec![1, 2], 1);
    assert_eq!(
        entries(&f),
        vec![("_id".to_string(), Cond::InIds(vec![1, 2])), ("status".to_string(), Cond::GteInt(1))]
    );
    let f = topic_creations_filter(9);
    assert_eq!(
        entries(&f),
        vec![("topic_id".to_string(), Cond::EqId(9)), ("creation_id".to_string(), Cond::Exists(true))]
    );
    let f = files_filter(vec![4], 1, 1);
    assert_eq!(
        entries(&f),
        vec![
            ("_id".to_string(), Cond::InIds(vec![4])),
            ("kind".to_string(), Cond::EqInt(1)),
            ("status".to_string(), Cond::EqInt(1))
        ]
    );
}

#[test]
fn topic_link_filters() {
    let f = topics_users_filter(5, true);
    assert_eq!(entries(&f), vec![("user_id".to_string(), Cond::EqId(5))]);
    let f = topics_users_filter(5, false);
    assert_eq!(
        entries(&f),
        vec![("user_id".to_string(), Cond::EqId(5)), ("creation_id".to_string(), Cond::Exists(false))]
    );
}

#[test]
fn time_window_filters() {
    let now = 1_700_000_000_000i64;
    let f = creation_duplicate_filter(3, "My App", now);
    assert_eq!(
        entries(&f),
        vec![
            ("user_id".to_string(), Cond::EqId(3)),
            ("subject".to_string(), Cond::EqStr("My App".to_string())),
            ("created_at".to_string(), Cond::GteTime(now - 2 * DAY_MILLIS))
        ]
    );
    let f = random_creation_filter(now);
    assert_eq!(
        entries(&f),
        vec![
            ("status".to_string(), Cond::GteInt(1)),
            ("updated_at".to_string(), Cond::GteTime(now - 604_800_000))
        ]
    );
}

#[test]
fn topic_slugs_are_looked_up_lowercased() {
    let f = rusthub::topics::topic_slug_filter("Rust-Lang-17");
    assert_eq!(entries(&f), vec![("slug".to_string(), Cond::EqStr("rust-lang-17".to_string()))]);
}

#[test]
fn link_filters_name_both_ends_and_the_user() {
    assert_eq!(
        entries(&creation_file_filter(1, 2, 3)),
        vec![
            ("user_id".to_string(), Cond::EqId(1)),
            ("creation_id".to_string(), Cond::EqId(2)),
            ("file_id".to_string(), Cond::EqId(3)),
        ]
    );
    assert_eq!(
        entries(&topic_user_filter(4, 5)),
        vec![
            ("topic_id".to_string(), Cond::EqId(4)),
            ("user_id".to_string(), Cond::EqId(5)),
            ("creation_id".to_string(), Cond::Exists(false)),
        ]
    );
    assert_eq!(
        entries(&topic_creation_filter(4, 5, 6)),
        vec![
            ("topic_id".to_string(), Cond::EqId(4)),
            ("user_id".to_string(), Cond::EqId(5)),
            ("creation_id".to_string(), Cond::EqId(6)),
        ]
    );
}

#[test]
fn a_standing_link_is_refused() {
    assert_eq!(link_new_decision(false), Ok(()));
    assert_eq!(link_new_decision(true), Err("记录已存在".to_string()));
}
