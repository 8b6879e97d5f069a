use rusthub::creations::{creation_ids_of, field_update, file_ids_of, file_or_cover, FieldUpdate};
use rusthub::ids::sort_dedup;
use rusthub::model::{CreationFile, File, Topic, TopicCreation, TopicNew, TopicUser};
use rusthub::num::IntErrorKind;
use rusthub::pagination::creations_result;
use rusthub::topics::{
    count_occurrences, count_quotes, invalid_name_message, sort_by_quotes_desc, topic_ids_of_creations,
    topic_ids_of_users, topic_inits, topic_name_check, user_topics,
};

fn topic(id: u128, quotes: i64) -> Topic {
    Topic { _id: id, name: format!("t{}", id), quotes, slug: format!("t{}-1", id) }
}

fn ids_quotes(v: &[Topic]) -> Vec<(u128, i64)> {
    v.iter().map(|t| (t._id, t.quotes)).collect()
}

#[test]
fn sort_dedup_ids() {
    let mut ids = vec![5u128, 1, 5, 3, 1, 9];
    sort_dedup(&mut ids);
    assert_eq!(ids, vec![1, 3, 5, 9]);
    let again = ids.clone();
    sort_dedup(&mut ids);
    assert_eq!(ids, again);
    let mut empty: Vec<u128> = vec![];
    sort_dedup(&mut empty);
    assert!(empty.is_empty());
}

#[test]
fn stable_sort_most_quoted_first() {
    let mut ts = vec![topic(1, 2), topic(2, 5), topic(3, 2), topic(4, 9), topic(5, 5)];
    sort_by_quotes_desc(&mut ts);
    assert_eq!(ids_quotes(&ts), vec![(4, 9), (2, 5), (5, 5), (1, 2), (3, 2)]);
    let once = ids_quotes(&ts);
    sort_by_quotes_desc(&mut ts);
    assert_eq!(ids_quotes(&ts), once);
}

#[test]
fn counts_and_user_topics() {
    let links = vec![7u128, 8, 7, 7, 9];
    assert_eq!(count_occurrences(&links, 7), 3);
    assert_eq!(count_occurrences(&links, 1), 0);
    let counted = count_quotes(vec![topic(8, 0), topic(7, 0)], &links);
    assert_eq!(ids_quotes(&counted), vec![(8, 1), (7, 3)]);
    let ranked = user_topics(vec![topic(9, 100), topic(8, 0), topic(7, 0)], &links);
    assert_eq!(ids_quotes(&ranked), vec![(7, 3), (9, 1), (8, 1)]);
    assert_eq!(ranked[0].name, "t7");
}

#[test]
fn link_ids() {
    let tc = vec![
        TopicCreation { _id: 1, user_id: 1, creation_id: 30, topic_id: 4 },
        TopicCreation { _id: 2, user_id: 1, creation_id: 10, topic_id: 5 },
        TopicCreation { _id: 3, user_id: 2, creation_id: 30, topic_id: 4 },
    ];
    assert_eq!(creation_ids_of(&tc), vec![10, 30]);
    assert_eq!(topic_ids_of_creations(&tc), vec![4, 5, 4]);
    let tu = vec![TopicUser { _id: 1, user_id: 1, topic_id: 6 }];
    assert_eq!(topic_ids_of_users(&tu), vec![6]);
    let cf = vec![
        CreationFile { _id: 1, user_id: 1, creation_id: 2, file_id: 11 },
        CreationFile { _id: 2, user_id: 1, creation_id: 2, file_id: 12 },
    ];
    assert_eq!(file_ids_of(&cf), vec![11, 12]);
}

#[test]
fn field_updates() {
    match field_update("status", "2", 99) {
        Ok(FieldUpdate::SetInt { field, value, updated_at }) => {
            assert_eq!((field.as_str(), value, updated_at), ("status", 2, 99))
        }
        _ => panic!("status update expected"),
    }
    match field_update("hits", "3", 99) {
        Ok(FieldUpdate::Inc { field, by }) => assert_eq!((field.as_str(), by), ("hits", 3)),
        _ => panic!("increment expected"),
    }
    match field_update("stars", "-1", 0) {
        Ok(FieldUpdate::Inc { field, by }) => assert_eq!((field.as_str(), by), ("stars", -1)),
        _ => panic!("increment expected"),
    }
    assert!(matches!(field_update("subject", "x", 0), Ok(FieldUpdate::Unchanged)));
    assert!(matches!(field_update("status", "x", 0), Err(IntErrorKind::InvalidDigit)));
    assert!(matches!(field_update("status", "3000000000", 0), Err(IntErrorKind::PosOverflow)));
    assert!(matches!(field_update("insides", "", 0), Err(IntErrorKind::Empty)));
}

#[test]
fn cover_fallback() {
    let f = file_or_cover(None, 1, 42);
    assert_eq!((f._id, f.name.as_str(), f.kind, f.location.as_str(), f.status), (42, "rusthub.png", 1, "rusthub.png", 1));
    let found = File { _id: 5, name: "a.png".into(), kind: 2, location: "1.png".into(), status: 1 };
    let f = file_or_cover(Some(found), 1, 42);
    assert_eq!((f._id, f.name.as_str(), f.kind), (5, "a.png", 2));
}

#[test]
fn topic_names() {
    let mut t = TopicNew { name: "  Rust Lang ".into(), quotes: 1, slug: String::new() };
    assert!(topic_name_check(&mut t));
    assert_eq!(t.name, "rust lang");
    let mut t = TopicNew { name: " - ".into(), quotes: 1, slug: String::new() };
    assert!(!topic_name_check(&mut t));
    let mut t = TopicNew { name: "   ".into(), quotes: 1, slug: String::new() };
    assert!(!topic_name_check(&mut t));
    let mut t = TopicNew { name: "ÉCOLE".into(), quotes: 4, slug: "s".into() };
    assert!(topic_name_check(&mut t));
    assert_eq!((t.name.as_str(), t.quotes, t.slug.as_str()), ("école", 4, "s"));
    assert_eq!(invalid_name_message(), "名称不合法");
}

#[test]
fn topic_list() {
    let inits = topic_inits("rust, web ,,wasm");
    let names: Vec<&str> = inits.iter().map(|t| t.name.as_str()).collect();
    assert_eq!(names, vec!["rust", "web", "", "wasm"]);
    assert!(inits.iter().all(|t| t.quotes == 1 && t.slug.is_empty()));
}

#[test]
fn page_of_creations() {
    let empty = creations_result(vec![], 1, 1, 0);
    assert_eq!(empty.page_info.current_stuff.as_deref(), Some("creations"));
    assert_eq!(empty.page_info.first_cursor, None);
    assert!(!empty.page_info.has_previous_page);
    assert!(!empty.page_info.has_next_page);
    let c = |id: u128| rusthub::model::Creation {
        _id: id,
        user_id: 1,
        subject: String::new(),
        slug: String::new(),
        content: String::new(),
        website: String::new(),
        source_url: String::new(),
        contact_user: String::new(),
        contact_phone: String::new(),
        contact_email: String::new(),
        contact_im: String::new(),
        created_at: 0,
        updated_at: 0,
        hits: 0,
        insides: 0,
        stars: 0,
        language: String::new(),
        status: 1,
    };
    let page = creations_result(vec![c(9), c(8), c(7)], 2, 3, 25);
    assert_eq!(page.page_info.current_page, Some(2));
    assert_eq!(page.page_info.first_cursor, Some(9));
    assert_eq!(page.page_info.last_cursor, Some(7));
    assert!(page.page_info.has_previous_page);
    assert!(page.page_info.has_next_page);
    assert_eq!(page.res_count.pages_count, Some(3));
    assert_eq!(page.res_count.total_count, Some(25));
    assert_eq!(page.current_items.len(), 3);
    let last = creations_result(vec![c(1)], 3, 3, 25);
    assert!(!last.page_info.has_next_page);
}
