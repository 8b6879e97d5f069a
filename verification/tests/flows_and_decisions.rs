use rusthub::creations::{
    creation_new_decision, creations_in_position_query, newest_first_page, CreationNewDecision,
};
use rusthub::filter::{Cond, Filter};
use rusthub::flows::{creation_new_step, CreationNewAction, CreationNewEvent, CreationNewState, LinkRequest};
use rusthub::model::TopicNew;
use rusthub::queries::{user_activate_request, CreationInfo, UserActivateRequest, UserByUsernameData, UserUpdateOneFieldByUsernameData};
use rusthub::slug::slugify;
use rusthub::topics::{topic_new_decision, topics_new_next, TopicNewDecision, TopicsNewAction};

fn info() -> CreationInfo {
    CreationInfo {
        user_id: "u1".into(),
        subject: "My App".into(),
        cover_image_id: "f0".into(),
        topic_names: "rust,web".into(),
        content: "body".into(),
        website: "w".into(),
        source_url: "s".into(),
        res_file_ids: "f1,f2".into(),
        contact_user: "cu".into(),
        contact_phone: "cp".into(),
        contact_email: "ce".into(),
        contact_im: "ci".into(),
        language: "en".into(),
    }
}

fn request(signed_in: bool, is_post: bool) -> CreationNewEvent {
    CreationNewEvent::Request { signed_in, is_post, language: "zh-cn".into(), info: info() }
}

fn link(a: &CreationNewAction) -> (bool, String, String, String) {
    match a {
        CreationNewAction::SendLink(LinkRequest::Topic { user_id, creation_id, topic_id }) => {
            (true, user_id.clone(), creation_id.clone(), topic_id.clone())
        }
        CreationNewAction::SendLink(LinkRequest::File(q)) => {
            (false, q.user_id.clone(), q.creation_id.clone(), q.file_id.clone())
        }
        _ => panic!("a link was expected"),
    }
}

#[test]
fn creation_page_not_signed_in() {
    let (s, a) = creation_new_step(CreationNewState::Start, request(false, true));
    assert!(matches!(s, CreationNewState::Finished));
    assert!(matches!(a, CreationNewAction::Redirect(p) if p == "/zh-cn/sign-in"));
}

#[test]
fn creation_page_get_renders_form() {
    let (s, a) = creation_new_step(CreationNewState::Start, request(true, false));
    assert!(matches!(s, CreationNewState::Finished));
    assert!(matches!(a, CreationNewAction::RenderForm));
}

#[test]
fn creation_page_full_flow() {
    let (s, a) = creation_new_step(CreationNewState::Start, request(true, true));
    match &a {
        CreationNewAction::SendCreationNew(q) => assert_eq!((q.user_id.as_str(), q.subject.as_str(), q.language.as_str()), ("u1", "My App", "en")),
        _ => panic!("creation request expected"),
    }
    let (s, a) = creation_new_step(s, CreationNewEvent::CreationCreated { creation_id: "c9".into() });
    assert!(matches!(a, CreationNewAction::SendTopicsNew(n) if n == "rust,web"));
    let (mut s, a) = creation_new_step(s, CreationNewEvent::TopicsCreated { topic_ids: vec!["t1".into(), "t2".into()] });
    let mut sent = vec![link(&a)];
    loop {
        let (s2, a2) = creation_new_step(s, CreationNewEvent::Linked);
        s = s2;
        match a2 {
            CreationNewAction::RenderCreated => break,
            other => sent.push(link(&other)),
        }
    }
    assert!(matches!(s, CreationNewState::Finished));
    let expected: Vec<(bool, String, String, String)> = vec![
        (true, "t1"), (true, "t2"), (false, "f0"), (false, "f1"), (false, "f2"),
    ]
    .into_iter()
    .map(|(t, id)| (t, "u1".to_string(), "c9".to_string(), id.to_string()))
    .collect();
    assert_eq!(sent, expected);
}

#[test]
fn creation_page_without_topics_still_links_files() {
    let (s, _) = creation_new_step(CreationNewState::Start, request(true, true));
    let (s, _) = creation_new_step(s, CreationNewEvent::CreationCreated { creation_id: "c1".into() });
    let (_, a) = creation_new_step(s, CreationNewEvent::TopicsNotCreated);
    assert_eq!(link(&a), (false, "u1".to_string(), "c1".to_string(), "f0".to_string()));
}

#[test]
fn creation_page_refused() {
    let (s, _) = creation_new_step(CreationNewState::Start, request(true, true));
    let (s, a) = creation_new_step(s, CreationNewEvent::CreationRefused { message: "2024 (CN)".into() });
    assert!(matches!(s, CreationNewState::Finished));
    assert!(matches!(a, CreationNewAction::RenderFailed { subject, message } if subject == "My App" && message == "2024 (CN)"));
}

#[test]
fn creation_page_ignores_stray_answers() {
    let (s, a) = creation_new_step(CreationNewState::Start, CreationNewEvent::Linked);
    assert!(matches!(s, CreationNewState::Start));
    assert!(matches!(a, CreationNewAction::Ignore));
}

#[test]
fn backend_creation_decision() {
    match creation_new_decision(None, "My App!", 17) {
        CreationNewDecision::Insert { slug, created_at, updated_at } => {
            assert_eq!((slug.as_str(), created_at, updated_at), ("my-app--17", 17, 17))
        }
        _ => panic!("insert expected"),
    }
    match creation_new_decision(Some(0), "My App", 17) {
        CreationNewDecision::Duplicate { message } => {
            assert_eq!(message, "1970-01-01 00:00:00+00 / 1970-01-01 08:00:00+08 (CN)")
        }
        _ => panic!("duplicate expected"),
    }
}

#[test]
fn backend_topic_decision() {
    let t = TopicNew { name: "rust".into(), quotes: 1, slug: String::new() };
    assert!(matches!(topic_new_decision(t, Some(5), 9), TopicNewDecision::Quote { topic_id: 5 }));
    let t = TopicNew { name: "rust lang".into(), quotes: 1, slug: String::new() };
    match topic_new_decision(t, None, 9) {
        TopicNewDecision::Insert { topic } => {
            assert_eq!((topic.name.as_str(), topic.quotes, topic.slug.as_str()), ("rust lang", 1, "rust-lang-9"))
        }
        _ => panic!("insert expected"),
    }
}

#[test]
fn topic_list_stops_at_first_refusal() {
    assert!(matches!(topics_new_next(0, 3, false), TopicsNewAction::Create(0)));
    assert!(matches!(topics_new_next(2, 3, false), TopicsNewAction::Create(2)));
    assert!(matches!(topics_new_next(3, 3, false), TopicsNewAction::Done));
    assert!(matches!(topics_new_next(1, 3, true), TopicsNewAction::Fail));
}

#[test]
fn listings() {
    let l = creations_in_position_query(Some(4), " recommended ", 10);
    assert_eq!(l.filter.get("user_id"), Some(&Cond::EqId(4)));
    assert_eq!(l.filter.get("status"), Some(&Cond::GteInt(2)));
    assert!(l.newest_first);
    assert_eq!((l.skip, l.limit), (None, Some(10)));
    let l = creations_in_position_query(None, "other", 3);
    assert_eq!(l.filter.len(), 0);
    let l = newest_first_page(Filter::new(), 20);
    assert!(l.newest_first);
    assert_eq!((l.skip, l.limit), (Some(20), None));
}

#[test]
fn user_queries() {
    assert_eq!(UserByUsernameData::new("ann").username, "ann");
    let q = UserUpdateOneFieldByUsernameData::hits_bump("ann");
    assert_eq!((q.username.as_str(), q.field_name.as_str(), q.field_val.as_str()), ("ann", "hits", "1"));
    match user_activate_request(true, "ann") {
        UserActivateRequest::Resend(q) => assert_eq!(q.username, "ann"),
        _ => panic!("resend expected"),
    }
    match user_activate_request(false, "ann") {
        UserActivateRequest::Activate(q) => {
            assert_eq!((q.username.as_str(), q.field_name.as_str(), q.field_val.as_str()), ("ann", "activate", "1"))
        }
        _ => panic!("activation expected"),
    }
}

#[test]
fn slugs_have_the_friendly_form() {
    for s in ["A!!B??C", "--x--", "  Ünïcödé  ", "tab\there", "北京 大学", "…"] {
        let slug = slugify(s).unwrap();
        assert!(slug.chars().all(|c| c.is_ascii_lowercase() || c.is_ascii_digit() || c == '-'), "{:?}", slug);
        assert!(!slug.contains("--"), "{:?}", slug);
    }
    assert_eq!(slugify("A!!B??C").unwrap(), "a-b-c");
    assert_eq!(slugify("--x--").unwrap(), "-x-");
}

#[test]
fn a_slug_is_its_own_slug() {
    for s in ["A!!B??C", "--x--", "  Ünïcödé  ", "tab\there", "北京 大学", "…", "rust-2021", ""] {
        let once = slugify(s).unwrap();
        let twice = slugify(&once).unwrap();
        assert_eq!(twice, once);
    }
}
