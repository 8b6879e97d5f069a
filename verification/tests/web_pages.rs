use rusthub::lang::{get_lang_res, locale_path};
use rusthub::num::IntErrorKind;
use rusthub::queries::{
    CreationData, CreationFileNewData, CreationInfo, CreationNewData, CreationUpdateOneFieldByIdData,
    CreationsByFilterData, CreationsByTopicData, CreationsByUserData, CreationsData,
    creation_detail_requests, user_detail_requests, DetailRequest,
};
use rusthub::web::{
    admin_creation_path, admin_sign_in_path, author_content, creation_file_ids, creation_path,
    creations_filter_selection, file_location, file_new, filter_desc_content, gql_uri,
    scripts_dir, sign_in_path, sign_status, tpls_dir, upload_error, Page,
    admin_access, listing_status, AdminAccess, ListingPage,
};

#[test]
fn default_page() {
    let p = Page::default();
    assert_eq!((p.from, p.first.as_str(), p.last.as_str()), (1, "-", "-"));
}

#[test]
fn signed_in_state() {
    let s = sign_status(None, None);
    assert!(!s.sign_in);
    assert_eq!((s.username.as_str(), s.token.as_str()), ("-", "-"));
    let s = sign_status(Some("alice".into()), Some("tok".into()));
    assert!(s.sign_in);
    assert_eq!(s.token, "tok");
    assert!(!sign_status(Some("  ".into()), None).sign_in);
    assert!(!sign_status(Some(" - ".into()), None).sign_in);
}

#[test]
fn endpoints_and_dirs() {
    assert_eq!(gql_uri("http", "127.0.0.1", "8200", "gql", "v1"), "http://127.0.0.1:8200/gql/v1");
    assert_eq!(scripts_dir(), "../assets/scripts/");
    assert_eq!(tpls_dir(), "./templates/");
    assert_eq!(locale_path("zh-cn", "common.lang"), "../assets/locales/zh-cn/common.lang");
}

#[test]
fn paths() {
    assert_eq!(sign_in_path("en-us"), "/en-us/sign-in");
    assert_eq!(admin_sign_in_path(), "/zh-cn/sign-in");
    assert_eq!(creation_path("zh-cn", "abc"), "/zh-cn/creation/abc");
    assert_eq!(admin_creation_path("abc"), "/admin/creation/abc");
}

#[test]
fn lang_resources() {
    assert_eq!(get_lang_res("home"), vec!["common.lang", "home.lang"]);
    assert_eq!(get_lang_res("users_index"), vec!["common.lang", "users.lang", "pagination.lang"]);
    assert_eq!(get_lang_res("creations_new_x"), vec!["common.lang", "creations.lang", "pagination.lang"]);
    assert_eq!(
        get_lang_res("admin_creations"),
        vec!["common.lang", "admin.lang", "users.lang", "creations.lang", "pagination.lang"]
    );
    assert_eq!(get_lang_res("topics_index"), vec!["common.lang"]);
    assert_eq!(get_lang_res("_x"), vec!["common.lang"]);
}

#[test]
fn listing_filters() {
    assert_eq!(creations_filter_selection("recommended"), (Some("creations-recommended-selected"), 2));
    assert_eq!(creations_filter_selection("open-source"), (Some("creations-open-source-selected"), 1));
    assert_eq!(creations_filter_selection("with-website"), (Some("creations-with-website-selected"), 1));
    assert_eq!(creations_filter_selection("other"), (None, 1));
    assert_eq!(filter_desc_content("open-source"), "creations-filter-open-source");
    assert_eq!(author_content("Ann", "ann"), "Ann (ann)");
}

#[test]
fn new_creation_files() {
    assert_eq!(creation_file_ids("c1", "r1,r2"), vec!["c1", "r1", "r2"]);
    assert_eq!(creation_file_ids("c1", ""), vec!["c1", ""]);
}

#[test]
fn uploads() {
    assert_eq!(file_location(1700000000000000, "a.b.png"), "1700000000000000.png");
    assert_eq!(file_location(7, "x."), "7.");
    let q = file_new("pic.jpg", "2", 12).unwrap();
    assert_eq!((q.name.as_str(), q.kind, q.location.as_str()), ("pic.jpg", 2, "12.jpg"));
    assert_eq!(file_new("pic.jpg", "two", 12).err(), Some(IntErrorKind::InvalidDigit));
    assert_eq!(upload_error("zh-cn"), "上传异常：请联系 ask@rusthub.org");
    assert_eq!(upload_error("en-us"), "Upload exception: please contact ask@rusthub.org");
}

#[test]
fn query_variables() {
    let q = CreationsData::new(Page::default(), 1);
    assert_eq!((q.from_page, q.first_oid.as_str(), q.last_oid.as_str(), q.status), (1, "-", "-", 1));
    let page = Page { from: 3, first: "f".into(), last: "l".into() };
    let q = CreationsByUserData::new("ann", page, 1);
    assert_eq!((q.username.as_str(), q.from_page, q.first_oid.as_str(), q.last_oid.as_str()), ("ann", 3, "f", "l"));
    let q = CreationsByTopicData::new("rust-1", Page::default(), 1);
    assert_eq!(q.topic_slug, "rust-1");
    let q = CreationsByFilterData::new("open-source", Page::default(), 2);
    assert_eq!((q.filter_str.as_str(), q.status), ("open-source", 2));
    let q = CreationData::new("id1");
    assert_eq!(q.creation_id, "id1");
    let q = CreationUpdateOneFieldByIdData::hits_bump("id1");
    assert_eq!((q.creation_id.as_str(), q.field_name.as_str(), q.field_val.as_str()), ("id1", "hits", "3"));
    let q = CreationFileNewData::new("u", "c", "f");
    assert_eq!((q.user_id.as_str(), q.creation_id.as_str(), q.file_id.as_str()), ("u", "c", "f"));
    let info = CreationInfo {
        user_id: "u".into(),
        subject: "s".into(),
        cover_image_id: "c".into(),
        topic_names: "t".into(),
        content: "body".into(),
        website: "w".into(),
        source_url: "src".into(),
        res_file_ids: "r".into(),
        contact_user: "cu".into(),
        contact_phone: "cp".into(),
        contact_email: "ce".into(),
        contact_im: "ci".into(),
        language: "en".into(),
    };
    let q = CreationNewData::from_info(&info);
    assert_eq!(
        (q.user_id.as_str(), q.subject.as_str(), q.content.as_str(), q.website.as_str(), q.source_url.as_str()),
        ("u", "s", "body", "w", "src")
    );
    assert_eq!(
        (q.contact_user.as_str(), q.contact_phone.as_str(), q.contact_email.as_str(), q.contact_im.as_str(), q.language.as_str()),
        ("cu", "cp", "ce", "ci", "en")
    );
}

#[test]
fn admin_pages_need_a_signed_in_user() {
    match admin_access(sign_status(Some("ann".to_string()), Some("t".to_string()))) {
        AdminAccess::Show { username } => assert_eq!(username, "ann"),
        _ => panic!("page expected"),
    }
    match admin_access(sign_status(None, None)) {
        AdminAccess::SignIn { location } => assert_eq!(location, "/zh-cn/sign-in"),
        _ => panic!("redirect expected"),
    }
    match admin_access(sign_status(Some("  ".to_string()), None)) {
        AdminAccess::SignIn { location } => assert_eq!(location, "/zh-cn/sign-in"),
        _ => panic!("redirect expected"),
    }
}

#[test]
fn listing_pages_ask_for_their_status() {
    assert_eq!(listing_status(ListingPage::Creations, ""), 1);
    assert_eq!(listing_status(ListingPage::Users, ""), 1);
    assert_eq!(listing_status(ListingPage::CreationsByUser, ""), 1);
    assert_eq!(listing_status(ListingPage::CreationsByTopic, ""), 1);
    assert_eq!(listing_status(ListingPage::AdminCreations, "recommended"), 0);
    assert_eq!(listing_status(ListingPage::CreationsByFilter, "recommended"), 2);
    assert_eq!(listing_status(ListingPage::CreationsByFilter, "open-source"), 1);
    assert_eq!(listing_status(ListingPage::CreationsByFilter, "anything"), 1);
}

#[test]
fn detail_pages_count_the_visit_before_fetching() {
    let r = creation_detail_requests("c1");
    assert_eq!(r.len(), 2);
    match &r[0] {
        DetailRequest::BumpCreationHits(q) => {
            assert_eq!((q.creation_id.as_str(), q.field_name.as_str(), q.field_val.as_str()), ("c1", "hits", "3"))
        }
        _ => panic!("hits first"),
    }
    match &r[1] {
        DetailRequest::FetchCreation(q) => assert_eq!(q.creation_id, "c1"),
        _ => panic!("fetch second"),
    }
    let r = user_detail_requests("ann");
    assert_eq!(r.len(), 2);
    match &r[0] {
        DetailRequest::BumpUserHits(q) => {
            assert_eq!((q.username.as_str(), q.field_name.as_str(), q.field_val.as_str()), ("ann", "hits", "1"))
        }
        _ => panic!("hits first"),
    }
    match &r[1] {
        DetailRequest::FetchUser(q) => assert_eq!(q.username, "ann"),
        _ => panic!("fetch second"),
    }
}
