use rusthub::creations::duplicate_message;
use rusthub::lang::{get_lang_msg, try_get_lang_msg};
use rusthub::model::Creation;
use rusthub::slug::{new_slug, slugify, stamped_slug};
use rusthub::time::{bdt_to_ymd, bdt_to_ymd8, bdt_to_ymdhmsz, bdt_to_ymdhmsz_8, days_before};
use rusthub::web::decode_file_name;

fn creation(content: &str, created_at: i64) -> Creation {
    Creation {
        _id: 1,
        user_id: 2,
        subject: "s".into(),
        slug: "s-1".into(),
        content: content.into(),
        website: String::new(),
        source_url: String::new(),
        contact_user: String::new(),
        contact_phone: String::new(),
        contact_email: String::new(),
        contact_im: String::new(),
        created_at,
        updated_at: created_at + 86_400_000,
        hits: 0,
        insides: 0,
        stars: 0,
        language: "en".into(),
        status: 1,
    }
}

#[test]
fn slugs() {
    assert_eq!(slugify("  Hello World!  ").unwrap(), "hello-world-");
    assert_eq!(slugify("a -- b").unwrap(), "a-b");
    assert_eq!(slugify("Ærøskøbing Rocks").unwrap(), "aeroskobing-rocks");
    assert_eq!(slugify("北京").unwrap(), "bei-jing");
    assert_eq!(slugify("").unwrap(), "");
}

#[test]
fn stamped_slugs() {
    assert_eq!(stamped_slug("web-app", 1700000000123), "web-app-1700000000123");
    assert_eq!(new_slug("My App", 5).unwrap(), "my-app-5");
}

#[test]
fn dates() {
    assert_eq!(bdt_to_ymd(0), "1970-01-01");
    assert_eq!(bdt_to_ymd8(57_600_000), "1970-01-02");
    assert_eq!(bdt_to_ymd(57_600_000), "1970-01-01");
    assert_eq!(bdt_to_ymdhmsz(0), "1970-01-01 00:00:00+00");
    assert_eq!(bdt_to_ymdhmsz_8(0), "1970-01-01 08:00:00+08");
    assert_eq!(bdt_to_ymd(i64::MAX), "+262142-12-31");
    assert_eq!(bdt_to_ymd(i64::MIN), "-262143-01-01");
    assert_eq!(days_before(1_000_000_000_000, 2), 1_000_000_000_000 - 172_800_000);
}

#[test]
fn creation_dates() {
    let c = creation("", 0);
    assert_eq!(c.created_at_ymd(), "1970-01-01");
    assert_eq!(c.created_at_ymd8(), "1970-01-01");
    assert_eq!(c.updated_at_ymd(), "1970-01-02");
    assert_eq!(c.updated_at_ymd8(), "1970-01-02");
    assert_eq!(c.created_at_ymdhmsz(), "1970-01-01 00:00:00+00");
    assert_eq!(c.created_at_ymdhmsz_8(), "1970-01-01 08:00:00+08");
    assert_eq!(c.updated_at_ymdhmsz(), "1970-01-02 00:00:00+00");
    assert_eq!(c.updated_at_ymdhmsz_8(), "1970-01-02 08:00:00+08");
}

#[test]
fn duplicate_answer() {
    assert_eq!(
        duplicate_message(0),
        "1970-01-01 00:00:00+00 / 1970-01-01 08:00:00+08 (CN)"
    );
}

#[test]
fn markdown_content() {
    assert_eq!(creation("Hello *world*", 0).content_html(), "<p>Hello <em>world</em></p>\n");
    assert_eq!(creation("# Title {#top}", 0).content_html(), "<h1 id=\"top\">Title</h1>\n");
    assert_eq!(creation("- [x] done", 0).content_html(), "<ul>\n<li><input disabled=\"\" type=\"checkbox\" checked=\"\"/>\ndone</li>\n</ul>\n");
}

#[test]
fn translations() {
    let sources = vec!["hello = Hello, { $name }!\nbye = Bye".to_string(), "extra = More".to_string()];
    let args = vec![("name".to_string(), Some("Ann".to_string()))];
    assert_eq!(get_lang_msg(&sources, "hello", &args), "Hello, \u{2068}Ann\u{2069}!");
    assert_eq!(get_lang_msg(&sources, "extra", &vec![]), "More");
    assert_eq!(get_lang_msg(&sources, "missing", &vec![]), "missing");
    let odd = vec![("name".to_string(), None)];
    assert_eq!(get_lang_msg(&sources, "hello", &odd), "Hello, \u{2068}\u{2069}!");
    let broken = vec!["= nothing".to_string()];
    assert_eq!(try_get_lang_msg(&broken, "hello", &vec![]), None);
    assert_eq!(try_get_lang_msg(&sources, "bye", &vec![]).unwrap(), "Bye");
}

#[test]
fn file_names() {
    assert_eq!(decode_file_name("my%20file.png").unwrap(), "my file.png");
    assert_eq!(decode_file_name("%E5%8C%97.txt").unwrap(), "北.txt");
    assert_eq!(decode_file_name("%FF"), None);
}
