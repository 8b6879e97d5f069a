//! Translations: which message files a page needs, and reading one message
//! out of them.

use vstd::prelude::*;
use crate::text::{split_on, concat_str, str_eq};

verus! {

/// The message files of a page rendered from template `root_tpl`: the
/// common file, then those of the template's directory (the part of its
/// name before the first `_`), or the home page's file when the name has no
/// `_`.
pub open spec fn lang_res(root_tpl: Seq<char>) -> Seq<Seq<char>> {
    let pieces = split_on(root_tpl, '_');
    if pieces.len() > 1 {
        let dir = pieces[0];
        if dir == "users"@ {
            seq!["common.lang"@, "users.lang"@, "pagination.lang"@]
        } else if dir == "creations"@ {
            seq!["common.lang"@, "creations.lang"@, "pagination.lang"@]
        } else if dir == "admin"@ {
            seq!["common.lang"@, "admin.lang"@, "users.lang"@, "creations.lang"@, "pagination.lang"@]
        } else {
            seq!["common.lang"@]
        }
    } else {
        seq!["common.lang"@, "home.lang"@]
    }
}

/// The message files a page needs, by its template name.
pub fn get_lang_res(root_tpl: &str) -> (r: Vec<&'static str>)
    ensures
        r@.map_values(|s: &str| s@) == lang_res(root_tpl@),
{
    let v = crate::text::to_chars(root_tpl);
    let pieces = crate::text::split_chars(&v, '_');
    let mut tpl_lang_res: Vec<&'static str> = Vec::new();
    tpl_lang_res.push("common.lang");
    if pieces.len() > 1 {
        let dir = crate::text::from_chars(&pieces[0]);
        if str_eq(dir.as_str(), "users") {
            tpl_lang_res.push("users.lang");
            tpl_lang_res.push("pagination.lang");
        } else if str_eq(dir.as_str(), "creations") {
            tpl_lang_res.push("creations.lang");
            tpl_lang_res.push("pagination.lang");
        } else if str_eq(dir.as_str(), "admin") {
            tpl_lang_res.push("admin.lang");
            tpl_lang_res.push("users.lang");
            tpl_lang_res.push("creations.lang");
            tpl_lang_res.push("pagination.lang");
        }
    } else {
        tpl_lang_res.push("home.lang");
    }
    assert(tpl_lang_res@.map_values(|s: &str| s@) =~= lang_res(root_tpl@));
    tpl_lang_res
}

/// Where the message file `res_file` of language `lang_id` is kept,
/// relative to the web application's directory.
pub fn locale_path(lang_id: &str, res_file: &str) -> (r: String)
    ensures
        r@ == "../assets/locales/"@ + lang_id@ + "/"@ + res_file@,
{
    let a = concat_str("../assets/locales/", lang_id);
    let b = concat_str(a.as_str(), "/");
    concat_str(b.as_str(), res_file)
}

/// What fluent-bundle gives for message `msg_id` of a default bundle made
/// of the message files `sources` (added in order), formatted with the text
/// arguments `args`: `None` where a file does not parse or cannot be added,
/// or the message has no value; `Some(None)` where no file defines it.
pub uninterp spec fn fluent_message(sources: Seq<Seq<char>>, msg_id: Seq<char>, args: Seq<(Seq<char>, Seq<char>)>) -> Option<Option<Seq<char>>>;

pub open spec fn texts(v: Seq<String>) -> Seq<Seq<char>> {
    v.map_values(|s: String| s@)
}

pub open spec fn text_pairs(v: Seq<(String, String)>) -> Seq<(Seq<char>, Seq<char>)> {
    v.map_values(|p: (String, String)| (p.0@, p.1@))
}

/// Builds a `fluent_bundle::FluentBundle::default()` from the sources
/// (`FluentResource::try_new`, `add_resource`), sets the arguments
/// (`FluentArgs::set`), looks the message up (`get_message`, `value`) and
/// formats it (`format_pattern`). The result is named `fluent_message`;
/// nothing more is stated of it.
#[verifier::external_body]
fn fluent_format(sources: &Vec<String>, msg_id: &str, args: &Vec<(String, String)>) -> (r: Option<Option<String>>)
    ensures
        fluent_message(texts(sources@), msg_id@, text_pairs(args@)) == match r {
            Some(Some(t)) => Some(Some(t@)),
            Some(None) => Some(None::<Seq<char>>),
            None => None::<Option<Seq<char>>>,
        },
{
    let mut bundle = fluent_bundle::FluentBundle::default();
    for source in sources {
        bundle.add_resource(fluent_bundle::FluentResource::try_new(source.clone()).ok()?).ok()?;
    }
    let mut fargs = fluent_bundle::FluentArgs::new();
    for (key, val) in args {
        fargs.set(key.clone(), fluent_bundle::FluentValue::from(val.clone()));
    }
    let Some(message) = bundle.get_message(msg_id) else { return Some(None) };
    let mut errors = vec![];
    Some(Some(bundle.format_pattern(message.value()?, Some(&fargs), &mut errors).into_owned()))
}

/// The message arguments as texts: a value that is not a text counts as
/// the empty text.
pub open spec fn arg_texts(args: Seq<(String, Option<String>)>) -> Seq<(Seq<char>, Seq<char>)> {
    args.map_values(
        |p: (String, Option<String>)|
            (
                p.0@,
                match p.1 {
                    Some(t) => t@,
                    None => Seq::<char>::empty(),
                },
            ),
    )
}

/// The message arguments as fluent takes them: a value that is not a text
/// becomes the empty text.
fn fluent_args(args: &Vec<(String, Option<String>)>) -> (r: Vec<(String, String)>)
    ensures
        text_pairs(r@) == arg_texts(args@),
{
    let mut fargs: Vec<(String, String)> = Vec::new();
    let mut i: usize = 0;
    while i < args.len()
        invariant
            i <= args.len(),
            text_pairs(fargs@) == arg_texts(args@.take(i as int)),
        decreases args.len() - i,
    {
        let key = args[i].0.clone();
        let val = match &args[i].1 {
            Some(t) => t.clone(),
            None => String::new(),
        };
        assert(key@ == args@[i as int].0@);
        assert(val@ == match args@[i as int].1 {
            Some(t) => t@,
            None => Seq::<char>::empty(),
        });
        let ghost before = fargs@;
        proof {
            assert(arg_texts(args@.take(i + 1)) =~= arg_texts(args@.take(i as int)).push((key@, val@)));
            assert(text_pairs(before.push((key, val))) =~= text_pairs(before).push((key@, val@)));
        }
        fargs.push((key, val));
        i = i + 1;
    }
    assert(args@.take(args.len() as int) == args@);
    fargs
}

/// The message `msg_id` in the language whose message files are `sources`
/// (read by the caller from `locale_path` of each of `get_lang_res`),
/// formatted with `args`; the message id itself where no file defines it.
/// The files must parse and add to one bundle, and a message they define
/// must have a value: elsewhere the page cannot be rendered (see
/// `try_get_lang_msg`).
pub fn get_lang_msg(sources: &Vec<String>, msg_id: &str, args: &Vec<(String, Option<String>)>) -> (r: String)
    requires
        fluent_message(texts(sources@), msg_id@, arg_texts(args@)) is Some,
    ensures
        match fluent_message(texts(sources@), msg_id@, arg_texts(args@)) {
            Some(Some(t)) => r@ == t,
            _ => r@ == msg_id@,
        },
{
    let fargs = fluent_args(args);
    match fluent_format(sources, msg_id, &fargs) {
        Some(Some(t)) => t,
        Some(None) => String::from_str(msg_id),
        None => {
            assert(false);
            String::from_str(msg_id)
        },
    }
}

/// `get_lang_msg` where the message files allow it; `None` exactly where a
/// file does not parse or cannot be added to the bundle, or the message has
/// no value, the inputs on which no page can be rendered.
pub fn try_get_lang_msg(sources: &Vec<String>, msg_id: &str, args: &Vec<(String, Option<String>)>) -> (r: Option<String>)
    ensures
        match fluent_message(texts(sources@), msg_id@, arg_texts(args@)) {
            Some(Some(t)) => r matches Some(m) && m@ == t,
            Some(None) => r matches Some(m) && m@ == msg_id@,
            None => r is None,
        },
{
    let fargs = fluent_args(args);
    match fluent_format(sources, msg_id, &fargs) {
        Some(_) => Some(get_lang_msg(sources, msg_id, args)),
        None => None,
    }
}

} // verus!

verus! {

/// Every page loads the common messages first.
pub proof fn lemma_common_first(root_tpl: Seq<char>)
    ensures
        lang_res(root_tpl).len() >= 1,
        lang_res(root_tpl)[0] == "common.lang"@,
{
}

} // verus!
