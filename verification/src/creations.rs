//! The rules of the creation service: which records each query asks for,
//! how a field update is read, and what a missing cover falls back to.

use vstd::prelude::*;
use crate::filter::{
    Filter, Cond, CondSpec, set_cond, cond_of, unique_keys, lemma_key_index, lemma_get_after_set,
    lemma_set_other_unchanged, lemma_set_keeps_unique,
};
use crate::model::{File, CreationFile, TopicCreation};
use crate::ids::{strictly_increasing, sort_dedup};
use crate::num::{IntErrorKind, parse_int_spec, parse_i32, parse_i64};
use crate::text::{trim, str_eq, trim_str};
use crate::time::{formatted_time, DTF_YMDHMSZ, TZ_FO_8_SECS, DAY_MILLIS};
use crate::slug::{slug_of, stamped};

verus! {

/// `s` narrowed by the listing status: a positive status asks for at least
/// that status, a negative one for exactly it, zero for any.
pub open spec fn status_filtered(s: Seq<(Seq<char>, CondSpec)>, status: i8) -> Seq<(Seq<char>, CondSpec)> {
    if status > 0 {
        set_cond(s, "status"@, CondSpec::GteInt(status as i32))
    } else if status < 0 {
        set_cond(s, "status"@, CondSpec::EqInt(status as i32))
    } else {
        s
    }
}

/// What narrowing by status does to the conditions: a positive status
/// sets `status >= status`, a negative one `status == status`, zero leaves
/// the status condition as it was; no other field changes.
pub proof fn lemma_status_filtered_conditions(s: Seq<(Seq<char>, CondSpec)>, status: i8, key: Seq<char>)
    requires
        unique_keys(s),
    ensures
        unique_keys(status_filtered(s, status)),
        cond_of(status_filtered(s, status), "status"@) == (if status > 0 {
            Some(CondSpec::GteInt(status as i32))
        } else if status < 0 {
            Some(CondSpec::EqInt(status as i32))
        } else {
            cond_of(s, "status"@)
        }),
        key != "status"@ ==> cond_of(status_filtered(s, status), key) == cond_of(s, key),
{
    if status > 0 {
        lemma_set_keeps_unique(s, "status"@, CondSpec::GteInt(status as i32));
        lemma_get_after_set(s, "status"@, CondSpec::GteInt(status as i32));
        if key != "status"@ {
            lemma_set_other_unchanged(s, "status"@, CondSpec::GteInt(status as i32), key);
        }
    } else if status < 0 {
        lemma_set_keeps_unique(s, "status"@, CondSpec::EqInt(status as i32));
        lemma_get_after_set(s, "status"@, CondSpec::EqInt(status as i32));
        if key != "status"@ {
            lemma_set_other_unchanged(s, "status"@, CondSpec::EqInt(status as i32), key);
        }
    }
}

/// Narrows `filter` by the listing status.
pub fn filter_status(status: i8, filter: &mut Filter)
    requires
        old(filter).wf(),
    ensures
        final(filter).wf(),
        final(filter)@ == status_filtered(old(filter)@, status),
{
    if status > 0 {
        filter.insert("status", Cond::GteInt(status as i32));
    } else if status < 0 {
        filter.insert("status", Cond::EqInt(status as i32));
    }
}

/// `s` narrowed by a named listing filter: open-source creations have a
/// source URL, `with-website` ones a website; other names add nothing.
pub open spec fn named_filtered(s: Seq<(Seq<char>, CondSpec)>, filter_str: Seq<char>) -> Seq<(Seq<char>, CondSpec)> {
    if filter_str == "open-source"@ {
        set_cond(s, "source_url"@, CondSpec::NeStr(Seq::<char>::empty()))
    } else if filter_str == "with-website"@ {
        set_cond(s, "website"@, CondSpec::NeStr(Seq::<char>::empty()))
    } else {
        s
    }
}

/// What a named filter does to the conditions: `open-source` sets
/// `source_url != ""`, `with-website` sets `website != ""`, whatever the
/// filter already holds (the status among it); every other field keeps its
/// condition, and any other name changes nothing.
pub proof fn lemma_named_filtered_conditions(s: Seq<(Seq<char>, CondSpec)>, filter_str: Seq<char>, key: Seq<char>)
    requires
        unique_keys(s),
    ensures
        unique_keys(named_filtered(s, filter_str)),
        cond_of(named_filtered(s, "with-website"@), "website"@) == Some(CondSpec::NeStr(Seq::<char>::empty())),
        cond_of(named_filtered(s, "open-source"@), "source_url"@) == Some(CondSpec::NeStr(Seq::<char>::empty())),
        filter_str == "with-website"@ && key != "website"@ ==> cond_of(named_filtered(s, filter_str), key) == cond_of(s, key),
        filter_str == "open-source"@ && key != "source_url"@ ==> cond_of(named_filtered(s, filter_str), key) == cond_of(s, key),
        filter_str != "with-website"@ && filter_str != "open-source"@ ==> named_filtered(s, filter_str) == s,
{
    let e = CondSpec::NeStr(Seq::<char>::empty());
    reveal_strlit("with-website");
    reveal_strlit("open-source");
    assert("with-website"@ != "open-source"@) by { assert("with-website"@.len() != "open-source"@.len()); }
    lemma_set_keeps_unique(s, "source_url"@, e);
    lemma_set_keeps_unique(s, "website"@, e);
    lemma_get_after_set(s, "website"@, e);
    lemma_get_after_set(s, "source_url"@, e);
    if key != "website"@ {
        lemma_set_other_unchanged(s, "website"@, e, key);
    }
    if key != "source_url"@ {
        lemma_set_other_unchanged(s, "source_url"@, e, key);
    }
}

/// No field has a condition in the empty filter.
proof fn lemma_empty_filter_conditions(key: Seq<char>)
    ensures
        unique_keys(Seq::<(Seq<char>, CondSpec)>::empty()),
        cond_of(Seq::<(Seq<char>, CondSpec)>::empty(), key) is None,
{
    lemma_key_index(Seq::<(Seq<char>, CondSpec)>::empty(), key);
}

/// The filter of a listing by status and named filter.
pub fn creations_by_filter_filter(filter_str: &str, status: i8) -> (f: Filter)
    ensures
        f.wf(),
        f@ == named_filtered(status_filtered(Seq::empty(), status), filter_str@),
        cond_of(f@, "status"@) == (if status > 0 {
            Some(CondSpec::GteInt(status as i32))
        } else if status < 0 {
            Some(CondSpec::EqInt(status as i32))
        } else {
            None
        }),
        cond_of(f@, "website"@) == (if filter_str@ == "with-website"@ {
            Some(CondSpec::NeStr(Seq::<char>::empty()))
        } else {
            None
        }),
        cond_of(f@, "source_url"@) == (if filter_str@ == "open-source"@ {
            Some(CondSpec::NeStr(Seq::<char>::empty()))
        } else {
            None
        }),
        forall|key: Seq<char>|
            key != "status"@ && key != "website"@ && key != "source_url"@ ==> #[trigger] cond_of(f@, key) is None,
{
    proof {
        lemma_by_filter_conditions(filter_str@, status);
    }
    let mut f = Filter::new();
    filter_status(status, &mut f);
    if str_eq(filter_str, "open-source") {
        f.insert("source_url", Cond::NeStr(String::new()));
    } else if str_eq(filter_str, "with-website") {
        f.insert("website", Cond::NeStr(String::new()));
    }
    f
}

/// The conditions of a listing by status and named filter, field by field.
proof fn lemma_by_filter_conditions(filter_str: Seq<char>, status: i8)
    ensures
        ({
            let f = named_filtered(status_filtered(Seq::empty(), status), filter_str);
            &&& cond_of(f, "status"@) == (if status > 0 {
                Some(CondSpec::GteInt(status as i32))
            } else if status < 0 {
                Some(CondSpec::EqInt(status as i32))
            } else {
                None
            })
            &&& cond_of(f, "website"@) == (if filter_str == "with-website"@ {
                Some(CondSpec::NeStr(Seq::<char>::empty()))
            } else {
                None
            })
            &&& cond_of(f, "source_url"@) == (if filter_str == "open-source"@ {
                Some(CondSpec::NeStr(Seq::<char>::empty()))
            } else {
                None
            })
            &&& forall|key: Seq<char>|
                key != "status"@ && key != "website"@ && key != "source_url"@ ==> #[trigger] cond_of(f, key) is None
        }),
{
    let e = Seq::<(Seq<char>, CondSpec)>::empty();
    let st = status_filtered(e, status);
    reveal_strlit("status");
    reveal_strlit("website");
    reveal_strlit("source_url");
    reveal_strlit("with-website");
    reveal_strlit("open-source");
    assert("status"@ != "website"@) by { assert("status"@.len() != "website"@.len()); }
    assert("status"@ != "source_url"@) by { assert("status"@.len() != "source_url"@.len()); }
    assert("website"@ != "source_url"@) by { assert("website"@.len() != "source_url"@.len()); }
    assert("with-website"@ != "open-source"@) by { assert("with-website"@.len() != "open-source"@.len()); }
    lemma_empty_filter_conditions("status"@);
    lemma_empty_filter_conditions("website"@);
    lemma_empty_filter_conditions("source_url"@);
    lemma_status_filtered_conditions(e, status, "status"@);
    lemma_status_filtered_conditions(e, status, "website"@);
    lemma_status_filtered_conditions(e, status, "source_url"@);
    lemma_named_filtered_conditions(st, filter_str, "status"@);
    lemma_named_filtered_conditions(st, filter_str, "website"@);
    lemma_named_filtered_conditions(st, filter_str, "source_url"@);
    let f = named_filtered(st, filter_str);
    assert forall|key: Seq<char>|
        key != "status"@ && key != "website"@ && key != "source_url"@ implies #[trigger] cond_of(f, key) is None by {
        lemma_empty_filter_conditions(key);
        lemma_status_filtered_conditions(e, status, key);
        lemma_named_filtered_conditions(st, filter_str, key);
    }
}

/// `s` narrowed by a page position: recommended creations have status at
/// least 2, published ones at least 1; other positions add nothing.
pub open spec fn positioned(s: Seq<(Seq<char>, CondSpec)>, position: Seq<char>) -> Seq<(Seq<char>, CondSpec)> {
    if position == "recommended"@ {
        set_cond(s, "status"@, CondSpec::GteInt(2))
    } else if position == "published"@ {
        set_cond(s, "status"@, CondSpec::GteInt(1))
    } else {
        s
    }
}

/// What a page position does to the conditions: `recommended` sets
/// `status >= 2` and `published` sets `status >= 1`, whatever the filter
/// already holds (a user among it); every other field keeps its condition,
/// and any other position changes nothing.
pub proof fn lemma_positioned_conditions(s: Seq<(Seq<char>, CondSpec)>, position: Seq<char>, key: Seq<char>)
    requires
        unique_keys(s),
    ensures
        unique_keys(positioned(s, position)),
        cond_of(positioned(s, "published"@), "status"@) == Some(CondSpec::GteInt(1)),
        cond_of(positioned(s, "recommended"@), "status"@) == Some(CondSpec::GteInt(2)),
        key != "status"@ ==> cond_of(positioned(s, position), key) == cond_of(s, key),
        position != "recommended"@ && position != "published"@ ==> positioned(s, position) == s,
{
    reveal_strlit("recommended");
    reveal_strlit("published");
    assert("recommended"@ != "published"@) by { assert("recommended"@.len() != "published"@.len()); }
    lemma_set_keeps_unique(s, "status"@, CondSpec::GteInt(1));
    lemma_set_keeps_unique(s, "status"@, CondSpec::GteInt(2));
    lemma_get_after_set(s, "status"@, CondSpec::GteInt(1));
    lemma_get_after_set(s, "status"@, CondSpec::GteInt(2));
    if key != "status"@ {
        lemma_set_other_unchanged(s, "status"@, CondSpec::GteInt(1), key);
        lemma_set_other_unchanged(s, "status"@, CondSpec::GteInt(2), key);
    }
}

/// Narrows `filter` by the (trimmed) page position.
pub fn position_filter(position: &str, filter: &mut Filter)
    requires
        old(filter).wf(),
    ensures
        final(filter).wf(),
        final(filter)@ == positioned(old(filter)@, trim(position@)),
        cond_of(final(filter)@, "status"@) == (if trim(position@) == "recommended"@ {
            Some(CondSpec::GteInt(2))
        } else if trim(position@) == "published"@ {
            Some(CondSpec::GteInt(1))
        } else {
            cond_of(old(filter)@, "status"@)
        }),
        forall|key: Seq<char>|
            key != "status"@ ==> #[trigger] cond_of(final(filter)@, key) == cond_of(old(filter)@, key),
{
    proof {
        lemma_positioned_conditions(old(filter)@, trim(position@), "status"@);
        assert forall|key: Seq<char>|
            key != "status"@ implies #[trigger] cond_of(positioned(old(filter)@, trim(position@)), key)
                == cond_of(old(filter)@, key) by {
            lemma_positioned_conditions(old(filter)@, trim(position@), key);
        }
    }
    let p = trim_str(position);
    if str_eq(p.as_str(), "recommended") {
        filter.insert("status", Cond::GteInt(2));
    } else if str_eq(p.as_str(), "published") {
        filter.insert("status", Cond::GteInt(1));
    }
}

/// The filter of the creations of one user, by status.
pub fn creations_by_user_filter(user_id: u128, status: i8) -> (f: Filter)
    ensures
        f.wf(),
        f@ == status_filtered(seq![("user_id"@, CondSpec::EqId(user_id))], status),
{
    let mut f = Filter::new();
    f.insert("user_id", Cond::EqId(user_id));
    filter_status(status, &mut f);
    f
}

/// The filter of the creations among `ids`, by status.
pub fn creations_in_filter(ids: Vec<u128>, status: i8) -> (f: Filter)
    ensures
        f.wf(),
        f@ == status_filtered(seq![("_id"@, CondSpec::InIds(ids@))], status),
{
    let mut f = Filter::new();
    f.insert("_id", Cond::InIds(ids));
    filter_status(status, &mut f);
    f
}

/// The creations a topic is given to: their ids, sorted, each once.
pub fn creation_ids_of(links: &Vec<TopicCreation>) -> (ids: Vec<u128>)
    ensures
        strictly_increasing(ids@),
        forall|x: u128|
            ids@.contains(x) <==> exists|i: int| 0 <= i < links@.len() && (#[trigger] links@[i]).creation_id == x,
{
    let mut ids: Vec<u128> = Vec::new();
    let mut i: usize = 0;
    while i < links.len()
        invariant
            i <= links.len(),
            ids@.len() == i,
            forall|k: int| 0 <= k < i ==> ids@[k] == (#[trigger] links@[k]).creation_id,
        decreases links.len() - i,
    {
        ids.push(links[i].creation_id);
        i = i + 1;
    }
    let ghost unsorted = ids@;
    sort_dedup(&mut ids);
    assert forall|x: u128|
        ids@.contains(x) <==> exists|i: int| 0 <= i < links@.len() && (#[trigger] links@[i]).creation_id == x by {
        if ids@.contains(x) {
            assert(unsorted.contains(x));
            let k = choose|k: int| 0 <= k < unsorted.len() && unsorted[k] == x;
            assert(links@[k].creation_id == x);
        }
        if exists|i: int| 0 <= i < links@.len() && (#[trigger] links@[i]).creation_id == x {
            let k = choose|i: int| 0 <= i < links@.len() && (#[trigger] links@[i]).creation_id == x;
            assert(unsorted[k] == x);
            assert(unsorted.contains(x));
        }
    }
    ids
}

/// The filter on a topic's links to creations.
pub fn topic_creations_filter(topic_id: u128) -> (f: Filter)
    ensures
        f.wf(),
        f@ == set_cond(seq![("topic_id"@, CondSpec::EqId(topic_id))], "creation_id"@, CondSpec::Exists(true)),
{
    let mut f = Filter::new();
    f.insert("topic_id", Cond::EqId(topic_id));
    f.insert("creation_id", Cond::Exists(true));
    f
}

/// The filter that finds a creation the same user made under the same
/// subject in the two days before `now_millis`.
pub fn creation_duplicate_filter(user_id: u128, subject: &str, now_millis: i64) -> (f: Filter)
    requires
        now_millis >= i64::MIN + 2 * DAY_MILLIS,
    ensures
        f.wf(),
        f@ == set_cond(
            set_cond(seq![("user_id"@, CondSpec::EqId(user_id))], "subject"@, CondSpec::EqStr(subject@)),
            "created_at"@,
            CondSpec::GteTime((now_millis - 2 * DAY_MILLIS) as i64),
        ),
{
    let mut f = Filter::new();
    f.insert("user_id", Cond::EqId(user_id));
    f.insert("subject", Cond::EqStr(String::from_str(subject)));
    let since = crate::time::days_before(now_millis, 2);
    f.insert("created_at", Cond::GteTime(since));
    f
}

/// The filter that finds the link of user `user_id` between a creation and
/// a file, where one was already made.
pub fn creation_file_filter(user_id: u128, creation_id: u128, file_id: u128) -> (f: Filter)
    ensures
        f.wf(),
        f@ == set_cond(
            set_cond(seq![("user_id"@, CondSpec::EqId(user_id))], "creation_id"@, CondSpec::EqId(creation_id)),
            "file_id"@,
            CondSpec::EqId(file_id),
        ),
{
    let mut f = Filter::new();
    f.insert("user_id", Cond::EqId(user_id));
    f.insert("creation_id", Cond::EqId(creation_id));
    f.insert("file_id", Cond::EqId(file_id));
    f
}

/// The answer to a request for a link that already stands.
pub const ERR_RECORD_EXIST: &'static str = "记录已存在";

/// Whether a new link (of a file to a creation, of a topic to a user or to
/// a creation) is made: only where no such link stands yet; otherwise the
/// request is refused with `ERR_RECORD_EXIST`.
pub fn link_new_decision(already_linked: bool) -> (r: Result<(), String>)
    ensures
        already_linked <==> r is Err,
        r matches Err(m) ==> m@ == ERR_RECORD_EXIST@,
{
    if already_linked {
        Err(String::from_str(ERR_RECORD_EXIST))
    } else {
        Ok(())
    }
}

/// The filter from which a random creation is drawn: published, and updated
/// in the seven days before `now_millis`.
pub fn random_creation_filter(now_millis: i64) -> (f: Filter)
    requires
        now_millis >= i64::MIN + 7 * DAY_MILLIS,
    ensures
        f.wf(),
        f@ == set_cond(
            seq![("status"@, CondSpec::GteInt(1))],
            "updated_at"@,
            CondSpec::GteTime((now_millis - 7 * DAY_MILLIS) as i64),
        ),
{
    let mut f = Filter::new();
    f.insert("status", Cond::GteInt(1));
    let since = crate::time::days_before(now_millis, 7);
    f.insert("updated_at", Cond::GteTime(since));
    f
}

/// The text a refused duplicate creation is answered with: its creation
/// time in UTC and in China Standard Time.
pub open spec fn duplicate_text(created_at: i64) -> Option<Seq<char>> {
    match (formatted_time(created_at, 0, DTF_YMDHMSZ@), formatted_time(created_at, TZ_FO_8_SECS, DTF_YMDHMSZ@)) {
        (Some(utc), Some(cn)) => Some(utc + " / "@ + cn + " (CN)"@),
        _ => None,
    }
}

/// `format!("{} / {} (CN)", utc, cn)` over the creation time.
pub fn duplicate_message(created_at: i64) -> (r: String)
    ensures
        duplicate_text(created_at) == Some(r@),
{
    let utc = crate::time::bdt_to_ymdhmsz(created_at);
    let cn = crate::time::bdt_to_ymdhmsz_8(created_at);
    let a = crate::text::concat_str(utc.as_str(), " / ");
    let b = crate::text::concat_str(a.as_str(), cn.as_str());
    crate::text::concat_str(b.as_str(), " (CN)")
}

/// The change that updating one field of a creation makes.
pub enum FieldUpdate {
    /// Set the integer field and stamp the update time.
    SetInt { field: String, value: i32, updated_at: i64 },
    /// Add to the counter field.
    Inc { field: String, by: i64 },
    /// Change nothing.
    Unchanged,
}

/// What updating `field_name` with the text `field_val` does at
/// `now_millis`: `status` is set to the value read as an `i32` (and the
/// update time stamped); the counters `hits`, `insides` and `stars` grow by
/// the value read as an `i64`; other fields stay. A value that cannot be read
/// gives the reading error.
pub fn field_update(field_name: &str, field_val: &str, now_millis: i64) -> (r: Result<FieldUpdate, IntErrorKind>)
    ensures
        field_name@ == "status"@ ==> match parse_int_spec(field_val@, i32::MIN as int, i32::MAX as int) {
            Ok(v) => r matches Ok(FieldUpdate::SetInt { field, value, updated_at }) && field@ == field_name@
                && value == v && updated_at == now_millis,
            Err(e) => r == Err::<FieldUpdate, IntErrorKind>(e),
        },
        (field_name@ == "hits"@ || field_name@ == "insides"@ || field_name@ == "stars"@) ==> match parse_int_spec(
            field_val@,
            i64::MIN as int,
            i64::MAX as int,
        ) {
            Ok(v) => r matches Ok(FieldUpdate::Inc { field, by }) && field@ == field_name@ && by == v,
            Err(e) => r == Err::<FieldUpdate, IntErrorKind>(e),
        },
        !(field_name@ == "status"@ || field_name@ == "hits"@ || field_name@ == "insides"@ || field_name@
            == "stars"@) ==> r matches Ok(FieldUpdate::Unchanged),
{
    proof {
        reveal_strlit("status");
        reveal_strlit("hits");
        reveal_strlit("insides");
        reveal_strlit("stars");
        assert("status"@.len() == 6 && "hits"@.len() == 4 && "insides"@.len() == 7 && "stars"@.len() == 5);
        assert("status"@ != "hits"@ && "status"@ != "insides"@ && "status"@ != "stars"@);
    }
    if str_eq(field_name, "status") {
        match parse_i32(field_val) {
            Ok(v) => Ok(FieldUpdate::SetInt { field: String::from_str(field_name), value: v, updated_at: now_millis }),
            Err(e) => Err(e),
        }
    } else if str_eq(field_name, "hits") || str_eq(field_name, "insides") || str_eq(field_name, "stars") {
        match parse_i64(field_val) {
            Ok(v) => Ok(FieldUpdate::Inc { field: String::from_str(field_name), by: v }),
            Err(e) => Err(e),
        }
    } else {
        Ok(FieldUpdate::Unchanged)
    }
}

/// The file ids of creation-file links, in order.
pub fn file_ids_of(links: &Vec<CreationFile>) -> (ids: Vec<u128>)
    ensures
        ids@.len() == links@.len(),
        forall|i: int| 0 <= i < ids@.len() ==> ids@[i] == (#[trigger] links@[i]).file_id,
{
    let mut ids: Vec<u128> = Vec::new();
    let mut i: usize = 0;
    while i < links.len()
        invariant
            i <= links.len(),
            ids@.len() == i,
            forall|k: int| 0 <= k < i ==> ids@[k] == (#[trigger] links@[k]).file_id,
        decreases links.len() - i,
    {
        ids.push(links[i].file_id);
        i = i + 1;
    }
    ids
}

/// The filter on a creation's files of one kind and status.
pub fn files_filter(file_ids: Vec<u128>, file_kind: i8, file_status: i8) -> (f: Filter)
    ensures
        f.wf(),
        f@ == set_cond(
            set_cond(seq![("_id"@, CondSpec::InIds(file_ids@))], "kind"@, CondSpec::EqInt(file_kind as i32)),
            "status"@,
            CondSpec::EqInt(file_status as i32),
        ),
{
    let mut f = Filter::new();
    f.insert("_id", Cond::InIds(file_ids));
    f.insert("kind", Cond::EqInt(file_kind as i32));
    f.insert("status", Cond::EqInt(file_status as i32));
    f
}

/// The name and location of the site's own picture, shown where a creation
/// has no cover.
pub open spec fn default_cover_name() -> Seq<char> {
    "rusthub.png"@
}

/// The file found, or else the site's picture in its place: of the asked
/// kind, active, under a fresh id.
pub fn file_or_cover(found: Option<File>, file_kind: i8, fresh_id: u128) -> (f: File)
    ensures
        match found {
            Some(x) => f == x,
            None => f._id == fresh_id && f.name@ == default_cover_name() && f.kind == file_kind
                && f.location@ == default_cover_name() && f.status == 1,
        },
{
    match found {
        Some(x) => x,
        None => {
            let cover = String::from_str("rusthub.png");
            File { _id: fresh_id, name: cover.clone(), kind: file_kind, location: cover, status: 1 }
        },
    }
}

} // verus!

verus! {

/// What creating a creation comes to, once the store was asked for a
/// creation of the same user and subject in the last two days.
pub enum CreationNewDecision {
    /// Store it under this slug, created and updated now.
    Insert { slug: String, created_at: i64, updated_at: i64 },
    /// Refuse it; a duplicate was made at the time this message gives.
    Duplicate { message: String },
}

/// Creates the creation when no duplicate was found, under the slug of its
/// subject stamped with `now_millis`; refuses it otherwise, with the time
/// at which the duplicate was made (`existing_created_at`).
pub fn creation_new_decision(existing_created_at: Option<i64>, subject: &str, now_millis: i64) -> (r: CreationNewDecision)
    ensures
        match existing_created_at {
            None => r matches CreationNewDecision::Insert { slug, created_at, updated_at }
                && slug_of(subject@) matches Some(base) && slug@ == stamped(base, now_millis as int)
                && created_at == now_millis && updated_at == now_millis,
            Some(t) => r matches CreationNewDecision::Duplicate { message }
                && duplicate_text(t) == Some(message@),
        },
{
    match existing_created_at {
        None => {
            let slug = crate::slug::new_slug(subject, now_millis).unwrap();
            CreationNewDecision::Insert { slug, created_at: now_millis, updated_at: now_millis }
        },
        Some(t) => CreationNewDecision::Duplicate { message: duplicate_message(t) },
    }
}

/// What a listing asks the store for: the records that pass the filter,
/// newest first (by descending object id) where `newest_first`, skipping
/// `skip` and taking at most `limit` where those are given.
pub struct Listing {
    pub filter: Filter,
    pub newest_first: bool,
    pub skip: Option<u64>,
    pub limit: Option<i64>,
}

/// The listing of creations for a page position: those of the user named,
/// if one is (`user_id`, found by the caller), narrowed by the trimmed
/// position, newest first, at most `limit` of them.
pub fn creations_in_position_query(user_id: Option<u128>, position: &str, limit: i64) -> (l: Listing)
    ensures
        l.filter.wf(),
        l.filter@ == positioned(
            match user_id {
                Some(u) => seq![("user_id"@, CondSpec::EqId(u))],
                None => Seq::empty(),
            },
            trim(position@),
        ),
        cond_of(l.filter@, "status"@) == (if trim(position@) == "recommended"@ {
            Some(CondSpec::GteInt(2))
        } else if trim(position@) == "published"@ {
            Some(CondSpec::GteInt(1))
        } else {
            None
        }),
        cond_of(l.filter@, "user_id"@) == match user_id {
            Some(u) => Some(CondSpec::EqId(u)),
            None => None,
        },
        forall|key: Seq<char>|
            key != "status"@ && key != "user_id"@ ==> #[trigger] cond_of(l.filter@, key) is None,
        l.newest_first,
        l.skip is None,
        l.limit == Some(limit),
{
    proof {
        reveal_strlit("status");
        reveal_strlit("user_id");
        assert("status"@ != "user_id"@) by { assert("status"@.len() != "user_id"@.len()); }
    }
    let mut filter = Filter::new();
    proof {
        lemma_empty_filter_conditions("status"@);
        lemma_empty_filter_conditions("user_id"@);
        assert forall|key: Seq<char>| key != "status"@ && key != "user_id"@ implies #[trigger] cond_of(filter@, key) is None by {
            lemma_empty_filter_conditions(key);
        }
    }
    if let Some(u) = user_id {
        proof {
            lemma_get_after_set(filter@, "user_id"@, CondSpec::EqId(u));
            assert forall|key: Seq<char>| key != "user_id"@ implies #[trigger] cond_of(
                set_cond(filter@, "user_id"@, CondSpec::EqId(u)),
                key,
            ) == cond_of(filter@, key) by {
                lemma_set_other_unchanged(filter@, "user_id"@, CondSpec::EqId(u), key);
            }
        }
        filter.insert("user_id", Cond::EqId(u));
    }
    position_filter(position, &mut filter);
    Listing { filter, newest_first: true, skip: None, limit: Some(limit) }
}

/// One page of a paged listing: the filter as the pagination left it,
/// newest first, skipping `skip` records.
pub fn newest_first_page(filter: Filter, skip: u64) -> (l: Listing)
    ensures
        l.filter == filter,
        l.newest_first,
        l.skip == Some(skip),
        l.limit is None,
{
    Listing { filter, newest_first: true, skip: Some(skip), limit: None }
}

} // verus!
