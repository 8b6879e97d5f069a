//! The web front end's own rules: paging parameters, the signed-in state,
//! the GraphQL endpoint, page paths, and the variables of its queries.

use vstd::prelude::*;
use crate::text::{trim, is_none_text, split_on, concat_str, str_eq};
use crate::num::decimal_text;

verus! {

/// Paging parameters of a listing URL: the page to go to and the ids of the
/// first and last items of the current page (`-` for none).
#[derive(Debug)]
pub struct Page {
    pub from: i64,
    pub first: String,
    pub last: String,
}

impl Default for Page {
    /// The first page, with no cursors.
    fn default() -> (p: Self)
        ensures
            p.from == 1 && p.first@ == seq!['-'] && p.last@ == seq!['-'],
    {
        let p = Page { from: 1, first: String::from_str("-"), last: String::from_str("-") };
        proof {
            reveal_strlit("-");
        }
        p
    }
}

/// Whether a visitor is signed in, and as whom.
pub struct SignStatus {
    pub sign_in: bool,
    pub username: String,
    pub token: String,
}

/// The signed-in state from the `username` and `token` cookies: a missing
/// cookie counts as `-`; the visitor is signed in when the username, trimmed,
/// is neither empty nor `-`.
pub fn sign_status(username_cookie: Option<String>, token_cookie: Option<String>) -> (s: SignStatus)
    ensures
        s.username@ == match username_cookie {
            Some(u) => u@,
            None => seq!['-'],
        },
        s.token@ == match token_cookie {
            Some(t) => t@,
            None => seq!['-'],
        },
        s.sign_in == !is_none_text(trim(s.username@)),
{
    proof {
        reveal_strlit("-");
    }
    let username = match username_cookie {
        Some(u) => u,
        None => String::from_str("-"),
    };
    let token = match token_cookie {
        Some(t) => t,
        None => String::from_str("-"),
    };
    let sign_in = crate::text::names_something(username.as_str());
    SignStatus { sign_in, username, token }
}

/// `prot://addr:port/uri/ver`.
pub open spec fn endpoint(prot: Seq<char>, addr: Seq<char>, port: Seq<char>, uri: Seq<char>, ver: Seq<char>) -> Seq<char> {
    prot + "://"@ + addr + ":"@ + port + "/"@ + uri + "/"@ + ver
}

/// The GraphQL endpoint from its configured protocol, address, port, path
/// and version.
pub fn gql_uri(prot: &str, addr: &str, port: &str, uri: &str, ver: &str) -> (r: String)
    ensures
        r@ == endpoint(prot@, addr@, port@, uri@, ver@),
{
    let a = concat_str(prot, "://");
    let b = concat_str(a.as_str(), addr);
    let c = concat_str(b.as_str(), ":");
    let d = concat_str(c.as_str(), port);
    let e = concat_str(d.as_str(), "/");
    let f = concat_str(e.as_str(), uri);
    let g = concat_str(f.as_str(), "/");
    concat_str(g.as_str(), ver)
}

/// Where the page scripts are served from.
pub fn scripts_dir() -> (r: String)
    ensures
        r@ == "../assets/scripts/"@,
{
    String::from_str("../assets/scripts/")
}

/// Where the page templates live.
pub fn tpls_dir() -> (r: String)
    ensures
        r@ == "./templates/"@,
{
    String::from_str("./templates/")
}

/// Where a visitor who must sign in is sent, in `language`.
pub fn sign_in_path(language: &str) -> (r: String)
    ensures
        r@ == "/"@ + language@ + "/sign-in"@,
{
    let a = concat_str("/", language);
    concat_str(a.as_str(), "/sign-in")
}

/// Where the administration pages send a visitor who is not signed in.
pub fn admin_sign_in_path() -> (r: String)
    ensures
        r@ == "/zh-cn/sign-in"@,
{
    String::from_str("/zh-cn/sign-in")
}

/// What an administration page does for a visitor.
pub enum AdminAccess {
    /// Shows the page to the signed-in user `username`.
    Show { username: String },
    /// Sends the visitor to sign in at `location`.
    SignIn { location: String },
}

/// Administration pages are shown only to a signed-in visitor, as that
/// user; anyone else is sent to sign in.
pub fn admin_access(sign: SignStatus) -> (r: AdminAccess)
    ensures
        sign.sign_in ==> (r matches AdminAccess::Show { username } && username@ == sign.username@),
        !sign.sign_in ==> (r matches AdminAccess::SignIn { location } && location@ == "/zh-cn/sign-in"@),
{
    if sign.sign_in {
        AdminAccess::Show { username: sign.username }
    } else {
        AdminAccess::SignIn { location: admin_sign_in_path() }
    }
}

/// The listing pages of the site.
pub enum ListingPage {
    /// All creations.
    Creations,
    /// All users.
    Users,
    /// The creations of one user.
    CreationsByUser,
    /// The creations of one topic.
    CreationsByTopic,
    /// The creations of a named filter.
    CreationsByFilter,
    /// The administration listing of creations.
    AdminCreations,
}

/// The least status a listing page asks for: none on the administration
/// listing, the filter's own on a filter listing, published (1) elsewhere.
pub open spec fn listing_status_of(page: ListingPage, filter_str: Seq<char>) -> i64 {
    match page {
        ListingPage::AdminCreations => 0,
        ListingPage::CreationsByFilter => filter_selection(filter_str).1,
        _ => 1,
    }
}

/// The status a listing page sends with its query; `filter_str` is read
/// only on a filter listing.
pub fn listing_status(page: ListingPage, filter_str: &str) -> (s: i64)
    ensures
        s == listing_status_of(page, filter_str@),
{
    match page {
        ListingPage::AdminCreations => 0,
        ListingPage::CreationsByFilter => creations_filter_selection(filter_str).1,
        _ => 1,
    }
}

/// The page of one creation, in `language`.
pub fn creation_path(language: &str, creation_id: &str) -> (r: String)
    ensures
        r@ == "/"@ + language@ + "/creation/"@ + creation_id@,
{
    let a = concat_str("/", language);
    let b = concat_str(a.as_str(), "/creation/");
    concat_str(b.as_str(), creation_id)
}

/// The administration page of one creation.
pub fn admin_creation_path(creation_id: &str) -> (r: String)
    ensures
        r@ == "/admin/creation/"@ + creation_id@,
{
    concat_str("/admin/creation/", creation_id)
}

/// What a listing by a named filter shows: the key of the tab to mark as
/// selected, if any, and the least status of the creations listed.
pub open spec fn filter_selection(filter_str: Seq<char>) -> (Option<Seq<char>>, i64) {
    if filter_str == "recommended"@ {
        (Some("creations-recommended-selected"@), 2)
    } else if filter_str == "open-source"@ {
        (Some("creations-open-source-selected"@), 1)
    } else if filter_str == "with-website"@ {
        (Some("creations-with-website-selected"@), 1)
    } else {
        (None, 1)
    }
}

/// Only the recommended listing asks for status 2; every other listing
/// (the administration one aside) asks for published creations, status 1.
/// A named filter's tab is marked exactly for the three known names.
pub proof fn lemma_listing_statuses(page: ListingPage, filter_str: Seq<char>)
    ensures
        filter_selection(filter_str).1 == (if filter_str == "recommended"@ { 2i64 } else { 1i64 }),
        filter_selection(filter_str).0 is Some <==> (filter_str == "recommended"@ || filter_str == "open-source"@
            || filter_str == "with-website"@),
        listing_status_of(page, filter_str) == (match page {
            ListingPage::AdminCreations => 0i64,
            ListingPage::CreationsByFilter => if filter_str == "recommended"@ { 2i64 } else { 1i64 },
            _ => 1i64,
        }),
{
}

/// The selected tab and listed status of a listing by a named filter.
pub fn creations_filter_selection(filter_str: &str) -> (r: (Option<&'static str>, i64))
    ensures
        r.1 == filter_selection(filter_str@).1,
        match r.0 {
            Some(k) => filter_selection(filter_str@).0 == Some(k@),
            None => filter_selection(filter_str@).0 is None,
        },
{
    if str_eq(filter_str, "recommended") {
        (Some("creations-recommended-selected"), 2)
    } else if str_eq(filter_str, "open-source") {
        (Some("creations-open-source-selected"), 1)
    } else if str_eq(filter_str, "with-website") {
        (Some("creations-with-website-selected"), 1)
    } else {
        (None, 1)
    }
}

/// The translation key that describes a listing by a named filter.
pub fn filter_desc_content(filter_str: &str) -> (r: String)
    ensures
        r@ == "creations-filter-"@ + filter_str@,
{
    concat_str("creations-filter-", filter_str)
}

/// How an author is shown: `nickname (username)`.
pub fn author_content(nickname: &str, username: &str) -> (r: String)
    ensures
        r@ == nickname@ + " ("@ + username@ + ")"@,
{
    let a = concat_str(nickname, " (");
    let b = concat_str(a.as_str(), username);
    concat_str(b.as_str(), ")")
}

/// The ids of the files to attach to a new creation: the cover image
/// followed by the comma-separated resource files, split at each comma.
pub fn creation_file_ids(cover_image_id: &str, res_file_ids: &str) -> (r: Vec<String>)
    ensures
        r@.len() == split_on(cover_image_id@ + ","@ + res_file_ids@, ',').len(),
        forall|i: int|
            0 <= i < r@.len() ==> (#[trigger] r@[i])@ == split_on(cover_image_id@ + ","@ + res_file_ids@, ',')[i],
{
    let a = concat_str(cover_image_id, ",");
    let all = concat_str(a.as_str(), res_file_ids);
    crate::text::split_str(all.as_str(), ',')
}

/// Where an uploaded file is stored: the upload time in microseconds
/// followed by the file's extension (from its last `.` on).
pub fn file_location(now_micros: u128, file_name: &str) -> (r: String)
    requires
        file_name@.contains('.'),
    ensures
        r@ == decimal_text(now_micros as int) + seq!['.'] + split_on(file_name@, '.').last(),
{
    let v = crate::text::to_chars(file_name);
    let pieces = crate::text::split_chars(&v, '.');
    proof {
        crate::text::lemma_split_shape(file_name@, '.');
        crate::text::lemma_count_positive(file_name@, '.');
    }
    let last = crate::text::from_chars(&pieces[pieces.len() - 1]);
    let stamp = crate::num::format_u128(now_micros);
    let with_dot = concat_str(stamp.as_str(), ".");
    proof {
        reveal_strlit(".");
    }
    concat_str(with_dot.as_str(), last.as_str())
}

/// The answer to an upload that could not be stored, in `language`.
pub fn upload_error(language: &str) -> (r: String)
    ensures
        r@ == (if language@ == "zh-cn"@ {
            "上传异常：请联系"@
        } else {
            "Upload exception: please contact"@
        }) + " "@ + "ask@rusthub.org"@,
{
    let err = if str_eq(language, "zh-cn") {
        "上传异常：请联系"
    } else {
        "Upload exception: please contact"
    };
    let a = concat_str(err, " ");
    concat_str(a.as_str(), "ask@rusthub.org")
}

} // verus!

verus! {

/// What percent-encoding gives for `percent_decode(input.as_bytes())`
/// followed by `decode_utf8()`: `None` where the decoded bytes are not
/// UTF-8.
pub uninterp spec fn percent_decoded(input: Seq<char>) -> Option<Seq<char>>;

/// Calls `percent_encoding::percent_decode` and `PercentDecode::decode_utf8`.
/// The result is named `percent_decoded`; nothing more is stated of it.
#[verifier::external_body]
fn percent_decode_utf8(input: &str) -> (r: Option<String>)
    ensures
        match r {
            Some(t) => percent_decoded(input@) == Some(t@),
            None => percent_decoded(input@) is None,
        },
{
    match percent_encoding::percent_decode(input.as_bytes()).decode_utf8() {
        Ok(text) => Some(text.into_owned()),
        Err(_) => None,
    }
}

/// The name of an uploaded file from its percent-encoded route parameter;
/// `None` where it does not decode to UTF-8.
pub fn decode_file_name(file_name_percent: &str) -> (r: Option<String>)
    ensures
        match r {
            Some(t) => percent_decoded(file_name_percent@) == Some(t@),
            None => percent_decoded(file_name_percent@) is None,
        },
{
    percent_decode_utf8(file_name_percent)
}

/// The record of an uploaded file named `file_name` (which has an
/// extension), of the kind given as text, stored at `now_micros`: the kind
/// read as an `i64` (its reading error otherwise) and the location from
/// `file_location`.
pub fn file_new(file_name: &str, file_kind: &str, now_micros: u128) -> (r: Result<crate::queries::FileNewData, crate::num::IntErrorKind>)
    requires
        file_name@.contains('.'),
    ensures
        match crate::num::parse_int_spec(file_kind@, i64::MIN as int, i64::MAX as int) {
            Ok(k) => r matches Ok(q) && q.name@ == file_name@ && q.kind == k && q.location@
                == decimal_text(now_micros as int) + seq!['.'] + split_on(file_name@, '.').last(),
            Err(e) => r == Err::<crate::queries::FileNewData, crate::num::IntErrorKind>(e),
        },
{
    match crate::num::parse_i64(file_kind) {
        Ok(kind) => {
            let location = file_location(now_micros, file_name);
            Ok(crate::queries::FileNewData::new(file_name, kind, location.as_str()))
        },
        Err(e) => Err(e),
    }
}

} // verus!

verus! {

/// A visitor without a username cookie is never signed in: the stand-in
/// `-` names nobody.
pub proof fn lemma_no_username_not_signed_in()
    ensures
        is_none_text(trim(seq!['-'])),
{
    assert(!crate::text::is_white_space('-'));
    assert(crate::text::trim_start(seq!['-']) == seq!['-']);
    assert(crate::text::trim_end(seq!['-']) == seq!['-']);
}

} // verus!

verus! {

/// The cover image is attached first, then each resource file in order:
/// when the cover id holds no comma, the attached ids are the cover id
/// followed by the pieces of the resource list.
pub proof fn lemma_cover_first(cover_image_id: Seq<char>, res_file_ids: Seq<char>)
    requires
        !cover_image_id.contains(','),
    ensures
        split_on(cover_image_id + ","@ + res_file_ids, ',') == seq![cover_image_id] + split_on(res_file_ids, ','),
{
    reveal_strlit(",");
    assert(cover_image_id + ","@ + res_file_ids == cover_image_id.push(',') + res_file_ids);
    crate::text::lemma_split_concat(cover_image_id, res_file_ids, ',');
    crate::text::lemma_split_single(cover_image_id, ',');
}

} // verus!
