//! Stored records and the inputs that create them. Object ids are `u128`
//! (see `ids`), times are milliseconds since the Unix epoch.

use vstd::prelude::*;
use crate::time::{formatted_time, DTF_YMD, DTF_YMDHMSZ, TZ_FO_8_SECS};

verus! {

/// A published creation (a project shown on the site).
pub struct Creation {
    pub _id: u128,
    pub user_id: u128,
    pub subject: String,
    pub slug: String,
    pub content: String,
    pub website: String,
    pub source_url: String,
    pub contact_user: String,
    pub contact_phone: String,
    pub contact_email: String,
    pub contact_im: String,
    pub created_at: i64,
    pub updated_at: i64,
    pub hits: u64,
    pub insides: u64,
    pub stars: u64,
    pub language: String,
    pub status: i8,
}

/// What a new creation is made from.
pub struct CreationNew {
    pub user_id: u128,
    pub subject: String,
    pub slug: String,
    pub content: String,
    pub website: String,
    pub source_url: String,
    pub contact_user: String,
    pub contact_phone: String,
    pub contact_email: String,
    pub contact_im: String,
    pub hits: u64,
    pub insides: u64,
    pub stars: u64,
    pub language: String,
    pub status: i8,
}

/// An uploaded file.
pub struct File {
    pub _id: u128,
    pub name: String,
    pub kind: i8,
    pub location: String,
    pub status: i8,
}

/// What a new file record is made from.
pub struct FileNew {
    pub name: String,
    pub kind: i8,
    pub location: String,
    pub status: i8,
}

/// A file attached to a creation.
pub struct CreationFile {
    pub _id: u128,
    pub user_id: u128,
    pub creation_id: u128,
    pub file_id: u128,
}

/// What a new creation-file link is made from.
pub struct CreationFileNew {
    pub user_id: u128,
    pub creation_id: u128,
    pub file_id: u128,
}

/// A topic (keyword); `quotes` counts how often it was used.
pub struct Topic {
    pub _id: u128,
    pub name: String,
    pub quotes: i64,
    pub slug: String,
}

/// What a new topic is made from.
pub struct TopicNew {
    pub name: String,
    pub quotes: i64,
    pub slug: String,
}

/// A topic followed by a user.
pub struct TopicUser {
    pub _id: u128,
    pub user_id: u128,
    pub topic_id: u128,
}

/// What a new topic-user link is made from.
pub struct TopicUserNew {
    pub user_id: u128,
    pub topic_id: u128,
}

/// A topic given to a creation by a user.
pub struct TopicCreation {
    pub _id: u128,
    pub user_id: u128,
    pub creation_id: u128,
    pub topic_id: u128,
}

/// What a new topic-creation link is made from.
pub struct TopicCreationNew {
    pub user_id: u128,
    pub creation_id: u128,
    pub topic_id: u128,
}

/// What pulldown-cmark renders from the Markdown `text` under the option
/// bits `options`.
pub uninterp spec fn markdown_html(text: Seq<char>, options: u32) -> Seq<char>;

/// Parses `text` with `pulldown_cmark::Parser::new_ext` under
/// `Options::from_bits_truncate(options)` and writes it with
/// `pulldown_cmark::html::push_html`. The result is named `markdown_html`;
/// nothing more is stated of it.
#[verifier::external_body]
fn markdown_to_html(text: &str, options: u32) -> (html: String)
    ensures
        html@ == markdown_html(text@, options),
{
    let parser = pulldown_cmark::Parser::new_ext(text, pulldown_cmark::Options::from_bits_truncate(options));
    let mut html = String::new();
    pulldown_cmark::html::push_html(&mut html, parser);
    html
}

/// pulldown-cmark's option bit for footnotes.
pub const MD_FOOTNOTES: u32 = 4;

/// pulldown-cmark's option bit for task lists.
pub const MD_TASKLISTS: u32 = 16;

/// pulldown-cmark's option bit for smart punctuation.
pub const MD_SMART_PUNCTUATION: u32 = 32;

/// pulldown-cmark's option bit for heading attributes.
pub const MD_HEADING_ATTRIBUTES: u32 = 64;

/// The Markdown extensions that creation pages are rendered with: heading
/// attributes, footnotes, task lists and smart punctuation.
pub open spec fn content_options() -> u32 {
    MD_HEADING_ATTRIBUTES | MD_FOOTNOTES | MD_TASKLISTS | MD_SMART_PUNCTUATION
}

/// Creation pages are rendered with footnotes, heading attributes, task
/// lists and smart punctuation on, and no other extension: the option bits
/// are 4 | 16 | 32 | 64.
pub proof fn lemma_content_options_bits()
    ensures
        content_options() == (64u32 | 4u32 | 16u32 | 32u32),
        content_options() == 116u32,
        content_options() & 4u32 == 4u32,
        content_options() & 16u32 == 16u32,
        content_options() & 32u32 == 32u32,
        content_options() & 64u32 == 64u32,
{
    assert((64u32 | 4u32 | 16u32 | 32u32) == 116u32) by (bit_vector);
    assert(116u32 & 4u32 == 4u32) by (bit_vector);
    assert(116u32 & 16u32 == 16u32) by (bit_vector);
    assert(116u32 & 32u32 == 32u32) by (bit_vector);
    assert(116u32 & 64u32 == 64u32) by (bit_vector);
}

impl Creation {
    /// The creation's Markdown content rendered as HTML.
    pub fn content_html(&self) -> (html: String)
        ensures
            html@ == markdown_html(self.content@, content_options()),
            html@ == markdown_html(self.content@, 64u32 | 4u32 | 16u32 | 32u32),
    {
        proof {
            lemma_content_options_bits();
        }
        let options = MD_HEADING_ATTRIBUTES | MD_FOOTNOTES | MD_TASKLISTS | MD_SMART_PUNCTUATION;
        markdown_to_html(self.content.as_str(), options)
    }

    pub fn created_at_ymd(&self) -> (r: String)
        ensures
            formatted_time(self.created_at, 0, DTF_YMD@) == Some(r@),
    {
        crate::time::bdt_to_ymd(self.created_at)
    }

    pub fn created_at_ymd8(&self) -> (r: String)
        ensures
            formatted_time(self.created_at, TZ_FO_8_SECS, DTF_YMD@) == Some(r@),
    {
        crate::time::bdt_to_ymd8(self.created_at)
    }

    pub fn updated_at_ymd(&self) -> (r: String)
        ensures
            formatted_time(self.updated_at, 0, DTF_YMD@) == Some(r@),
    {
        crate::time::bdt_to_ymd(self.updated_at)
    }

    pub fn updated_at_ymd8(&self) -> (r: String)
        ensures
            formatted_time(self.updated_at, TZ_FO_8_SECS, DTF_YMD@) == Some(r@),
    {
        crate::time::bdt_to_ymd8(self.updated_at)
    }

    pub fn created_at_ymdhmsz(&self) -> (r: String)
        ensures
            formatted_time(self.created_at, 0, DTF_YMDHMSZ@) == Some(r@),
    {
        crate::time::bdt_to_ymdhmsz(self.created_at)
    }

    pub fn created_at_ymdhmsz_8(&self) -> (r: String)
        ensures
            formatted_time(self.created_at, TZ_FO_8_SECS, DTF_YMDHMSZ@) == Some(r@),
    {
        crate::time::bdt_to_ymdhmsz_8(self.created_at)
    }

    pub fn updated_at_ymdhmsz(&self) -> (r: String)
        ensures
            formatted_time(self.updated_at, 0, DTF_YMDHMSZ@) == Some(r@),
    {
        crate::time::bdt_to_ymdhmsz(self.updated_at)
    }

    pub fn updated_at_ymdhmsz_8(&self) -> (r: String)
        ensures
            formatted_time(self.updated_at, TZ_FO_8_SECS, DTF_YMDHMSZ@) == Some(r@),
    {
        crate::time::bdt_to_ymdhmsz_8(self.updated_at)
    }
}

} // verus!
