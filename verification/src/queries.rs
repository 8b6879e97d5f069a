//! The GraphQL operations the web front end sends, each with its variables,
//! and the form a new creation is submitted with.

use vstd::prelude::*;
use crate::web::Page;

verus! {

/// The form fields of a new creation.
pub struct CreationInfo {
    pub user_id: String,
    pub subject: String,
    pub cover_image_id: String,
    pub topic_names: String,
    pub content: String,
    pub website: String,
    pub source_url: String,
    pub res_file_ids: String,
    pub contact_user: String,
    pub contact_phone: String,
    pub contact_email: String,
    pub contact_im: String,
    pub language: String,
}

/// A page of all creations with at least (or exactly) a status.
pub struct CreationsData {
    pub from_page: i64,
    pub first_oid: String,
    pub last_oid: String,
    pub status: i64,
}

impl CreationsData {
    pub fn new(page: Page, status: i64) -> (q: Self)
        ensures
            q.from_page == page.from && q.first_oid == page.first && q.last_oid == page.last
                && q.status == status,
    {
        CreationsData { from_page: page.from, first_oid: page.first, last_oid: page.last, status }
    }
}

/// A page of the creations of one user.
pub struct CreationsByUserData {
    pub username: String,
    pub from_page: i64,
    pub first_oid: String,
    pub last_oid: String,
    pub status: i64,
}

impl CreationsByUserData {
    pub fn new(username: &str, page: Page, status: i64) -> (q: Self)
        ensures
            q.username@ == username@ && q.from_page == page.from && q.first_oid == page.first
                && q.last_oid == page.last && q.status == status,
    {
        CreationsByUserData {
            username: String::from_str(username),
            from_page: page.from,
            first_oid: page.first,
            last_oid: page.last,
            status,
        }
    }
}

/// A page of the creations given a topic.
pub struct CreationsByTopicData {
    pub topic_slug: String,
    pub from_page: i64,
    pub first_oid: String,
    pub last_oid: String,
    pub status: i64,
}

impl CreationsByTopicData {
    pub fn new(topic_slug: &str, page: Page, status: i64) -> (q: Self)
        ensures
            q.topic_slug@ == topic_slug@ && q.from_page == page.from && q.first_oid == page.first
                && q.last_oid == page.last && q.status == status,
    {
        CreationsByTopicData {
            topic_slug: String::from_str(topic_slug),
            from_page: page.from,
            first_oid: page.first,
            last_oid: page.last,
            status,
        }
    }
}

/// A page of the creations of a named listing filter.
pub struct CreationsByFilterData {
    pub filter_str: String,
    pub from_page: i64,
    pub first_oid: String,
    pub last_oid: String,
    pub status: i64,
}

impl CreationsByFilterData {
    pub fn new(filter_str: &str, page: Page, status: i64) -> (q: Self)
        ensures
            q.filter_str@ == filter_str@ && q.from_page == page.from && q.first_oid == page.first
                && q.last_oid == page.last && q.status == status,
    {
        CreationsByFilterData {
            filter_str: String::from_str(filter_str),
            from_page: page.from,
            first_oid: page.first,
            last_oid: page.last,
            status,
        }
    }
}

/// Creates a creation.
pub struct CreationNewData {
    pub user_id: String,
    pub subject: String,
    pub content: String,
    pub website: String,
    pub source_url: String,
    pub contact_user: String,
    pub contact_phone: String,
    pub contact_email: String,
    pub contact_im: String,
    pub language: String,
}

impl CreationNewData {
    /// The variables taken from a submitted form (its cover, resource files
    /// and topics are attached afterwards).
    pub fn from_info(info: &CreationInfo) -> (q: Self)
        ensures
            q.user_id == info.user_id && q.subject == info.subject && q.content == info.content
                && q.website == info.website && q.source_url == info.source_url && q.contact_user
                == info.contact_user && q.contact_phone == info.contact_phone && q.contact_email
                == info.contact_email && q.contact_im == info.contact_im && q.language == info.language,
    {
        CreationNewData {
            user_id: info.user_id.clone(),
            subject: info.subject.clone(),
            content: info.content.clone(),
            website: info.website.clone(),
            source_url: info.source_url.clone(),
            contact_user: info.contact_user.clone(),
            contact_phone: info.contact_phone.clone(),
            contact_email: info.contact_email.clone(),
            contact_im: info.contact_im.clone(),
            language: info.language.clone(),
        }
    }
}

/// One creation by id.
pub struct CreationData {
    pub creation_id: String,
}

impl CreationData {
    pub fn new(creation_id: &str) -> (q: Self)
        ensures
            q.creation_id@ == creation_id@,
    {
        CreationData { creation_id: String::from_str(creation_id) }
    }
}

/// Updates one field of a creation.
pub struct CreationUpdateOneFieldByIdData {
    pub creation_id: String,
    pub field_name: String,
    pub field_val: String,
}

impl CreationUpdateOneFieldByIdData {
    pub fn new(creation_id: &str, field_name: &str, field_val: &str) -> (q: Self)
        ensures
            q.creation_id@ == creation_id@ && q.field_name@ == field_name@ && q.field_val@
                == field_val@,
    {
        CreationUpdateOneFieldByIdData {
            creation_id: String::from_str(creation_id),
            field_name: String::from_str(field_name),
            field_val: String::from_str(field_val),
        }
    }

    /// What viewing a creation's page does: its hits grow by 3.
    pub fn hits_bump(creation_id: &str) -> (q: Self)
        ensures
            q.creation_id@ == creation_id@ && q.field_name@ == "hits"@ && q.field_val@ == "3"@,
    {
        Self::new(creation_id, "hits", "3")
    }
}

/// The id of a random recently updated creation.
pub struct CreationRandomData;

/// Records an uploaded file.
pub struct FileNewData {
    pub name: String,
    pub kind: i64,
    pub location: String,
}

impl FileNewData {
    pub fn new(name: &str, kind: i64, location: &str) -> (q: Self)
        ensures
            q.name@ == name@ && q.kind == kind && q.location@ == location@,
    {
        FileNewData { name: String::from_str(name), kind, location: String::from_str(location) }
    }
}

/// Attaches a file to a creation.
pub struct CreationFileNewData {
    pub user_id: String,
    pub creation_id: String,
    pub file_id: String,
}

impl CreationFileNewData {
    pub fn new(user_id: &str, creation_id: &str, file_id: &str) -> (q: Self)
        ensures
            q.user_id@ == user_id@ && q.creation_id@ == creation_id@ && q.file_id@ == file_id@,
    {
        CreationFileNewData {
            user_id: String::from_str(user_id),
            creation_id: String::from_str(creation_id),
            file_id: String::from_str(file_id),
        }
    }
}

} // verus!

verus! {

/// One user by username.
pub struct UserByUsernameData {
    pub username: String,
}

impl UserByUsernameData {
    pub fn new(username: &str) -> (q: Self)
        ensures
            q.username@ == username@,
    {
        UserByUsernameData { username: String::from_str(username) }
    }
}

/// Updates one field of a user found by username.
pub struct UserUpdateOneFieldByUsernameData {
    pub username: String,
    pub field_name: String,
    pub field_val: String,
}

impl UserUpdateOneFieldByUsernameData {
    pub fn new(username: &str, field_name: &str, field_val: &str) -> (q: Self)
        ensures
            q.username@ == username@ && q.field_name@ == field_name@ && q.field_val@ == field_val@,
    {
        UserUpdateOneFieldByUsernameData {
            username: String::from_str(username),
            field_name: String::from_str(field_name),
            field_val: String::from_str(field_val),
        }
    }

    /// What viewing a user's page does: their hits grow by 1.
    pub fn hits_bump(username: &str) -> (q: Self)
        ensures
            q.username@ == username@ && q.field_name@ == "hits"@ && q.field_val@ == "1"@,
    {
        Self::new(username, "hits", "1")
    }

    /// What following an activation link does: the account is activated.
    pub fn activation(username: &str) -> (q: Self)
        ensures
            q.username@ == username@ && q.field_name@ == "activate"@ && q.field_val@ == "1"@,
    {
        Self::new(username, "activate", "1")
    }
}

/// What the activation page asks for: on a `POST` the user again, to resend
/// the activation mail; otherwise the activation itself.
pub enum UserActivateRequest {
    Resend(UserByUsernameData),
    Activate(UserUpdateOneFieldByUsernameData),
}

pub fn user_activate_request(is_post: bool, username: &str) -> (r: UserActivateRequest)
    ensures
        is_post ==> (r matches UserActivateRequest::Resend(q) && q.username@ == username@),
        !is_post ==> (r matches UserActivateRequest::Activate(q) && q.username@ == username@
            && q.field_name@ == "activate"@ && q.field_val@ == "1"@),
{
    if is_post {
        UserActivateRequest::Resend(UserByUsernameData::new(username))
    } else {
        UserActivateRequest::Activate(UserUpdateOneFieldByUsernameData::activation(username))
    }
}

} // verus!

verus! {

/// One request that a detail page sends, in the order it sends them.
pub enum DetailRequest {
    BumpCreationHits(CreationUpdateOneFieldByIdData),
    FetchCreation(CreationData),
    BumpUserHits(UserUpdateOneFieldByUsernameData),
    FetchUser(UserByUsernameData),
}

/// What the page of a creation (public or administration) asks for: first
/// its hits grow by 3, then the creation is fetched, so the page shows the
/// count that includes this visit.
pub fn creation_detail_requests(creation_id: &str) -> (r: Vec<DetailRequest>)
    ensures
        r@.len() == 2,
        r@[0] matches DetailRequest::BumpCreationHits(q) && q.creation_id@ == creation_id@
            && q.field_name@ == "hits"@ && q.field_val@ == "3"@,
        r@[1] matches DetailRequest::FetchCreation(q) && q.creation_id@ == creation_id@,
{
    let mut r: Vec<DetailRequest> = Vec::new();
    r.push(DetailRequest::BumpCreationHits(CreationUpdateOneFieldByIdData::hits_bump(creation_id)));
    r.push(DetailRequest::FetchCreation(CreationData::new(creation_id)));
    r
}

/// What the page of a user asks for: first their hits grow by 1, then the
/// user is fetched.
pub fn user_detail_requests(username: &str) -> (r: Vec<DetailRequest>)
    ensures
        r@.len() == 2,
        r@[0] matches DetailRequest::BumpUserHits(q) && q.username@ == username@
            && q.field_name@ == "hits"@ && q.field_val@ == "1"@,
        r@[1] matches DetailRequest::FetchUser(q) && q.username@ == username@,
{
    let mut r: Vec<DetailRequest> = Vec::new();
    r.push(DetailRequest::BumpUserHits(UserUpdateOneFieldByUsernameData::hits_bump(username)));
    r.push(DetailRequest::FetchUser(UserByUsernameData::new(username)));
    r
}

} // verus!
