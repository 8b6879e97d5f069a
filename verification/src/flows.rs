//! The request flows of the web front end as steps: from a state and what
//! the last request answered, the next state and the next thing to do. The
//! caller performs each action and hands back its answer.

use vstd::prelude::*;
use crate::lang::texts;
use crate::queries::{CreationInfo, CreationNewData, CreationFileNewData};
use crate::text::split_on;

verus! {

/// A link to make once a creation exists.
pub enum LinkRequest {
    /// Give the creation a topic.
    Topic { user_id: String, creation_id: String, topic_id: String },
    /// Attach a file to the creation.
    File(CreationFileNewData),
}

/// The value of a `LinkRequest`: whether it is a topic link, and the user,
/// creation and topic or file ids.
pub struct LinkSpec {
    pub topic: bool,
    pub user_id: Seq<char>,
    pub creation_id: Seq<char>,
    pub target_id: Seq<char>,
}

impl View for LinkRequest {
    type V = LinkSpec;

    open spec fn view(&self) -> LinkSpec {
        match self {
            LinkRequest::Topic { user_id, creation_id, topic_id } => LinkSpec {
                topic: true,
                user_id: user_id@,
                creation_id: creation_id@,
                target_id: topic_id@,
            },
            LinkRequest::File(q) => LinkSpec {
                topic: false,
                user_id: q.user_id@,
                creation_id: q.creation_id@,
                target_id: q.file_id@,
            },
        }
    }
}

pub open spec fn link_views(v: Seq<LinkRequest>) -> Seq<LinkSpec> {
    v.map_values(|l: LinkRequest| l@)
}

/// The links a new creation gets: each topic, in order, then each file.
pub open spec fn link_plan(user_id: Seq<char>, creation_id: Seq<char>, topic_ids: Seq<Seq<char>>, file_ids: Seq<Seq<char>>) -> Seq<LinkSpec> {
    topic_ids.map_values(|t: Seq<char>| LinkSpec { topic: true, user_id, creation_id, target_id: t })
        + file_ids.map_values(|f: Seq<char>| LinkSpec { topic: false, user_id, creation_id, target_id: f })
}

/// Where the page that creates a creation stands.
pub enum CreationNewState {
    /// Nothing asked yet.
    Start,
    /// The creation was asked for.
    Creating { user_id: String, subject: String, topic_names: String, file_ids: Vec<String> },
    /// The creation exists; its topics were asked for.
    CreatingTopics { user_id: String, creation_id: String, file_ids: Vec<String> },
    /// Links are being made; these are still to come.
    Linking { queue: Vec<LinkRequest> },
    /// The page is answered.
    Finished,
}

/// What came back.
pub enum CreationNewEvent {
    /// The page was requested.
    Request { signed_in: bool, is_post: bool, language: String, info: CreationInfo },
    /// The creation was made under this id.
    CreationCreated { creation_id: String },
    /// The creation was refused with this first error message.
    CreationRefused { message: String },
    /// The topics were made (or found) under these ids.
    TopicsCreated { topic_ids: Vec<String> },
    /// The topic request gave no data.
    TopicsNotCreated,
    /// A link request was answered.
    Linked,
}

/// What to do next.
pub enum CreationNewAction {
    /// Send the visitor to this path.
    Redirect(String),
    /// Render the empty form.
    RenderForm,
    /// Ask for the creation.
    SendCreationNew(CreationNewData),
    /// Ask for the topics of this comma-separated list.
    SendTopicsNew(String),
    /// Ask for this link.
    SendLink(LinkRequest),
    /// Render the page with the created creation.
    RenderCreated,
    /// Render the page with the refusal.
    RenderFailed { subject: String, message: String },
    /// The answer does not belong to the state; nothing to do.
    Ignore,
}

/// The state after the creation's topics are known, and what to send.
pub open spec fn after_topics(r: (CreationNewState, CreationNewAction), plan: Seq<LinkSpec>) -> bool {
    if plan.len() == 0 {
        r.0 is Finished && r.1 is RenderCreated
    } else {
        &&& r.0 matches CreationNewState::Linking { queue } && link_views(queue@) == plan.drop_first()
        &&& r.1 matches CreationNewAction::SendLink(l) && l@ == plan[0]
    }
}

fn start_links(user_id: String, creation_id: String, topic_ids: Vec<String>, file_ids: Vec<String>) -> (r: (CreationNewState, CreationNewAction))
    ensures
        after_topics(r, link_plan(user_id@, creation_id@, texts(topic_ids@), texts(file_ids@))),
{
    let ghost plan = link_plan(user_id@, creation_id@, texts(topic_ids@), texts(file_ids@));
    let mut links: Vec<LinkRequest> = Vec::new();
    let mut i: usize = 0;
    while i < topic_ids.len()
        invariant
            i <= topic_ids.len(),
            links@.len() == i,
            forall|k: int| 0 <= k < i ==> (#[trigger] links@[k])@ == plan[k],
            plan == link_plan(user_id@, creation_id@, texts(topic_ids@), texts(file_ids@)),
        decreases topic_ids.len() - i,
    {
        links.push(LinkRequest::Topic { user_id: user_id.clone(), creation_id: creation_id.clone(), topic_id: topic_ids[i].clone() });
        i = i + 1;
    }
    let mut j: usize = 0;
    while j < file_ids.len()
        invariant
            j <= file_ids.len(),
            links@.len() == topic_ids@.len() + j,
            forall|k: int| 0 <= k < links@.len() ==> (#[trigger] links@[k])@ == plan[k],
            plan == link_plan(user_id@, creation_id@, texts(topic_ids@), texts(file_ids@)),
        decreases file_ids.len() - j,
    {
        links.push(LinkRequest::File(CreationFileNewData::new(user_id.as_str(), creation_id.as_str(), file_ids[j].as_str())));
        j = j + 1;
    }
    assert(link_views(links@) =~= plan);
    if links.len() == 0 {
        (CreationNewState::Finished, CreationNewAction::RenderCreated)
    } else {
        let first = links.remove(0);
        assert(link_views(links@) =~= plan.drop_first());
        (CreationNewState::Linking { queue: links }, CreationNewAction::SendLink(first))
    }
}

/// One step of the page that creates a creation:
/// - a visitor who is not signed in is sent to the sign-in page of the
///   language; a signed-in `GET` renders the form; a signed-in `POST` asks
///   for the creation from the submitted form;
/// - a made creation is followed by its topics; a refused one renders the
///   refusal with the subject;
/// - once the topics are known (or gave no data), each topic is linked in
///   order, then each file id of the cover and resource list;
/// - after the last link the page renders the creation.
pub fn creation_new_step(state: CreationNewState, event: CreationNewEvent) -> (r: (CreationNewState, CreationNewAction))
    ensures
        match (state, event) {
            (CreationNewState::Start, CreationNewEvent::Request { signed_in, is_post, language, info }) => {
                if !signed_in {
                    &&& r.0 is Finished
                    &&& r.1 matches CreationNewAction::Redirect(p) && p@ == "/"@ + language@ + "/sign-in"@
                } else if !is_post {
                    r.0 is Finished && r.1 is RenderForm
                } else {
                    &&& r.0 matches CreationNewState::Creating { user_id, subject, topic_names, file_ids }
                        && user_id == info.user_id && subject == info.subject && topic_names == info.topic_names
                        && texts(file_ids@) == split_on(info.cover_image_id@ + ","@ + info.res_file_ids@, ',')
                    &&& r.1 matches CreationNewAction::SendCreationNew(q) && q.user_id == info.user_id
                        && q.subject == info.subject && q.content == info.content && q.website == info.website
                        && q.source_url == info.source_url && q.contact_user == info.contact_user
                        && q.contact_phone == info.contact_phone && q.contact_email == info.contact_email
                        && q.contact_im == info.contact_im && q.language == info.language
                }
            },
            (CreationNewState::Creating { user_id, subject, topic_names, file_ids }, CreationNewEvent::CreationCreated { creation_id }) => {
                &&& r.0 matches CreationNewState::CreatingTopics { user_id: u, creation_id: c, file_ids: f }
                    && u == user_id && c == creation_id && f == file_ids
                &&& r.1 matches CreationNewAction::SendTopicsNew(n) && n == topic_names
            },
            (CreationNewState::Creating { subject, .. }, CreationNewEvent::CreationRefused { message }) => {
                &&& r.0 is Finished
                &&& r.1 matches CreationNewAction::RenderFailed { subject: s, message: m } && s == subject && m == message
            },
            (CreationNewState::CreatingTopics { user_id, creation_id, file_ids }, CreationNewEvent::TopicsCreated { topic_ids }) =>
                after_topics(r, link_plan(user_id@, creation_id@, texts(topic_ids@), texts(file_ids@))),
            (CreationNewState::CreatingTopics { user_id, creation_id, file_ids }, CreationNewEvent::TopicsNotCreated) =>
                after_topics(r, link_plan(user_id@, creation_id@, Seq::empty(), texts(file_ids@))),
            (CreationNewState::Linking { queue }, CreationNewEvent::Linked) => {
                if queue@.len() == 0 {
                    r.0 is Finished && r.1 is RenderCreated
                } else {
                    &&& r.0 matches CreationNewState::Linking { queue: q } && q@ == queue@.drop_first()
                    &&& r.1 matches CreationNewAction::SendLink(l) && l == queue@[0]
                }
            },
            (s, _) => r.0 == s && r.1 is Ignore,
        },
{
    match (state, event) {
        (CreationNewState::Start, CreationNewEvent::Request { signed_in, is_post, language, info }) => {
            if !signed_in {
                (CreationNewState::Finished, CreationNewAction::Redirect(crate::web::sign_in_path(language.as_str())))
            } else if !is_post {
                (CreationNewState::Finished, CreationNewAction::RenderForm)
            } else {
                let query = CreationNewData::from_info(&info);
                let file_ids = crate::web::creation_file_ids(info.cover_image_id.as_str(), info.res_file_ids.as_str());
                assert(texts(file_ids@) =~= split_on(info.cover_image_id@ + ","@ + info.res_file_ids@, ','));
                let CreationInfo { user_id, subject, topic_names, .. } = info;
                (
                    CreationNewState::Creating { user_id, subject, topic_names, file_ids },
                    CreationNewAction::SendCreationNew(query),
                )
            }
        },
        (CreationNewState::Creating { user_id, subject: _, topic_names, file_ids }, CreationNewEvent::CreationCreated { creation_id }) => {
            (CreationNewState::CreatingTopics { user_id, creation_id, file_ids }, CreationNewAction::SendTopicsNew(topic_names))
        },
        (CreationNewState::Creating { subject, .. }, CreationNewEvent::CreationRefused { message }) => {
            (CreationNewState::Finished, CreationNewAction::RenderFailed { subject, message })
        },
        (CreationNewState::CreatingTopics { user_id, creation_id, file_ids }, CreationNewEvent::TopicsCreated { topic_ids }) => {
            start_links(user_id, creation_id, topic_ids, file_ids)
        },
        (CreationNewState::CreatingTopics { user_id, creation_id, file_ids }, CreationNewEvent::TopicsNotCreated) => {
            let none: Vec<String> = Vec::new();
            assert(texts(none@) =~= Seq::<Seq<char>>::empty());
            start_links(user_id, creation_id, none, file_ids)
        },
        (CreationNewState::Linking { mut queue }, CreationNewEvent::Linked) => {
            if queue.len() == 0 {
                (CreationNewState::Finished, CreationNewAction::RenderCreated)
            } else {
                let first = queue.remove(0);
                (CreationNewState::Linking { queue }, CreationNewAction::SendLink(first))
            }
        },
        (s, _) => (s, CreationNewAction::Ignore),
    }
}

} // verus!
