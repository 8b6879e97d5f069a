//! The rules of the topic service: names, slugs, counts and ordering.

use vstd::prelude::*;
use crate::model::{Topic, TopicNew, TopicUser, TopicCreation};
use crate::filter::{Filter, Cond, CondSpec, set_cond, lemma_set_new_key};
use crate::text::{trim, lowercase, split_on};

verus! {

/// The topics of `s` whose count is `q`, in their order in `s`.
pub open spec fn with_quotes(s: Seq<Topic>, q: i64) -> Seq<Topic>
    decreases s.len(),
{
    if s.len() == 0 {
        Seq::<Topic>::empty()
    } else if s.last().quotes == q {
        with_quotes(s.drop_last(), q).push(s.last())
    } else {
        with_quotes(s.drop_last(), q)
    }
}

/// Most quoted first.
pub open spec fn by_quotes_desc(s: Seq<Topic>) -> bool {
    forall|i: int, j: int| 0 <= i < j < s.len() ==> (#[trigger] s[i]).quotes >= (#[trigger] s[j]).quotes
}

proof fn lemma_with_quotes_add(a: Seq<Topic>, b: Seq<Topic>, q: i64)
    ensures
        with_quotes(a + b, q) == with_quotes(a, q) + with_quotes(b, q),
    decreases b.len(),
{
    if b.len() == 0 {
        assert(a + b == a);
        assert(with_quotes(a, q) + Seq::<Topic>::empty() == with_quotes(a, q));
    } else {
        lemma_with_quotes_add(a, b.drop_last(), q);
        assert((a + b).drop_last() == a + b.drop_last());
        assert((a + b).last() == b.last());
        if b.last().quotes == q {
            assert(with_quotes(a, q) + with_quotes(b.drop_last(), q).push(b.last()) == (with_quotes(
                a,
                q,
            ) + with_quotes(b.drop_last(), q)).push(b.last()));
        }
    }
}

proof fn lemma_with_quotes_none(b: Seq<Topic>, q: i64)
    requires
        forall|i: int| 0 <= i < b.len() ==> (#[trigger] b[i]).quotes != q,
    ensures
        with_quotes(b, q) == Seq::<Topic>::empty(),
    decreases b.len(),
{
    if b.len() > 0 {
        let t = b.drop_last();
        assert forall|i: int| 0 <= i < t.len() implies (#[trigger] t[i]).quotes != q by {
            assert(t[i] == b[i]);
        }
        lemma_with_quotes_none(t, q);
        assert(b[b.len() - 1].quotes != q);
    }
}

proof fn lemma_insert_step(d: Seq<Topic>, p: int, x: Topic, prefix: Seq<Topic>)
    requires
        0 <= p <= d.len(),
        by_quotes_desc(d),
        forall|i: int| 0 <= i < p ==> (#[trigger] d[i]).quotes >= x.quotes,
        p < d.len() ==> d[p].quotes < x.quotes,
        forall|q: i64| #[trigger] with_quotes(d, q) == with_quotes(prefix, q),
    ensures
        by_quotes_desc(d.insert(p, x)),
        forall|q: i64| #[trigger] with_quotes(d.insert(p, x), q) == with_quotes(prefix.push(x), q),
{
    d.insert_ensures(p, x);
    let nd = d.insert(p, x);
    assert forall|i: int| p <= i < d.len() implies (#[trigger] d[i]).quotes < x.quotes by {
        if i > p {
            assert(d[p].quotes >= d[i].quotes);
        }
    }
    assert forall|i: int, j: int| 0 <= i < j < nd.len() implies (#[trigger] nd[i]).quotes >= (#[trigger] nd[j]).quotes by {
        if j < p {
            assert(nd[i] == d[i] && nd[j] == d[j]);
        } else if i < p && j == p {
            assert(nd[i] == d[i]);
        } else if i < p {
            assert(nd[i] == d[i] && nd[j] == d[j - 1]);
        } else if i == p {
            assert(nd[j] == d[j - 1]);
        } else {
            assert(nd[i] == d[i - 1] && nd[j] == d[j - 1]);
        }
    }
    let front = d.subrange(0, p);
    let back = d.subrange(p, d.len() as int);
    assert(d == front + back);
    assert(nd == front.push(x) + back);
    assert forall|q: i64| #[trigger] with_quotes(nd, q) == with_quotes(prefix.push(x), q) by {
        lemma_with_quotes_add(front.push(x), back, q);
        lemma_with_quotes_add(front, back, q);
        assert(front.push(x).drop_last() == front);
        assert(prefix.push(x).drop_last() == prefix);
        if x.quotes == q {
            assert forall|i: int| 0 <= i < back.len() implies (#[trigger] back[i]).quotes != q by {
                assert(back[i] == d[p + i]);
            }
            lemma_with_quotes_none(back, q);
            assert(with_quotes(front, q) + Seq::<Topic>::empty() == with_quotes(front, q));
            assert(with_quotes(front, q).push(x) + Seq::<Topic>::empty() == with_quotes(front, q).push(x));
        }
    }
}

/// Sorts topics by `quotes`, most quoted first; topics with equal counts keep
/// their order (a stable sort, as `sort_by(|a, b| b.quotes.cmp(&a.quotes))`).
pub fn sort_by_quotes_desc(topics: &mut Vec<Topic>)
    ensures
        by_quotes_desc(final(topics)@),
        final(topics)@.len() == old(topics)@.len(),
        forall|q: i64| #[trigger] with_quotes(final(topics)@, q) == with_quotes(old(topics)@, q),
{
    let mut input: Vec<Topic> = Vec::new();
    std::mem::swap(&mut input, topics);
    let ghost orig = input@;
    let mut done: Vec<Topic> = Vec::new();
    let mut k: usize = 0;
    assert(orig.skip(0) == orig);
    while input.len() > 0
        invariant
            k <= orig.len(),
            input@ == orig.skip(k as int),
            done@.len() == k,
            by_quotes_desc(done@),
            forall|q: i64| #[trigger] with_quotes(done@, q) == with_quotes(orig.take(k as int), q),
        decreases input.len(),
    {
        assert(input@.len() == orig.len() - k);
        assert(k < orig.len());
        let x = input.remove(0);
        assert(x == orig[k as int]);
        assert(input@ == orig.skip(k + 1));
        let mut p: usize = 0;
        while p < done.len() && done[p].quotes >= x.quotes
            invariant
                p <= done.len(),
                forall|i: int| 0 <= i < p ==> (#[trigger] done@[i]).quotes >= x.quotes,
            decreases done.len() - p,
        {
            p = p + 1;
        }
        let ghost old_d = done@;
        proof {
            if p < old_d.len() {
                assert(old_d[p as int].quotes < x.quotes);
            }
        }
        done.insert(p, x);
        proof {
            lemma_insert_step(old_d, p as int, x, orig.take(k as int));
            assert(orig.take(k + 1) == orig.take(k as int).push(x));
        }
        k = done.len();
    }
    assert(orig.take(k as int) == orig);
    *topics = done;
}

} // verus!

verus! {

/// Normalises a new topic's name (trimmed, then lowercased) and tells
/// whether it is acceptable: neither empty nor `-`.
pub fn topic_name_check(topic_new: &mut TopicNew) -> (ok: bool)
    ensures
        final(topic_new).name@ == lowercase(trim(old(topic_new).name@)),
        final(topic_new).quotes == old(topic_new).quotes,
        final(topic_new).slug == old(topic_new).slug,
        ok == !crate::text::is_none_text(final(topic_new).name@),
{
    let trimmed = crate::text::trim_str(topic_new.name.as_str());
    let lower = crate::text::to_lowercase(trimmed.as_str());
    topic_new.name = lower;
    let v = crate::text::to_chars(topic_new.name.as_str());
    !crate::text::is_none_chars(&v)
}

/// The error text when a topic name is refused.
pub fn invalid_name_message() -> (m: String)
    ensures
        m@ == "名称不合法"@,
{
    String::from_str("名称不合法")
}

/// The new topics named in a comma-separated list: one per piece, trimmed,
/// each used once and without a slug yet.
pub fn topic_inits(topic_names: &str) -> (r: Vec<TopicNew>)
    ensures
        r@.len() == split_on(topic_names@, ',').len(),
        forall|i: int|
            0 <= i < r@.len() ==> (#[trigger] r@[i]).name@ == trim(split_on(topic_names@, ',')[i])
                && r@[i].quotes == 1 && r@[i].slug@ == Seq::<char>::empty(),
{
    let names = crate::text::split_str(topic_names, ',');
    let mut r: Vec<TopicNew> = Vec::new();
    let mut i: usize = 0;
    while i < names.len()
        invariant
            i <= names.len(),
            names@.len() == split_on(topic_names@, ',').len(),
            forall|k: int| 0 <= k < names@.len() ==> (#[trigger] names@[k])@ == split_on(topic_names@, ',')[k],
            r@.len() == i,
            forall|k: int|
                0 <= k < i ==> (#[trigger] r@[k]).name@ == trim(split_on(topic_names@, ',')[k])
                    && r@[k].quotes == 1 && r@[k].slug@ == Seq::<char>::empty(),
        decreases names.len() - i,
    {
        let name = crate::text::trim_str(names[i].as_str());
        r.push(TopicNew { name, quotes: 1, slug: String::new() });
        i = i + 1;
    }
    r
}

/// The topic ids of topic-creation links, in order.
pub fn topic_ids_of_creations(links: &Vec<TopicCreation>) -> (ids: Vec<u128>)
    ensures
        ids@.len() == links@.len(),
        forall|i: int| 0 <= i < ids@.len() ==> ids@[i] == (#[trigger] links@[i]).topic_id,
{
    let mut ids: Vec<u128> = Vec::new();
    let mut i: usize = 0;
    while i < links.len()
        invariant
            i <= links.len(),
            ids@.len() == i,
            forall|k: int| 0 <= k < i ==> ids@[k] == (#[trigger] links@[k]).topic_id,
        decreases links.len() - i,
    {
        ids.push(links[i].topic_id);
        i = i + 1;
    }
    ids
}

/// The topic ids of topic-user links, in order.
pub fn topic_ids_of_users(links: &Vec<TopicUser>) -> (ids: Vec<u128>)
    ensures
        ids@.len() == links@.len(),
        forall|i: int| 0 <= i < ids@.len() ==> ids@[i] == (#[trigger] links@[i]).topic_id,
{
    let mut ids: Vec<u128> = Vec::new();
    let mut i: usize = 0;
    while i < links.len()
        invariant
            i <= links.len(),
            ids@.len() == i,
            forall|k: int| 0 <= k < i ==> ids@[k] == (#[trigger] links@[k]).topic_id,
        decreases links.len() - i,
    {
        ids.push(links[i].topic_id);
        i = i + 1;
    }
    ids
}

/// The filter that finds the link of user `user_id` to topic `topic_id`
/// that belongs to no creation, where one was already made.
pub fn topic_user_filter(topic_id: u128, user_id: u128) -> (f: Filter)
    ensures
        f.wf(),
        f@ == set_cond(
            set_cond(seq![("topic_id"@, CondSpec::EqId(topic_id))], "user_id"@, CondSpec::EqId(user_id)),
            "creation_id"@,
            CondSpec::Exists(false),
        ),
{
    let mut f = Filter::new();
    f.insert("topic_id", Cond::EqId(topic_id));
    f.insert("user_id", Cond::EqId(user_id));
    f.insert("creation_id", Cond::Exists(false));
    f
}

/// The filter that finds the link of topic `topic_id` to creation
/// `creation_id` made by user `user_id`, where one was already made.
pub fn topic_creation_filter(topic_id: u128, user_id: u128, creation_id: u128) -> (f: Filter)
    ensures
        f.wf(),
        f@ == set_cond(
            set_cond(seq![("topic_id"@, CondSpec::EqId(topic_id))], "user_id"@, CondSpec::EqId(user_id)),
            "creation_id"@,
            CondSpec::EqId(creation_id),
        ),
{
    let mut f = Filter::new();
    f.insert("topic_id", Cond::EqId(topic_id));
    f.insert("user_id", Cond::EqId(user_id));
    f.insert("creation_id", Cond::EqId(creation_id));
    f
}

/// The filter on topic links of user `user_id`; unless `contain_creation`,
/// only links that belong to no creation (the user's own keywords).
pub fn topics_users_filter(user_id: u128, contain_creation: bool) -> (f: Filter)
    ensures
        f.wf(),
        f@ == if contain_creation {
            seq![("user_id"@, CondSpec::EqId(user_id))]
        } else {
            seq![("user_id"@, CondSpec::EqId(user_id)), ("creation_id"@, CondSpec::Exists(false))]
        },
{
    let mut f = Filter::new();
    proof {
        reveal_strlit("user_id");
        reveal_strlit("creation_id");
        lemma_set_new_key(f@, "user_id"@, CondSpec::EqId(user_id));
    }
    f.insert("user_id", Cond::EqId(user_id));
    if !contain_creation {
        proof {
            reveal_strlit("user_id");
            reveal_strlit("creation_id");
            assert(f@[0].0 == "user_id"@);
            assert("user_id"@.len() != "creation_id"@.len());
            lemma_set_new_key(f@, "creation_id"@, CondSpec::Exists(false));
        }
        f.insert("creation_id", Cond::Exists(false));
    }
    f
}

/// How many times `id` occurs in `s`.
pub open spec fn count_id(s: Seq<u128>, id: u128) -> nat
    decreases s.len(),
{
    if s.len() == 0 {
        0
    } else {
        count_id(s.drop_last(), id) + if s.last() == id {
            1nat
        } else {
            0nat
        }
    }
}

proof fn lemma_count_id_bound(s: Seq<u128>, id: u128)
    ensures
        count_id(s, id) <= s.len(),
    decreases s.len(),
{
    if s.len() > 0 {
        lemma_count_id_bound(s.drop_last(), id);
    }
}

/// Counting is additive, one per position: nothing in the empty sequence,
/// and one more entry adds one exactly when it is `id`; over a
/// concatenation the counts add up, and a sequence of `n` copies of `id`
/// counts `n`.
pub proof fn lemma_count_id_laws(s: Seq<u128>, t: Seq<u128>, x: u128, id: u128)
    ensures
        count_id(Seq::<u128>::empty(), id) == 0,
        count_id(s.push(x), id) == count_id(s, id) + (if x == id { 1int } else { 0int }),
        count_id(s + t, id) == count_id(s, id) + count_id(t, id),
        (forall|i: int| 0 <= i < s.len() ==> s[i] == id) ==> count_id(s, id) == s.len(),
        (forall|i: int| 0 <= i < s.len() ==> s[i] != id) ==> count_id(s, id) == 0,
{
    assert(s.push(x).drop_last() =~= s);
    lemma_count_id_concat(s, t, id);
    lemma_count_id_uniform(s, id);
}

proof fn lemma_count_id_concat(s: Seq<u128>, t: Seq<u128>, id: u128)
    ensures
        count_id(s + t, id) == count_id(s, id) + count_id(t, id),
    decreases t.len(),
{
    if t.len() == 0 {
        assert(s + t =~= s);
    } else {
        lemma_count_id_concat(s, t.drop_last(), id);
        assert((s + t).drop_last() =~= s + t.drop_last());
    }
}

proof fn lemma_count_id_uniform(s: Seq<u128>, id: u128)
    ensures
        (forall|i: int| 0 <= i < s.len() ==> s[i] == id) ==> count_id(s, id) == s.len(),
        (forall|i: int| 0 <= i < s.len() ==> s[i] != id) ==> count_id(s, id) == 0,
    decreases s.len(),
{
    if s.len() > 0 {
        let t = s.drop_last();
        lemma_count_id_uniform(t, id);
        if forall|i: int| 0 <= i < s.len() ==> s[i] == id {
            assert forall|i: int| 0 <= i < t.len() implies t[i] == id by {
                assert(t[i] == s[i]);
            }
            assert(s[s.len() - 1] == id);
        }
        if forall|i: int| 0 <= i < s.len() ==> s[i] != id {
            assert forall|i: int| 0 <= i < t.len() implies t[i] != id by {
                assert(t[i] == s[i]);
            }
            assert(s[s.len() - 1] != id);
        }
    }
}

/// Counts the occurrences of `id` in `ids`.
pub fn count_occurrences(ids: &Vec<u128>, id: u128) -> (n: usize)
    ensures
        n == count_id(ids@, id),
{
    let mut n: usize = 0;
    let mut i: usize = 0;
    while i < ids.len()
        invariant
            i <= ids.len(),
            n == count_id(ids@.take(i as int), id),
        decreases ids.len() - i,
    {
        assert(ids@.take(i + 1).drop_last() == ids@.take(i as int));
        proof {
            lemma_count_id_bound(ids@.take(i as int), id);
        }
        if ids[i] == id {
            n = n + 1;
        }
        i = i + 1;
    }
    assert(ids@.take(ids.len() as int) == ids@);
    n
}

/// The topics of a user, each counted by how many of the user's links
/// (`linked_ids`, one entry per link) point at it, most used first; equal
/// counts keep their order.
pub fn user_topics(topics: Vec<Topic>, linked_ids: &Vec<u128>) -> (r: Vec<Topic>)
    requires
        linked_ids@.len() <= i64::MAX,
    ensures
        r@.len() == topics@.len(),
        by_quotes_desc(r@),
        forall|q: i64| #[trigger] with_quotes(r@, q) == with_quotes(counted(topics@, linked_ids@), q),
{
    let mut counted_topics = count_quotes(topics, linked_ids);
    sort_by_quotes_desc(&mut counted_topics);
    counted_topics
}

/// Each topic with its count set to the number of times its id occurs in
/// `linked_ids`.
pub open spec fn counted(topics: Seq<Topic>, linked_ids: Seq<u128>) -> Seq<Topic> {
    topics.map_values(
        |t: Topic| Topic { _id: t._id, name: t.name, quotes: count_id(linked_ids, t._id) as i64, slug: t.slug },
    )
}

/// Sets each topic's count to the number of times its id occurs in
/// `linked_ids`.
pub fn count_quotes(topics: Vec<Topic>, linked_ids: &Vec<u128>) -> (r: Vec<Topic>)
    requires
        linked_ids@.len() <= i64::MAX,
    ensures
        r@ == counted(topics@, linked_ids@),
{
    let mut input = topics;
    let ghost orig = input@;
    let mut out: Vec<Topic> = Vec::new();
    assert(orig.skip(0) == orig);
    while input.len() > 0
        invariant
            linked_ids@.len() <= i64::MAX,
            out@.len() <= orig.len(),
            input@ == orig.skip(out@.len() as int),
            out@ == counted(orig.take(out@.len() as int), linked_ids@),
        decreases input.len(),
    {
        let ghost k: int = out@.len() as int;
        assert(input@.len() == orig.len() - k);
        let mut t = input.remove(0);
        assert(t == orig[k as int]);
        assert(input@ == orig.skip(k + 1));
        let n = count_occurrences(linked_ids, t._id);
        proof {
            lemma_count_id_bound(linked_ids@, t._id);
        }
        t.quotes = n as i64;
        out.push(t);
        assert(orig.take(k + 1) == orig.take(k).push(orig[k]));
        assert(out@ =~= counted(orig.take(k + 1), linked_ids@));
    }
    assert(orig.take(orig.len() as int) == orig);
    out
}

} // verus!

verus! {

proof fn lemma_with_quotes_nonempty(s: Seq<Topic>, q: i64, i: int)
    requires
        0 <= i < s.len(),
        s[i].quotes == q,
    ensures
        with_quotes(s, q).len() > 0,
    decreases s.len(),
{
    if s.last().quotes != q {
        assert(s.drop_last()[i] == s[i]);
        lemma_with_quotes_nonempty(s.drop_last(), q, i);
    }
}

proof fn lemma_with_quotes_witness(s: Seq<Topic>, q: i64) -> (i: int)
    requires
        with_quotes(s, q).len() > 0,
    ensures
        0 <= i < s.len(),
        s[i].quotes == q,
    decreases s.len(),
{
    if s.last().quotes == q {
        s.len() - 1
    } else {
        let j = lemma_with_quotes_witness(s.drop_last(), q);
        assert(s[j] == s.drop_last()[j]);
        j
    }
}

/// Ordering topics most quoted first, keeping equal counts in their order,
/// has exactly one outcome: two such orderings of the same topics are equal.
/// Sorting an already sorted list therefore leaves it as it is.
pub proof fn lemma_sorted_by_quotes_unique(a: Seq<Topic>, b: Seq<Topic>)
    requires
        by_quotes_desc(a),
        by_quotes_desc(b),
        forall|q: i64| #[trigger] with_quotes(a, q) == with_quotes(b, q),
    ensures
        a == b,
    decreases a.len(),
{
    if a.len() == 0 {
        if b.len() > 0 {
            lemma_with_quotes_nonempty(b, b[0].quotes, 0);
            assert(with_quotes(a, b[0].quotes) == with_quotes(b, b[0].quotes));
        }
    } else {
        let q = a.last().quotes;
        assert(with_quotes(a, q) == with_quotes(b, q));
        assert(with_quotes(a, q).len() > 0);
        assert(b.len() > 0) by {
            if b.len() == 0 {
                assert(with_quotes(b, q).len() == 0);
            }
        }
        let qb = b.last().quotes;
        if qb != q {
            lemma_with_quotes_nonempty(b, qb, b.len() - 1);
            assert(with_quotes(a, qb) == with_quotes(b, qb));
            let i = lemma_with_quotes_witness(a, qb);
            let j = lemma_with_quotes_witness(b, q);
            assert(i != a.len() - 1);
            assert(j != b.len() - 1);
            assert(a[i].quotes >= a[a.len() - 1].quotes);
            assert(b[j].quotes >= b[b.len() - 1].quotes);
        }
        assert(with_quotes(a, q).last() == a.last());
        assert(with_quotes(b, q).last() == b.last());
        let a1 = a.drop_last();
        let b1 = b.drop_last();
        assert forall|r: i64| #[trigger] with_quotes(a1, r) == with_quotes(b1, r) by {
            assert(with_quotes(a, r) == with_quotes(b, r));
            if r == q {
                assert(with_quotes(a1, r) == with_quotes(a, r).drop_last());
                assert(with_quotes(b1, r) == with_quotes(b, r).drop_last());
            }
        }
        assert(by_quotes_desc(a1)) by {
            assert forall|i: int, j: int| 0 <= i < j < a1.len() implies (#[trigger] a1[i]).quotes >= (#[trigger] a1[j]).quotes by {
                assert(a1[i] == a[i] && a1[j] == a[j]);
            }
        }
        assert(by_quotes_desc(b1)) by {
            assert forall|i: int, j: int| 0 <= i < j < b1.len() implies (#[trigger] b1[i]).quotes >= (#[trigger] b1[j]).quotes by {
                assert(b1[i] == b[i] && b1[j] == b[j]);
            }
        }
        lemma_sorted_by_quotes_unique(a1, b1);
        assert(a == a1.push(a.last()));
        assert(b == b1.push(b.last()));
    }
}

} // verus!

verus! {

/// The filter that finds a topic by slug; slugs are looked up lowercased.
pub fn topic_slug_filter(slug: &str) -> (f: Filter)
    ensures
        f.wf(),
        f@ == seq![("slug"@, CondSpec::EqStr(lowercase(slug@)))],
{
    let mut f = Filter::new();
    proof {
        lemma_set_new_key(f@, "slug"@, CondSpec::EqStr(lowercase(slug@)));
    }
    f.insert("slug", Cond::EqStr(crate::text::to_lowercase(slug)));
    f
}

} // verus!

verus! {

/// What creating a topic comes to, once its checked name was looked up.
pub enum TopicNewDecision {
    /// A topic of that name exists: count one more use of it.
    Quote { topic_id: u128 },
    /// Store this new topic.
    Insert { topic: TopicNew },
}

/// Quotes the topic found under the checked name (`existing`), or else
/// stores the new topic under the slug of its name stamped with
/// `now_millis`.
pub fn topic_new_decision(checked: TopicNew, existing: Option<u128>, now_millis: i64) -> (r: TopicNewDecision)
    ensures
        match existing {
            Some(id) => r matches TopicNewDecision::Quote { topic_id } && topic_id == id,
            None => {
                &&& r matches TopicNewDecision::Insert { topic } && topic.name == checked.name
                    && topic.quotes == checked.quotes
                    && (crate::slug::slug_of(checked.name@) matches Some(base)
                    && topic.slug@ == crate::slug::stamped(base, now_millis as int))
            },
        },
{
    match existing {
        Some(id) => TopicNewDecision::Quote { topic_id: id },
        None => match crate::slug::new_slug(checked.name.as_str(), now_millis) {
            Some(slug) => TopicNewDecision::Insert { topic: TopicNew { name: checked.name, quotes: checked.quotes, slug } },
            None => {
                assert(false);
                TopicNewDecision::Quote { topic_id: 0 }
            },
        },
    }
}

/// What creating a list of topics does next.
pub enum TopicsNewAction {
    /// Create the topic at this position of the list.
    Create(usize),
    /// All were created: answer with them.
    Done,
    /// The last one was refused: answer with its refusal, create no more.
    Fail,
}

/// The topics of a list are created in order, and the first refusal ends
/// the list: after `done` topics of `total`, the last of them refused or
/// not.
pub fn topics_new_next(done: usize, total: usize, last_refused: bool) -> (a: TopicsNewAction)
    ensures
        last_refused ==> a is Fail,
        !last_refused && done < total ==> (a matches TopicsNewAction::Create(i) && i == done),
        !last_refused && done >= total ==> a is Done,
{
    if last_refused {
        TopicsNewAction::Fail
    } else if done < total {
        TopicsNewAction::Create(done)
    } else {
        TopicsNewAction::Done
    }
}

} // verus!
