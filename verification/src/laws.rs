//! Laws of the store: relations between the data-access operations,
//! proved over the store's mathematical values.

use vstd::prelude::*;

use crate::ident::{format_id_spec, lemma_parse_format_roundtrip, pow16};
use crate::post::PostV;
use crate::store::{
    created_post, has_id, lemma_remove_keeps_wf, post_id_val, store_after_create, store_wf,
    wf_post, StoreV,
};

verus! {

/// Creating then fetching. After a successful `create(title, body)` on
/// a well formed store, the new post carries exactly the given title
/// and body; its identifier is fresh — no post already in the store has
/// an id denoting the same value — and looking that value up yields
/// exactly the new post.
pub proof fn lemma_create_then_find(sv: StoreV, title: Seq<char>, body: Seq<char>)
    requires
        store_wf(sv),
        sv.next_id < pow16(32) - 1,
    ensures
        ({
            let p = created_post(sv, title, body);
            let sv2 = store_after_create(sv, title, body);
            &&& store_wf(sv2)
            &&& p.title == title && p.body == body
            &&& post_id_val(p) == Some(sv.next_id)
            &&& forall|i: int|
                0 <= i < sv.posts.len() ==> post_id_val(#[trigger] sv.posts[i]) != Some(sv.next_id)
            &&& has_id(sv2.posts, sv.next_id)
            &&& forall|i: int|
                0 <= i < sv2.posts.len() && post_id_val(#[trigger] sv2.posts[i]) == Some(
                    sv.next_id,
                ) ==> sv2.posts[i] == p
        }),
{
    let p = created_post(sv, title, body);
    let sv2 = store_after_create(sv, title, body);
    lemma_parse_format_roundtrip(sv.next_id);
    assert forall|i: int| 0 <= i < sv.posts.len() implies post_id_val(#[trigger] sv.posts[i])
        != Some(sv.next_id) by {
        assert(wf_post(sv.posts[i], sv.next_id));
    };
    assert(sv2.posts[sv.posts.len() as int] == p);
    assert(has_id(sv2.posts, sv.next_id));
    assert forall|i: int| 0 <= i < sv2.posts.len() implies wf_post(
        #[trigger] sv2.posts[i],
        sv2.next_id,
    ) by {
        if i < sv.posts.len() {
            assert(wf_post(sv.posts[i], sv.next_id));
        }
    };
    assert forall|i: int, j: int| 0 <= i < j < sv2.posts.len() implies post_id_val(
        #[trigger] sv2.posts[i],
    ) != post_id_val(#[trigger] sv2.posts[j]) by {
        if j == sv.posts.len() {
            assert(wf_post(sv.posts[i], sv.next_id));
        }
    };
}

/// Deleting then fetching. Removing the row whose id denotes `v` from
/// a well formed store leaves a well formed store in which no row's id
/// denotes `v` any more: a later lookup of the same identifier answers
/// not-found.
pub proof fn lemma_destroy_then_find(sv: StoreV, i: int, v: int)
    requires
        store_wf(sv),
        0 <= i < sv.posts.len(),
        post_id_val(sv.posts[i]) == Some(v),
    ensures
        store_wf(StoreV { posts: sv.posts.remove(i), ..sv }),
        !has_id(sv.posts.remove(i), v),
{
    lemma_remove_keeps_wf(sv, i);
    let rest = sv.posts.remove(i);
    assert forall|k: int| 0 <= k < rest.len() implies post_id_val(#[trigger] rest[k]) != Some(
        v,
    ) by {
        if k < i {
            assert(rest[k] == sv.posts[k]);
            assert(post_id_val(sv.posts[k]) != post_id_val(sv.posts[i]));
        } else {
            assert(rest[k] == sv.posts[k + 1]);
            assert(post_id_val(sv.posts[i]) != post_id_val(sv.posts[k + 1]));
        }
    };
}

/// The store after a sequence of creates, each one a title and a body.
pub open spec fn store_after_creates(sv: StoreV, reqs: Seq<(Seq<char>, Seq<char>)>) -> StoreV
    decreases reqs.len(),
{
    if reqs.len() == 0 {
        sv
    } else {
        store_after_creates(store_after_create(sv, reqs[0].0, reqs[0].1), reqs.drop_first())
    }
}

/// Listing after creating. After any sequence of creates that the
/// identifier space accommodates, the store holds every post it held
/// before, unchanged and in place, followed by exactly the created
/// posts; in particular the collection contains every created post,
/// each findable by its fresh identifier.
pub proof fn lemma_creates_preserve_and_contain(sv: StoreV, reqs: Seq<(Seq<char>, Seq<char>)>)
    requires
        store_wf(sv),
        sv.next_id + reqs.len() < pow16(32),
    ensures
        ({
            let sv2 = store_after_creates(sv, reqs);
            &&& store_wf(sv2)
            &&& sv2.posts.len() == sv.posts.len() + reqs.len()
            &&& sv2.next_id == sv.next_id + reqs.len()
            &&& sv2.clock == sv.clock
            &&& forall|i: int| 0 <= i < sv.posts.len() ==> #[trigger] sv2.posts[i] == sv.posts[i]
            &&& forall|j: int|
                0 <= j < reqs.len() ==> #[trigger] sv2.posts[sv.posts.len() + j] == (PostV {
                    id: format_id_spec(sv.next_id + j),
                    title: reqs[j].0,
                    body: reqs[j].1,
                    created_at: sv.clock,
                })
            &&& forall|j: int| 0 <= j < reqs.len() ==> #[trigger] has_id(sv2.posts, sv.next_id + j)
        }),
    decreases reqs.len(),
{
    let sv2 = store_after_creates(sv, reqs);
    if reqs.len() == 0 {
    } else {
        let sv1 = store_after_create(sv, reqs[0].0, reqs[0].1);
        lemma_create_then_find(sv, reqs[0].0, reqs[0].1);
        lemma_creates_preserve_and_contain(sv1, reqs.drop_first());
        assert forall|j: int| 0 <= j < reqs.len() implies #[trigger] sv2.posts[sv.posts.len() + j]
            == (PostV {
            id: format_id_spec(sv.next_id + j),
            title: reqs[j].0,
            body: reqs[j].1,
            created_at: sv.clock,
        }) by {
            if j == 0 {
                assert(sv2.posts[sv.posts.len() as int] == sv1.posts[sv.posts.len() as int]);
            } else {
                assert(reqs.drop_first()[j - 1] == reqs[j]);
                assert(sv2.posts[sv1.posts.len() + (j - 1)] == (PostV {
                    id: format_id_spec(sv1.next_id + (j - 1)),
                    title: reqs.drop_first()[j - 1].0,
                    body: reqs.drop_first()[j - 1].1,
                    created_at: sv1.clock,
                }));
            }
        };
        assert forall|j: int| 0 <= j < reqs.len() implies #[trigger] has_id(sv2.posts, sv.next_id + j) by {
            lemma_parse_format_roundtrip(sv.next_id + j);
            assert(post_id_val(sv2.posts[sv.posts.len() + j]) == Some(sv.next_id + j));
        };
    }
}

} // verus!
