//! The post store: a verified model of the single table behind the
//! application, with identifiers assigned from a counter and creation
//! timestamps taken from a clock that the embedding advances.

use vstd::prelude::*;

use crate::ident::{format_id_spec, lemma_pow16_pos, parse_id_spec, pow16};
use crate::post::{Post, PostV};

verus! {

/// The mathematical value of a store: the rows in store order, the
/// next identifier value, and the clock stamped onto new rows.
pub ghost struct StoreV {
    pub posts: Seq<PostV>,
    pub next_id: int,
    pub clock: int,
}

/// The post store.
pub struct Store {
    pub posts: Vec<Post>,
    pub next_id: u128,
    pub clock: i64,
}

impl View for Store {
    type V = StoreV;

    open spec fn view(&self) -> StoreV {
        StoreV {
            posts: self.posts@.map_values(|p: Post| p@),
            next_id: self.next_id as int,
            clock: self.clock as int,
        }
    }
}

/// The identifier value a post's id text denotes.
pub open spec fn post_id_val(p: PostV) -> Option<int> {
    parse_id_spec(p.id)
}

/// Whether some post in `posts` has identifier value `v`.
pub open spec fn has_id(posts: Seq<PostV>, v: int) -> bool {
    exists|i: int| 0 <= i < posts.len() && post_id_val(#[trigger] posts[i]) == Some(v)
}

/// A row is well formed under an id counter: its id text is the
/// canonical form of a value the counter has already passed.
pub open spec fn wf_post(p: PostV, next: int) -> bool {
    match parse_id_spec(p.id) {
        Some(v) => 0 <= v < next && p.id == format_id_spec(v),
        None => false,
    }
}

/// A store value is well formed: the counter fits the identifier
/// width, every row is well formed under it, and identifier values are
/// pairwise distinct.
pub open spec fn store_wf(sv: StoreV) -> bool {
    &&& 0 <= sv.next_id < pow16(32)
    &&& forall|i: int| 0 <= i < sv.posts.len() ==> wf_post(#[trigger] sv.posts[i], sv.next_id)
    &&& forall|i: int, j: int|
        0 <= i < j < sv.posts.len() ==> post_id_val(#[trigger] sv.posts[i]) != post_id_val(
            #[trigger] sv.posts[j],
        )
}

/// The post that a successful `create` persists next.
pub open spec fn created_post(sv: StoreV, title: Seq<char>, body: Seq<char>) -> PostV {
    PostV { id: format_id_spec(sv.next_id), title: title, body: body, created_at: sv.clock }
}

/// The store value after a successful `create`.
pub open spec fn store_after_create(sv: StoreV, title: Seq<char>, body: Seq<char>) -> StoreV {
    StoreV {
        posts: sv.posts.push(created_post(sv, title, body)),
        next_id: sv.next_id + 1,
        clock: sv.clock,
    }
}

impl Store {
    /// Well-formedness of the live store.
    pub open spec fn wf(&self) -> bool {
        store_wf(self@)
    }

    /// An empty store with the counter and clock at zero.
    pub fn new() -> (s: Store)
        ensures
            s@.posts == Seq::<PostV>::empty(),
            s@.next_id == 0,
            s@.clock == 0,
            s.wf(),
    {
        let s = Store { posts: Vec::new(), next_id: 0, clock: 0 };
        proof {
            lemma_pow16_pos(32);
            assert(s@.posts =~= Seq::<PostV>::empty());
        }
        s
    }

    /// Set the clock: the creation timestamp given to new posts.
    pub fn set_clock(&mut self, now: i64)
        ensures
            final(self)@.posts == old(self)@.posts,
            final(self)@.next_id == old(self)@.next_id,
            final(self)@.clock == now as int,
            old(self).wf() ==> final(self).wf(),
    {
        self.clock = now;
    }
}

/// Removing a row keeps a store value well formed.
pub proof fn lemma_remove_keeps_wf(sv: StoreV, i: int)
    requires
        store_wf(sv),
        0 <= i < sv.posts.len(),
    ensures
        store_wf(StoreV { posts: sv.posts.remove(i), ..sv }),
{
    let sv2 = StoreV { posts: sv.posts.remove(i), ..sv };
    assert forall|k: int| 0 <= k < sv2.posts.len() implies wf_post(
        #[trigger] sv2.posts[k],
        sv2.next_id,
    ) by {
        if k < i {
            assert(sv2.posts[k] == sv.posts[k]);
        } else {
            assert(sv2.posts[k] == sv.posts[k + 1]);
        }
    };
    assert forall|k: int, l: int| 0 <= k < l < sv2.posts.len() implies post_id_val(
        #[trigger] sv2.posts[k],
    ) != post_id_val(#[trigger] sv2.posts[l]) by {
        let k0 = if k < i { k } else { k + 1 };
        let l0 = if l < i { l } else { l + 1 };
        assert(sv2.posts[k] == sv.posts[k0]);
        assert(sv2.posts[l] == sv.posts[l0]);
    };
}

/// Replacing a row's title and body keeps a store value well formed.
pub proof fn lemma_update_keeps_wf(sv: StoreV, i: int, p: PostV)
    requires
        store_wf(sv),
        0 <= i < sv.posts.len(),
        p.id == sv.posts[i].id,
    ensures
        store_wf(StoreV { posts: sv.posts.update(i, p), ..sv }),
{
    let sv2 = StoreV { posts: sv.posts.update(i, p), ..sv };
    assert(wf_post(sv.posts[i], sv.next_id));
    assert(post_id_val(sv2.posts[i]) == post_id_val(sv.posts[i]));
    assert forall|k: int, l: int| 0 <= k < l < sv2.posts.len() implies post_id_val(
        #[trigger] sv2.posts[k],
    ) != post_id_val(#[trigger] sv2.posts[l]) by {
        assert(post_id_val(sv2.posts[k]) == post_id_val(sv.posts[k]));
        assert(post_id_val(sv2.posts[l]) == post_id_val(sv.posts[l]));
    };
}

} // verus!
