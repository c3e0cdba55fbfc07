//! The persisted entity and its data-access operations.

use vstd::prelude::*;

use crate::error::Error;
use crate::ident::{
    format_id, lemma_parse_format_roundtrip, lemma_pow16_32, parse_id, parse_id_spec, pow16,
};
use crate::store::{
    created_post, has_id, lemma_remove_keeps_wf, lemma_update_keeps_wf, post_id_val,
    store_after_create, wf_post, Store,
};

verus! {

/// A blog post: a unique store-assigned identifier in its textual
/// form, free-text title and body, and the creation timestamp the
/// store stamped on it.
pub struct Post {
    pub id: String,
    pub title: String,
    pub body: String,
    pub created_at: i64,
}

/// The mathematical value of a post.
pub ghost struct PostV {
    pub id: Seq<char>,
    pub title: Seq<char>,
    pub body: Seq<char>,
    pub created_at: int,
}

impl View for Post {
    type V = PostV;

    open spec fn view(&self) -> PostV {
        PostV {
            id: self.id@,
            title: self.title@,
            body: self.body@,
            created_at: self.created_at as int,
        }
    }
}

impl Post {
    /// An identical copy of the post.
    pub fn duplicate(&self) -> (p: Post)
        ensures
            p@ == self@,
    {
        Post {
            id: self.id.clone(),
            title: self.title.clone(),
            body: self.body.clone(),
            created_at: self.created_at,
        }
    }

    /// The identifier value this post's id text denotes; `NotFound`
    /// when the text is not a valid identifier.
    pub fn uuid(&self) -> (r: Result<u128, Error>)
        ensures
            match parse_id_spec(self.id@) {
                Some(v) => r matches Ok(u) && u as int == v,
                None => r == Err::<u128, Error>(Error::NotFound),
            },
    {
        match parse_id(self.id.as_str()) {
            Some(v) => Ok(v),
            None => Err(Error::NotFound),
        }
    }

    /// All posts, in store order.
    pub fn find_all(store: &Store) -> (r: Result<Vec<Post>, Error>)
        ensures
            r matches Ok(list),
            r matches Ok(list) ==> {
                &&& list@.len() == store@.posts.len()
                &&& forall|i: int|
                    0 <= i < list@.len() ==> (#[trigger] list@[i])@ == store@.posts[i]
            },
    {
        let mut list: Vec<Post> = Vec::new();
        let n = store.posts.len();
        let mut i: usize = 0;
        while i < n
            invariant
                n == store.posts.len(),
                0 <= i <= n,
                list@.len() == i,
                forall|k: int| 0 <= k < i ==> (#[trigger] list@[k])@ == store@.posts[k],
            decreases n - i,
        {
            list.push(store.posts[i].duplicate());
            i += 1;
        }
        Ok(list)
    }

    /// Find the post whose identifier value the given text denotes.
    /// A string that is not a valid identifier and a value that no row
    /// carries both answer `NotFound`.
    pub fn find(store: &Store, id: &str) -> (r: Result<Post, Error>)
        requires
            store.wf(),
        ensures
            match parse_id_spec(id@) {
                None => r == Err::<Post, Error>(Error::NotFound),
                Some(v) => {
                    if has_id(store@.posts, v) {
                        r matches Ok(p) && (forall|i: int|
                            0 <= i < store@.posts.len() && post_id_val(#[trigger] store@.posts[i])
                                == Some(v) ==> p@ == store@.posts[i])
                    } else {
                        r == Err::<Post, Error>(Error::NotFound)
                    }
                },
            },
    {
        let v = match parse_id(id) {
            Some(v) => v,
            None => {
                return Err(Error::NotFound);
            },
        };
        let n = store.posts.len();
        let mut i: usize = 0;
        while i < n
            invariant
                store.wf(),
                n == store.posts.len(),
                0 <= i <= n,
                parse_id_spec(id@) == Some(v as int),
                forall|k: int|
                    0 <= k < i ==> post_id_val(#[trigger] store@.posts[k]) != Some(v as int),
            decreases n - i,
        {
            match parse_id(store.posts[i].id.as_str()) {
                Some(u) => {
                    if u == v {
                        let p = store.posts[i].duplicate();
                        proof {
                            assert(has_id(store@.posts, v as int));
                            assert forall|k: int|
                                0 <= k < store@.posts.len() && post_id_val(
                                    #[trigger] store@.posts[k],
                                ) == Some(v as int) implies p@ == store@.posts[k] by {
                                if k != i {
                                    assert(post_id_val(store@.posts[k]) != post_id_val(
                                        store@.posts[i as int],
                                    ));
                                }
                            };
                        }
                        return Ok(p);
                    }
                },
                None => {},
            }
            i += 1;
        }
        Err(Error::NotFound)
    }

    /// Persist a new post: the store assigns the next identifier and
    /// the clock's timestamp. Fails with `StoreError` only when the
    /// identifier space is exhausted.
    pub fn create(store: &mut Store, title: &str, body: &str) -> (r: Result<Post, Error>)
        requires
            old(store).wf(),
        ensures
            final(store).wf(),
            old(store)@.next_id == pow16(32) - 1 ==> (r == Err::<Post, Error>(Error::StoreError)
                && final(store)@ == old(store)@),
            old(store)@.next_id < pow16(32) - 1 ==> {
                &&& r matches Ok(p) && p@ == created_post(old(store)@, title@, body@)
                &&& final(store)@ == store_after_create(old(store)@, title@, body@)
            },
    {
        proof {
            lemma_pow16_32();
        }
        if store.next_id == u128::MAX {
            return Err(Error::StoreError);
        }
        let id = format_id(store.next_id);
        let p = Post {
            id,
            title: title.to_owned(),
            body: body.to_owned(),
            created_at: store.clock,
        };
        let copy = p.duplicate();
        let ghost prev = store@;
        store.posts.push(p);
        store.next_id = store.next_id + 1;
        proof {
            lemma_parse_format_roundtrip(prev.next_id);
            assert(store@.posts =~= prev.posts.push(copy@));
            assert(store@ == store_after_create(prev, title@, body@));
            assert forall|i: int| 0 <= i < store@.posts.len() implies wf_post(
                #[trigger] store@.posts[i],
                store@.next_id,
            ) by {
                if i < prev.posts.len() {
                    assert(wf_post(prev.posts[i], prev.next_id));
                }
            };
            assert forall|i: int, j: int| 0 <= i < j < store@.posts.len() implies post_id_val(
                #[trigger] store@.posts[i],
            ) != post_id_val(#[trigger] store@.posts[j]) by {
                if j == prev.posts.len() {
                    assert(wf_post(prev.posts[i], prev.next_id));
                    assert(post_id_val(store@.posts[j]) == Some(prev.next_id));
                }
            };
        }
        Ok(copy)
    }

    /// Remove the row whose identifier this post carries. A malformed
    /// identifier and an absent row both answer `NotFound`; nothing
    /// else changes in either case.
    pub fn destroy(&self, store: &mut Store) -> (r: Result<(), Error>)
        requires
            old(store).wf(),
        ensures
            final(store).wf(),
            final(store)@.next_id == old(store)@.next_id,
            final(store)@.clock == old(store)@.clock,
            match parse_id_spec(self.id@) {
                None => r == Err::<(), Error>(Error::NotFound) && final(store)@ == old(store)@,
                Some(v) => {
                    if has_id(old(store)@.posts, v) {
                        r == Ok::<(), Error>(()) && (exists|i: int|
                            0 <= i < old(store)@.posts.len() && post_id_val(
                                #[trigger] old(store)@.posts[i],
                            ) == Some(v) && final(store)@.posts == old(store)@.posts.remove(i))
                    } else {
                        r == Err::<(), Error>(Error::NotFound) && final(store)@ == old(store)@
                    }
                },
            },
    {
        let v = match parse_id(self.id.as_str()) {
            Some(v) => v,
            None => {
                return Err(Error::NotFound);
            },
        };
        let n = store.posts.len();
        let mut i: usize = 0;
        while i < n
            invariant
                store.wf(),
                store@ == old(store)@,
                n == store.posts.len(),
                0 <= i <= n,
                parse_id_spec(self.id@) == Some(v as int),
                forall|k: int|
                    0 <= k < i ==> post_id_val(#[trigger] store@.posts[k]) != Some(v as int),
            decreases n - i,
        {
            match parse_id(store.posts[i].id.as_str()) {
                Some(u) => {
                    if u == v {
                        let ghost prev = store@;
                        proof {
                            assert(post_id_val(prev.posts[i as int]) == Some(v as int));
                            assert(has_id(prev.posts, v as int));
                        }
                        store.posts.remove(i);
                        proof {
                            assert(store@.posts =~= prev.posts.remove(i as int));
                            lemma_remove_keeps_wf(prev, i as int);
                        }
                        return Ok(());
                    }
                },
                None => {},
            }
            i += 1;
        }
        Err(Error::NotFound)
    }

    /// Replace the title and body of the row whose identifier this
    /// post carries, leaving its identifier and timestamp. A malformed
    /// identifier and an absent row both answer `NotFound`.
    pub fn update(&self, store: &mut Store, title: &str, body: &str) -> (r: Result<(), Error>)
        requires
            old(store).wf(),
        ensures
            final(store).wf(),
            final(store)@.next_id == old(store)@.next_id,
            final(store)@.clock == old(store)@.clock,
            match parse_id_spec(self.id@) {
                None => r == Err::<(), Error>(Error::NotFound) && final(store)@ == old(store)@,
                Some(v) => {
                    if has_id(old(store)@.posts, v) {
                        r == Ok::<(), Error>(()) && (exists|i: int|
                            0 <= i < old(store)@.posts.len() && post_id_val(
                                #[trigger] old(store)@.posts[i],
                            ) == Some(v) && final(store)@.posts == old(store)@.posts.update(
                                i,
                                (PostV {
                                    id: old(store)@.posts[i].id,
                                    title: title@,
                                    body: body@,
                                    created_at: old(store)@.posts[i].created_at,
                                }),
                            ))
                    } else {
                        r == Err::<(), Error>(Error::NotFound) && final(store)@ == old(store)@
                    }
                },
            },
    {
        let v = match parse_id(self.id.as_str()) {
            Some(v) => v,
            None => {
                return Err(Error::NotFound);
            },
        };
        let n = store.posts.len();
        let mut i: usize = 0;
        while i < n
            invariant
                store.wf(),
                store@ == old(store)@,
                n == store.posts.len(),
                0 <= i <= n,
                parse_id_spec(self.id@) == Some(v as int),
                forall|k: int|
                    0 <= k < i ==> post_id_val(#[trigger] store@.posts[k]) != Some(v as int),
            decreases n - i,
        {
            match parse_id(store.posts[i].id.as_str()) {
                Some(u) => {
                    if u == v {
                        let ghost prev = store@;
                        proof {
                            assert(post_id_val(prev.posts[i as int]) == Some(v as int));
                            assert(has_id(prev.posts, v as int));
                        }
                        let row = store.posts.remove(i);
                        let replacement = Post {
                            id: row.id,
                            title: title.to_owned(),
                            body: body.to_owned(),
                            created_at: row.created_at,
                        };
                        let ghost rv = replacement@;
                        store.posts.insert(i, replacement);
                        proof {
                            assert(store@.posts =~= prev.posts.update(i as int, rv));
                            lemma_update_keeps_wf(prev, i as int, rv);
                        }
                        return Ok(());
                    }
                },
                None => {},
            }
            i += 1;
        }
        Err(Error::NotFound)
    }
}

} // verus!
