//! The request handlers: the decision layer that maps each route to a
//! store operation and an outcome the transport can send.

use vstd::prelude::*;

use crate::error::Error;
use crate::ident::{format_id_spec, parse_id_spec, pow16};
use crate::post::Post;
use crate::store::{has_id, post_id_val, store_after_create, Store, StoreV};

verus! {

/// A page to render, with the data it shows.
pub enum Page {
    /// The list page over all posts.
    Index(Vec<Post>),
    /// The detail page of one post.
    Show(Post),
}

/// The outcome of a handler, as the transport will see it: a rendered
/// page, a redirect, or an error status.
pub enum Response {
    /// Status 200: render the page.
    Html(Page),
    /// Status 302: redirect to the location.
    Found(String),
    /// Status 404.
    NotFound,
    /// Status 422.
    UnprocessableEntity,
    /// Status 500.
    InternalError,
}

/// The status code each outcome carries.
pub open spec fn response_status(r: Response) -> int {
    match r {
        Response::Html(_) => 200,
        Response::Found(_) => 302,
        Response::NotFound => 404,
        Response::UnprocessableEntity => 422,
        Response::InternalError => 500,
    }
}

impl Response {
    /// The status code of the outcome.
    pub fn status_code(&self) -> (c: u16)
        ensures
            c == response_status(*self),
    {
        match self {
            Response::Html(_) => 200,
            Response::Found(_) => 302,
            Response::NotFound => 404,
            Response::UnprocessableEntity => 422,
            Response::InternalError => 500,
        }
    }
}

/// Whether two strings are the same sequence of characters.
fn str_eq(a: &str, b: &str) -> (r: bool)
    ensures
        r == (a@ == b@),
{
    let la = a.unicode_len();
    let lb = b.unicode_len();
    if la != lb {
        return false;
    }
    let mut i: usize = 0;
    while i < la
        invariant
            a@.len() == la,
            b@.len() == la,
            0 <= i <= la,
            forall|k: int| 0 <= k < i ==> a@[k] == b@[k],
        decreases la - i,
    {
        if a.get_char(i) != b.get_char(i) {
            return false;
        }
        i += 1;
    }
    proof {
        assert(a@ =~= b@);
    }
    true
}

/// The list route: answer the list page over all posts, in store order.
pub fn index(store: &Store) -> (r: Response)
    requires
        store.wf(),
    ensures
        r matches Response::Html(page) && (page matches Page::Index(list) && list@.len()
            == store@.posts.len() && (forall|i: int|
            0 <= i < list@.len() ==> (#[trigger] list@[i])@ == store@.posts[i])),
{
    match Post::find_all(store) {
        Ok(list) => Response::Html(Page::Index(list)),
        Err(_) => Response::InternalError,
    }
}

/// The detail route: answer the detail page of the addressed post; a
/// malformed or unknown identifier answers not-found.
pub fn show(store: &Store, id: &str) -> (r: Response)
    requires
        store.wf(),
    ensures
        match parse_id_spec(id@) {
            None => r == Response::NotFound,
            Some(v) => {
                if has_id(store@.posts, v) {
                    r matches Response::Html(page) && (page matches Page::Show(p) && (forall|
                        i: int,
                    |
                        0 <= i < store@.posts.len() && post_id_val(#[trigger] store@.posts[i])
                            == Some(v) ==> p@ == store@.posts[i]))
                } else {
                    r == Response::NotFound
                }
            },
        },
{
    match Post::find(store, id) {
        Ok(p) => Response::Html(Page::Show(p)),
        Err(_) => Response::NotFound,
    }
}

/// The create route: persist the form's title and body, then redirect
/// to the new post's page.
pub fn create(store: &mut Store, title: &str, body: &str) -> (r: Response)
    requires
        old(store).wf(),
    ensures
        final(store).wf(),
        old(store)@.next_id < pow16(32) - 1 ==> (r matches Response::Found(loc) && loc@
            == "/posts/"@ + format_id_spec(old(store)@.next_id) && final(store)@
            == store_after_create(old(store)@, title@, body@)),
        old(store)@.next_id == pow16(32) - 1 ==> (r == Response::InternalError && final(store)@
            == old(store)@),
{
    match Post::create(store, title, body) {
        Ok(p) => {
            let mut loc = String::from_str("/posts/");
            loc.append(p.id.as_str());
            Response::Found(loc)
        },
        Err(_) => Response::InternalError,
    }
}

/// What the delete decision leaves behind: on a malformed or unknown
/// identifier the store is unchanged and the answer is
/// unprocessable-entity, never a redirect; otherwise exactly the
/// addressed row is gone and the answer redirects home.
pub open spec fn destroy_outcome(prev: StoreV, cur: StoreV, id: Seq<char>, r: Response) -> bool {
    &&& cur.next_id == prev.next_id
    &&& cur.clock == prev.clock
    &&& match parse_id_spec(id) {
        None => r == Response::UnprocessableEntity && cur == prev,
        Some(v) => {
            if has_id(prev.posts, v) {
                r matches Response::Found(loc) && loc@ == "/"@ && (exists|i: int|
                    0 <= i < prev.posts.len() && post_id_val(#[trigger] prev.posts[i]) == Some(v)
                        && cur.posts == prev.posts.remove(i))
            } else {
                r == Response::UnprocessableEntity && cur == prev
            }
        },
    }
}

/// The delete decision: look the addressed post up, remove it, and
/// redirect home; a malformed or unknown identifier answers
/// unprocessable-entity and changes nothing.
pub fn destroy(store: &mut Store, id: &str) -> (r: Response)
    requires
        old(store).wf(),
    ensures
        final(store).wf(),
        destroy_outcome(old(store)@, final(store)@, id@, r),
{
    let post = match Post::find(store, id) {
        Ok(p) => p,
        Err(_) => {
            return Response::UnprocessableEntity;
        },
    };
    match post.destroy(store) {
        Ok(_) => Response::Found(String::from_str("/")),
        Err(_) => Response::InternalError,
    }
}

/// The action a `_method` override field selects.
#[derive(Clone, Copy, Debug, PartialEq, Eq, Structural)]
pub enum MethodAction {
    /// Perform the delete.
    Delete,
    /// The deliberately unimplemented update route.
    Patch,
    /// Any other value: an unknown route.
    Other,
}

/// The action each `_method` value selects.
pub open spec fn method_action_spec(m: Seq<char>) -> MethodAction {
    if m == "DELETE"@ {
        MethodAction::Delete
    } else if m == "PATCH"@ {
        MethodAction::Patch
    } else {
        MethodAction::Other
    }
}

/// Decide which action a `_method` form field selects.
pub fn method_action(method: &str) -> (r: MethodAction)
    ensures
        r == method_action_spec(method@),
{
    if str_eq(method, "DELETE") {
        MethodAction::Delete
    } else if str_eq(method, "PATCH") {
        MethodAction::Patch
    } else {
        MethodAction::Other
    }
}

/// The form-method override route: a form can only issue GET and POST,
/// so a POST to a post's page carries the intended verb in the
/// `_method` field. `DELETE` performs the delete; `PATCH` is
/// deliberately not implemented and must fail loudly; anything else
/// answers not-found.
pub fn handle_post_resource(store: &mut Store, id: &str, method: &str) -> (r: Result<
    Response,
    Error,
>)
    requires
        old(store).wf(),
    ensures
        final(store).wf(),
        method@ == "DELETE"@ ==> (r matches Ok(resp) && destroy_outcome(
            old(store)@,
            final(store)@,
            id@,
            resp,
        )),
        method@ != "DELETE"@ && method@ == "PATCH"@ ==> (r == Err::<Response, Error>(
            Error::Unimplemented,
        ) && final(store)@ == old(store)@),
        method@ != "DELETE"@ && method@ != "PATCH"@ ==> (r == Ok::<Response, Error>(
            Response::NotFound,
        ) && final(store)@ == old(store)@),
{
    match method_action(method) {
        MethodAction::Delete => Ok(destroy(store, id)),
        MethodAction::Patch => Err(Error::Unimplemented),
        MethodAction::Other => Ok(Response::NotFound),
    }
}

} // verus!
