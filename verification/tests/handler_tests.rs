use miniblog::error::Error;
use miniblog::handlers::{create, destroy, handle_post_resource, index, show, Page, Response};
use miniblog::post::Post;
use miniblog::store::Store;

#[test]
fn index_lists_all_posts() {
    let mut store = Store::new();
    let a = Post::create(&mut store, "first", "a").unwrap();
    let b = Post::create(&mut store, "second", "b").unwrap();
    match index(&store) {
        Response::Html(Page::Index(list)) => {
            assert_eq!(list.len(), 2);
            assert!(list.iter().any(|p| p.id == a.id));
            assert!(list.iter().any(|p| p.id == b.id));
        },
        _ => panic!("index must render the list page"),
    }
}

#[test]
fn show_renders_the_post() {
    let mut store = Store::new();
    let post = Post::create(&mut store, "T", "B").unwrap();
    match show(&store, &post.id) {
        Response::Html(Page::Show(p)) => {
            assert_eq!(p.id, post.id);
            assert_eq!(p.title, "T");
            assert_eq!(p.body, "B");
        },
        _ => panic!("show must render the detail page"),
    }
}

#[test]
fn show_invalid_id_is_not_found() {
    let store = Store::new();
    assert!(matches!(show(&store, ""), Response::NotFound));
    assert!(matches!(show(&store, "oops"), Response::NotFound));
}

#[test]
fn show_unknown_id_is_not_found() {
    let mut store = Store::new();
    Post::create(&mut store, "T", "B").unwrap();
    let r = show(&store, "ffffffff-ffff-ffff-ffff-ffffffffffff");
    assert!(matches!(r, Response::NotFound));
}

#[test]
fn create_redirects_to_the_new_post() {
    let mut store = Store::new();
    match create(&mut store, "T", "B") {
        Response::Found(loc) => {
            let post = Post::find_all(&store).unwrap().pop().unwrap();
            assert_eq!(loc, format!("/posts/{}", post.id));
        },
        _ => panic!("create must redirect"),
    }
    assert_eq!(Post::find_all(&store).unwrap().len(), 1);
}

#[test]
fn destroy_redirects_home_and_removes_the_post() {
    let mut store = Store::new();
    let post = Post::create(&mut store, "T", "B").unwrap();
    match destroy(&mut store, &post.id) {
        Response::Found(loc) => assert_eq!(loc, "/"),
        _ => panic!("destroy must redirect home"),
    }
    assert_eq!(Post::find_all(&store).unwrap().len(), 0);
}

#[test]
fn destroy_unknown_id_is_unprocessable() {
    let mut store = Store::new();
    Post::create(&mut store, "T", "B").unwrap();
    let r = destroy(&mut store, "ffffffff-ffff-ffff-ffff-ffffffffffff");
    assert!(matches!(r, Response::UnprocessableEntity));
    assert_eq!(Post::find_all(&store).unwrap().len(), 1);
}

#[test]
fn destroy_malformed_id_is_unprocessable() {
    let mut store = Store::new();
    let r = destroy(&mut store, "not-an-identifier");
    assert!(matches!(r, Response::UnprocessableEntity));
}

#[test]
fn method_override_delete_removes_the_post() {
    let mut store = Store::new();
    let post = Post::create(&mut store, "T", "B").unwrap();
    let r = handle_post_resource(&mut store, &post.id, "DELETE").unwrap();
    assert!(matches!(r, Response::Found(_)));
    assert_eq!(Post::find_all(&store).unwrap().len(), 0);
}

#[test]
fn method_override_delete_on_missing_id_is_not_a_redirect() {
    let mut store = Store::new();
    let r = handle_post_resource(
        &mut store,
        "ffffffff-ffff-ffff-ffff-ffffffffffff",
        "DELETE",
    )
    .unwrap();
    assert!(matches!(r, Response::UnprocessableEntity));
    assert!(!matches!(r, Response::Found(_)));
}

#[test]
fn method_override_patch_is_unimplemented() {
    let mut store = Store::new();
    let post = Post::create(&mut store, "T", "B").unwrap();
    let r = handle_post_resource(&mut store, &post.id, "PATCH");
    assert!(matches!(r, Err(Error::Unimplemented)));
    assert_eq!(Post::find_all(&store).unwrap().len(), 1);
}

#[test]
fn method_override_other_is_not_found() {
    let mut store = Store::new();
    let post = Post::create(&mut store, "T", "B").unwrap();
    let r = handle_post_resource(&mut store, &post.id, "PUT").unwrap();
    assert!(matches!(r, Response::NotFound));
    assert_eq!(Post::find_all(&store).unwrap().len(), 1);
}

#[test]
fn response_status_codes() {
    let mut store = Store::new();
    let post = Post::create(&mut store, "T", "B").unwrap();
    assert_eq!(index(&store).status_code(), 200);
    assert_eq!(show(&store, &post.id).status_code(), 200);
    assert_eq!(Response::NotFound.status_code(), 404);
    assert_eq!(Response::UnprocessableEntity.status_code(), 422);
    assert_eq!(Response::InternalError.status_code(), 500);
    assert_eq!(destroy(&mut store, &post.id).status_code(), 302);
}
