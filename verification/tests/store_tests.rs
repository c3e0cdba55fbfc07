use miniblog::error::Error;
use miniblog::post::Post;
use miniblog::store::Store;

#[test]
fn create_then_find_round_trip() {
    let mut store = Store::new();
    store.set_clock(42);
    let post = Post::create(&mut store, "T", "B").unwrap();
    assert_eq!(post.title, "T");
    assert_eq!(post.body, "B");
    assert_eq!(post.created_at, 42);
    let found = Post::find(&store, &post.id).unwrap();
    assert_eq!(found.id, post.id);
    assert_eq!(found.title, "T");
    assert_eq!(found.body, "B");
    assert_eq!(found.created_at, 42);
}

#[test]
fn created_ids_are_distinct() {
    let mut store = Store::new();
    let a = Post::create(&mut store, "first", "a").unwrap();
    let b = Post::create(&mut store, "second", "b").unwrap();
    let c = Post::create(&mut store, "third", "c").unwrap();
    assert_ne!(a.id, b.id);
    assert_ne!(a.id, c.id);
    assert_ne!(b.id, c.id);
}

#[test]
fn find_with_invalid_id_is_not_found() {
    let store = Store::new();
    assert!(matches!(Post::find(&store, ""), Err(Error::NotFound)));
    assert!(matches!(Post::find(&store, "not-an-identifier"), Err(Error::NotFound)));
}

#[test]
fn find_unknown_id_is_not_found() {
    let mut store = Store::new();
    Post::create(&mut store, "T", "B").unwrap();
    let r = Post::find(&store, "ffffffff-ffff-ffff-ffff-ffffffffffff");
    assert!(matches!(r, Err(Error::NotFound)));
}

#[test]
fn destroy_then_find_is_not_found() {
    let mut store = Store::new();
    let post = Post::create(&mut store, "T", "B").unwrap();
    post.destroy(&mut store).unwrap();
    assert!(matches!(Post::find(&store, &post.id), Err(Error::NotFound)));
}

#[test]
fn destroy_keeps_other_posts() {
    let mut store = Store::new();
    let a = Post::create(&mut store, "keep", "a").unwrap();
    let b = Post::create(&mut store, "drop", "b").unwrap();
    b.destroy(&mut store).unwrap();
    let kept = Post::find(&store, &a.id).unwrap();
    assert_eq!(kept.title, "keep");
    assert_eq!(Post::find_all(&store).unwrap().len(), 1);
}

#[test]
fn destroy_unknown_id_is_not_found() {
    let mut store = Store::new();
    let post = Post::create(&mut store, "T", "B").unwrap();
    post.destroy(&mut store).unwrap();
    assert!(matches!(post.destroy(&mut store), Err(Error::NotFound)));
}

#[test]
fn destroy_malformed_id_is_not_found() {
    let mut store = Store::new();
    let stray = Post {
        id: String::from("xyz"),
        title: String::new(),
        body: String::new(),
        created_at: 0,
    };
    assert!(matches!(stray.destroy(&mut store), Err(Error::NotFound)));
}

#[test]
fn find_all_contains_every_created_post() {
    let mut store = Store::new();
    let mut ids = Vec::new();
    for k in 0..5 {
        let title = format!("title {k}");
        let post = Post::create(&mut store, &title, "body").unwrap();
        ids.push(post.id);
    }
    let listed = Post::find_all(&store).unwrap();
    assert!(listed.len() >= 5);
    for id in &ids {
        assert!(listed.iter().any(|p| &p.id == id));
    }
}

#[test]
fn update_replaces_title_and_body_only() {
    let mut store = Store::new();
    store.set_clock(7);
    let post = Post::create(&mut store, "old title", "old body").unwrap();
    store.set_clock(8);
    post.update(&mut store, "new title", "new body").unwrap();
    let found = Post::find(&store, &post.id).unwrap();
    assert_eq!(found.id, post.id);
    assert_eq!(found.title, "new title");
    assert_eq!(found.body, "new body");
    assert_eq!(found.created_at, 7);
}

#[test]
fn update_unknown_id_is_not_found() {
    let mut store = Store::new();
    let post = Post::create(&mut store, "T", "B").unwrap();
    post.destroy(&mut store).unwrap();
    assert!(matches!(post.update(&mut store, "x", "y"), Err(Error::NotFound)));
}

#[test]
fn create_fails_when_identifier_space_is_exhausted() {
    let mut store = Store::new();
    store.next_id = u128::MAX;
    assert!(matches!(Post::create(&mut store, "T", "B"), Err(Error::StoreError)));
}

#[test]
fn uuid_of_created_post_parses() {
    let mut store = Store::new();
    let post = Post::create(&mut store, "T", "B").unwrap();
    assert_eq!(post.uuid().unwrap(), 0);
    let second = Post::create(&mut store, "T", "B").unwrap();
    assert_eq!(second.uuid().unwrap(), 1);
}

#[test]
fn uuid_of_malformed_id_is_not_found() {
    let stray = Post {
        id: String::from("0000"),
        title: String::new(),
        body: String::new(),
        created_at: 0,
    };
    assert!(matches!(stray.uuid(), Err(Error::NotFound)));
}

#[test]
fn duplicate_copies_every_field() {
    let mut store = Store::new();
    store.set_clock(3);
    let post = Post::create(&mut store, "T", "B").unwrap();
    let copy = post.duplicate();
    assert_eq!(copy.id, post.id);
    assert_eq!(copy.title, post.title);
    assert_eq!(copy.body, post.body);
    assert_eq!(copy.created_at, post.created_at);
}

#[test]
fn error_status_codes() {
    assert_eq!(Error::NotFound.status_code(), 404);
    assert_eq!(Error::StoreError.status_code(), 500);
    assert_eq!(Error::RenderError.status_code(), 500);
    assert_eq!(Error::Unimplemented.status_code(), 500);
}
