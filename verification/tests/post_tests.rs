use auth_core::authz::authorize_mutation;
use auth_core::errors::ErrorKind;
use auth_core::posts::{
    create_post_at, create_slug, page_defaults, scrub_owners, update_post_at, CreatePostSchema,
    GetPostsPaginatedSchema, Post, UpdatePostSchema,
};
use auth_core::store::Store;

fn body(title: &str) -> CreatePostSchema {
    CreatePostSchema {
        title: title.to_string(),
        content: "content".to_string(),
        photo: "p.png".to_string(),
    }
}

fn update_body(id: u128, title: &str) -> UpdatePostSchema {
    UpdatePostSchema {
        id,
        title: title.to_string(),
        content: "new content".to_string(),
        photo: "p2.png".to_string(),
    }
}

#[test]
fn slug_lowercases_hyphenates_and_strips() {
    assert_eq!(create_slug("Hello World!"), "hello-world");
    assert_eq!(create_slug("A (B) c?"), "a-b-c");
    assert_eq!(create_slug("Rust & Verus: 100%"), "rust--verus-100");
    assert_eq!(create_slug(""), "");
}

#[test]
fn ownership_is_the_whole_rule() {
    assert!(authorize_mutation(5, 5));
    assert!(!authorize_mutation(6, 5));
    assert!(!authorize_mutation(0, 5));
}

#[test]
fn owner_updates_and_stranger_is_unauthorized() {
    let mut store = Store::new();
    let a: u128 = 1;
    let b: u128 = 2;
    let created = create_post_at(&mut store, a, body("My First Post"), 10, 100).unwrap();
    assert_eq!(created.created_at, Some(100));
    assert_eq!(created.updated_at, Some(100));
    assert_eq!(created.slug.as_deref(), Some("my-first-post"));

    let e = update_post_at(&mut store, b, update_body(10, "Taken Over"), 150).unwrap_err();
    assert_eq!(e, ErrorKind::Unauthorized);

    let updated = update_post_at(&mut store, a, update_body(10, "My First Post, Revised"), 200)
        .unwrap();
    assert_eq!(updated.created_at, Some(100));
    assert_eq!(updated.updated_at, Some(200));
    assert_eq!(updated.title, "My First Post, Revised");

    let stored = Post::get_by_id(10, &store).unwrap();
    assert_eq!(stored.created_at, Some(100));
    assert_eq!(stored.updated_at, Some(200));
}

#[test]
fn create_rejects_empty_fields() {
    let mut store = Store::new();
    let empty = CreatePostSchema {
        title: "".to_string(),
        content: "c".to_string(),
        photo: "p".to_string(),
    };
    assert_eq!(create_post_at(&mut store, 1, empty, 10, 100).unwrap_err(), ErrorKind::Malformed);
}

#[test]
fn create_refuses_duplicate_id() {
    let mut store = Store::new();
    create_post_at(&mut store, 1, body("One"), 10, 100).unwrap();
    assert_eq!(
        create_post_at(&mut store, 1, body("Two"), 10, 100).unwrap_err(),
        ErrorKind::StoreFailure
    );
}

#[test]
fn update_missing_post_is_not_found() {
    let mut store = Store::new();
    assert_eq!(
        update_post_at(&mut store, 1, update_body(10, "T"), 100).unwrap_err(),
        ErrorKind::NotFound
    );
}

#[test]
fn update_rejects_nil_id_and_empty_fields() {
    let mut store = Store::new();
    assert_eq!(
        update_post_at(&mut store, 1, update_body(0, "T"), 100).unwrap_err(),
        ErrorKind::Malformed
    );
    let mut bad = update_body(10, "T");
    bad.content = "".to_string();
    assert_eq!(update_post_at(&mut store, 1, bad, 100).unwrap_err(), ErrorKind::Malformed);
}

#[test]
fn delete_removes_the_post() {
    let mut store = Store::new();
    create_post_at(&mut store, 1, body("One"), 10, 100).unwrap();
    let gone = Post::delete(10, &mut store).unwrap();
    assert_eq!(gone.id, 10);
    assert_eq!(Post::get_by_id(10, &store).unwrap_err(), ErrorKind::NotFound);
    assert_eq!(Post::delete(10, &mut store).unwrap_err(), ErrorKind::NotFound);
}

#[test]
fn find_all_pages_newest_first() {
    let mut store = Store::new();
    create_post_at(&mut store, 1, body("One"), 10, 100).unwrap();
    create_post_at(&mut store, 1, body("Two"), 11, 200).unwrap();
    create_post_at(&mut store, 1, body("Three"), 12, 300).unwrap();

    let page1 = Post::find_all(&store, 1, 2).unwrap();
    assert_eq!(page1.len(), 2);
    assert_eq!(page1[0].id, 12);
    assert_eq!(page1[1].id, 11);

    let page2 = Post::find_all(&store, 2, 2).unwrap();
    assert_eq!(page2.len(), 1);
    assert_eq!(page2[0].id, 10);

    let page3 = Post::find_all(&store, 3, 2).unwrap();
    assert_eq!(page3.len(), 0);
}

#[test]
fn listing_scrubs_owner_ids() {
    let mut store = Store::new();
    create_post_at(&mut store, 7, body("One"), 10, 100).unwrap();
    let listed = scrub_owners(Post::find_all(&store, 1, 10).unwrap());
    assert_eq!(listed.len(), 1);
    assert_eq!(listed[0].user_id, 0);
    assert_eq!(listed[0].id, 10);
}

#[test]
fn pagination_defaults_are_page_one_of_ten() {
    let q = GetPostsPaginatedSchema { page: None, per_page: None };
    assert_eq!(page_defaults(&q), (1, 10));
    let q2 = GetPostsPaginatedSchema { page: Some(3), per_page: Some(25) };
    assert_eq!(page_defaults(&q2), (3, 25));
}

#[test]
fn create_and_update_through_drawn_id_and_clock() {
    let mut store = Store::new();
    let p = auth_core::posts::create_post(&mut store, 5, body("Drawn Post")).unwrap();
    assert_eq!(p.user_id, 5);
    assert_eq!(p.slug.as_deref(), Some("drawn-post"));
    let u = auth_core::posts::update_post(&mut store, 5, update_body(p.id, "Drawn, Revised"))
        .unwrap();
    assert_eq!(u.created_at, p.created_at);
    assert_eq!(u.title, "Drawn, Revised");
    assert_eq!(
        auth_core::posts::update_post(&mut store, 6, update_body(p.id, "Stolen")).unwrap_err(),
        ErrorKind::Unauthorized
    );
}

#[test]
fn get_owner_reports_the_owning_identity() {
    let mut store = Store::new();
    create_post_at(&mut store, 9, body("One"), 10, 100).unwrap();
    assert_eq!(auth_core::posts::get_owner(10, &store).unwrap(), 9);
    assert_eq!(auth_core::posts::get_owner(11, &store).unwrap_err(), ErrorKind::NotFound);
}
