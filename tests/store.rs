use blog_backend::error::ErrorKind;
use blog_backend::model::PostDetail;
use blog_backend::store::PostStore;

fn names(v: &[&str]) -> Option<Vec<String>> {
    Some(v.iter().map(|s| s.to_string()).collect())
}

fn tags_of(store: &PostStore, id: i64) -> Vec<String> {
    store.fetch_detail(id).unwrap().tags.unwrap()
}

fn sorted(mut v: Vec<String>) -> Vec<String> {
    v.sort();
    v
}

fn save(store: &mut PostStore, id: i64, tags: &[&str]) -> Result<PostDetail, ErrorKind> {
    store.save(
        id,
        "Title".to_string(),
        "body".to_string(),
        "<p>body</p>".to_string(),
        names(tags),
        100,
    )
}

#[test]
fn scenario_draft_save_fetch() {
    let mut store = PostStore::with_next_post_id(7);
    let id = store.create_draft(50).unwrap();
    assert_eq!(id, 7);
    let saved = store
        .save(
            7,
            "Hi".to_string(),
            "# Hi".to_string(),
            "<h1>Hi</h1>".to_string(),
            names(&["go"]),
            60,
        )
        .unwrap();
    assert_eq!(saved.id, 7);
    assert_eq!(saved.title, "Hi");
    assert_eq!(saved.content, "<h1>Hi</h1>");
    assert_eq!(saved.tags, names(&["go"]));
    assert_eq!(saved.created_at, 50);
    assert_eq!(saved.updated_at, Some(60));
    let fetched = store.fetch_detail(7).unwrap();
    assert_eq!(fetched, saved);
}

#[test]
fn drafts_get_consecutive_ids_and_start_empty() {
    let mut store = PostStore::new();
    assert_eq!(store.create_draft(10), Ok(1));
    assert_eq!(store.create_draft(11), Ok(2));
    let d = store.fetch_detail(2).unwrap();
    assert_eq!(d.id, 2);
    assert_eq!(d.title, "");
    assert_eq!(d.content, "");
    assert_eq!(d.tags, Some(vec![]));
    assert_eq!(d.created_at, 11);
    assert_eq!(d.updated_at, None);
    assert_eq!(store.posts[1].markdown_content, "");
}

#[test]
fn draft_fails_when_ids_run_out() {
    let mut store = PostStore::with_next_post_id(i64::MAX);
    assert_eq!(store.create_draft(1), Err(ErrorKind::InternalServerError));
    assert!(store.posts.is_empty());
}

#[test]
fn fetch_returns_the_saved_rendering() {
    let mut store = PostStore::new();
    let id = store.create_draft(1).unwrap();
    store
        .save(id, "T".to_string(), "*x*".to_string(), "<p><em>x</em></p>".to_string(), None, 2)
        .unwrap();
    let d = store.fetch_detail(id).unwrap();
    assert_eq!(d.content, "<p><em>x</em></p>");
    assert_eq!(store.posts[0].markdown_content, "*x*");
    assert_eq!(d.title, "T");
    assert_eq!(d.updated_at, Some(2));
}

#[test]
fn saving_twice_changes_nothing_more() {
    let mut store = PostStore::new();
    let id = store.create_draft(1).unwrap();
    let first = save(&mut store, id, &["a", "b"]).unwrap();
    let tags_after_first = store.tags.len();
    let usages_after_first = store.usages.clone();
    let second = save(&mut store, id, &["a", "b"]).unwrap();
    assert_eq!(first, second);
    assert_eq!(store.tags.len(), tags_after_first);
    assert_eq!(store.tags.len(), 2);
    assert_eq!(store.usages, usages_after_first);
    assert_eq!(store.usages.len(), 2);
}

#[test]
fn fetched_tags_are_the_saved_set() {
    let mut store = PostStore::new();
    let id = store.create_draft(1).unwrap();
    save(&mut store, id, &["a", "b"]).unwrap();
    assert_eq!(sorted(tags_of(&store, id)), vec!["a".to_string(), "b".to_string()]);
}

#[test]
fn dropped_tag_leaves_other_posts_alone() {
    let mut store = PostStore::new();
    let one = store.create_draft(1).unwrap();
    let two = store.create_draft(1).unwrap();
    save(&mut store, one, &["a", "b"]).unwrap();
    save(&mut store, two, &["a"]).unwrap();
    save(&mut store, one, &["b"]).unwrap();
    assert_eq!(tags_of(&store, one), vec!["b".to_string()]);
    assert_eq!(tags_of(&store, two), vec!["a".to_string()]);
    assert!(store.tags.iter().any(|t| t.name == "a"));
    assert_eq!(store.tags.len(), 2);
}

#[test]
fn shared_tag_is_created_once() {
    let mut store = PostStore::new();
    let one = store.create_draft(1).unwrap();
    let two = store.create_draft(1).unwrap();
    save(&mut store, one, &["rust"]).unwrap();
    save(&mut store, two, &["rust", "go"]).unwrap();
    assert_eq!(store.tags.len(), 2);
    let rust_id = store.tags.iter().find(|t| t.name == "rust").unwrap().id;
    assert_eq!(store.usages.iter().filter(|u| u.tag_id == rust_id).count(), 2);
}

#[test]
fn repeated_name_gives_one_usage() {
    let mut store = PostStore::new();
    let id = store.create_draft(1).unwrap();
    save(&mut store, id, &["a", "a"]).unwrap();
    assert_eq!(store.tags.len(), 1);
    assert_eq!(store.usages.len(), 1);
    assert_eq!(tags_of(&store, id), vec!["a".to_string()]);
}

#[test]
fn save_without_tags_keeps_them() {
    let mut store = PostStore::new();
    let id = store.create_draft(1).unwrap();
    save(&mut store, id, &["keep"]).unwrap();
    let d = store
        .save(id, "New".to_string(), "m".to_string(), "r".to_string(), None, 9)
        .unwrap();
    assert_eq!(d.tags, names(&["keep"]));
    assert_eq!(d.title, "New");
    assert_eq!(tags_of(&store, id), vec!["keep".to_string()]);
}

#[test]
fn empty_tag_list_removes_all_tags() {
    let mut store = PostStore::new();
    let id = store.create_draft(1).unwrap();
    save(&mut store, id, &["x", "y"]).unwrap();
    save(&mut store, id, &[]).unwrap();
    assert!(tags_of(&store, id).is_empty());
    assert!(store.usages.is_empty());
    assert_eq!(store.tags.len(), 2);
}

#[test]
fn save_of_unknown_post_is_business_error() {
    let mut store = PostStore::new();
    let r = save(&mut store, 42, &["a"]);
    assert_eq!(r, Err(ErrorKind::BusinessException("post not found".to_string())));
    assert!(store.tags.is_empty());
    assert_eq!(r.unwrap_err().http_status(), 400);
}

#[test]
fn fetch_of_unknown_post_is_business_error() {
    let store = PostStore::new();
    assert_eq!(
        store.fetch_detail(3),
        Err(ErrorKind::BusinessException("post not found".to_string()))
    );
}

#[test]
fn created_at_survives_saves() {
    let mut store = PostStore::new();
    let id = store.create_draft(123).unwrap();
    save(&mut store, id, &[]).unwrap();
    assert_eq!(store.fetch_detail(id).unwrap().created_at, 123);
}

#[test]
fn fetched_tags_follow_usage_rows() {
    let mut store = PostStore::new();
    let id = store.create_draft(1).unwrap();
    save(&mut store, id, &["b", "a"]).unwrap();
    assert_eq!(tags_of(&store, id), vec!["b".to_string(), "a".to_string()]);
    let d = save(&mut store, id, &["c", "a"]).unwrap();
    assert_eq!(d.tags, names(&["c", "a"]));
    assert_eq!(tags_of(&store, id), vec!["a".to_string(), "c".to_string()]);
}
