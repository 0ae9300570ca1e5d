use content_repo::db::connection::Database;
use content_repo::db::error::DatabaseError;
use content_repo::db::tag_repository::TagRepository;
use content_repo::models::post::{CreatePost, PostCategory};

fn setup() -> (Database, TagRepository) {
    let db = Database::new();
    let repo = db.tags();
    (db, repo)
}

fn create_test_post() -> CreatePost {
    CreatePost {
        category: PostCategory::Blog,
        title: "Test Post".to_string(),
        slug: "test-post".to_string(),
        content: "Test content".to_string(),
        description: "Test description".to_string(),
        image_url: None,
        external_url: None,
        published: true,
    }
}

#[test]
fn tag_repository_test_create_tag() {
    let (mut db, repo) = setup();

    // Test successful creation
    let tag = repo.create(&mut db, "rust");
    assert!(tag.is_ok());
    let tag = tag.unwrap();
    assert_eq!(tag.name, "rust");

    // Test duplicate tag
    let duplicate = repo.create(&mut db, "rust");
    assert!(matches!(
        duplicate.unwrap_err(),
        DatabaseError::DuplicateEntry(_)
    ));

    // Test empty tag name
    let empty = repo.create(&mut db, "");
    assert!(matches!(empty.unwrap_err(), DatabaseError::Validation(_)));

    // Test whitespace handling
    let trimmed = repo.create(&mut db, "  python  ").unwrap();
    assert_eq!(trimmed.name, "python");
}

#[test]
fn tag_repository_test_find_by_id() {
    let (mut db, repo) = setup();

    // Create a test tag
    let created = repo.create(&mut db, "test-tag").unwrap();

    // Test successful retrieval
    let found = repo.find_by_id(&db, created.id);
    assert!(found.is_ok());
    assert_eq!(found.unwrap().name, "test-tag");

    // Test non-existent ID
    let not_found = repo.find_by_id(&db, 999);
    assert!(matches!(not_found.unwrap_err(), DatabaseError::NotFound(_)));
}

#[test]
fn test_find_by_name() {
    let (mut db, repo) = setup();

    // Create a test tag
    repo.create(&mut db, "findme").unwrap();

    // Test successful retrieval
    let found = repo.find_by_name(&db, "findme");
    assert!(found.is_ok());

    // Test non-existent name
    let not_found = repo.find_by_name(&db, "nonexistent");
    assert!(matches!(not_found.unwrap_err(), DatabaseError::NotFound(_)));
}

#[test]
fn tag_repository_test_list_tags() {
    let (mut db, repo) = setup();

    // Create some test tags
    repo.create(&mut db, "tag1").unwrap();
    repo.create(&mut db, "tag2").unwrap();

    // Test listing without post count
    let tags = repo.list(&db, false).unwrap();
    assert_eq!(tags.len(), 2);
    assert_eq!(tags[0].post_count, 0);

    // Test listing with post count
    let tags_with_count = repo.list(&db, true).unwrap();
    assert_eq!(tags_with_count.len(), 2);
}

#[test]
fn tag_repository_test_update_tag() {
    let (mut db, repo) = setup();

    // Create initial tag
    let tag = repo.create(&mut db, "initial").unwrap();

    // Test successful update
    let updated = repo.update(&mut db, tag.id, "updated");
    assert!(updated.is_ok());
    assert_eq!(updated.unwrap().name, "updated");

    // Test non-existent ID
    let not_found = repo.update(&mut db, 999, "test");
    assert!(matches!(not_found.unwrap_err(), DatabaseError::NotFound(_)));

    // Test duplicate name
    repo.create(&mut db, "existing").unwrap();
    let duplicate = repo.update(&mut db, tag.id, "existing");
    assert!(matches!(
        duplicate.unwrap_err(),
        DatabaseError::DuplicateEntry(_)
    ));
}

#[test]
fn tag_repository_test_delete_tag() {
    let (mut db, repo) = setup();

    // Create a tag to delete
    let tag = repo.create(&mut db, "delete-me").unwrap();

    // Test successful deletion
    assert!(repo.delete(&mut db, tag.id).is_ok());

    // Verify tag is gone
    assert!(matches!(
        repo.find_by_id(&db, tag.id).unwrap_err(),
        DatabaseError::NotFound(_)
    ));

    // Test deleting non-existent tag
    assert!(matches!(
        repo.delete(&mut db, 999).unwrap_err(),
        DatabaseError::NotFound(_)
    ));
}

#[test]
fn test_tag_post_associations() {
    let (mut db, repo) = setup();

    // Create test data
    let tag = repo.create(&mut db, "test-tag").unwrap();
    let post = db.posts().create(&mut db, create_test_post()).unwrap();

    // Test adding tag to post
    assert!(repo.add_tag_to_post(&mut db, post.id, tag.id).is_ok());

    // Test duplicate association
    assert!(matches!(
        repo.add_tag_to_post(&mut db, post.id, tag.id).unwrap_err(),
        DatabaseError::DuplicateEntry(_)
    ));

    // Test listing tags for post
    let post_tags = repo.list_tags_for_post(&db, post.id).unwrap();
    assert_eq!(post_tags.len(), 1);
    assert_eq!(post_tags[0].id, tag.id);

    // Test removing tag from post
    assert!(repo.remove_tag_from_post(&mut db, post.id, tag.id).is_ok());

    // Verify tag is removed
    let post_tags = repo.list_tags_for_post(&db, post.id).unwrap();
    assert!(post_tags.is_empty());

    // Test removing non-existent association
    assert!(matches!(
        repo.remove_tag_from_post(&mut db, post.id, 999).unwrap_err(),
        DatabaseError::NotFound(_)
    ));
}

#[test]
fn test_trimmed_tag_found_by_exact_name() {
    let (mut db, repo) = setup();

    // Created with surrounding whitespace, stored trimmed
    let created = repo.create(&mut db, "  python  ").unwrap();
    assert_eq!(created.name, "python");

    // Fetching the exact trimmed name returns the record
    let found = repo.find_by_name(&db, "python").unwrap();
    assert_eq!(found.id, created.id);
    assert_eq!(found.name, "python");

    // Creating the trimmed form again conflicts
    assert!(matches!(
        repo.create(&mut db, "python").unwrap_err(),
        DatabaseError::DuplicateEntry(_)
    ));
}

#[test]
fn test_delete_post_cascades_associations() {
    let (mut db, repo) = setup();

    let post = db.posts().create(&mut db, create_test_post()).unwrap();
    let tag1 = repo.create(&mut db, "tag1").unwrap();
    let tag2 = repo.create(&mut db, "tag2").unwrap();
    repo.add_tag_to_post(&mut db, post.id, tag1.id).unwrap();
    repo.add_tag_to_post(&mut db, post.id, tag2.id).unwrap();

    // Both associations are visible beforehand
    assert_eq!(repo.list_tags_for_post(&db, post.id).unwrap().len(), 2);

    // Deleting the post removes them with it
    db.posts().delete(&mut db, post.id).unwrap();
    assert!(repo.list_tags_for_post(&db, post.id).unwrap().is_empty());

    // The counted listing confirms no association survived
    let tags = repo.list(&db, true).unwrap();
    assert_eq!(tags.len(), 2);
    assert_eq!(tags[0].post_count, 0);
    assert_eq!(tags[1].post_count, 0);
}

#[test]
fn test_delete_tag_cascades_associations() {
    let (mut db, repo) = setup();

    let post = db.posts().create(&mut db, create_test_post()).unwrap();
    let tag = repo.create(&mut db, "doomed").unwrap();
    repo.add_tag_to_post(&mut db, post.id, tag.id).unwrap();

    repo.delete(&mut db, tag.id).unwrap();
    assert!(repo.list_tags_for_post(&db, post.id).unwrap().is_empty());
}

#[test]
fn test_add_tag_with_missing_endpoint_creates_nothing() {
    let (mut db, repo) = setup();

    let post = db.posts().create(&mut db, create_test_post()).unwrap();

    // 999 names no tag: NotFound, and no association row appears
    let err = repo.add_tag_to_post(&mut db, post.id, 999).unwrap_err();
    match err {
        DatabaseError::NotFound(m) => {
            assert_eq!(m, format!("Post or Tag with identifier '{}, 999' not found", post.id));
        }
        other => panic!("unexpected error: {:?}", other),
    }
    assert!(repo.list_tags_for_post(&db, post.id).unwrap().is_empty());

    // A missing post is refused the same way
    let tag = repo.create(&mut db, "real").unwrap();
    assert!(matches!(
        repo.add_tag_to_post(&mut db, 888, tag.id).unwrap_err(),
        DatabaseError::NotFound(_)
    ));
    let tags = repo.list(&db, true).unwrap();
    assert_eq!(tags[0].post_count, 0);
}

#[test]
fn test_tags_listed_in_name_order() {
    let (mut db, repo) = setup();

    repo.create(&mut db, "zebra").unwrap();
    repo.create(&mut db, "alpha").unwrap();
    repo.create(&mut db, "mango").unwrap();

    let tags = repo.list(&db, false).unwrap();
    assert_eq!(tags.len(), 3);
    assert_eq!(tags[0].name, "alpha");
    assert_eq!(tags[1].name, "mango");
    assert_eq!(tags[2].name, "zebra");

    // Renaming keeps the order
    let alpha = repo.find_by_name(&db, "alpha").unwrap();
    repo.update(&mut db, alpha.id, "omega").unwrap();
    let tags = repo.list(&db, false).unwrap();
    assert_eq!(tags[0].name, "mango");
    assert_eq!(tags[1].name, "omega");
    assert_eq!(tags[2].name, "zebra");
}

#[test]
fn test_post_counts_reflect_associations() {
    let (mut db, repo) = setup();

    let mut p1 = create_test_post();
    p1.slug = "first".to_string();
    let mut p2 = create_test_post();
    p2.slug = "second".to_string();
    let post1 = db.posts().create(&mut db, p1).unwrap();
    let post2 = db.posts().create(&mut db, p2).unwrap();
    let busy = repo.create(&mut db, "busy").unwrap();
    let idle = repo.create(&mut db, "idle").unwrap();
    repo.add_tag_to_post(&mut db, post1.id, busy.id).unwrap();
    repo.add_tag_to_post(&mut db, post2.id, busy.id).unwrap();

    let tags = repo.list(&db, true).unwrap();
    assert_eq!(tags.len(), 2);
    assert_eq!(tags[0].name, "busy");
    assert_eq!(tags[0].post_count, 2);
    assert_eq!(tags[1].name, "idle");
    assert_eq!(tags[1].post_count, 0);

    // Without the count the listing reports zero for everyone
    let plain = repo.list(&db, false).unwrap();
    assert_eq!(plain[0].post_count, 0);
}
