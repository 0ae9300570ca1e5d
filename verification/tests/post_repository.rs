use content_repo::db::connection::Database;
use content_repo::db::error::DatabaseError;
use content_repo::db::post_repository::PostRepository;
use content_repo::models::post::{CreatePost, PatchPost, PostCategory, UpdatePost};

fn create_test_post() -> CreatePost {
    CreatePost {
        category: PostCategory::Blog,
        title: "Test Post".to_string(),
        slug: "test-post".to_string(),
        content: "Test content".to_string(),
        description: "Test description".to_string(),
        image_url: None,
        external_url: None,
        published: true,
    }
}

fn setup() -> (Database, PostRepository) {
    let db = Database::new();
    let repo = db.posts();
    (db, repo)
}

#[test]
fn test_create_post() {
    let (mut db, repo) = setup();
    let post_data = create_test_post();

    // Test successful creation
    let post = repo.create(&mut db, post_data.clone());
    assert!(post.is_ok());
    let post = post.unwrap();
    assert_eq!(post.title, "Test Post");
    assert_eq!(post.slug, "test-post");

    // Test duplicate slug
    let duplicate = repo.create(&mut db, post_data);
    assert!(matches!(
        duplicate.unwrap_err(),
        DatabaseError::DuplicateEntry(_)
    ));

    // Test empty title
    let mut invalid = create_test_post();
    invalid.title = "".to_string();
    assert!(matches!(
        repo.create(&mut db, invalid).unwrap_err(),
        DatabaseError::Validation(_)
    ));
}

#[test]
fn post_repository_test_find_by_id() {
    let (mut db, repo) = setup();

    // Create test post
    let created = repo.create(&mut db, create_test_post()).unwrap();

    // Test successful retrieval
    let found = repo.find_by_id(&db, created.id);
    assert!(found.is_ok());
    assert_eq!(found.unwrap().title, "Test Post");

    // Test non-existent ID
    let not_found = repo.find_by_id(&db, 999);
    assert!(matches!(not_found.unwrap_err(), DatabaseError::NotFound(_)));
}

#[test]
fn test_find_by_slug() {
    let (mut db, repo) = setup();

    // Create test post
    repo.create(&mut db, create_test_post()).unwrap();

    // Test successful retrieval
    let found = repo.find_by_slug(&db, "test-post");
    assert!(found.is_ok());

    // Test non-existent slug
    let not_found = repo.find_by_slug(&db, "nonexistent");
    assert!(matches!(not_found.unwrap_err(), DatabaseError::NotFound(_)));
}

#[test]
fn test_list_posts() {
    let (mut db, repo) = setup();

    // Create some test posts
    let mut post1 = create_test_post();
    post1.slug = "post-1".to_string();
    let mut post2 = create_test_post();
    post2.slug = "post-2".to_string();
    post2.category = PostCategory::Art;
    post2.published = false;

    repo.create(&mut db, post1).unwrap();
    repo.create(&mut db, post2).unwrap();

    // Test listing all posts
    let all_posts = repo.list(&db, None, false, 10, 0).unwrap();
    assert_eq!(all_posts.len(), 2);

    // Test category filter
    let blog_posts = repo
        .list(&db, Some(PostCategory::Blog), false, 10, 0)
        .unwrap();
    assert_eq!(blog_posts.len(), 1);

    // Test published filter
    let published = repo.list(&db, None, true, 10, 0).unwrap();
    assert_eq!(published.len(), 1);

    // Test pagination
    let paginated = repo.list(&db, None, false, 1, 1).unwrap();
    assert_eq!(paginated.len(), 1);

    // Test invalid pagination
    assert!(repo.list(&db, None, false, 0, 0).is_err());
    assert!(repo.list(&db, None, false, 10, -1).is_err());
}

#[test]
fn test_update_post() {
    let (mut db, repo) = setup();

    // Create initial post
    let created = repo.create(&mut db, create_test_post()).unwrap();

    // Test successful update
    let update = UpdatePost {
        id: created.id,
        category: PostCategory::Art,
        title: "Updated Title".to_string(),
        slug: "updated-slug".to_string(),
        content: "Updated content".to_string(),
        description: "Updated description".to_string(),
        image_url: Some("https://example.com/image.jpg".to_string()),
        external_url: Some("https://example.com".to_string()),
        published: false,
    };

    let updated = repo.update(&mut db, update.clone()).unwrap();
    assert_eq!(updated.title, "Updated Title");
    assert_eq!(updated.slug, "updated-slug");
    assert_eq!(updated.category, PostCategory::Art);
    assert!(!updated.published);

    // Test non-existent ID
    let mut invalid = update;
    invalid.id = 999;
    assert!(matches!(
        repo.update(&mut db, invalid).unwrap_err(),
        DatabaseError::NotFound(_)
    ));
}

#[test]
fn test_patch_post() {
    let (mut db, repo) = setup();

    // Create initial post
    let created = repo.create(&mut db, create_test_post()).unwrap();

    // Test partial update with only title
    let patch = PatchPost {
        id: created.id,
        title: Some("Patched Title".to_string()),
        category: None,
        slug: None,
        content: None,
        description: None,
        image_url: None,
        external_url: None,
        published: None,
    };

    let patched = repo.patch(&mut db, patch).unwrap();
    assert_eq!(patched.title, "Patched Title");
    // Other fields should remain unchanged
    assert_eq!(patched.slug, "test-post");
    assert_eq!(patched.category, PostCategory::Blog);
    assert!(patched.published);

    // Test patch with multiple fields
    let multi_patch = PatchPost {
        id: created.id,
        category: Some(PostCategory::Art),
        published: Some(false),
        ..Default::default()
    };

    let multi_patched = repo.patch(&mut db, multi_patch).unwrap();
    assert_eq!(multi_patched.category, PostCategory::Art);
    assert!(!multi_patched.published);
    // Unpatched fields should remain unchanged
    assert_eq!(multi_patched.title, "Patched Title");

    // Test non-existent ID
    let invalid_patch = PatchPost {
        id: 999,
        title: Some("Invalid".to_string()),
        ..Default::default()
    };
    assert!(matches!(
        repo.patch(&mut db, invalid_patch).unwrap_err(),
        DatabaseError::NotFound(_)
    ));
}

#[test]
fn test_patch_validates_present_fields() {
    let (mut db, repo) = setup();
    let created = repo.create(&mut db, create_test_post()).unwrap();

    // A blank title carried by the patch is rejected before anything is read
    let blank_title = PatchPost {
        id: created.id,
        title: Some("   ".to_string()),
        ..Default::default()
    };
    match repo.patch(&mut db, blank_title).unwrap_err() {
        DatabaseError::Validation(m) => assert_eq!(m, "Post title cannot be empty"),
        other => panic!("unexpected error: {:?}", other),
    }

    // A blank content likewise
    let blank_content = PatchPost {
        id: created.id,
        content: Some("".to_string()),
        ..Default::default()
    };
    match repo.patch(&mut db, blank_content).unwrap_err() {
        DatabaseError::Validation(m) => assert_eq!(m, "Post content cannot be empty"),
        other => panic!("unexpected error: {:?}", other),
    }

    // A malformed slug likewise
    let bad_slug = PatchPost {
        id: created.id,
        slug: Some("bad slug!".to_string()),
        ..Default::default()
    };
    match repo.patch(&mut db, bad_slug).unwrap_err() {
        DatabaseError::Validation(m) => assert_eq!(m, "Invalid slug format"),
        other => panic!("unexpected error: {:?}", other),
    }

    // A non-positive id is bad input, not a missing row
    let bad_id = PatchPost {
        id: 0,
        title: Some("X".to_string()),
        ..Default::default()
    };
    match repo.patch(&mut db, bad_id).unwrap_err() {
        DatabaseError::Validation(m) => assert_eq!(m, "Post ID must be positive"),
        other => panic!("unexpected error: {:?}", other),
    }

    // None of the rejected patches touched the stored row
    let found = repo.find_by_id(&db, created.id).unwrap();
    assert_eq!(found.title, "Test Post");
    assert_eq!(found.content, "Test content");
    assert_eq!(found.slug, "test-post");
    assert_eq!(found.updated_at, created.updated_at);
}

#[test]
fn test_delete_post() {
    let (mut db, repo) = setup();

    // Create a post to delete
    let post = repo.create(&mut db, create_test_post()).unwrap();

    // Test successful deletion
    assert!(repo.delete(&mut db, post.id).is_ok());

    // Verify post is gone
    assert!(matches!(
        repo.find_by_id(&db, post.id).unwrap_err(),
        DatabaseError::NotFound(_)
    ));

    // Test deleting non-existent post
    assert!(matches!(
        repo.delete(&mut db, 999).unwrap_err(),
        DatabaseError::NotFound(_)
    ));
}

#[test]
fn test_create_then_find_returns_equal_record() {
    let (mut db, repo) = setup();

    let created = repo.create(&mut db, create_test_post()).unwrap();

    let by_id = repo.find_by_id(&db, created.id).unwrap();
    assert_eq!(by_id.id, created.id);
    assert_eq!(by_id.title, created.title);
    assert_eq!(by_id.slug, created.slug);
    assert_eq!(by_id.content, created.content);
    assert_eq!(by_id.description, created.description);
    assert_eq!(by_id.category, created.category);
    assert_eq!(by_id.published, created.published);
    assert_eq!(by_id.created_at, created.created_at);
    assert_eq!(by_id.updated_at, created.updated_at);

    let by_slug = repo.find_by_slug(&db, "test-post").unwrap();
    assert_eq!(by_slug.id, created.id);
    assert_eq!(by_slug.title, created.title);
    assert_eq!(by_slug.updated_at, created.updated_at);
}

#[test]
fn test_duplicate_slug_leaves_first_post_unchanged() {
    let (mut db, repo) = setup();

    let first = repo.create(&mut db, create_test_post()).unwrap();

    let mut second = create_test_post();
    second.title = "Second Post".to_string();
    let err = repo.create(&mut db, second).unwrap_err();
    assert!(matches!(err, DatabaseError::DuplicateEntry(_)));

    // The first post is untouched
    let found = repo.find_by_id(&db, first.id).unwrap();
    assert_eq!(found.title, "Test Post");
    assert_eq!(found.updated_at, first.updated_at);

    // And no second row appeared
    let all_posts = repo.list(&db, None, false, 10, 0).unwrap();
    assert_eq!(all_posts.len(), 1);
}

#[test]
fn test_patch_strictly_advances_updated_at() {
    let (mut db, repo) = setup();

    let created = repo.create(&mut db, create_test_post()).unwrap();
    let patch = PatchPost {
        id: created.id,
        title: Some("X".to_string()),
        ..Default::default()
    };
    let patched = repo.patch(&mut db, patch).unwrap();
    assert!(patched.updated_at > created.updated_at);
    assert_eq!(patched.created_at, created.created_at);
    assert_eq!(patched.id, created.id);
    assert_eq!(patched.title, "X");
    assert_eq!(patched.slug, created.slug);
}

#[test]
fn test_list_limits_and_ordering() {
    let (mut db, repo) = setup();

    for i in 0..5 {
        let mut p = create_test_post();
        p.slug = format!("post-{}", i);
        repo.create(&mut db, p).unwrap();
    }

    // Validation errors at the limit boundaries
    assert!(matches!(
        repo.list(&db, None, false, 0, 0).unwrap_err(),
        DatabaseError::Validation(_)
    ));
    assert!(matches!(
        repo.list(&db, None, false, 101, 0).unwrap_err(),
        DatabaseError::Validation(_)
    ));

    // limit=100 returns everything that exists, and no more than asked
    let all = repo.list(&db, None, false, 100, 0).unwrap();
    assert_eq!(all.len(), 5);

    // Newest first
    assert_eq!(all[0].slug, "post-4");
    assert_eq!(all[4].slug, "post-0");

    // Pagination slices the newest-first order
    let page = repo.list(&db, None, false, 2, 1).unwrap();
    assert_eq!(page.len(), 2);
    assert_eq!(page[0].slug, "post-3");
    assert_eq!(page[1].slug, "post-2");
}

#[test]
fn test_list_caps_at_limit_even_when_more_exist() {
    let (mut db, repo) = setup();

    for i in 0..105 {
        let mut p = create_test_post();
        p.slug = format!("post-{}", i);
        repo.create(&mut db, p).unwrap();
    }

    let page = repo.list(&db, None, false, 100, 0).unwrap();
    assert_eq!(page.len(), 100);
    assert_eq!(page[0].slug, "post-104");
    assert_eq!(page[99].slug, "post-5");

    // The rest is reachable through the offset
    let tail = repo.list(&db, None, false, 100, 100).unwrap();
    assert_eq!(tail.len(), 5);
    assert_eq!(tail[4].slug, "post-0");
}

#[test]
fn test_validation_message_names_the_rule() {
    let (mut db, repo) = setup();
    let mut invalid = create_test_post();
    invalid.title = "   ".to_string();
    match repo.create(&mut db, invalid).unwrap_err() {
        DatabaseError::Validation(m) => assert_eq!(m, "Post title cannot be empty"),
        other => panic!("unexpected error: {:?}", other),
    }

    let mut bad_slug = create_test_post();
    bad_slug.slug = "-leading".to_string();
    match repo.create(&mut db, bad_slug).unwrap_err() {
        DatabaseError::Validation(m) => assert_eq!(m, "Invalid slug format"),
        other => panic!("unexpected error: {:?}", other),
    }
}

#[test]
fn test_not_found_message_carries_the_id() {
    let (db, repo) = setup();
    match repo.find_by_id(&db, 999).unwrap_err() {
        DatabaseError::NotFound(m) => {
            assert_eq!(m, "Post with identifier '999' not found");
        }
        other => panic!("unexpected error: {:?}", other),
    }
    match repo.find_by_id(&db, -3).unwrap_err() {
        DatabaseError::NotFound(m) => {
            assert_eq!(m, "Post with identifier '-3' not found");
        }
        other => panic!("unexpected error: {:?}", other),
    }
}

#[test]
fn test_duplicate_message_carries_the_slug() {
    let (mut db, repo) = setup();
    repo.create(&mut db, create_test_post()).unwrap();
    match repo.create(&mut db, create_test_post()).unwrap_err() {
        DatabaseError::DuplicateEntry(m) => {
            assert_eq!(m, "Post with identifier 'test-post' already exists");
        }
        other => panic!("unexpected error: {:?}", other),
    }
}

#[test]
fn test_update_slug_conflict_with_other_row() {
    let (mut db, repo) = setup();
    let first = repo.create(&mut db, create_test_post()).unwrap();
    let mut other = create_test_post();
    other.slug = "other-post".to_string();
    let second = repo.create(&mut db, other).unwrap();

    // Taking the first post's slug is a conflict
    let update = UpdatePost {
        id: second.id,
        category: PostCategory::Blog,
        title: "Second".to_string(),
        slug: "test-post".to_string(),
        content: "Content".to_string(),
        description: "Description".to_string(),
        image_url: None,
        external_url: None,
        published: true,
    };
    assert!(matches!(
        repo.update(&mut db, update).unwrap_err(),
        DatabaseError::DuplicateEntry(_)
    ));

    // Keeping one's own slug is not
    let keep = UpdatePost {
        id: first.id,
        category: PostCategory::Blog,
        title: "Renamed".to_string(),
        slug: "test-post".to_string(),
        content: "Content".to_string(),
        description: "Description".to_string(),
        image_url: None,
        external_url: None,
        published: true,
    };
    assert!(repo.update(&mut db, keep).is_ok());
}
