use content_repo::db::connection::Database;
use content_repo::db::error::DatabaseError;
use content_repo::handlers::post_handlers::{default_limit, list_posts, ApiError, ListPostsQuery};
use content_repo::handlers::tag_handlers::{create_tag, update_tag, TagRequest};
use content_repo::models::post::{CreatePost, PostCategory};

fn create_test_post() -> CreatePost {
    CreatePost {
        category: PostCategory::Blog,
        title: "Test Post".to_string(),
        slug: "test-post".to_string(),
        content: "Test content".to_string(),
        description: "Test description".to_string(),
        image_url: None,
        external_url: None,
        published: true,
    }
}

#[test]
fn test_default_limit() {
    assert_eq!(default_limit(), 20);
}

#[test]
fn test_list_posts_parses_category() {
    let mut db = Database::new();
    let mut draft = create_test_post();
    draft.category = PostCategory::Art;
    draft.slug = "an-art-post".to_string();
    db.posts().create(&mut db, create_test_post()).unwrap();
    db.posts().create(&mut db, draft).unwrap();

    let query = ListPostsQuery {
        category: Some("art".to_string()),
        published_only: false,
        limit: default_limit(),
        offset: 0,
    };
    let posts = list_posts(&db, query).unwrap();
    assert_eq!(posts.len(), 1);
    assert_eq!(posts[0].slug, "an-art-post");

    // Case-insensitive parse
    let query = ListPostsQuery {
        category: Some("BLOG".to_string()),
        published_only: false,
        limit: 20,
        offset: 0,
    };
    assert_eq!(list_posts(&db, query).unwrap().len(), 1);
}

#[test]
fn test_list_posts_rejects_unknown_category() {
    let db = Database::new();
    let query = ListPostsQuery {
        category: Some("poetry".to_string()),
        published_only: false,
        limit: 20,
        offset: 0,
    };
    match list_posts(&db, query).unwrap_err() {
        ApiError::InvalidInput(m) => {
            assert_eq!(m, "Invalid category: Invalid post category: poetry");
        }
        other => panic!("unexpected error: {:?}", other),
    }
}

#[test]
fn test_list_posts_passes_pagination_errors_through() {
    let db = Database::new();
    let query = ListPostsQuery {
        category: None,
        published_only: false,
        limit: 0,
        offset: 0,
    };
    match list_posts(&db, query).unwrap_err() {
        ApiError::Database(DatabaseError::Validation(m)) => {
            assert_eq!(m, "Limit must be between 1 and 100");
        }
        other => panic!("unexpected error: {:?}", other),
    }

    let query = ListPostsQuery {
        category: None,
        published_only: false,
        limit: 10,
        offset: -1,
    };
    match list_posts(&db, query).unwrap_err() {
        ApiError::Database(DatabaseError::Validation(m)) => {
            assert_eq!(m, "Offset cannot be negative");
        }
        other => panic!("unexpected error: {:?}", other),
    }
}

#[test]
fn test_create_tag_rejects_bad_names() {
    let mut db = Database::new();
    let request = TagRequest {
        name: "tag!".to_string(),
    };
    match create_tag(&mut db, &request).unwrap_err() {
        ApiError::InvalidInput(m) => assert_eq!(m, "Invalid tag name format"),
        other => panic!("unexpected error: {:?}", other),
    }

    // A well-formed name goes through and is trimmed
    let request = TagRequest {
        name: " rust ".to_string(),
    };
    let tag = create_tag(&mut db, &request).unwrap();
    assert_eq!(tag.name, "rust");
}

#[test]
fn test_update_tag_checks_name_then_target() {
    let mut db = Database::new();
    let tag = create_tag(
        &mut db,
        &TagRequest {
            name: "original".to_string(),
        },
    )
    .unwrap();

    // Malformed name first
    let bad = TagRequest {
        name: "#trending".to_string(),
    };
    assert!(matches!(
        update_tag(&mut db, tag.id, &bad).unwrap_err(),
        ApiError::InvalidInput(_)
    ));

    // Missing id second
    let fine = TagRequest {
        name: "renamed".to_string(),
    };
    assert!(matches!(
        update_tag(&mut db, 999, &fine).unwrap_err(),
        ApiError::Database(DatabaseError::NotFound(_))
    ));

    // And a proper rename succeeds
    let renamed = update_tag(&mut db, tag.id, &fine).unwrap();
    assert_eq!(renamed.name, "renamed");
    assert_eq!(renamed.id, tag.id);
}

#[test]
fn test_api_error_status_mapping() {
    let (status, message) =
        ApiError::Database(DatabaseError::NotFound("gone".to_string())).status_and_message();
    assert_eq!(status, 404);
    assert_eq!(message, "gone");

    let (status, _) = ApiError::Database(DatabaseError::DuplicateEntry("dup".to_string()))
        .status_and_message();
    assert_eq!(status, 409);

    let (status, _) =
        ApiError::Database(DatabaseError::Validation("bad".to_string())).status_and_message();
    assert_eq!(status, 400);

    let (status, _) = ApiError::InvalidInput("bad".to_string()).status_and_message();
    assert_eq!(status, 400);

    let (status, message) =
        ApiError::Database(DatabaseError::Transaction("boom".to_string())).status_and_message();
    assert_eq!(status, 500);
    assert_eq!(message, "Internal server error");
}
