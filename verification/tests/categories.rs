use vocab::api_data::{ApiError, CategoryCreateRequest, CategoryUpdateRequest, WordCreateRequest};
use vocab::categories::{
    create_category, delete_category, list_categories, update_category, SAMPLE_WORDS_COUNT,
};
use vocab::store::Store;
use vocab::users::add_user_record;
use vocab::words::create_word;

fn add_test_user(store: &mut Store, name: &str) -> i64 {
    add_user_record(store, name, None, 0).expect("add test user")
}

fn add_test_category(store: &mut Store, user_id: i64) -> i64 {
    create_category(store, user_id, CategoryCreateRequest { name: None }, 0)
        .expect("add test category")
        .id
}

fn add_test_word(store: &mut Store, user_id: i64, category_id: i64) -> i64 {
    create_word(
        store,
        category_id,
        user_id,
        WordCreateRequest { word: "word".to_owned() },
        0,
    )
    .expect("add test word")
    .id
}

#[test]
fn test_list_categories_basic() {
    let mut store = Store::new();
    let user = add_test_user(&mut store, "user");
    let category_id = add_test_category(&mut store, user);
    for _ in 0..5 {
        add_test_word(&mut store, user, category_id);
    }
    add_test_category(&mut store, user);

    let categories = list_categories(&store).categories;

    assert_eq!(categories.len(), 2);
    let long_category = categories
        .iter()
        .find(|c| c.num_words == 5)
        .expect("category exists with 5 words");
    assert_eq!(long_category.sample_words.len(), SAMPLE_WORDS_COUNT);
    assert!(long_category
        .sample_words
        .iter()
        .all(|sample_word| sample_word.len() > 0));
}

#[test]
fn test_list_categories_empty() {
    let mut store = Store::new();
    add_test_user(&mut store, "user");
    let categories = list_categories(&store).categories;
    assert!(categories.is_empty());
}

#[test]
fn test_create_category_basic() {
    let mut store = Store::new();
    let user = add_test_user(&mut store, "user");

    let create = CategoryCreateRequest { name: Some("test".to_owned()) };
    let category = create_category(&mut store, user, create, 0).expect("successful response");
    assert_eq!(category.name, Some("test".to_owned()));
    assert!(category.id > 0);
}

#[test]
fn test_create_category_no_name() {
    let mut store = Store::new();
    let user = add_test_user(&mut store, "user");

    let create = CategoryCreateRequest { name: None };
    let category = create_category(&mut store, user, create, 0).expect("successful response");
    assert_eq!(category.name, None);
    assert!(category.id > 0);
}

#[test]
fn test_update_category_basic() {
    let mut store = Store::new();
    let user_id = add_test_user(&mut store, "user");
    let category_id = add_test_category(&mut store, user_id);
    add_test_word(&mut store, user_id, category_id);

    let update = CategoryUpdateRequest { name: Some("foo".to_owned()) };
    let category =
        update_category(&mut store, category_id, user_id, update).expect("successful response");
    assert_eq!(category.name, Some("foo".to_owned()));
    assert_eq!(category.num_words, 1);
    assert_eq!(category.sample_words.len(), 1);
}

#[test]
fn test_update_category_other_user() {
    let mut store = Store::new();
    let user1 = add_test_user(&mut store, "user1");
    let user2 = add_test_user(&mut store, "user2");
    let category_id = add_test_category(&mut store, user1);

    let update = CategoryUpdateRequest { name: Some("foo".to_owned()) };
    let err = update_category(&mut store, category_id, user2, update)
        .expect_err("unsuccessful response");
    assert_eq!(err, ApiError::NotFound);
    assert_eq!(store.categories[0].name, None);
}

#[test]
fn test_delete_category_basic() {
    let mut store = Store::new();
    let user_id = add_test_user(&mut store, "user");
    let category_id = add_test_category(&mut store, user_id);

    delete_category(&mut store, category_id, user_id).expect("successful response");

    let has_category = store.categories.iter().filter(|c| c.id == category_id).count();
    assert_eq!(has_category, 0);
}

#[test]
fn test_delete_category_not_found() {
    let mut store = Store::new();
    delete_category(&mut store, 1, 1).unwrap_err();
}

#[test]
fn test_delete_category_with_words_refused() {
    let mut store = Store::new();
    let user_id = add_test_user(&mut store, "user");
    let category_id = add_test_category(&mut store, user_id);
    add_test_word(&mut store, user_id, category_id);

    let err = delete_category(&mut store, category_id, user_id).expect_err("refused");
    assert_eq!(err, ApiError::NotFound);
    assert_eq!(store.categories.len(), 1);
}

#[test]
fn test_delete_category_other_user() {
    let mut store = Store::new();
    let user1 = add_test_user(&mut store, "user1");
    let user2 = add_test_user(&mut store, "user2");
    let category_id = add_test_category(&mut store, user1);

    let err = delete_category(&mut store, category_id, user2).expect_err("unsuccessful response");
    assert_eq!(err, ApiError::NotFound);
    assert_eq!(store.categories.len(), 1);
}
