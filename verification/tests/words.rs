use vocab::api_data::{ApiError, CategoryCreateRequest, WordCreateRequest};
use vocab::categories::create_category;
use vocab::store::Store;
use vocab::users::add_user_record;
use vocab::words::{create_word, delete_word, list_words};

fn add_test_user(store: &mut Store, name: &str) -> i64 {
    add_user_record(store, name, None, 0).expect("add test user")
}

fn add_test_category(store: &mut Store, user_id: i64) -> i64 {
    create_category(store, user_id, CategoryCreateRequest { name: None }, 0)
        .expect("add test category")
        .id
}

fn add_test_word(store: &mut Store, user_id: i64, category_id: i64) -> i64 {
    create_word(
        store,
        category_id,
        user_id,
        WordCreateRequest { word: "word".to_owned() },
        0,
    )
    .expect("add test word")
    .id
}

#[test]
fn test_list_words_basic() {
    let mut store = Store::new();
    let user = add_test_user(&mut store, "user");
    let category = add_test_category(&mut store, user);
    for _ in 0..5 {
        add_test_word(&mut store, user, category);
    }

    let words = list_words(&store, category, user).words;

    assert_eq!(words.len(), 5);
    assert!(words.first().unwrap().id > 0);
}

#[test]
fn test_list_words_other_users_category() {
    let mut store = Store::new();
    let user1 = add_test_user(&mut store, "user1");
    let user2 = add_test_user(&mut store, "user2");
    let category = add_test_category(&mut store, user1);
    add_test_word(&mut store, user1, category);

    let words = list_words(&store, category, user2).words;
    assert!(words.is_empty());

    let own_view = list_words(&store, category, user1).words;
    assert_eq!(own_view.len(), 1);
}

#[test]
fn test_create_word_basic() {
    let mut store = Store::new();
    let user = add_test_user(&mut store, "user");
    let category = add_test_category(&mut store, user);

    let word = create_word(
        &mut store,
        category,
        user,
        WordCreateRequest { word: "foo".to_owned() },
        0,
    )
    .expect("successful response");

    assert!(word.id > 0);
    assert_eq!("foo", word.word);
}

#[test]
fn test_create_word_other_users_category() {
    let mut store = Store::new();
    let user1 = add_test_user(&mut store, "user1");
    let user2 = add_test_user(&mut store, "user2");
    let category = add_test_category(&mut store, user1);

    let err = create_word(
        &mut store,
        category,
        user2,
        WordCreateRequest { word: "foo".to_owned() },
        0,
    )
    .expect_err("unsuccessful response");
    assert_eq!(err, ApiError::NotFound);
    assert!(store.words.is_empty());
}

#[test]
fn test_create_word_no_such_category() {
    let mut store = Store::new();
    let user = add_test_user(&mut store, "user");

    let err = create_word(
        &mut store,
        17,
        user,
        WordCreateRequest { word: "foo".to_owned() },
        0,
    )
    .expect_err("unsuccessful response");
    assert_eq!(err, ApiError::NotFound);
}

#[test]
fn test_delete_word_basic() {
    let mut store = Store::new();
    let user = add_test_user(&mut store, "user");
    let category = add_test_category(&mut store, user);
    let word = add_test_word(&mut store, user, category);

    delete_word(&mut store, category, word, user).expect("successful response");
    assert!(store.words.is_empty());
}

#[test]
fn test_delete_word_another_user() {
    let mut store = Store::new();
    let user1 = add_test_user(&mut store, "user1");
    let user2 = add_test_user(&mut store, "user2");
    let category = add_test_category(&mut store, user1);
    let word = add_test_word(&mut store, user1, category);

    let err = delete_word(&mut store, category, word, user2).expect_err("unsuccessful response");
    assert_eq!(err, ApiError::NotFound);
    assert_eq!(list_words(&store, category, user1).words.len(), 1);
}

#[test]
fn test_delete_word_wrong_category() {
    let mut store = Store::new();
    let user = add_test_user(&mut store, "user");
    let category = add_test_category(&mut store, user);
    let other_category = add_test_category(&mut store, user);
    let word = add_test_word(&mut store, user, category);

    let err = delete_word(&mut store, other_category, word, user).expect_err("not found");
    assert_eq!(err, ApiError::NotFound);
    assert_eq!(list_words(&store, category, user).words.len(), 1);
}

#[test]
fn test_create_word_id_space_exhausted() {
    let mut store = Store::new();
    let user = add_test_user(&mut store, "user");
    let category = add_test_category(&mut store, user);
    store.next_word_id = i64::MAX;

    let err = create_word(
        &mut store,
        category,
        user,
        WordCreateRequest { word: "foo".to_owned() },
        0,
    )
    .expect_err("id space exhausted");
    assert_eq!(err, ApiError::StoreError);
    assert!(store.words.is_empty());
}

#[test]
fn test_delete_word_missing() {
    let mut store = Store::new();
    let user = add_test_user(&mut store, "user");
    let category = add_test_category(&mut store, user);

    let err = delete_word(&mut store, category, 9, user).expect_err("not found");
    assert_eq!(err, ApiError::NotFound);
}
