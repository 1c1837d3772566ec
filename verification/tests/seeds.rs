use vocab::categories::list_categories;
use vocab::seeds::install;
use vocab::store::Store;
use vocab::users::{authenticate_user_by_password, user_by_name};
use vocab::words::list_words;

#[test]
fn test_install_seeds() {
    let mut store = Store::new();
    install(&mut store, 0).expect("install seeds");

    let user = user_by_name(&store, "user").expect("user exists");
    let user1 = user_by_name(&store, "user1").expect("user1 exists");
    assert_ne!(user, user1);
    assert_eq!(authenticate_user_by_password(&store, "user", "123"), Some(user));
    assert_eq!(authenticate_user_by_password(&store, "user1", "123"), Some(user1));
    assert_eq!(authenticate_user_by_password(&store, "user", "1234"), None);

    let categories = list_categories(&store).categories;
    assert_eq!(categories.len(), 3);
    let names: Vec<String> = categories
        .iter()
        .map(|c| c.name.clone().expect("seeded name"))
        .collect();
    assert_eq!(names, vec!["орнитология", "медицина", "кулинария"]);

    let mut total = 0;
    for c in &categories {
        assert_eq!(list_words(&store, c.id, user1).words.len(), 0);
        total += list_words(&store, c.id, user).words.len();
    }
    assert_eq!(total, 6);
    assert_eq!(list_words(&store, categories[2].id, user).words.len(), 0);
}
