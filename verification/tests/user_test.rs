use hivin_bot::service::user;

#[test]
fn add_admin() {
    let mut user = user::new();
    let is_add = user.add_admin("12341", "xiang");
    assert!(is_add);
}

#[test]
fn is_admin() {
    let mut user = user::new();
    user.add_admin("12341", "xiang");
    let is_admin = user.is_admin("12341");
    assert!(is_admin, "is_admin should be true {}", "12341");
}

#[test]
fn delete_admin() {
    let mut user = user::new();
    user.add_admin("6762311321", "xiang");
    let is_delete = user.delete_admin("6762311321");
    assert!(is_delete);
}

#[test]
fn all_admin() {
    let mut user = user::new();
    user.add_admin("12341", "xiang");
    let admins = user.all_admins();
    assert!(!admins.is_empty());
    for admin in admins {
        println!("{:?}", admin);
    }
}

#[test]
fn cancel_and_set_admin_again() {
    let mut user = user::new();
    assert!(user.add_admin("100", "first"));
    assert!(user.cancel_admin("100"));
    assert!(!user.is_admin("100"));
    // re-granting a revoked row goes through the distinct reactivation step
    assert!(!user.add_admin("100", "first"));
    assert!(user.set_admin("100"));
    assert!(user.is_admin("100"));
}

#[test]
fn rename_admin_row() {
    let mut user = user::new();
    assert!(user.add_admin("7", "before"));
    assert!(user.set_admin_name("7", "after"));
    let admins = user.all_admins();
    assert_eq!(admins.len(), 1);
    assert_eq!(admins[0].user_name, "after");
    assert!(!user.set_admin_name("8", "nobody"));
}
