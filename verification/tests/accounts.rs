use ftp_server::user::{admin_user, check_password, find_account, users, User};

fn user(name: &str, password: &str) -> User {
    User { name: name.to_string(), password: password.to_string() }
}

#[test]
fn the_server_has_one_account() {
    assert!(admin_user().is_none());
    let users = users();
    assert_eq!(users.len(), 1);
    assert_eq!(users[0].name, "test");
    assert_eq!(users[0].password, "password");
}

#[test]
fn accounts_are_found_by_name() {
    let admin = Some(user("root", "toor"));
    let users = vec![user("a", ""), user("b", "x"), user("b", ""), user("root", "")];
    let found = find_account(&admin, &users, &"root".to_string()).unwrap();
    assert!(found.is_admin && found.pass_required);
    let found = find_account(&admin, &users, &"a".to_string()).unwrap();
    assert!(!found.is_admin && !found.pass_required);
    let found = find_account(&admin, &users, &"b".to_string()).unwrap();
    assert!(!found.is_admin && found.pass_required);
    assert!(find_account(&admin, &users, &"c".to_string()).is_none());
    assert!(find_account(&None, &vec![], &"a".to_string()).is_none());
}

#[test]
fn passwords_belong_to_names() {
    let admin = Some(user("root", "toor"));
    let users = vec![user("a", "x"), user("b", "y"), user("b", "z")];
    let check = |is_admin: bool, name: &str, password: &str| {
        check_password(&admin, &users, is_admin, &name.to_string(), &password.to_string())
    };
    assert!(check(true, "root", "toor"));
    assert!(!check(true, "root", "x"));
    assert!(check(false, "a", "x"));
    assert!(!check(false, "a", "y"));
    assert!(check(false, "b", "y"));
    assert!(check(false, "b", "z"));
    assert!(!check(false, "root", "toor"));
}
