//! The accounts of the server.

use vstd::prelude::*;

verus! {

/// An account: who may log in, and with which password.
pub struct User {
    pub name: String,
    pub password: String,
}

/// What a [`User`] stands for.
pub struct UserView {
    pub name: Seq<char>,
    pub password: Seq<char>,
}

impl View for User {
    type V = UserView;

    open spec fn view(&self) -> UserView {
        UserView { name: self.name@, password: self.password@ }
    }
}

/// What a row of accounts stands for.
pub open spec fn user_views(users: Seq<User>) -> Seq<UserView> {
    Seq::new(users.len(), |i: int| users[i]@)
}

/// What an optional account stands for.
pub open spec fn user_view(user: Option<User>) -> Option<UserView> {
    match user {
        Some(user) => Some(user@),
        None => None,
    }
}

/// The account of the administrator: there is none.
pub open spec fn admin_account() -> Option<UserView> {
    None
}

/// The accounts of everyone else.
pub open spec fn user_accounts() -> Seq<UserView> {
    seq![UserView { name: "test"@, password: "password"@ }]
}

/// The account of the administrator, if there is one.
pub fn admin_user() -> (admin: Option<User>)
    ensures
        user_view(admin) == admin_account(),
{
    None
}

/// The accounts of everyone else.
pub fn users() -> (users: Vec<User>)
    ensures
        user_views(users@) == user_accounts(),
{
    let mut users: Vec<User> = Vec::new();
    users.push(User { name: "test".to_string(), password: "password".to_string() });
    assert(user_views(users@) =~= user_accounts());
    users
}

/// What the server knows of a name that may log in.
#[derive(Clone, Copy)]
pub struct Account {
    pub is_admin: bool,
    pub pass_required: bool,
}

/// The first of `users` that is called `name`.
pub open spec fn first_named(users: Seq<UserView>, name: Seq<char>) -> Option<UserView>
    decreases users.len(),
{
    if users.len() == 0 {
        None
    } else if users[0].name == name {
        Some(users[0])
    } else {
        first_named(users.drop_first(), name)
    }
}

/// What the server knows of `name`: the administrator comes first, and an
/// account without a password asks for none.
pub open spec fn account_of(
    admin: Option<UserView>,
    users: Seq<UserView>,
    name: Seq<char>,
) -> Option<Account> {
    if admin is Some && admin->0.name == name {
        Some(Account { is_admin: true, pass_required: admin->0.password.len() > 0 })
    } else {
        match first_named(users, name) {
            Some(user) => Some(
                Account { is_admin: false, pass_required: user.password.len() > 0 },
            ),
            None => None,
        }
    }
}

/// Whether `password` opens the account that `name` asked for.
pub open spec fn opens(
    admin: Option<UserView>,
    users: Seq<UserView>,
    is_admin: bool,
    name: Seq<char>,
    password: Seq<char>,
) -> bool {
    if is_admin {
        admin is Some && admin->0.password == password
    } else {
        users.contains(UserView { name, password })
    }
}

/// Looks up who `name` is.
pub fn find_account(admin: &Option<User>, users: &Vec<User>, name: &String) -> (account: Option<
    Account,
>)
    ensures
        account == account_of(user_view(*admin), user_views(users@), name@),
{
    if let Some(admin) = admin {
        if admin.name == *name {
            return Some(Account { is_admin: true, pass_required: !admin.password.as_str().is_empty() });
        }
    }
    let ghost views = user_views(users@);
    let mut i: usize = 0;
    assert(views.skip(0) =~= views);
    while i < users.len()
        invariant
            i <= users@.len(),
            views == user_views(users@),
            !(user_view(*admin) is Some && user_view(*admin)->0.name == name@),
            first_named(views, name@) == first_named(views.skip(i as int), name@),
        decreases users.len() - i,
    {
        assert(views.skip(i as int)[0] == users@[i as int]@);
        if users[i].name == *name {
            return Some(
                Account { is_admin: false, pass_required: !users[i].password.as_str().is_empty() },
            );
        }
        assert(views.skip(i as int).drop_first() =~= views.skip(i + 1));
        i += 1;
    }
    None
}

/// Checks a password.
pub fn check_password(
    admin: &Option<User>,
    users: &Vec<User>,
    is_admin: bool,
    name: &String,
    password: &String,
) -> (result: bool)
    requires
        is_admin ==> admin is Some,
    ensures
        result == opens(user_view(*admin), user_views(users@), is_admin, name@, password@),
{
    if is_admin {
        return match admin {
            Some(admin) => *password == admin.password,
            None => false,
        };
    }
    let ghost views = user_views(users@);
    let ghost wanted = UserView { name: name@, password: password@ };
    let mut i: usize = 0;
    while i < users.len()
        invariant
            i <= users@.len(),
            !is_admin,
            views == user_views(users@),
            wanted == (UserView { name: name@, password: password@ }),
            forall|k: int| 0 <= k < i ==> views[k] != wanted,
        decreases users.len() - i,
    {
        assert(views[i as int] == users@[i as int]@);
        if users[i].name == *name && users[i].password == *password {
            assert(views[i as int] == wanted);
            return true;
        }
        i += 1;
    }
    false
}

} // verus!
