//! What holds of accounts.

use vstd::prelude::*;

use crate::user::{account_of, first_named, opens, UserView};

verus! {

/// Of several accounts of one name the first is found, and none only where
/// there is none.
pub proof fn first_named_comes_first(users: Seq<UserView>, name: Seq<char>)
    ensures
        match first_named(users, name) {
            Some(user) => exists|i: int|
                {
                    &&& 0 <= i < users.len()
                    &&& #[trigger] users[i] == user
                    &&& user.name == name
                    &&& forall|j: int| 0 <= j < i ==> (#[trigger] users[j]).name != name
                },
            None => forall|i: int| 0 <= i < users.len() ==> (#[trigger] users[i]).name != name,
        },
    decreases users.len(),
{
    if users.len() > 0 && users[0].name != name {
        let rest = users.drop_first();
        first_named_comes_first(rest, name);
        assert forall|i: int| 0 < i < users.len() implies #[trigger] users[i] == rest[i - 1] by {}
        match first_named(rest, name) {
            Some(user) => {
                let i = choose|i: int|
                    {
                        &&& 0 <= i < rest.len()
                        &&& #[trigger] rest[i] == user
                        &&& user.name == name
                        &&& forall|j: int| 0 <= j < i ==> (#[trigger] rest[j]).name != name
                    };
                assert(users[i + 1] == user);
                assert forall|j: int| 0 <= j < i + 1 implies (#[trigger] users[j]).name != name by {
                    if j > 0 {
                        assert(users[j] == rest[j - 1]);
                    }
                }
            },
            None => {},
        }
    } else if users.len() > 0 {
        assert(users[0] == first_named(users, name)->0);
    }
}

/// A name is known exactly if an account bears it. The administrator goes
/// before everyone else, and a password is asked for exactly where there is
/// one.
pub proof fn accounts_are_found_by_name(
    admin: Option<UserView>,
    users: Seq<UserView>,
    name: Seq<char>,
)
    ensures
        account_of(admin, users, name) is Some <==> (admin is Some && admin->0.name == name) || (
        exists|i: int| 0 <= i < users.len() && (#[trigger] users[i]).name == name),
        account_of(admin, users, name) is Some ==> {
            let account = account_of(admin, users, name)->0;
            &&& account.is_admin <==> admin is Some && admin->0.name == name
            &&& account.is_admin ==> account.pass_required == (admin->0.password.len() > 0)
            &&& !account.is_admin ==> exists|i: int|
                {
                    &&& 0 <= i < users.len()
                    &&& (#[trigger] users[i]).name == name
                    &&& account.pass_required == (users[i].password.len() > 0)
                    &&& forall|j: int| 0 <= j < i ==> (#[trigger] users[j]).name != name
                }
        },
{
    first_named_comes_first(users, name);
    if let Some(user) = first_named(users, name) {
        let i = choose|i: int|
            {
                &&& 0 <= i < users.len()
                &&& #[trigger] users[i] == user
                &&& user.name == name
                &&& forall|j: int| 0 <= j < i ==> (#[trigger] users[j]).name != name
            };
        assert(users[i].name == name);
    }
}

/// A password opens an account exactly if it is the password of an account of
/// that name: of the administrator for the administrator, and of anyone else
/// for anyone else.
pub proof fn passwords_open_their_accounts(
    admin: Option<UserView>,
    users: Seq<UserView>,
    name: Seq<char>,
    password: Seq<char>,
)
    ensures
        opens(admin, users, true, name, password) <==> admin is Some && admin->0.password
            == password,
        opens(admin, users, false, name, password) <==> exists|i: int|
            {
                &&& 0 <= i < users.len()
                &&& (#[trigger] users[i]).name == name
                &&& users[i].password == password
            },
{
    let wanted = UserView { name, password };
    if users.contains(wanted) {
        let i = choose|i: int| 0 <= i < users.len() && users[i] == wanted;
        assert(users[i].name == name);
    }
    assert forall|i: int|
        0 <= i < users.len() && (#[trigger] users[i]).name == name && users[i].password
            == password implies users.contains(wanted) by {
        assert(users[i] == wanted);
    }
}

} // verus!
