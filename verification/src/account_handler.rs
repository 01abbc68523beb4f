//! The store of all users, keyed by user id.

use crate::key_list;
use crate::task::Task;
use crate::user::User;
use std::collections::HashMap;
use vstd::prelude::*;

verus! {

broadcast use vstd::std_specs::hash::group_hash_axioms;

/// All users, each stored under its user id.
#[derive(Debug, PartialEq, Eq)]
pub struct Database {
    pub users: HashMap<u128, User>,
}

impl Clone for Database {
    fn clone(&self) -> (copy: Self)
        ensures
            copy.users@ == self.users@,
    {
        Database { users: self.users.clone() }
    }
}

/// The answers of the account requests.
#[derive(Debug, Clone, Copy, PartialEq, Eq, Structural)]
pub enum AccountResult {
    Success(u128),
    UsernameNoExist,
    UserIDNoExist,
    PasswordWrong,
    UsernameTaken,
}

/// Whether some stored user has the given user name.
pub open spec fn has_username(users: Map<u128, User>, username: Seq<char>) -> bool {
    exists|k: u128| #[trigger] users.contains_key(k) && users[k].username@ == username
}

/// Whether `after` differs from `before` only in the library of user `id`,
/// which is now `library`.
pub open spec fn only_library_changed(
    before: Map<u128, User>,
    after: Map<u128, User>,
    id: u128,
    library: Map<usize, Task>,
) -> bool {
    &&& after == before.insert(id, after[id])
    &&& after[id].id == before[id].id
    &&& after[id].username == before[id].username
    &&& after[id].library@ == library
}

impl Database {
    pub fn new() -> (db: Database)
        ensures
            db.users@ == Map::<u128, User>::empty(),
    {
        Database { users: HashMap::new() }
    }

    /// The id held by a user with the given user name, if there is one. Where
    /// several users share the name, the one that the map walks first answers.
    pub fn fetch_user_id(&self, username: &String) -> (found: Option<u128>)
        ensures
            found is None <==> !has_username(self.users@, username@),
            found matches Some(id) ==> exists|k: u128|
                #[trigger] self.users@.contains_key(k) && self.users@[k].username@ == username@
                    && self.users@[k].id == id,
    {
        let ks = key_list(&self.users);
        let mut i: usize = 0;
        while i < ks.len()
            invariant
                i <= ks@.len(),
                forall|k: u128| #[trigger] ks@.contains(k) <==> self.users@.contains_key(k),
                forall|j: int|
                    0 <= j < i ==> self.users@[#[trigger] ks@[j]].username@ != username@,
            decreases ks@.len() - i,
        {
            let k = ks[i];
            assert(ks@.contains(k));
            let u = self.users.get(&k).unwrap();
            if u.username == *username {
                return Some(u.id);
            }
            i = i + 1;
        }
        proof {
            assert forall|k: u128| #[trigger] self.users@.contains_key(k) implies self.users@[k].username@
                != username@ by {
                assert(ks@.contains(k));
                let j = choose|j: int| 0 <= j < ks@.len() && ks@[j] == k;
                assert(self.users@[ks@[j]].username@ != username@);
            }
        }
        None
    }
}

} // verus!
