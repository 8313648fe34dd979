//! A keyed storage contract, an in-memory storage that meets it, and the
//! user repository on top of it, in two forms: over a storage whose type is
//! known when the program is built, and over any storage behind a pointer.

use vstd::prelude::*;
use std::borrow::Cow;
use std::collections::HashMap;

verus! {

/// What a repository asks of the storage under it.
pub trait Storage<K, V> {
    /// The values held, by key.
    spec fn entries(&self) -> Map<K, V>;

    /// Stores `val` under `key`, in place of what was there.
    fn set(&mut self, key: K, val: V)
        ensures
            final(self).entries() == old(self).entries().insert(key, val),
    ;

    /// The value under `key`, if there is one.
    fn get(&self, key: &K) -> (found: Option<&V>)
        ensures
            found == (if self.entries().contains_key(*key) {
                Some(&self.entries()[*key])
            } else {
                None
            }),
    ;

    /// Takes out the value under `key` and hands it back, if there is one.
    fn remove(&mut self, key: &K) -> (removed: Option<V>)
        ensures
            final(self).entries() == old(self).entries().remove(*key),
            removed == (if old(self).entries().contains_key(*key) {
                Some(old(self).entries()[*key])
            } else {
                None
            }),
    ;
}

/// `Clone::clone` of std's `Cow`, which a cloned `User` goes through. Nothing
/// is claimed of what it returns.
pub assume_specification<'a, B>[ <Cow<'a, B> as Clone>::clone ](cow: &Cow<'a, B>) -> Cow<'a, B>
    where B: ToOwned + ?Sized,
;

#[derive(Debug, Clone, PartialEq)]
pub struct User {
    pub id: u64,
    pub email: Cow<'static, str>,
    pub activated: bool,
}

/// A storage of users that lives in memory only.
pub struct InMemoryStorage {
    data: HashMap<u64, User>,
}

impl InMemoryStorage {
    pub fn new() -> (storage: Self)
        ensures
            storage.entries() == Map::<u64, User>::empty(),
    {
        Self { data: HashMap::new() }
    }
}

impl Storage<u64, User> for InMemoryStorage {
    closed spec fn entries(&self) -> Map<u64, User> {
        self.data@
    }

    fn set(&mut self, key: u64, val: User) {
        self.data.insert(key, val);
    }

    fn get(&self, key: &u64) -> (found: Option<&User>) {
        self.data.get(key)
    }

    fn remove(&mut self, key: &u64) -> (removed: Option<User>) {
        self.data.remove(key)
    }
}

/// The user that `update` stores: `user` with its id replaced by `id`.
pub open spec fn with_id(user: User, id: u64) -> User {
    User { id, email: user.email, activated: user.activated }
}

/// A repository of users over a storage whose type is known.
pub struct UserRepositoryStatic<S: Storage<u64, User>> {
    storage: S,
}

impl<S: Storage<u64, User>> UserRepositoryStatic<S> {
    /// The users held, by id.
    pub closed spec fn users(&self) -> Map<u64, User> {
        self.storage.entries()
    }

    pub fn new(storage: S) -> (repo: Self)
        ensures
            repo.users() == storage.entries(),
    {
        Self { storage }
    }

    pub fn add(&mut self, user: User)
        ensures
            final(self).users() == old(self).users().insert(user.id, user),
    {
        self.storage.set(user.id, user);
    }

    pub fn get(&self, id: u64) -> (found: Option<&User>)
        ensures
            found == (if self.users().contains_key(id) {
                Some(&self.users()[id])
            } else {
                None
            }),
    {
        self.storage.get(&id)
    }

    pub fn remove(&mut self, id: u64) -> (removed: Option<User>)
        ensures
            final(self).users() == old(self).users().remove(id),
            removed == (if old(self).users().contains_key(id) {
                Some(old(self).users()[id])
            } else {
                None
            }),
    {
        self.storage.remove(&id)
    }

    pub fn update(&mut self, id: u64, user: User)
        ensures
            final(self).users() == old(self).users().insert(id, with_id(user, id)),
    {
        let mut user = user;
        user.id = id;
        self.storage.set(id, user);
    }
}

/// A boxed storage is a storage: each call goes on to what is in the box.
impl<K, V, S: Storage<K, V> + ?Sized> Storage<K, V> for Box<S> {
    open spec fn entries(&self) -> Map<K, V> {
        (**self).entries()
    }

    fn set(&mut self, key: K, val: V) {
        (**self).set(key, val)
    }

    fn get(&self, key: &K) -> (found: Option<&V>) {
        (**self).get(key)
    }

    fn remove(&mut self, key: &K) -> (removed: Option<V>) {
        (**self).remove(key)
    }
}

/// A repository of users over any storage, chosen when the program runs.
pub type UserRepositoryDynamic = UserRepositoryStatic<Box<dyn Storage<u64, User>>>;

} // verus!
