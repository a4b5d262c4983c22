//! The in-memory store: the value that each key has now.

use crate::entry::{Contents, LogEntry, Mutation};
use crate::outcome::Failure;
use vstd::hash_map::StringHashMap;
use vstd::prelude::*;
use vstd::string::*;

verus! {

/// The current key/value state.
///
/// It keeps nothing on disk itself: it is rebuilt from the log at startup
/// and changed only by [`Store::set`] and [`Store::delete`].
pub struct Store {
    map: StringHashMap<String>,
}

impl View for Store {
    type V = Contents;

    closed spec fn view(&self) -> Contents {
        self.map@.map_values(|value: String| value@)
    }
}

impl Store {
    /// A store that holds nothing.
    pub fn new() -> (store: Store)
        ensures
            store@ == Map::<Seq<char>, Seq<char>>::empty(),
    {
        let store = Store { map: StringHashMap::new() };
        assert(store@ =~= Map::<Seq<char>, Seq<char>>::empty());
        store
    }

    /// The value under `key`, if there is one.
    pub fn get(&self, key: &str) -> (value: Option<String>)
        ensures
            value is Some <==> self@.contains_key(key@),
            value matches Some(v) ==> v@ == self@[key@],
    {
        match self.map.get(key) {
            Some(value) => Some(value.clone()),
            None => None,
        }
    }

    /// Puts `value` under `key`, replacing what was there.
    pub fn set(&mut self, key: &str, value: &str)
        ensures
            final(self)@ == old(self)@.insert(key@, value@),
    {
        self.map.insert(String::from_str(key), String::from_str(value));
        assert(self@ =~= old(self)@.insert(key@, value@));
    }

    /// Takes `key` out. Nothing changes where it is absent.
    pub fn delete(&mut self, key: &str)
        ensures
            final(self)@ == old(self)@.remove(key@),
    {
        self.map.remove(key);
        assert(self@ =~= old(self)@.remove(key@));
    }

    /// Makes the change that `entry` stands for.
    pub fn apply(&mut self, entry: &LogEntry)
        ensures
            final(self)@ == entry@.apply(old(self)@),
    {
        match entry {
            LogEntry::Put { key, value } => self.set(key.as_str(), value.as_str()),
            LogEntry::Delete { key } => self.delete(key.as_str()),
        }
    }

    /// Makes the change that `entry` stands for, provided that the log has
    /// it: `appended` is what became of appending the entry's line.
    ///
    /// The change is made only after a successful append. After a failed
    /// one the store is as it was, and the failure is handed on. An entry
    /// that is not writable is refused whatever became of the append: the
    /// store holds only what a replay of the log can rebuild.
    pub fn commit(&mut self, entry: &LogEntry, appended: Result<(), Failure>) -> (r: Result<
        (),
        Failure,
    >)
        ensures
            entry@.writable() ==> r == appended,
            !entry@.writable() ==> r == Err::<(), Failure>(Failure::Unloggable),
            r is Ok ==> final(self)@ == entry@.apply(old(self)@),
            r is Err ==> final(self)@ == old(self)@,
    {
        if !entry.writable() {
            return Err(Failure::Unloggable);
        }
        if appended.is_ok() {
            self.apply(entry);
        }
        appended
    }
}

/// Two puts on different keys can be made in either order: both values are
/// there afterwards, and the store is the same.
pub proof fn lemma_puts_on_distinct_keys_commute(
    state: Contents,
    key1: Seq<char>,
    value1: Seq<char>,
    key2: Seq<char>,
    value2: Seq<char>,
)
    requires
        key1 != key2,
    ensures
        state.insert(key1, value1).insert(key2, value2) == state.insert(key2, value2).insert(
            key1,
            value1,
        ),
        state.insert(key1, value1).insert(key2, value2)[key1] == value1,
        state.insert(key1, value1).insert(key2, value2)[key2] == value2,
{
    assert(state.insert(key1, value1).insert(key2, value2) =~= state.insert(key2, value2).insert(
        key1,
        value1,
    ));
}

/// A put and a delete on one key leave what the later of the two says: the
/// key is absent when the delete came last, and holds the whole value when
/// the put came last. Keys other than this one are as they were.
pub proof fn lemma_put_and_delete_on_one_key(state: Contents, key: Seq<char>, value: Seq<char>)
    ensures
        !(Mutation::Delete { key }).apply((Mutation::Put { key, value }).apply(state)).contains_key(
            key,
        ),
        (Mutation::Put { key, value }).apply((Mutation::Delete { key }).apply(state)).contains_key(
            key,
        ),
        (Mutation::Put { key, value }).apply((Mutation::Delete { key }).apply(state))[key] == value,
        (Mutation::Delete { key }).apply((Mutation::Put { key, value }).apply(state))
            == state.remove(key),
        (Mutation::Put { key, value }).apply((Mutation::Delete { key }).apply(state))
            == state.insert(key, value),
{
    assert(state.insert(key, value).remove(key) =~= state.remove(key));
    assert(state.remove(key).insert(key, value) =~= state.insert(key, value));
}

} // verus!
