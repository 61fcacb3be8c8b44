//! The watch-lists: which services and timers a user wants summarised, kept
//! as JSON arrays of names in an injected key-value store.
use vstd::prelude::*;
use crate::error::{ServiceError, TimerError};
use crate::handlers::{last_value, pair_views, query_param};
use crate::text::{chars_of, string_of, push_str, opt_str};

verus! {

/// A string store that the host provides.
pub trait KvStore: Sized {
    /// `r` is an answer that this store may give when asked for `key`. A
    /// store of the host's can give any; one kept here says which.
    open spec fn gets(&self, key: Seq<char>, r: Result<Option<String>, String>) -> bool {
        true
    }

    /// Storing `value` under `key` may take this store to `after` with the
    /// result `r`.
    open spec fn sets(&self, after: Self, key: Seq<char>, value: Seq<char>, r: Result<(), String>) -> bool {
        true
    }

    /// Deleting `key` may take this store to `after` with the result `r`.
    open spec fn deletes(&self, after: Self, key: Seq<char>, r: Result<(), String>) -> bool {
        true
    }

    fn get(&self, key: &str) -> (r: Result<Option<String>, String>)
        ensures
            self.gets(key@, r),
    ;

    fn set(&mut self, key: &str, value: &str) -> (r: Result<(), String>)
        ensures
            old(self).sets(*final(self), key@, value@, r),
    ;

    fn delete(&mut self, key: &str) -> (r: Result<(), String>)
        ensures
            old(self).deletes(*final(self), key@, r),
    ;
}

/// The names that a stored value holds: none where nothing is stored.
pub open spec fn watched_names(stored: Option<Seq<char>>) -> Option<Seq<Seq<char>>> {
    match stored {
        None => Some(Seq::empty()),
        Some(s) => json_string_list_of(s),
    }
}

/// The result of reading a watch-list for the store's answer.
pub open spec fn watched_outcome<E>(g: Result<Option<String>, String>, r: Result<Vec<String>, E>, bad_list: spec_fn(E) -> bool, io: spec_fn(E) -> bool) -> bool {
    match g {
        Err(_) => r matches Err(e) && io(e),
        Ok(stored) => match watched_names(opt_str(stored)) {
            Some(names) => r matches Ok(v) && name_views(v@) == names,
            None => r matches Err(e) && bad_list(e),
        },
    }
}

pub open spec fn name_views(v: Seq<String>) -> Seq<Seq<char>> {
    v.map_values(|s: String| s@)
}

/// The JSON array of strings that `serde_json` writes for `items`.
pub uninterp spec fn json_string_list(items: Seq<Seq<char>>) -> Seq<char>;

/// The strings of a JSON array of strings, where the text is one.
pub uninterp spec fn json_string_list_of(text: Seq<char>) -> Option<Seq<Seq<char>>>;

/// Relies on `serde_json::to_string` for a slice of strings.
#[verifier::external_body]
fn names_to_json(names: &Vec<String>) -> (r: Option<String>)
    ensures
        r is Some,
        r matches Some(s) ==> s@ == json_string_list(name_views(names@)),
{
    serde_json::to_string(names.as_slice()).ok()
}

/// Relies on `serde_json::from_str::<Vec<String>>`.
#[verifier::external_body]
fn names_from_json(text: &str) -> (r: Option<Vec<String>>)
    ensures
        match r {
            Some(v) => json_string_list_of(text@) == Some(name_views(v@)),
            None => json_string_list_of(text@) is None,
        },
{
    serde_json::from_str::<Vec<String>>(text).ok()
}

/// The names that a stored value holds: none where nothing is stored.
pub fn watched_from_stored(stored: Option<String>) -> (r: Option<Vec<String>>)
    ensures
        match watched_names(opt_str(stored)) {
            Some(names) => (r matches Some(v) && name_views(v@) == names),
            None => r is None,
        },
{
    proof {
        assert(name_views(Seq::<String>::empty()) =~= Seq::<Seq<char>>::empty());
    }
    match stored {
        None => Some(Vec::new()),
        Some(s) => names_from_json(s.as_str()),
    }
}

fn store_error(prefix: &str, m: String) -> (r: String)
    ensures
        r@ == prefix@ + m@,
{
    let mut v = chars_of(prefix);
    push_str(&mut v, m.as_str());
    string_of(&v)
}

/// The watched services; an empty list where none were saved.
pub fn get_watched_services<K: KvStore>(kv: &K) -> (r: Result<Vec<String>, ServiceError>)
    ensures
        exists|g: Result<Option<String>, String>|
            #[trigger] kv.gets("watched_services"@, g) && watched_outcome(
                g,
                r,
                |e: ServiceError| e is ParseError,
                |e: ServiceError| e is IoError,
            ),
{
    let g = kv.get("watched_services");
    let r = match g {
        Err(m) => Err(ServiceError::IoError(store_error("KV storage error: ", m))),
        Ok(stored) => match watched_from_stored(stored) {
            Some(v) => Ok(v),
            None => Err(ServiceError::ParseError(string_of(&chars_of("JSON parse error: not a list of names")))),
        },
    };
    assert(watched_outcome(g, r, |e: ServiceError| e is ParseError, |e: ServiceError| e is IoError));
    r
}

/// Saves the watched services as a JSON array of names.
pub fn save_watched_services<K: KvStore>(kv: &mut K, services: &Vec<String>) -> (r: Result<
    (),
    ServiceError,
>)
    ensures
        exists|s: Result<(), String>|
            #[trigger] old(kv).sets(
                *final(kv),
                "watched_services"@,
                json_string_list(name_views(services@)),
                s,
            ) && (s is Ok <==> r is Ok) && (r matches Err(e) ==> e is IoError),
{
    let text = match names_to_json(services) {
        Some(t) => t,
        None => return Err(ServiceError::ParseError(string_of(&chars_of("JSON encode error")))),
    };
    let s = kv.set("watched_services", text.as_str());
    match s {
        Ok(()) => Ok(()),
        Err(m) => Err(ServiceError::IoError(store_error("KV storage error: ", m))),
    }
}

/// The watched timers; an empty list where none were saved.
pub fn get_watched_timers<K: KvStore>(kv: &K) -> (r: Result<Vec<String>, TimerError>)
    ensures
        exists|g: Result<Option<String>, String>|
            #[trigger] kv.gets("watched_timers"@, g) && watched_outcome(
                g,
                r,
                |e: TimerError| e is JsonError,
                |e: TimerError| e is IoError,
            ),
{
    let g = kv.get("watched_timers");
    let r = match g {
        Err(m) => Err(TimerError::IoError(store_error("KV storage error: ", m))),
        Ok(stored) => match watched_from_stored(stored) {
            Some(v) => Ok(v),
            None => Err(TimerError::JsonError(string_of(&chars_of("not a list of names")))),
        },
    };
    assert(watched_outcome(g, r, |e: TimerError| e is JsonError, |e: TimerError| e is IoError));
    r
}

/// Saves the watched timers as a JSON array of names.
pub fn save_watched_timers<K: KvStore>(kv: &mut K, timers: &Vec<String>) -> (r: Result<
    (),
    TimerError,
>)
    ensures
        exists|s: Result<(), String>|
            #[trigger] old(kv).sets(
                *final(kv),
                "watched_timers"@,
                json_string_list(name_views(timers@)),
                s,
            ) && (s is Ok <==> r is Ok) && (r matches Err(e) ==> e is IoError),
{
    let text = match names_to_json(timers) {
        Some(t) => t,
        None => return Err(TimerError::JsonError(string_of(&chars_of("cannot encode names")))),
    };
    let s = kv.set("watched_timers", text.as_str());
    match s {
        Ok(()) => Ok(()),
        Err(m) => Err(TimerError::IoError(store_error("KV storage error: ", m))),
    }
}

/// A store held in memory, for tests and for hosts without one; a later
/// value for a key hides an earlier one.
pub struct MemoryKvStore {
    entries: Vec<(String, String)>,
}

impl MemoryKvStore {
    /// The value stored under `key`.
    pub closed spec fn value(&self, key: Seq<char>) -> Option<Seq<char>> {
        last_value(pair_views(self.entries@), key)
    }

    pub fn new() -> (r: Self)
        ensures
            forall|k: Seq<char>| r.value(k) is None,
    {
        MemoryKvStore { entries: Vec::new() }
    }

    /// The value stored under `key`.
    pub fn lookup(&self, key: &str) -> (r: Option<String>)
        ensures
            opt_str(r) == self.value(key@),
    {
        query_param(&self.entries, key)
    }

    /// Stores `value` under `key`, replacing what was there.
    pub fn store(&mut self, key: &str, value: &str)
        ensures
            final(self).value(key@) == Some(value@),
            forall|k: Seq<char>| k != key@ ==> final(self).value(k) == old(self).value(k),
    {
        let ghost before = pair_views(self.entries@);
        let entry = (string_of(&chars_of(key)), string_of(&chars_of(value)));
        self.entries.push(entry);
        assert(pair_views(self.entries@) =~= before.push((key@, value@)));
        assert(pair_views(self.entries@).drop_last() =~= before);
    }

    /// Removes what is stored under `key`.
    pub fn remove(&mut self, key: &str)
        ensures
            final(self).value(key@) is None,
            forall|k: Seq<char>| k != key@ ==> final(self).value(k) == old(self).value(k),
    {
        let ghost before = pair_views(self.entries@);
        let mut kept: Vec<(String, String)> = Vec::new();
        let k = chars_of(key);
        let mut i: usize = 0;
        while i < self.entries.len()
            invariant
                i <= self.entries@.len(),
                before == pair_views(self.entries@),
                k@ == key@,
                forall|x: Seq<char>|
                    #[trigger] last_value(pair_views(kept@), x) == if x == key@ {
                        None
                    } else {
                        last_value(before.take(i as int), x)
                    },
            decreases self.entries.len() - i,
        {
            let name = chars_of(self.entries[i].0.as_str());
            let ghost t = before.take(i + 1);
            assert(t.drop_last() =~= before.take(i as int));
            assert(t.last() == (name@, self.entries@[i as int].1@));
            if !crate::text::chars_eq(&name, &k) {
                let e = (string_of(&name), string_of(&chars_of(self.entries[i].1.as_str())));
                let ghost kb = pair_views(kept@);
                kept.push(e);
                assert(pair_views(kept@) =~= kb.push((e.0@, e.1@)));
                assert(pair_views(kept@).drop_last() =~= kb);
                assert(pair_views(kept@).last() == (name@, self.entries@[i as int].1@));
                assert(name@ != key@);
                assert forall|x: Seq<char>| #[trigger] last_value(pair_views(kept@), x) == if x == key@ {
                    None
                } else {
                    last_value(t, x)
                } by {
                    assert(last_value(pair_views(kept@), x) == if x == name@ {
                        Some(self.entries@[i as int].1@)
                    } else {
                        last_value(kb, x)
                    });
                    assert(last_value(t, x) == if x == name@ {
                        Some(self.entries@[i as int].1@)
                    } else {
                        last_value(before.take(i as int), x)
                    });
                }
            } else {
                assert forall|x: Seq<char>| #[trigger] last_value(pair_views(kept@), x) == if x == key@ {
                    None
                } else {
                    last_value(t, x)
                } by {
                    if x != key@ {
                        assert(last_value(t, x) == last_value(before.take(i as int), x));
                    }
                }
            }
            i += 1;
        }
        assert(before.take(i as int) =~= before);
        self.entries = kept;
    }
}

impl KvStore for MemoryKvStore {
    /// The value stored under the key; asking never fails.
    open spec fn gets(&self, key: Seq<char>, r: Result<Option<String>, String>) -> bool {
        r matches Ok(v) && opt_str(v) == self.value(key)
    }

    /// The value replaces what was stored under the key; other keys keep theirs.
    open spec fn sets(&self, after: Self, key: Seq<char>, value: Seq<char>, r: Result<(), String>) -> bool {
        r is Ok && after.value(key) == Some(value) && forall|k: Seq<char>|
            k != key ==> after.value(k) == self.value(k)
    }

    /// Nothing stays under the key; other keys keep theirs.
    open spec fn deletes(&self, after: Self, key: Seq<char>, r: Result<(), String>) -> bool {
        r is Ok && after.value(key) is None && forall|k: Seq<char>|
            k != key ==> after.value(k) == self.value(k)
    }

    fn get(&self, key: &str) -> (r: Result<Option<String>, String>) {
        Ok(self.lookup(key))
    }

    fn set(&mut self, key: &str, value: &str) -> (r: Result<(), String>) {
        self.store(key, value);
        Ok(())
    }

    fn delete(&mut self, key: &str) -> (r: Result<(), String>) {
        self.remove(key);
        Ok(())
    }
}

} // verus!
