//! Dynamic key registry: a mapping from opaque string keys to asset paths,
//! mutated by application code between loading phases and read when a
//! collection's fields are resolved at load-start time.

use vstd::prelude::*;

verus! {

/// Relies on `str`'s `==` (its `core::cmp::PartialEq` impl): two string
/// slices compare equal exactly when they consist of the same characters.
#[verifier::external_body]
fn str_eq(a: &str, b: &str) -> (r: bool)
    ensures
        r == (a@ == b@),
{
    a == b
}

/// The value a list of key/path entries gives to a key: the path of the
/// first entry whose key matches, if any.
pub open spec fn lookup(entries: Seq<(String, String)>, k: Seq<char>) -> Option<Seq<char>>
    decreases entries.len(),
{
    if entries.len() == 0 {
        None
    } else if entries[0].0@ == k {
        Some(entries[0].1@)
    } else {
        lookup(entries.drop_first(), k)
    }
}

/// The map from keys to paths that a list of entries denotes.
pub open spec fn entries_map(entries: Seq<(String, String)>) -> Map<Seq<char>, Seq<char>> {
    Map::new(
        |k: Seq<char>| lookup(entries, k) is Some,
        |k: Seq<char>| lookup(entries, k)->0,
    )
}

/// A registry map extended with a list of key/path pairs, first to last:
/// a later pair overwrites an earlier one with the same key.
pub open spec fn merged(
    m: Map<Seq<char>, Seq<char>>,
    pairs: Seq<(String, String)>,
) -> Map<Seq<char>, Seq<char>>
    decreases pairs.len(),
{
    if pairs.len() == 0 {
        m
    } else {
        merged(m.insert(pairs[0].0@, pairs[0].1@), pairs.drop_first())
    }
}

/// Resource to dynamically resolve keys to asset paths.
///
/// Set the desired key/path pairs before entering a loading phase; a
/// collection field declared with a dynamic key is resolved against this
/// registry when its load is started.
pub struct AssetKeys {
    keys: Vec<(String, String)>,
}

impl View for AssetKeys {
    type V = Map<Seq<char>, Seq<char>>;

    closed spec fn view(&self) -> Map<Seq<char>, Seq<char>> {
        entries_map(self.keys@)
    }
}

proof fn lemma_lookup_first_match(entries: Seq<(String, String)>, k: Seq<char>, i: int)
    requires
        0 <= i < entries.len(),
        entries[i].0@ == k,
        forall|j: int| 0 <= j < i ==> (#[trigger] entries[j]).0@ != k,
    ensures
        lookup(entries, k) == Some(entries[i].1@),
    decreases entries.len(),
{
    if i > 0 {
        lemma_lookup_first_match(entries.drop_first(), k, i - 1);
    }
}

proof fn lemma_lookup_no_match(entries: Seq<(String, String)>, k: Seq<char>)
    requires
        forall|j: int| 0 <= j < entries.len() ==> (#[trigger] entries[j]).0@ != k,
    ensures
        lookup(entries, k) is None,
    decreases entries.len(),
{
    if entries.len() > 0 {
        lemma_lookup_no_match(entries.drop_first(), k);
    }
}

/// Replacing the first entry that holds a key changes only that key's value.
proof fn lemma_lookup_replace(
    entries: Seq<(String, String)>,
    i: int,
    p: (String, String),
    k: Seq<char>,
)
    requires
        0 <= i < entries.len(),
        entries[i].0@ == p.0@,
        forall|j: int| 0 <= j < i ==> (#[trigger] entries[j]).0@ != p.0@,
    ensures
        lookup(entries.update(i, p), k) == (if k == p.0@ {
            Some(p.1@)
        } else {
            lookup(entries, k)
        }),
    decreases entries.len(),
{
    let updated = entries.update(i, p);
    if i == 0 {
        if k == p.0@ {
            assert(updated[0].0@ == k);
        } else {
            assert(updated.drop_first() =~= entries.drop_first());
        }
    } else {
        assert(updated.drop_first() =~= entries.drop_first().update(i - 1, p));
        lemma_lookup_replace(entries.drop_first(), i - 1, p, k);
    }
}

/// Appending an entry only gives a value to its key, and only where the key
/// had none before.
proof fn lemma_lookup_push(entries: Seq<(String, String)>, p: (String, String), k: Seq<char>)
    ensures
        lookup(entries.push(p), k) == (if lookup(entries, k) is Some {
            lookup(entries, k)
        } else if k == p.0@ {
            Some(p.1@)
        } else {
            None
        }),
    decreases entries.len(),
{
    let pushed = entries.push(p);
    assert(pushed.len() == entries.len() + 1);
    if entries.len() == 0 {
        assert(pushed[0] == p);
        assert(pushed.drop_first() =~= Seq::<(String, String)>::empty());
        assert(lookup(pushed.drop_first(), k) is None);
        if k == p.0@ {
            assert(lookup(pushed, k) == Some(p.1@));
        } else {
            assert(lookup(pushed, k) is None);
        }
    } else {
        assert(pushed[0] == entries[0]);
        assert(pushed.drop_first() =~= entries.drop_first().push(p));
        lemma_lookup_push(entries.drop_first(), p, k);
        if entries[0].0@ == k {
            assert(lookup(pushed, k) == Some(entries[0].1@));
            assert(lookup(entries, k) == Some(entries[0].1@));
        } else {
            assert(lookup(pushed, k) == lookup(entries.drop_first().push(p), k));
            assert(lookup(entries, k) == lookup(entries.drop_first(), k));
        }
    }
}

impl AssetKeys {
    /// An empty registry: no key resolves.
    pub fn new() -> (r: AssetKeys)
        ensures
            r@ == Map::<Seq<char>, Seq<char>>::empty(),
    {
        let r = AssetKeys { keys: Vec::new() };
        proof {
            assert(r@ =~= Map::<Seq<char>, Seq<char>>::empty());
        }
        r
    }

    /// Index of the first entry holding `key`, if any.
    fn find_index(&self, key: &str) -> (r: Option<usize>)
        ensures
            match r {
                Some(i) => i < self.keys@.len() && self.keys@[i as int].0@ == key@
                    && (forall|j: int| 0 <= j < i ==> (#[trigger] self.keys@[j]).0@ != key@),
                None => forall|j: int|
                    0 <= j < self.keys@.len() ==> (#[trigger] self.keys@[j]).0@ != key@,
            },
    {
        let mut i: usize = 0;
        while i < self.keys.len()
            invariant
                i <= self.keys@.len(),
                forall|j: int| 0 <= j < i ==> (#[trigger] self.keys@[j]).0@ != key@,
            decreases self.keys@.len() - i,
        {
            if str_eq(self.keys[i].0.as_str(), key) {
                return Some(i);
            }
            i = i + 1;
        }
        None
    }

    /// The registered path for `key`, or `None` when the key was never set.
    pub fn get<'a>(&'a self, key: &str) -> (r: Option<&'a String>)
        ensures
            match r {
                Some(v) => self@.contains_key(key@) && v@ == self@[key@],
                None => !self@.contains_key(key@),
            },
    {
        match self.find_index(key) {
            Some(i) => {
                proof {
                    lemma_lookup_first_match(self.keys@, key@, i as int);
                }
                Some(&self.keys[i].1)
            },
            None => {
                proof {
                    lemma_lookup_no_match(self.keys@, key@);
                }
                None
            },
        }
    }

    /// Get the asset path corresponding to the given key.
    ///
    /// The key must have been registered: an unknown dynamic key is fatal,
    /// loading cannot silently proceed with an undefined asset.
    pub fn get_path_for_key<'a>(&'a self, key: &str) -> (r: &'a str)
        requires
            self@.contains_key(key@),
        ensures
            r@ == self@[key@],
    {
        match self.get(key) {
            Some(v) => v.as_str(),
            None => {
                // contradicts the precondition, by the contract of `get`
                ""
            },
        }
    }

    /// Set the corresponding asset path for the given key.
    ///
    /// In case the key is already known, its value is overwritten.
    pub fn set_asset_key(&mut self, key: String, value: String)
        ensures
            final(self)@ == old(self)@.insert(key@, value@),
    {
        let ghost old_entries = self.keys@;
        match self.find_index(key.as_str()) {
            Some(i) => {
                let ghost p = (key, value);
                self.keys.set(i, (key, value));
                proof {
                    assert forall|k: Seq<char>|
                        lookup(self.keys@, k) == (if k == p.0@ {
                            Some(p.1@)
                        } else {
                            lookup(old_entries, k)
                        }) by {
                        lemma_lookup_replace(old_entries, i as int, p, k);
                    }
                    assert(self@ =~= old(self)@.insert(p.0@, p.1@));
                }
            },
            None => {
                proof {
                    lemma_lookup_no_match(old_entries, key@);
                }
                let ghost p = (key, value);
                self.keys.push((key, value));
                proof {
                    assert forall|k: Seq<char>|
                        lookup(self.keys@, k) == (if k == p.0@ {
                            Some(p.1@)
                        } else {
                            lookup(old_entries, k)
                        }) by {
                        lemma_lookup_push(old_entries, p, k);
                    }
                    assert(self@ =~= old(self)@.insert(p.0@, p.1@));
                }
            },
        }
    }
}

} // verus!
