//! The record that a projection makes of one object: an ordered mapping from output key
//! to value.
//!
//! A key occurs once. Writing under a key that is there replaces its value and leaves
//! its place; writing under a new key adds it at the end.

use vstd::prelude::*;
use crate::value::{first_index, lemma_first_index, lemma_first_index_is, Value, ValueView};

verus! {

/// The mathematical content of a [`Record`]: its entries in order, each a key and a
/// value.
pub type RecordView<P> = Seq<(Seq<char>, ValueView<P>)>;

/// The keys of a sequence of entries, in order.
pub open spec fn record_keys<P>(entries: RecordView<P>) -> Seq<Seq<char>> {
    Seq::new(entries.len(), |i: int| entries[i].0)
}

/// Whether no key occurs twice among the entries.
pub open spec fn distinct_keys<P>(entries: RecordView<P>) -> bool {
    forall|i: int, j: int| 0 <= i < j < entries.len() ==> entries[i].0 != entries[j].0
}

/// The value under `key`, if the entries hold the key.
pub open spec fn record_get<P>(entries: RecordView<P>, key: Seq<char>) -> Option<
    ValueView<P>,
> {
    match first_index(record_keys(entries), key) {
        Some(i) => Some(entries[i].1),
        None => None,
    }
}

/// The entries after `value` is written under `key`: in the place of the key where it
/// is there, at the end where it is new.
pub open spec fn record_put<P>(
    entries: RecordView<P>,
    key: Seq<char>,
    value: ValueView<P>,
) -> RecordView<P> {
    match first_index(record_keys(entries), key) {
        Some(i) => entries.update(i, (key, value)),
        None => entries.push((key, value)),
    }
}

/// Writing under a key keeps the keys distinct, makes the value the one under that key,
/// and changes the value under no other key. It adds one entry where the key is new and
/// none where it is there; the keys that were there keep their places.
pub proof fn lemma_record_put<P>(
    entries: RecordView<P>,
    key: Seq<char>,
    value: ValueView<P>,
)
    requires
        distinct_keys(entries),
    ensures
        distinct_keys(record_put(entries, key, value)),
        record_get(record_put(entries, key, value), key) == Some(value),
        forall|other: Seq<char>|
            other != key ==> record_get(record_put(entries, key, value), other) == record_get(
                entries,
                other,
            ),
        record_put(entries, key, value).len() == if record_get(entries, key) is Some {
            entries.len()
        } else {
            entries.len() + 1
        },
        forall|i: int|
            0 <= i < entries.len() ==> (#[trigger] record_put(entries, key, value)[i]).0
                == entries[i].0,
{
    let keys = record_keys(entries);
    let after = record_put(entries, key, value);
    let after_keys = record_keys(after);
    lemma_first_index(keys, key);
    match first_index(keys, key) {
        Some(i) => {
            assert(after_keys =~= keys);
            assert forall|a: int, b: int| 0 <= a < b < after.len() implies after[a].0
                != after[b].0 by {
                assert(after[a].0 == keys[a] && after[b].0 == keys[b]);
                assert(keys[a] == entries[a].0 && keys[b] == entries[b].0);
            }
            lemma_first_index_is(after_keys, key, i);
            assert forall|other: Seq<char>| other != key implies record_get(after, other)
                == record_get(entries, other) by {
                lemma_first_index(keys, other);
            }
        },
        None => {
            let end = entries.len() as int;
            assert(after_keys =~= keys.push(key));
            assert forall|j: int| 0 <= j < end implies after_keys[j] != key by {
                assert(after_keys[j] == keys[j]);
            }
            assert forall|a: int, b: int| 0 <= a < b < after.len() implies after[a].0
                != after[b].0 by {
                assert(after[a].0 == after_keys[a] && after[b].0 == after_keys[b]);
                if b < end {
                    assert(after[a] == entries[a] && after[b] == entries[b]);
                }
            }
            lemma_first_index_is(after_keys, key, end);
            assert forall|other: Seq<char>| other != key implies record_get(after, other)
                == record_get(entries, other) by {
                lemma_first_index(keys, other);
                lemma_first_index(after_keys, other);
                match first_index(keys, other) {
                    Some(k) => {
                        assert(after_keys[k] == other);
                        assert forall|j: int| 0 <= j < k implies after_keys[j] != other by {
                            assert(after_keys[j] == keys[j]);
                        }
                        lemma_first_index_is(after_keys, other, k);
                    },
                    None => {
                        if first_index(after_keys, other) is Some {
                            let k = first_index(after_keys, other)->0;
                            if k < end {
                                assert(keys[k] == after_keys[k]);
                            }
                        }
                    },
                }
            }
        },
    }
}

/// An ordered mapping from output key to value, in which no key occurs twice.
#[derive(Debug, PartialEq, Eq)]
pub struct Record<P> {
    entries: Vec<(String, Value<P>)>,
}

/// The mathematical content of stored entries.
spec fn entries_view<P>(entries: Seq<(String, Value<P>)>) -> RecordView<P> {
    Seq::new(entries.len(), |i: int| (entries[i].0@, entries[i].1@))
}

impl<P> View for Record<P> {
    type V = RecordView<P>;

    closed spec fn view(&self) -> RecordView<P> {
        entries_view(self.entries@)
    }
}

impl<P> Record<P> {
    #[verifier::type_invariant]
    closed spec fn keys_occur_once(self) -> bool {
        distinct_keys(self@)
    }

    /// The record without entries.
    pub fn new() -> (record: Record<P>)
        ensures
            record@ == RecordView::<P>::empty(),
            distinct_keys(record@),
    {
        let record = Record { entries: Vec::new() };
        assert(record@ =~= RecordView::<P>::empty());
        record
    }

    /// The number of entries.
    pub fn len(&self) -> (len: usize)
        ensures
            len == self@.len(),
            distinct_keys(self@),
    {
        proof {
            use_type_invariant(self);
        }
        self.entries.len()
    }

    /// Whether the record has no entry.
    pub fn is_empty(&self) -> (empty: bool)
        ensures
            empty == (self@.len() == 0),
    {
        self.entries.len() == 0
    }

    /// Writes `value` under `key`. Where the key is there, its value is replaced and its
    /// place kept: the last write wins. Where it is new, the entry is added at the end.
    pub fn insert(&mut self, key: String, value: Value<P>)
        ensures
            final(self)@ == record_put(old(self)@, key@, value@),
            distinct_keys(final(self)@),
    {
        proof {
            use_type_invariant(&*self);
            lemma_record_put(self@, key@, value@);
        }
        let ghost keys = record_keys(self@);
        let mut place: Option<usize> = None;
        let mut i: usize = 0;
        while i < self.entries.len() && place.is_none()
            invariant
                i <= self.entries.len(),
                keys == record_keys(self@),
                match place {
                    Some(at) => first_index(keys, key@) == Some(at as int) && at < i,
                    None => forall|j: int| 0 <= j < i ==> keys[j] != key@,
                },
            decreases self.entries.len() - i,
        {
            if self.entries[i].0 == key {
                proof {
                    assert(keys[i as int] == key@);
                    lemma_first_index_is(keys, key@, i as int);
                }
                place = Some(i);
            } else {
                assert(keys[i as int] != key@);
            }
            i = i + 1;
        }
        proof {
            lemma_first_index(keys, key@);
        }
        let ghost before = self@;
        let mut entries: Vec<(String, Value<P>)> = Vec::new();
        core::mem::swap(&mut self.entries, &mut entries);
        match place {
            Some(at) => {
                entries.set(at, (key, value));
            },
            None => {
                entries.push((key, value));
            },
        }
        assert(entries_view(entries@) =~= record_put(before, key@, value@));
        self.entries = entries;
    }

    /// The value under `key`, or `None` where the record does not hold the key.
    pub fn get(&self, key: &str) -> (found: Option<&Value<P>>)
        ensures
            match found {
                Some(value) => record_get(self@, key@) == Some(value@),
                None => record_get(self@, key@) is None,
            },
    {
        let wanted = String::from_str(key);
        let ghost keys = record_keys(self@);
        let mut i: usize = 0;
        while i < self.entries.len()
            invariant
                i <= self.entries.len(),
                wanted@ == key@,
                keys == record_keys(self@),
                forall|j: int| 0 <= j < i ==> keys[j] != key@,
            decreases self.entries.len() - i,
        {
            if self.entries[i].0 == wanted {
                proof {
                    assert(keys[i as int] == key@);
                    lemma_first_index_is(keys, key@, i as int);
                }
                return Some(&self.entries[i].1);
            }
            assert(keys[i as int] != key@);
            i = i + 1;
        }
        proof {
            lemma_first_index(keys, key@);
        }
        None
    }

    /// The key and the value of the entry at `index`, counted from zero in the order in
    /// which the keys were first written; `None` from the number of entries on.
    pub fn entry(&self, index: usize) -> (found: Option<(&String, &Value<P>)>)
        ensures
            match found {
                Some((key, value)) => index < self@.len() && self@[index as int] == (
                    key@,
                    value@,
                ),
                None => index >= self@.len(),
            },
    {
        if index < self.entries.len() {
            Some((&self.entries[index].0, &self.entries[index].1))
        } else {
            None
        }
    }
}

} // verus!
