//! Property lists: the named properties of a node, one entry per key.
//!
//! The properties of a node are a mapping from keys to values. They are
//! held as a list of entries, so that they can be written and read back in
//! one order, and looked at as a mapping: what a list gives to a key is the
//! value of the first entry that holds the key.

use vstd::prelude::*;
use crate::value::{Value, ValueModel};

verus! {

/// The entries of a property list, one by one.
pub open spec fn properties_model(entries: Seq<(String, Value)>) -> Seq<(Seq<char>, ValueModel)> {
    Seq::new(entries.len(), |i: int| (entries[i].0@, entries[i].1@))
}

/// Whether no two entries of a property list share a key.
pub open spec fn keys_distinct(entries: Seq<(Seq<char>, ValueModel)>) -> bool {
    forall|i: int, j: int|
        0 <= i < j < entries.len() ==> (#[trigger] entries[i]).0 != (#[trigger] entries[j]).0
}

/// Whether `i` is the first place in `entries` that holds `key`.
pub open spec fn first_with_key(
    entries: Seq<(Seq<char>, ValueModel)>,
    key: Seq<char>,
    i: int,
) -> bool {
    &&& 0 <= i < entries.len()
    &&& entries[i].0 == key
    &&& forall|j: int| 0 <= j < i ==> (#[trigger] entries[j]).0 != key
}

/// A property list after `key` was set to `value`: the entry that held the
/// key holds the new value, in its old place; without such an entry, a new
/// one stands at the end. So of two values given for one key the later wins.
pub open spec fn with_property(
    entries: Seq<(Seq<char>, ValueModel)>,
    key: Seq<char>,
    value: ValueModel,
) -> Seq<(Seq<char>, ValueModel)> {
    if exists|i: int| first_with_key(entries, key, i) {
        entries.update(choose|i: int| first_with_key(entries, key, i), (key, value))
    } else {
        entries.push((key, value))
    }
}

/// The value that a property list gives to `key`: that of the first entry
/// that holds the key, if there is one.
pub open spec fn property(entries: Seq<(Seq<char>, ValueModel)>, key: Seq<char>) -> Option<
    ValueModel,
> {
    if exists|i: int| first_with_key(entries, key, i) {
        Some(entries[choose|i: int| first_with_key(entries, key, i)].1)
    } else {
        None
    }
}

/// Whether two property lists are the same mapping: they give the same to
/// every key, in whatever order their entries stand.
pub open spec fn same_properties(
    a: Seq<(Seq<char>, ValueModel)>,
    b: Seq<(Seq<char>, ValueModel)>,
) -> bool {
    forall|key: Seq<char>| property(a, key) == property(b, key)
}

/// Setting a key in a property list without repeated keys leaves it without
/// repeated keys.
pub proof fn with_property_keeps_keys_distinct(
    entries: Seq<(Seq<char>, ValueModel)>,
    key: Seq<char>,
    value: ValueModel,
)
    requires
        keys_distinct(entries),
    ensures
        keys_distinct(with_property(entries, key, value)),
{
    let after = with_property(entries, key, value);
    if exists|i: int| first_with_key(entries, key, i) {
        let at = choose|i: int| first_with_key(entries, key, i);
        assert forall|i: int, j: int| 0 <= i < j < after.len() implies (#[trigger] after[i]).0 != (
        #[trigger] after[j]).0 by {
            assert(after[i].0 == entries[i].0);
            assert(after[j].0 == entries[j].0);
        }
    } else {
        assert forall|i: int, j: int| 0 <= i < j < after.len() implies (#[trigger] after[i]).0 != (
        #[trigger] after[j]).0 by {
            if j == entries.len() {
                assert(!first_with_key(entries, key, i));
                if entries[i].0 == key {
                    let least = least_with_key(entries, key, i);
                    assert(first_with_key(entries, key, least));
                }
            } else {
                assert(after[i] == entries[i]);
                assert(after[j] == entries[j]);
            }
        }
    }
}

proof fn least_with_key(entries: Seq<(Seq<char>, ValueModel)>, key: Seq<char>, at: int) -> (least:
    int)
    requires
        0 <= at < entries.len(),
        entries[at].0 == key,
    ensures
        first_with_key(entries, key, least),
    decreases at,
{
    if exists|j: int| 0 <= j < at && (#[trigger] entries[j]).0 == key {
        let j = choose|j: int| 0 <= j < at && (#[trigger] entries[j]).0 == key;
        least_with_key(entries, key, j)
    } else {
        at
    }
}

/// At most one place is the first that holds a key.
pub proof fn first_with_key_is_unique(
    entries: Seq<(Seq<char>, ValueModel)>,
    key: Seq<char>,
    i: int,
    j: int,
)
    requires
        first_with_key(entries, key, i),
        first_with_key(entries, key, j),
    ensures
        i == j,
{
    if i < j {
        assert(entries[i].0 != key);
    } else if j < i {
        assert(entries[j].0 != key);
    }
}

/// Setting a key makes the list give the new value to that key and leaves
/// what it gives to every other key as it was.
pub proof fn with_property_sets_the_key(
    entries: Seq<(Seq<char>, ValueModel)>,
    key: Seq<char>,
    value: ValueModel,
    other: Seq<char>,
)
    ensures
        property(with_property(entries, key, value), key) == Some(value),
        other != key ==> property(with_property(entries, key, value), other) == property(
            entries,
            other,
        ),
{
    let after = with_property(entries, key, value);
    let at = if exists|i: int| first_with_key(entries, key, i) {
        choose|i: int| first_with_key(entries, key, i)
    } else {
        entries.len() as int
    };
    if !exists|i: int| first_with_key(entries, key, i) {
        assert forall|j: int| 0 <= j < entries.len() implies (#[trigger] entries[j]).0 != key by {
            if entries[j].0 == key {
                let least = least_with_key(entries, key, j);
            }
        }
    }
    assert forall|j: int| 0 <= j < after.len() && j != at implies #[trigger] after[j]
        == entries[j] by {}
    assert(after[at] == (key, value));
    assert forall|j: int| 0 <= j < at implies (#[trigger] after[j]).0 != key by {
        assert(after[j] == entries[j]);
    }
    assert(first_with_key(after, key, at));
    first_with_key_is_unique(after, key, at, choose|i: int| first_with_key(after, key, i));
    if other != key {
        if exists|i: int| first_with_key(entries, other, i) {
            let i = choose|i: int| first_with_key(entries, other, i);
            assert(after[i] == entries[i]);
            assert forall|j: int| 0 <= j < i implies (#[trigger] after[j]).0 != other by {
                if j != at {
                    assert(after[j] == entries[j]);
                }
            }
            assert(first_with_key(after, other, i));
            first_with_key_is_unique(
                after,
                other,
                i,
                choose|j: int| first_with_key(after, other, j),
            );
        } else {
            if exists|j: int| first_with_key(after, other, j) {
                let j = choose|j: int| first_with_key(after, other, j);
                assert(j != at);
                assert(after[j] == entries[j]);
                let least = least_with_key(entries, other, j);
            }
        }
    }
}

/// Finds the value that a property list gives to `key`.
pub fn find_property<'a>(entries: &'a Vec<(String, Value)>, key: &String) -> (found: Option<
    &'a Value,
>)
    ensures
        match found {
            Some(value) => property(properties_model(entries@), key@) == Some(value@),
            None => property(properties_model(entries@), key@) is None,
        },
{
    let ghost all = properties_model(entries@);
    let mut i: usize = 0;
    while i < entries.len()
        invariant
            i <= entries.len(),
            all == properties_model(entries@),
            forall|j: int| 0 <= j < i ==> (#[trigger] all[j]).0 != key@,
        decreases entries.len() - i,
    {
        if entries[i].0 == *key {
            assert(all[i as int] == (entries[i as int].0@, entries[i as int].1@));
            assert(first_with_key(all, key@, i as int));
            assert((choose|j: int| first_with_key(all, key@, j)) == i);
            return Some(&entries[i].1);
        }
        i += 1;
    }
    assert forall|j: int| !first_with_key(all, key@, j) by {
        if 0 <= j < all.len() {
            assert(all[j].0 != key@);
        }
    }
    None
}

/// Sets `key` to `value` in a property list: an entry that holds the key
/// gets the new value, otherwise a new entry is added at the end.
pub fn put_property(entries: &mut Vec<(String, Value)>, key: String, value: Value)
    ensures
        properties_model(final(entries)@) == with_property(
            properties_model(old(entries)@),
            key@,
            value@,
        ),
{
    let ghost before = properties_model(entries@);
    let mut i: usize = 0;
    while i < entries.len()
        invariant
            i <= entries.len(),
            before == properties_model(old(entries)@),
            before == properties_model(entries@),
            forall|j: int| 0 <= j < i ==> (#[trigger] before[j]).0 != key@,
        decreases entries.len() - i,
    {
        if entries[i].0 == key {
            assert(before[i as int].0 == entries[i as int].0@);
            assert(first_with_key(before, key@, i as int));
            assert((choose|j: int| first_with_key(before, key@, j)) == i);
            entries.set(i, (key, value));
            assert(properties_model(entries@) =~= before.update(i as int, (key@, value@)));
            return ;
        }
        i += 1;
    }
    assert forall|j: int| !first_with_key(before, key@, j) by {
        if 0 <= j < before.len() {
            assert(before[j].0 != key@);
        }
    }
    entries.push((key, value));
    assert(properties_model(entries@) =~= before.push((key@, value@)));
}

/// Whether `a` gives to each of its own keys what `b` gives to it.
fn agrees_on_own_keys(a: &Vec<(String, Value)>, b: &Vec<(String, Value)>) -> (agree: bool)
    ensures
        agree == forall|i: int|
            0 <= i < a.len() ==> property(properties_model(a@), (#[trigger] a[i]).0@) == property(
                properties_model(b@),
                a[i].0@,
            ),
{
    let mut i: usize = 0;
    while i < a.len()
        invariant
            i <= a.len(),
            forall|k: int|
                0 <= k < i ==> property(properties_model(a@), (#[trigger] a[k]).0@) == property(
                    properties_model(b@),
                    a[k].0@,
                ),
        decreases a.len() - i,
    {
        let same = match (find_property(a, &a[i].0), find_property(b, &a[i].0)) {
            (Some(mine), Some(theirs)) => mine.same_as(theirs),
            (None, None) => true,
            _ => false,
        };
        if !same {
            return false;
        }
        i += 1;
    }
    true
}

/// Whether two property lists are the same mapping, in whatever order their
/// entries stand.
pub fn properties_agree(a: &Vec<(String, Value)>, b: &Vec<(String, Value)>) -> (same: bool)
    ensures
        same == same_properties(properties_model(a@), properties_model(b@)),
{
    let ghost ma = properties_model(a@);
    let ghost mb = properties_model(b@);
    if !agrees_on_own_keys(a, b) {
        return false;
    }
    if !agrees_on_own_keys(b, a) {
        return false;
    }
    assert forall|key: Seq<char>| property(ma, key) == property(mb, key) by {
        if exists|i: int| first_with_key(ma, key, i) {
            let i = choose|i: int| first_with_key(ma, key, i);
            assert(a[i].0@ == key);
        } else if exists|j: int| first_with_key(mb, key, j) {
            let j = choose|j: int| first_with_key(mb, key, j);
            assert(b[j].0@ == key);
        }
    }
    true
}

} // verus!
