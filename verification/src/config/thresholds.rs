//! Threshold tables: keys are written as text in the file and are numbers
//! in the resolved configuration.

use crate::config::ConfigError;
use std::collections::HashMap;
use vstd::prelude::*;

verus! {

broadcast use vstd::std_specs::hash::group_hash_axioms;

/// An ASCII decimal digit.
pub open spec fn is_digit(c: char) -> bool {
    '0' <= c && c <= '9'
}

/// The number a run of decimal digits denotes, most significant digit first.
pub open spec fn decimal_value(digits: Seq<char>) -> nat
    decreases digits.len(),
{
    if digits.len() == 0 {
        0
    } else {
        decimal_value(digits.drop_last()) * 10 + (digits.last() as nat - '0' as nat) as nat
    }
}

/// The text of a key without its optional leading `+`.
pub open spec fn unsigned_part(text: Seq<char>) -> Seq<char> {
    if text.len() > 0 && text[0] == '+' {
        text.subrange(1, text.len() as int)
    } else {
        text
    }
}

/// The number a threshold key denotes: an optional `+`, then one or more
/// decimal digits whose value fits in 64 bits. Anything else is no key.
pub open spec fn threshold_key(text: Seq<char>) -> Option<u64> {
    let digits = unsigned_part(text);
    if digits.len() > 0 && (forall|i: int| 0 <= i < digits.len() ==> is_digit(#[trigger] digits[i]))
        && decimal_value(digits) <= u64::MAX {
        Some(decimal_value(digits) as u64)
    } else {
        None
    }
}

/// Every key of the table denotes a number.
pub open spec fn keys_are_numbers(entries: Seq<(String, String)>) -> bool {
    forall|i: int| 0 <= i < entries.len() ==> threshold_key(#[trigger] entries[i].0@) is Some
}

/// The table keyed by number. Where two keys denote the same number the
/// later entry stands.
pub open spec fn numbered(entries: Seq<(String, String)>) -> Map<u64, String>
    decreases entries.len(),
{
    if entries.len() == 0 {
        Map::empty()
    } else {
        numbered(entries.drop_last()).insert(
            threshold_key(entries.last().0@).unwrap(),
            entries.last().1,
        )
    }
}

/// The number the key of the entry at `position` denotes.
pub open spec fn key_at(entries: Seq<(String, String)>, position: int) -> u64 {
    threshold_key(entries[position].0@).unwrap()
}

/// The numbered table has exactly the numbers that the keys of the entries
/// denote.
pub proof fn lemma_numbered_keys(entries: Seq<(String, String)>, key: u64)
    ensures
        numbered(entries).contains_key(key) <==> exists|position: int|
            0 <= position < entries.len() && #[trigger] key_at(entries, position) == key,
    decreases entries.len(),
{
    if entries.len() > 0 {
        let before = entries.drop_last();
        lemma_numbered_keys(before, key);
        let last = entries.len() - 1;
        if numbered(entries).contains_key(key) {
            if key_at(entries, last) != key {
                let position = choose|position: int|
                    0 <= position < before.len() && #[trigger] key_at(before, position) == key;
                assert(key_at(entries, position) == key);
            }
        }
        if exists|position: int|
            0 <= position < entries.len() && #[trigger] key_at(entries, position) == key {
            let position = choose|position: int|
                0 <= position < entries.len() && #[trigger] key_at(entries, position) == key;
            if position < last {
                assert(key_at(before, position) == key);
            }
        }
    }
}

/// Under a number, the numbered table holds the value of the last entry
/// whose key denotes that number.
pub proof fn lemma_numbered_value(entries: Seq<(String, String)>, position: int)
    requires
        0 <= position < entries.len(),
        forall|later: int|
            position < later < entries.len() ==> #[trigger] key_at(entries, later) != key_at(
                entries,
                position,
            ),
    ensures
        numbered(entries).contains_key(key_at(entries, position)),
        numbered(entries)[key_at(entries, position)] == entries[position].1,
    decreases entries.len(),
{
    let last = entries.len() - 1;
    if position < last {
        let before = entries.drop_last();
        assert(key_at(entries, last) != key_at(entries, position));
        assert forall|later: int| position < later < before.len() implies #[trigger] key_at(
            before,
            later,
        ) != key_at(before, position) by {
            assert(key_at(entries, later) != key_at(entries, position));
        }
        lemma_numbered_value(before, position);
    }
}

/// Calls `str::parse::<u64>` of the standard library, which is trusted to
/// accept exactly an optional `+` followed by one or more ASCII decimal
/// digits whose value fits in 64 bits, and to return that value.
#[verifier::external_body]
fn parse_key(text: &str) -> (key: Option<u64>)
    ensures
        key == threshold_key(text@),
{
    text.parse::<u64>().ok()
}

/// Resolves the keys of a threshold table to numbers.
///
/// Fails when some key is not a number, and otherwise returns the table
/// keyed by number.
pub fn parse_als_thresholds(entries: Vec<(String, String)>) -> (table: Result<
    HashMap<u64, String>,
    ConfigError,
>)
    ensures
        keys_are_numbers(entries@) ==> (table matches Ok(t) && t@ == numbered(entries@)),
        !keys_are_numbers(entries@) ==> table == Err::<HashMap<u64, String>, ConfigError>(
            ConfigError::InvalidThreshold,
        ),
{
    let mut table: HashMap<u64, String> = HashMap::new();
    let ghost all = entries@;
    for entry in it: entries.into_iter()
        invariant
            it.seq() == all,
            keys_are_numbers(all.take(it.index() as int)),
            table@ == numbered(all.take(it.index() as int)),
    {
        let ghost before = all.take(it.index() as int);
        let ghost after = all.take(it.index() + 1);
        proof {
            assert(after.drop_last() == before);
            assert(after.last() == entry);
        }
        let (key, value) = entry;
        match parse_key(key.as_str()) {
            Some(number) => {
                table.insert(number, value);
                proof {
                    assert forall|i: int| 0 <= i < after.len() implies threshold_key(
                        #[trigger] after[i].0@,
                    ) is Some by {
                        if i < before.len() {
                            assert(after[i] == before[i]);
                        }
                    }
                }
            },
            None => {
                assert(threshold_key(all[it.index() as int].0@) is None);
                return Err(ConfigError::InvalidThreshold);
            },
        }
    }
    assert(all.take(all.len() as int) == all);
    Ok(table)
}

} // verus!
