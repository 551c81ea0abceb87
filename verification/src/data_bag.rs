//! A small keyed value store attached to widget components.
//!
//! Entries are keyed by a caller-chosen token, one value per token: putting a
//! value under a token replaces what that token held before, as in a map.

use vstd::prelude::*;

verus! {

/// The value a token holds in an entry list, scanning front to back.
pub open spec fn spec_bag_get<T>(entries: Seq<(u64, T)>, token: u64) -> Option<T>
    decreases entries.len(),
{
    if entries.len() == 0 {
        None
    } else if entries[0].0 == token {
        Some(entries[0].1)
    } else {
        spec_bag_get(entries.drop_first(), token)
    }
}

/// The entry list after storing `value` under `token`: the first entry for
/// `token` is replaced, or a new entry appended.
pub open spec fn spec_bag_put<T>(entries: Seq<(u64, T)>, token: u64, value: T) -> Seq<(u64, T)>
    decreases entries.len(),
{
    if entries.len() == 0 {
        seq![(token, value)]
    } else if entries[0].0 == token {
        seq![(token, value)] + entries.drop_first()
    } else {
        seq![entries[0]] + spec_bag_put(entries.drop_first(), token, value)
    }
}

/// Storing a value makes it what its token holds, and leaves every other
/// token's value unchanged.
pub proof fn lemma_bag_put_get<T>(entries: Seq<(u64, T)>, token: u64, value: T)
    ensures
        spec_bag_get(spec_bag_put(entries, token, value), token) == Some(value),
        forall|other: u64|
            other != token ==> spec_bag_get(spec_bag_put(entries, token, value), other)
                == spec_bag_get(entries, other),
    decreases entries.len(),
{
    if entries.len() == 0 {
        let r = spec_bag_put(entries, token, value);
        assert(r == seq![(token, value)]);
        assert forall|other: u64| other != token implies spec_bag_get(r, other) == spec_bag_get(
            entries,
            other,
        ) by {
            assert(r[0] == (token, value));
            assert(r.drop_first().len() == 0);
            assert(spec_bag_get(r.drop_first(), other) is None);
            assert(spec_bag_get(r, other) is None);
            assert(spec_bag_get(entries, other) is None);
        }
    } else if entries[0].0 == token {
        let r = spec_bag_put(entries, token, value);
        assert(r == seq![(token, value)] + entries.drop_first());
        assert(r[0] == (token, value));
        assert(r.drop_first() == entries.drop_first());
    } else {
        let r = spec_bag_put(entries, token, value);
        assert(r == seq![entries[0]] + spec_bag_put(entries.drop_first(), token, value));
        assert(r[0] == entries[0]);
        assert(r.drop_first() == spec_bag_put(entries.drop_first(), token, value));
        lemma_bag_put_get(entries.drop_first(), token, value);
        assert forall|other: u64| other != token implies spec_bag_get(r, other) == spec_bag_get(
            entries,
            other,
        ) by {
            if entries[0].0 != other {
                assert(spec_bag_get(spec_bag_put(entries.drop_first(), token, value), other)
                    == spec_bag_get(entries.drop_first(), other));
            }
        }
    }
}

/// A token-keyed bag of values, one value per token.
#[derive(Debug)]
pub struct DataBag<T> {
    entries: Vec<(u64, T)>,
}

impl<T> DataBag<T> {
    /// The stored entries, in insertion order.
    pub closed spec fn spec_entries(&self) -> Seq<(u64, T)> {
        self.entries@
    }

    /// The value `token` holds.
    pub open spec fn spec_get(&self, token: u64) -> Option<T> {
        spec_bag_get(self.spec_entries(), token)
    }

    pub fn new() -> (bag: DataBag<T>)
        ensures
            bag.spec_entries() == Seq::<(u64, T)>::empty(),
    {
        DataBag { entries: Vec::new() }
    }

    /// The value stored under `token`, if any.
    pub fn get(&self, token: u64) -> (r: Option<&T>)
        ensures
            match r {
                Some(v) => self.spec_get(token) == Some(*v),
                None => self.spec_get(token) is None,
            },
    {
        let ghost entries = self.entries@;
        proof {
            assert(entries.skip(0) == entries);
        }
        let mut i: usize = 0;
        while i < self.entries.len()
            invariant
                i <= entries.len(),
                spec_bag_get(entries, token) == spec_bag_get(entries.skip(i as int), token),
            decreases entries.len() - i,
        {
            proof {
                assert(entries.skip(i as int)[0] == entries[i as int]);
                assert(entries.skip(i as int).drop_first() == entries.skip(i + 1));
            }
            if self.entries[i].0 == token {
                return Some(&self.entries[i].1);
            }
            i = i + 1;
        }
        proof {
            assert(entries.skip(entries.len() as int).len() == 0);
        }
        None
    }

    /// Stores `value` under `token`, replacing what the token held before.
    pub fn put(&mut self, token: u64, value: T)
        ensures
            final(self).spec_entries() == spec_bag_put(old(self).spec_entries(), token, value),
            final(self).spec_get(token) == Some(value),
            forall|other: u64|
                other != token ==> final(self).spec_get(other) == old(self).spec_get(other),
    {
        let ghost entries = self.entries@;
        proof {
            assert(entries.skip(0) == entries);
            assert(entries.take(0) + spec_bag_put(entries.skip(0), token, value) == spec_bag_put(
                entries,
                token,
                value,
            ));
        }
        let mut i: usize = 0;
        while i < self.entries.len()
            invariant
                i <= entries.len(),
                self.entries@ == entries,
                forall|j: int| 0 <= j < i ==> entries[j].0 != token,
                spec_bag_put(entries, token, value) == entries.take(i as int) + spec_bag_put(
                    entries.skip(i as int),
                    token,
                    value,
                ),
            decreases entries.len() - i,
        {
            if self.entries[i].0 == token {
                self.entries.set(i, (token, value));
                proof {
                    assert(entries.skip(i as int)[0] == entries[i as int]);
                    assert(entries.skip(i as int).drop_first() == entries.skip(i + 1));
                    assert(spec_bag_put(entries.skip(i as int), token, value) == seq![
                        (token, value),
                    ] + entries.skip(i + 1));
                    assert(self.entries@ == entries.take(i as int) + (seq![(token, value)]
                        + entries.skip(i + 1)));
                    lemma_bag_put_get(entries, token, value);
                }
                return ;
            }
            proof {
                assert(entries.skip(i as int)[0] == entries[i as int]);
                assert(entries.skip(i as int).drop_first() == entries.skip(i + 1));
                assert(spec_bag_put(entries.skip(i as int), token, value) == seq![
                    entries[i as int],
                ] + spec_bag_put(entries.skip(i + 1), token, value));
                assert(entries.take(i as int) + (seq![entries[i as int]] + spec_bag_put(
                    entries.skip(i + 1),
                    token,
                    value,
                )) == entries.take(i + 1) + spec_bag_put(entries.skip(i + 1), token, value));
            }
            i = i + 1;
        }
        proof {
            assert(entries.skip(entries.len() as int).len() == 0);
            assert(spec_bag_put(entries.skip(entries.len() as int), token, value) == seq![
                (token, value),
            ]);
            assert(entries.take(entries.len() as int) + seq![(token, value)] == entries.push(
                (token, value),
            ));
            lemma_bag_put_get(entries, token, value);
        }
        self.entries.push((token, value));
    }
}

} // verus!
