use vstd::prelude::*;
use vstd::string::StringExecFns;
use crate::error::MetricsError;
use crate::text::{decimal, decimal_of_signed};

pub mod amap;

verus! {

/// Whether some entry has the key `key`.
pub open spec fn has_key(entries: Seq<(Seq<char>, int)>, key: Seq<char>) -> bool {
    exists|i: int| 0 <= i < entries.len() && (#[trigger] entries[i]).0 == key
}

/// The place of an entry with the key `key`, if there is one.
pub open spec fn position(entries: Seq<(Seq<char>, int)>, key: Seq<char>) -> int {
    choose|i: int| 0 <= i < entries.len() && (#[trigger] entries[i]).0 == key
}

/// The count that the entries give `key`: zero if it has no entry.
pub open spec fn count_of(entries: Seq<(Seq<char>, int)>, key: Seq<char>) -> int {
    if has_key(entries, key) {
        entries[position(entries, key)].1
    } else {
        0
    }
}

/// No key has two entries.
pub open spec fn distinct_keys(entries: Seq<(Seq<char>, int)>) -> bool {
    forall|i: int, j: int|
        0 <= i < j < entries.len() ==> (#[trigger] entries[i]).0 != (#[trigger] entries[j]).0
}

/// The entries after counting `key` once more: its entry goes up by one
/// where it stands, or a new entry with count one is added at the end.
pub open spec fn incremented(entries: Seq<(Seq<char>, int)>, key: Seq<char>) -> Seq<
    (Seq<char>, int),
> {
    if has_key(entries, key) {
        let i = position(entries, key);
        entries.update(i, (key, entries[i].1 + 1))
    } else {
        entries.push((key, 1))
    }
}

/// Counting a key once more raises its count by one, changes no other
/// count, and keeps the keys distinct.
pub proof fn lemma_incremented(entries: Seq<(Seq<char>, int)>, key: Seq<char>)
    requires
        distinct_keys(entries),
    ensures
        distinct_keys(incremented(entries, key)),
        count_of(incremented(entries, key), key) == count_of(entries, key) + 1,
        forall|other: Seq<char>|
            other != key ==> count_of(incremented(entries, key), other) == count_of(entries, other),
{
    let after = incremented(entries, key);
    if has_key(entries, key) {
        let i = position(entries, key);
        assert(after[i].0 == key);
        assert(has_key(after, key));
        let p = position(after, key);
        assert(p == i) by {
            if p != i {
                assert(entries[p].0 == after[p].0);
            }
        }
        assert forall|other: Seq<char>| other != key implies count_of(after, other) == count_of(
            entries,
            other,
        ) by {
            if has_key(entries, other) {
                let q = position(entries, other);
                assert(after[q] == entries[q]);
                assert(has_key(after, other));
                let q2 = position(after, other);
                assert(entries[q2].0 == after[q2].0);
                if q2 != q {
                    assert(entries[q2].0 != entries[q].0);
                }
            } else {
                if has_key(after, other) {
                    let q2 = position(after, other);
                    assert(entries[q2].0 == after[q2].0);
                }
            }
        }
        assert forall|a: int, b: int| 0 <= a < b < after.len() implies (#[trigger] after[a]).0 != (
        #[trigger] after[b]).0 by {
            assert(entries[a].0 == after[a].0);
            assert(entries[b].0 == after[b].0);
        }
    } else {
        let n = entries.len() as int;
        assert(after[n].0 == key);
        assert(has_key(after, key));
        let p = position(after, key);
        assert(p == n) by {
            if p != n {
                assert(entries[p] == after[p]);
            }
        }
        assert forall|other: Seq<char>| other != key implies count_of(after, other) == count_of(
            entries,
            other,
        ) by {
            if has_key(entries, other) {
                let q = position(entries, other);
                assert(after[q] == entries[q]);
                assert(has_key(after, other));
                let q2 = position(after, other);
                assert(q2 < n);
                assert(entries[q2] == after[q2]);
                if q2 != q {
                    assert(entries[q2].0 != entries[q].0);
                }
            } else {
                if has_key(after, other) {
                    let q2 = position(after, other);
                    assert(q2 < n);
                    assert(entries[q2] == after[q2]);
                }
            }
        }
        assert forall|a: int, b: int| 0 <= a < b < after.len() implies (#[trigger] after[a]).0 != (
        #[trigger] after[b]).0 by {
            assert(entries[a] == after[a]);
            if b < n {
                assert(entries[b] == after[b]);
            }
        }
    }
}

/// What a list of stored entries stands for: each key's text with its count.
pub open spec fn entries_view(stored: Seq<(String, i64)>) -> Seq<(Seq<char>, int)> {
    Seq::new(stored.len(), |i: int| (stored[i].0@, stored[i].1 as int))
}

/// The first `n` entries, one per line, each as the key, a colon, a
/// space and the count.
pub open spec fn entries_text(entries: Seq<(Seq<char>, int)>, n: nat) -> Seq<char>
    decreases n,
{
    if n == 0 {
        Seq::empty()
    } else {
        entries_text(entries, (n - 1) as nat) + entries[n - 1].0 + seq![':', ' '] + decimal(
            entries[n - 1].1,
        ) + seq!['\n']
    }
}

/// Where the entry of `key` stands among the stored entries, if it has one.
pub fn find(stored: &Vec<(String, i64)>, key: &String) -> (found: Option<usize>)
    requires
        distinct_keys(entries_view(stored@)),
    ensures
        match found {
            Some(i) => has_key(entries_view(stored@), key@) && i == position(
                entries_view(stored@),
                key@,
            ) && i < stored@.len(),
            None => !has_key(entries_view(stored@), key@),
        },
{
    let ghost entries = entries_view(stored@);
    let mut i: usize = 0;
    while i < stored.len()
        invariant
            entries == entries_view(stored@),
            distinct_keys(entries),
            i <= stored@.len(),
            forall|k: int| 0 <= k < i ==> (#[trigger] entries[k]).0 != key@,
        decreases stored@.len() - i,
    {
        if stored[i].0 == *key {
            proof {
                assert(entries[i as int].0 == key@);
                let p = position(entries, key@);
                if p != i {
                    assert(entries[p].0 == entries[i as int].0);
                }
            }
            return Some(i);
        }
        i = i + 1;
    }
    None
}

/// A table of named counters. A key's counter starts when the key is
/// first counted; the entries keep the order in which their keys came.
#[derive(Debug)]
pub struct Metrics {
    entries: Vec<(String, i64)>,
}

impl View for Metrics {
    type V = Seq<(Seq<char>, int)>;

    /// The entries, oldest key first.
    closed spec fn view(&self) -> Seq<(Seq<char>, int)> {
        entries_view(self.entries@)
    }
}

impl Metrics {
    /// No key has two entries.
    pub open spec fn wf(&self) -> bool {
        distinct_keys(self@)
    }

    /// A table without entries.
    pub fn new() -> (m: Self)
        ensures
            m.wf(),
            m@ == Seq::<(Seq<char>, int)>::empty(),
    {
        let m = Self { entries: Vec::new() };
        assert(m@ =~= Seq::<(Seq<char>, int)>::empty());
        m
    }

    /// Counts `key` once more.
    ///
    /// Fails with `CounterOverflow`, changing nothing, exactly when the
    /// count of `key` is already the largest an `i64` holds.
    pub fn inc(&mut self, key: String) -> (r: Result<(), MetricsError>)
        requires
            old(self).wf(),
        ensures
            final(self).wf(),
            match r {
                Ok(()) => count_of(old(self)@, key@) < i64::MAX && final(self)@ == incremented(
                    old(self)@,
                    key@,
                ),
                Err(e) => e == MetricsError::CounterOverflow && count_of(old(self)@, key@)
                    == i64::MAX && final(self)@ == old(self)@,
            },
    {
        proof {
            lemma_incremented(self@, key@);
        }
        match find(&self.entries, &key) {
            Some(i) => {
                let count: i64 = self.entries[i].1;
                if count == i64::MAX {
                    return Err(MetricsError::CounterOverflow);
                }
                let ghost text = key@;
                self.entries.set(i, (key, count + 1));
                assert(self@ =~= incremented(old(self)@, text));
                Ok(())
            },
            None => {
                let ghost text = key@;
                self.entries.push((key, 1));
                assert(self@ =~= incremented(old(self)@, text));
                Ok(())
            },
        }
    }

    /// A copy of the entries as they stand now.
    pub fn snapshot(&self) -> (entries: Vec<(String, i64)>)
        ensures
            entries_view(entries@) == self@,
    {
        let mut copy: Vec<(String, i64)> = Vec::with_capacity(self.entries.len());
        let mut i: usize = 0;
        while i < self.entries.len()
            invariant
                i <= self.entries@.len(),
                copy@.len() == i,
                forall|k: int|
                    0 <= k < i ==> (#[trigger] copy@[k]).0@ == self.entries@[k].0@ && copy@[k].1
                        == self.entries@[k].1,
            decreases self.entries@.len() - i,
        {
            let key: String = self.entries[i].0.clone();
            let count: i64 = self.entries[i].1;
            copy.push((key, count));
            i = i + 1;
        }
        assert(entries_view(copy@) =~= self@);
        copy
    }

    /// Writes the entries one per line, as `key: count`.
    pub fn to_string(&self) -> (s: String)
        ensures
            s@ == entries_text(self@, self@.len()),
    {
        proof {
            reveal_strlit(": ");
            reveal_strlit("\n");
        }
        let mut s: String = String::new();
        let mut i: usize = 0;
        while i < self.entries.len()
            invariant
                i <= self.entries@.len(),
                self@.len() == self.entries@.len(),
                ": "@ == seq![':', ' '],
                "\n"@ == seq!['\n'],
                s@ == entries_text(self@, i as nat),
            decreases self.entries@.len() - i,
        {
            s.append(self.entries[i].0.as_str());
            s.append(": ");
            let count: String = decimal_of_signed(self.entries[i].1 as i128);
            s.append(count.as_str());
            s.append("\n");
            i = i + 1;
            assert(s@ =~= entries_text(self@, i as nat));
        }
        s
    }
}

impl Default for Metrics {
    /// A table without entries.
    fn default() -> (m: Self)
        ensures
            m.wf(),
            m@ == Seq::<(Seq<char>, int)>::empty(),
    {
        Metrics::new()
    }
}

} // verus!
