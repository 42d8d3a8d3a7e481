use vstd::prelude::*;
use vstd::string::StringExecFns;
use crate::error::MetricsError;
use crate::metrics::{distinct_keys, entries_text, entries_view, find, has_key, position};
use crate::text::decimal_of_signed;

verus! {

/// The counters that the first `n` names call for, all at zero: one for
/// each name, in the order of the names, a repeated name counted once.
pub open spec fn zero_counters(names: Seq<&'static str>, n: nat) -> Seq<(Seq<char>, int)>
    decreases n,
{
    if n == 0 {
        Seq::empty()
    } else {
        let before = zero_counters(names, (n - 1) as nat);
        if has_key(before, names[n - 1]@) {
            before
        } else {
            before.push((names[n - 1]@, 0))
        }
    }
}

/// The count after `count`, going round from the largest `i64` to the smallest.
pub open spec fn wrapped_next(count: int) -> int {
    if count == i64::MAX {
        i64::MIN as int
    } else {
        count + 1
    }
}

/// The counters called for by a list of names have distinct keys.
pub proof fn lemma_zero_counters_distinct(names: Seq<&'static str>, n: nat)
    ensures
        distinct_keys(zero_counters(names, n)),
        forall|i: int|
            0 <= i < zero_counters(names, n).len() ==> (#[trigger] zero_counters(names, n)[i]).1
                == 0,
    decreases n,
{
    if n > 0 {
        lemma_zero_counters_distinct(names, (n - 1) as nat);
        let before = zero_counters(names, (n - 1) as nat);
        let after = zero_counters(names, n);
        if !has_key(before, names[n - 1]@) {
            assert forall|a: int, b: int| 0 <= a < b < after.len() implies (#[trigger] after[a]).0
                != (#[trigger] after[b]).0 by {
                assert(after[a] == before[a]);
                if b < before.len() {
                    assert(after[b] == before[b]);
                }
            }
            assert forall|i: int| 0 <= i < after.len() implies (#[trigger] after[i]).1 == 0 by {
                if i < before.len() {
                    assert(after[i] == before[i]);
                }
            }
        }
    }
}

/// A table of counters whose names are fixed when it is made.
#[derive(Debug)]
pub struct AmapMetrics {
    entries: Vec<(String, i64)>,
}

impl View for AmapMetrics {
    type V = Seq<(Seq<char>, int)>;

    /// The counters, in the order in which their names were given.
    closed spec fn view(&self) -> Seq<(Seq<char>, int)> {
        entries_view(self.entries@)
    }
}

impl AmapMetrics {
    /// No name has two counters.
    pub open spec fn wf(&self) -> bool {
        distinct_keys(self@)
    }

    /// A table with one counter at zero for each of the names.
    pub fn new(metrics_name: &[&'static str]) -> (m: Self)
        ensures
            m.wf(),
            m@ == zero_counters(metrics_name@, metrics_name@.len()),
    {
        let mut entries: Vec<(String, i64)> = Vec::new();
        let mut i: usize = 0;
        assert(entries_view(entries@) =~= zero_counters(metrics_name@, 0));
        while i < metrics_name.len()
            invariant
                i <= metrics_name@.len(),
                entries_view(entries@) == zero_counters(metrics_name@, i as nat),
            decreases metrics_name@.len() - i,
        {
            proof {
                lemma_zero_counters_distinct(metrics_name@, i as nat);
            }
            let name: String = String::from_str(metrics_name[i]);
            let ghost before = entries_view(entries@);
            match find(&entries, &name) {
                Some(_) => {},
                None => {
                    entries.push((name, 0));
                    assert(entries_view(entries@) =~= before.push((metrics_name@[i as int]@, 0)));
                },
            }
            i = i + 1;
        }
        proof {
            lemma_zero_counters_distinct(metrics_name@, metrics_name@.len());
        }
        Self { entries }
    }

    /// Raises the counter named `key` by one, going round to the smallest
    /// count after the largest.
    ///
    /// Fails with `KeyNotFound`, changing nothing, exactly when the table
    /// has no counter of that name.
    pub fn inc(&mut self, key: &str) -> (r: Result<(), MetricsError>)
        requires
            old(self).wf(),
        ensures
            final(self).wf(),
            match r {
                Ok(()) => has_key(old(self)@, key@) && final(self)@ == old(self)@.update(
                    position(old(self)@, key@),
                    (key@, wrapped_next(old(self)@[position(old(self)@, key@)].1)),
                ),
                Err(e) => e == MetricsError::KeyNotFound && !has_key(old(self)@, key@)
                    && final(self)@ == old(self)@,
            },
    {
        let name: String = String::from_str(key);
        match find(&self.entries, &name) {
            Some(i) => {
                let count: i64 = self.entries[i].1;
                let next: i64 = if count == i64::MAX {
                    i64::MIN
                } else {
                    count + 1
                };
                self.entries.set(i, (name, next));
                assert(self@ =~= old(self)@.update(i as int, (key@, wrapped_next(count as int))));
                assert forall|a: int, b: int| 0 <= a < b < self@.len() implies (
                #[trigger] self@[a]).0 != (#[trigger] self@[b]).0 by {
                    assert(self@[a].0 == old(self)@[a].0);
                    assert(self@[b].0 == old(self)@[b].0);
                }
                Ok(())
            },
            None => Err(MetricsError::KeyNotFound),
        }
    }

    /// Writes the counters one per line, as `name: count`.
    pub fn to_string(&self) -> (s: String)
        ensures
            s@ == entries_text(self@, self@.len()),
    {
        proof {
            reveal_strlit(": ");
            reveal_strlit("\n");
        }
        let mut s: String = String::new();
        let mut i: usize = 0;
        while i < self.entries.len()
            invariant
                i <= self.entries@.len(),
                self@.len() == self.entries@.len(),
                ": "@ == seq![':', ' '],
                "\n"@ == seq!['\n'],
                s@ == entries_text(self@, i as nat),
            decreases self.entries@.len() - i,
        {
            s.append(self.entries[i].0.as_str());
            s.append(": ");
            let count: String = decimal_of_signed(self.entries[i].1 as i128);
            s.append(count.as_str());
            s.append("\n");
            i = i + 1;
            assert(s@ =~= entries_text(self@, i as nat));
        }
        s
    }
}

} // verus!
