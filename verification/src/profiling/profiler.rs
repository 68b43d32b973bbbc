//! Counts kept while a program runs: calls, instructions and time per
//! function, the deepest stack, and allocations.
use vstd::prelude::*;
use crate::clock::{elapsed_nanos, now};
use crate::concurrency::proc_model::{key_at, table_get, table_put};
use crate::text::str_eq;
use std::time::Instant;

verus! {

/// A function call being timed: when it started and how many instructions
/// it has run.
#[derive(Debug)]
pub struct FunctionProfiler {
    pub start_time: Instant,
    pub instruction_count: usize,
}

impl FunctionProfiler {
    /// A call starting now, with no instructions run.
    pub fn new() -> (p: FunctionProfiler)
        ensures
            p.instruction_count == 0,
    {
        FunctionProfiler { start_time: now(), instruction_count: 0 }
    }
}

/// The profile of a run.
#[derive(Debug)]
pub struct Profiler {
    /// Time spent per function, in nanoseconds.
    pub function_timings: Vec<(String, u128)>,
    pub instruction_counts: Vec<(String, usize)>,
    pub call_counts: Vec<(String, usize)>,
    pub peak_stack_depth: usize,
    pub total_allocations: usize,
    pub peak_heap_size: usize,
    pub current_function_stack: Vec<(String, FunctionProfiler)>,
    pub call_depth: usize,
}

/// The model of a profile: the time per function, the instruction and
/// call counts per function, the peaks, and the open calls with their
/// counts.
pub struct ProfileModel {
    pub timed: Seq<(Seq<char>, u128)>,
    pub instructions: Seq<(Seq<char>, usize)>,
    pub calls: Seq<(Seq<char>, usize)>,
    pub peak_stack_depth: usize,
    pub total_allocations: usize,
    pub peak_heap_size: usize,
    pub open: Seq<(Seq<char>, usize)>,
    pub call_depth: usize,
}

/// The models of a count table.
pub open spec fn counts_model(s: Seq<(String, usize)>) -> Seq<(Seq<char>, usize)> {
    Seq::new(s.len(), |i: int| (s[i].0@, s[i].1))
}

/// The times of the timed functions.
pub open spec fn timed_model(s: Seq<(String, u128)>) -> Seq<(Seq<char>, u128)> {
    Seq::new(s.len(), |i: int| (s[i].0@, s[i].1))
}

/// The open calls with their instruction counts.
pub open spec fn open_model(s: Seq<(String, FunctionProfiler)>) -> Seq<(Seq<char>, usize)> {
    Seq::new(s.len(), |i: int| (s[i].0@, s[i].1.instruction_count))
}

/// A count table with `n` added to the count of `k` (wrapping, as the
/// release build adds).
pub open spec fn bump(s: Seq<(Seq<char>, usize)>, k: Seq<char>, n: usize) -> Seq<(Seq<char>, usize)> {
    table_put(
        s,
        k,
        match table_get(s, k) {
            Some(c) => c.wrapping_add(n),
            None => n,
        },
    )
}

/// A time table with `n` nanoseconds added to the time of `k` (saturating
/// at the largest `u128`).
pub open spec fn add_time(s: Seq<(Seq<char>, u128)>, k: Seq<char>, n: u128) -> Seq<(Seq<char>, u128)> {
    table_put(
        s,
        k,
        match table_get(s, k) {
            Some(c) => c.saturating_add(n),
            None => n,
        },
    )
}

proof fn lemma_key_first<V>(s: Seq<(Seq<char>, V)>, k: Seq<char>, i: int)
    requires
        0 <= i < s.len(),
        s[i].0 == k,
        forall|j: int| 0 <= j < i ==> s[j].0 != k,
    ensures
        key_at(s, k) == Some(i),
    decreases i,
{
    if i > 0 {
        assert forall|j: int| 0 <= j < i - 1 implies s.drop_first()[j].0 != k by {
            assert(s.drop_first()[j] == s[j + 1]);
        }
        lemma_key_first(s.drop_first(), k, i - 1);
    }
}

proof fn lemma_key_none<V>(s: Seq<(Seq<char>, V)>, k: Seq<char>)
    requires
        forall|j: int| 0 <= j < s.len() ==> s[j].0 != k,
    ensures
        key_at(s, k) is None,
    decreases s.len(),
{
    if s.len() > 0 {
        assert forall|j: int| 0 <= j < s.drop_first().len() implies s.drop_first()[j].0 != k by {
            assert(s.drop_first()[j] == s[j + 1]);
        }
        lemma_key_none(s.drop_first(), k);
    }
}

/// Adds `n` to the count of `k` in a count table.
fn bump_count(table: &mut Vec<(String, usize)>, k: &str, n: usize)
    ensures
        counts_model(final(table)@) == bump(counts_model(old(table)@), k@, n),
{
    let ghost s = counts_model(table@);
    let mut i: usize = 0;
    while i < table.len()
        invariant
            i <= table@.len(),
            s == counts_model(table@),
            table@ == old(table)@,
            forall|j: int| 0 <= j < i ==> s[j].0 != k@,
        decreases table.len() - i,
    {
        if str_eq(table[i].0.as_str(), k) {
            proof {
                lemma_key_first(s, k@, i as int);
            }
            let c = table[i].1;
            let name = table[i].0.clone();
            table.set(i, (name, c.wrapping_add(n)));
            assert(counts_model(table@) =~= s.update(i as int, (k@, c.wrapping_add(n))));
            return;
        }
        i = i + 1;
    }
    proof {
        lemma_key_none(s, k@);
    }
    table.push((k.to_owned(), n));
    assert(counts_model(table@) =~= s.push((k@, n)));
}

impl Profiler {
    /// The model of the profile.
    pub open spec fn model(&self) -> ProfileModel {
        ProfileModel {
            timed: timed_model(self.function_timings@),
            instructions: counts_model(self.instruction_counts@),
            calls: counts_model(self.call_counts@),
            peak_stack_depth: self.peak_stack_depth,
            total_allocations: self.total_allocations,
            peak_heap_size: self.peak_heap_size,
            open: open_model(self.current_function_stack@),
            call_depth: self.call_depth,
        }
    }

    /// An empty profile.
    pub fn new() -> (p: Profiler)
        ensures
            p.model() == (ProfileModel {
                timed: Seq::empty(),
                instructions: Seq::empty(),
                calls: Seq::empty(),
                peak_stack_depth: 0,
                total_allocations: 0,
                peak_heap_size: 0,
                open: Seq::empty(),
                call_depth: 0,
            }),
    {
        let p = Profiler {
            function_timings: Vec::new(),
            instruction_counts: Vec::new(),
            call_counts: Vec::new(),
            peak_stack_depth: 0,
            total_allocations: 0,
            peak_heap_size: 0,
            current_function_stack: Vec::new(),
            call_depth: 0,
        };
        assert(p.model().timed =~= Seq::<(Seq<char>, u128)>::empty());
        assert(p.model().instructions =~= Seq::<(Seq<char>, usize)>::empty());
        assert(p.model().calls =~= Seq::<(Seq<char>, usize)>::empty());
        assert(p.model().open =~= Seq::<(Seq<char>, usize)>::empty());
        p
    }

    /// A call of `function_name` starts: it is counted and timed from now.
    pub fn start_function(&mut self, function_name: String)
        ensures
            final(self).model() == (ProfileModel {
                call_depth: old(self).model().call_depth.wrapping_add(1),
                open: old(self).model().open.push((function_name@, 0)),
                calls: bump(old(self).model().calls, function_name@, 1),
                ..old(self).model()
            }),
    {
        self.call_depth = self.call_depth.wrapping_add(1);
        let name = function_name.clone();
        self.current_function_stack.push((name, FunctionProfiler::new()));
        assert(self.model().open =~= old(self).model().open.push((function_name@, 0)));
        bump_count(&mut self.call_counts, function_name.as_str(), 1);
    }

    fn add_timing(&mut self, k: &str, n: u128)
        ensures
            final(self).model() == (ProfileModel { timed: add_time(old(self).model().timed, k@, n), ..old(self).model() }),
    {
        let ghost s = timed_model(self.function_timings@);
        let mut i: usize = 0;
        while i < self.function_timings.len()
            invariant
                i <= self.function_timings@.len(),
                s == timed_model(self.function_timings@),
                *self == *old(self),
                forall|j: int| 0 <= j < i ==> s[j].0 != k@,
            decreases self.function_timings.len() - i,
        {
            if str_eq(self.function_timings[i].0.as_str(), k) {
                proof {
                    lemma_key_first(s, k@, i as int);
                }
                let name = self.function_timings[i].0.clone();
                let total = self.function_timings[i].1.saturating_add(n);
                self.function_timings.set(i, (name, total));
                assert(timed_model(self.function_timings@) =~= s.update(i as int, (k@, total)));
                return;
            }
            i = i + 1;
        }
        proof {
            lemma_key_none(s, k@);
        }
        self.function_timings.push((k.to_owned(), n));
        assert(timed_model(self.function_timings@) =~= s.push((k@, n)));
    }

    /// The innermost open call ends: the time since it started (by the
    /// clock) is added to its function's total and its instruction count to
    /// the function's count; gives the function's name, or nothing when no
    /// call is open.
    pub fn end_function(&mut self) -> (r: Option<String>)
        ensures
            old(self).model().open.len() == 0 ==> r is None && final(self).model() == old(self).model(),
            old(self).model().open.len() > 0 ==> r is Some && r->Some_0@ == old(self).model().open.last().0
                && (exists|spent: u128|
                final(self).model().timed == #[trigger] add_time(
                    old(self).model().timed,
                    old(self).model().open.last().0,
                    spent,
                )) && final(self).model() == (ProfileModel {
                open: old(self).model().open.drop_last(),
                call_depth: if old(self).model().call_depth > 0 {
                    (old(self).model().call_depth - 1) as usize
                } else {
                    0
                },
                timed: final(self).model().timed,
                instructions: bump(
                    old(self).model().instructions,
                    old(self).model().open.last().0,
                    old(self).model().open.last().1,
                ),
                ..old(self).model()
            }),
    {
        match self.current_function_stack.pop() {
            Some((function_name, profiler)) => {
                assert(self.model().open =~= old(self).model().open.drop_last());
                self.call_depth = self.call_depth.saturating_sub(1);
                let spent = elapsed_nanos(&profiler.start_time);
                assert(old(self).model().open.last() == (function_name@, profiler.instruction_count));
                self.add_timing(function_name.as_str(), spent);
                bump_count(&mut self.instruction_counts, function_name.as_str(), profiler.instruction_count);
                assert(self.model().timed == add_time(old(self).model().timed, old(self).model().open.last().0, spent));
                Some(function_name)
            },
            None => None,
        }
    }

    /// Counts an instruction for the innermost open call, if any.
    pub fn record_instruction(&mut self)
        ensures
            final(self).model() == (ProfileModel {
                open: if old(self).model().open.len() > 0 {
                    old(self).model().open.update(
                        old(self).model().open.len() - 1,
                        (
                            old(self).model().open.last().0,
                            old(self).model().open.last().1.wrapping_add(1),
                        ),
                    )
                } else {
                    old(self).model().open
                },
                ..old(self).model()
            }),
    {
        let n = self.current_function_stack.len();
        if n > 0 {
            let (name, mut p) = self.current_function_stack.pop().unwrap();
            p.instruction_count = p.instruction_count.wrapping_add(1);
            self.current_function_stack.push((name, p));
            assert(self.model().open =~= old(self).model().open.update(
                n - 1,
                (old(self).model().open.last().0, old(self).model().open.last().1.wrapping_add(1)),
            ));
        }
    }

    /// Records the stack depth: the peak is the largest seen.
    pub fn update_stack_depth(&mut self, depth: usize)
        ensures
            final(self).model() == (ProfileModel {
                peak_stack_depth: if depth > old(self).peak_stack_depth {
                    depth
                } else {
                    old(self).peak_stack_depth
                },
                ..old(self).model()
            }),
    {
        if depth > self.peak_stack_depth {
            self.peak_stack_depth = depth;
        }
    }

    /// Records an allocation of `size` bytes: counted, and the heap peak is
    /// the largest size seen.
    pub fn record_allocation(&mut self, size: usize)
        ensures
            final(self).model() == (ProfileModel {
                total_allocations: old(self).total_allocations.wrapping_add(1),
                peak_heap_size: if size > old(self).peak_heap_size {
                    size
                } else {
                    old(self).peak_heap_size
                },
                ..old(self).model()
            }),
    {
        self.total_allocations = self.total_allocations.wrapping_add(1);
        if size > self.peak_heap_size {
            self.peak_heap_size = size;
        }
    }

    /// Whether there is anything to report: a timed function or a call.
    pub fn has_results(&self) -> (b: bool)
        ensures
            b == (self.model().timed.len() > 0 || self.model().calls.len() > 0),
    {
        self.function_timings.len() > 0 || self.call_counts.len() > 0
    }
}

} // verus!
