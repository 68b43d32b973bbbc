//! How the example programs are judged: which ones need the process
//! scheduler, which ones are expected to fail and with what error, and
//! whether a run passed.
use vstd::prelude::*;
use crate::text::{chars_of, str_eq};

verus! {

/// The example programs that use processes, run on the scheduler.
pub open spec fn scheduler_examples() -> Seq<Seq<char>> {
    seq![
        "01_process_spawning.ttvm"@,
        "02_message_passing.ttvm"@,
        "03_name_registry.ttvm"@,
        "04_comprehensive_workflow.ttvm"@,
        "05_trap_exit_test.ttvm"@,
        "06_supervisor_test.ttvm"@,
        "07_process_linking_test.ttvm"@,
        "08_selective_receive_test.ttvm"@,
        "09_process_registry_test.ttvm"@,
        "10_comprehensive_concurrency_test.ttvm"@,
        "coffee_shop_demo.ttvm"@,
        "concurrency_test.ttvm"@,
        "simple_concurrency_demo.ttvm"@,
        "simple_registry_test.ttvm"@,
        "simple_trap_exit_test.ttvm"@,
        "spawn_simple_worker.ttvm"@,
        "spawn_test.ttvm"@,
        "test_spawn.ttvm"@,
        "test_sendnamed.ttvm"@,
        "test_examples.ttvm"@,
        "working_beam_example.ttvm"@,
        "working_example.ttvm"@,
        "barista_worker.ttvm"@,
        "cashier_worker.ttvm"@,
        "simple_worker_test.ttvm"@,
    ]
}

/// The error an example is expected to fail with, if any: the two halves
/// of a circular import.
pub open spec fn expected_error(name: Seq<char>) -> Option<Seq<char>> {
    if name == "circular_a.ttvm"@ || name == "circular_b.ttvm"@ {
        Some("Circular dependency detected"@)
    } else {
        None
    }
}

/// `t` occurs in `s` as a contiguous part.
pub open spec fn contains_text(s: Seq<char>, t: Seq<char>) -> bool {
    exists|i: int| 0 <= i && i + t.len() <= s.len() && #[trigger] s.subrange(i, i + t.len()) == t
}

/// Whether an example passed: an example expected to fail passes when its
/// error message holds the expected error; any other passes when it ran
/// without error (`error` is `None`).
pub open spec fn example_passes(name: Seq<char>, error: Option<Seq<char>>) -> bool {
    match expected_error(name) {
        Some(x) => error matches Some(e) && contains_text(e, x),
        None => error is None,
    }
}

/// Whether the example of that file name runs on the process scheduler.
pub fn needs_scheduler(name: &str) -> (b: bool)
    ensures
        b == scheduler_examples().contains(name@),
{
    let names: [&str; 25] = [
        "01_process_spawning.ttvm",
        "02_message_passing.ttvm",
        "03_name_registry.ttvm",
        "04_comprehensive_workflow.ttvm",
        "05_trap_exit_test.ttvm",
        "06_supervisor_test.ttvm",
        "07_process_linking_test.ttvm",
        "08_selective_receive_test.ttvm",
        "09_process_registry_test.ttvm",
        "10_comprehensive_concurrency_test.ttvm",
        "coffee_shop_demo.ttvm",
        "concurrency_test.ttvm",
        "simple_concurrency_demo.ttvm",
        "simple_registry_test.ttvm",
        "simple_trap_exit_test.ttvm",
        "spawn_simple_worker.ttvm",
        "spawn_test.ttvm",
        "test_spawn.ttvm",
        "test_sendnamed.ttvm",
        "test_examples.ttvm",
        "working_beam_example.ttvm",
        "working_example.ttvm",
        "barista_worker.ttvm",
        "cashier_worker.ttvm",
        "simple_worker_test.ttvm",
    ];
    let ghost all = scheduler_examples();
    assert(forall|j: int| 0 <= j < 25 ==> #[trigger] names@[j]@ == all[j]);
    let mut i: usize = 0;
    while i < 25
        invariant
            i <= 25,
            all == scheduler_examples(),
            forall|j: int| 0 <= j < 25 ==> #[trigger] names@[j]@ == all[j],
            forall|j: int| 0 <= j < i ==> all[j] != name@,
        decreases 25 - i,
    {
        if str_eq(names[i], name) {
            assert(all[i as int] == name@);
            return true;
        }
        i = i + 1;
    }
    false
}

/// Whether `t` occurs in `s`.
fn text_contains(s: &str, t: &str) -> (b: bool)
    ensures
        b == contains_text(s@, t@),
{
    let a = chars_of(s);
    let p = chars_of(t);
    if p.len() > a.len() {
        return false;
    }
    let mut i: usize = 0;
    while i <= a.len() - p.len()
        invariant
            a@ == s@,
            p@ == t@,
            p@.len() <= a@.len(),
            i <= a@.len() - p@.len() + 1,
            p.len() <= a.len(),
            forall|k: int| 0 <= k < i ==> #[trigger] a@.subrange(k, k + p@.len()) != p@,
        decreases a.len() - i,
    {
        let alen = a.len();
        let mut j: usize = 0;
        let mut same = true;
        while same && j < p.len()
            invariant
                j <= p@.len(),
                i + p@.len() <= a@.len(),
                alen == a@.len(),
                forall|q: int| 0 <= q < j ==> a@[i + q] == p@[q],
                !same ==> j < p@.len() && a@[i + j] != p@[j as int],
            decreases p.len() - j, if same { 1int } else { 0int },
        {
            if a[i + j] == p[j] {
                j = j + 1;
            } else {
                same = false;
            }
        }
        if j == p.len() {
            assert(a@.subrange(i as int, i + p@.len()) =~= p@);
            return true;
        }
        assert(a@.subrange(i as int, i + p@.len())[j as int] != p@[j as int]);
        i = i + 1;
    }
    assert forall|k: int| 0 <= k && k + t@.len() <= s@.len() implies #[trigger] s@.subrange(k, k + t@.len()) != t@ by {
        assert(a@.subrange(k, k + p@.len()) != p@);
    }
    false
}

/// Whether an example passed (see [`example_passes`]).
pub fn judge_example(name: &str, error: Option<&str>) -> (passed: bool)
    ensures
        passed == example_passes(
            name@,
            match error {
                Some(e) => Some(e@),
                None => None,
            },
        ),
{
    let circular = str_eq(name, "circular_a.ttvm") || str_eq(name, "circular_b.ttvm");
    if circular {
        match error {
            Some(e) => text_contains(e, "Circular dependency detected"),
            None => false,
        }
    } else {
        error.is_none()
    }
}

} // verus!
