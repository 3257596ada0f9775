//! The growable-buffer query protocol.
//!
//! An OS enumeration call fills a caller-supplied buffer and reports how many
//! items it wrote. A report that reaches the buffer's capacity is ambiguous: the
//! result may be exactly that big, or it may have been truncated. The protocol
//! treats such a report as "maybe truncated", doubles the buffer and retries;
//! only a report strictly below the capacity ends the loop, and the buffer is
//! then trimmed to exactly the reported count.

use vstd::arithmetic::power::lemma_pow0;
use vstd::arithmetic::power2::lemma_pow2_unfold;
use vstd::arithmetic::power2::pow2;
use vstd::prelude::*;

verus! {

/// A probe attempts to fill a buffer and reports either how many elements it
/// validly wrote or a failure.
///
/// The mathematical model is `outcome`: against a buffer of a given capacity,
/// the probe either fails, or stands ready to deliver one sequence of elements.
/// The sequence's length is the count the probe reports; only the prefix that
/// fits the buffer is actually written (a report at or above the capacity is
/// how an OS call signals possible truncation). A probe may keep bookkeeping
/// state of its own, but its outcomes never change: the queries built on this
/// trait are deterministic in the probe.
pub trait Probe<T, E>: Sized {
    /// What one call against a buffer of `capacity` elements would yield.
    spec fn outcome(&self, capacity: nat) -> Result<Seq<T>, E>;

    /// Fill `buf` and report the count of valid elements, or fail.
    fn probe(&mut self, buf: &mut Vec<T>) -> (r: Result<usize, E>)
        ensures
            final(buf)@.len() == old(buf)@.len(),
            forall|c: nat| #[trigger] final(self).outcome(c) == old(self).outcome(c),
            match r {
                Ok(n) => {
                    &&& old(self).outcome(old(buf)@.len() as nat) matches Ok(s)
                        && n == s.len()
                        && final(buf)@ == written_buffer(s, old(buf)@)
                },
                Err(e) => old(self).outcome(old(buf)@.len() as nat) == Result::<Seq<T>, E>::Err(
                    e,
                ),
            },
    ;
}

/// Contents of a buffer after a probe wrote the part of `s` that fits: the
/// prior contents survive past `s`, and `s` is cut at the buffer's end.
pub open spec fn written_buffer<T>(s: Seq<T>, prior: Seq<T>) -> Seq<T> {
    if s.len() <= prior.len() {
        s + prior.skip(s.len() as int)
    } else {
        s.take(prior.len() as int)
    }
}

/// One doubling step of the buffer capacity. The growth saturates at the
/// machine's maximum, past which no buffer can be allocated anyway.
pub open spec fn grow_spec(capacity: nat) -> nat {
    if 2 * capacity <= usize::MAX {
        2 * capacity
    } else {
        usize::MAX as nat
    }
}

/// The buffer capacity used by the query's step `j`, starting from `initial`.
pub open spec fn cap_at(initial: nat, j: nat) -> nat
    decreases j,
{
    if j == 0 {
        initial
    } else {
        grow_spec(cap_at(initial, (j - 1) as nat))
    }
}

/// The probe's outcome at step `j` of a query that started at `initial`.
pub open spec fn outcome_at<T, E, P: Probe<T, E>>(p: P, initial: nat, j: nat) -> Result<
    Seq<T>,
    E,
> {
    p.outcome(cap_at(initial, j))
}

/// At step `j` the probe's report reaches the capacity: maybe truncated, retry.
pub open spec fn retries_at<T, E, P: Probe<T, E>>(p: P, initial: nat, j: nat) -> bool {
    outcome_at(p, initial, j) matches Ok(s) && s.len() >= cap_at(initial, j)
}

/// Every step before `k` retries.
pub open spec fn retries_below<T, E, P: Probe<T, E>>(p: P, initial: nat, k: nat) -> bool {
    forall|j: nat| j < k ==> retries_at(p, initial, j)
}

/// Step `k` is the first whose report fits strictly below the capacity.
pub open spec fn succeeds_at<T, E, P: Probe<T, E>>(p: P, initial: nat, k: nat) -> bool {
    &&& retries_below(p, initial, k)
    &&& outcome_at(p, initial, k) matches Ok(s) && s.len() < cap_at(initial, k)
}

/// Step `k` is the first at which the probe fails.
pub open spec fn fails_at<T, E, P: Probe<T, E>>(p: P, initial: nat, k: nat) -> bool {
    &&& retries_below(p, initial, k)
    &&& outcome_at(p, initial, k) is Err
}

/// Step `k` ends the query, one way or the other.
pub open spec fn terminal_at<T, E, P: Probe<T, E>>(p: P, initial: nat, k: nat) -> bool {
    succeeds_at(p, initial, k) || fails_at(p, initial, k)
}

/// A query has at most one terminal step: its result is a function of the
/// probe's outcomes alone. Calling the query twice on probes with equal
/// outcomes therefore returns equal results (and a probe's outcomes never
/// change across calls), which makes the query idempotent.
pub proof fn lemma_terminal_unique<T, E, P: Probe<T, E>>(p: P, initial: nat, k1: nat, k2: nat)
    requires
        terminal_at(p, initial, k1),
        terminal_at(p, initial, k2),
    ensures
        k1 == k2,
{
    if k1 < k2 {
        assert(retries_at(p, initial, k1));
        assert(false);
    }
    if k2 < k1 {
        assert(retries_at(p, initial, k2));
        assert(false);
    }
}

/// Probes with equal outcomes run the protocol alike: the same steps retry,
/// succeed or fail, with the same data. Together with `lemma_terminal_unique`
/// this says the query's result depends on nothing but the probe's outcomes.
pub proof fn lemma_equal_outcomes_same_protocol<T, E, P: Probe<T, E>, Q: Probe<T, E>>(
    p: P,
    q: Q,
    initial: nat,
)
    requires
        forall|c: nat| #[trigger] p.outcome(c) == q.outcome(c),
    ensures
        forall|j: nat| #[trigger] outcome_at(p, initial, j) == outcome_at(q, initial, j),
        forall|k: nat| #[trigger] succeeds_at(p, initial, k) <==> succeeds_at(q, initial, k),
        forall|k: nat| #[trigger] fails_at(p, initial, k) <==> fails_at(q, initial, k),
{
    assert forall|j: nat| #[trigger] outcome_at(p, initial, j) == outcome_at(q, initial, j) by {
        assert(p.outcome(cap_at(initial, j)) == q.outcome(cap_at(initial, j)));
    }
    assert forall|k: nat| #[trigger] succeeds_at(p, initial, k) <==> succeeds_at(q, initial, k) by {
        lemma_equal_outcomes_retries_below(p, q, initial, k);
        assert(outcome_at(p, initial, k) == outcome_at(q, initial, k));
    }
    assert forall|k: nat| #[trigger] fails_at(p, initial, k) <==> fails_at(q, initial, k) by {
        lemma_equal_outcomes_retries_below(p, q, initial, k);
        assert(outcome_at(p, initial, k) == outcome_at(q, initial, k));
    }
}

proof fn lemma_equal_outcomes_retries_below<T, E, P: Probe<T, E>, Q: Probe<T, E>>(
    p: P,
    q: Q,
    initial: nat,
    k: nat,
)
    requires
        forall|c: nat| #[trigger] p.outcome(c) == q.outcome(c),
    ensures
        retries_below(p, initial, k) <==> retries_below(q, initial, k),
{
    if retries_below(p, initial, k) {
        assert forall|j: nat| j < k implies retries_at(q, initial, j) by {
            assert(retries_at(p, initial, j));
            assert(p.outcome(cap_at(initial, j)) == q.outcome(cap_at(initial, j)));
        }
    }
    if retries_below(q, initial, k) {
        assert forall|j: nat| j < k implies retries_at(p, initial, j) by {
            assert(retries_at(q, initial, j));
            assert(p.outcome(cap_at(initial, j)) == q.outcome(cap_at(initial, j)));
        }
    }
}

/// A probe whose very first report already fits strictly below the initial
/// capacity ends the query at step zero: one buffer is allocated and the probe
/// is called exactly once.
pub proof fn lemma_immediate_fit<T, E, P: Probe<T, E>>(p: P, initial: nat)
    requires
        p.outcome(initial) matches Ok(s) && s.len() < initial,
    ensures
        succeeds_at(p, initial, 0),
        forall|k: nat| #[trigger] terminal_at(p, initial, k) ==> k == 0,
{
    assert(succeeds_at(p, initial, 0));
    assert forall|k: nat| #[trigger] terminal_at(p, initial, k) implies k == 0 by {
        lemma_terminal_unique(p, initial, k, 0);
    }
}

/// A probe that fails on the first call ends the query at step zero: the
/// failure is handed back as is and no further call is made.
pub proof fn lemma_immediate_failure<T, E, P: Probe<T, E>>(p: P, initial: nat)
    requires
        p.outcome(initial) is Err,
    ensures
        fails_at(p, initial, 0),
        forall|k: nat| #[trigger] terminal_at(p, initial, k) ==> k == 0,
{
    assert(fails_at(p, initial, 0));
    assert forall|k: nat| #[trigger] terminal_at(p, initial, k) implies k == 0 by {
        lemma_terminal_unique(p, initial, k, 0);
    }
}

/// A probe that always reports at least the buffer's capacity never lets the
/// query end normally: no step is terminal, and by `lemma_capacity_doubles`
/// the capacities it is offered keep doubling for as long as the machine can
/// hold them.
pub proof fn lemma_never_shrinking_never_ends<T, E, P: Probe<T, E>>(p: P, initial: nat)
    requires
        forall|c: nat| #[trigger] p.outcome(c) matches Ok(s) && s.len() >= c,
    ensures
        forall|k: nat| !(#[trigger] terminal_at(p, initial, k)),
{
    assert forall|k: nat| !(#[trigger] terminal_at(p, initial, k)) by {
        assert(p.outcome(cap_at(initial, k)) matches Ok(s) && s.len() >= cap_at(initial, k));
    }
}

/// While the doubled capacity still fits the machine, the capacity offered at
/// step `j` is exactly `2^j` times the initial one: initial, 2x, 4x, and so on.
pub proof fn lemma_capacity_doubles(initial: nat, j: nat)
    requires
        initial * pow2(j) <= usize::MAX,
    ensures
        cap_at(initial, j) == initial * pow2(j),
    decreases j,
{
    if j == 0 {
        lemma_pow0(2);
        assert(initial * pow2(j) == initial) by (nonlinear_arith)
            requires
                pow2(j) == 1,
        ;
    } else {
        lemma_pow2_unfold(j);
        assert(initial * pow2(j) == 2 * (initial * pow2((j - 1) as nat))) by (nonlinear_arith)
            requires
                pow2(j) == 2 * pow2((j - 1) as nat),
        ;
        lemma_capacity_doubles(initial, (j - 1) as nat);
        assert(2 * cap_at(initial, (j - 1) as nat) <= usize::MAX);
        assert(cap_at(initial, j) == grow_spec(cap_at(initial, (j - 1) as nat)));
    }
}

/// From any starting capacity of at least one, the doubling reaches past any
/// bound below the machine's maximum.
pub proof fn lemma_cap_reaches(initial: nat, bound: nat)
    requires
        1 <= initial <= usize::MAX,
        bound < usize::MAX,
    ensures
        exists|j: nat| cap_at(initial, j) > bound,
{
    lemma_cap_lower_bound(initial, bound);
    assert(cap_at(initial, bound) > bound);
}

/// Each doubling step raises the capacity by at least one until it saturates.
proof fn lemma_cap_lower_bound(initial: nat, j: nat)
    requires
        1 <= initial <= usize::MAX,
    ensures
        cap_at(initial, j) >= initial + j || cap_at(initial, j) == usize::MAX,
        cap_at(initial, j) <= usize::MAX,
    decreases j,
{
    if j > 0 {
        lemma_cap_lower_bound(initial, (j - 1) as nat);
    }
}

/// What the protocol does with one probe report: a count strictly below the
/// capacity is final, a count at or above it is ambiguous with truncation and
/// grows the buffer, and a failure is final with no retry. `fill_vec` makes
/// these decisions internally; they stand alone here for drivers that must run
/// the loop themselves around a call the library cannot make.
#[derive(Debug, PartialEq, Eq)]
pub enum Step<E> {
    /// The result fits: keep exactly this many leading elements.
    Done(usize),
    /// Maybe truncated: allocate this larger capacity and retry.
    Retry(usize),
    /// The probe failed: give up with its error.
    Fail(E),
}

/// Decides one step of the protocol from a probe's report and the capacity of
/// the buffer the probe was given.
pub fn probe_step<E>(report: Result<usize, E>, capacity: usize) -> (s: Step<E>)
    ensures
        match report {
            Ok(n) => {
                &&& n < capacity ==> s == Step::<E>::Done(n)
                &&& n >= capacity ==> s == Step::<E>::Retry(grow_spec(capacity as nat) as usize)
            },
            Err(e) => s == Step::<E>::Fail(e),
        },
{
    match report {
        Ok(n) => {
            if n < capacity {
                Step::Done(n)
            } else {
                Step::Retry(grow(capacity))
            }
        },
        Err(e) => Step::Fail(e),
    }
}

/// Doubles a capacity, saturating at the machine's maximum.
pub fn grow(capacity: usize) -> (c: usize)
    ensures
        c as nat == grow_spec(capacity as nat),
{
    if capacity <= usize::MAX / 2 {
        capacity * 2
    } else {
        usize::MAX
    }
}

/// Relies on Vec::shrink_to_fit: it only sheds unused capacity and leaves the
/// contents untouched.
#[verifier::external_body]
fn shrink<T>(v: &mut Vec<T>)
    ensures
        final(v)@ == old(v)@,
{
    v.shrink_to_fit()
}

/// A buffer of `len` elements, each the default fill value.
fn filled_vec<T: Copy>(value: T, len: usize) -> (v: Vec<T>)
    ensures
        v@.len() == len,
        forall|i: int| 0 <= i < len ==> v@[i] == value,
{
    let mut v: Vec<T> = Vec::new();
    while v.len() < len
        invariant
            v@.len() <= len,
            forall|i: int| 0 <= i < v@.len() ==> v@[i] == value,
        decreases len - v@.len(),
    {
        v.push(value);
    }
    v
}

/// Runs the growable-buffer query: allocate a buffer of `initial_capacity`
/// elements filled with `default_value`, invoke the probe, and while the
/// reported count reaches the capacity, double the capacity and retry. A count
/// strictly below the capacity ends the loop, and the buffer is trimmed to
/// exactly that count; a probe failure is returned as is, with no retry.
///
/// The probe must eventually fit or fail: a buffer cannot grow past the
/// machine's maximum, so a probe that reports at least the capacity forever
/// would never let the loop end.
pub fn fill_vec<T: Copy, E, P: Probe<T, E>>(
    f: &mut P,
    default_value: T,
    initial_capacity: usize,
) -> (r: Result<Vec<T>, E>)
    requires
        exists|k: nat| terminal_at(*old(f), initial_capacity as nat, k),
    ensures
        forall|c: nat| #[trigger] final(f).outcome(c) == old(f).outcome(c),
        match r {
            Ok(v) => exists|k: nat|
                #[trigger] succeeds_at(*old(f), initial_capacity as nat, k) && outcome_at(
                    *old(f),
                    initial_capacity as nat,
                    k,
                ) == Result::<Seq<T>, E>::Ok(v@),
            Err(e) => exists|k: nat|
                #[trigger] fails_at(*old(f), initial_capacity as nat, k) && outcome_at(
                    *old(f),
                    initial_capacity as nat,
                    k,
                ) == Result::<Seq<T>, E>::Err(e),
        },
{
    let ghost init: nat = initial_capacity as nat;
    let ghost k0: nat = choose|k: nat| terminal_at(*old(f), init, k);
    let ghost mut j: nat = 0;
    let mut capacity = initial_capacity;
    loop
        invariant
            init == initial_capacity as nat,
            j <= k0,
            capacity as nat == cap_at(init, j),
            retries_below(*old(f), init, j),
            terminal_at(*old(f), init, k0),
            forall|c: nat| #[trigger] f.outcome(c) == old(f).outcome(c),
        decreases k0 - j,
    {
        let mut buf = filled_vec(default_value, capacity);
        let res = f.probe(&mut buf);
        match res {
            Ok(size) => {
                if size < capacity {
                    proof {
                        assert(succeeds_at(*old(f), init, j));
                    }
                    buf.truncate(size);
                    shrink(&mut buf);
                    proof {
                        assert(buf@ =~= outcome_at(*old(f), init, j)->Ok_0);
                    }
                    return Ok(buf);
                }
                proof {
                    assert(retries_at(*old(f), init, j));
                    if j == k0 {
                        // a terminal step cannot also retry
                        assert(false);
                    }
                    j = j + 1;
                }
                capacity = grow(capacity);
            },
            Err(e) => {
                proof {
                    assert(fails_at(*old(f), init, j));
                }
                return Err(e);
            },
        }
    }
}

} // verus!
