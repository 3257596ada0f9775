//! Deterministic probes that simulate the OS calls.
//!
//! The queries are generic in the probe, so their behaviour can be exercised
//! and reasoned about without an operating system on the other side. Each
//! probe here mimics one shape of OS behaviour: a fixed enumeration result, a
//! fixed executable path behind the name probe's reporting convention, a call
//! that always fails, and a wrapper that counts how often it was invoked.

use crate::buffer::cap_at;
use crate::buffer::outcome_at;
use crate::buffer::retries_at;
use crate::buffer::succeeds_at;
use crate::buffer::written_buffer;
use crate::buffer::Probe;
use crate::processes::ProcessError;
use vstd::prelude::*;

verus! {

/// Simulates an enumeration whose true result is a fixed sequence: against a
/// buffer of capacity `c` it writes the first `min(c, N)` of its `N` items and
/// reports that count, exactly as an OS call with no explicit truncation flag
/// would.
pub struct FixedResultProbe<T> {
    pub data: Vec<T>,
}

impl<T: Copy, E> Probe<T, E> for FixedResultProbe<T> {
    open spec fn outcome(&self, capacity: nat) -> Result<Seq<T>, E> {
        if self.data@.len() <= capacity {
            Ok(self.data@)
        } else {
            Ok(self.data@.take(capacity as int))
        }
    }

    fn probe(&mut self, buf: &mut Vec<T>) -> (r: Result<usize, E>) {
        let count = if self.data.len() <= buf.len() {
            self.data.len()
        } else {
            buf.len()
        };
        let mut i: usize = 0;
        while i < count
            invariant
                *self == *old(self),
                i <= count,
                count <= self.data@.len(),
                count <= buf@.len(),
                buf@.len() == old(buf)@.len(),
                forall|x: int| 0 <= x < i ==> buf@[x] == self.data@[x],
                forall|x: int| i <= x < buf@.len() ==> buf@[x] == old(buf)@[x],
            decreases count - i,
        {
            buf[i] = self.data[i];
            i += 1;
        }
        proof {
            let s = <FixedResultProbe<T> as Probe<T, E>>::outcome(self, old(buf)@.len() as nat)->Ok_0;
            assert(buf@ =~= written_buffer(s, old(buf)@));
        }
        Ok(count)
    }
}

/// Simulates the path-resolution call behind the Process Name Query for a
/// fixed path of `L` bytes. When the whole path fits, it is written with a
/// trailing terminator byte and the report is `L + 1`, one more than the OS
/// counts, exactly as the name probe reports; a report that small ends the
/// query only when it stays below the capacity. When the path does not fit,
/// the buffer is filled to its capacity and the full capacity is reported,
/// which forces a retry. When access is denied, the path is empty, or the
/// buffer can hold nothing, the OS reports zero bytes and the probe turns that
/// into an information error.
pub struct FixedPathProbe {
    pub path: Vec<u8>,
    pub denied: bool,
}

impl Probe<u8, ProcessError> for FixedPathProbe {
    open spec fn outcome(&self, capacity: nat) -> Result<Seq<u8>, ProcessError> {
        if self.denied || self.path@.len() == 0 || capacity == 0 {
            Err(ProcessError::ProcessInformationError)
        } else if self.path@.len() < capacity {
            Ok(self.path@ + seq![0u8])
        } else {
            Ok(self.path@.take(capacity as int))
        }
    }

    fn probe(&mut self, buf: &mut Vec<u8>) -> (r: Result<usize, ProcessError>) {
        let c = buf.len();
        if self.denied || self.path.len() == 0 || c == 0 {
            return Err(ProcessError::ProcessInformationError);
        }
        let count = if self.path.len() < c {
            self.path.len()
        } else {
            c
        };
        let mut i: usize = 0;
        while i < count
            invariant
                *self == *old(self),
                i <= count,
                count <= self.path@.len(),
                count <= buf@.len(),
                buf@.len() == old(buf)@.len(),
                forall|x: int| 0 <= x < i ==> buf@[x] == self.path@[x],
                forall|x: int| i <= x < buf@.len() ==> buf@[x] == old(buf)@[x],
            decreases count - i,
        {
            buf[i] = self.path[i];
            i += 1;
        }
        if count < c {
            buf[count] = 0;
            proof {
                assert(buf@ =~= written_buffer(self.path@ + seq![0u8], old(buf)@));
            }
            Ok(count + 1)
        } else {
            proof {
                assert(buf@ =~= written_buffer(self.path@.take(c as int), old(buf)@));
            }
            Ok(count)
        }
    }
}

/// Simulates a call that fails outright, whatever buffer it is offered.
pub struct FailingProbe<E> {
    pub error: E,
}

impl<T: Copy, E: Copy> Probe<T, E> for FailingProbe<E> {
    open spec fn outcome(&self, capacity: nat) -> Result<Seq<T>, E> {
        Err(self.error)
    }

    fn probe(&mut self, buf: &mut Vec<T>) -> (r: Result<usize, E>) {
        Err(self.error)
    }
}

/// Wraps any probe and counts its invocations, leaving the outcomes untouched:
/// how many OS calls a query makes is observable here.
pub struct CountingProbe<P> {
    pub inner: P,
    pub calls: usize,
}

impl<T: Copy, E, P: Probe<T, E>> Probe<T, E> for CountingProbe<P> {
    open spec fn outcome(&self, capacity: nat) -> Result<Seq<T>, E> {
        self.inner.outcome(capacity)
    }

    fn probe(&mut self, buf: &mut Vec<T>) -> (r: Result<usize, E>) {
        if self.calls < usize::MAX {
            self.calls = self.calls + 1;
        }
        self.inner.probe(buf)
    }
}

/// A probe that simulates a true result of `N` items, writing `min(c, N)` into
/// a buffer of capacity `c` and reporting that count, drives the query to
/// return exactly its `N` items for every starting capacity of at least one —
/// including a start of exactly `N`, where the report equals the capacity and
/// costs one redundant retry, but the query still converges to the same
/// result.
pub proof fn lemma_fixed_result_converges<T: Copy, E>(p: FixedResultProbe<T>, initial: nat)
    requires
        1 <= initial <= usize::MAX,
        p.data@.len() < usize::MAX,
    ensures
        exists|k: nat|
            #[trigger] succeeds_at::<T, E, FixedResultProbe<T>>(p, initial, k) && outcome_at::<
                T,
                E,
                FixedResultProbe<T>,
            >(p, initial, k) == Result::<Seq<T>, E>::Ok(p.data@),
{
    crate::buffer::lemma_cap_reaches(initial, p.data@.len());
    let j = choose|j: nat| cap_at(initial, j) > p.data@.len();
    lemma_fixed_result_first_fit::<T, E>(p, initial, j);
}

proof fn lemma_fixed_result_first_fit<T: Copy, E>(p: FixedResultProbe<T>, initial: nat, j: nat)
    requires
        cap_at(initial, j) > p.data@.len(),
    ensures
        exists|k: nat|
            #[trigger] succeeds_at::<T, E, FixedResultProbe<T>>(p, initial, k) && outcome_at::<
                T,
                E,
                FixedResultProbe<T>,
            >(p, initial, k) == Result::<Seq<T>, E>::Ok(p.data@),
    decreases j,
{
    let n = p.data@.len();
    if forall|i: nat| i < j ==> #[trigger] cap_at(initial, i) <= n {
        assert forall|i: nat| i < j implies retries_at::<T, E, FixedResultProbe<T>>(
            p,
            initial,
            i,
        ) by {
            assert(cap_at(initial, i) <= n);
        }
        assert(succeeds_at::<T, E, FixedResultProbe<T>>(p, initial, j));
        assert(outcome_at::<T, E, FixedResultProbe<T>>(p, initial, j) == Result::<Seq<T>, E>::Ok(
            p.data@,
        ));
    } else {
        let i = choose|i: nat| i < j && #[trigger] cap_at(initial, i) > n;
        lemma_fixed_result_first_fit::<T, E>(p, initial, i);
    }
}

} // verus!
