//! The two process queries built on the growable-buffer protocol.
//!
//! Process List Query asks the OS to enumerate process identifiers into a
//! buffer of 32-bit values; Process Name Query resolves one identifier to its
//! executable path as bytes, then decodes them as text. The OS calls
//! themselves stand outside the library: here live the decisions made on their
//! raw outputs, the queries over any probe, and the decoding step.

use crate::buffer::fails_at;
use crate::buffer::fill_vec;
use crate::buffer::outcome_at;
use crate::buffer::succeeds_at;
use crate::buffer::terminal_at;
use crate::buffer::Probe;
use vstd::prelude::*;

verus! {

/// The two ways a process query fails.
#[derive(Clone, Copy, Debug, PartialEq, Eq, Structural)]
pub enum ProcessError {
    /// The OS enumeration call reported failure; no identifier set exists.
    ProcessListError,
    /// The OS wrote zero bytes for a process's path: the caller lacks
    /// permission to inspect that process, or it no longer exists.
    ProcessInformationError,
}

/// Bytes in one process identifier as the OS enumeration call counts them.
pub const ID_BYTES: usize = 4;

/// Starting buffer capacity of the Process List Query, in identifiers.
pub const LIST_INITIAL_CAPACITY: usize = 1024;

/// Starting buffer capacity of the Process Name Query, in bytes.
pub const NAME_INITIAL_CAPACITY: usize = 512;

/// The list probe's decision on the enumeration call's outputs: on success the
/// byte count becomes a count of identifiers, and failure is a list error.
pub fn list_report(success: bool, bytes_returned: u32) -> (r: Result<usize, ProcessError>)
    ensures
        success ==> r == Result::<usize, ProcessError>::Ok((bytes_returned as int / ID_BYTES as int) as usize),
        !success ==> r == Result::<usize, ProcessError>::Err(ProcessError::ProcessListError),
{
    if success {
        Ok((bytes_returned as usize) / ID_BYTES)
    } else {
        Err(ProcessError::ProcessListError)
    }
}

/// The name probe's decision on the path-resolution call's output: zero bytes
/// written is an information error, and a nonzero count is reported one
/// greater, standing in for the trailing terminator byte the OS does not
/// count. The extra one keeps the protocol's "count below capacity means done"
/// check correct even when the true path length is exactly capacity minus one.
pub fn name_report(bytes_returned: u32) -> (r: Result<usize, ProcessError>)
    requires
        bytes_returned < u32::MAX,
    ensures
        bytes_returned == 0 ==> r == Result::<usize, ProcessError>::Err(
            ProcessError::ProcessInformationError,
        ),
        bytes_returned > 0 ==> r == Result::<usize, ProcessError>::Ok(
            (bytes_returned + 1) as usize,
        ),
{
    if bytes_returned > 0 {
        Ok((bytes_returned + 1) as usize)
    } else {
        Err(ProcessError::ProcessInformationError)
    }
}

/// The text that decoding a byte sequence leniently as UTF-8 yields: invalid
/// sequences become replacement characters instead of failing the decode.
pub uninterp spec fn lossy_utf8_of(bytes: Seq<u8>) -> Seq<char>;

/// Relies on String::from_utf8_lossy: the decoding is a pure function of the
/// bytes; valid UTF-8 is kept as is, so bytes below 0x80 decode to themselves,
/// and nothing comes from nothing.
#[verifier::external_body]
fn decode_lossy(bytes: &Vec<u8>) -> (r: String)
    ensures
        r@ == lossy_utf8_of(bytes@),
        bytes@.len() == 0 ==> r@.len() == 0,
        (forall|i: int| 0 <= i < bytes@.len() ==> bytes@[i] < 0x80) ==> r@ == bytes@.map_values(
            |b: u8| b as char,
        ),
{
    String::from_utf8_lossy(bytes).into_owned()
}

/// Process List Query over any probe: one snapshot of the current process
/// identifiers, through the growable-buffer protocol starting at
/// `LIST_INITIAL_CAPACITY` identifiers of default value zero. On success the
/// returned identifiers are exactly what the probe delivered at the protocol's
/// terminal step; the probe's failure is returned as is.
pub fn get_process_list<P: Probe<u32, ProcessError>>(probe: &mut P) -> (r: Result<
    Vec<u32>,
    ProcessError,
>)
    requires
        exists|k: nat| terminal_at(*old(probe), LIST_INITIAL_CAPACITY as nat, k),
    ensures
        forall|c: nat| #[trigger] final(probe).outcome(c) == old(probe).outcome(c),
        match r {
            Ok(v) => exists|k: nat|
                #[trigger] succeeds_at(*old(probe), LIST_INITIAL_CAPACITY as nat, k)
                    && outcome_at(*old(probe), LIST_INITIAL_CAPACITY as nat, k) == Result::<
                    Seq<u32>,
                    ProcessError,
                >::Ok(v@),
            Err(e) => exists|k: nat|
                #[trigger] fails_at(*old(probe), LIST_INITIAL_CAPACITY as nat, k) && outcome_at(
                    *old(probe),
                    LIST_INITIAL_CAPACITY as nat,
                    k,
                ) == Result::<Seq<u32>, ProcessError>::Err(e),
        },
{
    fill_vec(probe, 0u32, LIST_INITIAL_CAPACITY)
}

/// Process Name Query over any probe: the executable path of one process as
/// text, through the growable-buffer protocol starting at
/// `NAME_INITIAL_CAPACITY` bytes of default value zero. On success the name is
/// the lenient UTF-8 decoding of exactly the bytes the probe delivered at the
/// protocol's terminal step; the probe's failure is returned as is.
pub fn get_process_name<P: Probe<u8, ProcessError>>(probe: &mut P) -> (r: Result<
    String,
    ProcessError,
>)
    requires
        exists|k: nat| terminal_at(*old(probe), NAME_INITIAL_CAPACITY as nat, k),
    ensures
        forall|c: nat| #[trigger] final(probe).outcome(c) == old(probe).outcome(c),
        match r {
            Ok(name) => exists|k: nat|
                #[trigger] succeeds_at(*old(probe), NAME_INITIAL_CAPACITY as nat, k) && (
                outcome_at(*old(probe), NAME_INITIAL_CAPACITY as nat, k) matches Ok(bytes)
                    && name@ == lossy_utf8_of(bytes)),
            Err(e) => exists|k: nat|
                #[trigger] fails_at(*old(probe), NAME_INITIAL_CAPACITY as nat, k) && outcome_at(
                    *old(probe),
                    NAME_INITIAL_CAPACITY as nat,
                    k,
                ) == Result::<Seq<u8>, ProcessError>::Err(e),
        },
{
    match fill_vec(probe, 0u8, NAME_INITIAL_CAPACITY) {
        Ok(bytes) => Ok(decode_lossy(&bytes)),
        Err(e) => Err(e),
    }
}

} // verus!
