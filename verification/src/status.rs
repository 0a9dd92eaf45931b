use vstd::prelude::*;

verus! {

/// The exit status of a Unix process: its exit code when it exited, and `1`
/// when a signal ended it.
#[derive(PartialEq, Eq, Clone, Copy, Debug, Structural)]
pub struct ExitStatus(pub libc::c_int);

/// The status recorded for a child whose exit code is `code`.
///
/// A process that was terminated by a signal has no exit code; it is
/// recorded with the non-zero status `1`.
pub fn exit_status_from_code(code: Option<libc::c_int>) -> (status: ExitStatus)
    ensures
        status == (match code {
            Some(c) => ExitStatus(c),
            None => ExitStatus(1),
        }),
{
    match code {
        Some(c) => ExitStatus(c),
        None => ExitStatus(1),
    }
}

/// Whether the status word that `waitpid` wrote tells of a process that
/// exited by itself (`WIFEXITED`): no signal number in its low seven bits.
pub open spec fn exited_normally(word: libc::c_int) -> bool {
    word & 0x7f == 0
}

/// The exit code held in a status word (`WEXITSTATUS`): its second byte.
pub open spec fn exit_code_of(word: libc::c_int) -> libc::c_int {
    (word >> 8) & 0xff
}

/// The exit status that a `waitpid` status word tells of: the exit code
/// when the process exited, `1` when a signal ended it.
pub open spec fn decoded_status(word: libc::c_int) -> ExitStatus {
    if exited_normally(word) {
        ExitStatus(exit_code_of(word))
    } else {
        ExitStatus(1)
    }
}

/// Decodes the status word that `waitpid` wrote for a process.
pub fn decode_wait_status(word: libc::c_int) -> (status: ExitStatus)
    ensures
        status == decoded_status(word),
{
    if word & 0x7f == 0 {
        ExitStatus((word >> 8) & 0xff)
    } else {
        ExitStatus(1)
    }
}

/// A status word and an exit code agree: a process that exited with code
/// `code` (its word is `code << 8`) and one that a signal `sig` ended (its
/// word holds `sig` in the low seven bits and no stop marker) are recorded as
/// [`exit_status_from_code`] records them.
pub proof fn lemma_decoded_status_agrees_with_code(code: libc::c_int, sig: libc::c_int)
    requires
        0 <= code <= 255,
        1 <= sig < 0x7f,
    ensures
        decoded_status(code << 8) == ExitStatus(code),
        decoded_status(sig) == ExitStatus(1),
{
    assert((code << 8) & 0x7f == 0 && ((code << 8) >> 8) & 0xff == code) by (bit_vector)
        requires
            0 <= code <= 255,
    ;
    assert(sig & 0x7f != 0) by (bit_vector)
        requires
            1 <= sig < 0x7f,
    ;
}

} // verus!
