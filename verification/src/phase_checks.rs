//! What the phase test groups share: reading the kernel's replies and the
//! pass mark of a group.
//!
//! A reply is `Some(output)` when the command ran and `None` when sending it
//! failed (or it was never sent because an earlier step failed).
use vstd::prelude::*;
use vstd::utf8::encode_utf8;
use crate::kernel_interface::{CommandOutput, str_contains};
use crate::scan::contains_seq;

verus! {

/// Whether the reply's text contains `word`.
pub open spec fn says(o: &CommandOutput, word: Seq<char>) -> bool {
    contains_seq(o.raw_output@, word)
}

/// The length of the reply's text in bytes, as `str::len` gives it.
pub open spec fn byte_len(o: &CommandOutput) -> usize {
    encode_utf8(o.raw_output@).len() as usize
}

/// 1 for a passed test, 0 for a failed one.
pub open spec fn b2n(b: bool) -> nat {
    if b {
        1
    } else {
        0
    }
}

/// How many of the flags are set.
pub open spec fn count_true(s: Seq<bool>) -> nat
    decreases s.len(),
{
    if s.len() == 0 {
        0
    } else {
        count_true(s.drop_last()) + b2n(s.last())
    }
}

/// Whether `passed` of `total` tests reach the pass mark of a test group:
/// three quarters of them, rounded down.
pub open spec fn meets_pass_mark(passed: int, total: int) -> bool {
    passed >= total * 3 / 4
}

/// Whether the reply's text contains `word`.
pub fn reply_says(o: &CommandOutput, word: &str) -> (r: bool)
    ensures
        r == says(o, word@),
{
    str_contains(o.raw_output.as_str(), word)
}

/// The length of the reply's text in bytes.
pub fn reply_byte_len(o: &CommandOutput) -> (n: usize)
    ensures
        n == byte_len(o),
{
    o.raw_output.as_str().len()
}

/// 1 for a passed test, 0 for a failed one.
pub fn flag(b: bool) -> (n: u32)
    ensures
        n == b2n(b),
{
    if b {
        1
    } else {
        0
    }
}

/// How many of the flags are set.
pub fn count_passed(flags: &[bool]) -> (n: usize)
    ensures
        n == count_true(flags@),
{
    let mut n: usize = 0;
    let mut i: usize = 0;
    while i < flags.len()
        invariant
            i <= flags@.len(),
            n == count_true(flags@.subrange(0, i as int)),
            n <= i,
        decreases flags@.len() - i,
    {
        proof {
            assert(flags@.subrange(0, i + 1).drop_last() =~= flags@.subrange(0, i as int));
        }
        if flags[i] {
            n = n + 1;
        }
        i = i + 1;
    }
    proof {
        assert(flags@.subrange(0, flags@.len() as int) =~= flags@);
    }
    n
}

/// Whether `passed` of `total` tests reach three quarters of them, rounded down.
pub fn pass_mark_met(passed: u32, total: u32) -> (r: bool)
    ensures
        r == meets_pass_mark(passed as int, total as int),
{
    passed as u64 >= (total as u64 * 3) / 4
}

/// Whether every command of a sequence could be sent.
pub fn all_delivered(delivered: &[bool]) -> (r: bool)
    ensures
        r == forall|i: int| 0 <= i < delivered@.len() ==> delivered@[i],
{
    let mut i: usize = 0;
    while i < delivered.len()
        invariant
            i <= delivered@.len(),
            forall|j: int| 0 <= j < i ==> delivered@[j],
        decreases delivered@.len() - i,
    {
        if !delivered[i] {
            return false;
        }
        i = i + 1;
    }
    true
}

/// Whether a command ran and reported success.
pub fn accepted(reply: Option<&CommandOutput>) -> (r: bool)
    ensures
        r == (reply matches Some(o) && o.success),
{
    match reply {
        Some(o) => o.success,
        None => false,
    }
}

} // verus!
