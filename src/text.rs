//! String helpers.

use rand::Rng;
use vstd::prelude::*;
use vstd::string::{StrSliceExecFns, StringExecFns};

verus! {

/// Relies on rand's `thread_rng` and `Rng::gen_range`, which returns a value
/// of the half-open range and panics only when the range is empty.
#[verifier::external_body]
fn random_below(bound: usize) -> (r: usize)
    requires
        bound > 0,
    ensures
        r < bound,
{
    rand::thread_rng().gen_range(0..bound)
}

pub open spec fn min(a: int, b: int) -> int {
    if a < b {
        a
    } else {
        b
    }
}

/// Splits `input` into consecutive pieces of `length` characters; the last
/// piece holds what is left.
pub fn split_string_to_fixed_length_parts(input: &str, length: usize) -> (r: Vec<String>)
    requires
        length > 0,
    ensures
        input@.len() == 0 ==> r@.len() == 0,
        input@.len() > 0 ==> (r@.len() - 1) * length < input@.len() <= r@.len() * length,
        forall|i: int|
            0 <= i < r@.len() ==> (#[trigger] r@[i])@ == input@.subrange(
                i * length,
                min((i + 1) * length, input@.len() as int),
            ),
{
    let n = input.unicode_len();
    let mut out: Vec<String> = Vec::new();
    let mut pos: usize = 0;
    while pos < n
        invariant
            n == input@.len(),
            length > 0,
            pos <= n,
            pos < n ==> pos == out@.len() * length,
            pos == n && n > 0 ==> n <= out@.len() * length,
            out@.len() > 0 ==> (out@.len() - 1) * length < n,
            n == 0 ==> out@.len() == 0,
            forall|i: int|
                0 <= i < out@.len() ==> (#[trigger] out@[i])@ == input@.subrange(
                    i * length,
                    min((i + 1) * length, n as int),
                ),
        decreases n - pos,
    {
        let end: usize = if n - pos < length {
            n
        } else {
            pos + length
        };
        let piece = input.substring_char(pos, end).to_owned();
        let ghost k = out@.len();
        let ghost prev = out@;
        proof {
            assert((k + 1) * length == k * length + length) by (nonlinear_arith);
            assert(end == min((k + 1) * length, n as int));
        }
        out.push(piece);
        proof {
            assert(((k + 1) - 1) * length == k * length);
            assert forall|i: int| 0 <= i < out@.len() implies (#[trigger] out@[i])@
                == input@.subrange(i * length, min((i + 1) * length, n as int)) by {
                if i < k {
                    assert(out@[i] == prev[i]);
                }
            }
        }
        pos = end;
    }
    out
}

/// A string of `length` lowercase ASCII letters, each drawn at random.
pub fn random_string(length: usize) -> (r: String)
    ensures
        r@.len() == length,
        forall|i: int| 0 <= i < r@.len() ==> 'a' <= #[trigger] r@[i] <= 'z',
{
    let letters = "abcdefghijklmnopqrstuvwxyz";
    proof {
        reveal_strlit("abcdefghijklmnopqrstuvwxyz");
    }
    let mut out = String::new();
    let mut i: usize = 0;
    while i < length
        invariant
            i <= length,
            out@.len() == i,
            letters@ == "abcdefghijklmnopqrstuvwxyz"@,
            letters@.len() == 26,
            forall|j: int| 0 <= j < 26 ==> 'a' <= #[trigger] letters@[j] <= 'z',
            forall|j: int| 0 <= j < out@.len() ==> 'a' <= #[trigger] out@[j] <= 'z',
        decreases length - i,
    {
        let k = random_below(26);
        let letter = letters.substring_char(k, k + 1);
        out.append(letter);
        i = i + 1;
    }
    out
}

} // verus!
