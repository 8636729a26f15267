//! Byte layout shared by the encoder and the decoder: sizes, the magic
//! delimiter, and the 8-byte hexadecimal length field.

use vstd::prelude::*;

verus! {

/// Largest plaintext block that goes into one chunk.
pub const CHUNK_SIZE: usize = 4096;

/// Width of the ASCII hexadecimal length field in front of a chunk or the trailer.
pub const CHUNK_LEN_SIZE: usize = 8;

/// Width of the hexadecimal digest at the end of a chunk.
pub const HASH_TEXT_SIZE: usize = 32;

/// Smallest buffer that can hold a length field and a digest.
pub const MIN_CHUNK_LEN: usize = CHUNK_LEN_SIZE + HASH_TEXT_SIZE;

/// Width of the magic delimiter.
pub const MAGIC_LEN: usize = 7;

/// Ceiling on the encrypted chunk stream, and on any value a length field carries.
pub const MAX_FILE_SIZE: u64 = 2 * 1024 * 1024 * 1024;

/// The magic delimiter, "HIDEBOX".
pub open spec fn magic() -> Seq<u8> {
    seq![72u8, 73u8, 68u8, 69u8, 66u8, 79u8, 88u8]
}

/// The magic delimiter as bytes.
pub fn magic_bytes() -> (r: Vec<u8>)
    ensures
        r@ == magic(),
        r@.len() == MAGIC_LEN,
{
    let r: Vec<u8> = vec![72u8, 73u8, 68u8, 69u8, 66u8, 79u8, 88u8];
    assert(r@ =~= magic());
    r
}

/// Whether two byte strings are equal.
pub fn bytes_eq(a: &[u8], b: &[u8]) -> (r: bool)
    ensures
        r == (a@ == b@),
{
    if a.len() != b.len() {
        return false;
    }
    let mut i: usize = 0;
    while i < a.len()
        invariant
            a@.len() == b@.len(),
            i <= a@.len(),
            forall|j: int| 0 <= j < i ==> a@[j] == b@[j],
        decreases a@.len() - i,
    {
        if a[i] != b[i] {
            return false;
        }
        i = i + 1;
    }
    assert(a@ =~= b@);
    true
}

/// Whether `b` is exactly the magic delimiter.
pub fn is_magic(b: &[u8]) -> (r: bool)
    ensures
        r == (b@ == magic()),
{
    let m = magic_bytes();
    bytes_eq(b, m.as_slice())
}

/// Lowercase ASCII hexadecimal digit for `d < 16`.
pub open spec fn hex_digit(d: nat) -> u8 {
    if d < 10 {
        (48 + d) as u8
    } else {
        (87 + d) as u8
    }
}

/// Lowercase hexadecimal digits of `n`, without leading zeros.
pub open spec fn hex_digits(n: nat) -> Seq<u8>
    decreases n,
{
    if n < 16 {
        seq![hex_digit(n)]
    } else {
        hex_digits(n / 16).push(hex_digit(n % 16))
    }
}

/// `k` ASCII spaces.
pub open spec fn spaces(k: nat) -> Seq<u8> {
    Seq::new(k, |i: int| 32u8)
}

/// The length field for `n`: its hexadecimal digits, right-aligned in eight
/// bytes and padded with spaces on the left.
pub open spec fn hex_field(n: nat) -> Seq<u8> {
    spaces((CHUNK_LEN_SIZE - hex_digits(n).len()) as nat) + hex_digits(n)
}

pub open spec fn pow16(k: nat) -> nat
    decreases k,
{
    if k == 0 {
        1
    } else {
        16 * pow16((k - 1) as nat)
    }
}

/// Whitespace that surrounds a length field's digits.
pub open spec fn is_space(b: u8) -> bool {
    b == 32 || (9 <= b && b <= 13)
}

pub open spec fn is_hex_digit(b: u8) -> bool {
    (48 <= b && b <= 57) || (97 <= b && b <= 102) || (65 <= b && b <= 70)
}

pub open spec fn digit_value(b: u8) -> nat {
    if 48 <= b && b <= 57 {
        (b - 48) as nat
    } else if 97 <= b && b <= 102 {
        (b - 87) as nat
    } else {
        (b - 55) as nat
    }
}

/// Value of a sequence of hexadecimal digits, most significant first.
pub open spec fn hex_value(s: Seq<u8>) -> nat
    decreases s.len(),
{
    if s.len() == 0 {
        0
    } else {
        hex_value(s.drop_last()) * 16 + digit_value(s.last())
    }
}

pub open spec fn trim_start(s: Seq<u8>) -> Seq<u8>
    decreases s.len(),
{
    if s.len() > 0 && is_space(s[0]) {
        trim_start(s.drop_first())
    } else {
        s
    }
}

pub open spec fn trim_end(s: Seq<u8>) -> Seq<u8>
    decreases s.len(),
{
    if s.len() > 0 && is_space(s.last()) {
        trim_end(s.drop_last())
    } else {
        s
    }
}

/// A length field without its surrounding whitespace.
pub open spec fn trimmed(s: Seq<u8>) -> Seq<u8> {
    trim_end(trim_start(s))
}

pub open spec fn all_hex_digits(s: Seq<u8>) -> bool {
    forall|i: int| 0 <= i < s.len() ==> is_hex_digit(#[trigger] s[i])
}

/// Why a length field could not be read.
#[derive(Debug, Clone, Copy, PartialEq, Eq, Structural)]
pub enum FieldError {
    /// Only whitespace.
    Empty,
    /// Something other than hexadecimal digits between the whitespace.
    NotHex,
}

/// What a length field holds: the value of its digits once surrounding
/// whitespace is removed.
pub open spec fn field_value(s: Seq<u8>) -> Result<nat, FieldError> {
    let t = trimmed(s);
    if t.len() == 0 {
        Err(FieldError::Empty)
    } else if !all_hex_digits(t) {
        Err(FieldError::NotHex)
    } else {
        Ok(hex_value(t))
    }
}


proof fn lemma_pow16_monotonic(a: nat, b: nat)
    requires
        a <= b,
    ensures
        pow16(a) <= pow16(b),
    decreases b,
{
    if a < b {
        lemma_pow16_monotonic(a, (b - 1) as nat);
    }
}

proof fn lemma_pow16_eight()
    ensures
        pow16(8) == 0x1_0000_0000,
{
    reveal_with_fuel(pow16, 9);
}

proof fn lemma_digits_len(n: nat, k: nat)
    requires
        n < pow16(k),
        k >= 1,
    ensures
        hex_digits(n).len() <= k,
        hex_digits(n).len() >= 1,
    decreases k,
{
    if n >= 16 {
        assert(k >= 2) by {
            if k == 1 {
                reveal_with_fuel(pow16, 2);
            }
            if k == 0 {
                reveal_with_fuel(pow16, 1);
            }
        }
        let p = pow16((k - 1) as nat);
        assert(n / 16 < p) by (nonlinear_arith)
            requires
                n < 16 * p,
        ;
        lemma_digits_len(n / 16, (k - 1) as nat);
    }
}

proof fn lemma_hex_digit(d: nat)
    requires
        d < 16,
    ensures
        is_hex_digit(hex_digit(d)),
        !is_space(hex_digit(d)),
        digit_value(hex_digit(d)) == d,
{
}

proof fn lemma_digits_value(n: nat)
    ensures
        all_hex_digits(hex_digits(n)),
        hex_value(hex_digits(n)) == n,
        hex_digits(n).len() >= 1,
    decreases n,
{
    if n >= 16 {
        lemma_digits_value(n / 16);
        lemma_hex_digit(n % 16);
        let d = hex_digits(n);
        assert(d.drop_last() =~= hex_digits(n / 16));
        assert(n == (n / 16) * 16 + n % 16);
        assert(d.last() == hex_digit(n % 16));
        assert(hex_value(d) == hex_value(hex_digits(n / 16)) * 16 + digit_value(hex_digit(n % 16)));
        assert(all_hex_digits(d)) by {
            assert forall|i: int| 0 <= i < d.len() implies is_hex_digit(#[trigger] d[i]) by {
                if i < d.len() - 1 {
                    assert(d[i] == hex_digits(n / 16)[i]);
                }
            }
        }
    } else {
        lemma_hex_digit(n);
        assert(hex_digits(n).drop_last() =~= Seq::<u8>::empty());
        assert(hex_value(Seq::<u8>::empty()) == 0);
    }
}

proof fn lemma_trim_spaces(k: nat, d: Seq<u8>)
    requires
        d.len() >= 1,
        !is_space(d[0]),
    ensures
        trim_start(spaces(k) + d) == d,
    decreases k,
{
    if k > 0 {
        assert((spaces(k) + d).drop_first() =~= spaces((k - 1) as nat) + d);
        lemma_trim_spaces((k - 1) as nat, d);
    } else {
        assert(spaces(k) + d =~= d);
    }
}

/// A length field reads back as the value it was written for.
pub proof fn lemma_hex_field_round_trip(n: nat)
    requires
        n <= MAX_FILE_SIZE,
    ensures
        hex_field(n).len() == CHUNK_LEN_SIZE,
        field_value(hex_field(n)) == Ok::<nat, FieldError>(n),
{
    lemma_pow16_eight();
    lemma_digits_len(n, 8);
    lemma_digits_value(n);
    let d = hex_digits(n);
    assert(is_hex_digit(d[0]));
    lemma_trim_spaces((CHUNK_LEN_SIZE - d.len()) as nat, d);
    assert(is_hex_digit(d.last()));
    assert(trimmed(hex_field(n)) == d);
}

fn digit_char(d: u64) -> (r: u8)
    requires
        d < 16,
    ensures
        r == hex_digit(d as nat),
{
    if d < 10 {
        (48 + d) as u8
    } else {
        (87 + d) as u8
    }
}

fn digits_of(n: u64) -> (r: Vec<u8>)
    ensures
        r@ == hex_digits(n as nat),
    decreases n,
{
    if n < 16 {
        vec![digit_char(n)]
    } else {
        let mut v = digits_of(n / 16);
        v.push(digit_char(n % 16));
        v
    }
}

/// The length field for `num`, or `None` when `num` is above `MAX_FILE_SIZE`.
pub fn hex_str(num: u64) -> (r: Option<Vec<u8>>)
    ensures
        match r {
            Some(v) => num <= MAX_FILE_SIZE && v@ == hex_field(num as nat),
            None => num > MAX_FILE_SIZE,
        },
{
    if num > MAX_FILE_SIZE {
        return None;
    }
    let digits = digits_of(num);
    proof {
        lemma_pow16_eight();
        lemma_digits_len(num as nat, 8);
    }
    let pad: usize = CHUNK_LEN_SIZE - digits.len();
    let mut out: Vec<u8> = Vec::new();
    let mut i: usize = 0;
    while i < pad
        invariant
            i <= pad,
            out@ == spaces(i as nat),
        decreases pad - i,
    {
        out.push(32u8);
        i = i + 1;
        assert(out@ =~= spaces(i as nat));
    }
    out.extend_from_slice(digits.as_slice());
    assert(out@ =~= hex_field(num as nat));
    Some(out)
}

fn is_space_byte(b: u8) -> (r: bool)
    ensures
        r == is_space(b),
{
    b == 32 || (9 <= b && b <= 13)
}

fn hex_byte_value(b: u8) -> (r: Option<u64>)
    ensures
        match r {
            Some(v) => is_hex_digit(b) && v == digit_value(b) && v < 16,
            None => !is_hex_digit(b),
        },
{
    if 48 <= b && b <= 57 {
        Some((b - 48) as u64)
    } else if 97 <= b && b <= 102 {
        Some((b - 87) as u64)
    } else if 65 <= b && b <= 70 {
        Some((b - 55) as u64)
    } else {
        None
    }
}

/// Reads a length field: hexadecimal digits, either case, with optional
/// whitespace around them.
pub fn parse_hex_field(field: &[u8]) -> (r: Result<u64, FieldError>)
    requires
        field@.len() <= CHUNK_LEN_SIZE,
    ensures
        field_value(field@) == match r {
            Ok(v) => Ok::<nat, FieldError>(v as nat),
            Err(e) => Err::<nat, FieldError>(e),
        },
{
    let n = field.len();
    let mut lo: usize = 0;
    assert(field@.subrange(0, n as int) =~= field@);
    while lo < n && is_space_byte(field[lo])
        invariant
            n == field@.len(),
            lo <= n,
            trim_start(field@) == trim_start(field@.subrange(lo as int, n as int)),
        decreases n - lo,
    {
        assert(field@.subrange(lo as int, n as int).drop_first() =~= field@.subrange(
            lo + 1,
            n as int,
        ));
        lo = lo + 1;
    }
    assert(trim_start(field@) == field@.subrange(lo as int, n as int));
    let mut hi: usize = n;
    while hi > lo && is_space_byte(field[hi - 1])
        invariant
            n == field@.len(),
            lo <= hi <= n,
            trimmed(field@) == trim_end(field@.subrange(lo as int, hi as int)),
        decreases hi,
    {
        assert(field@.subrange(lo as int, hi as int).drop_last() =~= field@.subrange(
            lo as int,
            hi - 1,
        ));
        hi = hi - 1;
    }
    let ghost t = field@.subrange(lo as int, hi as int);
    assert(trimmed(field@) == t);
    if hi == lo {
        return Err(FieldError::Empty);
    }
    let mut v: u64 = 0;
    let mut i: usize = lo;
    while i < hi
        invariant
            n == field@.len(),
            n <= CHUNK_LEN_SIZE,
            lo <= i <= hi <= n,
            t == field@.subrange(lo as int, hi as int),
            trimmed(field@) == t,
            t.len() > 0,
            v == hex_value(field@.subrange(lo as int, i as int)),
            v < pow16((i - lo) as nat),
            forall|j: int| lo <= j < i ==> is_hex_digit(#[trigger] field@[j]),
        decreases hi - i,
    {
        match hex_byte_value(field[i]) {
            None => {
                assert(!is_hex_digit(t[i - lo]));
                return Err(FieldError::NotHex);
            },
            Some(d) => {
                proof {
                    lemma_pow16_monotonic((i - lo) as nat, 8);
                    lemma_pow16_eight();
                    assert(field@.subrange(lo as int, i + 1).drop_last() =~= field@.subrange(
                        lo as int,
                        i as int,
                    ));
                }
                v = v * 16 + d;
                i = i + 1;
            },
        }
    }
    assert(field@.subrange(lo as int, i as int) == t);
    assert(all_hex_digits(t)) by {
        assert forall|j: int| 0 <= j < t.len() implies is_hex_digit(#[trigger] t[j]) by {
            assert(t[j] == field@[lo + j]);
        }
    }
    Ok(v)
}

} // verus!
