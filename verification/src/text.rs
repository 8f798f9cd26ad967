//! Decimal and hexadecimal text of numbers, and small string helpers.
use vstd::prelude::*;
use vstd::string::*;

verus! {

/// The character of decimal digit `d`.
pub open spec fn digit_char(d: int) -> char {
    ('0' as int + d) as char
}

/// The decimal digits of `n`, most significant first, without leading zeros
/// ("0" for zero).
pub open spec fn dec_chars(n: nat) -> Seq<char>
    decreases n,
{
    if n < 10 {
        seq![digit_char(n as int)]
    } else {
        dec_chars(n / 10) + seq![digit_char((n % 10) as int)]
    }
}

/// The decimal digits of `n` as ASCII bytes.
pub open spec fn dec_bytes(n: nat) -> Seq<u8> {
    dec_chars(n).map_values(|c: char| c as u8)
}

/// The string of one decimal digit.
fn digit_str(d: u8) -> (s: &'static str)
    requires
        d < 10,
    ensures
        s@ == seq![digit_char(d as int)],
{
    proof {
        reveal_strlit("0");
        reveal_strlit("1");
        reveal_strlit("2");
        reveal_strlit("3");
        reveal_strlit("4");
        reveal_strlit("5");
        reveal_strlit("6");
        reveal_strlit("7");
        reveal_strlit("8");
        reveal_strlit("9");
    }
    match d {
        0 => "0",
        1 => "1",
        2 => "2",
        3 => "3",
        4 => "4",
        5 => "5",
        6 => "6",
        7 => "7",
        8 => "8",
        _ => "9",
    }
}

/// The decimal digits of `n`, least significant first, as numbers.
fn digits_rev(n: u128) -> (v: Vec<u8>)
    ensures
        v@.len() >= 1,
        forall|i: int| 0 <= i < v@.len() ==> #[trigger] v@[i] < 10,
        dec_chars(n as nat) == Seq::new(v@.len(), |i: int| digit_char(v@[v@.len() - 1 - i] as int)),
    decreases n,
{
    if n < 10 {
        let mut v: Vec<u8> = Vec::new();
        v.push(n as u8);
        assert(dec_chars(n as nat) =~= Seq::new(v@.len(), |i: int| digit_char(v@[v@.len() - 1 - i] as int)));
        v
    } else {
        let mut v = Vec::new();
        v.push((n % 10) as u8);
        let rest = digits_rev(n / 10);
        let mut i: usize = 0;
        while i < rest.len()
            invariant
                i <= rest@.len(),
                forall|j: int| 0 <= j < rest@.len() ==> #[trigger] rest@[j] < 10,
                v@.len() == i + 1,
                v@[0] == (n % 10) as u8,
                forall|j: int| 0 <= j < v@.len() ==> #[trigger] v@[j] < 10,
                forall|j: int| 0 <= j < i ==> #[trigger] v@[j + 1] == rest@[j],
            decreases rest@.len() - i,
        {
            v.push(rest[i]);
            i = i + 1;
        }
        proof {
            let lhs = dec_chars(n as nat);
            let rhs = Seq::new(v@.len(), |k: int| digit_char(v@[v@.len() - 1 - k] as int));
            assert(lhs == dec_chars((n / 10) as nat) + seq![digit_char((n % 10) as int)]);
            assert(lhs =~= rhs) by {
                assert forall|k: int| 0 <= k < rhs.len() implies lhs[k] == rhs[k] by {
                    if k < rest@.len() {
                        let j = rest@.len() - 1 - k;
                        assert(v@[j + 1] == rest@[j]);
                    }
                }
            }
        }
        v
    }
}

/// Append the decimal digits of `n` to `s`.
pub fn push_decimal(s: &mut String, n: u128)
    ensures
        final(s)@ == old(s)@ + dec_chars(n as nat),
{
    let ds = digits_rev(n);
    let len = ds.len();
    let mut k: usize = 0;
    while k < len
        invariant
            len == ds@.len(),
            k <= len,
            forall|i: int| 0 <= i < ds@.len() ==> #[trigger] ds@[i] < 10,
            dec_chars(n as nat) == Seq::new(ds@.len(), |i: int| digit_char(ds@[ds@.len() - 1 - i] as int)),
            s@ == old(s)@ + dec_chars(n as nat).subrange(0, k as int),
        decreases len - k,
    {
        let d = ds[len - 1 - k];
        s.append(digit_str(d));
        proof {
            assert(dec_chars(n as nat).subrange(0, k + 1) =~= dec_chars(n as nat).subrange(0, k as int)
                + seq![digit_char(d as int)]);
        }
        k = k + 1;
    }
    assert(dec_chars(n as nat).subrange(0, len as int) =~= dec_chars(n as nat));
}

/// The decimal digits of `n` as ASCII bytes.
pub fn decimal_bytes(n: u128) -> (v: Vec<u8>)
    ensures
        v@ == dec_bytes(n as nat),
{
    let ds = digits_rev(n);
    let len = ds.len();
    let mut v: Vec<u8> = Vec::new();
    let mut k: usize = 0;
    while k < len
        invariant
            len == ds@.len(),
            k <= len,
            forall|i: int| 0 <= i < ds@.len() ==> #[trigger] ds@[i] < 10,
            dec_chars(n as nat) == Seq::new(ds@.len(), |i: int| digit_char(ds@[ds@.len() - 1 - i] as int)),
            v@ == dec_bytes(n as nat).subrange(0, k as int),
        decreases len - k,
    {
        let d = ds[len - 1 - k];
        v.push(d + 48);
        proof {
            assert(v@ =~= dec_bytes(n as nat).subrange(0, k + 1));
        }
        k = k + 1;
    }
    assert(dec_bytes(n as nat).subrange(0, len as int) =~= dec_bytes(n as nat));
    v
}

/// The uppercase hexadecimal digit of `d` (0..15).
pub open spec fn hex_digit(d: int) -> u8 {
    if d < 10 {
        (48 + d) as u8
    } else {
        (55 + d) as u8
    }
}

/// The uppercase hexadecimal digit of `d` (0..15).
pub fn hex_digit_of(d: u8) -> (c: u8)
    requires
        d < 16,
    ensures
        c == hex_digit(d as int),
{
    if d < 10 {
        48 + d
    } else {
        55 + d
    }
}

/// Whether the string `a` holds the same characters as `b`.
pub fn str_eq(a: &str, b: &str) -> (r: bool)
    ensures
        r == (a@ == b@),
{
    let n = a.unicode_len();
    if n != b.unicode_len() {
        return false;
    }
    let mut i: usize = 0;
    while i < n
        invariant
            n == a@.len(),
            n == b@.len(),
            i <= n,
            forall|j: int| 0 <= j < i ==> a@[j] == b@[j],
        decreases n - i,
    {
        if a.get_char(i) != b.get_char(i) {
            return false;
        }
        i = i + 1;
    }
    assert(a@ =~= b@);
    true
}

} // verus!
