use vstd::prelude::*;

verus! {

pub open spec fn pow10(n: nat) -> nat
    decreases n,
{
    if n == 0 {
        1
    } else {
        10 * pow10((n - 1) as nat)
    }
}

pub open spec fn is_digit_byte(b: u8) -> bool {
    48 <= b <= 57
}

pub open spec fn is_digit_char(c: char) -> bool {
    '0' <= c <= '9'
}

/// All of `s[start .. start + len]` are ASCII digits.
pub open spec fn digit_bytes(s: Seq<u8>, start: int, len: int) -> bool {
    0 <= start && start + len <= s.len() && forall|i: int|
        start <= i < start + len ==> #[trigger] is_digit_byte(s[i])
}

pub open spec fn digit_chars(s: Seq<char>, start: int, len: int) -> bool {
    0 <= start && start + len <= s.len() && forall|i: int|
        start <= i < start + len ==> #[trigger] is_digit_char(s[i])
}

/// The decimal value of the digit bytes `s[start .. start + len]`.
pub open spec fn bytes_value(s: Seq<u8>, start: int, len: nat) -> nat
    decreases len,
{
    if len == 0 {
        0
    } else {
        bytes_value(s, start, (len - 1) as nat) * 10 + (s[start + len - 1] - 48) as nat
    }
}

/// The decimal value of the digit characters `s[start .. start + len]`.
pub open spec fn chars_value(s: Seq<char>, start: int, len: nat) -> nat
    decreases len,
{
    if len == 0 {
        0
    } else {
        chars_value(s, start, (len - 1) as nat) * 10 + (s[start + len - 1] as int - 48) as nat
    }
}

pub proof fn lemma_chars_value_bound(s: Seq<char>, start: int, len: nat)
    requires
        digit_chars(s, start, len as int),
    ensures
        chars_value(s, start, len) < pow10(len),
    decreases len,
{
    if len > 0 {
        lemma_chars_value_bound(s, start, (len - 1) as nat);
        assert(is_digit_char(s[start + len - 1]));
    }
}

/// Reads the decimal number written by `len` digit bytes from `start`.
pub(crate) fn read_bytes_number(s: &Vec<u8>, start: usize, len: usize) -> (r: u32)
    requires
        len <= 4,
        start + len <= s.len(),
        digit_bytes(s@, start as int, len as int),
    ensures
        r as nat == bytes_value(s@, start as int, len as nat),
        (r as nat) < pow10(len as nat),
{
    let mut v: u32 = 0;
    let mut k: usize = 0;
    while k < len
        invariant
            k <= len <= 4,
            start + len <= s.len(),
            digit_bytes(s@, start as int, len as int),
            v as nat == bytes_value(s@, start as int, k as nat),
            (v as nat) < pow10(k as nat),
            pow10(k as nat) <= 10000,
        decreases len - k,
    {
        assert(is_digit_byte(s@[start + k]));
        let b = s[start + k];
        assert(pow10((k + 1) as nat) == 10 * pow10(k as nat));
        assert(k + 1 <= 4 ==> pow10((k + 1) as nat) <= 10000) by {
            reveal_with_fuel(pow10, 5);
        }
        v = v * 10 + (b - 48) as u32;
        k = k + 1;
    }
    v
}

/// Reads the decimal number written by `len` digit characters from `start`.
pub(crate) fn read_chars_number(s: &Vec<char>, start: usize, len: usize) -> (r: u32)
    requires
        len <= 4,
        start + len <= s.len(),
        digit_chars(s@, start as int, len as int),
    ensures
        r as nat == chars_value(s@, start as int, len as nat),
        (r as nat) < pow10(len as nat),
{
    let mut v: u32 = 0;
    let mut k: usize = 0;
    while k < len
        invariant
            k <= len <= 4,
            start + len <= s.len(),
            digit_chars(s@, start as int, len as int),
            v as nat == chars_value(s@, start as int, k as nat),
            (v as nat) < pow10(k as nat),
            pow10(k as nat) <= 10000,
        decreases len - k,
    {
        assert(is_digit_char(s@[start + k]));
        let c = s[start + k];
        assert(pow10((k + 1) as nat) == 10 * pow10(k as nat));
        assert(k + 1 <= 4 ==> pow10((k + 1) as nat) <= 10000) by {
            reveal_with_fuel(pow10, 5);
        }
        let d: u32 = (c as u32) - 48;
        v = v * 10 + d;
        k = k + 1;
    }
    v
}

} // verus!
