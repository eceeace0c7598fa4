//! Parsing a guess from a line of input.
//!
//! A line is a sequence of bytes. It is trimmed of leading and trailing
//! ASCII whitespace and then read as an unsigned decimal integer, with an
//! optional leading `+` sign. A line whose trimmed form is empty, holds a
//! non-digit, or names a value above `u32::MAX` is not a guess.

use vstd::prelude::*;

verus! {

/// An ASCII whitespace byte: space, tab, line feed, vertical tab, form
/// feed, or carriage return.
pub open spec fn is_space(b: u8) -> bool {
    b == 32 || b == 9 || b == 10 || b == 11 || b == 12 || b == 13
}

/// An ASCII decimal digit.
pub open spec fn is_digit(b: u8) -> bool {
    48 <= b <= 57
}

/// The numeric value of an ASCII digit.
pub open spec fn digit_val(b: u8) -> nat {
    (b - 48) as nat
}

/// The sequence with its leading whitespace removed.
pub open spec fn trim_front(s: Seq<u8>) -> Seq<u8>
    decreases s.len(),
{
    if s.len() > 0 && is_space(s[0]) {
        trim_front(s.drop_first())
    } else {
        s
    }
}

/// The sequence with its trailing whitespace removed.
pub open spec fn trim_back(s: Seq<u8>) -> Seq<u8>
    decreases s.len(),
{
    if s.len() > 0 && is_space(s.last()) {
        trim_back(s.drop_last())
    } else {
        s
    }
}

/// The sequence with leading and trailing whitespace removed.
pub open spec fn trimmed(s: Seq<u8>) -> Seq<u8> {
    trim_back(trim_front(s))
}

/// The digits of the trimmed line, past an optional leading `+` sign.
pub open spec fn digits_part(s: Seq<u8>) -> Seq<u8> {
    let t = trimmed(s);
    if t.len() > 0 && t[0] == 43 {
        t.drop_first()
    } else {
        t
    }
}

/// Every byte of the sequence is an ASCII digit.
pub open spec fn all_digits(s: Seq<u8>) -> bool {
    forall|i: int| 0 <= i < s.len() ==> is_digit(#[trigger] s[i])
}

/// The value of a sequence of decimal digits, most significant first.
pub open spec fn digits_value(s: Seq<u8>) -> nat
    decreases s.len(),
{
    if s.len() == 0 {
        0
    } else {
        digits_value(s.drop_last()) * 10 + digit_val(s.last())
    }
}

/// The line trims to a nonempty run of digits (past an optional `+` sign)
/// whose value fits in `u32`.
pub open spec fn valid_guess_text(s: Seq<u8>) -> bool {
    let d = digits_part(s);
    d.len() > 0 && all_digits(d) && digits_value(d) <= u32::MAX
}

/// The value named by a valid guess line.
pub open spec fn guess_value(s: Seq<u8>) -> u32 {
    digits_value(digits_part(s)) as u32
}

/// If the first `i` bytes are whitespace and byte `i` (if any) is not,
/// trimming the front drops exactly those `i` bytes.
proof fn lemma_trim_front_skip(s: Seq<u8>, i: int)
    requires
        0 <= i <= s.len(),
        forall|k: int| 0 <= k < i ==> is_space(#[trigger] s[k]),
        i < s.len() ==> !is_space(s[i]),
    ensures
        trim_front(s) == s.skip(i),
    decreases i,
{
    if i == 0 {
        assert(s.skip(0) =~= s);
    } else {
        assert(is_space(s[0]));
        lemma_trim_front_skip(s.drop_first(), i - 1);
        assert(s.drop_first().skip(i - 1) =~= s.skip(i));
    }
}

/// If every byte past position `j` is whitespace and byte `j` (if any) is
/// not, trimming the back keeps exactly the first `j + 1` bytes.
proof fn lemma_trim_back_take(s: Seq<u8>, j: int)
    requires
        -1 <= j < s.len(),
        forall|k: int| j < k < s.len() ==> is_space(#[trigger] s[k]),
        j >= 0 ==> !is_space(s[j]),
    ensures
        trim_back(s) == s.take(j + 1),
    decreases s.len() - j,
{
    if j + 1 == s.len() {
        assert(s.take(j + 1) =~= s);
    } else {
        assert(is_space(s.last()));
        lemma_trim_back_take(s.drop_last(), j);
        assert(s.drop_last().take(j + 1) =~= s.take(j + 1));
    }
}

/// The value of a prefix of a digit run never exceeds the value of the run.
proof fn lemma_digits_value_take_le(s: Seq<u8>, m: int)
    requires
        0 <= m <= s.len(),
    ensures
        digits_value(s.take(m)) <= digits_value(s),
    decreases s.len(),
{
    if m == s.len() {
        assert(s.take(m) =~= s);
    } else {
        assert(s.drop_last().take(m) =~= s.take(m));
        lemma_digits_value_take_le(s.drop_last(), m);
    }
}

/// Reads a guess from a line of input: trims ASCII whitespace, then parses
/// the rest as an unsigned decimal integer with an optional leading `+`
/// sign. Returns the value exactly when the line is a valid guess.
pub fn parse_guess(line: &[u8]) -> (r: Option<u32>)
    ensures
        match r {
            Some(n) => valid_guess_text(line@) && n == guess_value(line@),
            None => !valid_guess_text(line@),
        },
{
    let n = line.len();
    let mut i: usize = 0;
    while i < n && is_space_byte(line[i])
        invariant
            0 <= i <= n,
            n == line@.len(),
            forall|k: int| 0 <= k < i ==> is_space(#[trigger] line@[k]),
        decreases n - i,
    {
        i += 1;
    }
    proof {
        lemma_trim_front_skip(line@, i as int);
    }
    if i == n {
        // Only whitespace: the trimmed line is empty.
        proof {
            assert(line@.skip(i as int) =~= Seq::<u8>::empty());
            assert(trimmed(line@).len() == 0);
        }
        return None;
    }
    let mut j: usize = n - 1;
    while j > i && is_space_byte(line[j])
        invariant
            i <= j < n,
            n == line@.len(),
            forall|k: int| j < k < n ==> is_space(#[trigger] line@[k]),
        decreases j,
    {
        j -= 1;
    }
    // line[i] and line[j] are not whitespace, so the trimmed line is
    // exactly line[i ..= j].
    proof {
        lemma_trim_back_take(line@.skip(i as int), j - i as int);
        assert(line@.skip(i as int).take(j - i as int + 1) =~= line@.subrange(
            i as int,
            j as int + 1,
        ));
        assert(trimmed(line@) == line@.subrange(i as int, j as int + 1));
    }
    let mut k: usize = i;
    if line[k] == 43 {
        k += 1;
        proof {
            assert(line@.subrange(i as int, j as int + 1).drop_first() =~= line@.subrange(
                k as int,
                j as int + 1,
            ));
        }
    }
    proof {
        assert(digits_part(line@) =~= line@.subrange(k as int, j as int + 1));
    }
    if k > j {
        // The trimmed line is just a sign: no digits.
        return None;
    }
    let mut acc: u64 = 0;
    let mut idx: usize = k;
    let ghost d = digits_part(line@);
    while idx <= j
        invariant
            k <= idx <= j + 1,
            j < n == line@.len(),
            d == line@.subrange(k as int, j as int + 1),
            d == digits_part(line@),
            d.len() == j + 1 - k,
            acc == digits_value(d.take(idx - k as int)),
            acc <= u32::MAX,
            all_digits(d.take(idx - k as int)),
        decreases j + 1 - idx,
    {
        let b = line[idx];
        if !(48 <= b && b <= 57) {
            proof {
                assert(d[idx - k as int] == b);
                assert(!is_digit(d[idx - k as int]));
                assert(!all_digits(d));
            }
            return None;
        }
        let digit: u64 = (b - 48) as u64;
        let next: u64 = acc * 10 + digit;
        proof {
            assert(d.take(idx - k as int + 1).drop_last() =~= d.take(idx - k as int));
            assert(d.take(idx - k as int + 1).last() == b);
            assert(next == digits_value(d.take(idx - k as int + 1)));
        }
        if next > 4294967295 {
            // The digits read so far already exceed u32::MAX, so the whole
            // run does too.
            proof {
                lemma_digits_value_take_le(d, idx - k as int + 1);
            }
            return None;
        }
        acc = next;
        idx += 1;
    }
    proof {
        assert(d.take(j + 1 - k as int) =~= d);
    }
    Some(acc as u32)
}

/// Whether a byte is ASCII whitespace.
fn is_space_byte(b: u8) -> (r: bool)
    ensures
        r == is_space(b),
{
    b == 32 || b == 9 || b == 10 || b == 11 || b == 12 || b == 13
}

} // verus!
