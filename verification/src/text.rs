//! Small verified text utilities: string equality by characters, decimal
//! rendering of an unsigned number, and parsing of a signed 32-bit integer
//! from decimal text (the dialog's numeric input).

use vstd::prelude::*;
use vstd::string::StrSliceExecFns;

verus! {

/// What trimming leading and trailing whitespace from the text leaves. The
/// exact character set is Unicode's and is not restated here; the facts a
/// caller needs are stated where the trimming is done.
pub uninterp spec fn trimmed_of(s: Seq<char>) -> Seq<char>;

/// Relies on str::trim: returns the text with leading and trailing
/// whitespace removed, so never longer than its input, and empty input
/// stays empty.
#[verifier::external_body]
pub(crate) fn trim_text<'a>(s: &'a str) -> (r: &'a str)
    ensures
        r@ == trimmed_of(s@),
        r@.len() <= s@.len(),
        s@.len() == 0 ==> r@.len() == 0,
{
    s.trim()
}

/// Character-by-character string equality.
pub fn str_eq(a: &str, b: &str) -> (r: bool)
    ensures
        r == (a@ == b@),
{
    let la = a.unicode_len();
    let lb = b.unicode_len();
    if la != lb {
        return false;
    }
    let mut i: usize = 0;
    while i < la
        invariant
            la == a@.len(),
            lb == b@.len(),
            la == lb,
            i <= la,
            forall|j: int| 0 <= j < i ==> a@[j] == b@[j],
        decreases la - i,
    {
        if a.get_char(i) != b.get_char(i) {
            return false;
        }
        i = i + 1;
    }
    proof {
        assert(a@ =~= b@);
    }
    true
}

/// The character for one decimal digit.
pub open spec fn digit_char(d: nat) -> char {
    if d == 0 {
        '0'
    } else if d == 1 {
        '1'
    } else if d == 2 {
        '2'
    } else if d == 3 {
        '3'
    } else if d == 4 {
        '4'
    } else if d == 5 {
        '5'
    } else if d == 6 {
        '6'
    } else if d == 7 {
        '7'
    } else if d == 8 {
        '8'
    } else {
        '9'
    }
}

/// The decimal rendering of `n`, most significant digit first, no leading
/// zeros (a single `'0'` for zero).
pub open spec fn spec_decimal(n: nat) -> Seq<char>
    decreases n,
{
    if n < 10 {
        seq![digit_char(n)]
    } else {
        spec_decimal(n / 10) + seq![digit_char(n % 10)]
    }
}

fn digit_str(d: usize) -> (r: &'static str)
    requires
        d < 10,
    ensures
        r@ =~= seq![digit_char(d as nat)],
{
    proof {
        reveal_strlit("0");
        reveal_strlit("1");
        reveal_strlit("2");
        reveal_strlit("3");
        reveal_strlit("4");
        reveal_strlit("5");
        reveal_strlit("6");
        reveal_strlit("7");
        reveal_strlit("8");
        reveal_strlit("9");
    }
    match d {
        0 => "0",
        1 => "1",
        2 => "2",
        3 => "3",
        4 => "4",
        5 => "5",
        6 => "6",
        7 => "7",
        8 => "8",
        _ => "9",
    }
}

fn push_decimal(n: usize, out: &mut String)
    ensures
        final(out)@ == old(out)@ + spec_decimal(n as nat),
    decreases n,
{
    if n >= 10 {
        push_decimal(n / 10, out);
    }
    out.append(digit_str(n % 10));
    proof {
        if n >= 10 {
            assert(old(out)@ + spec_decimal(n as nat)
                =~= old(out)@ + spec_decimal(n as nat / 10) + seq![digit_char(n as nat % 10)]);
        } else {
            assert(old(out)@ + spec_decimal(n as nat) =~= old(out)@ + seq![digit_char(n as nat)]);
        }
    }
}

/// Renders `n` in decimal.
pub fn decimal_string(n: usize) -> (r: String)
    ensures
        r@ == spec_decimal(n as nat),
{
    let mut s = String::new();
    push_decimal(n, &mut s);
    proof {
        assert(Seq::<char>::empty() + spec_decimal(n as nat) =~= spec_decimal(n as nat));
    }
    s
}

/// Whether the character is an ASCII decimal digit.
pub open spec fn is_digit(c: char) -> bool {
    '0' <= c && c <= '9'
}

/// The numeric value of an ASCII decimal digit.
pub open spec fn digit_val(c: char) -> int {
    c as int - '0' as int
}

/// Folds the remaining characters into an accumulated value: `None` as soon
/// as a non-digit appears.
pub open spec fn fold_digits(s: Seq<char>, acc: int) -> Option<int>
    decreases s.len(),
{
    if s.len() == 0 {
        Some(acc)
    } else if is_digit(s[0]) {
        fold_digits(s.skip(1), acc * 10 + digit_val(s[0]))
    } else {
        None
    }
}

/// What parsing the text as a signed 32-bit decimal integer yields: an
/// optional leading sign, then one or more ASCII digits and nothing else,
/// with the signed value in the type's range; `None` otherwise.
pub open spec fn spec_parse_i32(s: Seq<char>) -> Option<int> {
    let negative = s.len() > 0 && s[0] == '-';
    let signed = s.len() > 0 && (s[0] == '-' || s[0] == '+');
    let digits = if signed { s.skip(1) } else { s };
    if digits.len() == 0 {
        None
    } else {
        match fold_digits(digits, 0) {
            Some(v) => {
                let value = if negative { -v } else { v };
                if i32::MIN <= value <= i32::MAX {
                    Some(value)
                } else {
                    None
                }
            },
            None => None,
        }
    }
}

/// A folded value never falls below its starting accumulator.
proof fn lemma_fold_digits_monotone(s: Seq<char>, acc: int)
    requires
        acc >= 0,
    ensures
        fold_digits(s, acc) matches Some(v) ==> v >= acc,
    decreases s.len(),
{
    if s.len() > 0 && is_digit(s[0]) {
        lemma_fold_digits_monotone(s.skip(1), acc * 10 + digit_val(s[0]));
    }
}

/// Parses the text as a signed 32-bit decimal integer, exactly when the
/// grammar in `spec_parse_i32` accepts it.
#[verifier::loop_isolation(false)]
pub fn parse_i32(s: &str) -> (r: Option<i32>)
    ensures
        spec_parse_i32(s@) is Some ==> r is Some && r.unwrap() as int == spec_parse_i32(s@).unwrap(),
        spec_parse_i32(s@) is None ==> r is None,
{
    let len = s.unicode_len();
    if len == 0 {
        return None;
    }
    let first = s.get_char(0);
    let negative = first == '-';
    let signed = first == '-' || first == '+';
    let start: usize = if signed { 1 } else { 0 };
    if start >= len {
        return None;
    }
    let ghost digits = if signed { s@.skip(1) } else { s@ };
    proof {
        assert(s@.skip(0) =~= s@);
        assert(digits.len() > 0);
    }
    let mut acc: u64 = 0;
    let mut i: usize = start;
    while i < len
        invariant
            len == s@.len(),
            start <= i <= len,
            signed ==> start == 1,
            !signed ==> start == 0,
            digits == (if signed { s@.skip(1) } else { s@ }),
            acc <= 0x8000_0000u64,
            fold_digits(digits, 0) == fold_digits(s@.skip(i as int), acc as int),
        decreases len - i,
    {
        let c = s.get_char(i);
        let u = c as u32;
        if u < 48 || u > 57 {
            proof {
                assert(!is_digit(s@[i as int]));
                assert(s@.skip(i as int)[0] == s@[i as int]);
                assert(fold_digits(s@.skip(i as int), acc as int) == None::<int>);
            }
            return None;
        }
        proof {
            assert(is_digit(s@[i as int]));
            assert(s@.skip(i as int)[0] == s@[i as int]);
            assert(s@.skip(i as int).skip(1) =~= s@.skip(i + 1));
        }
        let d = (u - 48) as u64;
        proof {
            assert(digit_val(s@[i as int]) == d as int);
        }
        acc = acc * 10 + d;
        if acc > 0x8000_0000 {
            proof {
                lemma_fold_digits_monotone(s@.skip(i + 1), acc as int);
            }
            return None;
        }
        i = i + 1;
    }
    proof {
        assert(s@.skip(len as int) =~= Seq::<char>::empty());
        assert(fold_digits(digits, 0) == Some(acc as int));
    }
    if negative {
        let v = -(acc as i64);
        proof {
            assert(i32::MIN <= v <= i32::MAX);
        }
        Some(v as i32)
    } else {
        if acc > 0x7fff_ffff {
            return None;
        }
        Some(acc as i32)
    }
}

} // verus!
