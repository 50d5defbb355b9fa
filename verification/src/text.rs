//! Text helpers shared by the resolver: decimal numbers and string building.

use vstd::prelude::*;
use vstd::string::*;

verus! {

/// True for the ten ASCII decimal digits.
pub open spec fn is_digit(c: char) -> bool {
    48 <= c as u32 <= 57
}

/// The number that a sequence of decimal digits denotes, most significant first.
pub open spec fn digits_value(s: Seq<char>) -> nat
    decreases s.len(),
{
    if s.len() == 0 {
        0
    } else {
        digits_value(s.drop_last()) * 10 + (s.last() as u32 - 48) as nat
    }
}

/// True when every character of `s` is a decimal digit.
pub open spec fn all_digits(s: Seq<char>) -> bool {
    forall|i: int| 0 <= i < s.len() ==> is_digit(#[trigger] s[i])
}

/// `s` without one leading plus sign, if it has one.
pub open spec fn without_plus(s: Seq<char>) -> Seq<char> {
    if s.len() > 0 && s[0] == '+' {
        s.drop_first()
    } else {
        s
    }
}

/// The unsigned 64-bit number that `s` spells in decimal: an optional plus sign,
/// then one or more digits whose value fits. `None` for every other text.
pub open spec fn decimal_u64(s: Seq<char>) -> Option<u64> {
    let d = without_plus(s);
    if d.len() > 0 && all_digits(d) && digits_value(d) <= u64::MAX {
        Some(digits_value(d) as u64)
    } else {
        None
    }
}

/// The character of one decimal digit.
pub open spec fn digit_char(d: nat) -> char {
    ((d % 10) + 48) as u8 as char
}

/// The shortest decimal spelling of `v`.
pub open spec fn decimal_text(v: nat) -> Seq<char>
    decreases v,
{
    if v < 10 {
        seq![digit_char(v)]
    } else {
        decimal_text(v / 10).push(digit_char(v % 10))
    }
}

/// The decimal spelling of a number is made of digits and denotes that number.
pub proof fn lemma_decimal_text(v: nat)
    ensures
        decimal_text(v).len() > 0,
        all_digits(decimal_text(v)),
        digits_value(decimal_text(v)) == v,
    decreases v,
{
    let t = decimal_text(v);
    if v < 10 {
        assert(t.drop_last() =~= Seq::<char>::empty());
        assert(digits_value(t.drop_last()) == 0);
        assert(t.last() as u32 == v + 48);
    } else {
        lemma_decimal_text(v / 10);
        assert(t.drop_last() =~= decimal_text(v / 10));
        assert(t.last() as u32 == v % 10 + 48);
        assert forall|i: int| 0 <= i < t.len() implies is_digit(#[trigger] t[i]) by {
            if i < t.len() - 1 {
                assert(t[i] == decimal_text(v / 10)[i]);
            }
        }
    }
}

/// Reading back the decimal spelling of a version gives that version: a
/// pointer that names version `v` resolves to `v`, and pointers that name
/// different versions resolve differently.
pub proof fn lemma_decimal_round_trip(v: u64)
    ensures
        decimal_u64(decimal_text(v as nat)) == Some(v),
{
    lemma_decimal_text(v as nat);
    let t = decimal_text(v as nat);
    assert(is_digit(t[0]));
}

/// Trusted: `String::push` appends exactly the given character and leaves the
/// rest of the string as it was.
#[verifier::external_body]
pub(crate) fn push_char(s: &mut String, c: char)
    ensures
        final(s)@ == old(s)@.push(c),
{
    s.push(c);
}

/// The value of a run of digits does not fall when digits are added behind it.
pub proof fn lemma_digits_value_grows(s: Seq<char>, k: int)
    requires
        all_digits(s),
        0 <= k <= s.len(),
    ensures
        digits_value(s.subrange(0, k)) <= digits_value(s),
    decreases s.len(),
{
    if k == s.len() {
        assert(s.subrange(0, k) =~= s);
    } else {
        let front = s.drop_last();
        assert forall|i: int| 0 <= i < front.len() implies is_digit(#[trigger] front[i]) by {
            assert(front[i] == s[i]);
        }
        lemma_digits_value_grows(front, k);
        assert(front.subrange(0, k) =~= s.subrange(0, k));
        assert(is_digit(s[s.len() - 1]));
    }
}

/// Reads an unsigned 64-bit number in decimal: an optional plus sign, then one
/// or more ASCII digits whose value fits. Every other text is refused.
pub fn parse_u64(text: &str) -> (r: Option<u64>)
    ensures
        r == decimal_u64(text@),
{
    let n: usize = text.unicode_len();
    let mut start: usize = 0;
    if n > 0 && text.get_char(0) == '+' {
        start = 1;
    }
    let ghost d = without_plus(text@);
    assert(d =~= text@.subrange(start as int, n as int));
    if start == n {
        return None;
    }
    let mut acc: u64 = 0;
    let mut i: usize = start;
    assert(d.subrange(0, 0) =~= Seq::<char>::empty());
    while i < n
        invariant
            start <= i <= n,
            n == text@.len(),
            d == without_plus(text@),
            d == text@.subrange(start as int, n as int),
            all_digits(d.subrange(0, i - start)),
            acc == digits_value(d.subrange(0, i - start)),
        decreases n - i,
    {
        let c = text.get_char(i);
        let code: u32 = c as u32;
        proof {
            let seen = d.subrange(0, i - start);
            let next = d.subrange(0, i - start + 1);
            assert(d[i - start] == c);
            assert(next.last() == c);
            assert(next.drop_last() =~= seen);
            assert forall|k: int| 0 <= k < next.len() && is_digit(c) implies is_digit(
                #[trigger] next[k],
            ) by {
                if k < seen.len() {
                    assert(next[k] == seen[k]);
                }
            }
        }
        if code < 48 || code > 57 {
            return None;
        }
        let digit: u64 = (code - 48) as u64;
        if acc > 1844674407370955161 || (acc == 1844674407370955161 && digit > 5) {
            proof {
                let next = d.subrange(0, i - start + 1);
                assert(digits_value(next) == acc * 10 + digit);
                if all_digits(d) {
                    lemma_digits_value_grows(d, i - start + 1);
                }
            }
            return None;
        }
        acc = acc * 10 + digit;
        i += 1;
    }
    assert(d.subrange(0, n - start) =~= d);
    Some(acc)
}

fn push_decimal(out: &mut String, v: u64)
    ensures
        final(out)@ == old(out)@ + decimal_text(v as nat),
    decreases v,
{
    if v >= 10 {
        push_decimal(out, v / 10);
    }
    let digit: u8 = (v % 10) as u8;
    push_char(out, (digit + 48) as char);
    assert(final(out)@ =~= old(out)@ + decimal_text(v as nat));
}

/// The decimal digits of a number, without sign, padding or leading zeros.
pub fn u64_to_string(v: u64) -> (r: String)
    ensures
        r@ == decimal_text(v as nat),
{
    let mut out = String::new();
    push_decimal(&mut out, v);
    assert(out@ =~= decimal_text(v as nat));
    out
}

} // verus!
