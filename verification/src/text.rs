//! Small text routines shared by the rest of the crate: character access,
//! comparison, and decimal formatting of integers.

use vstd::prelude::*;
use vstd::string::*;

verus! {

/// `String::push` appends exactly one character at the end of the string.
pub assume_specification[ std::string::String::push ](s: &mut std::string::String, c: char)
    ensures
        final(s)@ == old(s)@.push(c),
;

/// Appends one character to `out`.
pub fn push_char(out: &mut String, c: char)
    ensures
        final(out)@ == old(out)@.push(c),
{
    out.push(c);
}

/// The characters of `s`, in order.
pub fn chars_of(s: &str) -> (out: Vec<char>)
    ensures
        out@ == s@,
{
    let mut out: Vec<char> = Vec::new();
    for c in it: s.chars()
        invariant
            it.seq() == s@,
            out@ == s@.take(it.index() as int),
    {
        proof {
            let k = it.index() as int;
            assert(s@.take(k + 1) =~= s@.take(k).push(c));
        }
        out.push(c);
    }
    proof {
        assert(s@.take(s@.len() as int) =~= s@);
    }
    out
}

/// Whether two strings hold the same characters.
pub fn str_equal(a: &str, b: &str) -> (same: bool)
    ensures
        same == (a@ == b@),
{
    let left = a.to_owned();
    let right = b.to_owned();
    left == right
}

/// Whether `text` begins with `prefix`.
pub fn starts_with(text: &str, prefix: &str) -> (found: bool)
    ensures
        found == prefix@.is_prefix_of(text@),
{
    let t = chars_of(text);
    let p = chars_of(prefix);
    if p.len() > t.len() {
        return false;
    }
    let mut i: usize = 0;
    while i < p.len()
        invariant
            i <= p@.len() <= t@.len(),
            p@ == prefix@,
            t@ == text@,
            forall|j: int| 0 <= j < i ==> p@[j] == t@[j],
        decreases p@.len() - i,
    {
        if p[i] != t[i] {
            proof {
                assert(text@.subrange(0, prefix@.len() as int)[i as int] == text@[i as int]);
            }
            return false;
        }
        i += 1;
    }
    proof {
        assert(prefix@ =~= text@.subrange(0, prefix@.len() as int));
    }
    true
}

/// Texts joined by a separator.
pub open spec fn joined(texts: Seq<Seq<char>>, separator: Seq<char>) -> Seq<char>
    decreases texts.len(),
{
    if texts.len() == 0 {
        Seq::empty()
    } else if texts.len() == 1 {
        texts[0]
    } else {
        joined(texts.drop_last(), separator) + separator + texts.last()
    }
}

/// Appends the texts, joined by `separator`, to `out`.
pub fn push_joined(out: &mut String, texts: &Vec<String>, separator: &str)
    ensures
        final(out)@ == old(out)@ + joined(texts.deep_view(), separator@),
{
    let ghost all = texts.deep_view();
    let mut i: usize = 0;
    proof {
        assert(all.take(0) =~= Seq::<Seq<char>>::empty());
        assert(out@ =~= old(out)@ + joined(all.take(0), separator@));
    }
    while i < texts.len()
        invariant
            i <= texts@.len(),
            all == texts.deep_view(),
            out@ == old(out)@ + joined(all.take(i as int), separator@),
        decreases texts@.len() - i,
    {
        if i > 0 {
            out.append(separator);
        }
        out.append(texts[i].as_str());
        proof {
            let shorter = all.take(i as int);
            let longer = all.take(i + 1);
            assert(longer.drop_last() =~= shorter);
            assert(longer.last() == texts@[i as int]@);
            if i > 0 {
                assert(out@ =~= old(out)@ + (joined(shorter, separator@) + separator@
                    + longer.last()));
            } else {
                assert(joined(shorter, separator@) =~= Seq::<char>::empty());
                assert(out@ =~= old(out)@ + longer[0]);
            }
        }
        i += 1;
    }
    proof {
        assert(all.take(all.len() as int) =~= all);
    }
}

/// The character that writes the digit `d`.
pub open spec fn digit_char(d: int) -> char
    recommends
        0 <= d < 10,
{
    ((48 + d) as u8) as char
}

/// The decimal digits of `n`, most significant first, without padding.
pub open spec fn decimal_digits(n: nat) -> Seq<char>
    decreases n,
{
    if n < 10 {
        seq![digit_char(n as int)]
    } else {
        decimal_digits(n / 10).push(digit_char((n % 10) as int))
    }
}

/// The decimal text of an integer: a minus sign for negative numbers, then
/// the digits of the magnitude.
pub open spec fn decimal(n: int) -> Seq<char> {
    if n < 0 {
        seq!['-'] + decimal_digits((-n) as nat)
    } else {
        decimal_digits(n as nat)
    }
}

/// Appends the decimal digits of `n` to `out`.
pub fn push_digits(out: &mut String, n: u64)
    ensures
        final(out)@ == old(out)@ + decimal_digits(n as nat),
{
    let mut reversed: Vec<char> = Vec::new();
    let mut rest: u64 = n;
    while rest >= 10
        invariant
            decimal_digits(n as nat) == decimal_digits(rest as nat) + reversed@.reverse(),
        decreases rest,
    {
        let d: u8 = (rest % 10) as u8;
        let c: char = (48u8 + d) as char;
        proof {
            let tail = reversed@.reverse();
            assert(reversed@.push(c).reverse() =~= seq![c] + tail);
            assert(decimal_digits(rest as nat) == decimal_digits((rest / 10) as nat).push(c));
            assert(decimal_digits((rest / 10) as nat).push(c) + tail =~= decimal_digits(
                (rest / 10) as nat,
            ) + (seq![c] + tail));
        }
        reversed.push(c);
        rest = rest / 10;
    }
    let first: char = (48u8 + (rest as u8)) as char;
    out.push(first);
    let ghost start = out@;
    assert(start == old(out)@ + decimal_digits(rest as nat)) by {
        assert(decimal_digits(rest as nat) =~= seq![first]);
    }
    let mut i: usize = reversed.len();
    while i > 0
        invariant
            i <= reversed@.len(),
            out@ + reversed@.reverse().subrange(reversed@.len() - i, reversed@.len() as int)
                == start + reversed@.reverse(),
        decreases i,
    {
        i -= 1;
        proof {
            let rev = reversed@.reverse();
            let len = reversed@.len() as int;
            assert(rev[len - 1 - i] == reversed@[i as int]);
            assert(out@.push(reversed@[i as int]) + rev.subrange(len - i, len) =~= out@
                + rev.subrange(len - i - 1, len));
        }
        out.push(reversed[i]);
    }
    proof {
        let rev = reversed@.reverse();
        assert(rev.subrange(reversed@.len() as int, reversed@.len() as int) =~= Seq::<char>::empty());
        assert(out@ + Seq::<char>::empty() =~= out@);
        assert(old(out)@ + decimal_digits(rest as nat) + rev =~= old(out)@ + (decimal_digits(
            rest as nat,
        ) + rev));
    }
}

/// Appends the decimal text of a signed integer to `out`.
pub fn push_decimal(out: &mut String, n: i64)
    ensures
        final(out)@ == old(out)@ + decimal(n as int),
{
    if n < 0 {
        out.push('-');
        let magnitude: u64 = ((-(n + 1)) as u64) + 1;
        push_digits(out, magnitude);
        proof {
            assert(old(out)@.push('-') + decimal_digits(magnitude as nat) =~= old(out)@ + (seq!['-']
                + decimal_digits(magnitude as nat)));
        }
    } else {
        push_digits(out, n as u64);
    }
}

} // verus!
