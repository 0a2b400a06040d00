//! Decimal numerals: what a run of digits denotes, and how a number is written.

use vstd::prelude::*;
use vstd::string::*;

verus! {

/// `c` is one of the ten decimal digits.
pub open spec fn is_digit(c: char) -> bool {
    '0' <= c <= '9'
}

/// The number that the digit `c` stands for.
pub open spec fn digit_value(c: char) -> nat {
    (c as int - '0' as int) as nat
}

/// The digit that stands for `d`, where `d < 10`.
pub open spec fn digit_char(d: nat) -> char {
    (d + '0' as nat) as char
}

/// Every element of `s` is a decimal digit.
pub open spec fn all_digits(s: Seq<char>) -> bool {
    forall|i: int| 0 <= i < s.len() ==> is_digit(#[trigger] s[i])
}

/// The number denoted by the digits `s`, most significant first.
pub open spec fn dec_value(s: Seq<char>) -> nat
    decreases s.len(),
{
    if s.len() == 0 {
        0
    } else {
        dec_value(s.drop_last()) * 10 + digit_value(s.last())
    }
}

/// The shortest decimal numeral of `n`.
pub open spec fn dec_digits(n: nat) -> Seq<char>
    decreases n,
{
    if n < 10 {
        seq![digit_char(n)]
    } else {
        dec_digits(n / 10).push(digit_char(n % 10))
    }
}

/// `s` is a numeral that fits in 32 bits: at least one digit, nothing but digits.
pub open spec fn is_numeral(s: Seq<char>) -> bool {
    s.len() > 0 && all_digits(s) && dec_value(s) <= u32::MAX
}

/// Writing a number and reading it back gives the number.
pub proof fn lemma_dec_digits(n: nat)
    ensures
        dec_digits(n).len() > 0,
        all_digits(dec_digits(n)),
        dec_value(dec_digits(n)) == n,
    decreases n,
{
    if n < 10 {
        let s = dec_digits(n);
        assert(s.drop_last() =~= Seq::<char>::empty());
        assert(dec_value(s.drop_last()) == 0);
    } else {
        lemma_dec_digits(n / 10);
        let s = dec_digits(n);
        assert(s.drop_last() =~= dec_digits(n / 10));
        assert(s.last() == digit_char(n % 10));
    }
}

/// `s` is a numeral without needless zeros in front.
pub open spec fn is_canonical_numeral(s: Seq<char>) -> bool {
    s.len() > 0 && all_digits(s) && (s.len() == 1 || s[0] != '0')
}

/// Reading a numeral without needless zeros and writing the number gives the
/// numeral back.
pub proof fn lemma_dec_value_digits(s: Seq<char>)
    requires
        is_canonical_numeral(s),
    ensures
        dec_digits(dec_value(s)) == s,
        s[0] != '0' ==> dec_value(s) >= 1,
    decreases s.len(),
{
    let d = s.last();
    assert(is_digit(d));
    if s.len() == 1 {
        assert(s.drop_last() =~= Seq::<char>::empty());
        assert(dec_value(s.drop_last()) == 0);
        assert(dec_digits(dec_value(s)) =~= s);
    } else {
        let t = s.drop_last();
        assert(t[0] == s[0]);
        assert forall|i: int| 0 <= i < t.len() implies is_digit(#[trigger] t[i]) by {
            assert(t[i] == s[i]);
        }
        lemma_dec_value_digits(t);
        let n = dec_value(s);
        assert(n == dec_value(t) * 10 + digit_value(d));
        assert(n / 10 == dec_value(t));
        assert(n % 10 == digit_value(d));
        assert(dec_digits(n) =~= s);
    }
}

/// A number is written without needless zeros in front.
pub proof fn lemma_numeral_is_canonical(n: nat)
    ensures
        is_canonical_numeral(dec_digits(n)),
        n >= 1 ==> dec_digits(n)[0] != '0',
    decreases n,
{
    lemma_dec_digits(n);
    if n >= 10 {
        lemma_numeral_is_canonical(n / 10);
        lemma_dec_digits(n / 10);
        assert(dec_digits(n)[0] == dec_digits(n / 10)[0]);
    }
}

/// A numeral denotes at least what any of its prefixes denotes.
pub proof fn lemma_dec_value_prefix(s: Seq<char>, k: int)
    requires
        0 <= k <= s.len(),
    ensures
        dec_value(s.subrange(0, k)) <= dec_value(s),
    decreases s.len() - k,
{
    if k == s.len() {
        assert(s.subrange(0, k) =~= s);
    } else {
        lemma_dec_value_prefix(s.drop_last(), k);
        assert(s.drop_last().subrange(0, k) =~= s.subrange(0, k));
    }
}

/// Reads the digits of `chars` between `from` and `to`.
pub(crate) fn read_numeral(chars: &Vec<char>, from: usize, to: usize) -> (r: Option<u32>)
    requires
        from <= to <= chars@.len(),
    ensures
        r is Some <==> is_numeral(chars@.subrange(from as int, to as int)),
        r matches Some(n) ==> n == dec_value(chars@.subrange(from as int, to as int)),
{
    let ghost s = chars@.subrange(from as int, to as int);
    if from == to {
        return None;
    }
    let mut acc: u32 = 0;
    let mut i: usize = from;
    while i < to
        invariant
            from <= i <= to <= chars@.len(),
            s == chars@.subrange(from as int, to as int),
            all_digits(s.subrange(0, i - from)),
            acc == dec_value(s.subrange(0, i - from)),
        decreases to - i,
    {
        let c: char = chars[i];
        assert(c == s[i - from]);
        if c < '0' || c > '9' {
            assert(!is_digit(s[i - from]));
            return None;
        }
        let d: u32 = c as u32 - 48;
        let ghost next = s.subrange(0, i - from + 1);
        assert(next.drop_last() =~= s.subrange(0, i - from));
        assert(next.last() == s[i - from]);
        assert(digit_value(s[i - from]) == d);
        assert(all_digits(next)) by {
            assert forall|j: int| 0 <= j < next.len() implies is_digit(#[trigger] next[j]) by {
                if j < i - from {
                    assert(s.subrange(0, i - from)[j] == next[j]);
                }
            }
        }
        if acc > (u32::MAX - d) / 10 {
            proof {
                assert(dec_value(next) == acc * 10 + d);
                lemma_dec_value_prefix(s, i - from + 1);
            }
            return None;
        }
        acc = acc * 10 + d;
        i = i + 1;
    }
    assert(s.subrange(0, i - from) =~= s);
    Some(acc)
}

/// The one-character text of the digit `d`.
fn digit_text(d: u32) -> (t: &'static str)
    requires
        d < 10,
    ensures
        t@ == seq![digit_char(d as nat)],
{
    proof {
        reveal_strlit("0");
        reveal_strlit("1");
        reveal_strlit("2");
        reveal_strlit("3");
        reveal_strlit("4");
        reveal_strlit("5");
        reveal_strlit("6");
        reveal_strlit("7");
        reveal_strlit("8");
        reveal_strlit("9");
    }
    let t = if d == 0 {
        "0"
    } else if d == 1 {
        "1"
    } else if d == 2 {
        "2"
    } else if d == 3 {
        "3"
    } else if d == 4 {
        "4"
    } else if d == 5 {
        "5"
    } else if d == 6 {
        "6"
    } else if d == 7 {
        "7"
    } else if d == 8 {
        "8"
    } else {
        "9"
    };
    assert(t@ =~= seq![digit_char(d as nat)]);
    t
}

/// Appends the shortest decimal numeral of `n` to `out`.
pub(crate) fn write_numeral(out: &mut String, n: u32)
    ensures
        final(out)@ == old(out)@ + dec_digits(n as nat),
    decreases n,
{
    if n >= 10 {
        write_numeral(out, n / 10);
    }
    out.append(digit_text(n % 10));
    assert(out@ =~= old(out)@ + dec_digits(n as nat));
}

} // verus!
