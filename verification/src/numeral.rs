//! Decimal numerals: rendering a number as its digit characters, reading the
//! digits back, and the facts (injectivity, round trip) that filename and
//! timestamp handling rely on.

use vstd::prelude::*;

verus! {

/// The character for a single decimal digit.
pub open spec fn digit_char(d: int) -> char {
    if d == 0 {
        '0'
    } else if d == 1 {
        '1'
    } else if d == 2 {
        '2'
    } else if d == 3 {
        '3'
    } else if d == 4 {
        '4'
    } else if d == 5 {
        '5'
    } else if d == 6 {
        '6'
    } else if d == 7 {
        '7'
    } else if d == 8 {
        '8'
    } else {
        '9'
    }
}

/// The usual decimal numeral of `n`, most significant digit first,
/// with no leading zeros (a lone zero for 0).
pub open spec fn dec_rep(n: nat) -> Seq<char>
    decreases n,
{
    if n < 10 {
        seq![digit_char(n as int)]
    } else {
        dec_rep(n / 10) + seq![digit_char((n % 10) as int)]
    }
}

pub open spec fn is_digit(c: char) -> bool {
    '0' <= c && c <= '9'
}

/// The numeric value of a digit character.
pub open spec fn digit_val(c: char) -> int {
    c as int - '0' as int
}

/// The value of a digit string, most significant digit first.
pub open spec fn dec_val(s: Seq<char>) -> int
    decreases s.len(),
{
    if s.len() == 0 {
        0
    } else {
        dec_val(s.drop_last()) * 10 + digit_val(s.last())
    }
}

pub open spec fn all_digits(s: Seq<char>) -> bool {
    forall|i: int| 0 <= i < s.len() ==> is_digit(#[trigger] s[i])
}

pub proof fn lemma_dec_rep_digits(n: nat)
    ensures
        dec_rep(n).len() >= 1,
        n >= 10 ==> dec_rep(n).len() >= 2,
        all_digits(dec_rep(n)),
    decreases n,
{
    if n >= 10 {
        lemma_dec_rep_digits(n / 10);
        assert forall|i: int| 0 <= i < dec_rep(n).len() implies is_digit(#[trigger] dec_rep(n)[i]) by {
            if i < dec_rep(n / 10).len() {
                assert(dec_rep(n)[i] == dec_rep(n / 10)[i]);
            }
        }
    }
}

/// A digit character reads back as the digit it was made from.
pub proof fn lemma_digit_val_char(d: int)
    requires
        0 <= d < 10,
    ensures
        digit_val(digit_char(d)) == d,
        is_digit(digit_char(d)),
{
    assert('0' as int == 48);
    assert('1' as int == 49);
    assert('2' as int == 50);
    assert('3' as int == 51);
    assert('4' as int == 52);
    assert('5' as int == 53);
    assert('6' as int == 54);
    assert('7' as int == 55);
    assert('8' as int == 56);
    assert('9' as int == 57);
}

/// Reading the decimal numeral of `n` back yields `n`.
pub proof fn lemma_dec_val_of_rep(n: nat)
    ensures
        dec_val(dec_rep(n)) == n,
    decreases n,
{
    lemma_dec_rep_digits(n);
    assert(dec_val(dec_rep(n)) == dec_val(dec_rep(n).drop_last()) * 10 + digit_val(
        dec_rep(n).last(),
    ));
    if n < 10 {
        lemma_digit_val_char(n as int);
        assert(dec_rep(n).drop_last() =~= Seq::<char>::empty());
        assert(dec_val(Seq::<char>::empty()) == 0);
        assert(dec_rep(n).last() == digit_char(n as int));
    } else {
        lemma_dec_val_of_rep(n / 10);
        lemma_digit_val_char((n % 10) as int);
        assert(dec_rep(n).drop_last() =~= dec_rep(n / 10));
        assert(dec_rep(n).last() == digit_char((n % 10) as int));
    }
}

/// Distinct numbers have distinct decimal numerals.
pub proof fn lemma_dec_rep_injective(m: nat, n: nat)
    requires
        dec_rep(m) == dec_rep(n),
    ensures
        m == n,
{
    lemma_dec_val_of_rep(m);
    lemma_dec_val_of_rep(n);
}

/// A number below 10000 has at most four digits.
pub proof fn lemma_dec_rep_len_bound(n: nat)
    requires
        n < 10000,
    ensures
        dec_rep(n).len() <= 4,
        n < 10 ==> dec_rep(n).len() == 1,
        10 <= n < 100 ==> dec_rep(n).len() == 2,
        100 <= n < 1000 ==> dec_rep(n).len() == 3,
        1000 <= n ==> dec_rep(n).len() == 4,
    decreases n,
{
    if n >= 10 {
        lemma_dec_rep_len_bound(n / 10);
    }
}

/// A leading zero does not change the value of a digit string.
pub proof fn lemma_dec_val_leading_zero(s: Seq<char>)
    ensures
        dec_val(seq!['0'] + s) == dec_val(s),
    decreases s.len(),
{
    let z = seq!['0'] + s;
    assert(z.len() >= 1);
    assert(dec_val(z) == dec_val(z.drop_last()) * 10 + digit_val(z.last()));
    if s.len() == 0 {
        assert(z =~= seq!['0']);
        assert(z.drop_last() =~= Seq::<char>::empty());
        assert(dec_val(Seq::<char>::empty()) == 0);
        assert(z.last() == '0');
    } else {
        lemma_dec_val_leading_zero(s.drop_last());
        assert(z.drop_last() =~= seq!['0'] + s.drop_last());
        assert(z.last() == s.last());
        assert(dec_val(s) == dec_val(s.drop_last()) * 10 + digit_val(s.last()));
    }
}

/// The one-character string for a decimal digit.
pub fn digit_str(d: u64) -> (r: &'static str)
    requires
        d < 10,
    ensures
        r@ =~= seq![digit_char(d as int)],
{
    proof {
        reveal_strlit("0");
        reveal_strlit("1");
        reveal_strlit("2");
        reveal_strlit("3");
        reveal_strlit("4");
        reveal_strlit("5");
        reveal_strlit("6");
        reveal_strlit("7");
        reveal_strlit("8");
        reveal_strlit("9");
    }
    match d {
        0 => "0",
        1 => "1",
        2 => "2",
        3 => "3",
        4 => "4",
        5 => "5",
        6 => "6",
        7 => "7",
        8 => "8",
        _ => "9",
    }
}

/// Renders `n` as its decimal numeral.
pub fn u64_to_string(n: u64) -> (r: String)
    ensures
        r@ == dec_rep(n as nat),
    decreases n,
{
    if n < 10 {
        let r = String::from_str(digit_str(n));
        assert(r@ =~= dec_rep(n as nat));
        r
    } else {
        let mut r = u64_to_string(n / 10);
        r.append(digit_str(n % 10));
        assert(r@ =~= dec_rep(n as nat));
        r
    }
}

} // verus!
