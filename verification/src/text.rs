//! Decimal numerals, and the one operation on strings that the rest of the
//! library needs beyond concatenation.

use vstd::prelude::*;

verus! {

/// `String::push` appends one character at the end of the string and changes
/// nothing else.
pub assume_specification[ String::push ](s: &mut String, c: char)
    ensures
        final(s)@ == old(s)@.push(c),
;

/// The texts of some strings.
pub open spec fn texts(strings: Seq<String>) -> Seq<Seq<char>> {
    strings.map_values(|s: String| s@)
}

/// The character that stands for `d`, for `d` below ten.
pub open spec fn digit(d: nat) -> char {
    (48 + d) as char
}

/// The decimal numeral of `n`, without leading zeros.
pub open spec fn decimal(n: nat) -> Seq<char>
    decreases n,
{
    if n < 10 {
        seq![digit(n)]
    } else {
        decimal(n / 10).push(digit(n % 10))
    }
}

/// The decimal numeral of `i`, with a leading minus sign where `i` is negative.
pub open spec fn signed_decimal(i: int) -> Seq<char> {
    if i < 0 {
        seq!['-'] + decimal((-i) as nat)
    } else {
        decimal(i as nat)
    }
}

/// The number that a sequence of digits denotes.
pub open spec fn numeral_value(s: Seq<char>) -> int
    decreases s.len(),
{
    if s.len() == 0 {
        0
    } else {
        10 * numeral_value(s.drop_last()) + (s.last() as int - 48)
    }
}

/// `s` holds digits only.
pub open spec fn all_digits(s: Seq<char>) -> bool {
    forall|i: int| 0 <= i < s.len() ==> '0' <= #[trigger] s[i] <= '9'
}

/// A numeral of one digit denotes that digit.
proof fn lemma_one_digit(s: Seq<char>)
    ensures
        s.len() == 1 ==> numeral_value(s) == s[0] as int - 48,
{
    if s.len() == 1 {
        assert(s.drop_last() =~= Seq::<char>::empty());
        assert(numeral_value(s.drop_last()) == 0);
    }
}

/// A numeral is not empty, holds digits only and no leading zero, and reads back as its
/// number.
pub proof fn lemma_decimal_reads_back(n: nat)
    ensures
        decimal(n).len() > 0,
        all_digits(decimal(n)),
        numeral_value(decimal(n)) == n,
        decimal(n).len() > 1 ==> decimal(n)[0] != '0',
    decreases n,
{
    if n < 10 {
        let s = seq![digit(n)];
        assert(s.drop_last() =~= Seq::<char>::empty());
        assert(numeral_value(s.drop_last()) == 0);
        assert(numeral_value(s) == n);
    } else {
        lemma_decimal_reads_back(n / 10);
        let s = decimal(n / 10).push(digit(n % 10));
        assert(s.drop_last() =~= decimal(n / 10));
        assert(s[0] == decimal(n / 10)[0]);
        lemma_one_digit(decimal(n / 10));
    }
}

/// The numeral of a number with a sign: one that is not negative is written like any
/// number, and a negative one as a minus sign before the numeral of its amount.
pub proof fn law_signed_numeral_reads_back(i: int)
    ensures
        i >= 0 ==> all_digits(signed_decimal(i)) && numeral_value(signed_decimal(i)) == i,
        i < 0 ==> {
            let s = signed_decimal(i);
            &&& s.len() > 1
            &&& s[0] == '-'
            &&& all_digits(s.skip(1))
            &&& numeral_value(s.skip(1)) == -i
            &&& s[1] != '0'
        },
        i >= 0 && signed_decimal(i).len() > 1 ==> signed_decimal(i)[0] != '0',
        signed_decimal(i).len() > 0,
{
    if i < 0 {
        lemma_decimal_reads_back((-i) as nat);
        let d = decimal((-i) as nat);
        assert(signed_decimal(i).skip(1) =~= d);
        assert(signed_decimal(i)[1] == d[0]);
        lemma_one_digit(d);
    } else {
        lemma_decimal_reads_back(i as nat);
    }
}

/// The texts of some strings are theirs, one for one.
pub proof fn law_texts_one_for_one(strings: Seq<String>)
    ensures
        texts(strings).len() == strings.len(),
        forall|i: int| 0 <= i < strings.len() ==> #[trigger] texts(strings)[i] == strings[i]@,
{
}

/// The decimal numeral of `n`.
pub fn decimal_u64(n: u64) -> (r: String)
    ensures
        r@ == decimal(n as nat),
        all_digits(r@),
        numeral_value(r@) == n,
        r@.len() > 1 ==> r@[0] != '0',
    decreases n,
{
    proof {
        lemma_decimal_reads_back(n as nat);
    }
    let mut s: String = if n < 10 {
        String::new()
    } else {
        decimal_u64(n / 10)
    };
    let d: u8 = (n % 10) as u8;
    s.push((48 + d) as char);
    s
}

/// The decimal numeral of `i`, with its sign where it is negative.
pub fn decimal_i32(i: i32) -> (r: String)
    ensures
        r@ == signed_decimal(i as int),
{
    if i < 0 {
        let m: u64 = (-(i as i64)) as u64;
        let digits: String = decimal_u64(m);
        let mut s: String = String::new();
        s.push('-');
        s.append(digits.as_str());
        s
    } else {
        decimal_u64(i as u64)
    }
}

} // verus!
