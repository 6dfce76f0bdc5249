//! What numerals stand for.
use vstd::prelude::*;
use crate::decimal::{all_digits, digits_value, numeral, parsed_u64, signed_numeral};

verus! {

/// A numeral is made of digits, begins with a zero only where it is that one digit, and stands for
/// its number.
pub proof fn law_a_numeral_stands_for_its_number(n: nat)
    ensures
        numeral(n).len() > 0,
        forall|i: int| 0 <= i < numeral(n).len() ==> '0' <= #[trigger] numeral(n)[i] <= '9',
        n > 0 ==> numeral(n)[0] != '0',
        n == 0 ==> numeral(n) == seq!['0'],
        digits_value(numeral(n)) == n,
    decreases n,
{
    reveal_with_fuel(digits_value, 2);
    if n < 10 {
        assert(numeral(n).drop_last() =~= Seq::<char>::empty());
        if n == 0 {
            assert(numeral(n) =~= seq!['0']);
        }
    } else {
        law_a_numeral_stands_for_its_number(n / 10);
        let head = numeral(n / 10);
        assert(numeral(n).drop_last() =~= head);
        assert(numeral(n)[0] == head[0]);
        assert forall|i: int| 0 <= i < numeral(n).len() implies '0' <= #[trigger] numeral(n)[i]
            <= '9' by {
            if i < head.len() {
                assert(numeral(n)[i] == head[i]);
            }
        }
        assert(n == (n / 10) * 10 + n % 10);
    }
}

/// A row of digits is read from left to right, each digit ten times less than the one before.
pub proof fn law_a_digit_counts_ten_times_less_than_the_one_before(s: Seq<char>, d: nat)
    requires
        d < 10,
    ensures
        digits_value(Seq::empty()) == 0,
        digits_value(s.push(((48 + d) as u8) as char)) == 10 * digits_value(s) + d,
{
    let c = ((48 + d) as u8) as char;
    assert(s.push(c).drop_last() =~= s);
}

/// What was written as a numeral is read as its number, with a plus sign before it or without.
pub proof fn law_reading_undoes_writing(n: u64)
    ensures
        parsed_u64(numeral(n as nat)) == Some(n),
        parsed_u64(seq!['+'] + numeral(n as nat)) == Some(n),
{
    law_a_numeral_stands_for_its_number(n as nat);
    let s = numeral(n as nat);
    assert('0' <= s[0] <= '9');
    assert(all_digits(s));
    assert((seq!['+'] + s).drop_first() =~= s);
}

/// Nothing is read as a number that holds anything but digits behind an optional plus sign, and
/// nothing that is too large.
pub proof fn law_only_digits_are_read(s: Seq<char>)
    ensures
        s.len() == 0 ==> parsed_u64(s) is None,
        s.len() == 1 && s[0] == '+' ==> parsed_u64(s) is None,
        (exists|i: int| 0 < i < s.len() && !('0' <= #[trigger] s[i] <= '9')) ==> parsed_u64(s)
            is None,
        s.len() > 0 && s[0] != '+' && !('0' <= s[0] <= '9') ==> parsed_u64(s) is None,
        digits_value(s) > u64::MAX && s[0] != '+' ==> parsed_u64(s) is None,
{
    if exists|i: int| 0 < i < s.len() && !('0' <= #[trigger] s[i] <= '9') {
        let i = choose|i: int| 0 < i < s.len() && !('0' <= #[trigger] s[i] <= '9');
        if s[0] == '+' {
            assert(s.drop_first()[i - 1] == s[i]);
            assert(!all_digits(s.drop_first()));
        } else {
            assert(!all_digits(s));
        }
    }
    if s.len() > 0 && s[0] != '+' && !('0' <= s[0] <= '9') {
        assert(!all_digits(s));
    }
}

/// A negative number is a minus sign before the numeral of its opposite, any other its numeral.
pub proof fn law_a_minus_sign_negates(n: nat)
    ensures
        signed_numeral(n as int) == numeral(n),
        n > 0 ==> signed_numeral(-n) == seq!['-'] + numeral(n),
{
}

} // verus!
