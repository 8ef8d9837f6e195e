use vstd::prelude::*;
use vstd::string::StringExecFns;

verus! {

/// Decimal digit character for a value below ten.
pub open spec fn spec_digit_char(d: int) -> char {
    if d == 0 {
        '0'
    } else if d == 1 {
        '1'
    } else if d == 2 {
        '2'
    } else if d == 3 {
        '3'
    } else if d == 4 {
        '4'
    } else if d == 5 {
        '5'
    } else if d == 6 {
        '6'
    } else if d == 7 {
        '7'
    } else if d == 8 {
        '8'
    } else {
        '9'
    }
}

/// Decimal digits of `n`, most significant first, no leading zeros ("0" for zero).
pub open spec fn spec_udigits(n: nat) -> Seq<char>
    decreases n,
{
    if n < 10 {
        seq![spec_digit_char(n as int)]
    } else {
        spec_udigits(n / 10).push(spec_digit_char((n % 10) as int))
    }
}

/// Decimal rendering of a signed value: a minus sign and then the digits of the
/// magnitude when negative, the bare digits otherwise.
pub open spec fn spec_int_str(n: int) -> Seq<char> {
    if n >= 0 {
        spec_udigits(n as nat)
    } else {
        seq!['-'] + spec_udigits((-n) as nat)
    }
}

/// A decimal digit character.
pub open spec fn spec_is_digit(c: char) -> bool {
    48 <= c as int && c as int <= 57
}

/// Numeric value of a digit character.
pub open spec fn spec_digit_val(c: char) -> int {
    c as int - 48
}

/// Value of a string of digit characters, most significant first.
pub open spec fn spec_digits_val(s: Seq<char>) -> int
    decreases s.len(),
{
    if s.len() == 0 {
        0
    } else {
        spec_digits_val(s.drop_last()) * 10 + spec_digit_val(s.last())
    }
}

/// The digits of `n` read back as a value give `n`; they are all digit
/// characters, and there is at least one of them.
pub proof fn lemma_udigits_val(n: nat)
    ensures
        spec_digits_val(spec_udigits(n)) == n,
        spec_udigits(n).len() >= 1,
        forall|i: int|
            0 <= i < spec_udigits(n).len() ==> spec_is_digit(#[trigger] spec_udigits(n)[i]),
    decreases n,
{
    if n < 10 {
        assert(spec_udigits(n) =~= seq![spec_digit_char(n as int)]);
        assert(spec_udigits(n).drop_last() =~= Seq::<char>::empty());
        assert(spec_digits_val(Seq::<char>::empty()) == 0);
        assert(spec_digits_val(spec_udigits(n)) == spec_digits_val(spec_udigits(n).drop_last())
            * 10 + spec_digit_val(spec_udigits(n).last()));
        assert(spec_digit_val(spec_digit_char(n as int)) == n);
    } else {
        lemma_udigits_val(n / 10);
        let prefix = spec_udigits(n / 10);
        let whole = spec_udigits(n);
        assert(whole == prefix.push(spec_digit_char((n % 10) as int)));
        assert(whole.drop_last() =~= prefix);
        assert(whole.last() == spec_digit_char((n % 10) as int));
        assert(spec_digit_val(whole.last()) == n % 10);
        assert(spec_digits_val(whole) == spec_digits_val(prefix) * 10 + n % 10);
        assert(forall|i: int|
            0 <= i < whole.len() ==> spec_is_digit(#[trigger] whole[i])) by {
            assert(forall|i: int| 0 <= i < prefix.len() ==> whole[i] == prefix[i]);
        }
    }
}

/// A digit string's value is nonnegative.
pub proof fn lemma_digits_val_nonneg(s: Seq<char>)
    requires
        forall|i: int| 0 <= i < s.len() ==> spec_is_digit(#[trigger] s[i]),
    ensures
        spec_digits_val(s) >= 0,
    decreases s.len(),
{
    if s.len() > 0 {
        lemma_digits_val_nonneg(s.drop_last());
        assert(spec_is_digit(s.last()));
    }
}

/// Reading one more digit never lowers the value: any prefix of a digit string
/// is worth at most the whole.
pub proof fn lemma_digits_val_prefix_le(s: Seq<char>, i: int)
    requires
        0 <= i <= s.len(),
        forall|j: int| 0 <= j < s.len() ==> spec_is_digit(#[trigger] s[j]),
    ensures
        spec_digits_val(s.take(i)) <= spec_digits_val(s),
    decreases s.len() - i,
{
    if i == s.len() {
        assert(s.take(i) =~= s);
    } else {
        lemma_digits_val_prefix_le(s, i + 1);
        let shorter = s.take(i);
        let longer = s.take(i + 1);
        assert(longer.drop_last() =~= shorter);
        assert(longer.last() == s[i]);
        lemma_digits_val_nonneg(shorter);
        assert(spec_digits_val(longer) == spec_digits_val(shorter) * 10 + spec_digit_val(s[i]));
        assert(spec_digits_val(shorter) * 10 >= spec_digits_val(shorter));
        assert(spec_digit_val(s[i]) >= 0);
    }
}

/// Append the character of the digit `d` to `s`.
fn push_digit(s: &mut String, d: u64)
    requires
        d < 10,
    ensures
        final(s)@ == old(s)@.push(spec_digit_char(d as int)),
{
    if d == 0 {
        s.append("0");
        proof {
            reveal_strlit("0");
            assert(s@ =~= old(s)@.push(spec_digit_char(d as int)));
        }
    } else if d == 1 {
        s.append("1");
        proof {
            reveal_strlit("1");
            assert(s@ =~= old(s)@.push(spec_digit_char(d as int)));
        }
    } else if d == 2 {
        s.append("2");
        proof {
            reveal_strlit("2");
            assert(s@ =~= old(s)@.push(spec_digit_char(d as int)));
        }
    } else if d == 3 {
        s.append("3");
        proof {
            reveal_strlit("3");
            assert(s@ =~= old(s)@.push(spec_digit_char(d as int)));
        }
    } else if d == 4 {
        s.append("4");
        proof {
            reveal_strlit("4");
            assert(s@ =~= old(s)@.push(spec_digit_char(d as int)));
        }
    } else if d == 5 {
        s.append("5");
        proof {
            reveal_strlit("5");
            assert(s@ =~= old(s)@.push(spec_digit_char(d as int)));
        }
    } else if d == 6 {
        s.append("6");
        proof {
            reveal_strlit("6");
            assert(s@ =~= old(s)@.push(spec_digit_char(d as int)));
        }
    } else if d == 7 {
        s.append("7");
        proof {
            reveal_strlit("7");
            assert(s@ =~= old(s)@.push(spec_digit_char(d as int)));
        }
    } else if d == 8 {
        s.append("8");
        proof {
            reveal_strlit("8");
            assert(s@ =~= old(s)@.push(spec_digit_char(d as int)));
        }
    } else {
        s.append("9");
        proof {
            reveal_strlit("9");
            assert(s@ =~= old(s)@.push(spec_digit_char(d as int)));
        }
    }
}

/// Decimal string of an unsigned value.
pub fn u64_to_string(n: u64) -> (s: String)
    ensures
        s@ == spec_udigits(n as nat),
    decreases n,
{
    if n < 10 {
        let mut s = String::new();
        push_digit(&mut s, n);
        proof {
            assert(s@ =~= spec_udigits(n as nat));
        }
        s
    } else {
        let mut s = u64_to_string(n / 10);
        push_digit(&mut s, n % 10);
        s
    }
}

/// Decimal string of a signed value.
pub fn i64_to_string(n: i64) -> (s: String)
    ensures
        s@ == spec_int_str(n as int),
{
    if n >= 0 {
        u64_to_string(n as u64)
    } else {
        let magnitude: u64 = (-(n as i128)) as u64;
        let mut s = String::from_str("-");
        let digits = u64_to_string(magnitude);
        s.append(digits.as_str());
        proof {
            reveal_strlit("-");
            assert(s@ =~= spec_int_str(n as int));
        }
        s
    }
}

} // verus!
