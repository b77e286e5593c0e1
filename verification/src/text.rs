//! Numbers written out as text.
use vstd::prelude::*;

verus! {

/// The character that stands for the digit `d` in bases up to sixteen.
pub open spec fn digit_char(d: nat, upper: bool) -> char {
    if d < 10 {
        (48 + d) as char
    } else if upper {
        (55 + d) as char
    } else {
        (87 + d) as char
    }
}

/// The shortest numeral for `n` in the given base, most significant digit first.
pub open spec fn numeral(n: nat, base: nat, upper: bool) -> Seq<char>
    decreases n,
{
    if base < 2 || n < base {
        seq![digit_char(n, upper)]
    } else {
        proof {
            vstd::arithmetic::div_mod::lemma_div_decreases(n as int, base as int);
        }
        numeral(n / base, base, upper).push(digit_char(n % base, upper))
    }
}

/// The decimal numeral for `n`.
pub open spec fn decimal(n: nat) -> Seq<char> {
    numeral(n, 10, false)
}

/// The hexadecimal numeral for `n`, in capitals and without leading zeros.
pub open spec fn upper_hex(n: nat) -> Seq<char> {
    numeral(n, 16, true)
}

/// A sixteen-bit number as exactly four small hexadecimal digits.
pub open spec fn hex4(n: u16) -> Seq<char> {
    seq![
        digit_char((n / 4096) as nat, false),
        digit_char((n / 256 % 16) as nat, false),
        digit_char((n / 16 % 16) as nat, false),
        digit_char((n % 16) as nat, false),
    ]
}

/// The text of a single digit.
fn digit_text(d: u64, upper: bool) -> (text: &'static str)
    requires
        d < 16,
    ensures
        text@ == seq![digit_char(d as nat, upper)],
{
    if d == 0 {
        proof {
            reveal_strlit("0");
            assert("0"@ =~= seq![digit_char(d as nat, upper)]);
        }
        "0"
    } else if d == 1 {
        proof {
            reveal_strlit("1");
            assert("1"@ =~= seq![digit_char(d as nat, upper)]);
        }
        "1"
    } else if d == 2 {
        proof {
            reveal_strlit("2");
            assert("2"@ =~= seq![digit_char(d as nat, upper)]);
        }
        "2"
    } else if d == 3 {
        proof {
            reveal_strlit("3");
            assert("3"@ =~= seq![digit_char(d as nat, upper)]);
        }
        "3"
    } else if d == 4 {
        proof {
            reveal_strlit("4");
            assert("4"@ =~= seq![digit_char(d as nat, upper)]);
        }
        "4"
    } else if d == 5 {
        proof {
            reveal_strlit("5");
            assert("5"@ =~= seq![digit_char(d as nat, upper)]);
        }
        "5"
    } else if d == 6 {
        proof {
            reveal_strlit("6");
            assert("6"@ =~= seq![digit_char(d as nat, upper)]);
        }
        "6"
    } else if d == 7 {
        proof {
            reveal_strlit("7");
            assert("7"@ =~= seq![digit_char(d as nat, upper)]);
        }
        "7"
    } else if d == 8 {
        proof {
            reveal_strlit("8");
            assert("8"@ =~= seq![digit_char(d as nat, upper)]);
        }
        "8"
    } else if d == 9 {
        proof {
            reveal_strlit("9");
            assert("9"@ =~= seq![digit_char(d as nat, upper)]);
        }
        "9"
    } else if d == 10 && upper {
        proof {
            reveal_strlit("A");
            assert("A"@ =~= seq![digit_char(d as nat, upper)]);
        }
        "A"
    } else if d == 10 {
        proof {
            reveal_strlit("a");
            assert("a"@ =~= seq![digit_char(d as nat, upper)]);
        }
        "a"
    } else if d == 11 && upper {
        proof {
            reveal_strlit("B");
            assert("B"@ =~= seq![digit_char(d as nat, upper)]);
        }
        "B"
    } else if d == 11 {
        proof {
            reveal_strlit("b");
            assert("b"@ =~= seq![digit_char(d as nat, upper)]);
        }
        "b"
    } else if d == 12 && upper {
        proof {
            reveal_strlit("C");
            assert("C"@ =~= seq![digit_char(d as nat, upper)]);
        }
        "C"
    } else if d == 12 {
        proof {
            reveal_strlit("c");
            assert("c"@ =~= seq![digit_char(d as nat, upper)]);
        }
        "c"
    } else if d == 13 && upper {
        proof {
            reveal_strlit("D");
            assert("D"@ =~= seq![digit_char(d as nat, upper)]);
        }
        "D"
    } else if d == 13 {
        proof {
            reveal_strlit("d");
            assert("d"@ =~= seq![digit_char(d as nat, upper)]);
        }
        "d"
    } else if d == 14 && upper {
        proof {
            reveal_strlit("E");
            assert("E"@ =~= seq![digit_char(d as nat, upper)]);
        }
        "E"
    } else if d == 14 {
        proof {
            reveal_strlit("e");
            assert("e"@ =~= seq![digit_char(d as nat, upper)]);
        }
        "e"
    } else if d == 15 && upper {
        proof {
            reveal_strlit("F");
            assert("F"@ =~= seq![digit_char(d as nat, upper)]);
        }
        "F"
    } else {
        proof {
            reveal_strlit("f");
            assert("f"@ =~= seq![digit_char(d as nat, upper)]);
        }
        "f"
    }
}

/// Writes `n` at the end of `out`.
pub(crate) fn append_numeral(out: &mut String, n: u64, base: u64, upper: bool)
    requires
        2 <= base <= 16,
    ensures
        final(out)@ == old(out)@ + numeral(n as nat, base as nat, upper),
    decreases n,
{
    if n < base {
        out.append(digit_text(n, upper));
    } else {
        proof {
            vstd::arithmetic::div_mod::lemma_div_decreases(n as int, base as int);
            vstd::arithmetic::div_mod::lemma_mod_bound(n as int, base as int);
        }
        append_numeral(out, n / base, base, upper);
        out.append(digit_text(n % base, upper));
        assert(out@ =~= old(out)@ + numeral(n as nat, base as nat, upper));
    }
}

/// Writes the decimal numeral for `n` at the end of `out`.
pub(crate) fn append_decimal(out: &mut String, n: u64)
    ensures
        final(out)@ == old(out)@ + decimal(n as nat),
{
    append_numeral(out, n, 10, false);
}

/// Writes the hexadecimal numeral for `n` at the end of `out`.
pub(crate) fn append_upper_hex(out: &mut String, n: u64)
    ensures
        final(out)@ == old(out)@ + upper_hex(n as nat),
{
    append_numeral(out, n, 16, true);
}

/// Writes the four hexadecimal digits of `n` at the end of `out`.
pub(crate) fn append_hex4(out: &mut String, n: u16)
    ensures
        final(out)@ == old(out)@ + hex4(n),
{
    out.append(digit_text((n / 4096) as u64, false));
    out.append(digit_text((n / 256 % 16) as u64, false));
    out.append(digit_text((n / 16 % 16) as u64, false));
    out.append(digit_text((n % 16) as u64, false));
    assert(out@ =~= old(out)@ + hex4(n));
}

/// The value of a digit in bases up to sixteen, if the character is one.
pub open spec fn digit_value(c: char) -> Option<nat> {
    if '0' <= c <= '9' {
        Some((c as u32 - '0' as u32) as nat)
    } else if 'a' <= c <= 'f' {
        Some((c as u32 - 'a' as u32 + 10) as nat)
    } else if 'A' <= c <= 'F' {
        Some((c as u32 - 'A' as u32 + 10) as nat)
    } else {
        None
    }
}

/// The number that a row of digits stands for, most significant digit first.
pub open spec fn value(digits: Seq<char>, base: nat) -> Option<nat>
    decreases digits.len(),
{
    if digits.len() == 0 {
        Some(0)
    } else {
        match (value(digits.drop_last(), base), digit_value(digits.last())) {
            (Some(high), Some(low)) => if low < base {
                Some(high * base + low)
            } else {
                None
            },
            _ => None,
        }
    }
}

/// Whether a character is a capital letter or, as the other choice, a small one.
pub open spec fn is_letter(c: char, capital: bool) -> bool {
    if capital {
        'A' <= c <= 'Z'
    } else {
        'a' <= c <= 'z'
    }
}

proof fn digits_have_their_value(d: nat, upper: bool)
    requires
        d < 16,
    ensures
        digit_value(digit_char(d, upper)) == Some(d),
        digit_char(d, upper) == '0' <==> d == 0,
        !is_letter(digit_char(d, upper), !upper),
{
}

/// A numeral stands for its number. It has no zero in front, but for the number zero
/// itself, and its letters are all capitals or all small ones, as asked for.
pub proof fn numeral_stands_for_its_number(n: nat, base: nat, upper: bool)
    requires
        2 <= base <= 16,
    ensures
        ({
            let digits = numeral(n, base, upper);
            &&& value(digits, base) == Some(n)
            &&& digits.len() > 0
            &&& digits[0] == '0' <==> n == 0
            &&& n == 0 ==> digits.len() == 1
            &&& forall|k: int| 0 <= k < digits.len() ==> !is_letter(#[trigger] digits[k], !upper)
        }),
    decreases n,
{
    let digits = numeral(n, base, upper);
    if n < base {
        digits_have_their_value(n, upper);
        assert(value(digits.drop_last(), base) == Some(0nat));
        assert(0 * base == 0) by (nonlinear_arith);
        assert(digits.last() == digit_char(n, upper));
    } else {
        vstd::arithmetic::div_mod::lemma_div_decreases(n as int, base as int);
        vstd::arithmetic::div_mod::lemma_mod_bound(n as int, base as int);
        vstd::arithmetic::div_mod::lemma_fundamental_div_mod(n as int, base as int);
        let (high, low) = (n / base, n % base);
        assert(high > 0) by (nonlinear_arith)
            requires
                n >= base,
                base >= 2,
                high == n / base,
        ;
        assert(high * base == base * high) by (nonlinear_arith);
        numeral_stands_for_its_number(high, base, upper);
        digits_have_their_value(low, upper);
        let front = numeral(high, base, upper);
        assert(digits == front.push(digit_char(low, upper)));
        assert(digits.drop_last() =~= front);
        assert(digits[0] == front[0]);
        assert forall|k: int| 0 <= k < digits.len() implies !is_letter(
            #[trigger] digits[k],
            !upper,
        ) by {
            if k < front.len() {
                assert(digits[k] == front[k]);
            }
        }
    }
}

/// Decimal numerals are to be read in base ten, hexadecimal ones in base sixteen, with
/// capitals for letters.
pub proof fn numerals_are_in_their_base(n: nat)
    ensures
        value(decimal(n), 10) == Some(n),
        n > 0 ==> decimal(n)[0] != '0',
        value(upper_hex(n), 16) == Some(n),
        n > 0 ==> upper_hex(n)[0] != '0',
        forall|k: int| 0 <= k < upper_hex(n).len() ==> !is_letter(#[trigger] upper_hex(n)[k], false),
{
    numeral_stands_for_its_number(n, 10, false);
    numeral_stands_for_its_number(n, 16, true);
}

/// Four hexadecimal digits stand for their number, with small letters.
pub proof fn four_digits_stand_for_their_number(n: u16)
    ensures
        hex4(n).len() == 4,
        value(hex4(n), 16) == Some(n as nat),
        forall|k: int| 0 <= k < 4 ==> !is_letter(#[trigger] hex4(n)[k], true),
{
    let digits = hex4(n);
    digits_have_their_value((n / 4096) as nat, false);
    digits_have_their_value((n / 256 % 16) as nat, false);
    digits_have_their_value((n / 16 % 16) as nat, false);
    digits_have_their_value((n % 16) as nat, false);
    reveal_with_fuel(value, 5);
    let three = digits.drop_last();
    let two = three.drop_last();
    let one = two.drop_last();
    assert(one.drop_last().len() == 0);
    assert(digits.last() == digits[3] && three.last() == digits[2]);
    assert(two.last() == digits[1] && one.last() == digits[0]);
}

} // verus!
