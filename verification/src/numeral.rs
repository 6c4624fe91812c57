//! Parsing and formatting of Roman numerals.
//!
//! A numeral is a string over the symbols I, V, X, L, C, D, M (either
//! case). Parsing reads it under the additive/subtractive rule: a symbol
//! standing directly before a strictly larger one counts negatively,
//! every other symbol counts positively. Formatting is the greedy
//! algorithm over the thirteen value/symbol pairs from 1000/M down to
//! 1/I, which yields the canonical form.

use vstd::prelude::*;

verus! {

/// The value of a single symbol, 0 for a character outside the alphabet.
pub open spec fn symbol_value(c: char) -> int {
    if c == 'I' || c == 'i' {
        1
    } else if c == 'V' || c == 'v' {
        5
    } else if c == 'X' || c == 'x' {
        10
    } else if c == 'L' || c == 'l' {
        50
    } else if c == 'C' || c == 'c' {
        100
    } else if c == 'D' || c == 'd' {
        500
    } else if c == 'M' || c == 'm' {
        1000
    } else {
        0
    }
}

/// Whether a character belongs to the numeral alphabet.
pub open spec fn is_roman_symbol(c: char) -> bool {
    symbol_value(c) != 0
}

/// Whether every character of `s` belongs to the numeral alphabet.
pub open spec fn all_valid(s: Seq<char>) -> bool {
    forall|i: int| 0 <= i < s.len() ==> is_roman_symbol(#[trigger] s[i])
}

/// The value of `s` under the additive/subtractive reading, where `next`
/// is the value of the symbol that follows `s` (0 when nothing follows).
/// A symbol counts negatively exactly when the symbol after it is
/// strictly larger.
pub open spec fn roman_value_from(s: Seq<char>, next: int) -> int
    decreases s.len(),
{
    if s.len() == 0 {
        0
    } else {
        let v = symbol_value(s[0]);
        let follow = if s.len() > 1 {
            symbol_value(s[1])
        } else {
            next
        };
        (if v < follow {
            -v
        } else {
            v
        }) + roman_value_from(s.skip(1), next)
    }
}

/// The value of a whole numeral string.
pub open spec fn roman_value(s: Seq<char>) -> int {
    roman_value_from(s, 0)
}

/// The index of the rightmost character outside the alphabet, -1 if all
/// characters are valid.
pub open spec fn last_invalid(s: Seq<char>) -> int
    decreases s.len(),
{
    if s.len() == 0 {
        -1
    } else if !is_roman_symbol(s.last()) {
        s.len() - 1
    } else {
        last_invalid(s.drop_last())
    }
}

/// Whether parsing accepts `s`: non-empty, every character a symbol, and
/// the value within 1..=3999.
pub open spec fn parse_accepts(s: Seq<char>) -> bool {
    &&& s.len() > 0
    &&& all_valid(s)
    &&& 1 <= roman_value(s) <= 3999
}

/// Why a numeral string failed to parse.
#[derive(Clone, Copy, Debug, PartialEq, Eq)]
pub enum ParseError {
    /// The input string was empty.
    EmptyInput,
    /// The input held a character outside the numeral alphabet; the
    /// rightmost such character is reported.
    InvalidSymbol(char),
    /// The value read from the input lies outside 1..=3999.
    OutOfRange,
}

/// The error that parsing reports for a rejected string.
pub open spec fn parse_error_of(s: Seq<char>) -> ParseError
    recommends
        !parse_accepts(s),
{
    if s.len() == 0 {
        ParseError::EmptyInput
    } else if !all_valid(s) {
        ParseError::InvalidSymbol(s[last_invalid(s)])
    } else {
        ParseError::OutOfRange
    }
}

/// `last_invalid` picks exactly the rightmost index whose character is
/// outside the alphabet.
proof fn lemma_last_invalid_at(s: Seq<char>, i: int)
    requires
        0 <= i < s.len(),
        !is_roman_symbol(s[i]),
        forall|k: int| i < k < s.len() ==> is_roman_symbol(#[trigger] s[k]),
    ensures
        last_invalid(s) == i,
    decreases s.len(),
{
    if i < s.len() - 1 {
        assert(s.drop_last()[i] == s[i]);
        assert(forall|k: int|
            i < k < s.drop_last().len() ==> is_roman_symbol(#[trigger] s.drop_last()[k]));
        lemma_last_invalid_at(s.drop_last(), i);
    }
}

/// The canonical numeral for `n`, by greedy subtraction; empty for n <= 0.
pub open spec fn roman_of(n: int) -> Seq<char>
    decreases n,
{
    if n >= 1000 {
        seq!['M'] + roman_of(n - 1000)
    } else if n >= 900 {
        seq!['C', 'M'] + roman_of(n - 900)
    } else if n >= 500 {
        seq!['D'] + roman_of(n - 500)
    } else if n >= 400 {
        seq!['C', 'D'] + roman_of(n - 400)
    } else if n >= 100 {
        seq!['C'] + roman_of(n - 100)
    } else if n >= 90 {
        seq!['X', 'C'] + roman_of(n - 90)
    } else if n >= 50 {
        seq!['L'] + roman_of(n - 50)
    } else if n >= 40 {
        seq!['X', 'L'] + roman_of(n - 40)
    } else if n >= 10 {
        seq!['X'] + roman_of(n - 10)
    } else if n >= 9 {
        seq!['I', 'X'] + roman_of(n - 9)
    } else if n >= 5 {
        seq!['V'] + roman_of(n - 5)
    } else if n >= 4 {
        seq!['I', 'V'] + roman_of(n - 4)
    } else if n >= 1 {
        seq!['I'] + roman_of(n - 1)
    } else {
        Seq::empty()
    }
}

/// Reads a numeral string under the additive/subtractive rule, walking
/// the characters from right to left as the value of the symbol ahead
/// decides the sign of the one behind.
pub fn roman_to_arabic(roman: &str) -> (r: Result<i32, ParseError>)
    ensures
        match r {
            Ok(n) => parse_accepts(roman@) && n as int == roman_value(roman@),
            Err(e) => !parse_accepts(roman@) && e == parse_error_of(roman@),
        },
{
    let len = roman.unicode_len();
    if len == 0 {
        return Err(ParseError::EmptyInput);
    }
    let mut total: i128 = 0;
    let mut prev: i128 = 0;
    let mut i = len;
    while i > 0
        invariant
            0 <= i <= len,
            len == roman@.len(),
            forall|k: int| i <= k < len ==> is_roman_symbol(#[trigger] roman@[k]),
            prev == if i < len {
                symbol_value(roman@[i as int])
            } else {
                0
            },
            total == roman_value_from(roman@.subrange(i as int, len as int), 0),
            -1000 * (len - i) <= total <= 1000 * (len - i),
        decreases i,
    {
        i -= 1;
        let c = roman.get_char(i);
        let v: i128 = if c == 'I' || c == 'i' {
            1
        } else if c == 'V' || c == 'v' {
            5
        } else if c == 'X' || c == 'x' {
            10
        } else if c == 'L' || c == 'l' {
            50
        } else if c == 'C' || c == 'c' {
            100
        } else if c == 'D' || c == 'd' {
            500
        } else if c == 'M' || c == 'm' {
            1000
        } else {
            proof {
                lemma_last_invalid_at(roman@, i as int);
            }
            return Err(ParseError::InvalidSymbol(c));
        };
        if v < prev {
            total = total - v;
        } else {
            total = total + v;
        }
        prev = v;
        proof {
            let s = roman@;
            let suf = s.subrange(i as int, len as int);
            assert(suf[0] == s[i as int]);
            if i + 1 < len {
                assert(suf[1] == s[i as int + 1]);
            }
            assert(suf.skip(1) =~= s.subrange(i as int + 1, len as int));
        }
    }
    proof {
        assert(roman@.subrange(0, len as int) =~= roman@);
    }
    if total <= 0 || total > 3999 {
        return Err(ParseError::OutOfRange);
    }
    Ok(total as i32)
}

/// The canonical numeral for `num` in 1..=3999, as a string.
pub fn arabic_to_roman(num: i32) -> (r: String)
    requires
        1 <= num <= 3999,
    ensures
        r@ == roman_of(num as int),
{
    let mut n = num;
    let mut r = String::new();
    let ghost orig = num as int;
    while n >= 1000
        invariant
            0 <= n <= orig <= 3999,
            roman_of(orig) == r@ + roman_of(n as int),
        decreases n,
    {
        r.append("M");
        n -= 1000;
        proof {
            reveal_strlit("M");
            assert(("M")@ =~= seq!['M']);
            assert(roman_of(orig) =~= r@ + roman_of(n as int));
        }
    }
    while n >= 900
        invariant
            0 <= n < 1000,
            roman_of(orig) == r@ + roman_of(n as int),
        decreases n,
    {
        r.append("CM");
        n -= 900;
        proof {
            reveal_strlit("CM");
            assert(("CM")@ =~= seq!['C', 'M']);
            assert(roman_of(orig) =~= r@ + roman_of(n as int));
        }
    }
    while n >= 500
        invariant
            0 <= n < 900,
            roman_of(orig) == r@ + roman_of(n as int),
        decreases n,
    {
        r.append("D");
        n -= 500;
        proof {
            reveal_strlit("D");
            assert(("D")@ =~= seq!['D']);
            assert(roman_of(orig) =~= r@ + roman_of(n as int));
        }
    }
    while n >= 400
        invariant
            0 <= n < 500,
            roman_of(orig) == r@ + roman_of(n as int),
        decreases n,
    {
        r.append("CD");
        n -= 400;
        proof {
            reveal_strlit("CD");
            assert(("CD")@ =~= seq!['C', 'D']);
            assert(roman_of(orig) =~= r@ + roman_of(n as int));
        }
    }
    while n >= 100
        invariant
            0 <= n < 400,
            roman_of(orig) == r@ + roman_of(n as int),
        decreases n,
    {
        r.append("C");
        n -= 100;
        proof {
            reveal_strlit("C");
            assert(("C")@ =~= seq!['C']);
            assert(roman_of(orig) =~= r@ + roman_of(n as int));
        }
    }
    while n >= 90
        invariant
            0 <= n < 100,
            roman_of(orig) == r@ + roman_of(n as int),
        decreases n,
    {
        r.append("XC");
        n -= 90;
        proof {
            reveal_strlit("XC");
            assert(("XC")@ =~= seq!['X', 'C']);
            assert(roman_of(orig) =~= r@ + roman_of(n as int));
        }
    }
    while n >= 50
        invariant
            0 <= n < 90,
            roman_of(orig) == r@ + roman_of(n as int),
        decreases n,
    {
        r.append("L");
        n -= 50;
        proof {
            reveal_strlit("L");
            assert(("L")@ =~= seq!['L']);
            assert(roman_of(orig) =~= r@ + roman_of(n as int));
        }
    }
    while n >= 40
        invariant
            0 <= n < 50,
            roman_of(orig) == r@ + roman_of(n as int),
        decreases n,
    {
        r.append("XL");
        n -= 40;
        proof {
            reveal_strlit("XL");
            assert(("XL")@ =~= seq!['X', 'L']);
            assert(roman_of(orig) =~= r@ + roman_of(n as int));
        }
    }
    while n >= 10
        invariant
            0 <= n < 40,
            roman_of(orig) == r@ + roman_of(n as int),
        decreases n,
    {
        r.append("X");
        n -= 10;
        proof {
            reveal_strlit("X");
            assert(("X")@ =~= seq!['X']);
            assert(roman_of(orig) =~= r@ + roman_of(n as int));
        }
    }
    while n >= 9
        invariant
            0 <= n < 10,
            roman_of(orig) == r@ + roman_of(n as int),
        decreases n,
    {
        r.append("IX");
        n -= 9;
        proof {
            reveal_strlit("IX");
            assert(("IX")@ =~= seq!['I', 'X']);
            assert(roman_of(orig) =~= r@ + roman_of(n as int));
        }
    }
    while n >= 5
        invariant
            0 <= n < 9,
            roman_of(orig) == r@ + roman_of(n as int),
        decreases n,
    {
        r.append("V");
        n -= 5;
        proof {
            reveal_strlit("V");
            assert(("V")@ =~= seq!['V']);
            assert(roman_of(orig) =~= r@ + roman_of(n as int));
        }
    }
    while n >= 4
        invariant
            0 <= n < 5,
            roman_of(orig) == r@ + roman_of(n as int),
        decreases n,
    {
        r.append("IV");
        n -= 4;
        proof {
            reveal_strlit("IV");
            assert(("IV")@ =~= seq!['I', 'V']);
            assert(roman_of(orig) =~= r@ + roman_of(n as int));
        }
    }
    while n >= 1
        invariant
            0 <= n < 4,
            roman_of(orig) == r@ + roman_of(n as int),
        decreases n,
    {
        r.append("I");
        n -= 1;
        proof {
            reveal_strlit("I");
            assert(("I")@ =~= seq!['I']);
            assert(roman_of(orig) =~= r@ + roman_of(n as int));
        }
    }
    proof {
        assert(roman_of(orig) =~= r@);
    }
    r
}

} // verus!
