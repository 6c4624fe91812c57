//! The round-trip law: formatting an integer and parsing the result
//! gives the integer back.

use vstd::prelude::*;

use crate::eval::eval_spec;
use crate::eval::EvalError;
use crate::eval::Operation;
use crate::numeral::all_valid;
use crate::numeral::is_roman_symbol;
use crate::numeral::parse_accepts;
use crate::numeral::roman_of;
use crate::numeral::roman_value;
use crate::numeral::roman_value_from;
use crate::numeral::symbol_value;

verus! {

/// The value of the first symbol of `s`, or `next` when `s` is empty:
/// what a symbol standing directly before `s` would be compared against.
spec fn leading_value(s: Seq<char>, next: int) -> int {
    if s.len() == 0 {
        next
    } else {
        symbol_value(s[0])
    }
}

/// The additive/subtractive reading splits over concatenation once the
/// left part is read against the first symbol of the right part.
proof fn lemma_value_from_concat(s1: Seq<char>, s2: Seq<char>, next: int)
    ensures
        roman_value_from(s1 + s2, next) == roman_value_from(s1, leading_value(s2, next))
            + roman_value_from(s2, next),
    decreases s1.len(),
{
    if s1.len() == 0 {
        assert(s1 + s2 =~= s2);
    } else {
        assert((s1 + s2)[0] == s1[0]);
        if s1.len() > 1 {
            assert((s1 + s2)[1] == s1[1]);
        } else if s2.len() > 0 {
            assert((s1 + s2)[1] == s2[0]);
        }
        assert((s1 + s2).skip(1) =~= s1.skip(1) + s2);
        lemma_value_from_concat(s1.skip(1), s2, next);
    }
}

/// Bounds on the first symbol of a canonical numeral: the greedy choice
/// of the leading pair keeps the first symbol's value small enough that
/// a symbol prepended by an outer greedy step is never read negatively.
proof fn lemma_leading_value_of_roman_of(n: int)
    ensures
        leading_value(roman_of(n), 0) <= 1000,
        n < 1000 ==> leading_value(roman_of(n), 0) <= 500,
        n < 500 ==> leading_value(roman_of(n), 0) <= 100,
        n < 100 ==> leading_value(roman_of(n), 0) <= 50,
        n < 50 ==> leading_value(roman_of(n), 0) <= 10,
        n < 10 ==> leading_value(roman_of(n), 0) <= 5,
        n < 5 ==> leading_value(roman_of(n), 0) <= 1,
        n <= 0 ==> leading_value(roman_of(n), 0) == 0,
{
}

/// The reading of a one-symbol sequence.
proof fn lemma_value_from_single(a: char, next: int)
    ensures
        roman_value_from(seq![a], next) == if symbol_value(a) < next {
            -symbol_value(a)
        } else {
            symbol_value(a)
        },
{
    assert(seq![a].skip(1) =~= Seq::<char>::empty());
    assert(roman_value_from(Seq::<char>::empty(), next) == 0);
}

/// The reading of a two-symbol sequence.
proof fn lemma_value_from_pair(a: char, b: char, next: int)
    ensures
        roman_value_from(seq![a, b], next) == (if symbol_value(a) < symbol_value(b) {
            -symbol_value(a)
        } else {
            symbol_value(a)
        }) + (if symbol_value(b) < next {
            -symbol_value(b)
        } else {
            symbol_value(b)
        }),
{
    assert(seq![a, b].skip(1) =~= seq![b]);
    lemma_value_from_single(b, next);
}

/// Concatenation keeps validity.
proof fn lemma_all_valid_concat(s1: Seq<char>, s2: Seq<char>)
    requires
        all_valid(s1),
        all_valid(s2),
    ensures
        all_valid(s1 + s2),
{
    assert forall|i: int| 0 <= i < (s1 + s2).len() implies is_roman_symbol(
        #[trigger] (s1 + s2)[i],
    ) by {
        if i < s1.len() {
            assert((s1 + s2)[i] == s1[i]);
        } else {
            assert((s1 + s2)[i] == s2[i - s1.len()]);
        }
    }
}

/// One greedy step of the round-trip proof: the symbols chosen for the
/// step read back as the value subtracted, in front of the rest.
proof fn lemma_step(sym: Seq<char>, rest: Seq<char>, v: int, n: int)
    requires
        1 <= sym.len() <= 2,
        all_valid(sym),
        roman_value_from(sym, leading_value(rest, 0)) == v,
        all_valid(rest),
        roman_value_from(rest, 0) == n - v,
    ensures
        all_valid(sym + rest),
        roman_value_from(sym + rest, 0) == n,
{
    lemma_value_from_concat(sym, rest, 0);
    lemma_all_valid_concat(sym, rest);
}

/// The canonical numeral of `n` is made of symbols only and reads back
/// to `n`; it is non-empty whenever `n` is at least 1.
proof fn lemma_roman_of_reads_back(n: int)
    requires
        0 <= n <= 3999,
    ensures
        all_valid(roman_of(n)),
        roman_value_from(roman_of(n), 0) == n,
        n >= 1 ==> roman_of(n).len() > 0,
    decreases n,
{
    if n >= 1000 {
        lemma_roman_of_reads_back(n - 1000);
        lemma_leading_value_of_roman_of(n - 1000);
        lemma_value_from_single('M', leading_value(roman_of(n - 1000), 0));
        lemma_step(seq!['M'], roman_of(n - 1000), 1000, n);
    } else if n >= 900 {
        lemma_roman_of_reads_back(n - 900);
        lemma_leading_value_of_roman_of(n - 900);
        lemma_value_from_pair('C', 'M', leading_value(roman_of(n - 900), 0));
        lemma_step(seq!['C', 'M'], roman_of(n - 900), 900, n);
    } else if n >= 500 {
        lemma_roman_of_reads_back(n - 500);
        lemma_leading_value_of_roman_of(n - 500);
        lemma_value_from_single('D', leading_value(roman_of(n - 500), 0));
        lemma_step(seq!['D'], roman_of(n - 500), 500, n);
    } else if n >= 400 {
        lemma_roman_of_reads_back(n - 400);
        lemma_leading_value_of_roman_of(n - 400);
        lemma_value_from_pair('C', 'D', leading_value(roman_of(n - 400), 0));
        lemma_step(seq!['C', 'D'], roman_of(n - 400), 400, n);
    } else if n >= 100 {
        lemma_roman_of_reads_back(n - 100);
        lemma_leading_value_of_roman_of(n - 100);
        lemma_value_from_single('C', leading_value(roman_of(n - 100), 0));
        lemma_step(seq!['C'], roman_of(n - 100), 100, n);
    } else if n >= 90 {
        lemma_roman_of_reads_back(n - 90);
        lemma_leading_value_of_roman_of(n - 90);
        lemma_value_from_pair('X', 'C', leading_value(roman_of(n - 90), 0));
        lemma_step(seq!['X', 'C'], roman_of(n - 90), 90, n);
    } else if n >= 50 {
        lemma_roman_of_reads_back(n - 50);
        lemma_leading_value_of_roman_of(n - 50);
        lemma_value_from_single('L', leading_value(roman_of(n - 50), 0));
        lemma_step(seq!['L'], roman_of(n - 50), 50, n);
    } else if n >= 40 {
        lemma_roman_of_reads_back(n - 40);
        lemma_leading_value_of_roman_of(n - 40);
        lemma_value_from_pair('X', 'L', leading_value(roman_of(n - 40), 0));
        lemma_step(seq!['X', 'L'], roman_of(n - 40), 40, n);
    } else if n >= 10 {
        lemma_roman_of_reads_back(n - 10);
        lemma_leading_value_of_roman_of(n - 10);
        lemma_value_from_single('X', leading_value(roman_of(n - 10), 0));
        lemma_step(seq!['X'], roman_of(n - 10), 10, n);
    } else if n >= 9 {
        lemma_roman_of_reads_back(n - 9);
        lemma_leading_value_of_roman_of(n - 9);
        lemma_value_from_pair('I', 'X', leading_value(roman_of(n - 9), 0));
        lemma_step(seq!['I', 'X'], roman_of(n - 9), 9, n);
    } else if n >= 5 {
        lemma_roman_of_reads_back(n - 5);
        lemma_leading_value_of_roman_of(n - 5);
        lemma_value_from_single('V', leading_value(roman_of(n - 5), 0));
        lemma_step(seq!['V'], roman_of(n - 5), 5, n);
    } else if n >= 4 {
        lemma_roman_of_reads_back(n - 4);
        lemma_leading_value_of_roman_of(n - 4);
        lemma_value_from_pair('I', 'V', leading_value(roman_of(n - 4), 0));
        lemma_step(seq!['I', 'V'], roman_of(n - 4), 4, n);
    } else if n >= 1 {
        lemma_roman_of_reads_back(n - 1);
        lemma_leading_value_of_roman_of(n - 1);
        lemma_value_from_single('I', leading_value(roman_of(n - 1), 0));
        lemma_step(seq!['I'], roman_of(n - 1), 1, n);
    }
}

/// Round trip: for every integer in 1..=3999, the canonical numeral
/// parses, and it parses back to that very integer.
pub proof fn lemma_round_trip(n: int)
    requires
        1 <= n <= 3999,
    ensures
        parse_accepts(roman_of(n)),
        roman_value(roman_of(n)) == n,
{
    lemma_roman_of_reads_back(n);
}

/// Division by zero is unreachable through evaluation: a second operand
/// that parses has a value of at least 1, so the zero check in the
/// divide branch never fires.
pub proof fn lemma_division_by_zero_unreachable(s1: Seq<char>, s2: Seq<char>, op: Operation)
    ensures
        eval_spec(s1, s2, op) != Err::<Seq<char>, EvalError>(EvalError::DivisionByZero),
{
}

} // verus!
