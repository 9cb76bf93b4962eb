use vstd::prelude::*;
use vstd::string::StrSliceExecFns;

use crate::rational::{Rational, i64_fits, rat_wf};
use crate::interpreter::{expr_wf, lines_wf, stmt_wf, stmts_wf};
use crate::types::{
    AstNode, AstNodeView, BinaryOperation, Quantity, Unit, UnitIdentity, Value, asts_view,
};

verus! {

/// Why a statement failed to parse.
#[derive(Clone, Copy, Debug, PartialEq, Eq, Structural)]
pub enum ParseReason {
    /// No numeric literal, or a literal without its `[unit]` suffix, where
    /// one was required.
    MalformedLiteral,
    /// A literal whose exact value does not fit the 64-bit rational range.
    LiteralOutOfRange,
    /// A `[...]` suffix naming no unit of the catalog, or missing its
    /// closing bracket.
    UnknownUnitAlias,
    /// An operator outside `+ - * /`.
    UnsupportedOperator,
    /// A parenthesized expression missing a bracket.
    UnmatchedParenthesis,
    /// No term (literal, name or parenthesized expression) where one was
    /// required.
    ExpectedTerm,
    /// No variable name where one was required.
    ExpectedName,
    /// No ` = ` after a statement's variable name.
    ExpectedAssignment,
    /// No `;` after a statement's expression.
    MissingTerminator,
    /// Input left over after the parsed part.
    TrailingInput,
}

/// A parse failure: where in the input, and why.
#[derive(Clone, Copy, Debug, PartialEq, Eq, Structural)]
pub struct ParseError {
    pub position: usize,
    pub reason: ParseReason,
}

/// The code point of a character.
pub open spec fn char_code(c: char) -> int {
    c as int
}

/// An ASCII decimal digit.
pub open spec fn is_digit(c: char) -> bool {
    48 <= char_code(c) <= 57
}

/// The numeric value of a digit.
pub open spec fn digit_val(c: char) -> int {
    char_code(c) - 48
}

/// An ASCII letter.
pub open spec fn is_alpha(c: char) -> bool {
    (65 <= char_code(c) <= 90) || (97 <= char_code(c) <= 122)
}

/// A space or a tab.
pub open spec fn is_space(c: char) -> bool {
    c == ' ' || c == '\t'
}

/// The end of the run of spaces and tabs starting at `pos`.
pub open spec fn space_run_end(s: Seq<char>, pos: int) -> int
    decreases s.len() - pos,
{
    if 0 <= pos < s.len() && is_space(s[pos]) {
        space_run_end(s, pos + 1)
    } else {
        pos
    }
}

/// The end of the run of digits starting at `pos`.
pub open spec fn digit_run_end(s: Seq<char>, pos: int) -> int
    decreases s.len() - pos,
{
    if 0 <= pos < s.len() && is_digit(s[pos]) {
        digit_run_end(s, pos + 1)
    } else {
        pos
    }
}

/// The end of the run of letters starting at `pos`.
pub open spec fn alpha_run_end(s: Seq<char>, pos: int) -> int
    decreases s.len() - pos,
{
    if 0 <= pos < s.len() && is_alpha(s[pos]) {
        alpha_run_end(s, pos + 1)
    } else {
        pos
    }
}

/// The position of the first `c` at or after `pos`, or the input's end.
pub open spec fn find_char_from(s: Seq<char>, pos: int, c: char) -> int
    decreases s.len() - pos,
{
    if 0 <= pos < s.len() && s[pos] != c {
        find_char_from(s, pos + 1, c)
    } else {
        pos
    }
}

/// A run's end never lies before its start nor past the input's end.
proof fn lemma_digit_run_end_bounds(s: Seq<char>, pos: int)
    requires
        0 <= pos <= s.len(),
    ensures
        pos <= digit_run_end(s, pos) <= s.len(),
    decreases s.len() - pos,
{
    if 0 <= pos < s.len() && is_digit(s[pos]) {
        lemma_digit_run_end_bounds(s, pos + 1);
    }
}

/// Skips spaces and tabs; see `space_run_end`.
fn skip_spaces(input: &str, n: usize, pos: usize) -> (r: usize)
    requires
        n == input@.len(),
        pos <= n,
    ensures
        r as int == space_run_end(input@, pos as int),
        pos <= r <= n,
{
    let mut i = pos;
    while i < n
        invariant
            pos <= i <= n,
            n == input@.len(),
            space_run_end(input@, pos as int) == space_run_end(input@, i as int),
        decreases n - i,
    {
        let c = input.get_char(i);
        if !(c == ' ' || c == '\t') {
            return i;
        }
        i = i + 1;
    }
    i
}

/// Scans to the end of a digit run; see `digit_run_end`.
fn scan_digits(input: &str, n: usize, pos: usize) -> (r: usize)
    requires
        n == input@.len(),
        pos <= n,
    ensures
        r as int == digit_run_end(input@, pos as int),
        pos <= r <= n,
{
    let mut i = pos;
    while i < n
        invariant
            pos <= i <= n,
            n == input@.len(),
            digit_run_end(input@, pos as int) == digit_run_end(input@, i as int),
        decreases n - i,
    {
        let c = input.get_char(i);
        let u = c as u32;
        if !(48 <= u && u <= 57) {
            return i;
        }
        i = i + 1;
    }
    i
}

/// Scans to the end of a letter run; see `alpha_run_end`.
fn scan_alpha(input: &str, n: usize, pos: usize) -> (r: usize)
    requires
        n == input@.len(),
        pos <= n,
    ensures
        r as int == alpha_run_end(input@, pos as int),
        pos <= r <= n,
{
    let mut i = pos;
    while i < n
        invariant
            pos <= i <= n,
            n == input@.len(),
            alpha_run_end(input@, pos as int) == alpha_run_end(input@, i as int),
        decreases n - i,
    {
        let c = input.get_char(i);
        let u = c as u32;
        if !((65 <= u && u <= 90) || (97 <= u && u <= 122)) {
            return i;
        }
        i = i + 1;
    }
    i
}

/// Scans to the first occurrence of `c`; see `find_char_from`.
fn scan_to_char(input: &str, n: usize, pos: usize, c: char) -> (r: usize)
    requires
        n == input@.len(),
        pos <= n,
    ensures
        r as int == find_char_from(input@, pos as int, c),
        pos <= r <= n,
{
    let mut i = pos;
    while i < n
        invariant
            pos <= i <= n,
            n == input@.len(),
            find_char_from(input@, pos as int, c) == find_char_from(input@, i as int, c),
        decreases n - i,
    {
        let d = input.get_char(i);
        if d == c {
            return i;
        }
        i = i + 1;
    }
    i
}

/// Whether the characters `[a, b)` of the input equal a literal.
fn span_eq(input: &str, n: usize, a: usize, b: usize, lit: &str, m: usize) -> (r: bool)
    requires
        n == input@.len(),
        a <= b <= n,
        m == lit@.len(),
    ensures
        r == (input@.subrange(a as int, b as int) == lit@),
{
    if b - a != m {
        proof {
            assert(input@.subrange(a as int, b as int).len() == b - a);
        }
        return false;
    }
    let mut i: usize = 0;
    while i < m
        invariant
            a <= b <= n,
            n == input@.len(),
            m == lit@.len(),
            b - a == m,
            i <= m,
            forall|k: int|
                0 <= k < i ==> input@.subrange(a as int, b as int)[k] == lit@[k],
        decreases m - i,
    {
        let c = input.get_char(a + i);
        let d = lit.get_char(i);
        if c != d {
            proof {
                assert(input@.subrange(a as int, b as int)[i as int] != lit@[i as int]);
            }
            return false;
        }
        i = i + 1;
    }
    proof {
        assert(input@.subrange(a as int, b as int) =~= lit@);
    }
    true
}

/// The catalog of unit aliases.  Every alias is matched exactly against
/// the characters between the brackets, which realizes the
/// longest-alias-first rule: `min` can never be taken for `m`.
pub open spec fn spec_unit_for_alias(a: Seq<char>) -> Option<Unit> {
    if a == "m"@ || a == "meter"@ || a == "meters"@ {
        Some(Unit { unit: UnitIdentity::Meter, quantity: Quantity::Length(1) })
    } else if a == "km"@ || a == "kilometer"@ || a == "kilometers"@ {
        Some(Unit { unit: UnitIdentity::Kilometer, quantity: Quantity::Length(1) })
    } else if a == "s"@ || a == "second"@ || a == "seconds"@ {
        Some(Unit { unit: UnitIdentity::Second, quantity: Quantity::Time(1) })
    } else if a == "min"@ || a == "minute"@ || a == "minutes"@ {
        Some(Unit { unit: UnitIdentity::Minute, quantity: Quantity::Time(1) })
    } else if a == "hr"@ || a == "hour"@ || a == "hours"@ {
        Some(Unit { unit: UnitIdentity::Hour, quantity: Quantity::Time(1) })
    } else if a == "d"@ || a == "day"@ || a == "days"@ {
        Some(Unit { unit: UnitIdentity::Day, quantity: Quantity::Time(1) })
    } else if a == "USD"@ || a == "$"@ {
        Some(Unit { unit: UnitIdentity::USD, quantity: Quantity::Currency(1) })
    } else if a == "GBP"@ {
        Some(Unit { unit: UnitIdentity::GBP, quantity: Quantity::Currency(1) })
    } else {
        None
    }
}

/// Looks the characters `[a, b)` up in the alias catalog; see
/// `spec_unit_for_alias`.
fn unit_for_alias(input: &str, n: usize, a: usize, b: usize) -> (r: Option<Unit>)
    requires
        n == input@.len(),
        a <= b <= n,
    ensures
        r == spec_unit_for_alias(input@.subrange(a as int, b as int)),
{
    proof {
        reveal_strlit("m");
        reveal_strlit("meter");
        reveal_strlit("meters");
        reveal_strlit("km");
        reveal_strlit("kilometer");
        reveal_strlit("kilometers");
        reveal_strlit("s");
        reveal_strlit("second");
        reveal_strlit("seconds");
        reveal_strlit("min");
        reveal_strlit("minute");
        reveal_strlit("minutes");
        reveal_strlit("hr");
        reveal_strlit("hour");
        reveal_strlit("hours");
        reveal_strlit("d");
        reveal_strlit("day");
        reveal_strlit("days");
        reveal_strlit("USD");
        reveal_strlit("$");
        reveal_strlit("GBP");
    }
    if span_eq(input, n, a, b, "m", 1) || span_eq(input, n, a, b, "meter", 5) || span_eq(
        input,
        n,
        a,
        b,
        "meters",
        6,
    ) {
        Some(Unit { unit: UnitIdentity::Meter, quantity: Quantity::Length(1) })
    } else if span_eq(input, n, a, b, "km", 2) || span_eq(input, n, a, b, "kilometer", 9)
        || span_eq(input, n, a, b, "kilometers", 10) {
        Some(Unit { unit: UnitIdentity::Kilometer, quantity: Quantity::Length(1) })
    } else if span_eq(input, n, a, b, "s", 1) || span_eq(input, n, a, b, "second", 6) || span_eq(
        input,
        n,
        a,
        b,
        "seconds",
        7,
    ) {
        Some(Unit { unit: UnitIdentity::Second, quantity: Quantity::Time(1) })
    } else if span_eq(input, n, a, b, "min", 3) || span_eq(input, n, a, b, "minute", 6)
        || span_eq(input, n, a, b, "minutes", 7) {
        Some(Unit { unit: UnitIdentity::Minute, quantity: Quantity::Time(1) })
    } else if span_eq(input, n, a, b, "hr", 2) || span_eq(input, n, a, b, "hour", 4) || span_eq(
        input,
        n,
        a,
        b,
        "hours",
        5,
    ) {
        Some(Unit { unit: UnitIdentity::Hour, quantity: Quantity::Time(1) })
    } else if span_eq(input, n, a, b, "d", 1) || span_eq(input, n, a, b, "day", 3) || span_eq(
        input,
        n,
        a,
        b,
        "days",
        4,
    ) {
        Some(Unit { unit: UnitIdentity::Day, quantity: Quantity::Time(1) })
    } else if span_eq(input, n, a, b, "USD", 3) || span_eq(input, n, a, b, "$", 1) {
        Some(Unit { unit: UnitIdentity::USD, quantity: Quantity::Currency(1) })
    } else if span_eq(input, n, a, b, "GBP", 3) {
        Some(Unit { unit: UnitIdentity::GBP, quantity: Quantity::Currency(1) })
    } else {
        None
    }
}

/// A unit suffix: `[`, an alias of the catalog, `]`.
pub open spec fn spec_parse_unit(s: Seq<char>, pos: int) -> Result<(int, Unit), ParseError> {
    if !(0 <= pos < s.len() && s[pos] == '[') {
        Err(ParseError { position: pos as usize, reason: ParseReason::MalformedLiteral })
    } else {
        let close = find_char_from(s, pos + 1, ']');
        if close >= s.len() {
            Err(ParseError { position: pos as usize, reason: ParseReason::UnknownUnitAlias })
        } else {
            match spec_unit_for_alias(s.subrange(pos + 1, close)) {
                Some(u) => Ok((close + 1, u)),
                _ => Err(
                    ParseError {
                        position: (pos + 1) as usize,
                        reason: ParseReason::UnknownUnitAlias,
                    },
                ),
            }
        }
    }
}

/// Parses a unit suffix; see `spec_parse_unit`.
fn p_unit(input: &str, n: usize, pos: usize) -> (r: Result<(usize, Unit), ParseError>)
    requires
        n == input@.len(),
        pos <= n,
    ensures
        match r {
            Ok((e, u)) => pos < e <= n && spec_parse_unit(input@, pos as int) == Ok::<
                (int, Unit),
                ParseError,
            >((e as int, u)),
            Err(er) => spec_parse_unit(input@, pos as int) == Err::<(int, Unit), ParseError>(er),
        },
{
    if pos >= n || input.get_char(pos) != '[' {
        return Err(ParseError { position: pos, reason: ParseReason::MalformedLiteral });
    }
    let close = scan_to_char(input, n, pos + 1, ']');
    if close >= n {
        return Err(ParseError { position: pos, reason: ParseReason::UnknownUnitAlias });
    }
    match unit_for_alias(input, n, pos + 1, close) {
        Some(u) => Ok((close + 1, u)),
        _ => Err(ParseError { position: pos + 1, reason: ParseReason::UnknownUnitAlias }),
    }
}

/// A variable name: one or more ASCII letters.
pub open spec fn spec_parse_name(s: Seq<char>, pos: int) -> Result<(int, AstNodeView), ParseError> {
    let e = alpha_run_end(s, pos);
    if e == pos {
        Err(ParseError { position: pos as usize, reason: ParseReason::ExpectedName })
    } else {
        Ok((e, AstNodeView::Name(s.subrange(pos, e))))
    }
}

/// Parses a variable name; see `spec_parse_name`.
fn p_name(input: &str, n: usize, pos: usize) -> (r: Result<(usize, AstNode), ParseError>)
    requires
        n == input@.len(),
        pos <= n,
    ensures
        match r {
            Ok((e, node)) => pos < e <= n && expr_wf(node@) && spec_parse_name(
                input@,
                pos as int,
            ) == Ok::<(int, AstNodeView), ParseError>((e as int, node@)),
            Err(er) => spec_parse_name(input@, pos as int) == Err::<
                (int, AstNodeView),
                ParseError,
            >(er),
        },
{
    let e = scan_alpha(input, n, pos);
    if e == pos {
        return Err(ParseError { position: pos, reason: ParseReason::ExpectedName });
    }
    let piece = input.substring_char(pos, e);
    Ok((e, AstNode::Name(piece.to_owned())))
}

/// Ten to the `e`th.
pub open spec fn pow10(e: nat) -> int
    decreases e,
{
    if e == 0 {
        1
    } else {
        10 * pow10((e - 1) as nat)
    }
}

/// Every power of ten is at least one.
proof fn lemma_pow10_pos(e: nat)
    ensures
        pow10(e) >= 1,
    decreases e,
{
    if e > 0 {
        lemma_pow10_pos((e - 1) as nat);
    }
}

/// Powers of ten grow with the exponent.
proof fn lemma_pow10_increases(e1: nat, e2: nat)
    requires
        e1 <= e2,
    ensures
        pow10(e1) <= pow10(e2),
    decreases e2,
{
    if e1 < e2 {
        lemma_pow10_increases(e1, (e2 - 1) as nat);
        lemma_pow10_pos((e2 - 1) as nat);
    }
}

/// The number the digits `[a, b)` spell in base ten.
pub open spec fn digits_val(s: Seq<char>, a: int, b: int) -> int
    decreases b - a,
{
    if a >= b {
        0
    } else {
        digits_val(s, a, b - 1) * 10 + digit_val(s[b - 1])
    }
}

/// Concrete powers of ten that the overflow analysis turns on.
proof fn lemma_pow10_concrete()
    ensures
        pow10(17) == 100_000_000_000_000_000,
        pow10(18) == 1_000_000_000_000_000_000,
        pow10(19) == 10_000_000_000_000_000_000,
{
    reveal_with_fuel(pow10, 21);
}

/// A mantissa of at least one and an exponent of at least nineteen leave
/// the 64-bit range, whatever the sign.
proof fn lemma_huge_magnitude(m: int, e: nat)
    requires
        m >= 1,
        e >= 19,
    ensures
        m * pow10(e) > i64::MAX,
        -(m * pow10(e)) < i64::MIN,
{
    lemma_pow10_concrete();
    lemma_pow10_increases(19, e);
    lemma_pow10_pos(e);
    assert(m * pow10(e) >= pow10(e)) by (nonlinear_arith)
        requires
            m >= 1,
            pow10(e) >= 0,
    ;
}

/// A mantissa past the saturation bound leaves the 64-bit range, whatever
/// the exponent and sign.
proof fn lemma_huge_mantissa(m: int, e: nat)
    requires
        m >= 10_000_000_000_000_000_000,
    ensures
        m * pow10(e) > i64::MAX,
        -(m * pow10(e)) < i64::MIN,
{
    lemma_pow10_pos(e);
    assert(m * pow10(e) >= m) by (nonlinear_arith)
        requires
            m >= 0,
            pow10(e) >= 1,
    ;
}

/// The saturating-accumulator relation: up to `sat` the accumulator is the
/// exact value; past it the accumulator pins `sat`.
pub open spec fn sat_rel(sat: int, acc: int, t: int) -> bool {
    0 <= t && (t < sat ==> acc == t) && (t >= sat ==> acc == sat)
}

/// Accumulates the digits `[a, b)` onto `init`, saturating at `sat`; the
/// exact value the run stands for is `t0` shifted past the new digits.
fn acc_digits(
    input: &str,
    n: usize,
    a: usize,
    b: usize,
    init: i128,
    sat: i128,
    Ghost(t0): Ghost<int>,
) -> (r: i128)
    requires
        n == input@.len(),
        a <= b <= n,
        forall|k: int| a <= k < b ==> is_digit(#[trigger] input@[k]),
        2 <= sat <= 100_000_000_000_000_000_000,
        sat_rel(sat as int, init as int, t0),
    ensures
        sat_rel(sat as int, r as int, t0 * pow10((b - a) as nat) + digits_val(input@, a as int, b as int)),
{
    let mut acc = init;
    let mut i = a;
    while i < b
        invariant
            a <= i <= b <= n,
            n == input@.len(),
            forall|k: int| a <= k < b ==> is_digit(#[trigger] input@[k]),
            2 <= sat <= 100_000_000_000_000_000_000,
            0 <= acc <= sat,
            sat_rel(
                sat as int,
                acc as int,
                t0 * pow10((i - a) as nat) + digits_val(input@, a as int, i as int),
            ),
        decreases b - i,
    {
        let c = input.get_char(i);
        let u = c as u32;
        let d: i128 = (u - 48) as i128;
        let ghost tprev = t0 * pow10((i - a) as nat) + digits_val(input@, a as int, i as int);
        let ghost tnext = t0 * pow10((i + 1 - a) as nat) + digits_val(
            input@,
            a as int,
            i as int + 1,
        );
        proof {
            assert(is_digit(input@[i as int]));
            assert(pow10((i + 1 - a) as nat) == 10 * pow10((i - a) as nat));
            assert(digits_val(input@, a as int, i as int + 1) == digits_val(
                input@,
                a as int,
                i as int,
            ) * 10 + digit_val(input@[i as int]));
            assert(tnext == tprev * 10 + digit_val(input@[i as int])) by (nonlinear_arith)
                requires
                    tnext == t0 * (10 * pow10((i - a) as nat)) + (digits_val(
                        input@,
                        a as int,
                        i as int,
                    ) * 10 + digit_val(input@[i as int])),
                    tprev == t0 * pow10((i - a) as nat) + digits_val(input@, a as int, i as int),
            ;
        }
        let next = acc * 10 + d;
        acc = if next >= sat {
            sat
        } else {
            next
        };
        i = i + 1;
    }
    acc
}

/// Ten to the `e`th, executably, within the 64-bit range.
fn pow10_i64(e: u32) -> (r: i64)
    requires
        e <= 18,
    ensures
        r as int == pow10(e as nat),
        1 <= r <= 1_000_000_000_000_000_000,
{
    let mut r: i64 = 1;
    let mut k: u32 = 0;
    proof {
        lemma_pow10_concrete();
    }
    while k < e
        invariant
            k <= e <= 18,
            r as int == pow10(k as nat),
            1 <= r,
            pow10(17) == 100_000_000_000_000_000,
            pow10(18) == 1_000_000_000_000_000_000,
        decreases e - k,
    {
        proof {
            lemma_pow10_increases(k as nat, 17);
        }
        r = r * 10;
        k = k + 1;
        proof {
            lemma_pow10_increases(k as nat, 18);
            lemma_pow10_pos(k as nat);
        }
    }
    proof {
        lemma_pow10_increases(k as nat, 18);
        lemma_pow10_pos(k as nat);
    }
    r
}

/// The value of a literal, assembled from its parts: `neg` the sign, `m`
/// the digits of the mantissa read as an integer, `e` the power of ten
/// that places the point.  A mantissa of zero is the exact zero; any other
/// value must fit the 64-bit rational range exactly, else the literal is
/// out of range.
pub open spec fn spec_make_rational(pos: int, neg: bool, m: int, e: int, end: int) -> Result<
    (int, Rational),
    ParseError,
> {
    if m == 0 {
        Ok((end, Rational { num: 0, den: 1 }))
    } else if e >= 0 {
        let num0 = m * pow10(e as nat);
        let num = if neg {
            -num0
        } else {
            num0
        };
        if i64_fits(num) {
            Ok((end, Rational { num: num as i64, den: 1 }))
        } else {
            Err(ParseError { position: pos as usize, reason: ParseReason::LiteralOutOfRange })
        }
    } else {
        let den = pow10((-e) as nat);
        let num = if neg {
            -m
        } else {
            m
        };
        if i64_fits(num) && i64_fits(den) {
            Ok((end, Rational { num: num as i64, den: den as i64 }))
        } else {
            Err(ParseError { position: pos as usize, reason: ParseReason::LiteralOutOfRange })
        }
    }
}

/// The optional exponent behind a mantissa, and the assembled value.  An
/// `e` not followed by at least one digit is not an exponent; the literal
/// ends before it.
pub open spec fn spec_number_tail(
    s: Seq<char>,
    pos: int,
    neg: bool,
    m: int,
    fc: int,
    after: int,
) -> Result<(int, Rational), ParseError> {
    let hase = 0 <= after < s.len() && (s[after] == 'e' || s[after] == 'E');
    let es = if hase && after + 1 < s.len() && (s[after + 1] == '+' || s[after + 1] == '-') {
        after + 2
    } else {
        after + 1
    };
    let eneg = hase && es == after + 2 && s[after + 1] == '-';
    let ee = if hase {
        digit_run_end(s, es)
    } else {
        after
    };
    if hase && ee > es {
        let ev = if eneg {
            -digits_val(s, es, ee)
        } else {
            digits_val(s, es, ee)
        };
        spec_make_rational(pos, neg, m, ev - fc, ee)
    } else {
        spec_make_rational(pos, neg, m, 0 - fc, after)
    }
}

/// A numeric literal: an optional sign, then digits with an optional
/// point (`1`, `1.5`, `1.`, `.5`), then an optional exponent
/// (`e3`, `E-2`).  Yields the exact rational value and the position
/// behind the literal.
pub open spec fn spec_parse_number(s: Seq<char>, pos: int) -> Result<(int, Rational), ParseError> {
    let neg = 0 <= pos < s.len() && s[pos] == '-';
    let sp = if 0 <= pos < s.len() && (s[pos] == '-' || s[pos] == '+') {
        pos + 1
    } else {
        pos
    };
    let ie = digit_run_end(s, sp);
    if ie == sp {
        if sp < s.len() && s[sp] == '.' {
            let fe = digit_run_end(s, sp + 1);
            if fe == sp + 1 {
                Err(ParseError { position: pos as usize, reason: ParseReason::MalformedLiteral })
            } else {
                spec_number_tail(s, pos, neg, digits_val(s, sp + 1, fe), fe - (sp + 1), fe)
            }
        } else {
            Err(ParseError { position: pos as usize, reason: ParseReason::MalformedLiteral })
        }
    } else if ie < s.len() && s[ie] == '.' {
        let fe = digit_run_end(s, ie + 1);
        let m = digits_val(s, sp, ie) * pow10((fe - (ie + 1)) as nat) + digits_val(s, ie + 1, fe);
        spec_number_tail(s, pos, neg, m, fe - (ie + 1), fe)
    } else {
        spec_number_tail(s, pos, neg, digits_val(s, sp, ie), 0, ie)
    }
}

/// Every character of a digit run is a digit.
proof fn lemma_digit_run_chars(s: Seq<char>, pos: int, k: int)
    requires
        0 <= pos <= k < digit_run_end(s, pos),
        pos <= s.len(),
    ensures
        is_digit(s[k]),
    decreases k - pos,
{
    lemma_digit_run_end_bounds(s, pos);
    if pos < k {
        lemma_digit_run_chars(s, pos + 1, k);
    }
}

/// Assembles a literal's value from its scanned parts; see
/// `spec_make_rational`.  The accumulators may be saturated: a saturated
/// mantissa or exponent always stands for a value out of range, which is
/// exactly what the specification says of the value they replace.
fn make_rational(
    pos: usize,
    neg: bool,
    m_acc: i128,
    Ghost(m): Ghost<int>,
    eneg: bool,
    e_acc: i128,
    Ghost(ev): Ghost<int>,
    fc: usize,
    end: usize,
) -> (r: Result<(usize, Rational), ParseError>)
    requires
        sat_rel(10_000_000_000_000_000_000, m_acc as int, m),
        sat_rel(100_000_000_000_000_000_000, e_acc as int, ev),
    ensures
        ({
            let spec_r = spec_make_rational(
                pos as int,
                neg,
                m,
                (if eneg {
                    -ev
                } else {
                    ev
                }) - fc as int,
                end as int,
            );
            match r {
                Ok((e2, rat)) => e2 == end && rat_wf(rat) && spec_r == Ok::<
                    (int, Rational),
                    ParseError,
                >((e2 as int, rat)),
                Err(er) => spec_r == Err::<(int, Rational), ParseError>(er),
            }
        }),
{
    let ghost etrue: int = (if eneg {
        -ev
    } else {
        ev
    }) - fc as int;
    if m_acc == 0 {
        return Ok((end, Rational { num: 0, den: 1 }));
    }
    proof {
        assert(m >= 1);
        assert(fc as int <= 0xFFFF_FFFF_FFFF_FFFF);
    }
    let fc128: i128 = fc as i128;
    let ecomp: i128 = if eneg {
        -e_acc - fc128
    } else {
        e_acc - fc128
    };
    proof {
        if ev >= 100_000_000_000_000_000_000 {
            if eneg {
                assert(etrue <= -19 && ecomp <= -19);
            } else {
                assert(etrue >= 19 && ecomp >= 19);
            }
        } else {
            assert(ecomp == etrue);
        }
    }
    if ecomp >= 0 {
        if ecomp > 18 {
            proof {
                lemma_huge_magnitude(m, etrue as nat);
            }
            return Err(ParseError { position: pos, reason: ParseReason::LiteralOutOfRange });
        }
        proof {
            assert(etrue == ecomp);
        }
        let p = pow10_i64(ecomp as u32);
        proof {
            assert(m_acc * (p as i128) < 0x8000_0000_0000_0000_0000_0000_0000_0000)
                by (nonlinear_arith)
                requires
                    0 <= m_acc <= 10_000_000_000_000_000_000,
                    1 <= p <= 1_000_000_000_000_000_000,
            ;
            assert(m_acc * (p as i128) >= 0) by (nonlinear_arith)
                requires
                    m_acc >= 0,
                    p >= 1,
            ;
            if m >= 10_000_000_000_000_000_000 {
                lemma_huge_mantissa(m, etrue as nat);
                assert(m_acc * (p as i128) >= 10_000_000_000_000_000_000) by (nonlinear_arith)
                    requires
                        m_acc == 10_000_000_000_000_000_000,
                        p >= 1,
                ;
            }
        }
        let num0: i128 = m_acc * (p as i128);
        let num: i128 = if neg {
            -num0
        } else {
            num0
        };
        if crate::rational::fits_i64(num) {
            Ok((end, Rational { num: num as i64, den: 1 }))
        } else {
            Err(ParseError { position: pos, reason: ParseReason::LiteralOutOfRange })
        }
    } else {
        let f: i128 = -ecomp;
        if f > 18 {
            proof {
                assert(etrue <= -19);
                lemma_pow10_increases(19, (-etrue) as nat);
                lemma_pow10_concrete();
            }
            return Err(ParseError { position: pos, reason: ParseReason::LiteralOutOfRange });
        }
        proof {
            assert(etrue == ecomp);
        }
        let den = pow10_i64(f as u32);
        let num: i128 = if neg {
            -m_acc
        } else {
            m_acc
        };
        proof {
            if m >= 10_000_000_000_000_000_000 {
                assert(!i64_fits(m) && !i64_fits(-m));
            }
        }
        if crate::rational::fits_i64(num) {
            Ok((end, Rational { num: num as i64, den }))
        } else {
            Err(ParseError { position: pos, reason: ParseReason::LiteralOutOfRange })
        }
    }
}

/// Parses the optional exponent behind a mantissa and assembles the
/// literal's value; see `spec_number_tail`.
fn p_number_tail(
    input: &str,
    n: usize,
    pos: usize,
    neg: bool,
    m_acc: i128,
    Ghost(m): Ghost<int>,
    fc: usize,
    after: usize,
) -> (r: Result<(usize, Rational), ParseError>)
    requires
        n == input@.len(),
        pos < after <= n,
        sat_rel(10_000_000_000_000_000_000, m_acc as int, m),
    ensures
        match r {
            Ok((e, rat)) => pos < e <= n && rat_wf(rat) && spec_number_tail(
                input@,
                pos as int,
                neg,
                m,
                fc as int,
                after as int,
            ) == Ok::<(int, Rational), ParseError>((e as int, rat)),
            Err(er) => spec_number_tail(input@, pos as int, neg, m, fc as int, after as int)
                == Err::<(int, Rational), ParseError>(er),
        },
{
    let hase = after < n && {
        let c = input.get_char(after);
        c == 'e' || c == 'E'
    };
    if hase {
        let (eneg, es): (bool, usize) = if after + 1 < n {
            let c = input.get_char(after + 1);
            if c == '-' {
                (true, after + 2)
            } else if c == '+' {
                (false, after + 2)
            } else {
                (false, after + 1)
            }
        } else {
            (false, after + 1)
        };
        let ee = scan_digits(input, n, es);
        if ee > es {
            proof {
                assert forall|k: int| es <= k < ee implies is_digit(#[trigger] input@[k]) by {
                    lemma_digit_run_chars(input@, es as int, k);
                }
            }
            let e_acc = acc_digits(
                input,
                n,
                es,
                ee,
                0,
                100_000_000_000_000_000_000,
                Ghost(0),
            );
            make_rational(
                pos,
                neg,
                m_acc,
                Ghost(m),
                eneg,
                e_acc,
                Ghost(digits_val(input@, es as int, ee as int)),
                fc,
                ee,
            )
        } else {
            make_rational(pos, neg, m_acc, Ghost(m), false, 0, Ghost(0), fc, after)
        }
    } else {
        make_rational(pos, neg, m_acc, Ghost(m), false, 0, Ghost(0), fc, after)
    }
}

/// Parses a numeric literal; see `spec_parse_number`.
fn p_number(input: &str, n: usize, pos: usize) -> (r: Result<(usize, Rational), ParseError>)
    requires
        n == input@.len(),
        pos <= n,
    ensures
        match r {
            Ok((e, rat)) => pos < e <= n && rat_wf(rat) && spec_parse_number(input@, pos as int)
                == Ok::<(int, Rational), ParseError>((e as int, rat)),
            Err(er) => spec_parse_number(input@, pos as int) == Err::<
                (int, Rational),
                ParseError,
            >(er),
        },
{
    let (neg, sp): (bool, usize) = if pos < n {
        let c = input.get_char(pos);
        if c == '-' {
            (true, pos + 1)
        } else if c == '+' {
            (false, pos + 1)
        } else {
            (false, pos)
        }
    } else {
        (false, pos)
    };
    let ie = scan_digits(input, n, sp);
    if ie == sp {
        if sp < n && input.get_char(sp) == '.' {
            let fe = scan_digits(input, n, sp + 1);
            if fe == sp + 1 {
                return Err(ParseError { position: pos, reason: ParseReason::MalformedLiteral });
            }
            proof {
                assert forall|k: int| sp + 1 <= k < fe implies is_digit(#[trigger] input@[k]) by {
                    lemma_digit_run_chars(input@, sp as int + 1, k);
                }
            }
            let m_acc = acc_digits(
                input,
                n,
                sp + 1,
                fe,
                0,
                10_000_000_000_000_000_000,
                Ghost(0),
            );
            p_number_tail(
                input,
                n,
                pos,
                neg,
                m_acc,
                Ghost(digits_val(input@, sp as int + 1, fe as int)),
                fe - (sp + 1),
                fe,
            )
        } else {
            Err(ParseError { position: pos, reason: ParseReason::MalformedLiteral })
        }
    } else if ie < n && input.get_char(ie) == '.' {
        let fe = scan_digits(input, n, ie + 1);
        proof {
            assert forall|k: int| sp <= k < ie implies is_digit(#[trigger] input@[k]) by {
                lemma_digit_run_chars(input@, sp as int, k);
            }
            assert forall|k: int| ie + 1 <= k < fe implies is_digit(#[trigger] input@[k]) by {
                lemma_digit_run_chars(input@, ie as int + 1, k);
            }
        }
        let acc1 = acc_digits(input, n, sp, ie, 0, 10_000_000_000_000_000_000, Ghost(0));
        let m_acc = acc_digits(
            input,
            n,
            ie + 1,
            fe,
            acc1,
            10_000_000_000_000_000_000,
            Ghost(digits_val(input@, sp as int, ie as int)),
        );
        p_number_tail(
            input,
            n,
            pos,
            neg,
            m_acc,
            Ghost(
                digits_val(input@, sp as int, ie as int) * pow10((fe - (ie + 1)) as nat)
                    + digits_val(input@, ie as int + 1, fe as int),
            ),
            fe - (ie + 1),
            fe,
        )
    } else {
        proof {
            assert forall|k: int| sp <= k < ie implies is_digit(#[trigger] input@[k]) by {
                lemma_digit_run_chars(input@, sp as int, k);
            }
        }
        let m_acc = acc_digits(input, n, sp, ie, 0, 10_000_000_000_000_000_000, Ghost(0));
        p_number_tail(
            input,
            n,
            pos,
            neg,
            m_acc,
            Ghost(digits_val(input@, sp as int, ie as int)),
            0,
            ie,
        )
    }
}

/// A value literal node: a number immediately followed by its unit suffix.
pub open spec fn spec_parse_literal(s: Seq<char>, pos: int) -> Result<
    (int, AstNodeView),
    ParseError,
> {
    match spec_parse_number(s, pos) {
        Ok((e1, rat)) => match spec_parse_unit(s, e1) {
            Ok((e2, u)) => Ok(
                (e2, AstNodeView::Double { value: Value::Scalar(rat), unit: u }),
            ),
            Err(er) => Err(er),
        },
        Err(er) => Err(er),
    }
}

/// An operator with optional spaces around it.  `+ - * /` are the
/// language's operators; any other character here is an unsupported
/// operator.
pub open spec fn spec_parse_operator(s: Seq<char>, pos: int) -> Result<
    (int, BinaryOperation),
    ParseError,
> {
    let a = space_run_end(s, pos);
    if 0 <= a < s.len() && (s[a] == '+' || s[a] == '-' || s[a] == '*' || s[a] == '/') {
        let op = if s[a] == '+' {
            BinaryOperation::Add
        } else if s[a] == '-' {
            BinaryOperation::Subtract
        } else if s[a] == '*' {
            BinaryOperation::Multiply
        } else {
            BinaryOperation::Divide
        };
        Ok((space_run_end(s, a + 1), op))
    } else {
        Err(ParseError { position: a as usize, reason: ParseReason::UnsupportedOperator })
    }
}

/// A fully parenthesized binary expression: `(`, a term, an operator, a
/// term, `)`.  The grammar needs no precedence rules because every
/// operation is explicitly bracketed.
pub open spec fn spec_parse_expression(s: Seq<char>, pos: int) -> Result<
    (int, AstNodeView),
    ParseError,
>
    decreases s.len() - pos, 0int,
{
    if !(0 <= pos < s.len() && s[pos] == '(') {
        Err(ParseError { position: pos as usize, reason: ParseReason::ExpectedTerm })
    } else {
        match spec_parse_term(s, pos + 1) {
            Ok((e1, lhs)) => match spec_parse_operator(s, e1) {
                Ok((e2, op)) => if !(pos < e2 <= s.len()) {
                    arbitrary()
                } else {
                    match spec_parse_term(s, e2) {
                        Ok((e3, rhs)) => if 0 <= e3 < s.len() && s[e3] == ')' {
                            Ok(
                                (
                                    e3 + 1,
                                    AstNodeView::Expression {
                                        operation: op,
                                        lhs: Box::new(lhs),
                                        rhs: Box::new(rhs),
                                    },
                                ),
                            )
                        } else {
                            Err(
                                ParseError {
                                    position: e3 as usize,
                                    reason: ParseReason::UnmatchedParenthesis,
                                },
                            )
                        },
                        Err(er) => Err(er),
                    }
                },
                Err(er) => Err(er),
            },
            Err(er) => Err(er),
        }
    }
}

/// One term of an expression, told apart by its first character: `(`
/// opens a nested expression, a letter starts a name, anything else must
/// be a value literal.
pub open spec fn spec_parse_term(s: Seq<char>, pos: int) -> Result<(int, AstNodeView), ParseError>
    decreases s.len() - pos, 1int,
{
    if 0 <= pos < s.len() && s[pos] == '(' {
        spec_parse_expression(s, pos)
    } else if 0 <= pos < s.len() && is_alpha(s[pos]) {
        spec_parse_name(s, pos)
    } else {
        spec_parse_literal(s, pos)
    }
}

/// One statement: a name, the exact text ` = `, a literal or a
/// parenthesized expression, and the terminating `;`.
pub open spec fn spec_parse_statement(s: Seq<char>, pos: int) -> Result<
    (int, AstNodeView),
    ParseError,
> {
    match spec_parse_name(s, pos) {
        Ok((e1, namev)) => if e1 + 2 < s.len() && s[e1] == ' ' && s[e1 + 1] == '=' && s[e1 + 2]
            == ' ' {
            let rhs = if e1 + 3 < s.len() && s[e1 + 3] == '(' {
                spec_parse_expression(s, e1 + 3)
            } else {
                spec_parse_literal(s, e1 + 3)
            };
            match rhs {
                Ok((e2, expr)) => if 0 <= e2 < s.len() && s[e2] == ';' {
                    Ok(
                        (
                            e2 + 1,
                            AstNodeView::Variable { name: Box::new(namev), expr: Box::new(expr) },
                        ),
                    )
                } else {
                    Err(
                        ParseError {
                            position: e2 as usize,
                            reason: ParseReason::MissingTerminator,
                        },
                    )
                },
                Err(er) => Err(er),
            }
        } else {
            Err(ParseError { position: e1 as usize, reason: ParseReason::ExpectedAssignment })
        },
        Err(er) => Err(er),
    }
}

/// As many statements as the line holds, each preceded by optional
/// spaces.  Failure never propagates: the line's parse ends before the
/// statement that does not parse, and what remains is reported unconsumed.
pub open spec fn spec_parse_statements(s: Seq<char>, pos: int) -> (int, Seq<AstNodeView>)
    decreases s.len() - pos,
{
    let a = space_run_end(s, pos);
    if !(pos <= a <= s.len()) {
        (pos, Seq::empty())
    } else {
        match spec_parse_statement(s, a) {
            Ok((e, node)) => if !(pos < e <= s.len()) {
                (pos, Seq::empty())
            } else {
                let (e2, rest) = spec_parse_statements(s, e);
                (e2, seq![node] + rest)
            },
            Err(_) => (pos, Seq::empty()),
        }
    }
}

/// Parses a value literal; see `spec_parse_literal`.
fn p_literal(input: &str, n: usize, pos: usize) -> (r: Result<(usize, AstNode), ParseError>)
    requires
        n == input@.len(),
        pos <= n,
    ensures
        match r {
            Ok((e, node)) => pos < e <= n && expr_wf(node@) && spec_parse_literal(
                input@,
                pos as int,
            ) == Ok::<(int, AstNodeView), ParseError>((e as int, node@)),
            Err(er) => spec_parse_literal(input@, pos as int) == Err::<
                (int, AstNodeView),
                ParseError,
            >(er),
        },
{
    let (e1, rat) = match p_number(input, n, pos) {
        Ok(x) => x,
        Err(er) => return Err(er),
    };
    let (e2, unit) = match p_unit(input, n, e1) {
        Ok(x) => x,
        Err(er) => return Err(er),
    };
    Ok((e2, AstNode::Double { value: Value::Scalar(rat), unit }))
}

/// Parses an operator with its surrounding spaces; see
/// `spec_parse_operator`.
fn p_operator(input: &str, n: usize, pos: usize) -> (r: Result<(usize, BinaryOperation), ParseError>)
    requires
        n == input@.len(),
        pos <= n,
    ensures
        match r {
            Ok((e, op)) => pos < e <= n && spec_parse_operator(input@, pos as int) == Ok::<
                (int, BinaryOperation),
                ParseError,
            >((e as int, op)),
            Err(er) => spec_parse_operator(input@, pos as int) == Err::<
                (int, BinaryOperation),
                ParseError,
            >(er),
        },
{
    let a = skip_spaces(input, n, pos);
    if a >= n {
        return Err(ParseError { position: a, reason: ParseReason::UnsupportedOperator });
    }
    let c = input.get_char(a);
    let op = if c == '+' {
        BinaryOperation::Add
    } else if c == '-' {
        BinaryOperation::Subtract
    } else if c == '*' {
        BinaryOperation::Multiply
    } else if c == '/' {
        BinaryOperation::Divide
    } else {
        return Err(ParseError { position: a, reason: ParseReason::UnsupportedOperator });
    };
    let e = skip_spaces(input, n, a + 1);
    Ok((e, op))
}

/// Parses a parenthesized expression; see `spec_parse_expression`.
fn p_expression(input: &str, n: usize, pos: usize) -> (r: Result<(usize, AstNode), ParseError>)
    requires
        n == input@.len(),
        pos <= n,
    ensures
        match r {
            Ok((e, node)) => pos < e <= n && expr_wf(node@) && spec_parse_expression(
                input@,
                pos as int,
            ) == Ok::<(int, AstNodeView), ParseError>((e as int, node@)),
            Err(er) => spec_parse_expression(input@, pos as int) == Err::<
                (int, AstNodeView),
                ParseError,
            >(er),
        },
    decreases n - pos, 0int,
{
    if !(pos < n && input.get_char(pos) == '(') {
        return Err(ParseError { position: pos, reason: ParseReason::ExpectedTerm });
    }
    let (e1, lhs) = match p_term(input, n, pos + 1) {
        Ok(x) => x,
        Err(er) => return Err(er),
    };
    let (e2, op) = match p_operator(input, n, e1) {
        Ok(x) => x,
        Err(er) => return Err(er),
    };
    let (e3, rhs) = match p_term(input, n, e2) {
        Ok(x) => x,
        Err(er) => return Err(er),
    };
    if e3 < n && input.get_char(e3) == ')' {
        Ok(
            (
                e3 + 1,
                AstNode::Expression { operation: op, lhs: Box::new(lhs), rhs: Box::new(rhs) },
            ),
        )
    } else {
        Err(ParseError { position: e3, reason: ParseReason::UnmatchedParenthesis })
    }
}

/// Parses one term; see `spec_parse_term`.
fn p_term(input: &str, n: usize, pos: usize) -> (r: Result<(usize, AstNode), ParseError>)
    requires
        n == input@.len(),
        pos <= n,
    ensures
        match r {
            Ok((e, node)) => pos < e <= n && expr_wf(node@) && spec_parse_term(
                input@,
                pos as int,
            ) == Ok::<(int, AstNodeView), ParseError>((e as int, node@)),
            Err(er) => spec_parse_term(input@, pos as int) == Err::<
                (int, AstNodeView),
                ParseError,
            >(er),
        },
    decreases n - pos, 1int,
{
    if pos < n && input.get_char(pos) == '(' {
        p_expression(input, n, pos)
    } else if pos < n && {
        let c = input.get_char(pos);
        let u = c as u32;
        (65 <= u && u <= 90) || (97 <= u && u <= 122)
    } {
        p_name(input, n, pos)
    } else {
        p_literal(input, n, pos)
    }
}

/// Parses one statement; see `spec_parse_statement`.
fn p_statement(input: &str, n: usize, pos: usize) -> (r: Result<(usize, AstNode), ParseError>)
    requires
        n == input@.len(),
        pos <= n,
    ensures
        match r {
            Ok((e, node)) => pos < e <= n && stmt_wf(node@) && spec_parse_statement(
                input@,
                pos as int,
            ) == Ok::<(int, AstNodeView), ParseError>((e as int, node@)),
            Err(er) => spec_parse_statement(input@, pos as int) == Err::<
                (int, AstNodeView),
                ParseError,
            >(er),
        },
{
    let (e1, name) = match p_name(input, n, pos) {
        Ok(x) => x,
        Err(er) => return Err(er),
    };
    if !(n - e1 > 2 && input.get_char(e1) == ' ' && input.get_char(e1 + 1) == '='
        && input.get_char(e1 + 2) == ' ') {
        return Err(ParseError { position: e1, reason: ParseReason::ExpectedAssignment });
    }
    let rhs = if e1 + 3 < n && input.get_char(e1 + 3) == '(' {
        p_expression(input, n, e1 + 3)
    } else {
        p_literal(input, n, e1 + 3)
    };
    let (e2, expr) = match rhs {
        Ok(x) => x,
        Err(er) => return Err(er),
    };
    if e2 < n && input.get_char(e2) == ';' {
        Ok((e2 + 1, AstNode::Variable { name: Box::new(name), expr: Box::new(expr) }))
    } else {
        Err(ParseError { position: e2, reason: ParseReason::MissingTerminator })
    }
}

/// Parses as many statements as the input holds from `pos` on; see
/// `spec_parse_statements`.
fn p_statements(input: &str, n: usize, pos: usize) -> (r: (usize, Vec<AstNode>))
    requires
        n == input@.len(),
        pos <= n,
    ensures
        pos <= r.0 <= n,
        r.0 as int == spec_parse_statements(input@, pos as int).0,
        asts_view(r.1@) == spec_parse_statements(input@, pos as int).1,
        stmts_wf(asts_view(r.1@)),
{
    let mut nodes: Vec<AstNode> = Vec::new();
    let mut cur = pos;
    loop
        invariant
            pos <= cur <= n,
            n == input@.len(),
            spec_parse_statements(input@, pos as int).0 == spec_parse_statements(
                input@,
                cur as int,
            ).0,
            spec_parse_statements(input@, pos as int).1 =~= asts_view(nodes@)
                + spec_parse_statements(input@, cur as int).1,
            stmts_wf(asts_view(nodes@)),
        decreases n - cur,
    {
        let a = skip_spaces(input, n, cur);
        match p_statement(input, n, a) {
            Ok((e, node)) => {
                let ghost oldnodes = nodes@;
                nodes.push(node);
                proof {
                    assert(asts_view(nodes@) =~= asts_view(oldnodes) + seq![node@]);
                    assert forall|j: int|
                        0 <= j < asts_view(nodes@).len() implies stmt_wf(
                        #[trigger] asts_view(nodes@)[j],
                    ) by {
                        if j < asts_view(oldnodes).len() {
                            assert(asts_view(nodes@)[j] == asts_view(oldnodes)[j]);
                        } else {
                            assert(asts_view(nodes@)[j] == node@);
                        }
                    }
                }
                cur = e;
            },
            _ => {
                proof {
                    assert(spec_parse_statements(input@, cur as int) == (
                        cur as int,
                        Seq::<AstNodeView>::empty(),
                    ));
                    assert(asts_view(nodes@) + Seq::<AstNodeView>::empty() =~= asts_view(nodes@));
                }
                return (cur, nodes);
            },
        }
    }
}

/// The program: lines split on `\n`, each stripped of one trailing `\r`;
/// empty lines are skipped, and every other line must parse to statements
/// that consume it whole.
pub open spec fn spec_parse_program(s: Seq<char>, pos: int) -> Result<
    Seq<Seq<AstNodeView>>,
    ParseError,
>
    decreases s.len() - pos,
{
    if !(0 <= pos < s.len()) {
        Ok(Seq::empty())
    } else {
        let e = find_char_from(s, pos, '\n');
        if !(pos <= e <= s.len()) {
            arbitrary()
        } else {
            let t = if e > pos && s[e - 1] == '\r' {
                e - 1
            } else {
                e
            };
            let line = s.subrange(pos, t);
            let next = if e < s.len() {
                e + 1
            } else {
                s.len() as int
            };
            let rest = if line.len() == 0 {
                spec_parse_program(s, next)
            } else {
                let (consumed, nodes) = spec_parse_statements(line, 0);
                if consumed < line.len() {
                    Err(
                        ParseError {
                            position: (pos + consumed) as usize,
                            reason: ParseReason::TrailingInput,
                        },
                    )
                } else {
                    match spec_parse_program(s, next) {
                        Ok(r) => Ok(seq![nodes] + r),
                        Err(er) => Err(er),
                    }
                }
            };
            rest
        }
    }
}

/// Parses a whole numeric literal with its unit, from the input's start.
pub fn parse_number(input: &str) -> (r: Result<(usize, AstNode), ParseError>)
    ensures
        match r {
            Ok((e, node)) => e <= input@.len() && spec_parse_literal(input@, 0) == Ok::<
                (int, AstNodeView),
                ParseError,
            >((e as int, node@)),
            Err(er) => spec_parse_literal(input@, 0) == Err::<(int, AstNodeView), ParseError>(er),
        },
{
    let n = input.unicode_len();
    p_literal(input, n, 0)
}

/// Parses a variable name, from the input's start.
pub fn parse_name(input: &str) -> (r: Result<(usize, AstNode), ParseError>)
    ensures
        match r {
            Ok((e, node)) => e <= input@.len() && spec_parse_name(input@, 0) == Ok::<
                (int, AstNodeView),
                ParseError,
            >((e as int, node@)),
            Err(er) => spec_parse_name(input@, 0) == Err::<(int, AstNodeView), ParseError>(er),
        },
{
    let n = input.unicode_len();
    p_name(input, n, 0)
}

/// Parses a parenthesized expression, from the input's start.
pub fn parse_expression(input: &str) -> (r: Result<(usize, AstNode), ParseError>)
    ensures
        match r {
            Ok((e, node)) => e <= input@.len() && spec_parse_expression(input@, 0) == Ok::<
                (int, AstNodeView),
                ParseError,
            >((e as int, node@)),
            Err(er) => spec_parse_expression(input@, 0) == Err::<
                (int, AstNodeView),
                ParseError,
            >(er),
        },
{
    let n = input.unicode_len();
    p_expression(input, n, 0)
}

/// Parses one statement, from the input's start.
pub fn parse_variable(input: &str) -> (r: Result<(usize, AstNode), ParseError>)
    ensures
        match r {
            Ok((e, node)) => e <= input@.len() && spec_parse_statement(input@, 0) == Ok::<
                (int, AstNodeView),
                ParseError,
            >((e as int, node@)),
            Err(er) => spec_parse_statement(input@, 0) == Err::<
                (int, AstNodeView),
                ParseError,
            >(er),
        },
{
    let n = input.unicode_len();
    p_statement(input, n, 0)
}

/// Parses as many statements as one line holds, from the input's start;
/// what the statements do not consume is reported as the first component.
pub fn parse_line(input: &str) -> (r: (usize, Vec<AstNode>))
    ensures
        r.0 <= input@.len(),
        r.0 as int == spec_parse_statements(input@, 0).0,
        asts_view(r.1@) == spec_parse_statements(input@, 0).1,
{
    let n = input.unicode_len();
    p_statements(input, n, 0)
}

/// Parses a whole program; see `spec_parse_program`.
#[verifier::rlimit(50)]
pub fn parse_program(input: &str) -> (r: Result<Vec<Vec<AstNode>>, ParseError>)
    ensures
        match r {
            Ok(lines) => lines_wf(crate::interpreter::lines_view(lines@)) && spec_parse_program(
                input@,
                0,
            ) == Ok::<Seq<Seq<AstNodeView>>, ParseError>(crate::interpreter::lines_view(lines@)),
            Err(er) => spec_parse_program(input@, 0) == Err::<
                Seq<Seq<AstNodeView>>,
                ParseError,
            >(er),
        },
{
    let n = input.unicode_len();
    let mut lines: Vec<Vec<AstNode>> = Vec::new();
    let mut cur: usize = 0;
    loop
        invariant
            cur <= n,
            n == input@.len(),
            spec_parse_program(input@, 0) == (match spec_parse_program(input@, cur as int) {
                Ok(rest) => Ok::<Seq<Seq<AstNodeView>>, ParseError>(
                    crate::interpreter::lines_view(lines@) + rest,
                ),
                Err(er) => Err::<Seq<Seq<AstNodeView>>, ParseError>(er),
            }),
            lines_wf(crate::interpreter::lines_view(lines@)),
        decreases n - cur,
    {
        if cur >= n {
            proof {
                assert(crate::interpreter::lines_view(lines@) + Seq::<
                    Seq<AstNodeView>,
                >::empty() =~= crate::interpreter::lines_view(lines@));
            }
            return Ok(lines);
        }
        let e = scan_to_char(input, n, cur, '\n');
        let t = if e > cur && input.get_char(e - 1) == '\r' {
            e - 1
        } else {
            e
        };
        let line = input.substring_char(cur, t);
        let ghost linev = input@.subrange(cur as int, t as int);
        let next = if e < n {
            e + 1
        } else {
            n
        };
        if t == cur {
            cur = next;
        } else {
            let m = t - cur;
            let (consumed, nodes) = p_statements(line, m, 0);
            if consumed < m {
                let er = ParseError {
                    position: cur + consumed,
                    reason: ParseReason::TrailingInput,
                };
                return Err(er);
            }
            let ghost oldlines = lines@;
            lines.push(nodes);
            proof {
                assert(crate::interpreter::lines_view(lines@) =~= crate::interpreter::lines_view(
                    oldlines,
                ) + seq![asts_view(nodes@)]);
                assert forall|j: int|
                    0 <= j < crate::interpreter::lines_view(lines@).len() implies stmts_wf(
                    #[trigger] crate::interpreter::lines_view(lines@)[j],
                ) by {
                    if j < crate::interpreter::lines_view(oldlines).len() {
                        assert(crate::interpreter::lines_view(lines@)[j]
                            == crate::interpreter::lines_view(oldlines)[j]);
                    } else {
                        assert(crate::interpreter::lines_view(lines@)[j] == asts_view(nodes@));
                    }
                }
                assert forall|x: Seq<Seq<AstNodeView>>|
                    true implies crate::interpreter::lines_view(oldlines) + (seq![
                    asts_view(nodes@),
                ] + x) =~= crate::interpreter::lines_view(lines@) + x by {}
            }
            cur = next;
        }
    }
}

} // verus!
