use crate::keywords::classify_word_spec;
use crate::token::SpecToken;
use crate::token::TokenType;
use vstd::prelude::*;

verus! {

// ---------------------------------------------------------------------------
// Byte classes
// ---------------------------------------------------------------------------
/// The separator class: space, tab, newline, form feed. Runs of these are
/// skipped between tokens and produce no token.
pub open spec fn is_ws_byte(b: u8) -> bool {
    b == 32 || b == 9 || b == 10 || b == 12
}

/// An ASCII letter: the first byte of a word.
pub open spec fn is_letter_byte(b: u8) -> bool {
    ('A' as u8 <= b && b <= 'Z' as u8) || ('a' as u8 <= b && b <= 'z' as u8)
}

/// An ASCII decimal digit.
pub open spec fn is_digit_byte(b: u8) -> bool {
    '0' as u8 <= b && b <= '9' as u8
}

/// A byte that may continue a word: a letter or a digit.
pub open spec fn is_word_byte(b: u8) -> bool {
    is_letter_byte(b) || is_digit_byte(b)
}

/// Membership test for the separator class.
#[verifier::when_used_as_spec(is_ws_byte)]
pub fn is_ws(b: u8) -> (r: bool)
    ensures
        r == is_ws_byte(b),
{
    b == 32 || b == 9 || b == 10 || b == 12
}

/// Membership test for the letter class.
#[verifier::when_used_as_spec(is_letter_byte)]
pub fn is_letter(b: u8) -> (r: bool)
    ensures
        r == is_letter_byte(b),
{
    (65 <= b && b <= 90) || (97 <= b && b <= 122)
}

/// Membership test for the digit class.
#[verifier::when_used_as_spec(is_digit_byte)]
pub fn is_digit(b: u8) -> (r: bool)
    ensures
        r == is_digit_byte(b),
{
    48 <= b && b <= 57
}

/// Membership test for the word-continuation class.
#[verifier::when_used_as_spec(is_word_byte)]
pub fn is_word(b: u8) -> (r: bool)
    ensures
        r == is_word_byte(b),
{
    is_letter(b) || is_digit(b)
}

// ---------------------------------------------------------------------------
// Maximal runs
// ---------------------------------------------------------------------------
/// The end of the maximal run of bytes satisfying `p` that starts at `i`.
pub open spec fn run_end(s: Seq<u8>, i: int, p: spec_fn(u8) -> bool) -> int
    decreases s.len() - i,
{
    if 0 <= i < s.len() && p(s[i]) {
        run_end(s, i + 1, p)
    } else {
        i
    }
}

/// A maximal run: every byte in it satisfies `p`, and the byte after it, if
/// any, does not.
pub proof fn lemma_run_end(s: Seq<u8>, i: int, p: spec_fn(u8) -> bool)
    requires
        0 <= i <= s.len(),
    ensures
        i <= run_end(s, i, p) <= s.len(),
        forall|k: int| i <= k < run_end(s, i, p) ==> p(s[k]),
        run_end(s, i, p) < s.len() ==> !p(s[run_end(s, i, p)]),
    decreases s.len() - i,
{
    if i < s.len() && p(s[i]) {
        lemma_run_end(s, i + 1, p);
    }
}

/// The end of the whitespace run at `i`.
pub open spec fn ws_end(s: Seq<u8>, i: int) -> int {
    run_end(s, i, |b: u8| is_ws_byte(b))
}

/// The end of the word at `i`.
pub open spec fn word_end(s: Seq<u8>, i: int) -> int {
    run_end(s, i, |b: u8| is_word_byte(b))
}

/// The end of the digit run at `i`.
pub open spec fn digits_end(s: Seq<u8>, i: int) -> int {
    run_end(s, i, |b: u8| is_digit_byte(b))
}

// ---------------------------------------------------------------------------
// Numeric literals
// ---------------------------------------------------------------------------
/// The end of an exponent part read at `i`, where `s[i]` is expected to be
/// `e`: an optional sign, then at least one digit. `None` when the digits are
/// missing, in which case the number ends before the `e`.
pub open spec fn exp_end(s: Seq<u8>, i: int) -> Option<int> {
    let j = if i + 1 < s.len() && (s[i + 1] == '+' as u8 || s[i + 1] == '-' as u8) {
        i + 2
    } else {
        i + 1
    };
    if j < s.len() && is_digit_byte(s[j]) {
        Some(digits_end(s, j))
    } else {
        None
    }
}

/// The longest numeric literal at `i`, where `s[i]` is a digit: its class and
/// its end. A literal containing a decimal point or an exponent is a float;
/// a bare digit run is an integer.
pub open spec fn number_token(s: Seq<u8>, i: int) -> (TokenType, int) {
    let d = digits_end(s, i);
    if d < s.len() && s[d] == '.' as u8 {
        let f = digits_end(s, d + 1);
        if f < s.len() && s[f] == 'e' as u8 && exp_end(s, f) is Some {
            (TokenType::LiteralFloat, exp_end(s, f)->Some_0)
        } else {
            (TokenType::LiteralFloat, f)
        }
    } else if d < s.len() && s[d] == 'e' as u8 && exp_end(s, d) is Some {
        (TokenType::LiteralFloat, exp_end(s, d)->Some_0)
    } else {
        (TokenType::LiteralInteger, d)
    }
}

/// The end of a float led by a decimal point, where `s[i]` is `.` and
/// `s[i+1]` is a digit: the fraction digits, then an exponent if one is
/// well formed.
pub open spec fn dot_float_end(s: Seq<u8>, i: int) -> int {
    let f = digits_end(s, i + 1);
    if f < s.len() && s[f] == 'e' as u8 && exp_end(s, f) is Some {
        exp_end(s, f)->Some_0
    } else {
        f
    }
}

// ---------------------------------------------------------------------------
// Quoted strings
// ---------------------------------------------------------------------------
/// The longest match of a straight-quoted string body starting at `j`, inside
/// a string opened with quote byte `q`. A backslash escapes the next byte
/// (newline cannot be escaped); a doubled quote stands for the quote itself
/// and the string goes on, provided some later close exists; otherwise the
/// first quote of the pair closes the string. Returns the position after the
/// closing quote of the longest such match, or `None` when none closes.
pub open spec fn quote_scan(s: Seq<u8>, q: u8, j: int) -> Option<int>
    decreases s.len() - j,
{
    if j < 0 || j >= s.len() {
        None
    } else if s[j] == q {
        if j + 1 < s.len() && s[j + 1] == q {
            match quote_scan(s, q, j + 2) {
                Some(e) => Some(e),
                None => Some(j + 1),
            }
        } else {
            Some(j + 1)
        }
    } else if s[j] == '\\' as u8 {
        if j + 1 < s.len() && s[j + 1] != '\n' as u8 {
            quote_scan(s, q, j + 2)
        } else {
            None
        }
    } else {
        quote_scan(s, q, j + 1)
    }
}

/// The position after the first backtick at or after `j`: the backtick form
/// has no escapes, so the first closing backtick ends it.
pub open spec fn backtick_end(s: Seq<u8>, j: int) -> Option<int>
    decreases s.len() - j,
{
    if j < 0 || j >= s.len() {
        None
    } else if s[j] == '`' as u8 {
        Some(j + 1)
    } else {
        backtick_end(s, j + 1)
    }
}

// ---------------------------------------------------------------------------
// The winning rule at a position
// ---------------------------------------------------------------------------
/// The token the scanner emits at position `i` (where `s[i]` is not
/// whitespace): its class and its end, or `None` when no rule matches. The
/// selection is longest match; between rules this encodes the declared
/// priorities: keywords outrank `Ident` on equal text, a float with a point
/// or exponent outranks the integer prefix, and two-byte operators outrank
/// their one-byte prefixes.
#[verifier::opaque]
pub open spec fn next_token(s: Seq<u8>, i: int) -> Option<(TokenType, int)>
    recommends
        0 <= i < s.len(),
        !is_ws_byte(s[i]),
{
    let b = s[i];
    if is_letter_byte(b) {
        Some((classify_word_spec(s.subrange(i, word_end(s, i))), word_end(s, i)))
    } else if is_digit_byte(b) {
        Some(number_token(s, i))
    } else if b == '.' as u8 {
        if i + 1 < s.len() && is_digit_byte(s[i + 1]) {
            Some((TokenType::LiteralFloat, dot_float_end(s, i)))
        } else {
            Some((TokenType::Period, i + 1))
        }
    } else if b == '`' as u8 {
        match backtick_end(s, i + 1) {
            Some(e) => Some((TokenType::QuotedString, e)),
            None => None,
        }
    } else if b == '"' as u8 || b == '\'' as u8 {
        match quote_scan(s, b, i + 1) {
            Some(e) => Some((TokenType::QuotedString, e)),
            None => None,
        }
    } else if b == '=' as u8 {
        if i + 1 < s.len() && s[i + 1] == '=' as u8 {
            Some((TokenType::DoubleEq, i + 2))
        } else {
            Some((TokenType::Eq, i + 1))
        }
    } else if b == '<' as u8 {
        if i + 1 < s.len() && s[i + 1] == '>' as u8 {
            Some((TokenType::NotEq, i + 2))
        } else if i + 1 < s.len() && s[i + 1] == '=' as u8 {
            Some((TokenType::Lte, i + 2))
        } else if i + 1 < s.len() && s[i + 1] == '-' as u8 {
            Some((TokenType::LArrow, i + 2))
        } else {
            Some((TokenType::Lt, i + 1))
        }
    } else if b == '>' as u8 {
        if i + 1 < s.len() && s[i + 1] == '=' as u8 {
            Some((TokenType::Gte, i + 2))
        } else {
            Some((TokenType::Gt, i + 1))
        }
    } else if b == '!' as u8 {
        if i + 1 < s.len() && s[i + 1] == '=' as u8 {
            Some((TokenType::NotEq, i + 2))
        } else {
            None
        }
    } else if b == '-' as u8 {
        if i + 1 < s.len() && s[i + 1] == '>' as u8 {
            Some((TokenType::RArrow, i + 2))
        } else {
            Some((TokenType::DashMinus, i + 1))
        }
    } else if b == '+' as u8 {
        Some((TokenType::Plus, i + 1))
    } else if b == '*' as u8 {
        Some((TokenType::Multiply, i + 1))
    } else if b == '/' as u8 {
        Some((TokenType::Divide, i + 1))
    } else if b == '%' as u8 {
        Some((TokenType::Modulo, i + 1))
    } else if b == '(' as u8 {
        Some((TokenType::LParen, i + 1))
    } else if b == ')' as u8 {
        Some((TokenType::RParen, i + 1))
    } else if b == '[' as u8 {
        Some((TokenType::LBracket, i + 1))
    } else if b == ']' as u8 {
        Some((TokenType::RBracket, i + 1))
    } else if b == '{' as u8 {
        Some((TokenType::LBrace, i + 1))
    } else if b == '}' as u8 {
        Some((TokenType::RBrace, i + 1))
    } else if b == ',' as u8 {
        Some((TokenType::Comma, i + 1))
    } else if b == ':' as u8 {
        Some((TokenType::Colon, i + 1))
    } else if b == ';' as u8 {
        Some((TokenType::SemiColon, i + 1))
    } else {
        None
    }
}

/// Every match the scanner can emit is nonempty and ends inside the source.
pub proof fn lemma_next_token_advances(s: Seq<u8>, i: int)
    requires
        0 <= i < s.len(),
        next_token(s, i) is Some,
    ensures
        i < next_token(s, i)->Some_0.1 <= s.len(),
{
    reveal(next_token);
    let b = s[i];
    if is_letter_byte(b) {
        lemma_run_end(s, i, |x: u8| is_word_byte(x));
    } else if is_digit_byte(b) {
        lemma_number_token_bounds(s, i);
    } else if b == '.' as u8 && i + 1 < s.len() && is_digit_byte(s[i + 1]) {
        lemma_dot_float_bounds(s, i);
    } else if b == '`' as u8 {
        lemma_backtick_end_bounds(s, i + 1);
    } else if b == '"' as u8 || b == '\'' as u8 {
        lemma_quote_scan_bounds(s, b, i + 1);
    }
}

/// Exponent ends lie after the `e` and inside the source.
pub proof fn lemma_exp_end_bounds(s: Seq<u8>, i: int)
    requires
        0 <= i < s.len(),
        exp_end(s, i) is Some,
    ensures
        i + 1 < exp_end(s, i)->Some_0 <= s.len(),
{
    let j = if i + 1 < s.len() && (s[i + 1] == '+' as u8 || s[i + 1] == '-' as u8) {
        i + 2
    } else {
        i + 1
    };
    if j < s.len() && is_digit_byte(s[j]) {
        lemma_run_end(s, j, |x: u8| is_digit_byte(x));
        assert(digits_end(s, j) >= j + 1);
    }
}

/// Numeric matches are nonempty and end inside the source.
pub proof fn lemma_number_token_bounds(s: Seq<u8>, i: int)
    requires
        0 <= i < s.len(),
        is_digit_byte(s[i]),
    ensures
        i < number_token(s, i).1 <= s.len(),
{
    lemma_run_end(s, i, |x: u8| is_digit_byte(x));
    let d = digits_end(s, i);
    assert(d >= i + 1);
    if d < s.len() && s[d] == '.' as u8 {
        lemma_run_end(s, d + 1, |x: u8| is_digit_byte(x));
        let f = digits_end(s, d + 1);
        if f < s.len() && s[f] == 'e' as u8 && exp_end(s, f) is Some {
            lemma_exp_end_bounds(s, f);
        }
    } else if d < s.len() && s[d] == 'e' as u8 && exp_end(s, d) is Some {
        lemma_exp_end_bounds(s, d);
    }
}

/// Dot-led float matches are nonempty and end inside the source.
pub proof fn lemma_dot_float_bounds(s: Seq<u8>, i: int)
    requires
        0 <= i,
        i + 1 < s.len(),
        s[i] == '.' as u8,
        is_digit_byte(s[i + 1]),
    ensures
        i + 1 < dot_float_end(s, i) <= s.len(),
{
    lemma_run_end(s, i + 1, |x: u8| is_digit_byte(x));
    let f = digits_end(s, i + 1);
    assert(f >= i + 2);
    if f < s.len() && s[f] == 'e' as u8 && exp_end(s, f) is Some {
        lemma_exp_end_bounds(s, f);
    }
}

/// A straight-quoted match ends after its starting position and inside the
/// source.
pub proof fn lemma_quote_scan_bounds(s: Seq<u8>, q: u8, j: int)
    requires
        0 <= j,
        quote_scan(s, q, j) is Some,
    ensures
        j < quote_scan(s, q, j)->Some_0 <= s.len(),
    decreases s.len() - j,
{
    if j < s.len() {
        if s[j] == q {
            if j + 1 < s.len() && s[j + 1] == q && quote_scan(s, q, j + 2) is Some {
                lemma_quote_scan_bounds(s, q, j + 2);
            }
        } else if s[j] == '\\' as u8 {
            if j + 1 < s.len() && s[j + 1] != '\n' as u8 {
                lemma_quote_scan_bounds(s, q, j + 2);
            }
        } else {
            lemma_quote_scan_bounds(s, q, j + 1);
        }
    }
}

/// A backtick match ends after its starting position and inside the source.
pub proof fn lemma_backtick_end_bounds(s: Seq<u8>, j: int)
    requires
        0 <= j,
        backtick_end(s, j) is Some,
    ensures
        j < backtick_end(s, j)->Some_0 <= s.len(),
    decreases s.len() - j,
{
    if j < s.len() && s[j] != '`' as u8 {
        lemma_backtick_end_bounds(s, j + 1);
    }
}

// ---------------------------------------------------------------------------
// The whole scan
// ---------------------------------------------------------------------------
/// The scan of the source from position `i` on: whitespace is skipped, then
/// the winning rule is taken and the scan goes on after it. The result is the
/// token sequence, or the position of the first byte at which no rule
/// matches.
pub open spec fn scan_from(s: Seq<u8>, i: int) -> Result<Seq<SpecToken>, int>
    decreases s.len() - i,
        when 0 <= i <= s.len()
        via scan_from_decreases
{
    let j = ws_end(s, i);
    if j >= s.len() {
        Ok(Seq::empty())
    } else {
        match next_token(s, j) {
            Some((ty, e)) => match scan_from(s, e) {
                Ok(rest) => Ok(
                    seq![
                        SpecToken { ty, text: s.subrange(j, e), start: j, end: e },
                    ] + rest,
                ),
                Err(p) => Err(p),
            },
            None => Err(j),
        }
    }
}

#[via_fn]
proof fn scan_from_decreases(s: Seq<u8>, i: int) {
    lemma_run_end(s, i, |b: u8| is_ws_byte(b));
    let j = ws_end(s, i);
    if j < s.len() {
        if next_token(s, j) is Some {
            lemma_next_token_advances(s, j);
        }
    }
}

} // verus!

use crate::keywords::classify_word;
use vstd::slice::slice_subrange;

verus! {

// ---------------------------------------------------------------------------
// The executable scanner
// ---------------------------------------------------------------------------
/// Skip the whitespace run at `i`.
pub fn scan_ws(s: &[u8], i: usize) -> (j: usize)
    requires
        i <= s@.len(),
    ensures
        j == ws_end(s@, i as int),
        i <= j <= s@.len(),
        j < s@.len() ==> !is_ws_byte(s@[j as int]),
        forall|k: int| i <= k < j ==> is_ws_byte(s@[k]),
{
    let mut j = i;
    while j < s.len() && is_ws(s[j])
        invariant
            i <= j <= s@.len(),
            ws_end(s@, i as int) == ws_end(s@, j as int),
            forall|k: int| i <= k < j ==> is_ws_byte(s@[k]),
        decreases s@.len() - j,
    {
        j = j + 1;
    }
    j
}

/// The end of the word whose first letter stands at `i`.
fn scan_word(s: &[u8], i: usize) -> (j: usize)
    requires
        i < s@.len(),
        is_letter_byte(s@[i as int]),
    ensures
        j == word_end(s@, i as int),
        i < j <= s@.len(),
{
    let mut j = i;
    while j < s.len() && is_word(s[j])
        invariant
            i <= j <= s@.len(),
            word_end(s@, i as int) == word_end(s@, j as int),
        decreases s@.len() - j,
    {
        j = j + 1;
    }
    proof {
        lemma_run_end(s@, i as int, |b: u8| is_word_byte(b));
    }
    j
}

/// The end of the digit run at `i`.
fn scan_digits(s: &[u8], i: usize) -> (j: usize)
    requires
        i <= s@.len(),
    ensures
        j == digits_end(s@, i as int),
        i <= j <= s@.len(),
{
    let mut j = i;
    while j < s.len() && is_digit(s[j])
        invariant
            i <= j <= s@.len(),
            digits_end(s@, i as int) == digits_end(s@, j as int),
        decreases s@.len() - j,
    {
        j = j + 1;
    }
    j
}

/// The end of the exponent whose `e` stands at `i`, if it is well formed.
fn scan_exp(s: &[u8], i: usize) -> (r: Option<usize>)
    requires
        i < s@.len(),
    ensures
        r is Some <==> exp_end(s@, i as int) is Some,
        r matches Some(e) ==> exp_end(s@, i as int) == Some(e as int),
{
    let n = s.len();
    let mut j = i + 1;
    if j < n && (s[j] == '+' as u8 || s[j] == '-' as u8) {
        j = j + 1;
    }
    if j < s.len() && is_digit(s[j]) {
        Some(scan_digits(s, j))
    } else {
        None
    }
}

/// Scan the numeric literal whose first digit stands at `i`.
fn scan_number(s: &[u8], i: usize) -> (r: (TokenType, usize))
    requires
        i < s@.len(),
        is_digit_byte(s@[i as int]),
    ensures
        number_token(s@, i as int) == (r.0, r.1 as int),
{
    let d = scan_digits(s, i);
    if d < s.len() && s[d] == '.' as u8 {
        let f = scan_digits(s, d + 1);
        if f < s.len() && s[f] == 'e' as u8 {
            match scan_exp(s, f) {
                Some(e) => (TokenType::LiteralFloat, e),
                None => (TokenType::LiteralFloat, f),
            }
        } else {
            (TokenType::LiteralFloat, f)
        }
    } else if d < s.len() && s[d] == 'e' as u8 {
        match scan_exp(s, d) {
            Some(e) => (TokenType::LiteralFloat, e),
            None => (TokenType::LiteralInteger, d),
        }
    } else {
        (TokenType::LiteralInteger, d)
    }
}

/// Scan the float led by the decimal point at `i` (a digit follows it).
fn scan_dot_float(s: &[u8], i: usize) -> (r: usize)
    requires
        i + 1 < s@.len(),
        s@[i as int] == '.' as u8,
        is_digit_byte(s@[i as int + 1]),
    ensures
        r as int == dot_float_end(s@, i as int),
{
    let n = s.len();
    let f = scan_digits(s, i + 1);
    if f < s.len() && s[f] == 'e' as u8 {
        match scan_exp(s, f) {
            Some(e) => e,
            None => f,
        }
    } else {
        f
    }
}

/// Scan the backtick-quoted string whose opening backtick stands before `i`:
/// find the close, with no escapes.
fn scan_backtick(s: &[u8], i: usize) -> (r: Option<usize>)
    requires
        i <= s@.len(),
    ensures
        r is Some <==> backtick_end(s@, i as int) is Some,
        r matches Some(e) ==> backtick_end(s@, i as int) == Some(e as int),
{
    let mut j = i;
    while j < s.len() && s[j] != '`' as u8
        invariant
            i <= j <= s@.len(),
            backtick_end(s@, i as int) == backtick_end(s@, j as int),
        decreases s@.len() - j,
    {
        j = j + 1;
    }
    if j < s.len() {
        Some(j + 1)
    } else {
        None
    }
}

/// Scan the straight-quoted string whose opening quote `q` stands at `i`,
/// taking the longest match: a doubled quote goes on when a later close
/// exists, so the position of a pending doubled close is kept aside.
fn scan_quote(s: &[u8], q: u8, i: usize) -> (r: Option<usize>)
    requires
        i < s@.len(),
        s@[i as int] == q,
    ensures
        r is Some <==> quote_scan(s@, q, i as int + 1) is Some,
        r matches Some(e) ==> quote_scan(s@, q, i as int + 1) == Some(e as int),
{
    let n = s.len();
    let mut j = i + 1;
    let mut last: Option<usize> = None;
    loop
        invariant
            i + 1 <= j <= s@.len(),
            last matches Some(p) ==> p < s@.len(),
            quote_scan(s@, q, i as int + 1) == (match quote_scan(s@, q, j as int) {
                Some(e) => Some(e),
                None => match last {
                    Some(p) => Some(p as int + 1),
                    None => None::<int>,
                },
            }),
        decreases s@.len() - j,
    {
        if j == s.len() {
            return match last {
                Some(p) => Some(p + 1),
                None => None,
            };
        }
        let b = s[j];
        if b == q {
            if j + 1 < s.len() && s[j + 1] == q {
                last = Some(j);
                j = j + 2;
            } else {
                return Some(j + 1);
            }
        } else if b == '\\' as u8 {
            if j + 1 < s.len() && s[j + 1] != '\n' as u8 {
                j = j + 2;
            } else {
                return match last {
                    Some(p) => Some(p + 1),
                    None => None,
                };
            }
        } else {
            j = j + 1;
        }
    }
}

/// Scan the token at `i`, where `s[i]` is not whitespace: the executable
/// counterpart of `next_token`.
pub fn scan_token(s: &[u8], i: usize) -> (r: Option<(TokenType, usize)>)
    requires
        i < s@.len(),
        !is_ws_byte(s@[i as int]),
    ensures
        r matches Some((ty, e)) ==> next_token(s@, i as int) == Some((ty, e as int)),
        r is None ==> next_token(s@, i as int) is None,
{
    proof {
        reveal(next_token);
    }
    let b = s[i];
    if is_letter(b) {
        let e = scan_word(s, i);
        let w = slice_subrange(s, i, e);
        Some((classify_word(w), e))
    } else if is_digit(b) {
        let (ty, e) = scan_number(s, i);
        Some((ty, e))
    } else if b == '.' as u8 {
        if i + 1 < s.len() && is_digit(s[i + 1]) {
            Some((TokenType::LiteralFloat, scan_dot_float(s, i)))
        } else {
            Some((TokenType::Period, i + 1))
        }
    } else if b == '`' as u8 {
        match scan_backtick(s, i + 1) {
            Some(e) => Some((TokenType::QuotedString, e)),
            None => None,
        }
    } else if b == '"' as u8 || b == '\'' as u8 {
        match scan_quote(s, b, i) {
            Some(e) => Some((TokenType::QuotedString, e)),
            None => None,
        }
    } else if b == '=' as u8 {
        if i + 1 < s.len() && s[i + 1] == '=' as u8 {
            Some((TokenType::DoubleEq, i + 2))
        } else {
            Some((TokenType::Eq, i + 1))
        }
    } else if b == '<' as u8 {
        if i + 1 < s.len() && s[i + 1] == '>' as u8 {
            Some((TokenType::NotEq, i + 2))
        } else if i + 1 < s.len() && s[i + 1] == '=' as u8 {
            Some((TokenType::Lte, i + 2))
        } else if i + 1 < s.len() && s[i + 1] == '-' as u8 {
            Some((TokenType::LArrow, i + 2))
        } else {
            Some((TokenType::Lt, i + 1))
        }
    } else if b == '>' as u8 {
        if i + 1 < s.len() && s[i + 1] == '=' as u8 {
            Some((TokenType::Gte, i + 2))
        } else {
            Some((TokenType::Gt, i + 1))
        }
    } else if b == '!' as u8 {
        if i + 1 < s.len() && s[i + 1] == '=' as u8 {
            Some((TokenType::NotEq, i + 2))
        } else {
            None
        }
    } else if b == '-' as u8 {
        if i + 1 < s.len() && s[i + 1] == '>' as u8 {
            Some((TokenType::RArrow, i + 2))
        } else {
            Some((TokenType::DashMinus, i + 1))
        }
    } else if b == '+' as u8 {
        Some((TokenType::Plus, i + 1))
    } else if b == '*' as u8 {
        Some((TokenType::Multiply, i + 1))
    } else if b == '/' as u8 {
        Some((TokenType::Divide, i + 1))
    } else if b == '%' as u8 {
        Some((TokenType::Modulo, i + 1))
    } else if b == '(' as u8 {
        Some((TokenType::LParen, i + 1))
    } else if b == ')' as u8 {
        Some((TokenType::RParen, i + 1))
    } else if b == '[' as u8 {
        Some((TokenType::LBracket, i + 1))
    } else if b == ']' as u8 {
        Some((TokenType::RBracket, i + 1))
    } else if b == '{' as u8 {
        Some((TokenType::LBrace, i + 1))
    } else if b == '}' as u8 {
        Some((TokenType::RBrace, i + 1))
    } else if b == ',' as u8 {
        Some((TokenType::Comma, i + 1))
    } else if b == ':' as u8 {
        Some((TokenType::Colon, i + 1))
    } else if b == ';' as u8 {
        Some((TokenType::SemiColon, i + 1))
    } else {
        None
    }
}

} // verus!

verus! {

// ---------------------------------------------------------------------------
// What a successful stream looks like
// ---------------------------------------------------------------------------
/// Prefix a scan result with tokens already scanned.
pub open spec fn scan_result_prepend(ts: Seq<SpecToken>, r: Result<Seq<SpecToken>, int>) -> Result<
    Seq<SpecToken>,
    int,
> {
    match r {
        Ok(rest) => Ok(ts + rest),
        Err(p) => Err(p),
    }
}

/// Whether byte `b` of the source is accounted for by the stream: inside some
/// token's span, or whitespace.
#[verifier::opaque]
pub open spec fn covered(s: Seq<u8>, toks: Seq<SpecToken>, b: int) -> bool {
    is_ws_byte(s[b]) || exists|k: int|
        0 <= k < toks.len() && (#[trigger] toks[k]).start <= b < toks[k].end
}

/// What the scanner guarantees of a successful stream, over the source prefix
/// below `upto`: every span is nonempty, within bounds, and strictly after
/// the span before it; every token's text is the source slice at its span;
/// no token is of the internal error class or the whitespace class; and every
/// byte is in some span or is whitespace — the spans plus the
/// whitespace-elided gaps partition the prefix.
pub open spec fn stream_wf(s: Seq<u8>, toks: Seq<SpecToken>, upto: int) -> bool {
    &&& forall|k: int| 0 <= k < toks.len() ==> 0 <= (#[trigger] toks[k]).start < toks[k].end <= upto
    &&& forall|k: int| 0 <= k && k + 1 < toks.len() ==> (#[trigger] toks[k]).end <= toks[k
        + 1].start
    &&& forall|k: int|
        0 <= k < toks.len() ==> (#[trigger] toks[k]).text == s.subrange(
            toks[k].start,
            toks[k].end,
        )
    &&& forall|k: int|
        0 <= k < toks.len() ==> (#[trigger] toks[k]).ty != TokenType::Error && toks[k].ty
            != TokenType::Whitespace
    &&& forall|b: int| 0 <= b < upto ==> covered(s, toks, b)
}

/// A byte accounted for stays accounted for when the stream grows.
pub proof fn lemma_covered_push(s: Seq<u8>, toks: Seq<SpecToken>, t: SpecToken, b: int)
    requires
        covered(s, toks, b),
    ensures
        covered(s, toks.push(t), b),
{
    reveal(covered);
    if !is_ws_byte(s[b]) {
        let k = choose|k: int| 0 <= k < toks.len() && (#[trigger] toks[k]).start <= b < toks[k].end;
        assert(toks.push(t)[k] == toks[k]);
    }
}

/// A scanned token is never of the internal error class or the whitespace
/// class.
pub proof fn lemma_next_token_kind(s: Seq<u8>, i: int)
    requires
        0 <= i < s.len(),
        next_token(s, i) is Some,
    ensures
        next_token(s, i)->Some_0.0 != TokenType::Error,
        next_token(s, i)->Some_0.0 != TokenType::Whitespace,
{
    reveal(next_token);
    if is_letter_byte(s[i]) {
        crate::keywords::lemma_classify_no_internal(s.subrange(i, word_end(s, i)));
    }
}

/// Skipping whitespace does not change the scan: the scan from `i` is the
/// scan from the end of the whitespace run at `i`.
pub proof fn lemma_scan_from_ws_skip(s: Seq<u8>, i: int)
    requires
        0 <= i <= s.len(),
    ensures
        scan_from(s, i) == scan_from(s, ws_end(s, i)),
{
    lemma_run_end(s, i, |b: u8| is_ws_byte(b));
    assert(ws_end(s, ws_end(s, i)) == ws_end(s, i));
}

} // verus!

verus! {

/// Prefixing tokens is associative over a scan result.
pub proof fn lemma_prepend_assoc(a: Seq<SpecToken>, b: Seq<SpecToken>, r: Result<
    Seq<SpecToken>,
    int,
>)
    ensures
        scan_result_prepend(a, scan_result_prepend(b, r)) == scan_result_prepend(a + b, r),
{
    match r {
        Ok(rest) => {
            assert(a + (b + rest) =~= (a + b) + rest);
        },
        Err(_) => {},
    }
}

/// One step of the scan: at a whitespace-normalized position the scan takes
/// exactly the winning token and goes on after the whitespace that follows
/// it.
pub proof fn lemma_scan_step(s: Seq<u8>, pos: int, ty: TokenType, e: int)
    requires
        0 <= pos < s.len(),
        ws_end(s, pos) == pos,
        next_token(s, pos) == Some((ty, e)),
    ensures
        pos < e <= ws_end(s, e) <= s.len(),
        scan_from(s, pos) == scan_result_prepend(
            seq![SpecToken { ty, text: s.subrange(pos, e), start: pos, end: e }],
            scan_from(s, ws_end(s, e)),
        ),
{
    lemma_next_token_advances(s, pos);
    lemma_run_end(s, e, |b: u8| is_ws_byte(b));
    lemma_scan_from_ws_skip(s, e);
    let tm = SpecToken { ty, text: s.subrange(pos, e), start: pos, end: e };
    match scan_from(s, e) {
        Ok(rest) => {
            assert(scan_from(s, pos) == Ok::<Seq<SpecToken>, int>(seq![tm] + rest));
        },
        Err(_) => {},
    }
}

/// A byte below the new bound is accounted for once the next token is
/// appended: old bytes as before, the whitespace on either side of the new
/// token as whitespace, and the token's own bytes by its span.
proof fn lemma_covered_after_push(
    s: Seq<u8>,
    toks: Seq<SpecToken>,
    t: SpecToken,
    upto: int,
    upto2: int,
    b: int,
)
    requires
        0 <= b < upto2,
        upto <= t.start < t.end <= upto2,
        b < upto ==> covered(s, toks, b),
        forall|x: int| upto <= x < t.start ==> is_ws_byte(s[x]),
        forall|x: int| t.end <= x < upto2 ==> is_ws_byte(s[x]),
    ensures
        covered(s, toks.push(t), b),
{
    reveal(covered);
    if b < upto {
        lemma_covered_push(s, toks, t, b);
    } else if t.start <= b < t.end {
        let k = toks.len() as int;
        assert(toks.push(t)[k] == t);
        assert(0 <= k < toks.push(t).len() && toks.push(t)[k].start <= b < toks.push(t)[k].end);
    }
}

/// Appending the next token keeps every byte below the new bound accounted
/// for, provided only whitespace stands between the old bound and the token,
/// and between the token and the new bound.
pub proof fn lemma_stream_covered_push(
    s: Seq<u8>,
    toks: Seq<SpecToken>,
    t: SpecToken,
    upto: int,
    upto2: int,
)
    requires
        0 <= upto,
        stream_wf(s, toks, upto),
        upto <= t.start < t.end <= upto2,
        forall|b: int| upto <= b < t.start ==> is_ws_byte(s[b]),
        forall|b: int| t.end <= b < upto2 ==> is_ws_byte(s[b]),
    ensures
        forall|b: int| 0 <= b < upto2 ==> covered(s, toks.push(t), b),
{
    assert forall|b: int| 0 <= b < upto2 implies covered(s, toks.push(t), b) by {
        lemma_covered_after_push(s, toks, t, upto, upto2, b);
    }
}

} // verus!

verus! {

/// Monotonicity: in a well-formed stream the token spans are strictly
/// increasing by start — each span ends no later than the next one begins,
/// and no span is empty.
pub proof fn lemma_monotone_spans(s: Seq<u8>, toks: Seq<SpecToken>, upto: int, k: int)
    requires
        stream_wf(s, toks, upto),
        0 <= k,
        k + 1 < toks.len(),
    ensures
        toks[k].start < toks[k + 1].start,
        toks[k].end <= toks[k + 1].start,
{
}

/// Coverage: in a well-formed stream the token spans and the
/// whitespace-elided gaps partition the scanned source — every byte below
/// the bound lies in some token's span or is whitespace, and the spans are
/// disjoint by their ordering.
pub proof fn lemma_coverage(s: Seq<u8>, toks: Seq<SpecToken>, upto: int, b: int)
    requires
        stream_wf(s, toks, upto),
        0 <= b < upto,
    ensures
        is_ws_byte(s[b]) || exists|k: int|
            0 <= k < toks.len() && (#[trigger] toks[k]).start <= b < toks[k].end,
{
    assert(covered(s, toks, b));
    reveal(covered);
}

} // verus!
