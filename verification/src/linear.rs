//! The linear-form recognizer.
//!
//! A narrow textual matcher for one surface syntax — `a * t + b` — that
//! extracts the two coefficient tokens directly, without building a parse
//! tree. Syntactic mismatch is a normal outcome, reported as `None`, never as
//! an error.
//!
//! The accepted shape is: optional whitespace, a signed decimal coefficient
//! (sign and digits as one token), optional whitespace, `*`, optional
//! whitespace, `t`, then an optional signed decimal offset term (its sign may
//! be followed by spaces), and optional trailing whitespace. A decimal token
//! must hold at least one digit and at most one `.` — otherwise (`.`,
//! `1.2.3`) the text is rejected rather than a malformed number handed on.
//!
//! The recognizer returns the two tokens as text: the coefficient of `t`
//! exactly as written, and the offset as its sign immediately followed by its
//! digits (`+0` when the offset term is absent). Each token is a well-formed
//! decimal literal, so turning it into a number cannot fail; that conversion
//! is the caller's, since this crate performs no floating-point arithmetic.

use vstd::prelude::*;

verus! {

/// ASCII whitespace, as tolerated around the tokens of the linear form.
pub open spec fn is_space(c: char) -> bool {
    c == ' ' || c == '\t' || c == '\n' || c == '\r' || c == '\x0b' || c == '\x0c'
}

/// A decimal digit.
pub open spec fn is_digit(c: char) -> bool {
    48 <= c as u32 && c as u32 <= 57
}

/// A character that may appear in the digit run of a decimal token.
pub open spec fn is_numc(c: char) -> bool {
    is_digit(c) || c == '.'
}

/// A sign character.
pub open spec fn is_sign(c: char) -> bool {
    c == '+' || c == '-'
}

/// The first position at or after `i` that does not hold whitespace.
pub open spec fn skip_ws(s: Seq<char>, i: int) -> int
    decreases s.len() - i when 0 <= i <= s.len()
{
    if i >= s.len() {
        s.len() as int
    } else if is_space(s[i]) {
        skip_ws(s, i + 1)
    } else {
        i
    }
}

/// The first position at or after `i` that does not hold a space (`' '`
/// only; the narrower class permitted between an offset's sign and digits).
pub open spec fn skip_spaces(s: Seq<char>, i: int) -> int
    decreases s.len() - i when 0 <= i <= s.len()
{
    if i >= s.len() {
        s.len() as int
    } else if s[i] == ' ' {
        skip_spaces(s, i + 1)
    } else {
        i
    }
}

/// The first position at or after `i` that does not hold a digit or `.`.
pub open spec fn skip_num(s: Seq<char>, i: int) -> int
    decreases s.len() - i when 0 <= i <= s.len()
{
    if i >= s.len() {
        s.len() as int
    } else if is_numc(s[i]) {
        skip_num(s, i + 1)
    } else {
        i
    }
}

/// Whether `s` holds a decimal digit.
pub open spec fn has_digit(s: Seq<char>) -> bool
    decreases s.len(),
{
    if s.len() == 0 {
        false
    } else {
        is_digit(s[0]) || has_digit(s.drop_first())
    }
}

/// How many `.` characters `s` holds.
pub open spec fn dot_count(s: Seq<char>) -> int
    decreases s.len(),
{
    if s.len() == 0 {
        0
    } else {
        (if s[0] == '.' {
            1int
        } else {
            0int
        }) + dot_count(s.drop_first())
    }
}

/// Whether the run `s[from..to]` is the digit part of a well-formed decimal
/// token: at least one digit, at most one dot.
pub open spec fn valid_run(s: Seq<char>, from: int, to: int) -> bool {
    has_digit(s.subrange(from, to)) && dot_count(s.subrange(from, to)) <= 1
}

/// The recognized linear form of `s`, if any: the two coefficient tokens of
/// `a * t + b` — the exact meaning of [`parse_linear`].
///
/// The first token is the signed coefficient of `t` as written; the second
/// is the offset's sign immediately followed by its digits (spaces between
/// them dropped), or `+0` when the offset term is absent.
pub open spec fn spec_linear(s: Seq<char>) -> Option<(Seq<char>, Seq<char>)> {
    let i0 = skip_ws(s, 0);
    let i1 = if i0 < s.len() && is_sign(s[i0]) {
        i0 + 1
    } else {
        i0
    };
    let i2 = skip_num(s, i1);
    if i2 == i1 {
        None
    } else {
        let tok_a = s.subrange(i0, i2);
        let i3 = skip_ws(s, i2);
        if !(i3 < s.len() && s[i3] == '*') {
            None
        } else {
            let i4 = skip_ws(s, i3 + 1);
            if !(i4 < s.len() && s[i4] == 't') {
                None
            } else {
                let i5 = skip_ws(s, i4 + 1);
                if i5 == s.len() {
                    if valid_run(s, i1, i2) {
                        Some((tok_a, seq!['+', '0']))
                    } else {
                        None
                    }
                } else if is_sign(s[i5]) {
                    let i6 = skip_spaces(s, i5 + 1);
                    let i7 = skip_num(s, i6);
                    if i7 == i6 {
                        None
                    } else if skip_ws(s, i7) != s.len() {
                        None
                    } else {
                        if valid_run(s, i1, i2) && valid_run(s, i6, i7) {
                            Some((tok_a, seq![s[i5]] + s.subrange(i6, i7)))
                        } else {
                            None
                        }
                    }
                } else {
                    None
                }
            }
        }
    }
}

/// Law: recognition has no hidden state — its outcome is a pure function of
/// the text alone, so any two outcomes that satisfy the recognizer's
/// contract on the same text are identical, however often it is re-run.
pub proof fn lemma_recognize_idempotent(
    s: Seq<char>,
    r1: Option<(Seq<char>, Seq<char>)>,
    r2: Option<(Seq<char>, Seq<char>)>,
)
    requires
        r1 == spec_linear(s),
        r2 == spec_linear(s),
    ensures
        r1 == r2,
{
}

/// Advance `from` past whitespace.
fn scan_ws(s: &str, from: usize, n: usize) -> (j: usize)
    requires
        n == s@.len(),
        from <= n,
    ensures
        from <= j <= n,
        j as int == skip_ws(s@, from as int),
    decreases n - from,
{
    if from < n {
        let c = s.get_char(from);
        if c == ' ' || c == '\t' || c == '\n' || c == '\r' || c == '\x0b' || c == '\x0c' {
            return scan_ws(s, from + 1, n);
        }
    }
    from
}

/// Advance `from` past spaces (`' '` only).
fn scan_spaces(s: &str, from: usize, n: usize) -> (j: usize)
    requires
        n == s@.len(),
        from <= n,
    ensures
        from <= j <= n,
        j as int == skip_spaces(s@, from as int),
    decreases n - from,
{
    if from < n {
        let c = s.get_char(from);
        if c == ' ' {
            return scan_spaces(s, from + 1, n);
        }
    }
    from
}

/// Advance `from` past digits and dots.
fn scan_num(s: &str, from: usize, n: usize) -> (j: usize)
    requires
        n == s@.len(),
        from <= n,
    ensures
        from <= j <= n,
        j as int == skip_num(s@, from as int),
    decreases n - from,
{
    if from < n {
        let c = s.get_char(from);
        let u = c as u32;
        if (48 <= u && u <= 57) || c == '.' {
            return scan_num(s, from + 1, n);
        }
    }
    from
}

/// Whether the run `s[from..to]` is the digit part of a well-formed decimal
/// token, decided as [`valid_run`] says.
fn check_run(s: &str, from: usize, to: usize) -> (ok: bool)
    requires
        to <= s@.len(),
        from <= to,
    ensures
        ok == valid_run(s@, from as int, to as int),
    decreases to - from,
{
    let r = run_stats(s, from, to);
    r.0 && r.1 <= 1
}

/// Whether the run `s[from..to]` holds a digit, and how many dots it holds.
fn run_stats(s: &str, from: usize, to: usize) -> (r: (bool, usize))
    requires
        to <= s@.len(),
        from <= to,
    ensures
        r.0 == has_digit(s@.subrange(from as int, to as int)),
        r.1 as int == dot_count(s@.subrange(from as int, to as int)),
        r.1 <= to - from,
    decreases to - from,
{
    if from == to {
        proof {
            assert(s@.subrange(from as int, to as int) =~= Seq::<char>::empty());
        }
        (false, 0)
    } else {
        let c = s.get_char(from);
        let rest = run_stats(s, from + 1, to);
        proof {
            assert(s@.subrange(from as int, to as int).drop_first() =~= s@.subrange(
                from as int + 1,
                to as int,
            ));
            assert(s@.subrange(from as int, to as int)[0] == s@[from as int]);
        }
        let u = c as u32;
        let hasd = (48 <= u && u <= 57) || rest.0;
        let dots = if c == '.' {
            rest.1 + 1
        } else {
            rest.1
        };
        (hasd, dots)
    }
}

/// Recognize the linear form `a * t + b` and hand back the two coefficient
/// tokens, or `None` when the text is not of that shape.
///
/// The outcome is pinned exactly by [`spec_linear`]: `Some` holds the
/// coefficient token as written and the offset token normalized to sign plus
/// digits (`+0` when absent), and `None` is returned exactly when
/// [`spec_linear`] recognizes nothing.
pub fn parse_linear(expr: &str) -> (r: Option<(String, String)>)
    ensures
        match r {
            Some(t) => spec_linear(expr@) == Some((t.0@, t.1@)),
            None => spec_linear(expr@) is None,
        },
{
    let n = expr.unicode_len();
    let i0 = scan_ws(expr, 0, n);
    let mut i1: usize = i0;
    if i0 < n {
        let c = expr.get_char(i0);
        if c == '+' || c == '-' {
            i1 = i0 + 1;
        }
    }
    let i2 = scan_num(expr, i1, n);
    if i2 == i1 {
        return None;
    }
    let i3 = scan_ws(expr, i2, n);
    if i3 == n {
        return None;
    }
    if expr.get_char(i3) != '*' {
        return None;
    }
    let i4 = scan_ws(expr, i3 + 1, n);
    if i4 == n {
        return None;
    }
    if expr.get_char(i4) != 't' {
        return None;
    }
    let i5 = scan_ws(expr, i4 + 1, n);
    if i5 == n {
        if !check_run(expr, i1, i2) {
            return None;
        }
        let tok_a = String::from_str(expr.substring_char(i0, i2));
        let tok_b = String::from_str("+0");
        proof {
            reveal_strlit("+0");
            assert(tok_b@ =~= seq!['+', '0']);
        }
        return Some((tok_a, tok_b));
    }
    let c5 = expr.get_char(i5);
    if !(c5 == '+' || c5 == '-') {
        return None;
    }
    let i6 = scan_spaces(expr, i5 + 1, n);
    let i7 = scan_num(expr, i6, n);
    if i7 == i6 {
        return None;
    }
    let i8 = scan_ws(expr, i7, n);
    if i8 != n {
        return None;
    }
    if !check_run(expr, i1, i2) {
        return None;
    }
    if !check_run(expr, i6, i7) {
        return None;
    }
    let tok_a = String::from_str(expr.substring_char(i0, i2));
    let mut tok_b = String::from_str(expr.substring_char(i5, i5 + 1));
    tok_b.append(expr.substring_char(i6, i7));
    proof {
        assert(expr@.subrange(i5 as int, i5 as int + 1) =~= seq![expr@[i5 as int]]);
    }
    Some((tok_a, tok_b))
}

} // verus!
