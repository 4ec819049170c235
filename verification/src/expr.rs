//! Normalization and evaluation of human-friendly size expressions:
//! `"4K"` means `4 * 1024`, `"0x10"` is hexadecimal, the empty string
//! means zero, and anything else is handed to the `evalexpr` crate as
//! an arithmetic expression.

use crate::errors::MemoryError;
use crate::render::push_char;
use vstd::prelude::*;
use vstd::string::StrSliceExecFns;
use vstd::string::StringExecFns;

verus! {

/// Whether `c` is an ASCII decimal digit.
pub open spec fn spec_is_digit(c: char) -> bool {
    48 <= c as u32 <= 57
}

/// The kilobyte rewriting of `rest`, with `pending` the run of digits
/// read so far: every maximal digit run immediately followed by `K`
/// becomes `(digits * 1024)`; all other characters are kept verbatim.
pub open spec fn spec_kb_rewrite(rest: Seq<char>, pending: Seq<char>) -> Seq<char>
    decreases rest.len(),
{
    if rest.len() == 0 {
        pending
    } else if spec_is_digit(rest[0]) {
        spec_kb_rewrite(rest.drop_first(), pending.push(rest[0]))
    } else if rest[0] == 'K' && pending.len() > 0 {
        "("@ + pending + " * 1024)"@ + spec_kb_rewrite(rest.drop_first(), Seq::empty())
    } else {
        pending + seq![rest[0]] + spec_kb_rewrite(rest.drop_first(), Seq::empty())
    }
}

/// The kilobyte rewriting of a whole string.
pub open spec fn spec_apply_kilobyte(s: Seq<char>) -> Seq<char> {
    spec_kb_rewrite(s, Seq::empty())
}

/// What the expression evaluator returns for a given expression
/// string: `Some` with the integer value, or `None` when parsing or
/// evaluation fails.  With builtin functions disabled the evaluation
/// uses only checked integer arithmetic, so the result depends on the
/// string alone.
pub uninterp spec fn eval_int_of(s: Seq<char>) -> Option<i64>;

/// The value of a size expression: zero for the empty string,
/// otherwise the evaluation of its kilobyte rewriting.
pub open spec fn spec_expr_value(s: Seq<char>) -> Option<i64> {
    if s.len() == 0 {
        Some(0i64)
    } else {
        eval_int_of(spec_apply_kilobyte(s))
    }
}

/// Relies on `evalexpr::eval_int_with_context_mut`: evaluates an
/// expression string to an integer over an empty context with builtin
/// functions deliberately disabled (the evaluator's builtins include
/// unchecked shifts and platform-dependent float functions), so that
/// every value-producing path is checked integer arithmetic and the
/// integer result depends on the string alone.  Returns normally for
/// expressions of reasonable nesting (evaluation recurses in the
/// operator tree).  A failure is reported as the message of that
/// call's evaluator error (`EvalexprError`'s `Display`
/// implementation); the message text is not named, as float
/// formatting inside it can vary across platforms.
#[verifier::external_body]
fn eval_int_expr(s: &str) -> (r: Result<i64, String>)
    ensures
        r matches Ok(v) ==> eval_int_of(s@) == Some(v),
        r is Err ==> eval_int_of(s@) is None,
{
    let mut context = evalexpr::HashMapContext::<evalexpr::DefaultNumericTypes>::new();
    if evalexpr::Context::set_builtin_functions_disabled(&mut context, true).is_err() {
        return Err("builtin functions could not be disabled".to_string());
    }
    match evalexpr::eval_int_with_context_mut(s, &mut context) {
        Ok(v) => Ok(v),
        Err(e) => Err(e.to_string()),
    }
}

/// Rewrites every maximal digit run immediately followed by `K` as
/// `(digits * 1024)`, leaving all other characters verbatim, so that
/// kilobyte shorthand becomes ordinary arithmetic.
pub fn apply_kilobyte(s: &str) -> (r: String)
    ensures
        r@ == spec_apply_kilobyte(s@),
{
    let n = s.unicode_len();
    let mut out = String::new();
    let mut pending = String::new();
    let mut i: usize = 0;
    proof {
        assert(s@.subrange(0, n as int) =~= s@);
    }
    while i < n
        invariant
            n == s@.len(),
            i <= n,
            spec_apply_kilobyte(s@) == out@ + spec_kb_rewrite(
                s@.subrange(i as int, n as int),
                pending@,
            ),
        decreases n - i,
    {
        let ghost prev_rest = s@.subrange(i as int, n as int);
        let ghost prev_pending = pending@;
        let c = s.get_char(i);
        let cv = c as u32;
        if cv >= 48 && cv <= 57 {
            push_char(&mut pending, c);
        } else if c == 'K' && !pending.as_str().is_empty() {
            out.append("(");
            out.append(pending.as_str());
            out.append(" * 1024)");
            pending = String::new();
        } else {
            out.append(pending.as_str());
            push_char(&mut out, c);
            pending = String::new();
        }
        i = i + 1;
        proof {
            assert(prev_rest[0] == s@[i - 1]);
            assert(prev_rest.drop_first() =~= s@.subrange(i as int, n as int));
            if spec_is_digit(prev_rest[0]) {
                assert(pending@ =~= prev_pending.push(prev_rest[0]));
            }
            assert(out@ + spec_kb_rewrite(s@.subrange(i as int, n as int), pending@)
                =~= spec_apply_kilobyte(s@));
        }
    }
    proof {
        assert(s@.subrange(n as int, n as int) =~= Seq::<char>::empty());
    }
    out.append(pending.as_str());
    out
}

/// The value of `c` as a digit under `radix`: decimal digits and, for
/// hexadecimal, the letters in both cases; `None` for anything else.
pub open spec fn spec_digit_val(c: char, radix: u64) -> Option<u64> {
    let v = c as u32;
    let d: Option<u64> = if 48 <= v && v <= 57 {
        Some((v - 48) as u64)
    } else if 97 <= v && v <= 102 {
        Some((v - 87) as u64)
    } else if 65 <= v && v <= 70 {
        Some((v - 55) as u64)
    } else {
        None
    };
    match d {
        Some(x) => if x < radix {
            Some(x)
        } else {
            None
        },
        None => None,
    }
}

/// The unbounded value of a digit string under `radix`: `None` when
/// the string is empty or holds a character that is no digit.
pub open spec fn spec_radix_val(s: Seq<char>, radix: u64) -> Option<int>
    decreases s.len(),
{
    if s.len() == 0 {
        None
    } else if s.len() == 1 {
        match spec_digit_val(s[0], radix) {
            Some(d) => Some(d as int),
            None => None,
        }
    } else {
        match (spec_radix_val(s.drop_last(), radix), spec_digit_val(s.last(), radix)) {
            (Some(v), Some(d)) => Some(v * radix + d),
            _ => None,
        }
    }
}

/// The value of a digit string under `radix` when it fits in 64
/// bits, `None` otherwise.
pub open spec fn spec_radix_clamp(s: Seq<char>, radix: u64) -> Option<u64> {
    match spec_radix_val(s, radix) {
        Some(v) => if v <= u64::MAX {
            Some(v as u64)
        } else {
            None
        },
        None => None,
    }
}

/// The number a string denotes under `radix`: an optional leading
/// `+`, then at least one digit, and a value that fits in 64 bits.
pub open spec fn spec_parse_radix(s: Seq<char>, radix: u64) -> Option<u64> {
    if s.len() > 0 && s[0] == '+' {
        spec_radix_clamp(s.drop_first(), radix)
    } else {
        spec_radix_clamp(s, radix)
    }
}

/// What [`parse_dec_or_hex`] returns: the text after a `0x` prefix
/// read as hexadecimal, anything else as decimal.
pub open spec fn spec_parse_dec_or_hex(s: Seq<char>) -> Option<u64> {
    if s.len() >= 2 && s[0] == '0' && s[1] == 'x' {
        spec_parse_radix(s.subrange(2, s.len() as int), 16)
    } else {
        spec_parse_radix(s, 10)
    }
}

/// A digit string's value is non-negative and never below the value
/// of any of its prefixes.
proof fn lemma_radix_val_prefix(s: Seq<char>, i: int, radix: u64)
    requires
        1 <= i <= s.len(),
        radix >= 2,
        spec_radix_val(s, radix) is Some,
    ensures
        spec_radix_val(s.take(i), radix) is Some,
        0 <= spec_radix_val(s.take(i), radix).unwrap() <= spec_radix_val(s, radix).unwrap(),
    decreases s.len(),
{
    if i == s.len() {
        assert(s.take(i) =~= s);
        if s.len() > 1 {
            lemma_radix_val_prefix(s.drop_last(), s.len() - 1, radix);
            assert(s.drop_last().take(s.len() - 1) =~= s.drop_last());
            let v = spec_radix_val(s.drop_last(), radix).unwrap();
            let d = spec_digit_val(s.last(), radix).unwrap();
            assert(v <= v * radix) by (nonlinear_arith)
                requires
                    0 <= v,
                    radix >= 2,
            ;
        }
    } else {
        lemma_radix_val_prefix(s.drop_last(), i, radix);
        assert(s.drop_last().take(i) =~= s.take(i));
        let v = spec_radix_val(s.drop_last(), radix).unwrap();
        let d = spec_digit_val(s.last(), radix).unwrap();
        assert(v <= v * radix) by (nonlinear_arith)
            requires
                0 <= v,
                radix >= 2,
        ;
    }
}

/// The value of `c` as a digit under `radix`.
fn digit_val(c: char, radix: u64) -> (r: Option<u64>)
    ensures
        r == spec_digit_val(c, radix),
{
    let v = c as u32;
    let d: Option<u64> = if 48 <= v && v <= 57 {
        Some((v - 48) as u64)
    } else if 97 <= v && v <= 102 {
        Some((v - 87) as u64)
    } else if 65 <= v && v <= 70 {
        Some((v - 55) as u64)
    } else {
        None
    };
    match d {
        Some(x) => if x < radix {
            Some(x)
        } else {
            None
        },
        None => None,
    }
}

/// Reads a `0x`-prefixed string as hexadecimal and any other string
/// as decimal: an optional leading `+`, then at least one digit.
/// `None` when the string is malformed or the value does not fit in
/// 64 bits.
pub fn parse_dec_or_hex(s: &str) -> (r: Option<u64>)
    ensures
        r == spec_parse_dec_or_hex(s@),
{
    let n = s.unicode_len();
    let hex = n >= 2 && s.get_char(0) == '0' && s.get_char(1) == 'x';
    let radix: u64 = if hex {
        16
    } else {
        10
    };
    let after_prefix: usize = if hex {
        2
    } else {
        0
    };
    let start: usize = if after_prefix < n && s.get_char(after_prefix) == '+' {
        after_prefix + 1
    } else {
        after_prefix
    };
    let ghost digits = s@.subrange(start as int, n as int);
    proof {
        let base = if hex {
            s@.subrange(2, n as int)
        } else {
            s@
        };
        if start > after_prefix {
            assert(base.drop_first() =~= digits);
        } else {
            assert(base =~= digits);
        }
        assert(spec_parse_dec_or_hex(s@) == spec_radix_clamp(digits, radix));
    }
    if start == n {
        return None;
    }
    let mut acc: u64 = 0;
    let mut i: usize = start;
    while i < n
        invariant
            n == s@.len(),
            start <= i <= n,
            start < n,
            digits == s@.subrange(start as int, n as int),
            radix == 16 || radix == 10,
            spec_parse_dec_or_hex(s@) == spec_radix_clamp(digits, radix),
            i > start ==> spec_radix_val(s@.subrange(start as int, i as int), radix) == Some(
                acc as int,
            ),
            i == start ==> acc == 0,
        decreases n - i,
    {
        let ghost prefix = s@.subrange(start as int, i as int);
        let d = match digit_val(s.get_char(i), radix) {
            Some(d) => d,
            None => {
                proof {
                    let stepped = s@.subrange(start as int, i + 1);
                    assert(stepped.last() == s@[i as int]);
                    assert(spec_radix_val(stepped, radix) is None);
                    if spec_radix_val(digits, radix) is Some {
                        lemma_radix_val_prefix(digits, i + 1 - start, radix);
                        assert(digits.take(i + 1 - start) =~= stepped);
                        assert(false);
                    }
                    assert(spec_parse_dec_or_hex(s@) is None);
                }
                return None;
            },
        };
        let ghost stepped = s@.subrange(start as int, i + 1);
        proof {
            assert(stepped.drop_last() =~= prefix);
            assert(stepped.last() == s@[i as int]);
        }
        let next = match acc.checked_mul(radix) {
            Some(m) => m.checked_add(d),
            None => None,
        };
        acc = match next {
            Some(v) => v,
            None => {
                proof {
                    assert(spec_radix_val(stepped, radix) == Some(acc * radix + d));
                    assert(acc * radix + d > u64::MAX);
                    if spec_radix_val(digits, radix) is Some {
                        lemma_radix_val_prefix(digits, i + 1 - start, radix);
                        assert(digits.take(i + 1 - start) =~= stepped);
                        assert(spec_radix_val(digits, radix).unwrap() > u64::MAX);
                    }
                    assert(spec_parse_dec_or_hex(s@) is None);
                }
                return None;
            },
        };
        i = i + 1;
        proof {
            assert(spec_radix_val(stepped, radix) == Some(acc as int));
        }
    }
    proof {
        assert(s@.subrange(start as int, n as int) =~= digits);
    }
    Some(acc)
}

/// Normalizes and evaluates a size expression: the empty string is
/// zero; otherwise kilobyte shorthand is rewritten and the result is
/// evaluated.  A negative value is `NegativeResult`; a parse or
/// evaluation failure is `ExpressionError` with the original string
/// and the evaluator's message.
pub fn parse_expr(expr: &str) -> (r: Result<u64, MemoryError>)
    ensures
        match spec_expr_value(expr@) {
            Some(n) => if n >= 0 {
                r == Ok::<u64, MemoryError>(n as u64)
            } else {
                r == Err::<u64, MemoryError>(MemoryError::NegativeResult)
            },
            None => r matches Err(MemoryError::ExpressionError(orig, _)) && orig@ == expr@,
        },
{
    if expr.is_empty() {
        return Ok(0);
    }
    let rewritten = apply_kilobyte(expr);
    match eval_int_expr(rewritten.as_str()) {
        Ok(v) => {
            if v >= 0 {
                Ok(v as u64)
            } else {
                Err(MemoryError::NegativeResult)
            }
        },
        Err(msg) => Err(MemoryError::ExpressionError(String::from_str(expr), msg)),
    }
}

} // verus!
