//! Parsing of command-line section specifications:
//! `<NAME>[ (attrs)]:<START>:<SIZE>[:<OFFSET>]`, where the numeric
//! fields are size expressions and an empty field means zero.

use crate::errors::spec_message;
use crate::errors::MemoryError;
use crate::expr::parse_expr;
use crate::expr::spec_expr_value;
use crate::section::MemorySection;
use crate::section::SectionView;
use vstd::prelude::*;
use vstd::string::StrSliceExecFns;
use vstd::string::StringExecFns;

verus! {

/// Whether `c` has the Unicode `White_Space` property — the set that
/// `char::is_whitespace` recognizes and that trimming a section name
/// removes from its ends.
pub open spec fn spec_is_space(c: char) -> bool {
    let v = c as u32;
    (9 <= v && v <= 13) || v == 0x20 || v == 0x85 || v == 0xA0 || v == 0x1680 || (0x2000 <= v && v
        <= 0x200A) || v == 0x2028 || v == 0x2029 || v == 0x202F || v == 0x205F || v == 0x3000
}

/// `s` without leading whitespace.
pub open spec fn spec_trim_start(s: Seq<char>) -> Seq<char>
    decreases s.len(),
{
    if s.len() > 0 && spec_is_space(s[0]) {
        spec_trim_start(s.drop_first())
    } else {
        s
    }
}

/// `s` without trailing whitespace.
pub open spec fn spec_trim_end(s: Seq<char>) -> Seq<char>
    decreases s.len(),
{
    if s.len() > 0 && spec_is_space(s.last()) {
        spec_trim_end(s.drop_last())
    } else {
        s
    }
}

/// `s` without leading or trailing whitespace.
pub open spec fn spec_trim(s: Seq<char>) -> Seq<char> {
    spec_trim_end(spec_trim_start(s))
}

/// The name and attribute parts of the field before the first colon:
/// when a `(` comes before a final `)`, the attribute string sits
/// between them and the trimmed text before the `(` is the name;
/// otherwise the whole field is the name and the attributes are empty.
pub open spec fn spec_name_attrs(s: Seq<char>) -> (Seq<char>, Seq<char>) {
    match (s.index_of_first('('), s.index_of_last(')')) {
        (Some(a), Some(b)) => if a < b {
            (spec_trim(s.subrange(0, a)), s.subrange(a + 1, b))
        } else {
            (s, Seq::empty())
        },
        _ => (s, Seq::empty()),
    }
}

/// The fields of `rest` split at every colon, with `cur` the field
/// read so far.  Splitting never drops a field: `n` colons give
/// `n + 1` fields, empty ones included.
pub open spec fn spec_split_acc(rest: Seq<char>, cur: Seq<char>) -> Seq<Seq<char>>
    decreases rest.len(),
{
    if rest.len() == 0 {
        seq![cur]
    } else if rest[0] == ':' {
        seq![cur] + spec_split_acc(rest.drop_first(), Seq::empty())
    } else {
        spec_split_acc(rest.drop_first(), cur.push(rest[0]))
    }
}

/// The colon-separated fields of `s`.
pub open spec fn spec_split_colon(s: Seq<char>) -> Seq<Seq<char>> {
    spec_split_acc(s, Seq::empty())
}

/// What [`parse_section`] accepts: the section built from a
/// specification string, or nothing when the string is rejected —
/// fewer than three or more than four fields, a numeric field that
/// fails to evaluate or is negative, or an offset larger than the
/// size.
pub open spec fn spec_parse_section(s: Seq<char>) -> Option<SectionView> {
    let parts = spec_split_colon(s);
    if parts.len() < 3 || parts.len() > 4 {
        None
    } else {
        let na = spec_name_attrs(parts[0]);
        match (spec_expr_value(parts[1]), spec_expr_value(parts[2])) {
            (Some(ov), Some(lv)) => if ov >= 0 && lv >= 0 {
                let base = SectionView {
                    name: na.0,
                    attrs: if na.1.len() > 0 {
                        Some(na.1)
                    } else {
                        None::<Seq<char>>
                    },
                    origin: ov as u64,
                    length: lv as u64,
                    pagesize: 1u64,
                };
                if parts.len() == 4 {
                    match spec_expr_value(parts[3]) {
                        Some(dv) => if dv >= 0 && dv as u64 <= base.length {
                            Some(
                                SectionView {
                                    origin: (base.origin + dv) as u64,
                                    length: (base.length - dv) as u64,
                                    ..base
                                },
                            )
                        } else {
                            None
                        },
                        None => None,
                    }
                } else {
                    Some(base)
                }
            } else {
                None
            },
            _ => None,
        }
    }
}

/// Whether a numeric field is accepted: it evaluates, and not to a
/// negative value.
pub open spec fn spec_expr_accepted(s: Seq<char>) -> bool {
    match spec_expr_value(s) {
        Some(n) => n >= 0,
        None => false,
    }
}

/// The accepted value of a numeric field; meaningful only when
/// [`spec_expr_accepted`] holds.
pub open spec fn spec_expr_u64(s: Seq<char>) -> u64 {
    match spec_expr_value(s) {
        Some(n) => n as u64,
        None => 0u64,
    }
}

/// Whether a numeric field evaluates to a negative value.  When it
/// instead fails to evaluate at all, the error carries the
/// evaluator's own message, which the contracts leave unnamed.
pub open spec fn spec_expr_negative(s: Seq<char>) -> bool {
    match spec_expr_value(s) {
        Some(n) => n < 0,
        None => false,
    }
}

/// The index of the first occurrence of `c` in `s`, scanning forward.
fn find_first_char(s: &str, c: char) -> (r: Option<usize>)
    ensures
        match r {
            Some(i) => i < s@.len() && s@[i as int] == c && (forall|j: int|
                0 <= j < i ==> s@[j] != c),
            None => forall|j: int| 0 <= j < s@.len() ==> s@[j] != c,
        },
{
    let n = s.unicode_len();
    let mut i: usize = 0;
    while i < n
        invariant
            n == s@.len(),
            i <= n,
            forall|j: int| 0 <= j < i ==> s@[j] != c,
        decreases n - i,
    {
        if s.get_char(i) == c {
            return Some(i);
        }
        i = i + 1;
    }
    None
}

/// The index of the last occurrence of `c` in `s`, scanning backward.
fn find_last_char(s: &str, c: char) -> (r: Option<usize>)
    ensures
        match r {
            Some(i) => i < s@.len() && s@[i as int] == c && (forall|j: int|
                i < j < s@.len() ==> s@[j] != c),
            None => forall|j: int| 0 <= j < s@.len() ==> s@[j] != c,
        },
{
    let n = s.unicode_len();
    let mut i: usize = n;
    while i > 0
        invariant
            n == s@.len(),
            i <= n,
            forall|j: int| i <= j < n ==> s@[j] != c,
        decreases i,
    {
        i = i - 1;
        if s.get_char(i) == c {
            return Some(i);
        }
    }
    None
}

/// Removing leading whitespace removes exactly the leading run of
/// whitespace characters.
proof fn lemma_trim_start_at(s: Seq<char>, k: int)
    requires
        0 <= k <= s.len(),
        forall|j: int| 0 <= j < k ==> spec_is_space(s[j]),
        k < s.len() ==> !spec_is_space(s[k]),
    ensures
        spec_trim_start(s) == s.subrange(k, s.len() as int),
    decreases k,
{
    if k == 0 {
        assert(s.subrange(0, s.len() as int) =~= s);
    } else {
        lemma_trim_start_at(s.drop_first(), k - 1);
        assert(s.drop_first().subrange(k - 1, s.drop_first().len() as int) =~= s.subrange(
            k,
            s.len() as int,
        ));
    }
}

/// Removing trailing whitespace removes exactly the trailing run of
/// whitespace characters.
proof fn lemma_trim_end_at(s: Seq<char>, k: int)
    requires
        0 <= k <= s.len(),
        forall|j: int| k <= j < s.len() ==> spec_is_space(s[j]),
        k > 0 ==> !spec_is_space(s[k - 1]),
    ensures
        spec_trim_end(s) == s.subrange(0, k),
    decreases s.len(),
{
    if k == s.len() {
        if s.len() > 0 {
            assert(!spec_is_space(s.last()));
        }
        assert(s.subrange(0, s.len() as int) =~= s);
    } else {
        assert(spec_is_space(s.last()));
        lemma_trim_end_at(s.drop_last(), k);
        assert(s.drop_last().subrange(0, k) =~= s.subrange(0, k));
    }
}

/// Whether the character at `i` is whitespace.
fn is_space_at(s: &str, i: usize) -> (r: bool)
    requires
        i < s@.len(),
    ensures
        r == spec_is_space(s@[i as int]),
{
    let c = s.get_char(i);
    let v = c as u32;
    (9 <= v && v <= 13) || v == 0x20 || v == 0x85 || v == 0xA0 || v == 0x1680 || (0x2000 <= v && v
        <= 0x200A) || v == 0x2028 || v == 0x2029 || v == 0x202F || v == 0x205F || v == 0x3000
}

/// `s` with whitespace removed from both ends.
fn trim_str(s: &str) -> (r: &str)
    ensures
        r@ == spec_trim(s@),
{
    let n = s.unicode_len();
    let mut a: usize = 0;
    while a < n && is_space_at(s, a)
        invariant
            n == s@.len(),
            a <= n,
            forall|j: int| 0 <= j < a ==> spec_is_space(s@[j]),
        decreases n - a,
    {
        a = a + 1;
    }
    let mut b: usize = n;
    while b > a && is_space_at(s, b - 1)
        invariant
            n == s@.len(),
            a <= b <= n,
            forall|j: int| 0 <= j < a ==> spec_is_space(s@[j]),
            a < n ==> !spec_is_space(s@[a as int]),
            forall|j: int| b <= j < n ==> spec_is_space(s@[j]),
        decreases b,
    {
        b = b - 1;
    }
    proof {
        lemma_trim_start_at(s@, a as int);
        let t = s@.subrange(a as int, n as int);
        lemma_trim_end_at(t, b - a);
        assert(t.subrange(0, b - a) =~= s@.subrange(a as int, b as int));
    }
    s.substring_char(a, b)
}

/// Splits `s` at every colon; `n` colons give `n + 1` fields, empty
/// ones included, in order.
fn split_colon(s: &str) -> (parts: Vec<&str>)
    ensures
        parts.deep_view() == spec_split_colon(s@),
        parts@.len() >= 1,
        forall|k: int|
            0 <= k < parts@.len() ==> parts.deep_view()[k] == #[trigger] parts@[k]@,
{
    let n = s.unicode_len();
    let mut parts: Vec<&str> = Vec::new();
    let mut start: usize = 0;
    let mut i: usize = 0;
    proof {
        assert(s@.subrange(0, n as int) =~= s@);
        assert(s@.subrange(0, 0) =~= Seq::<char>::empty());
        assert(parts.deep_view() =~= Seq::<Seq<char>>::empty());
    }
    while i < n
        invariant
            n == s@.len(),
            start <= i <= n,
            spec_split_colon(s@) == parts.deep_view() + spec_split_acc(
                s@.subrange(i as int, n as int),
                s@.subrange(start as int, i as int),
            ),
        decreases n - i,
    {
        let ghost prev_rest = s@.subrange(i as int, n as int);
        let ghost prev_cur = s@.subrange(start as int, i as int);
        let c = s.get_char(i);
        if c == ':' {
            let piece = s.substring_char(start, i);
            parts.push(piece);
            start = i + 1;
        }
        i = i + 1;
        proof {
            assert(prev_rest[0] == s@[i - 1]);
            assert(prev_rest.drop_first() =~= s@.subrange(i as int, n as int));
            if s@[i - 1] == ':' {
                assert(s@.subrange(start as int, i as int) =~= Seq::<char>::empty());
            } else {
                assert(prev_cur.push(s@[i - 1]) =~= s@.subrange(start as int, i as int));
            }
            assert(parts.deep_view() + spec_split_acc(
                s@.subrange(i as int, n as int),
                s@.subrange(start as int, i as int),
            ) =~~= spec_split_colon(s@));
        }
    }
    let piece = s.substring_char(start, n);
    parts.push(piece);
    proof {
        assert(parts.deep_view() =~~= spec_split_colon(s@));
    }
    parts
}

/// The name and attribute parts of a section field: the text between
/// a `(` and a final `)` is the attribute string, and the trimmed
/// text before the `(` is the name; without such a pair the whole
/// field is the name.
pub fn parse_name_attrs(input: &str) -> (r: (&str, &str))
    ensures
        (r.0@, r.1@) == spec_name_attrs(input@),
{
    proof {
        input@.index_of_first_ensures('(');
        input@.index_of_last_ensures(')');
        reveal_strlit("");
        assert(""@ =~= Seq::<char>::empty());
    }
    let fo = find_first_char(input, '(');
    let lo = find_last_char(input, ')');
    if let (Some(a), Some(b)) = (fo, lo) {
        if a < b {
            let name = trim_str(input.substring_char(0, a));
            let value = input.substring_char(a + 1, b);
            return (name, value);
        }
    }
    (input, "")
}

/// Builds a section from a `<NAME>[ (attrs)]:<START>:<SIZE>[:<OFFSET>]`
/// specification: the numeric fields are size expressions (empty means
/// zero), attributes are applied when present, and a fourth field
/// shifts the section.  Any other number of fields is rejected.  The
/// error is the message of the first field that is rejected.
pub fn parse_section(section_str: &str) -> (r: Result<MemorySection, String>)
    ensures
        r matches Ok(sec) ==> spec_parse_section(section_str@) == Some(sec@),
        r is Err <==> spec_parse_section(section_str@) is None,
        ({
            let parts = spec_split_colon(section_str@);
            &&& (parts.len() < 3 || parts.len() > 4) ==> (r matches Err(m) && m@ == "invalid section spec (\"<NAME>:<START>:<SIZE>[:<OFFSET>]\")"@)
            &&& (3 <= parts.len() <= 4 && spec_expr_negative(parts[1])) ==> (r matches Err(m) && m@
                == spec_message(MemoryError::NegativeResult))
            &&& (3 <= parts.len() <= 4 && spec_expr_accepted(parts[1]) && spec_expr_negative(
                parts[2],
            )) ==> (r matches Err(m) && m@ == spec_message(MemoryError::NegativeResult))
            &&& (parts.len() == 4 && spec_expr_accepted(parts[1]) && spec_expr_accepted(parts[2])
                && spec_expr_negative(parts[3])) ==> (r matches Err(m) && m@ == spec_message(
                MemoryError::NegativeResult,
            ))
            &&& (parts.len() == 4 && spec_expr_accepted(parts[1]) && spec_expr_accepted(parts[2])
                && spec_expr_accepted(parts[3]) && spec_expr_u64(parts[3]) > spec_expr_u64(
                parts[2],
            )) ==> (r matches Err(m) && m@ == spec_message(MemoryError::InvalidOffset))
        }),
{
    let parts = split_colon(section_str);
    if parts.len() < 3 || parts.len() > 4 {
        return Err(
            String::from_str("invalid section spec (\"<NAME>:<START>:<SIZE>[:<OFFSET>]\")"),
        );
    }
    let (name, attrs_str) = parse_name_attrs(parts[0]);
    let origin = match parse_expr(parts[1]) {
        Ok(v) => v,
        Err(e) => {
            return Err(e.message());
        },
    };
    let length = match parse_expr(parts[2]) {
        Ok(v) => v,
        Err(e) => {
            return Err(e.message());
        },
    };
    let mut section = MemorySection::new(name, origin, length);
    if !attrs_str.is_empty() {
        section = section.attrs(attrs_str);
    }
    if parts.len() == 4 {
        let delta = match parse_expr(parts[3]) {
            Ok(v) => v,
            Err(e) => {
                return Err(e.message());
            },
        };
        section = match section.offset(delta) {
            Ok(s) => s,
            Err(e) => {
                return Err(e.message());
            },
        };
    }
    Ok(section)
}

} // verus!
