//! Character classes, identifier validation and the canonical text order.

use vstd::prelude::*;
use vstd::string::*;

verus! {

/// The Unicode `White_Space` property, which `char::is_whitespace` tests.
pub open spec fn is_white_space(c: char) -> bool {
    let v = c as u32;
    ||| 0x9 <= v <= 0xd
    ||| v == 0x20
    ||| v == 0x85
    ||| v == 0xa0
    ||| v == 0x1680
    ||| 0x2000 <= v <= 0x200a
    ||| v == 0x2028
    ||| v == 0x2029
    ||| v == 0x202f
    ||| v == 0x205f
    ||| v == 0x3000
}

/// The Unicode general category `Cc`, which `char::is_control` tests.
pub open spec fn is_control_char(c: char) -> bool {
    let v = c as u32;
    v <= 0x1f || (0x7f <= v && v <= 0x9f)
}

/// Whether `c` is a white-space character.
pub fn white_space(c: char) -> (b: bool)
    ensures
        b == is_white_space(c),
{
    let v = c as u32;
    (0x9 <= v && v <= 0xd) || v == 0x20 || v == 0x85 || v == 0xa0 || v == 0x1680 || (0x2000 <= v
        && v <= 0x200a) || v == 0x2028 || v == 0x2029 || v == 0x202f || v == 0x205f || v == 0x3000
}

/// Whether `c` is a control character.
pub fn control_char(c: char) -> (b: bool)
    ensures
        b == is_control_char(c),
{
    let v = c as u32;
    v <= 0x1f || (0x7f <= v && v <= 0x9f)
}


/// Why a text value is refused as an identifier.
#[derive(Clone, Copy, Debug, PartialEq, Eq, Structural)]
pub enum TextIssue {
    /// The value is empty.
    Empty,
    /// The value starts or ends with white space.
    SurroundingWhitespace,
    /// The value holds a control character.
    ControlCharacter,
}

/// The first rule that `s` breaks, in the order empty, surrounding white
/// space, control characters; `None` when `s` is an acceptable identifier.
pub open spec fn text_issue(s: Seq<char>) -> Option<TextIssue> {
    if s.len() == 0 {
        Some(TextIssue::Empty)
    } else if is_white_space(s[0]) || is_white_space(s.last()) {
        Some(TextIssue::SurroundingWhitespace)
    } else if exists|i: int| 0 <= i < s.len() && #[trigger] is_control_char(s[i]) {
        Some(TextIssue::ControlCharacter)
    } else {
        None
    }
}

/// The human-readable reason that goes with an issue.
pub open spec fn issue_reason(issue: TextIssue) -> &'static str {
    match issue {
        TextIssue::Empty => "the value is empty",
        TextIssue::SurroundingWhitespace => "leading or trailing whitespace is not allowed",
        TextIssue::ControlCharacter => "control characters are not allowed",
    }
}

/// The reason text for `issue`.
pub fn reason_text(issue: TextIssue) -> (r: &'static str)
    ensures
        r == issue_reason(issue),
{
    match issue {
        TextIssue::Empty => "the value is empty",
        TextIssue::SurroundingWhitespace => "leading or trailing whitespace is not allowed",
        TextIssue::ControlCharacter => "control characters are not allowed",
    }
}

/// Checks `s` against the identifier rules.
pub fn check_text(s: &str) -> (r: Option<TextIssue>)
    ensures
        r == text_issue(s@),
{
    let n = s.unicode_len();
    if n == 0 {
        return Some(TextIssue::Empty);
    }
    if white_space(s.get_char(0)) || white_space(s.get_char(n - 1)) {
        return Some(TextIssue::SurroundingWhitespace);
    }
    let mut i: usize = 0;
    while i < n
        invariant
            n == s@.len(),
            n > 0,
            !is_white_space(s@[0]),
            !is_white_space(s@.last()),
            i <= n,
            forall|j: int| 0 <= j < i ==> !#[trigger] is_control_char(s@[j]),
        decreases n - i,
    {
        if control_char(s.get_char(i)) {
            assert(is_control_char(s@[i as int]));
            return Some(TextIssue::ControlCharacter);
        }
        i = i + 1;
    }
    None
}

/// Whether `c` occurs in `s`.
pub open spec fn has_char(s: Seq<char>, c: char) -> bool {
    exists|i: int| 0 <= i < s.len() && s[i] == c
}

/// Whether `c` occurs in `s`.
pub fn contains_char(s: &str, c: char) -> (b: bool)
    ensures
        b == has_char(s@, c),
{
    let n = s.unicode_len();
    let mut i: usize = 0;
    while i < n
        invariant
            n == s@.len(),
            i <= n,
            forall|j: int| 0 <= j < i ==> s@[j] != c,
        decreases n - i,
    {
        if s.get_char(i) == c {
            return true;
        }
        i = i + 1;
    }
    false
}

// ---------------------------------------------------------------------------
// Canonical order of text
// ---------------------------------------------------------------------------

/// Result of comparing two values in their canonical order.
#[derive(Clone, Copy, Debug, PartialEq, Eq, Structural)]
pub enum Precedence {
    /// The first value comes first.
    Before,
    /// Both values are equal.
    Same,
    /// The first value comes last.
    After,
}

/// Strict lexicographic order by code point, which is the order of `str`
/// (UTF-8 preserves code-point order byte-wise).
pub open spec fn text_lt(a: Seq<char>, b: Seq<char>) -> bool
    decreases a.len(),
{
    if a.len() == 0 {
        b.len() > 0
    } else if b.len() == 0 {
        false
    } else if a[0] != b[0] {
        (a[0] as u32) < (b[0] as u32)
    } else {
        text_lt(a.drop_first(), b.drop_first())
    }
}

/// No text precedes itself.
pub proof fn lemma_text_lt_irreflexive(a: Seq<char>)
    ensures
        !text_lt(a, a),
    decreases a.len(),
{
    if a.len() > 0 {
        lemma_text_lt_irreflexive(a.drop_first());
    }
}

/// Of two distinct texts exactly one precedes the other.
pub proof fn lemma_text_lt_trichotomy(a: Seq<char>, b: Seq<char>)
    ensures
        a != b ==> (text_lt(a, b) || text_lt(b, a)),
        !(text_lt(a, b) && text_lt(b, a)),
        text_lt(a, b) ==> a != b,
    decreases a.len(),
{
    lemma_text_lt_irreflexive(a);
    if a.len() > 0 && b.len() > 0 {
        lemma_text_lt_trichotomy(a.drop_first(), b.drop_first());
        if a[0] == b[0] && a.drop_first() == b.drop_first() {
            assert(a =~= seq![a[0]] + a.drop_first());
            assert(b =~= seq![b[0]] + b.drop_first());
        }
        if a[0] != b[0] {
            if (a[0] as u32) == (b[0] as u32) {
                assert(a[0] == b[0]) by {
                    lemma_char_u32_injective(a[0], b[0]);
                }
            }
        }
    } else if a.len() == 0 && b.len() == 0 {
        assert(a =~= b);
    }
}

/// Distinct characters have distinct code points.
pub proof fn lemma_char_u32_injective(c: char, d: char)
    requires
        (c as u32) == (d as u32),
    ensures
        c == d,
{
}

/// The text order is transitive.
pub proof fn lemma_text_lt_transitive(a: Seq<char>, b: Seq<char>, c: Seq<char>)
    requires
        text_lt(a, b),
        text_lt(b, c),
    ensures
        text_lt(a, c),
    decreases a.len(),
{
    if a.len() > 0 && b.len() > 0 && c.len() > 0 {
        if a[0] == b[0] && b[0] == c[0] {
            lemma_text_lt_transitive(a.drop_first(), b.drop_first(), c.drop_first());
        }
        if (a[0] as u32) == (c[0] as u32) {
            lemma_char_u32_injective(a[0], c[0]);
        }
    }
}

/// The precedence of `a` against `b` in the text order.
pub open spec fn text_precedence(a: Seq<char>, b: Seq<char>) -> Precedence {
    if a == b {
        Precedence::Same
    } else if text_lt(a, b) {
        Precedence::Before
    } else {
        Precedence::After
    }
}

/// Compares two texts in the canonical order.
pub fn compare_text(a: &str, b: &str) -> (p: Precedence)
    ensures
        p == text_precedence(a@, b@),
        p == Precedence::After ==> text_lt(b@, a@),
{
    proof {
        lemma_text_lt_trichotomy(a@, b@);
    }
    let n = a.unicode_len();
    let m = b.unicode_len();
    let mut i: usize = 0;
    assert(a@.skip(0) =~= a@);
    assert(b@.skip(0) =~= b@);
    while i < n && i < m
        invariant
            n == a@.len(),
            m == b@.len(),
            i <= n,
            i <= m,
            a@.take(i as int) == b@.take(i as int),
            text_lt(a@, b@) == text_lt(a@.skip(i as int), b@.skip(i as int)),
            text_lt(b@, a@) == text_lt(b@.skip(i as int), a@.skip(i as int)),
        decreases n - i,
    {
        let x = a.get_char(i);
        let y = b.get_char(i);
        let ghost sa = a@.skip(i as int);
        let ghost sb = b@.skip(i as int);
        assert(sa[0] == x && sb[0] == y);
        if x != y {
            proof {
                if (x as u32) == (y as u32) {
                    lemma_char_u32_injective(x, y);
                }
            }
            if (x as u32) < (y as u32) {
                return Precedence::Before;
            } else {
                return Precedence::After;
            }
        }
        assert(sa.drop_first() =~= a@.skip(i + 1));
        assert(sb.drop_first() =~= b@.skip(i + 1));
        assert(a@.take(i + 1) =~= a@.take(i as int).push(x));
        assert(b@.take(i + 1) =~= b@.take(i as int).push(y));
        i = i + 1;
    }
    if n == m {
        assert(a@ =~= a@.take(i as int));
        assert(b@ =~= b@.take(i as int));
        Precedence::Same
    } else if n < m {
        Precedence::Before
    } else {
        Precedence::After
    }
}

} // verus!
