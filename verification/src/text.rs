//! Text checks shared by request validation.
use vstd::prelude::*;

verus! {

/// Whether `c` has the Unicode `White_Space` property (PropList.txt): the
/// controls U+0009 to U+000D, space, U+0085, no-break space, U+1680, the
/// spaces U+2000 to U+200A, the line and paragraph separators, U+202F,
/// U+205F and the ideographic space.
pub open spec fn unicode_white_space(c: char) -> bool {
    let n = c as int;
    ||| 0x09 <= n <= 0x0D
    ||| n == 0x20
    ||| n == 0x85
    ||| n == 0xA0
    ||| n == 0x1680
    ||| 0x2000 <= n <= 0x200A
    ||| n == 0x2028
    ||| n == 0x2029
    ||| n == 0x202F
    ||| n == 0x205F
    ||| n == 0x3000
}

/// Calls `char::is_whitespace`, which std documents as the Unicode
/// `White_Space` property. Claims that it answers `unicode_white_space`.
#[verifier::external_body]
fn char_is_whitespace(c: char) -> (r: bool)
    ensures
        r == unicode_white_space(c),
{
    c.is_whitespace()
}

/// `s` is empty or consists of whitespace only, i.e. trimming it leaves
/// nothing.
pub open spec fn blank(s: Seq<char>) -> bool {
    forall|i: int| 0 <= i < s.len() ==> unicode_white_space(#[trigger] s[i])
}

/// Whether `s` is empty or whitespace only (`s.trim().is_empty()`).
pub fn is_blank(s: &str) -> (r: bool)
    ensures
        r == blank(s@),
{
    let mut all_white = true;
    for c in it: s.chars()
        invariant
            all_white == (forall|i: int| 0 <= i < it.index@ ==> unicode_white_space(#[trigger] it.seq()[i])),
            it.seq() == s@,
    {
        if !char_is_whitespace(c) {
            all_white = false;
        }
    }
    all_white
}

/// Whether `s` spells exactly `lit`.
pub fn str_is(s: &str, lit: &str) -> (r: bool)
    ensures
        r == (s@ == lit@),
{
    let a = s.to_owned();
    let b = lit.to_owned();
    a == b
}

} // verus!
