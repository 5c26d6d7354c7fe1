//! Case-insensitive text matching.
//!
//! Two notions of case folding live here, for two different jobs. The
//! filter engine asks whether one string occurs in another after both are
//! lowercased whole, which is the Unicode lowercase mapping with all its
//! context rules: that mapping is named [`lower_of`] and computed by
//! `str::to_lowercase`. The highlight splitter instead needs every position
//! of the folded text to line up with the same position of the original
//! text, so it deliberately folds one character at a time — [`fold_char`],
//! the first character of `char::to_lowercase`'s mapping — and forgoes
//! multi-character mappings and context-dependent rules.

use vstd::prelude::*;
use vstd::string::*;

verus! {

/// The Unicode lowercase mapping of a whole string, as `str::to_lowercase`
/// computes it (context rules included; the length may change).
pub uninterp spec fn lower_of(s: Seq<char>) -> Seq<char>;

/// Relies on str::to_lowercase: the Unicode lowercase mapping of the whole
/// string; the result depends on the characters alone.
#[verifier::external_body]
pub(crate) fn lowercase(s: &str) -> (r: String)
    ensures
        r@ == lower_of(s@),
{
    s.to_lowercase()
}

/// The case folding of one character: the first character of its Unicode
/// lowercase mapping, so that folding never changes a string's length or
/// positions. Multi-character mappings and context-dependent rules are
/// deliberately not applied.
pub uninterp spec fn fold_char(c: char) -> char;

/// Relies on char::to_lowercase: its iterator yields the lowercase mapping
/// as one or more characters, so the first always exists; the result
/// depends on the character alone.
#[verifier::external_body]
fn lower_char(c: char) -> (r: char)
    ensures
        r == fold_char(c),
{
    c.to_lowercase().next().unwrap()
}

/// Relies on String::push: it appends the given character to the string.
#[verifier::external_body]
pub(crate) fn push_char(s: &mut String, c: char)
    ensures
        final(s)@ == old(s)@.push(c),
{
    s.push(c);
}

/// The pattern `p` occurs in `t` at position `i`, character for character.
pub open spec fn occurs_at(t: Seq<char>, p: Seq<char>, i: int) -> bool {
    &&& 0 <= i
    &&& i + p.len() <= t.len()
    &&& forall|j: int| 0 <= j < p.len() ==> t[i + j] == #[trigger] p[j]
}

/// The pattern `p` occurs somewhere in `t`, character for character.
pub open spec fn contains_seq(t: Seq<char>, p: Seq<char>) -> bool {
    exists|i: int| occurs_at(t, p, i)
}

/// Substring search: does `pat` occur anywhere in `text`?
pub fn contains_str(text: &str, pat: &str) -> (r: bool)
    ensures
        r == contains_seq(text@, pat@),
{
    let tn = text.unicode_len();
    let pn = pat.unicode_len();
    if pn > tn {
        assert(forall|i: int| !occurs_at(text@, pat@, i));
        return false;
    }
    let mut i: usize = 0;
    while i <= tn - pn
        invariant
            tn == text@.len(),
            pn == pat@.len(),
            pn <= tn,
            0 <= i <= tn - pn + 1,
            forall|k: int| 0 <= k < i ==> !occurs_at(text@, pat@, k),
        decreases tn - pn - i + 1,
    {
        if occurs_at_str(text, pat, i) {
            assert(contains_seq(text@, pat@));
            return true;
        }
        i += 1;
    }
    assert(forall|k: int| occurs_at(text@, pat@, k) ==> 0 <= k <= tn - pn);
    false
}

/// Comparison of `pat` against `text` at character position `i`, character
/// for character.
fn occurs_at_str(text: &str, pat: &str, i: usize) -> (r: bool)
    requires
        i + pat@.len() <= text@.len(),
        i + pat@.len() <= usize::MAX,
    ensures
        r == occurs_at(text@, pat@, i as int),
{
    let pn = pat.unicode_len();
    let mut j: usize = 0;
    while j < pn
        invariant
            pn == pat@.len(),
            0 <= j <= pn,
            i + pn <= text@.len(),
            i + pn <= usize::MAX,
            forall|k: int| 0 <= k < j ==> text@[i + k] == #[trigger] pat@[k],
        decreases pn - j,
    {
        if text.get_char(i + j) != pat.get_char(j) {
            return false;
        }
        j += 1;
    }
    true
}

/// The pattern `p` occurs in `t` at position `i`, compared character by
/// character under [`fold_char`].
pub open spec fn match_at(t: Seq<char>, p: Seq<char>, i: int) -> bool {
    &&& 0 <= i
    &&& i + p.len() <= t.len()
    &&& forall|j: int| 0 <= j < p.len() ==> fold_char(t[i + j]) == fold_char(#[trigger] p[j])
}

/// Unicode whitespace: exactly the characters with the White_Space
/// property, the set `str::trim` removes.
pub open spec fn is_space(c: char) -> bool {
    ||| c == '\t'
    ||| c == '\n'
    ||| c == '\u{b}'
    ||| c == '\u{c}'
    ||| c == '\r'
    ||| c == ' '
    ||| c == '\u{85}'
    ||| c == '\u{a0}'
    ||| c == '\u{1680}'
    ||| (0x2000 <= c as u32 && c as u32 <= 0x200a)
    ||| c == '\u{2028}'
    ||| c == '\u{2029}'
    ||| c == '\u{202f}'
    ||| c == '\u{205f}'
    ||| c == '\u{3000}'
}

/// Index of the first character at or after `i` that is not whitespace
/// (`s.len()` if there is none).
pub open spec fn space_prefix_end(s: Seq<char>, i: int) -> int
    decreases s.len() - i,
{
    if 0 <= i < s.len() && is_space(s[i]) {
        space_prefix_end(s, i + 1)
    } else {
        i
    }
}

/// Index after the last character before `i` that is not whitespace
/// (`0` if there is none).
pub open spec fn space_suffix_start(s: Seq<char>, i: int) -> int
    decreases i,
{
    if 0 < i <= s.len() && is_space(s[i - 1]) {
        space_suffix_start(s, i - 1)
    } else {
        i
    }
}

/// `s` with leading and trailing whitespace removed.
pub open spec fn trim_spec(s: Seq<char>) -> Seq<char> {
    let a = space_prefix_end(s, 0);
    let b = space_suffix_start(s, s.len() as int);
    if a < b {
        s.subrange(a, b)
    } else {
        Seq::empty()
    }
}

/// Skipping trailing whitespace never moves the index forward.
pub proof fn lemma_suffix_start_le(s: Seq<char>, i: int)
    ensures
        space_suffix_start(s, i) <= i,
    decreases i,
{
    if 0 < i <= s.len() && is_space(s[i - 1]) {
        lemma_suffix_start_le(s, i - 1);
    }
}

/// Whether one character is Unicode whitespace.
pub(crate) fn is_space_char(c: char) -> (r: bool)
    ensures
        r == is_space(c),
{
    if c == '\t' || c == '\n' || c == '\u{b}' || c == '\u{c}' || c == '\r' || c == ' ' {
        return true;
    }
    let u = c as u32;
    u == 0x85 || u == 0xa0 || u == 0x1680 || (0x2000 <= u && u <= 0x200a) || u == 0x2028
        || u == 0x2029 || u == 0x202f || u == 0x205f || u == 0x3000
}

/// `s` with leading and trailing whitespace removed.
pub fn trim_str(s: &str) -> (r: String)
    ensures
        r@ == trim_spec(s@),
{
    let n = s.unicode_len();
    let mut a: usize = 0;
    while a < n && is_space_char(s.get_char(a))
        invariant
            n == s@.len(),
            0 <= a <= n,
            space_prefix_end(s@, 0) == space_prefix_end(s@, a as int),
            forall|k: int| 0 <= k < a ==> is_space(s@[k]),
        decreases n - a,
    {
        a += 1;
    }
    assert(space_prefix_end(s@, 0) == a);
    let mut b: usize = n;
    while b > a && is_space_char(s.get_char(b - 1))
        invariant
            n == s@.len(),
            a <= b <= n,
            space_suffix_start(s@, n as int) == space_suffix_start(s@, b as int),
        decreases b,
    {
        b -= 1;
    }
    if b <= a {
        proof {
            lemma_suffix_start_le(s@, b as int);
        }
        assert(trim_spec(s@) =~= Seq::<char>::empty());
        return String::new();
    }
    assert(space_suffix_start(s@, b as int) == b);
    let part = s.substring_char(a, b);
    String::from_str(part)
}

/// Comparison of `pat` against `text` at character position `i`, character
/// by character under [`fold_char`].
pub fn is_match_at(text: &str, pat: &str, i: usize) -> (r: bool)
    requires
        i + pat@.len() <= text@.len(),
        i + pat@.len() <= usize::MAX,
    ensures
        r == match_at(text@, pat@, i as int),
{
    let pn = pat.unicode_len();
    let mut j: usize = 0;
    while j < pn
        invariant
            pn == pat@.len(),
            0 <= j <= pn,
            i + pn <= text@.len(),
            i + pn <= usize::MAX,
            forall|k: int| 0 <= k < j ==> fold_char(text@[i + k]) == fold_char(#[trigger] pat@[k]),
        decreases pn - j,
    {
        let tc = lower_char(text.get_char(i + j));
        let pc = lower_char(pat.get_char(j));
        if tc != pc {
            return false;
        }
        j += 1;
    }
    true
}

/// Whether a span of text is plain or part of a highlighted match.
#[derive(Clone, Copy, PartialEq, Eq, Structural, Debug)]
pub enum StringPartType {
    Normal,
    Highlight,
}

/// One span of a message, in original casing, tagged as plain or
/// highlighted.
pub struct StringPart {
    pub s: String,
    pub t: StringPartType,
}

/// Mathematical image of a [`StringPart`].
pub ghost struct StringPartView {
    pub s: Seq<char>,
    pub t: StringPartType,
}

impl View for StringPart {
    type V = StringPartView;

    open spec fn view(&self) -> StringPartView {
        StringPartView { s: self.s@, t: self.t }
    }
}

/// The images of a sequence of spans.
pub open spec fn part_views(s: Seq<StringPart>) -> Seq<StringPartView> {
    s.map_values(|sp: StringPart| sp@)
}

/// The first position at or after `i` where `p` occurs in `t` under the
/// character-wise fold, or `t.len()` when there is none (unambiguous while
/// `p` is not empty).
pub open spec fn next_match(t: Seq<char>, p: Seq<char>, i: int) -> int
    decreases t.len() - i,
{
    if i + p.len() > t.len() {
        t.len() as int
    } else if match_at(t, p, i) {
        i
    } else {
        next_match(t, p, i + 1)
    }
}

proof fn lemma_next_match_bounds(t: Seq<char>, p: Seq<char>, i: int)
    requires
        0 <= i <= t.len(),
        p.len() >= 1,
    ensures
        i <= next_match(t, p, i) <= t.len(),
        next_match(t, p, i) < t.len() ==> match_at(t, p, next_match(t, p, i)),
    decreases t.len() - i,
{
    if i + p.len() > t.len() {
    } else if match_at(t, p, i) {
    } else {
        lemma_next_match_bounds(t, p, i + 1);
    }
}

/// The spans that splitting `t` on matches of `p` under the character-wise
/// fold yields, starting at position `last`: alternating plain gaps and
/// highlighted matches, with a trailing plain span when the text does not
/// end on a match. Empty when `p` is empty.
pub open spec fn split_spec(t: Seq<char>, p: Seq<char>, last: int) -> Seq<StringPartView>
    decreases t.len() - last,
    via split_spec_decreases
{
    if p.len() <= 0 || last < 0 || last > t.len() {
        Seq::empty()
    } else {
        let j = next_match(t, p, last);
        if j == t.len() {
            if last < t.len() {
                seq![
                    StringPartView { s: t.subrange(last, t.len() as int), t: StringPartType::Normal },
                ]
            } else {
                Seq::empty()
            }
        } else {
            let pre: Seq<StringPartView> = if last < j {
                seq![StringPartView { s: t.subrange(last, j), t: StringPartType::Normal }]
            } else {
                Seq::empty()
            };
            pre + seq![
                StringPartView { s: t.subrange(j, j + p.len()), t: StringPartType::Highlight },
            ] + split_spec(t, p, j + p.len())
        }
    }
}

#[via_fn]
proof fn split_spec_decreases(t: Seq<char>, p: Seq<char>, last: int) {
    if !(p.len() <= 0 || last < 0 || last > t.len()) {
        lemma_next_match_bounds(t, p, last);
    }
}

/// Split `text` into spans on case-insensitive matches of `r`, keeping the
/// original casing: plain gaps and highlighted matches alternate, and a
/// trailing plain span is emitted when the text does not end on a match.
/// Matching folds one character at a time ([`fold_char`]), so every
/// highlight is the slice of the original text at the matched positions.
pub fn split_keep(text: &str, r: &str) -> (parts: Vec<StringPart>)
    requires
        r@.len() >= 1,
    ensures
        part_views(parts@) == split_spec(text@, r@, 0),
{
    let ghost t = text@;
    let ghost p = r@;
    let tn = text.unicode_len();
    let pn = r.unicode_len();
    let mut parts: Vec<StringPart> = Vec::new();
    if pn > tn {
        if tn > 0 {
            let whole = StringPart {
                s: String::from_str(text.substring_char(0, tn)),
                t: StringPartType::Normal,
            };
            parts.push(whole);
            proof {
                assert(t.subrange(0, tn as int) =~= t);
                assert(part_views(parts@) =~= split_spec(t, p, 0));
            }
        } else {
            proof {
                assert(part_views(parts@) =~= split_spec(t, p, 0));
            }
        }
        return parts;
    }
    let mut last: usize = 0;
    let mut j: usize = 0;
    while j <= tn - pn
        invariant
            t == text@,
            p == r@,
            tn == t.len(),
            pn == p.len(),
            1 <= pn <= tn,
            0 <= last <= j <= tn + 1,
            last <= tn,
            next_match(t, p, last as int) == next_match(t, p, j as int),
            split_spec(t, p, 0) == part_views(parts@) + split_spec(t, p, last as int),
        decreases tn - j,
    {
        if is_match_at(text, r, j) {
            proof {
                assert(next_match(t, p, j as int) == j);
                assert(next_match(t, p, last as int) == j);
            }
            if last < j {
                let gap = StringPart {
                    s: String::from_str(text.substring_char(last, j)),
                    t: StringPartType::Normal,
                };
                let ghost prev = parts@;
                parts.push(gap);
                proof {
                    assert(part_views(parts@) =~= part_views(prev).push(
                        StringPartView { s: t.subrange(last as int, j as int), t: StringPartType::Normal },
                    ));
                }
            }
            let hl = StringPart {
                s: String::from_str(text.substring_char(j, j + pn)),
                t: StringPartType::Highlight,
            };
            let ghost prev = parts@;
            parts.push(hl);
            proof {
                assert(part_views(parts@) =~= part_views(prev).push(
                    StringPartView {
                        s: t.subrange(j as int, j + pn),
                        t: StringPartType::Highlight,
                    },
                ));
                assert(split_spec(t, p, 0) =~= part_views(parts@) + split_spec(t, p, j + pn));
            }
            last = j + pn;
            j = j + pn;
        } else {
            proof {
                assert(next_match(t, p, j as int) == next_match(t, p, j + 1));
            }
            j = j + 1;
        }
    }
    proof {
        assert(next_match(t, p, j as int) == t.len());
    }
    if last < tn {
        let tail = StringPart {
            s: String::from_str(text.substring_char(last, tn)),
            t: StringPartType::Normal,
        };
        let ghost prev = parts@;
        parts.push(tail);
        proof {
            assert(part_views(parts@) =~= part_views(prev).push(
                StringPartView { s: t.subrange(last as int, tn as int), t: StringPartType::Normal },
            ));
            assert(split_spec(t, p, 0) =~= part_views(parts@));
        }
    } else {
        proof {
            assert(split_spec(t, p, last as int) =~= Seq::<StringPartView>::empty());
            assert(split_spec(t, p, 0) =~= part_views(parts@));
        }
    }
    parts
}

} // verus!
