//! The regular expressions of the corpus builder, and the calls into the
//! `regex` crate that apply them.

use vstd::prelude::*;
use crate::text::{drop_while, is_white_space};

verus! {

/// Runs of spaces and tabs.
pub const SPACE_RUNS: &'static str = "[ \t]+";

/// A line break with the spaces around it.
pub const PADDED_LINE_BREAK: &'static str = " *\n *";

/// Three or more line breaks in a row.
pub const BLANK_LINE_RUNS: &'static str = "\n{3,}";

/// Runs of characters other than lower-case ASCII letters and digits.
pub const NON_ALNUM_RUNS: &'static str = "[^a-z0-9]+";

/// The "the adventure of" lead of a story title.
pub const ADVENTURE_PREFIX: &'static str = "^the adventure of\\s+";

/// The `<title>` element of an XHTML document, its content captured.
pub const TITLE_ELEMENT: &'static str = "(?is)<title\\b[^>]*>(.*?)</title>";

/// A markup tag.
pub const MARKUP_TAG: &'static str = "<[^>]+>";

/// A leading Roman chapter numeral followed by a colon.
pub const ROMAN_LEAD: &'static str = "(?i)^\\s*[IVXLCDM]+\\.?\\s*:\\s*";

/// `chapter-PART` or `chapter-PART-CHAPTER` in a file stem.
pub const CHAPTER_NUMBERS: &'static str = "(?i)chapter-(\\d+)(?:-(\\d+))?";

/// Whether `regex::Regex::new` accepts `pattern`.
pub uninterp spec fn regex_compiles(pattern: Seq<char>) -> bool;

/// What `regex::Regex::replace_all` gives for `haystack` and `replacement`,
/// with the regex built from `pattern`.
pub uninterp spec fn regex_replace_all_result(
    pattern: Seq<char>,
    haystack: Seq<char>,
    replacement: Seq<char>,
) -> Seq<char>;

/// What `regex::Regex::replace` (first match only) gives for `haystack` and
/// `replacement`, with the regex built from `pattern`.
pub uninterp spec fn regex_replace_first_result(
    pattern: Seq<char>,
    haystack: Seq<char>,
    replacement: Seq<char>,
) -> Seq<char>;

/// The text of capture group `group` in the first match of `pattern` in
/// `haystack`: `None` where nothing matches, `Some(None)` where the group
/// took no part in the match.
pub uninterp spec fn regex_capture_group_result(
    pattern: Seq<char>,
    haystack: Seq<char>,
    group: nat,
) -> Option<Option<Seq<char>>>;

/// `c` is a lower-case ASCII letter or an ASCII digit.
pub open spec fn is_lower_alnum(c: char) -> bool {
    (97 <= c as u32 && c as u32 <= 122) || (48 <= c as u32 && c as u32 <= 57)
}

/// `c` is a space or a tab.
pub open spec fn is_space_or_tab(c: char) -> bool {
    c == ' ' || c == '\t'
}

/// `s` with every maximal run of characters satisfying `p` replaced by
/// `rep`; `in_run` tells that such a run has already been replaced.
pub open spec fn runs_replaced_from(
    s: Seq<char>,
    p: spec_fn(char) -> bool,
    rep: Seq<char>,
    in_run: bool,
) -> Seq<char>
    decreases s.len(),
{
    if s.len() == 0 {
        seq![]
    } else if p(s[0]) {
        (if in_run {
            seq![]
        } else {
            rep
        }) + runs_replaced_from(s.drop_first(), p, rep, true)
    } else {
        seq![s[0]] + runs_replaced_from(s.drop_first(), p, rep, false)
    }
}

/// `s` with every maximal run of characters satisfying `p` replaced by `rep`:
/// what `replace_all` does with the regex `[…]+` of that class.
pub open spec fn runs_replaced(s: Seq<char>, p: spec_fn(char) -> bool, rep: Seq<char>) -> Seq<
    char,
> {
    runs_replaced_from(s, p, rep, false)
}

/// `s` without the spaces next to a line break: each run of spaces that
/// comes right before or right after a line feed goes; `after_break` tells
/// that the last character kept was a line feed.
pub open spec fn line_breaks_unpadded(s: Seq<char>, after_break: bool) -> Seq<char>
    decreases s.len(),
{
    if s.len() == 0 {
        seq![]
    } else if s[0] == '\n' {
        seq!['\n'] + line_breaks_unpadded(s.drop_first(), true)
    } else if s[0] == ' ' && (after_break || crate::text::drop_while(s, |c: char| c == ' ').len() > 0
        && crate::text::drop_while(s, |c: char| c == ' ')[0] == '\n') {
        line_breaks_unpadded(s.drop_first(), after_break)
    } else {
        seq![s[0]] + line_breaks_unpadded(s.drop_first(), false)
    }
}

/// `s` with every run of three or more line feeds cut to two; `n` is the
/// number of line feeds kept right before `s`.
pub open spec fn blank_lines_capped(s: Seq<char>, n: nat) -> Seq<char>
    decreases s.len(),
{
    if s.len() == 0 {
        seq![]
    } else if s[0] == '\n' {
        if n < 2 {
            seq!['\n'] + blank_lines_capped(s.drop_first(), n + 1)
        } else {
            blank_lines_capped(s.drop_first(), n)
        }
    } else {
        seq![s[0]] + blank_lines_capped(s.drop_first(), 0)
    }
}

/// The words "the adventure of", in lower case.
pub open spec fn adventure_words() -> Seq<char> {
    seq!['t', 'h', 'e', ' ', 'a', 'd', 'v', 'e', 'n', 't', 'u', 'r', 'e', ' ', 'o', 'f']
}

/// `s` starts with "the adventure of" and white space: what the regex
/// `^the adventure of\s+` matches.
pub open spec fn has_adventure_lead(s: Seq<char>) -> bool {
    s.len() > adventure_words().len() && s.take(adventure_words().len() as int)
        == adventure_words() && is_white_space(s[adventure_words().len() as int])
}

/// `s` with a leading "the adventure of" and all the white space after it
/// replaced by `rep`, where `s` starts so; `s` itself otherwise.
pub open spec fn adventure_lead_replaced(s: Seq<char>, rep: Seq<char>) -> Seq<char> {
    if has_adventure_lead(s) {
        rep + drop_while(s.skip(adventure_words().len() as int), |c: char| is_white_space(c))
    } else {
        s
    }
}

/// Every pattern that the library applies is accepted by `regex::Regex::new`.
pub open spec fn patterns_compile() -> bool {
    &&& regex_compiles(SPACE_RUNS@)
    &&& regex_compiles(PADDED_LINE_BREAK@)
    &&& regex_compiles(BLANK_LINE_RUNS@)
    &&& regex_compiles(NON_ALNUM_RUNS@)
    &&& regex_compiles(ADVENTURE_PREFIX@)
    &&& regex_compiles(TITLE_ELEMENT@)
    &&& regex_compiles(MARKUP_TAG@)
    &&& regex_compiles(ROMAN_LEAD@)
    &&& regex_compiles(CHAPTER_NUMBERS@)
}

/// Calls `regex::Regex::new(pattern)` and tells whether it succeeded; the
/// contract claims only that the answer is the (deterministic) verdict of
/// `Regex::new` on that pattern.
#[verifier::external_body]
fn regex_accepts(pattern: &str) -> (b: bool)
    ensures
        b == regex_compiles(pattern@),
{
    regex::Regex::new(pattern).is_ok()
}

/// Builds the regex with `regex::Regex::new(pattern)` and calls
/// `Regex::replace_all(haystack, replacement)`; the contract claims that the
/// result is the named result of that call. `requires` leaves out the
/// patterns that `Regex::new` refuses, on which the `unwrap` would panic.
/// For the library's fixed patterns it also states what the regex syntax
/// documentation gives: `replace_all` replaces the leftmost-first,
/// non-overlapping matches, `+` and `{3,}` are greedy, a class `[…]` or
/// `[^…]` matches one character, `^` without the `m` flag matches only at
/// the start of the haystack, `\s` is Unicode `White_Space`, and a
/// replacement without `$` is inserted as it is.
#[verifier::external_body]
pub(crate) fn regex_replace_all(pattern: &str, haystack: &str, replacement: &str) -> (s: String)
    requires
        regex_compiles(pattern@),
    ensures
        s@ == regex_replace_all_result(pattern@, haystack@, replacement@),
        pattern@ == SPACE_RUNS@ && !replacement@.contains('\u{24}') ==> s@ == runs_replaced(
            haystack@,
            |c: char| is_space_or_tab(c),
            replacement@,
        ),
        pattern@ == NON_ALNUM_RUNS@ && !replacement@.contains('\u{24}') ==> s@ == runs_replaced(
            haystack@,
            |c: char| !is_lower_alnum(c),
            replacement@,
        ),
        pattern@ == PADDED_LINE_BREAK@ && replacement@ == seq!['\n'] ==> s@ == line_breaks_unpadded(
            haystack@,
            false,
        ),
        pattern@ == BLANK_LINE_RUNS@ && replacement@ == seq!['\n', '\n'] ==> s@
            == blank_lines_capped(haystack@, 0),
        pattern@ == ADVENTURE_PREFIX@ && !replacement@.contains('\u{24}') ==> s@
            == adventure_lead_replaced(haystack@, replacement@),
{
    regex::Regex::new(pattern).unwrap().replace_all(haystack, replacement).into_owned()
}

/// Builds the regex with `regex::Regex::new(pattern)` and calls
/// `Regex::replace(haystack, replacement)`, which replaces the first match
/// only; the contract claims that the result is the named result of that call.
#[verifier::external_body]
pub(crate) fn regex_replace_first(pattern: &str, haystack: &str, replacement: &str) -> (s: String)
    requires
        regex_compiles(pattern@),
    ensures
        s@ == regex_replace_first_result(pattern@, haystack@, replacement@),
{
    regex::Regex::new(pattern).unwrap().replace(haystack, replacement).into_owned()
}

/// Builds the regex with `regex::Regex::new(pattern)`, calls
/// `Regex::captures(haystack)` and then `Captures::get(group)`; the contract
/// claims that the outcome is the named result of these calls.
#[verifier::external_body]
pub(crate) fn regex_capture_group(pattern: &str, haystack: &str, group: usize) -> (r: Option<
    Option<String>,
>)
    requires
        regex_compiles(pattern@),
    ensures
        r is None <==> regex_capture_group_result(pattern@, haystack@, group as nat) is None,
        r == Some(None::<String>) <==> regex_capture_group_result(pattern@, haystack@, group as nat)
            == Some(None::<Seq<char>>),
        r matches Some(Some(s)) ==> regex_capture_group_result(pattern@, haystack@, group as nat)
            == Some(Some(s@)),
{
    match regex::Regex::new(pattern).unwrap().captures(haystack) {
        Some(caps) => match caps.get(group) {
            Some(m) => Some(Some(m.as_str().to_string())),
            None => Some(None),
        },
        None => None,
    }
}

/// Whether `regex::Regex::new` accepts every pattern of the library.
pub fn check_patterns() -> (b: bool)
    ensures
        b == patterns_compile(),
{
    regex_accepts(SPACE_RUNS) && regex_accepts(PADDED_LINE_BREAK) && regex_accepts(
        BLANK_LINE_RUNS,
    ) && regex_accepts(NON_ALNUM_RUNS) && regex_accepts(ADVENTURE_PREFIX) && regex_accepts(
        TITLE_ELEMENT,
    ) && regex_accepts(MARKUP_TAG) && regex_accepts(ROMAN_LEAD) && regex_accepts(CHAPTER_NUMBERS)
}

} // verus!
