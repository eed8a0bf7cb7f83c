//! Text clean-up: normalization of extracted prose, slugs and title keys.

use vstd::prelude::*;
use crate::pattern::{
    adventure_lead_replaced, adventure_words, blank_lines_capped, has_adventure_lead,
    runs_replaced_from, is_lower_alnum, is_space_or_tab,
    line_breaks_unpadded, patterns_compile, regex_replace_all, runs_replaced, ADVENTURE_PREFIX,
    BLANK_LINE_RUNS, NON_ALNUM_RUNS, PADDED_LINE_BREAK, SPACE_RUNS,
};
use crate::text::{
    chars_of, drop_while, drop_while_end, is_white_space, string_of, trim, trim_by, trim_chars,
};
use crate::spacing::{
    all_chars, lemma_capped_chars, lemma_capped_pairs, lemma_runs_chars, lemma_runs_keep,
    lemma_runs_single, lemma_subrange_keeps, lemma_unpadded_chars, lemma_unpadded_pairs, no_pair,
    lemma_capped_fixed, lemma_runs_fixed, lemma_runs_none, lemma_runs_removed_drop,
    lemma_unpadded_fixed,
    no_triple_break, occurs,
};
use crate::unicode::{
    alphabetic, ascii_folding_holds, ascii_lower_char, ascii_lowered, ascii_upper_char,
    ascii_uppered, is_alphabetic, is_ascii_lower, is_ascii_text, is_ascii_upper, lowercase_of, nfkc, nfkc_of, nfkd,
    nfkd_of, to_lowercase,
};

verus! {

/// Every CRLF pair, and every other CR, becomes a line feed.
pub open spec fn unify_line_endings(s: Seq<char>) -> Seq<char>
    decreases s.len(),
{
    if s.len() == 0 {
        seq![]
    } else if s.len() >= 2 && s[0] == '\r' && s[1] == '\n' {
        seq!['\n'] + unify_line_endings(s.skip(2))
    } else if s[0] == '\r' {
        seq!['\n'] + unify_line_endings(s.drop_first())
    } else {
        seq![s[0]] + unify_line_endings(s.drop_first())
    }
}

/// Unicode general category `Cc` (`char::is_control`).
pub open spec fn is_control(c: char) -> bool {
    (c as u32) <= 0x1F || (0x7F <= (c as u32) && (c as u32) <= 0x9F)
}

/// The zero-width characters that prose never keeps.
pub open spec fn is_zero_width(c: char) -> bool {
    c == '\u{200B}' || c == '\u{200C}' || c == '\u{200D}' || c == '\u{2060}' || c == '\u{FEFF}'
}

/// Whether normalization keeps `c`: line feeds and tabs are kept, zero-width
/// characters and other control characters are dropped.
pub open spec fn kept_in_prose(c: char) -> bool {
    if c == '\n' || c == '\t' {
        true
    } else if is_zero_width(c) {
        false
    } else if is_control(c) && c != '\u{A0}' {
        false
    } else {
        true
    }
}

/// The characters of `s` that normalization keeps.
pub open spec fn keep_prose_chars(s: Seq<char>) -> Seq<char>
    decreases s.len(),
{
    if s.len() == 0 {
        seq![]
    } else {
        (if kept_in_prose(s[0]) {
            seq![s[0]]
        } else {
            seq![]
        }) + keep_prose_chars(s.drop_first())
    }
}

/// No-break spaces become spaces and soft hyphens go.
pub open spec fn tidy_spaces(s: Seq<char>) -> Seq<char>
    decreases s.len(),
{
    if s.len() == 0 {
        seq![]
    } else {
        (if s[0] == '\u{A0}' {
            seq![' ']
        } else if s[0] == '\u{AD}' {
            seq![]
        } else {
            seq![s[0]]
        }) + tidy_spaces(s.drop_first())
    }
}

/// Invisible characters dropped, then no-break spaces and soft hyphens tidied.
pub open spec fn visible_text(s: Seq<char>) -> Seq<char> {
    tidy_spaces(keep_prose_chars(s))
}

/// The text before the spacing rules: line endings unified, invisible
/// characters dropped and spaces tidied, NFKC applied (after the removals,
/// so that they do not stand between characters that compose), and the
/// removals applied again to what NFKC gives.
pub open spec fn cleaned_text(text: Seq<char>) -> Seq<char> {
    visible_text(nfkc_of(visible_text(unify_line_endings(text))))
}

/// The characters that normalized text can hold: line feeds, and characters
/// that are neither tabs, nor control, nor zero-width characters, nor
/// no-break spaces, nor soft hyphens.
pub open spec fn is_prose_char(c: char) -> bool {
    c == '\n' || (c != '\t' && !is_control(c) && !is_zero_width(c) && c != '\u{A0}' && c
        != '\u{AD}')
}

/// What `normalize_text` gives: the cleaned text with runs of spaces and tabs
/// collapsed, spaces around line breaks removed, runs of three or more line
/// breaks cut to two, and white space trimmed at both ends.
pub open spec fn normalized(text: Seq<char>) -> Seq<char> {
    spacing_fixed(cleaned_text(text))
}

/// The spacing rules: runs of spaces and tabs collapsed to one space, spaces
/// next to line breaks removed, runs of three or more line breaks cut to two,
/// white space trimmed at both ends.
pub open spec fn spacing_fixed(t: Seq<char>) -> Seq<char> {
    let a = runs_replaced(t, |c: char| is_space_or_tab(c), seq![' ']);
    let b = line_breaks_unpadded(a, false);
    let c = blank_lines_capped(b, 0);
    trim(c)
}

/// Whether slugs and title keys keep `c`: letters only where they are ASCII.
pub open spec fn kept_in_key(c: char) -> bool {
    !alphabetic(c) || (c as u32) < 128
}

/// The characters of `s` that slugs and title keys keep.
pub open spec fn keep_key_chars(s: Seq<char>) -> Seq<char>
    decreases s.len(),
{
    if s.len() == 0 {
        seq![]
    } else {
        (if kept_in_key(s[0]) {
            seq![s[0]]
        } else {
            seq![]
        }) + keep_key_chars(s.drop_first())
    }
}

/// Right single quotation marks become ASCII apostrophes.
pub open spec fn straighten_quotes(s: Seq<char>) -> Seq<char>
    decreases s.len(),
{
    if s.len() == 0 {
        seq![]
    } else {
        seq![if s[0] == '\u{2019}' { '\'' } else { s[0] }] + straighten_quotes(s.drop_first())
    }
}

/// The folded form of a title that slugs and title keys start from: NFKD,
/// non-ASCII letters dropped, lower-cased, quotes straightened.
pub open spec fn folded_title(text: Seq<char>) -> Seq<char> {
    straighten_quotes(lowercase_of(keep_key_chars(nfkd_of(text))))
}

/// The hyphen.
pub open spec fn is_hyphen(c: char) -> bool {
    c == '-'
}

/// What `slugify` gives: the folded title with every run of characters other
/// than `a-z0-9` replaced by one hyphen, and hyphens stripped at both ends.
pub open spec fn slug(text: Seq<char>) -> Seq<char> {
    trim_by(
        runs_replaced(folded_title(text), |c: char| !is_lower_alnum(c), seq!['-']),
        |c: char| is_hyphen(c),
    )
}

/// What `title_key` gives: the folded title without a leading "the adventure
/// of" and without any character other than `a-z0-9`.
pub open spec fn key_of_title(text: Seq<char>) -> Seq<char> {
    runs_replaced(
        adventure_lead_replaced(folded_title(text), seq![]),
        |c: char| !is_lower_alnum(c),
        seq![],
    )
}

/// Normalized text neither starts nor ends with white space.
pub proof fn lemma_normalized_ends(text: Seq<char>)
    ensures
        normalized(text).len() > 0 ==> !is_white_space(normalized(text)[0]) && !is_white_space(
            normalized(text).last(),
        ),
{
    let a = runs_replaced(cleaned_text(text), |c: char| is_space_or_tab(c), seq![' ']);
    let b = line_breaks_unpadded(a, false);
    let c = blank_lines_capped(b, 0);
    crate::text::lemma_trim_by(c, |x: char| is_white_space(x));
}

proof fn lemma_keep_chars(s: Seq<char>)
    ensures
        all_chars(keep_prose_chars(s), |c: char| kept_in_prose(c)),
    decreases s.len(),
{
    if s.len() > 0 {
        lemma_keep_chars(s.drop_first());
        let tail = keep_prose_chars(s.drop_first());
        let o = keep_prose_chars(s);
        assert forall|i: int| 0 <= i < o.len() implies kept_in_prose(#[trigger] o[i]) by {
            if kept_in_prose(s[0]) {
                if i > 0 {
                    assert(o[i] == tail[i - 1]);
                }
            } else {
                assert(o[i] == tail[i]);
            }
        }
    }
}

proof fn lemma_tidy_chars(s: Seq<char>)
    requires
        all_chars(s, |c: char| kept_in_prose(c)),
    ensures
        all_chars(tidy_spaces(s), |c: char| c == '\t' || is_prose_char(c)),
    decreases s.len(),
{
    if s.len() > 0 {
        let rest = s.drop_first();
        assert forall|i: int| 0 <= i < rest.len() implies kept_in_prose(#[trigger] rest[i]) by {
            assert(rest[i] == s[i + 1]);
        }
        assert(kept_in_prose(s[0]));
        lemma_tidy_chars(rest);
        let tail = tidy_spaces(rest);
        let o = tidy_spaces(s);
        assert forall|i: int| 0 <= i < o.len() implies #[trigger] o[i] == '\t' || is_prose_char(o[i]) by {
            if s[0] == '\u{AD}' {
                assert(o[i] == tail[i]);
            } else if i > 0 {
                assert(o[i] == tail[i - 1]);
            }
        }
    }
}

/// The text that the spacing rules start from holds only tabs and the
/// characters of normalized text.
proof fn lemma_visible_chars(s: Seq<char>)
    ensures
        all_chars(visible_text(s), |c: char| c == '\t' || is_prose_char(c)),
{
    lemma_keep_chars(s);
    lemma_tidy_chars(keep_prose_chars(s));
}

/// The laws of the spacing rules: after runs of spaces and tabs become one
/// space, spaces next to line breaks go and blank lines are capped, trimming
/// leaves text without tabs, double spaces, spaces next to line breaks or
/// three line breaks in a row, of the same characters; it is empty exactly
/// where the text was all white space.
proof fn lemma_spacing_laws(t: Seq<char>, a: Seq<char>, b: Seq<char>, c: Seq<char>)
    requires
        all_chars(t, |x: char| x == '\t' || is_prose_char(x)),
        a == runs_replaced(t, |x: char| is_space_or_tab(x), seq![' ']),
        b == line_breaks_unpadded(a, false),
        c == blank_lines_capped(b, 0),
    ensures
        ({
            let r = trim(c);
            &&& all_chars(r, |x: char| is_prose_char(x))
            &&& no_pair(r, ' ', ' ')
            &&& no_pair(r, ' ', '\n')
            &&& no_pair(r, '\n', ' ')
            &&& no_triple_break(r)
            &&& r.len() == 0 <==> all_chars(t, |x: char| is_white_space(x))
        }),
{
    let sp = |x: char| is_space_or_tab(x);
    let q = |x: char| is_prose_char(x);
    let ws = |x: char| is_white_space(x);
    lemma_runs_chars(t, sp, seq![' '], false, q);
    lemma_runs_single(t, sp, ' ', false);
    assert forall|i: int| 0 <= i < a.len() - 1 implies !(#[trigger] a[i] == ' ' && a[i + 1] == ' ') by {
        assert(!(sp(a[i]) && sp(a[i + 1])));
    }
    lemma_unpadded_chars(a, false, q);
    lemma_unpadded_pairs(a, false);
    lemma_capped_chars(b, 0, q);
    lemma_capped_pairs(b, 0);
    crate::text::lemma_trim_by(c, ws);
    let r = trim(c);
    let (x0, y0) = choose|x0: int, y0: int|
        0 <= x0 <= y0 <= c.len() && r == c.subrange(x0, y0) && (forall|i: int|
            0 <= i < x0 ==> ws(#[trigger] c[i])) && (forall|i: int| y0 <= i < c.len() ==> ws(#[trigger] c[i]));
    lemma_subrange_keeps(c, x0, y0, q);
    if all_chars(t, ws) {
        lemma_runs_chars(t, sp, seq![' '], false, ws);
        lemma_unpadded_chars(a, false, ws);
        lemma_capped_chars(b, 0, ws);
        lemma_subrange_keeps(c, x0, y0, ws);
        if r.len() > 0 {
            assert(ws(r[0]));
        }
    } else {
        let j = choose|j: int| 0 <= j < t.len() && !ws(#[trigger] t[j]);
        let ch = t[j];
        assert(!sp(ch));
        lemma_runs_keep(t, sp, seq![' '], false);
        assert(occurs(a, ch));
        let ja = choose|i: int| 0 <= i < a.len() && #[trigger] a[i] == ch;
        assert(a[ja] != ' ');
        assert(occurs(b, ch));
        let jb = choose|i: int| 0 <= i < b.len() && #[trigger] b[i] == ch;
        assert(b[jb] != '\n');
        assert(occurs(c, ch));
        let jc = choose|i: int| 0 <= i < c.len() && #[trigger] c[i] == ch;
        assert(!ws(c[jc]));
        assert(x0 <= jc < y0);
        assert(r[jc - x0] == ch);
    }
}

fn unify_line_endings_chars(v: &Vec<char>) -> (r: Vec<char>)
    ensures
        r@ == unify_line_endings(v@),
{
    let mut r: Vec<char> = Vec::new();
    let mut i: usize = 0;
    assert(v@.skip(0) =~= v@);
    while i < v.len()
        invariant
            i <= v.len(),
            r@ + unify_line_endings(v@.skip(i as int)) == unify_line_endings(v@),
        decreases v.len() - i,
    {
        let ghost rest = v@.skip(i as int);
        if v[i] == '\r' && i + 1 < v.len() && v[i + 1] == '\n' {
            assert(rest.skip(2) =~= v@.skip(i + 2));
            r.push('\n');
            i += 2;
        } else {
            assert(rest.drop_first() =~= v@.skip(i + 1));
            if v[i] == '\r' {
                r.push('\n');
            } else {
                r.push(v[i]);
            }
            i += 1;
        }
        assert(r@ + unify_line_endings(v@.skip(i as int)) =~= unify_line_endings(v@));
    }
    assert(v@.skip(i as int) =~= Seq::<char>::empty());
    r
}

fn char_is_control(c: char) -> (b: bool)
    ensures
        b == is_control(c),
{
    (c as u32) <= 0x1F || (0x7F <= (c as u32) && (c as u32) <= 0x9F)
}

fn char_kept_in_prose(c: char) -> (b: bool)
    ensures
        b == kept_in_prose(c),
{
    if c == '\n' || c == '\t' {
        true
    } else if c == '\u{200B}' || c == '\u{200C}' || c == '\u{200D}' || c == '\u{2060}' || c
        == '\u{FEFF}' {
        false
    } else if char_is_control(c) && c != '\u{A0}' {
        false
    } else {
        true
    }
}

fn keep_prose_chars_exec(v: &Vec<char>) -> (r: Vec<char>)
    ensures
        r@ == keep_prose_chars(v@),
{
    let mut r: Vec<char> = Vec::new();
    let mut i: usize = 0;
    assert(v@.skip(0) =~= v@);
    while i < v.len()
        invariant
            i <= v.len(),
            r@ + keep_prose_chars(v@.skip(i as int)) == keep_prose_chars(v@),
        decreases v.len() - i,
    {
        assert(v@.skip(i as int).drop_first() =~= v@.skip(i + 1));
        if char_kept_in_prose(v[i]) {
            r.push(v[i]);
        }
        i += 1;
        assert(r@ + keep_prose_chars(v@.skip(i as int)) =~= keep_prose_chars(v@));
    }
    assert(v@.skip(i as int) =~= Seq::<char>::empty());
    r
}

fn tidy_spaces_exec(v: &Vec<char>) -> (r: Vec<char>)
    ensures
        r@ == tidy_spaces(v@),
{
    let mut r: Vec<char> = Vec::new();
    let mut i: usize = 0;
    assert(v@.skip(0) =~= v@);
    while i < v.len()
        invariant
            i <= v.len(),
            r@ + tidy_spaces(v@.skip(i as int)) == tidy_spaces(v@),
        decreases v.len() - i,
    {
        assert(v@.skip(i as int).drop_first() =~= v@.skip(i + 1));
        if v[i] == '\u{A0}' {
            r.push(' ');
        } else if v[i] != '\u{AD}' {
            r.push(v[i]);
        }
        i += 1;
        assert(r@ + tidy_spaces(v@.skip(i as int)) =~= tidy_spaces(v@));
    }
    assert(v@.skip(i as int) =~= Seq::<char>::empty());
    r
}

fn keep_key_chars_exec(v: &Vec<char>) -> (r: Vec<char>)
    ensures
        r@ == keep_key_chars(v@),
{
    let mut r: Vec<char> = Vec::new();
    let mut i: usize = 0;
    assert(v@.skip(0) =~= v@);
    while i < v.len()
        invariant
            i <= v.len(),
            r@ + keep_key_chars(v@.skip(i as int)) == keep_key_chars(v@),
        decreases v.len() - i,
    {
        assert(v@.skip(i as int).drop_first() =~= v@.skip(i + 1));
        let c = v[i];
        if !is_alphabetic(c) || (c as u32) < 128 {
            r.push(c);
        }
        i += 1;
        assert(r@ + keep_key_chars(v@.skip(i as int)) =~= keep_key_chars(v@));
    }
    assert(v@.skip(i as int) =~= Seq::<char>::empty());
    r
}

fn straighten_quotes_exec(v: &Vec<char>) -> (r: Vec<char>)
    ensures
        r@ == straighten_quotes(v@),
{
    let mut r: Vec<char> = Vec::new();
    let mut i: usize = 0;
    assert(v@.skip(0) =~= v@);
    while i < v.len()
        invariant
            i <= v.len(),
            r@ + straighten_quotes(v@.skip(i as int)) == straighten_quotes(v@),
        decreases v.len() - i,
    {
        assert(v@.skip(i as int).drop_first() =~= v@.skip(i + 1));
        if v[i] == '\u{2019}' {
            r.push('\'');
        } else {
            r.push(v[i]);
        }
        i += 1;
        assert(r@ + straighten_quotes(v@.skip(i as int)) =~= straighten_quotes(v@));
    }
    assert(v@.skip(i as int) =~= Seq::<char>::empty());
    r
}

fn strip_hyphens(v: &Vec<char>) -> (r: Vec<char>)
    ensures
        r@ == trim_by(v@, |x: char| is_hyphen(x)),
{
    let n = v.len();
    let mut i: usize = 0;
    assert(v@.subrange(0, n as int) == v@);
    while i < n && v[i] == '-'
        invariant
            i <= n == v.len(),
            drop_while(v@, |x: char| is_hyphen(x)) == drop_while(
                v@.subrange(i as int, n as int),
                |x: char| is_hyphen(x),
            ),
        decreases n - i,
    {
        assert(v@.subrange(i as int, n as int).drop_first() == v@.subrange(i + 1, n as int));
        i += 1;
    }
    let ghost t = v@.subrange(i as int, n as int);
    assert(drop_while(v@, |x: char| is_hyphen(x)) == t);
    let mut j: usize = n;
    while j > i && v[j - 1] == '-'
        invariant
            i <= j <= n == v.len(),
            drop_while_end(t, |x: char| is_hyphen(x)) == drop_while_end(
                v@.subrange(i as int, j as int),
                |x: char| is_hyphen(x),
            ),
        decreases j,
    {
        assert(v@.subrange(i as int, j as int).drop_last() == v@.subrange(i as int, j - 1));
        j -= 1;
    }
    crate::text::slice_chars(v, i, j)
}

/// Normalizes Unicode and cleans up typography and spacing: the result is
/// `normalized(text)`, and it neither starts nor ends with white space.
pub fn normalize_text(text: &str) -> (r: String)
    requires
        patterns_compile(),
    ensures
        r@ == normalized(text@),
        r@.len() > 0 ==> !is_white_space(r@[0]) && !is_white_space(r@.last()),
        all_chars(r@, |c: char| is_prose_char(c)),
        no_pair(r@, ' ', ' '),
        no_pair(r@, ' ', '\n'),
        no_pair(r@, '\n', ' '),
        no_triple_break(r@),
        r@.len() == 0 <==> all_chars(cleaned_text(text@), |c: char| is_white_space(c)),
{
    let v = chars_of(text);
    let unified = unify_line_endings_chars(&v);
    let visible = string_of(&tidy_spaces_exec(&keep_prose_chars_exec(&unified)));
    let composed = nfkc(visible.as_str());
    let kept = keep_prose_chars_exec(&chars_of(composed.as_str()));
    let tidied = string_of(&tidy_spaces_exec(&kept));
    let a = regex_replace_all(SPACE_RUNS, tidied.as_str(), " ");
    let b = regex_replace_all(PADDED_LINE_BREAK, a.as_str(), "\n");
    let c = regex_replace_all(BLANK_LINE_RUNS, b.as_str(), "\n\n");
    let trimmed = trim_chars(&chars_of(c.as_str()));
    proof {
        crate::text::lemma_trim_by(c@, |x: char| is_white_space(x));
        reveal_strlit(" ");
        reveal_strlit("\n");
        reveal_strlit("\n\n");
        assert(!" "@.contains('\u{24}'));
        assert("\n"@ =~= seq!['\n']);
        assert("\n\n"@ =~= seq!['\n', '\n']);
        assert(" "@ =~= seq![' ']);
        lemma_visible_chars(composed@);
        lemma_spacing_laws(tidied@, a@, b@, c@);
    }
    string_of(&trimmed)
}

fn folded_title_exec(text: &str) -> (r: String)
    ensures
        r@ == folded_title(text@),
{
    let decomposed = nfkd(text);
    let kept = string_of(&keep_key_chars_exec(&chars_of(decomposed.as_str())));
    let lower = to_lowercase(kept.as_str());
    string_of(&straighten_quotes_exec(&chars_of(lower.as_str())))
}

/// The URL slug of a title: `slug(text)`, which neither starts nor ends with
/// a hyphen.
pub fn slugify(text: &str) -> (r: String)
    requires
        patterns_compile(),
    ensures
        r@ == slug(text@),
        r@.len() > 0 ==> r@[0] != '-' && r@.last() != '-',
        all_chars(r@, |c: char| is_lower_alnum(c) || c == '-'),
        no_pair(r@, '-', '-'),
{
    let folded = folded_title_exec(text);
    let dashed = regex_replace_all(NON_ALNUM_RUNS, folded.as_str(), "-");
    let stripped = strip_hyphens(&chars_of(dashed.as_str()));
    proof {
        reveal_strlit("-");
        assert("-"@ =~= seq!['-']);
        assert(!"-"@.contains('\u{24}'));
        lemma_slug_shape(text@);
    }
    string_of(&stripped)
}

/// The key by which story titles are compared: `key_of_title(text)`.
pub fn title_key(text: &str) -> (r: String)
    requires
        patterns_compile(),
    ensures
        r@ == key_of_title(text@),
        all_chars(r@, |c: char| is_lower_alnum(c)),
{
    let folded = folded_title_exec(text);
    let without_lead = regex_replace_all(ADVENTURE_PREFIX, folded.as_str(), "");
    let key = regex_replace_all(NON_ALNUM_RUNS, without_lead.as_str(), "");
    proof {
        reveal_strlit("");
        assert(""@ =~= Seq::<char>::empty());
        assert(!""@.contains('\u{24}'));
        lemma_runs_chars(without_lead@, |c: char| !is_lower_alnum(c), seq![], false, |c: char| is_lower_alnum(c));
    }
    key
}

/// What normalized text is made of: no control, tab, zero-width, no-break
/// space or soft hyphen characters, no double spaces, no spaces next to line
/// breaks, no three line breaks in a row, no white space at either end.
proof fn lemma_normalized_shape(text: Seq<char>)
    ensures
        ({
            let r = normalized(text);
            &&& all_chars(r, |c: char| is_prose_char(c))
            &&& no_pair(r, ' ', ' ')
            &&& no_pair(r, ' ', '\n')
            &&& no_pair(r, '\n', ' ')
            &&& no_triple_break(r)
            &&& r.len() > 0 ==> !is_white_space(r[0]) && !is_white_space(r.last())
        }),
{
    let t = cleaned_text(text);
    lemma_visible_chars(nfkc_of(visible_text(unify_line_endings(text))));
    let a = runs_replaced(t, |c: char| is_space_or_tab(c), seq![' ']);
    let b = line_breaks_unpadded(a, false);
    let c = blank_lines_capped(b, 0);
    lemma_spacing_laws(t, a, b, c);
    lemma_normalized_ends(text);
}

proof fn lemma_unify_fixed(s: Seq<char>)
    requires
        forall|i: int| 0 <= i < s.len() ==> #[trigger] s[i] != '\r',
    ensures
        unify_line_endings(s) == s,
    decreases s.len(),
{
    if s.len() > 0 {
        let t = s.drop_first();
        assert(s[0] != '\r');
        assert forall|i: int| 0 <= i < t.len() implies #[trigger] t[i] != '\r' by {
            assert(t[i] == s[i + 1]);
        }
        lemma_unify_fixed(t);
        assert(seq![s[0]] + t =~= s);
    }
}

proof fn lemma_keep_prose_fixed(s: Seq<char>)
    requires
        all_chars(s, |c: char| kept_in_prose(c)),
    ensures
        keep_prose_chars(s) == s,
    decreases s.len(),
{
    if s.len() > 0 {
        let t = s.drop_first();
        assert(kept_in_prose(s[0]));
        assert forall|i: int| 0 <= i < t.len() implies kept_in_prose(#[trigger] t[i]) by {
            assert(t[i] == s[i + 1]);
        }
        lemma_keep_prose_fixed(t);
        assert(seq![s[0]] + t =~= s);
    }
}

proof fn lemma_tidy_fixed(s: Seq<char>)
    requires
        forall|i: int| 0 <= i < s.len() ==> #[trigger] s[i] != '\u{A0}' && s[i] != '\u{AD}',
    ensures
        tidy_spaces(s) == s,
    decreases s.len(),
{
    if s.len() > 0 {
        let t = s.drop_first();
        assert(s[0] != '\u{A0}' && s[0] != '\u{AD}');
        assert forall|i: int| 0 <= i < t.len() implies #[trigger] t[i] != '\u{A0}' && t[i] != '\u{AD}' by {
            assert(t[i] == s[i + 1]);
        }
        lemma_tidy_fixed(t);
        assert(seq![s[0]] + t =~= s);
    }
}

/// Normalizing normalized text gives it back, wherever NFKC leaves that
/// text as it is: every later step of normalization finds nothing to change.
pub proof fn lemma_normalize_idempotent(text: Seq<char>)
    requires
        nfkc_of(normalized(text)) == normalized(text),
    ensures
        normalized(normalized(text)) == normalized(text),
{
    let r = normalized(text);
    lemma_normalized_shape(text);
    assert forall|i: int| 0 <= i < r.len() implies #[trigger] r[i] != '\r' && kept_in_prose(r[i])
        && r[i] != '\u{A0}' && r[i] != '\u{AD}' && r[i] != '\t' by {
        assert(is_prose_char(r[i]));
    }
    lemma_unify_fixed(r);
    lemma_keep_prose_fixed(r);
    lemma_tidy_fixed(r);
    assert(visible_text(r) == r);
    assert(cleaned_text(r) == r);
    let sp = |c: char| is_space_or_tab(c);
    assert forall|i: int| 0 <= i < r.len() - 1 implies !(sp(#[trigger] r[i]) && sp(r[i + 1])) by {
        assert(!(r[i] == ' ' && r[i + 1] == ' '));
    }
    lemma_runs_fixed(r, sp, ' ', false);
    lemma_unpadded_fixed(r, false);
    lemma_capped_fixed(r, 0);
    crate::text::lemma_trim_by_fixed(r, |c: char| is_white_space(c));
}

proof fn lemma_keep_key_ascii(s: Seq<char>)
    requires
        is_ascii_text(s),
    ensures
        keep_key_chars(s) == s,
    decreases s.len(),
{
    if s.len() > 0 {
        let t = s.drop_first();
        assert((s[0] as u32) < 128);
        assert forall|i: int| 0 <= i < t.len() implies (#[trigger] t[i] as u32) < 128 by {
            assert(t[i] == s[i + 1]);
        }
        lemma_keep_key_ascii(t);
        assert(seq![s[0]] + t =~= s);
    }
}

proof fn lemma_straighten_ascii(s: Seq<char>)
    requires
        is_ascii_text(s),
    ensures
        straighten_quotes(s) == s,
    decreases s.len(),
{
    if s.len() > 0 {
        let t = s.drop_first();
        assert((s[0] as u32) < 128);
        assert forall|i: int| 0 <= i < t.len() implies (#[trigger] t[i] as u32) < 128 by {
            assert(t[i] == s[i + 1]);
        }
        lemma_straighten_ascii(t);
        assert(seq![s[0]] + t =~= s);
    }
}

/// The folded form of ASCII text is its ASCII lower-case form.
proof fn lemma_folded_ascii(s: Seq<char>)
    requires
        ascii_folding_holds(),
        is_ascii_text(s),
    ensures
        folded_title(s) == ascii_lowered(s),
        is_ascii_text(ascii_lowered(s)),
{
    assert(nfkd_of(s) == s);
    lemma_keep_key_ascii(s);
    assert(lowercase_of(s) == ascii_lowered(s));
    let l = ascii_lowered(s);
    assert forall|i: int| 0 <= i < l.len() implies (#[trigger] l[i] as u32) < 128 by {
        assert(l[i] == ascii_lower_char(s[i]));
        assert((s[i] as u32) < 128);
    }
    lemma_straighten_ascii(l);
}

/// ASCII text without upper-case letters is its own ASCII lower-case form.
proof fn lemma_lowered_fixed(s: Seq<char>)
    requires
        forall|i: int| 0 <= i < s.len() ==> !is_ascii_upper(#[trigger] s[i]),
    ensures
        ascii_lowered(s) == s,
{
    assert(ascii_lowered(s) =~= s);
}

/// What a slug is made of: lower-case ASCII letters, digits and single
/// hyphens, with no hyphen at either end.
proof fn lemma_slug_shape(text: Seq<char>)
    ensures
        ({
            let r = slug(text);
            &&& r.len() > 0 ==> r[0] != '-' && r.last() != '-'
            &&& all_chars(r, |c: char| is_lower_alnum(c) || c == '-')
            &&& no_pair(r, '-', '-')
        }),
{
    let folded = folded_title(text);
    let na = |c: char| !is_lower_alnum(c);
    let q = |c: char| is_lower_alnum(c) || c == '-';
    let d = runs_replaced(folded, na, seq!['-']);
    lemma_runs_chars(folded, na, seq!['-'], false, q);
    lemma_runs_single(folded, na, '-', false);
    crate::text::lemma_trim_by(d, |x: char| is_hyphen(x));
    let (x0, y0) = choose|x0: int, y0: int|
        0 <= x0 <= y0 <= d.len() && trim_by(d, |x: char| is_hyphen(x)) == d.subrange(x0, y0)
            && (forall|i: int| 0 <= i < x0 ==> is_hyphen(#[trigger] d[i])) && (forall|i: int|
            y0 <= i < d.len() ==> is_hyphen(#[trigger] d[i]));
    lemma_subrange_keeps(d, x0, y0, q);
    let r = d.subrange(x0, y0);
    assert forall|i: int| 0 <= i < r.len() - 1 implies !(#[trigger] r[i] == '-' && r[i + 1] == '-') by {
        assert(r[i] == d[x0 + i] && r[i + 1] == d[x0 + i + 1]);
        assert(!(na(d[x0 + i]) && na(d[x0 + i + 1])));
    }
}

/// Text of lower-case ASCII letters, digits and hyphens folds to itself.
proof fn lemma_folded_key_text(r: Seq<char>)
    requires
        ascii_folding_holds(),
        all_chars(r, |c: char| is_lower_alnum(c) || c == '-'),
    ensures
        folded_title(r) == r,
{
    assert forall|i: int| 0 <= i < r.len() implies (#[trigger] r[i] as u32) < 128 && !is_ascii_upper(
        r[i],
    ) by {
        assert(is_lower_alnum(r[i]) || r[i] == '-');
    }
    lemma_folded_ascii(r);
    lemma_lowered_fixed(r);
}

/// Slugifying a slug gives it back, given how NFKD and lower-casing treat
/// ASCII text.
pub proof fn lemma_slug_idempotent(text: Seq<char>)
    requires
        ascii_folding_holds(),
    ensures
        slug(slug(text)) == slug(text),
{
    let r = slug(text);
    lemma_slug_shape(text);
    lemma_folded_key_text(r);
    let na = |c: char| !is_lower_alnum(c);
    assert forall|i: int| 0 <= i < r.len() && na(#[trigger] r[i]) implies r[i] == '-' by {
        assert(is_lower_alnum(r[i]) || r[i] == '-');
    }
    assert forall|i: int| 0 <= i < r.len() - 1 implies !(na(#[trigger] r[i]) && na(r[i + 1])) by {
        assert(is_lower_alnum(r[i]) || r[i] == '-');
        assert(is_lower_alnum(r[i + 1]) || r[i + 1] == '-');
        assert(!(r[i] == '-' && r[i + 1] == '-'));
    }
    lemma_runs_fixed(r, na, '-', false);
    crate::text::lemma_trim_by_fixed(r, |c: char| is_hyphen(c));
}

/// A title key holds lower-case ASCII letters and digits only.
proof fn lemma_key_shape(text: Seq<char>)
    ensures
        all_chars(key_of_title(text), |c: char| is_lower_alnum(c)),
{
    lemma_runs_chars(
        adventure_lead_replaced(folded_title(text), seq![]),
        |c: char| !is_lower_alnum(c),
        seq![],
        false,
        |c: char| is_lower_alnum(c),
    );
}

/// Taking the title key of a title key gives it back, given how NFKD and
/// lower-casing treat ASCII text.
pub proof fn lemma_title_key_idempotent(text: Seq<char>)
    requires
        ascii_folding_holds(),
    ensures
        key_of_title(key_of_title(text)) == key_of_title(text),
{
    let r = key_of_title(text);
    lemma_key_shape(text);
    lemma_folded_key_text(r);
    if has_adventure_lead(r) {
        assert(r.take(16)[3] == adventure_words()[3]);
        assert(is_lower_alnum(r[3]));
    }
    lemma_runs_none(r, |c: char| !is_lower_alnum(c), seq![], false);
}

/// A letter's ASCII upper-case form lower-cases to what the letter itself
/// lower-cases to.
proof fn lemma_upper_then_lower(c: char)
    requires
        (c as u32) < 128,
    ensures
        ascii_lower_char(ascii_upper_char(c)) == ascii_lower_char(c),
        (ascii_upper_char(c) as u32) < 128,
{
    if is_ascii_lower(c) {
        let u = ascii_upper_char(c);
        assert(u as u32 == (c as u32) - 32);
        assert(is_ascii_upper(u));
        assert(ascii_lower_char(u) as u32 == c as u32);
    }
}

/// Title keys ignore the case of ASCII letters: an ASCII title and its
/// upper-case form have the same key, given how NFKD and lower-casing treat
/// ASCII text.
pub proof fn lemma_title_key_ascii_case(text: Seq<char>)
    requires
        ascii_folding_holds(),
        is_ascii_text(text),
    ensures
        key_of_title(ascii_uppered(text)) == key_of_title(text),
{
    let u = ascii_uppered(text);
    assert forall|i: int| 0 <= i < u.len() implies (#[trigger] u[i] as u32) < 128 by {
        assert((text[i] as u32) < 128);
        lemma_upper_then_lower(text[i]);
    }
    lemma_folded_ascii(u);
    lemma_folded_ascii(text);
    assert forall|i: int| 0 <= i < text.len() implies #[trigger] ascii_lowered(u)[i]
        == ascii_lowered(text)[i] by {
        assert((text[i] as u32) < 128);
        lemma_upper_then_lower(text[i]);
    }
    assert(ascii_lowered(u) =~= ascii_lowered(text));
}

/// "The Adventure of " as a story title may begin.
pub open spec fn adventure_title_lead() -> Seq<char> {
    seq!['T', 'h', 'e', ' ', 'A', 'd', 'v', 'e', 'n', 't', 'u', 'r', 'e', ' ', 'o', 'f', ' ']
}

/// A title key leaves out a leading "The Adventure of ": an ASCII title has
/// the same key with that lead as without it, where the title does not
/// itself start with those words and white space (which would be taken out
/// too), given how NFKD and lower-casing treat ASCII text.
pub proof fn lemma_title_key_adventure_lead(text: Seq<char>)
    requires
        ascii_folding_holds(),
        is_ascii_text(text),
        !has_adventure_lead(ascii_lowered(text)),
    ensures
        key_of_title(adventure_title_lead() + text) == key_of_title(text),
{
    let lead = adventure_title_lead();
    let p = lead + text;
    assert forall|i: int| 0 <= i < p.len() implies (#[trigger] p[i] as u32) < 128 by {
        if i >= lead.len() {
            assert(p[i] == text[i - lead.len()]);
        }
    }
    lemma_folded_ascii(p);
    lemma_folded_ascii(text);
    let low = ascii_lowered(text);
    let f = ascii_lowered(p);
    let words = adventure_words();
    assert(ascii_lowered(lead) =~= words.push(' '));
    assert(f =~= words.push(' ') + low);
    assert(f.take(16) =~= words);
    assert(has_adventure_lead(f));
    let ws = |c: char| is_white_space(c);
    assert(f.skip(16) =~= seq![' '] + low);
    assert((seq![' '] + low).drop_first() =~= low);
    assert(drop_while(f.skip(16), ws) == drop_while(low, ws));
    assert(seq![] + drop_while(low, ws) =~= drop_while(low, ws));
    let na = |c: char| !is_lower_alnum(c);
    assert forall|c: char| #[trigger] ws(c) implies na(c) by {}
    lemma_runs_removed_drop(low, na, ws);
}

/// `c`, with a tab turned into a space.
pub open spec fn tab_as_space(c: char) -> char {
    if c == '\t' {
        ' '
    } else {
        c
    }
}

/// `s` with every tab turned into a space.
pub open spec fn tabs_as_spaces(s: Seq<char>) -> Seq<char> {
    s.map_values(|c: char| tab_as_space(c))
}

/// NFKC treats tabs as it treats spaces: neither has a decomposition and
/// neither composes with a neighbour, so turning tabs into spaces before or
/// after NFKC comes to the same.
pub open spec fn nfkc_treats_tabs_as_spaces() -> bool {
    forall|t: Seq<char>| #[trigger] nfkc_of(tabs_as_spaces(t)) == tabs_as_spaces(nfkc_of(t))
}

proof fn lemma_tabs_first(s: Seq<char>)
    requires
        s.len() > 0,
    ensures
        tabs_as_spaces(s)[0] == tab_as_space(s[0]),
        tabs_as_spaces(s).drop_first() == tabs_as_spaces(s.drop_first()),
        tabs_as_spaces(s).len() == s.len(),
{
    assert(tabs_as_spaces(s).drop_first() =~= tabs_as_spaces(s.drop_first()));
}

proof fn lemma_unify_tabs(s: Seq<char>)
    ensures
        unify_line_endings(tabs_as_spaces(s)) == tabs_as_spaces(unify_line_endings(s)),
    decreases s.len(),
{
    let m = tabs_as_spaces(s);
    if s.len() == 0 {
        assert(m =~= s);
        assert(tabs_as_spaces(unify_line_endings(s)) =~= seq![]);
    } else if s.len() >= 2 && s[0] == '\r' && s[1] == '\n' {
        assert(m[0] == '\r' && m[1] == '\n');
        assert(m.skip(2) =~= tabs_as_spaces(s.skip(2)));
        lemma_unify_tabs(s.skip(2));
        assert(tabs_as_spaces(seq!['\n'] + unify_line_endings(s.skip(2))) =~= seq!['\n']
            + tabs_as_spaces(unify_line_endings(s.skip(2))));
    } else {
        lemma_tabs_first(s);
        assert(!(m.len() >= 2 && m[0] == '\r' && m[1] == '\n'));
        lemma_unify_tabs(s.drop_first());
        let c = if s[0] == '\r' {
            '\n'
        } else {
            s[0]
        };
        assert(tabs_as_spaces(seq![c] + unify_line_endings(s.drop_first())) =~= seq![
            tab_as_space(c),
        ] + tabs_as_spaces(unify_line_endings(s.drop_first())));
    }
}

proof fn lemma_keep_prose_tabs(s: Seq<char>)
    ensures
        keep_prose_chars(tabs_as_spaces(s)) == tabs_as_spaces(keep_prose_chars(s)),
    decreases s.len(),
{
    if s.len() == 0 {
        assert(tabs_as_spaces(s) =~= s);
        assert(tabs_as_spaces(keep_prose_chars(s)) =~= seq![]);
    } else {
        lemma_tabs_first(s);
        lemma_keep_prose_tabs(s.drop_first());
        let rest = keep_prose_chars(s.drop_first());
        assert(kept_in_prose(tab_as_space(s[0])) == kept_in_prose(s[0]));
        if kept_in_prose(s[0]) {
            assert(tabs_as_spaces(seq![s[0]] + rest) =~= seq![tab_as_space(s[0])] + tabs_as_spaces(
                rest,
            ));
        } else {
            assert(seq![] + rest =~= rest);
            assert(seq![] + tabs_as_spaces(rest) =~= tabs_as_spaces(rest));
        }
    }
}

proof fn lemma_tidy_tabs(s: Seq<char>)
    ensures
        tidy_spaces(tabs_as_spaces(s)) == tabs_as_spaces(tidy_spaces(s)),
    decreases s.len(),
{
    if s.len() == 0 {
        assert(tabs_as_spaces(s) =~= s);
        assert(tabs_as_spaces(tidy_spaces(s)) =~= seq![]);
    } else {
        lemma_tabs_first(s);
        lemma_tidy_tabs(s.drop_first());
        let rest = tidy_spaces(s.drop_first());
        if s[0] == '\u{AD}' {
            assert(seq![] + rest =~= rest);
            assert(seq![] + tabs_as_spaces(rest) =~= tabs_as_spaces(rest));
        } else {
            let c = if s[0] == '\u{A0}' {
                ' '
            } else {
                s[0]
            };
            assert(tabs_as_spaces(seq![c] + rest) =~= seq![tab_as_space(c)] + tabs_as_spaces(
                rest,
            ));
        }
    }
}

proof fn lemma_space_runs_tabs(s: Seq<char>, in_run: bool)
    ensures
        runs_replaced_from(tabs_as_spaces(s), |c: char| is_space_or_tab(c), seq![' '], in_run)
            == runs_replaced_from(s, |c: char| is_space_or_tab(c), seq![' '], in_run),
    decreases s.len(),
{
    if s.len() == 0 {
        assert(tabs_as_spaces(s) =~= s);
    } else {
        lemma_tabs_first(s);
        lemma_space_runs_tabs(s.drop_first(), true);
        lemma_space_runs_tabs(s.drop_first(), false);
    }
}

proof fn lemma_all_tabs_as_spaces(text: Seq<char>)
    requires
        nfkc_treats_tabs_as_spaces(),
    ensures
        normalized(tabs_as_spaces(text)) == normalized(text),
{
    let u = unify_line_endings(text);
    lemma_unify_tabs(text);
    lemma_keep_prose_tabs(u);
    lemma_tidy_tabs(keep_prose_chars(u));
    let v = visible_text(u);
    assert(visible_text(tabs_as_spaces(u)) == tabs_as_spaces(v));
    let n = nfkc_of(v);
    assert(nfkc_of(tabs_as_spaces(v)) == tabs_as_spaces(n));
    lemma_keep_prose_tabs(n);
    lemma_tidy_tabs(keep_prose_chars(n));
    assert(cleaned_text(tabs_as_spaces(text)) == tabs_as_spaces(cleaned_text(text)));
    lemma_space_runs_tabs(cleaned_text(text), false);
}

/// Tabs count as spaces: turning every tab of a text, or any one of them,
/// into a space does not change what it normalizes to, given that NFKC
/// treats tabs as it treats spaces.
pub proof fn lemma_tabs_count_as_spaces(text: Seq<char>)
    requires
        nfkc_treats_tabs_as_spaces(),
    ensures
        normalized(tabs_as_spaces(text)) == normalized(text),
        forall|i: int|
            0 <= i < text.len() && #[trigger] text[i] == '\t' ==> normalized(text.update(i, ' '))
                == normalized(text),
{
    lemma_all_tabs_as_spaces(text);
    assert forall|i: int| 0 <= i < text.len() && #[trigger] text[i] == '\t' implies normalized(
        text.update(i, ' '),
    ) == normalized(text) by {
        let w = text.update(i, ' ');
        assert(tabs_as_spaces(w) =~= tabs_as_spaces(text));
        lemma_all_tabs_as_spaces(w);
    }
}

} // verus!
