//! Names and paths of the files the corpus builder writes and removes.

use vstd::prelude::*;
use crate::normalize::{slug, slugify};
use crate::number::{decimal, u32_to_decimal};
use crate::pattern::{check_patterns, patterns_compile};
use crate::text::{chars_of, same_text, slice_chars, string_of};

verus! {

/// What `std::path::Path::strip_prefix` gives for `path` and `base`, the
/// remainder written out as a string; `None` where `base` is not a prefix
/// of `path`.
pub uninterp spec fn path_relative(path: Seq<char>, base: Seq<char>) -> Option<Seq<char>>;

/// Calls `Path::strip_prefix` on `Path::new(path)` and writes the remainder
/// out with `to_string_lossy`; the contract claims that the outcome is the
/// named result.
#[verifier::external_body]
fn strip_path_prefix(path: &str, base: &str) -> (r: Option<String>)
    ensures
        r is None <==> path_relative(path@, base@) is None,
        r matches Some(s) ==> path_relative(path@, base@) == Some(s@),
{
    match std::path::Path::new(path).strip_prefix(base) {
        Ok(rest) => Some(rest.to_string_lossy().into_owned()),
        Err(_) => None,
    }
}

/// How a path is shown to the user: relative to the content directory where
/// it lies inside it, behind a slash.
pub open spec fn shown_path(path: Seq<char>, content: Seq<char>) -> Seq<char> {
    seq!['/'] + match path_relative(path, content) {
        Some(rel) => rel,
        None => path,
    }
}

/// `path` relative to `content`, or `path` itself where it does not lie
/// under `content`, behind a slash.
pub fn relative_content_path(path: &str, content: &str) -> (r: String)
    ensures
        r@ == shown_path(path@, content@),
{
    let rest = match strip_path_prefix(path, content) {
        Some(rel) => rel,
        None => String::from_str(path),
    };
    let mut out = String::from_str("/");
    out.append(rest.as_str());
    proof {
        reveal_strlit("/");
    }
    assert(out@ =~= shown_path(path@, content@));
    out
}

/// A numeral padded with zeros to two digits at least (`{:02}`).
pub open spec fn padded2(d: Seq<char>) -> Seq<char> {
    if d.len() < 2 {
        seq!['0'] + d
    } else {
        d
    }
}

/// The file name of the page of a novel's `n`-th chapter.
pub open spec fn chapter_page_name(n: u32) -> Seq<char> {
    "chapter-"@ + padded2(decimal(n as nat)) + ".md"@
}

/// The file name of the page of a novel's `n`-th chapter: `chapter-NN.md`.
pub fn chapter_file_name(n: u32) -> (r: String)
    ensures
        r@ == chapter_page_name(n),
{
    let digits = u32_to_decimal(n);
    let mut out = String::from_str("chapter-");
    if chars_of(digits.as_str()).len() < 2 {
        out.append("0");
        proof {
            reveal_strlit("0");
        }
    }
    out.append(digits.as_str());
    out.append(".md");
    assert(out@ =~= chapter_page_name(n));
    out
}

/// Distinct chapters get distinct page file names: no chapter page
/// overwrites another.
pub proof fn lemma_chapter_pages_distinct(a: u32, b: u32)
    requires
        a != b,
    ensures
        chapter_page_name(a) != chapter_page_name(b),
{
    crate::number::lemma_decimal_digits(a as nat);
    crate::number::lemma_decimal_digits(b as nat);
    crate::number::lemma_leading_zero(decimal(a as nat));
    crate::number::lemma_leading_zero(decimal(b as nat));
    let ma = padded2(decimal(a as nat));
    let mb = padded2(decimal(b as nat));
    assert(crate::number::digits_value(ma) == a);
    assert(crate::number::digits_value(mb) == b);
    if chapter_page_name(a) == chapter_page_name(b) {
        let pre = "chapter-"@;
        let pa = chapter_page_name(a);
        let pb = chapter_page_name(b);
        assert(pa.len() == pre.len() + ma.len() + ".md"@.len());
        assert(pb.len() == pre.len() + mb.len() + ".md"@.len());
        assert(pa.subrange(pre.len() as int, (pre.len() + ma.len()) as int) =~= ma);
        assert(pa.subrange(pre.len() as int, (pre.len() + mb.len()) as int) =~= mb);
        assert(ma.len() == mb.len());
        assert(ma == mb);
    }
}

/// The file name of a story's page: its slug with `.md`; `None` where
/// `regex` refuses a pattern of the library.
pub fn story_file_name(title: &str) -> (r: Option<String>)
    ensures
        r is None <==> !patterns_compile(),
        r matches Some(s) ==> s@ == slug(title@) + ".md"@,
{
    if !check_patterns() {
        return None;
    }
    let mut out = slugify(title);
    out.append(".md");
    Some(out)
}

/// The index of the last `.` in `name`.
pub open spec fn last_dot(name: Seq<char>) -> Option<int>
    decreases name.len(),
{
    if name.len() == 0 {
        None
    } else if name.last() == '.' {
        Some(name.len() - 1)
    } else {
        last_dot(name.drop_last())
    }
}

/// The extension of a file name (`Path::extension`): what follows the last
/// `.`, unless there is none or the only one starts the name.
pub open spec fn extension(name: Seq<char>) -> Option<Seq<char>> {
    match last_dot(name) {
        Some(k) => if k > 0 {
            Some(name.skip(k + 1))
        } else {
            None
        },
        None => None,
    }
}

/// A generated page, which a rebuild removes: a Markdown file other than a
/// section's `_index.md`.
pub open spec fn is_generated_page(name: Seq<char>) -> bool {
    extension(name) == Some("md"@) && name != "_index.md"@
}

/// Whether the file called `name` is a generated page: its extension is
/// `md` and it is not `_index.md`.
pub fn is_generated_content(name: &str) -> (b: bool)
    ensures
        b == is_generated_page(name@),
        name@ == "_index.md"@ ==> !b,
{
    let v = chars_of(name);
    let mut j: usize = v.len();
    assert(v@.take(v.len() as int) =~= v@);
    while j > 0 && v[j - 1] != '.'
        invariant
            j <= v.len(),
            v@ == name@,
            last_dot(v@) == last_dot(v@.take(j as int)),
        decreases j,
    {
        assert(v@.take(j as int).drop_last() =~= v@.take(j - 1));
        j -= 1;
    }
    if j <= 1 {
        if j == 1 {
            assert(v@.take(1).last() == '.');
        } else {
            assert(v@.take(0) =~= Seq::<char>::empty());
        }
        return false;
    }
    assert(v@.take(j as int).last() == '.');
    let ext = string_of(&slice_chars(&v, j, v.len()));
    assert(ext@ == v@.skip(j as int));
    same_text(ext.as_str(), "md") && !same_text(name, "_index.md")
}

/// A file that may hold a story: its extension is `xhtml`.
pub fn is_story_source(name: &str) -> (b: bool)
    ensures
        b == (extension(name@) == Some("xhtml"@)),
{
    let v = chars_of(name);
    let mut j: usize = v.len();
    assert(v@.take(v.len() as int) =~= v@);
    while j > 0 && v[j - 1] != '.'
        invariant
            j <= v.len(),
            v@ == name@,
            last_dot(v@) == last_dot(v@.take(j as int)),
        decreases j,
    {
        assert(v@.take(j as int).drop_last() =~= v@.take(j - 1));
        j -= 1;
    }
    if j <= 1 {
        if j == 1 {
            assert(v@.take(1).last() == '.');
        } else {
            assert(v@.take(0) =~= Seq::<char>::empty());
        }
        return false;
    }
    assert(v@.take(j as int).last() == '.');
    let ext = string_of(&slice_chars(&v, j, v.len()));
    assert(ext@ == v@.skip(j as int));
    same_text(ext.as_str(), "xhtml")
}

} // verus!
