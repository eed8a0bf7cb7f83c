//! Hugo front matter of story and chapter pages, and YAML quoting.

use vstd::prelude::*;
use crate::number::{decimal, u32_to_decimal};
use crate::text::{chars_of, has_prefix, slice_chars, starts_with, string_of};

verus! {

/// Backslashes and double quotes escaped with a backslash.
pub open spec fn yaml_escaped(s: Seq<char>) -> Seq<char>
    decreases s.len(),
{
    if s.len() == 0 {
        seq![]
    } else {
        (if s[0] == '\\' {
            seq!['\\', '\\']
        } else if s[0] == '"' {
            seq!['\\', '"']
        } else {
            seq![s[0]]
        }) + yaml_escaped(s.drop_first())
    }
}

/// `s` as a YAML double-quoted scalar.
pub open spec fn yaml_quoted(s: Seq<char>) -> Seq<char> {
    seq!['"'] + yaml_escaped(s) + seq!['"']
}

/// Reads the escapes that `yaml_escaped` writes: `None` where `t` holds an
/// unescaped double quote or a backslash that starts no such escape.
pub open spec fn yaml_unescaped(t: Seq<char>) -> Option<Seq<char>>
    decreases t.len(),
{
    if t.len() == 0 {
        Some(seq![])
    } else if t[0] == '\\' {
        if t.len() >= 2 && (t[1] == '\\' || t[1] == '"') {
            match yaml_unescaped(t.skip(2)) {
                Some(rest) => Some(seq![t[1]] + rest),
                None => None,
            }
        } else {
            None
        }
    } else if t[0] == '"' {
        None
    } else {
        match yaml_unescaped(t.drop_first()) {
            Some(rest) => Some(seq![t[0]] + rest),
            None => None,
        }
    }
}

/// Reads a YAML double-quoted scalar written by `yaml_quoted`.
pub open spec fn yaml_unquoted(t: Seq<char>) -> Option<Seq<char>> {
    if t.len() >= 2 && t[0] == '"' && t.last() == '"' {
        yaml_unescaped(t.subrange(1, t.len() - 1))
    } else {
        None
    }
}

/// `text` as a YAML double-quoted scalar.
pub fn yaml_quote(val: &str) -> (r: String)
    ensures
        r@ == yaml_quoted(val@),
{
    let v = chars_of(val);
    let mut out: Vec<char> = Vec::new();
    out.push('"');
    let mut i: usize = 0;
    assert(v@.skip(0) =~= v@);
    while i < v.len()
        invariant
            i <= v.len(),
            out@ + yaml_escaped(v@.skip(i as int)) == seq!['"'] + yaml_escaped(v@),
        decreases v.len() - i,
    {
        assert(v@.skip(i as int).drop_first() =~= v@.skip(i + 1));
        let c = v[i];
        if c == '\\' {
            out.push('\\');
            out.push('\\');
        } else if c == '"' {
            out.push('\\');
            out.push('"');
        } else {
            out.push(c);
        }
        i += 1;
        assert(out@ + yaml_escaped(v@.skip(i as int)) =~= seq!['"'] + yaml_escaped(v@));
    }
    assert(v@.skip(i as int) =~= Seq::<char>::empty());
    out.push('"');
    assert(out@ =~= yaml_quoted(val@));
    string_of(&out)
}

proof fn lemma_unescape_escaped(s: Seq<char>)
    ensures
        yaml_unescaped(yaml_escaped(s)) == Some(s),
    decreases s.len(),
{
    if s.len() > 0 {
        lemma_unescape_escaped(s.drop_first());
        let e = yaml_escaped(s);
        let rest = yaml_escaped(s.drop_first());
        if s[0] == '\\' || s[0] == '"' {
            assert(e.skip(2) =~= rest);
        } else {
            assert(e.drop_first() =~= rest);
        }
        assert(seq![s[0]] + s.drop_first() =~= s);
    }
}

/// A quoted value reads back as the value: quoting loses nothing, and
/// distinct values are quoted differently.
pub proof fn lemma_yaml_quote_round_trip(s: Seq<char>)
    ensures
        yaml_unquoted(yaml_quoted(s)) == Some(s),
{
    lemma_unescape_escaped(s);
    let q = yaml_quoted(s);
    assert(q.subrange(1, q.len() - 1) =~= yaml_escaped(s));
}

/// The title a story is listed under: without a leading "The Adventure of ".
pub open spec fn display_title(title: Seq<char>) -> Seq<char> {
    if has_prefix(title, "The Adventure of "@) {
        title.skip("The Adventure of "@.len() as int)
    } else {
        title
    }
}

/// The front matter of a story page.
pub open spec fn story_front_matter(
    title: Seq<char>,
    collection: Seq<char>,
    year: u32,
    release_order: u32,
) -> Seq<char> {
    "---\ntitle: "@ + yaml_quoted(display_title(title)) + "\ncollection: "@ + yaml_quoted(
        collection,
    ) + "\nyear: "@ + decimal(year as nat) + "\nrelease_order: "@ + decimal(release_order as nat)
        + "\nlayout: \"single\"\n---\n\n"@
}

/// The front matter of a novel chapter page; the subtitle line is there only
/// where there is a subtitle.
pub open spec fn novel_front_matter(
    title: Seq<char>,
    subtitle: Option<Seq<char>>,
    novel: Seq<char>,
    chapter: u32,
    year: u32,
) -> Seq<char> {
    "---\ntitle: "@ + yaml_quoted(title) + "\n"@ + (match subtitle {
        Some(s) => "subtitle: "@ + yaml_quoted(s) + "\n"@,
        None => seq![],
    }) + "novel: "@ + yaml_quoted(novel) + "\nchapter: "@ + decimal(chapter as nat) + "\nyear: "@
        + decimal(year as nat) + "\nlayout: \"single\"\n---\n\n"@
}

fn display_title_exec(title: &str) -> (r: String)
    ensures
        r@ == display_title(title@),
{
    if starts_with(title, "The Adventure of ") {
        let v = chars_of(title);
        let n = chars_of("The Adventure of ").len();
        string_of(&slice_chars(&v, n, v.len()))
    } else {
        String::from_str(title)
    }
}

/// The front matter of a story page: its title (without "The Adventure
/// of "), collection, year of publication and place in release order.
pub fn story_frontmatter(title: &str, collection: &str, year: u32, release_order: u32) -> (r:
    String)
    ensures
        r@ == story_front_matter(title@, collection@, year, release_order),
{
    let mut out = String::from_str("---\ntitle: ");
    out.append(yaml_quote(display_title_exec(title).as_str()).as_str());
    out.append("\ncollection: ");
    out.append(yaml_quote(collection).as_str());
    out.append("\nyear: ");
    out.append(u32_to_decimal(year).as_str());
    out.append("\nrelease_order: ");
    out.append(u32_to_decimal(release_order).as_str());
    out.append("\nlayout: \"single\"\n---\n\n");
    out
}

/// The front matter of a novel chapter page: its title, the subtitle where
/// there is one, the novel, the chapter number and the year.
pub fn novel_frontmatter(
    title: &str,
    subtitle: Option<&str>,
    novel: &str,
    chapter: u32,
    year: u32,
) -> (r: String)
    ensures
        r@ == novel_front_matter(
            title@,
            match subtitle {
                Some(s) => Some(s@),
                None => None,
            },
            novel@,
            chapter,
            year,
        ),
{
    let mut out = String::from_str("---\ntitle: ");
    out.append(yaml_quote(title).as_str());
    out.append("\n");
    match subtitle {
        Some(sub) => {
            out.append("subtitle: ");
            out.append(yaml_quote(sub).as_str());
            out.append("\n");
        },
        None => {},
    }
    out.append("novel: ");
    out.append(yaml_quote(novel).as_str());
    out.append("\nchapter: ");
    out.append(u32_to_decimal(chapter).as_str());
    out.append("\nyear: ");
    out.append(u32_to_decimal(year).as_str());
    out.append("\nlayout: \"single\"\n---\n\n");
    out
}

} // verus!
