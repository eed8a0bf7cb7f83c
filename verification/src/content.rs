//! The prose of a story or of a novel chapter, taken from its XHTML source.

use vstd::prelude::*;
use crate::blocks::{
    blocks_view, document_blocks, document_readable, extract_xhtml, is_reader_error, Block,
    XhtmlError,
};
use crate::normalize::{key_of_title, normalize_text, normalized, title_key};
use crate::pattern::{
    check_patterns, patterns_compile, regex_capture_group, regex_capture_group_result,
    regex_replace_all, regex_replace_all_result, regex_replace_first, regex_replace_first_result,
    MARKUP_TAG, ROMAN_LEAD, TITLE_ELEMENT,
};
use crate::text::{joined, join_texts, same_text, strings_view};
use crate::xml::{xml_unescape, xml_unescape_result};

verus! {

/// The view of an optional string.
pub open spec fn opt_view(o: Option<String>) -> Option<Seq<char>> {
    match o {
        Some(s) => Some(s@),
        None => None,
    }
}

/// Tags of the blocks that hold prose.
pub open spec fn is_prose_tag(t: Seq<char>) -> bool {
    t == "p"@ || t == "blockquote"@
}

/// Tags of the blocks that can hold a story's title.
pub open spec fn is_title_tag(t: Seq<char>) -> bool {
    t == "h1"@ || t == "h2"@ || t == "h3"@
}

/// The texts of the prose blocks, in order.
pub open spec fn prose_texts(blocks: Seq<(Seq<char>, Seq<char>)>) -> Seq<Seq<char>>
    decreases blocks.len(),
{
    if blocks.len() == 0 {
        seq![]
    } else {
        prose_texts(blocks.drop_last()) + if is_prose_tag(blocks.last().0) {
            seq![blocks.last().1]
        } else {
            seq![]
        }
    }
}

/// `texts` without the texts equal to `t`.
pub open spec fn without_text(texts: Seq<Seq<char>>, t: Seq<char>) -> Seq<Seq<char>>
    decreases texts.len(),
{
    if texts.len() == 0 {
        seq![]
    } else {
        without_text(texts.drop_last(), t) + if texts.last() == t {
            seq![]
        } else {
            seq![texts.last()]
        }
    }
}

/// The prose of a document: its prose blocks, without those equal to the
/// subtitle, joined by blank lines and normalized.
pub open spec fn prose_of(blocks: Seq<(Seq<char>, Seq<char>)>, subtitle: Option<Seq<char>>) -> Seq<
    char,
> {
    let texts = prose_texts(blocks);
    let kept = match subtitle {
        Some(s) => without_text(texts, s),
        None => texts,
    };
    normalized(joined(kept, "\n\n"@))
}

/// The title of a document, from the content of its `<title>` element:
/// unescaped, stripped of markup, normalized; `Some(None)` where there is no
/// such element or its text is empty, `None` where unescaping fails.
pub open spec fn title_outcome(source: Seq<char>) -> Option<Option<Seq<char>>> {
    match regex_capture_group_result(TITLE_ELEMENT@, source, 1) {
        Some(Some(raw)) => match xml_unescape_result(raw) {
            Some(u) => {
                let n = normalized(regex_replace_all_result(MARKUP_TAG@, u, ""@));
                Some(
                    if n.len() == 0 {
                        None
                    } else {
                        Some(n)
                    },
                )
            },
            None => None,
        },
        _ => Some(None),
    }
}

/// The subtitle that a chapter title carries after its Roman numeral: the
/// title without the numeral, normalized, where that differs from the title.
pub open spec fn subtitle_of(title: Seq<char>) -> Option<Seq<char>> {
    let sub = normalized(regex_replace_first_result(ROMAN_LEAD@, title, ""@));
    if sub != title {
        Some(sub)
    } else {
        None
    }
}

/// The subtitle of a chapter whose title outcome is `t`.
pub open spec fn subtitle_from_outcome(t: Option<Seq<char>>) -> Option<Seq<char>> {
    match t {
        Some(title) => subtitle_of(title),
        None => None,
    }
}

/// The blocks `blocks` name the story whose title key is `wanted`.
pub open spec fn names_story(blocks: Seq<(Seq<char>, Seq<char>)>, wanted: Seq<char>) -> bool {
    exists|i: int|
        0 <= i < blocks.len() && is_title_tag(#[trigger] blocks[i].0) && key_of_title(blocks[i].1)
            == wanted
}

/// The prose of a document that names the story with key `wanted`, where it
/// is not empty.
pub open spec fn story_prose(blocks: Seq<(Seq<char>, Seq<char>)>, wanted: Seq<char>) -> Option<
    Seq<char>,
> {
    if names_story(blocks, wanted) {
        let p = prose_of(blocks, None);
        if p.len() > 0 {
            Some(p)
        } else {
            None
        }
    } else {
        None
    }
}

/// Why no title could be read.
pub enum TitleError {
    /// Unescaping the title failed, with the reason given.
    Escape(String),
}

/// Why the content of a novel chapter could not be built.
pub enum NovelError {
    /// `regex` refused a pattern of the library.
    PatternsRejected,
    /// The chapter's title could not be unescaped.
    Title(String),
    /// The chapter's XHTML could not be read.
    Xhtml(XhtmlError),
    /// Nothing is left of the prose once the subtitle is taken out.
    NoProse,
}

/// Why the search of a document for a story failed.
pub enum StoryError {
    /// `regex` refused a pattern of the library.
    PatternsRejected,
    /// The document's XHTML could not be read.
    Xhtml(XhtmlError),
}

fn is_prose_tag_exec(t: &str) -> (b: bool)
    ensures
        b == is_prose_tag(t@),
{
    same_text(t, "p") || same_text(t, "blockquote")
}

fn is_title_tag_exec(t: &str) -> (b: bool)
    ensures
        b == is_title_tag(t@),
{
    same_text(t, "h1") || same_text(t, "h2") || same_text(t, "h3")
}

/// The texts of the prose blocks, leaving out those equal to `subtitle`.
fn prose_block_texts(blocks: &Vec<Block>, subtitle: &Option<String>) -> (r: Vec<String>)
    ensures
        strings_view(r@) == (match opt_view(*subtitle) {
            Some(s) => without_text(prose_texts(blocks_view(blocks@)), s),
            None => prose_texts(blocks_view(blocks@)),
        }),
{
    let mut r: Vec<String> = Vec::new();
    let mut i: usize = 0;
    while i < blocks.len()
        invariant
            i <= blocks.len(),
            strings_view(r@) == (match opt_view(*subtitle) {
                Some(s) => without_text(prose_texts(blocks_view(blocks@).take(i as int)), s),
                None => prose_texts(blocks_view(blocks@).take(i as int)),
            }),
        decreases blocks.len() - i,
    {
        let ghost bv = blocks_view(blocks@);
        assert(bv.take(i + 1).drop_last() =~= bv.take(i as int));
        assert(bv.take(i + 1).last() == blocks@[i as int]@);
        let ghost prev = prose_texts(bv.take(i as int));
        assert(prose_texts(bv.take(i + 1)) == prev + if is_prose_tag(blocks@[i as int].tag@) {
            seq![blocks@[i as int].text@]
        } else {
            seq![]
        });
        if is_prose_tag_exec(blocks[i].tag.as_str()) {
            let keep = match subtitle {
                Some(s) => !same_text(blocks[i].text.as_str(), s.as_str()),
                None => true,
            };
            proof {
                let pt = prose_texts(bv.take(i + 1));
                assert(pt.drop_last() =~= prev);
            }
            if keep {
                let ghost old_r = r@;
                r.push(blocks[i].text.clone());
                assert(strings_view(r@) =~= strings_view(old_r).push(blocks@[i as int].text@));
            }
        } else {
            assert(prose_texts(bv.take(i + 1)) =~= prev);
        }
        i += 1;
    }
    assert(blocks_view(blocks@).take(blocks.len() as int) =~= blocks_view(blocks@));
    r
}

/// The prose of `blocks`: the texts of the `p` and `blockquote` blocks,
/// without those equal to `subtitle`, joined by blank lines and normalized.
pub fn prose_from_blocks(blocks: &Vec<Block>, subtitle: &Option<String>) -> (r: String)
    requires
        patterns_compile(),
    ensures
        r@ == prose_of(blocks_view(blocks@), opt_view(*subtitle)),
{
    let texts = prose_block_texts(blocks, subtitle);
    let joined_text = join_texts(&texts, "\n\n");
    normalize_text(joined_text.as_str())
}

/// The title of an XHTML document, from its `<title>` element: unescaped,
/// stripped of markup and normalized; `None` where there is no such element
/// or nothing is left of it.
pub fn extract_xhtml_title(source: &str) -> (r: Result<Option<String>, TitleError>)
    requires
        patterns_compile(),
    ensures
        r is Err <==> title_outcome(source@) is None,
        r matches Ok(t) ==> title_outcome(source@) == Some(opt_view(t)),
{
    match regex_capture_group(TITLE_ELEMENT, source, 1) {
        Some(Some(raw)) => match xml_unescape(raw.as_str()) {
            Ok(u) => {
                let stripped = regex_replace_all(MARKUP_TAG, u.as_str(), "");
                let n = normalize_text(stripped.as_str());
                if n.as_str().is_empty() {
                    Ok(None)
                } else {
                    Ok(Some(n))
                }
            },
            Err(message) => Err(TitleError::Escape(message)),
        },
        _ => Ok(None),
    }
}

/// The subtitle in a chapter title: what is left of the title without its
/// Roman numeral, normalized, where that differs from the title.
pub fn novel_subtitle(title: &str) -> (r: Option<String>)
    requires
        patterns_compile(),
    ensures
        opt_view(r) == subtitle_of(title@),
{
    let rest = regex_replace_first(ROMAN_LEAD, title, "");
    let sub = normalize_text(rest.as_str());
    if !same_text(sub.as_str(), title) {
        Some(sub)
    } else {
        None
    }
}

/// The subtitle of a novel chapter, from the title of its XHTML source.
pub fn extract_novel_subtitle(source: &str) -> (r: Result<Option<String>, TitleError>)
    requires
        patterns_compile(),
    ensures
        r is Err <==> title_outcome(source@) is None,
        r matches Ok(sub) ==> title_outcome(source@) matches Some(t) && opt_view(sub)
            == subtitle_from_outcome(t),
{
    match extract_xhtml_title(source)? {
        Some(t) => Ok(novel_subtitle(t.as_str())),
        None => Ok(None),
    }
}

/// The prose of a novel chapter `source` whose title outcome is `t`.
pub open spec fn chapter_prose(source: Seq<char>, t: Option<Seq<char>>) -> Seq<char> {
    prose_of(document_blocks(source), subtitle_from_outcome(t))
}

/// The subtitle and the prose of a novel chapter. The subtitle is that of
/// the `<title>` element; the prose is that of the `p` and `blockquote`
/// blocks of the document, without the blocks equal to the subtitle. Fails
/// where a pattern is refused, where the title cannot be unescaped, where the
/// XML reader reports an error, or where no prose is left.
pub fn extract_novel_content(source: &str) -> (r: Result<(Option<String>, String), NovelError>)
    ensures
        r matches Err(NovelError::PatternsRejected) <==> !patterns_compile(),
        patterns_compile() ==> (r matches Err(NovelError::Title(_)) <==> title_outcome(source@) is None),
        r matches Err(NovelError::Xhtml(_)) <==> (patterns_compile() && title_outcome(source@) is Some
            && !document_readable(source@)),
        r matches Err(NovelError::Xhtml(e)) ==> is_reader_error(e, source@),
        r matches Err(NovelError::NoProse) <==> (patterns_compile() && document_readable(source@)
            && title_outcome(source@) is Some && chapter_prose(source@, title_outcome(source@)->0).len()
            == 0),
        r matches Ok((sub, prose)) ==> {
            &&& title_outcome(source@) matches Some(t)
            &&& opt_view(sub) == subtitle_from_outcome(t)
            &&& prose@ == chapter_prose(source@, t)
            &&& prose@.len() > 0
        },
{
    if !check_patterns() {
        return Err(NovelError::PatternsRejected);
    }
    let subtitle = match extract_novel_subtitle(source) {
        Ok(sub) => sub,
        Err(TitleError::Escape(message)) => {
            return Err(NovelError::Title(message));
        },
    };
    let blocks = match extract_xhtml(source) {
        Ok(b) => b,
        Err(e) => {
            return Err(NovelError::Xhtml(e));
        },
    };
    let prose = prose_from_blocks(&blocks, &subtitle);
    if prose.as_str().is_empty() {
        return Err(NovelError::NoProse);
    }
    Ok((subtitle, prose))
}

/// The prose of a document whose blocks are `blocks`, where a title block
/// (`h1` to `h3`) has the title key `wanted` and the prose is not empty.
pub fn story_in_blocks(blocks: &Vec<Block>, wanted: &str) -> (r: Option<String>)
    requires
        patterns_compile(),
    ensures
        opt_view(r) == story_prose(blocks_view(blocks@), wanted@),
{
    let mut found = false;
    let mut i: usize = 0;
    while i < blocks.len() && !found
        invariant
            i <= blocks.len(),
            patterns_compile(),
            found ==> names_story(blocks_view(blocks@), wanted@),
            !found ==> forall|j: int|
                0 <= j < i ==> !(is_title_tag(blocks@[j].tag@) && key_of_title(blocks@[j].text@)
                    == wanted@),
        decreases blocks.len() - i,
    {
        if is_title_tag_exec(blocks[i].tag.as_str()) {
            let key = title_key(blocks[i].text.as_str());
            if same_text(key.as_str(), wanted) {
                found = true;
                assert(blocks_view(blocks@)[i as int] == blocks@[i as int]@);
                assert(is_title_tag(blocks_view(blocks@)[i as int].0) && key_of_title(
                    blocks_view(blocks@)[i as int].1,
                ) == wanted@);
            }
        }
        i += 1;
    }
    if !found {
        assert forall|j: int| 0 <= j < blocks_view(blocks@).len() implies !(is_title_tag(
            #[trigger] blocks_view(blocks@)[j].0,
        ) && key_of_title(blocks_view(blocks@)[j].1) == wanted@) by {
            assert(blocks_view(blocks@)[j] == blocks@[j]@);
        }
        return None;
    }
    let prose = prose_from_blocks(blocks, &None);
    if prose.as_str().is_empty() {
        None
    } else {
        Some(prose)
    }
}

/// The prose of the document `source` if it holds the story titled
/// `wanted_title`: a title block whose title key equals that of
/// `wanted_title`, and prose that is not empty. Fails where a pattern is
/// refused or where the XML reader reports an error.
pub fn story_in_source(source: &str, wanted_title: &str) -> (r: Result<Option<String>, StoryError>)
    ensures
        r matches Err(StoryError::PatternsRejected) <==> !patterns_compile(),
        r matches Err(StoryError::Xhtml(_)) <==> (patterns_compile() && !document_readable(source@)),
        r matches Err(StoryError::Xhtml(e)) ==> is_reader_error(e, source@),
        r matches Ok(p) ==> opt_view(p) == story_prose(
            document_blocks(source@),
            key_of_title(wanted_title@),
        ),
{
    if !check_patterns() {
        return Err(StoryError::PatternsRejected);
    }
    let wanted = title_key(wanted_title);
    let blocks = match extract_xhtml(source) {
        Ok(b) => b,
        Err(e) => {
            return Err(StoryError::Xhtml(e));
        },
    };
    Ok(story_in_blocks(&blocks, wanted.as_str()))
}

/// Two titles with the same title key find the same story in a document.
pub proof fn lemma_story_depends_on_key(source: Seq<char>, w1: Seq<char>, w2: Seq<char>)
    requires
        key_of_title(w1) == key_of_title(w2),
    ensures
        story_prose(document_blocks(source), key_of_title(w1)) == story_prose(
            document_blocks(source),
            key_of_title(w2),
        ),
{
}

/// A document names a story exactly where one of its `h1`, `h2` or `h3`
/// blocks has that story's title key; no other block can name it.
pub proof fn lemma_names_story_headings(blocks: Seq<(Seq<char>, Seq<char>)>, wanted: Seq<char>)
    ensures
        names_story(blocks, wanted) <==> exists|i: int|
            0 <= i < blocks.len() && (#[trigger] blocks[i].0 == "h1"@ || blocks[i].0 == "h2"@
                || blocks[i].0 == "h3"@) && key_of_title(blocks[i].1) == wanted,
{
    if names_story(blocks, wanted) {
        let i = choose|i: int|
            0 <= i < blocks.len() && is_title_tag(#[trigger] blocks[i].0) && key_of_title(
                blocks[i].1,
            ) == wanted;
        assert(blocks[i].0 == "h1"@ || blocks[i].0 == "h2"@ || blocks[i].0 == "h3"@);
    }
    if exists|i: int|
        0 <= i < blocks.len() && (#[trigger] blocks[i].0 == "h1"@ || blocks[i].0 == "h2"@
            || blocks[i].0 == "h3"@) && key_of_title(blocks[i].1) == wanted {
        let i = choose|i: int|
            0 <= i < blocks.len() && (#[trigger] blocks[i].0 == "h1"@ || blocks[i].0 == "h2"@
                || blocks[i].0 == "h3"@) && key_of_title(blocks[i].1) == wanted;
        assert(is_title_tag(blocks[i].0));
    }
}

/// Every heading level `h1`, `h2` and `h3` can carry a story's title, and no
/// other block can: a document made of a block `h` holding the title `t`
/// and a paragraph `x` whose normalized text is not empty holds the story
/// titled `t`, with the paragraph's normalized text as its prose, exactly
/// where `h` is one of those headings.
pub proof fn lemma_title_headings(h: Seq<char>, t: Seq<char>, x: Seq<char>)
    requires
        normalized(x).len() > 0,
    ensures
        (h == "h1"@ || h == "h2"@ || h == "h3"@) ==> story_prose(
            seq![(h, t), ("p"@, x)],
            key_of_title(t),
        ) == Some(normalized(x)),
        !(h == "h1"@ || h == "h2"@ || h == "h3"@) ==> story_prose(
            seq![(h, t), ("p"@, x)],
            key_of_title(t),
        ) is None,
{
    reveal_strlit("h1");
    reveal_strlit("h2");
    reveal_strlit("h3");
    reveal_strlit("p");
    reveal_strlit("blockquote");
    let blocks = seq![(h, t), ("p"@, x)];
    let w = key_of_title(t);
    lemma_names_story_headings(blocks, w);
    if h == "h1"@ || h == "h2"@ || h == "h3"@ {
        assert(blocks[0].0 == h);
        assert(!is_prose_tag(h));
        assert(blocks.drop_last() =~= seq![(h, t)]);
        let none = Seq::<(Seq<char>, Seq<char>)>::empty();
        assert(seq![(h, t)].drop_last() =~= none);
        assert(prose_texts(none) =~= Seq::<Seq<char>>::empty());
        assert(prose_texts(seq![(h, t)]) =~= prose_texts(none));
        assert(is_prose_tag("p"@));
        assert(prose_texts(blocks) =~= seq![x]);
        assert(joined(seq![x], "\n\n"@) == x);
    } else {
        assert(blocks[1].0 == "p"@);
        assert forall|i: int| 0 <= i < blocks.len() implies !(#[trigger] blocks[i].0 == "h1"@
            || blocks[i].0 == "h2"@ || blocks[i].0 == "h3"@) by {
            if i == 1 {
                assert("p"@ != "h1"@ && "p"@ != "h2"@ && "p"@ != "h3"@);
            }
        }
    }
}

} // verus!
