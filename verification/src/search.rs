//! The search for a story through its candidate documents, one document at a
//! time: the caller reads each document the search asks for and hands its
//! text back; the search decides whether to stop there or go on.

use vstd::prelude::*;
use crate::blocks::{document_blocks, document_readable, is_reader_error, XhtmlError};
use crate::content::{story_in_source, story_prose, StoryError};
use crate::normalize::key_of_title;
use crate::pattern::patterns_compile;

verus! {

/// What the search asks for after a step.
pub enum SearchAction {
    /// Read the document with this index and hand its text to `look_at`.
    Read(usize),
    /// The document with this index holds the story; its prose.
    Found(usize, String),
    /// The search failed on the document with this index.
    Failed(usize, StoryError),
    /// No document holds the story.
    NotFound,
}

/// A search for the story titled `wanted_title` through `count` documents,
/// in the order the caller numbers them; `next` is the index of the
/// document to look at next.
pub struct StorySearch {
    pub wanted_title: String,
    pub count: usize,
    pub next: usize,
}

/// The search stops at a document with text `source`: the library's
/// patterns are refused, the document cannot be read as XHTML, or it holds
/// the story titled `title`.
pub open spec fn stops_at(source: Seq<char>, title: Seq<char>) -> bool {
    ||| !patterns_compile()
    ||| !document_readable(source)
    ||| story_prose(document_blocks(source), key_of_title(title)) is Some
}

/// The index of the document where the search through `docs` from index `i`
/// on stops; `None` where it stops at none of them.
pub open spec fn search_end(docs: Seq<Seq<char>>, title: Seq<char>, i: int) -> Option<int>
    decreases docs.len() - i,
{
    if i < 0 || i >= docs.len() {
        None
    } else if stops_at(docs[i], title) {
        Some(i)
    } else {
        search_end(docs, title, i + 1)
    }
}

/// The search through `docs` from index `i` on ends at the first document
/// where it stops, and at none only where it stops at none.
pub proof fn lemma_search_end_is_first(docs: Seq<Seq<char>>, title: Seq<char>, i: int)
    requires
        0 <= i,
    ensures
        search_end(docs, title, i) matches Some(j) ==> {
            &&& i <= j < docs.len()
            &&& stops_at(docs[j], title)
            &&& forall|k: int| i <= k < j ==> !stops_at(#[trigger] docs[k], title)
        },
        search_end(docs, title, i) is None ==> forall|k: int|
            i <= k < docs.len() ==> !stops_at(#[trigger] docs[k], title),
    decreases docs.len() - i,
{
    if i < docs.len() && !stops_at(docs[i], title) {
        lemma_search_end_is_first(docs, title, i + 1);
        assert forall|k: int| i <= k < docs.len() && k < i + 1 implies !stops_at(
            #[trigger] docs[k],
            title,
        ) by {
            assert(k == i);
        }
    }
}

impl StorySearch {
    /// A search for the story titled `wanted_title` through `count`
    /// documents, from the first.
    pub fn new(wanted_title: &str, count: usize) -> (s: Self)
        ensures
            s.wanted_title@ == wanted_title@,
            s.count == count,
            s.next == 0,
    {
        StorySearch { wanted_title: wanted_title.to_string(), count, next: 0 }
    }

    /// What the search asks for before it has looked at the next document:
    /// to read it, or, where no document is left, nothing more.
    pub fn action(&self) -> (a: SearchAction)
        ensures
            self.next < self.count ==> a == SearchAction::Read(self.next),
            self.next >= self.count ==> a is NotFound,
    {
        if self.next < self.count {
            SearchAction::Read(self.next)
        } else {
            SearchAction::NotFound
        }
    }

    /// Looks at the text `source` of the document with index `next`. The
    /// search stops there, with the document's index, where the patterns are
    /// refused, where the document cannot be read as XHTML (with the
    /// reader's error), or where it holds the story (with its prose).
    /// Otherwise it goes on with the next document, or ends with nothing
    /// found where that was the last.
    pub fn look_at(&mut self, source: &str) -> (a: SearchAction)
        requires
            old(self).next < old(self).count,
        ensures
            final(self).wanted_title == old(self).wanted_title,
            final(self).count == old(self).count,
            !patterns_compile() ==> a == SearchAction::Failed(
                old(self).next,
                StoryError::PatternsRejected,
            ),
            patterns_compile() && !document_readable(source@) ==> (a matches SearchAction::Failed(
                i,
                StoryError::Xhtml(e),
            ) && i == old(self).next && is_reader_error(e, source@)),
            stops_at(source@, old(self).wanted_title@) && patterns_compile() && document_readable(
                source@,
            ) ==> (a matches SearchAction::Found(i, prose) && i == old(self).next && Some(prose@)
                == story_prose(document_blocks(source@), key_of_title(old(self).wanted_title@))),
            stops_at(source@, old(self).wanted_title@) ==> final(self).next == old(self).next,
            !stops_at(source@, old(self).wanted_title@) ==> final(self).next == old(self).next + 1,
            !stops_at(source@, old(self).wanted_title@) && final(self).next < final(self).count
                ==> a == SearchAction::Read(final(self).next),
            !stops_at(source@, old(self).wanted_title@) && final(self).next == final(self).count
                ==> a is NotFound,
    {
        let index = self.next;
        match story_in_source(source, self.wanted_title.as_str()) {
            Ok(Some(prose)) => SearchAction::Found(index, prose),
            Ok(None) => {
                self.next = index + 1;
                self.action()
            },
            Err(e) => SearchAction::Failed(index, e),
        }
    }
}

} // verus!
