//! Extraction of the block-level text of an XHTML document.

use vstd::prelude::*;
use crate::normalize::{normalize_text, normalized};
use crate::pattern::patterns_compile;
use crate::text::chars_of;
use crate::xml::{
    events_view, is_terminal, xml_event_positions, xml_events_of, xml_next_event, xml_pending,
    xml_pending_positions, xml_position,
    xml_reader, xml_unescape, xml_unescape_result, XmlEvent, XmlEventView,
};

verus! {

/// A block of text and the element it came from.
pub struct Block {
    /// The element's name: `p`, `blockquote` or `h1` to `h6`.
    pub tag: String,
    /// The normalized text of the element.
    pub text: String,
}

impl View for Block {
    type V = (Seq<char>, Seq<char>);

    open spec fn view(&self) -> (Seq<char>, Seq<char>) {
        (self.tag@, self.text@)
    }
}

/// The views of a sequence of blocks.
pub open spec fn blocks_view(s: Seq<Block>) -> Seq<(Seq<char>, Seq<char>)> {
    s.map_values(|b: Block| b@)
}

/// Why the text of a document could not be extracted.
pub enum XhtmlError {
    /// The XML reader reported a syntax error at this byte position.
    Xml { position: u64, message: String },
}

/// `name` holds the ASCII spelling of `word`.
pub open spec fn spells(name: Seq<u8>, word: Seq<char>) -> bool {
    &&& name.len() == word.len()
    &&& forall|i: int| 0 <= i < name.len() ==> name[i] as u32 == word[i] as u32
}

/// Elements whose content is never prose.
pub open spec fn is_skipped_element(name: Seq<u8>) -> bool {
    spells(name, "script"@) || spells(name, "style"@) || spells(name, "svg"@) || spells(name, "head"@)
}

/// The block tag that an element name stands for.
pub open spec fn block_element(name: Seq<u8>) -> Option<Seq<char>> {
    if spells(name, "p"@) {
        Some("p"@)
    } else if spells(name, "blockquote"@) {
        Some("blockquote"@)
    } else if spells(name, "h1"@) {
        Some("h1"@)
    } else if spells(name, "h2"@) {
        Some("h2"@)
    } else if spells(name, "h3"@) {
        Some("h3"@)
    } else if spells(name, "h4"@) {
        Some("h4"@)
    } else if spells(name, "h5"@) {
        Some("h5"@)
    } else if spells(name, "h6"@) {
        Some("h6"@)
    } else {
        None
    }
}

/// The tags that blocks can have.
pub open spec fn is_block_tag(t: Seq<char>) -> bool {
    t == "p"@ || t == "blockquote"@ || t == "h1"@ || t == "h2"@ || t == "h3"@ || t == "h4"@ || t
        == "h5"@ || t == "h6"@
}

/// The unescaped text that a text event contributes: nothing where its bytes
/// are not UTF-8 or where unescaping fails.
pub open spec fn text_piece(raw: Option<Seq<char>>) -> Seq<char> {
    match raw {
        Some(r) => match xml_unescape_result(r) {
            Some(u) => u,
            None => seq![],
        },
        None => seq![],
    }
}

/// The state of the scan over the events: the finished blocks, the blocks
/// still open (tag and text so far), and the depth of skipped elements.
pub struct ScanState {
    pub blocks: Seq<(Seq<char>, Seq<char>)>,
    pub open: Seq<(Seq<char>, Seq<char>)>,
    pub skip: int,
}

/// One event applied to the scan state.
pub open spec fn scan_step(st: ScanState, ev: XmlEventView) -> ScanState {
    match ev {
        XmlEventView::Start(name) => if is_skipped_element(name) {
            ScanState { skip: st.skip + 1, ..st }
        } else if st.skip == 0 && block_element(name) is Some {
            ScanState { open: st.open.push((block_element(name)->0, seq![])), ..st }
        } else {
            st
        },
        XmlEventView::End(name) => if is_skipped_element(name) {
            ScanState { skip: st.skip - 1, ..st }
        } else if st.skip == 0 && block_element(name) is Some && st.open.len() > 0 {
            let top = st.open.last();
            let norm = normalized(top.1);
            ScanState {
                blocks: if norm.len() > 0 {
                    st.blocks.push((top.0, norm))
                } else {
                    st.blocks
                },
                open: st.open.drop_last(),
                skip: st.skip,
            }
        } else {
            st
        },
        XmlEventView::Text(raw) => if st.skip == 0 && st.open.len() > 0 {
            let top = st.open.last();
            ScanState {
                open: st.open.drop_last().push((top.0, top.1 + text_piece(raw))),
                ..st
            }
        } else {
            st
        },
        _ => st,
    }
}

/// The scan state after all of `evs`, from no blocks and no skipping.
pub open spec fn scan(evs: Seq<XmlEventView>) -> ScanState
    decreases evs.len(),
{
    if evs.len() == 0 {
        ScanState { blocks: seq![], open: seq![], skip: 0 }
    } else {
        scan_step(scan(evs.drop_last()), evs.last())
    }
}

/// The blocks that the events give.
pub open spec fn blocks_of_events(evs: Seq<XmlEventView>) -> Seq<(Seq<char>, Seq<char>)> {
    scan(evs).blocks
}

/// The reader reaches the end of `source` without an error.
pub open spec fn document_readable(source: Seq<char>) -> bool {
    xml_events_of(source).last() is Eof
}

/// The events of `source` before the end of the document (or the error).
pub open spec fn document_events(source: Seq<char>) -> Seq<XmlEventView> {
    xml_events_of(source).drop_last()
}

/// The blocks of the document `source`.
pub open spec fn document_blocks(source: Seq<char>) -> Seq<(Seq<char>, Seq<char>)> {
    blocks_of_events(document_events(source))
}

fn spells_exec(name: &Vec<u8>, word: &str) -> (b: bool)
    ensures
        b == spells(name@, word@),
{
    let w = chars_of(word);
    if name.len() != w.len() {
        return false;
    }
    let mut i: usize = 0;
    while i < name.len()
        invariant
            i <= name.len() == w.len(),
            w@ == word@,
            forall|j: int| 0 <= j < i ==> name@[j] as u32 == w@[j] as u32,
        decreases name.len() - i,
    {
        if name[i] as u32 != w[i] as u32 {
            return false;
        }
        i += 1;
    }
    true
}

fn is_skipped_element_exec(name: &Vec<u8>) -> (b: bool)
    ensures
        b == is_skipped_element(name@),
{
    spells_exec(name, "script") || spells_exec(name, "style") || spells_exec(name, "svg")
        || spells_exec(name, "head")
}

fn tag_string(word: &str) -> (s: String)
    ensures
        s@ == word@,
{
    String::from_str(word)
}

fn block_element_exec(name: &Vec<u8>) -> (r: Option<String>)
    ensures
        match block_element(name@) {
            Some(t) => r matches Some(s) && s@ == t,
            None => r is None,
        },
{
    if spells_exec(name, "p") {
        Some(tag_string("p"))
    } else if spells_exec(name, "blockquote") {
        Some(tag_string("blockquote"))
    } else if spells_exec(name, "h1") {
        Some(tag_string("h1"))
    } else if spells_exec(name, "h2") {
        Some(tag_string("h2"))
    } else if spells_exec(name, "h3") {
        Some(tag_string("h3"))
    } else if spells_exec(name, "h4") {
        Some(tag_string("h4"))
    } else if spells_exec(name, "h5") {
        Some(tag_string("h5"))
    } else if spells_exec(name, "h6") {
        Some(tag_string("h6"))
    } else {
        None
    }
}

fn text_piece_exec(raw: &Option<String>) -> (s: String)
    ensures
        s@ == text_piece(
            match raw {
                Some(r) => Some(r@),
                None => None,
            },
        ),
{
    match raw {
        Some(r) => match xml_unescape(r.as_str()) {
            Ok(u) => u,
            Err(_) => String::new(),
        },
        None => String::new(),
    }
}

/// Collects the blocks of a document from its XML events: the text of every
/// `p`, `blockquote` and `h1`-`h6` element outside `script`, `style`, `svg`
/// and `head`, normalized, where it is not empty.
pub fn collect_blocks(events: &Vec<XmlEvent>) -> (r: Vec<Block>)
    requires
        patterns_compile(),
    ensures
        blocks_view(r@) == blocks_of_events(events_view(events@)),
{
    let mut blocks: Vec<Block> = Vec::new();
    let mut open: Vec<Block> = Vec::new();
    let mut skip: i128 = 0;
    let mut i: usize = 0;
    let ghost ev = events_view(events@);
    assert(ev.take(0) =~= Seq::<XmlEventView>::empty());
    while i < events.len()
        invariant
            i <= events.len(),
            patterns_compile(),
            ev == events_view(events@),
            blocks_view(blocks@) == scan(ev.take(i as int)).blocks,
            blocks_view(open@) == scan(ev.take(i as int)).open,
            skip as int == scan(ev.take(i as int)).skip,
            -(i as int) <= skip <= i,
        decreases events.len() - i,
    {
        let ghost before = scan(ev.take(i as int));
        assert(ev.take(i + 1).drop_last() =~= ev.take(i as int));
        assert(ev.take(i + 1).last() == events@[i as int]@);
        let ghost after = scan(ev.take(i + 1));
        assert(after == scan_step(before, events@[i as int]@));
        match &events[i] {
            XmlEvent::Start(name) => {
                if is_skipped_element_exec(name) {
                    skip = skip + 1;
                } else if skip == 0 {
                    match block_element_exec(name) {
                        Some(tag) => {
                            open.push(Block { tag, text: String::new() });
                            assert(blocks_view(open@) =~= before.open.push(
                                (block_element(name@)->0, seq![]),
                            ));
                        },
                        None => {},
                    }
                }
            },
            XmlEvent::End(name) => {
                if is_skipped_element_exec(name) {
                    skip = skip - 1;
                } else if skip == 0 && open.len() > 0 {
                    if block_element_exec(name).is_some() {
                        let ghost old_open = open@;
                        let top = open.pop().unwrap();
                        assert(blocks_view(open@) =~= before.open.drop_last());
                        assert(top@ == before.open.last()) by {
                            assert(blocks_view(old_open).last() == old_open.last()@);
                        }
                        let norm = normalize_text(top.text.as_str());
                        if !norm.as_str().is_empty() {
                            let ghost old_blocks = blocks@;
                            blocks.push(Block { tag: top.tag, text: norm });
                            assert(blocks_view(blocks@) =~= blocks_view(old_blocks).push(
                                (before.open.last().0, normalized(before.open.last().1)),
                            ));
                        }
                    }
                }
            },
            XmlEvent::Text(raw) => {
                if skip == 0 && open.len() > 0 {
                    let ghost old_open = open@;
                    let mut top = open.pop().unwrap();
                    assert(top@ == before.open.last()) by {
                        assert(blocks_view(old_open).last() == old_open.last()@);
                    }
                    let piece = text_piece_exec(raw);
                    top.text.append(piece.as_str());
                    open.push(top);
                    assert(blocks_view(open@) =~= before.open.drop_last().push(
                        (before.open.last().0, before.open.last().1 + text_piece(
                            match raw {
                                Some(r) => Some(r@),
                                None => None,
                            },
                        )),
                    ));
                }
            },
            _ => {},
        }
        i += 1;
    }
    assert(ev.take(events.len() as int) =~= ev);
    blocks
}

/// `e` is the error that the XML reader reports on `source`: its message is
/// that of the reader's error event, its position the reader's buffer
/// position right after that event.
pub open spec fn is_reader_error(e: XhtmlError, source: Seq<char>) -> bool {
    match e {
        XhtmlError::Xml { position, message } => {
            &&& xml_events_of(source).last() == XmlEventView::Error(message@)
            &&& position == xml_event_positions(source).last()
        },
    }
}

/// Reads the events of `source` up to the end of the document: the events
/// before it where the reader reaches it, the reader's error where it reports
/// one first.
pub fn read_xml_events(source: &str) -> (r: Result<Vec<XmlEvent>, XhtmlError>)
    ensures
        r is Ok <==> document_readable(source@),
        r matches Ok(evs) ==> events_view(evs@) == document_events(source@),
        r matches Err(XhtmlError::Xml { message, .. }) ==> xml_events_of(source@).last()
            == XmlEventView::Error(message@),
        r matches Err(XhtmlError::Xml { position, .. }) ==> position == xml_event_positions(
            source@,
        ).last(),
{
    let mut reader = xml_reader(source);
    let ghost all = xml_events_of(source@);
    let ghost positions = xml_event_positions(source@);
    let mut events: Vec<XmlEvent> = Vec::new();
    loop
        invariant
            all == xml_events_of(source@),
            all.len() > 0,
            is_terminal(all.last()),
            forall|i: int| 0 <= i < all.len() - 1 ==> !is_terminal(#[trigger] all[i]),
            events@.len() < all.len(),
            events_view(events@) == all.take(events@.len() as int),
            xml_pending(reader) == all.skip(events@.len() as int),
            positions == xml_event_positions(source@),
            positions.len() == all.len(),
            xml_pending_positions(reader) == positions.skip(events@.len() as int),
        decreases xml_pending(reader).len(),
    {
        let ghost k = events@.len();
        let ev = xml_next_event(&mut reader);
        assert(ev@ == all[k as int]);
        match ev {
            XmlEvent::Eof => {
                assert(k == all.len() - 1);
                assert(events_view(events@) =~= all.drop_last());
                return Ok(events);
            },
            XmlEvent::Error(message) => {
                assert(k == all.len() - 1);
                let position = xml_position(&reader);
                return Err(XhtmlError::Xml { position, message });
            },
            _ => {
                assert(!is_terminal(all[k as int]));
                assert(k < all.len() - 1);
                let ghost prev = events@;
                events.push(ev);
                assert(events_view(events@) =~= events_view(prev).push(all[k as int]));
                assert(events_view(events@) =~= all.take(events@.len() as int));
                assert(xml_pending(reader) =~= all.skip(events@.len() as int));
                assert(xml_pending_positions(reader) =~= positions.skip(events@.len() as int));
            },
        }
    }
}

/// Parses `source` as XHTML and extracts the text of its block-level
/// elements (see `collect_blocks`): the blocks of the document's events,
/// where the reader reaches the end of the document; its error otherwise.
pub fn extract_xhtml(source: &str) -> (r: Result<Vec<Block>, XhtmlError>)
    requires
        patterns_compile(),
    ensures
        r is Ok <==> document_readable(source@),
        r matches Ok(b) ==> blocks_view(b@) == document_blocks(source@),
        r matches Err(XhtmlError::Xml { message, .. }) ==> xml_events_of(source@).last()
            == XmlEventView::Error(message@),
        r matches Err(XhtmlError::Xml { position, .. }) ==> position == xml_event_positions(
            source@,
        ).last(),
        r matches Err(e) ==> is_reader_error(e, source@),
{
    let events = read_xml_events(source)?;
    let blocks = collect_blocks(&events);
    Ok(blocks)
}

/// The scan state after `evs`, from `st`.
pub open spec fn scan_from(st: ScanState, evs: Seq<XmlEventView>) -> ScanState
    decreases evs.len(),
{
    if evs.len() == 0 {
        st
    } else {
        scan_step(scan_from(st, evs.drop_last()), evs.last())
    }
}

/// An event that opens or closes an element whose content is skipped.
pub open spec fn is_skip_tag(e: XmlEventView) -> bool {
    match e {
        XmlEventView::Start(name) => is_skipped_element(name),
        XmlEventView::End(name) => is_skipped_element(name),
        _ => false,
    }
}

proof fn lemma_scan_is_scan_from(evs: Seq<XmlEventView>)
    ensures
        scan(evs) == scan_from(ScanState { blocks: seq![], open: seq![], skip: 0 }, evs),
    decreases evs.len(),
{
    if evs.len() > 0 {
        lemma_scan_is_scan_from(evs.drop_last());
    }
}

proof fn lemma_scan_from_append(st: ScanState, a: Seq<XmlEventView>, b: Seq<XmlEventView>)
    ensures
        scan_from(st, a + b) == scan_from(scan_from(st, a), b),
    decreases b.len(),
{
    if b.len() == 0 {
        assert(a + b =~= a);
    } else {
        lemma_scan_from_append(st, a, b.drop_last());
        assert((a + b).drop_last() =~= a + b.drop_last());
        assert((a + b).last() == b.last());
    }
}

proof fn lemma_scan_from_skipped(st: ScanState, mid: Seq<XmlEventView>)
    requires
        st.skip > 0,
        forall|i: int| 0 <= i < mid.len() ==> !is_skip_tag(#[trigger] mid[i]),
    ensures
        scan_from(st, mid) == st,
    decreases mid.len(),
{
    if mid.len() > 0 {
        lemma_scan_from_skipped(st, mid.drop_last());
        assert(!is_skip_tag(mid[mid.len() - 1]));
    }
}

/// Nothing inside a `script`, `style`, `svg` or `head` element counts: where
/// the scan is not inside a skipped element, an element of that kind (start
/// tag, content without such tags, end tag) can be left out of the events
/// without changing the scan.
pub proof fn lemma_skipped_element_ignored(
    pre: Seq<XmlEventView>,
    name: Seq<u8>,
    mid: Seq<XmlEventView>,
    rest: Seq<XmlEventView>,
)
    requires
        is_skipped_element(name),
        scan(pre).skip >= 0,
        forall|i: int| 0 <= i < mid.len() ==> !is_skip_tag(#[trigger] mid[i]),
    ensures
        scan(pre + seq![XmlEventView::Start(name)] + mid + seq![XmlEventView::End(name)] + rest)
            == scan(pre + rest),
{
    let init = ScanState { blocks: seq![], open: seq![], skip: 0 };
    let st = scan(pre);
    let elem = seq![XmlEventView::Start(name)] + mid + seq![XmlEventView::End(name)];
    lemma_scan_is_scan_from(pre);
    lemma_scan_is_scan_from(pre + elem + rest);
    lemma_scan_is_scan_from(pre + rest);
    assert(pre + seq![XmlEventView::Start(name)] + mid + seq![XmlEventView::End(name)] + rest
        =~= pre + elem + rest);
    lemma_scan_from_append(init, pre + elem, rest);
    lemma_scan_from_append(init, pre, elem);
    lemma_scan_from_append(init, pre, rest);
    let opened = scan_step(st, XmlEventView::Start(name));
    assert(scan_from(st, seq![XmlEventView::Start(name)]) == opened) by {
        let one = seq![XmlEventView::Start(name)];
        assert(one.drop_last() =~= Seq::<XmlEventView>::empty());
        assert(scan_from(st, one.drop_last()) == st);
        assert(one.last() == XmlEventView::Start(name));
    }
    lemma_scan_from_append(st, seq![XmlEventView::Start(name)], mid);
    lemma_scan_from_skipped(opened, mid);
    lemma_scan_from_append(st, seq![XmlEventView::Start(name)] + mid, seq![XmlEventView::End(name)]);
    assert(scan_from(opened, seq![XmlEventView::End(name)]) == scan_step(opened, XmlEventView::End(name))) by {
        let one = seq![XmlEventView::End(name)];
        assert(one.drop_last() =~= Seq::<XmlEventView>::empty());
        assert(scan_from(opened, one.drop_last()) == opened);
        assert(one.last() == XmlEventView::End(name));
    }
    assert(scan_step(opened, XmlEventView::End(name)) == st);
    assert(scan_from(st, elem) == st);
}

/// Every block that the scan produces has a block tag and a text that is not
/// empty and neither starts nor ends with white space; every open block has a
/// block tag.
pub proof fn lemma_blocks_well_formed(evs: Seq<XmlEventView>)
    ensures
        forall|i: int| 0 <= i < scan(evs).blocks.len() ==> {
            let b = #[trigger] scan(evs).blocks[i];
            &&& is_block_tag(b.0)
            &&& b.1.len() > 0
            &&& !crate::text::is_white_space(b.1[0])
            &&& !crate::text::is_white_space(b.1.last())
        },
        forall|i: int| 0 <= i < scan(evs).open.len() ==> is_block_tag(#[trigger] scan(evs).open[i].0),
    decreases evs.len(),
{
    if evs.len() > 0 {
        lemma_blocks_well_formed(evs.drop_last());
        let st = scan(evs.drop_last());
        match evs.last() {
            XmlEventView::End(name) => {
                if !is_skipped_element(name) && st.skip == 0 && block_element(name) is Some
                    && st.open.len() > 0 {
                    crate::normalize::lemma_normalized_ends(st.open.last().1);
                    assert(is_block_tag(st.open[st.open.len() - 1].0));
                }
            },
            XmlEventView::Text(raw) => {
                if st.skip == 0 && st.open.len() > 0 {
                    assert(is_block_tag(st.open[st.open.len() - 1].0));
                }
            },
            _ => {},
        }
    }
}

/// Each of the element names `p`, `blockquote` and `h1` to `h6` opens a
/// block tagged with its own name, and no other element name opens one.
pub proof fn lemma_block_elements(name: Seq<u8>)
    ensures
        spells(name, "p"@) ==> block_element(name) == Some("p"@),
        spells(name, "blockquote"@) ==> block_element(name) == Some("blockquote"@),
        spells(name, "h1"@) ==> block_element(name) == Some("h1"@),
        spells(name, "h2"@) ==> block_element(name) == Some("h2"@),
        spells(name, "h3"@) ==> block_element(name) == Some("h3"@),
        spells(name, "h4"@) ==> block_element(name) == Some("h4"@),
        spells(name, "h5"@) ==> block_element(name) == Some("h5"@),
        spells(name, "h6"@) ==> block_element(name) == Some("h6"@),
        block_element(name) matches Some(w) ==> spells(name, w),
        block_element(name) is Some ==> spells(name, "p"@) || spells(name, "blockquote"@)
            || spells(name, "h1"@) || spells(name, "h2"@) || spells(name, "h3"@) || spells(
            name,
            "h4"@,
        ) || spells(name, "h5"@) || spells(name, "h6"@),
{
    reveal_strlit("p");
    reveal_strlit("blockquote");
    reveal_strlit("h1");
    reveal_strlit("h2");
    reveal_strlit("h3");
    reveal_strlit("h4");
    reveal_strlit("h5");
    reveal_strlit("h6");
    if name.len() == 2 {
        assert(spells(name, "h1"@) ==> name[1] as u32 == '1' as u32);
        assert(spells(name, "h2"@) ==> name[1] as u32 == '2' as u32);
        assert(spells(name, "h3"@) ==> name[1] as u32 == '3' as u32);
        assert(spells(name, "h4"@) ==> name[1] as u32 == '4' as u32);
        assert(spells(name, "h5"@) ==> name[1] as u32 == '5' as u32);
        assert(spells(name, "h6"@) ==> name[1] as u32 == '6' as u32);
    }
}

} // verus!
