use sherlock_corpus::blocks::{collect_blocks, extract_xhtml, read_xml_events, Block, XhtmlError};
use sherlock_corpus::content::{
    extract_novel_content, extract_novel_subtitle, extract_xhtml_title, novel_subtitle,
    prose_from_blocks, story_in_blocks, story_in_source, NovelError,
};
use sherlock_corpus::normalize::title_key;
use sherlock_corpus::search::{SearchAction, StorySearch};
use sherlock_corpus::content::StoryError;
use sherlock_corpus::xml::XmlEvent;

fn pairs(blocks: &[Block]) -> Vec<(String, String)> {
    blocks.iter().map(|b| (b.tag.clone(), b.text.clone())).collect()
}

fn block(tag: &str, text: &str) -> Block {
    Block { tag: tag.to_string(), text: text.to_string() }
}

const CHAPTER: &str = "<?xml version=\"1.0\" encoding=\"utf-8\"?>\n\
<html xmlns=\"http://www.w3.org/1999/xhtml\">\n\
<head><title>III: The Lauriston Garden Mystery</title><style>p { x }</style></head>\n\
<body>\n\
<h2>III: The Lauriston Garden Mystery</h2>\n\
<p>The Lauriston Garden Mystery</p>\n\
<p>I confess that I was  considerably\n   surprised &amp; startled.</p>\n\
<script>var p = 1;</script>\n\
<blockquote><p>Rache</p></blockquote>\n\
<p>   </p>\n\
<p>He <i>smiled</i>.</p>\n\
</body></html>";

#[test]
fn extract_xhtml_takes_block_texts() {
    let blocks = extract_xhtml(CHAPTER).ok().unwrap();
    assert_eq!(
        pairs(&blocks),
        vec![
            ("h2".to_string(), "III: The Lauriston Garden Mystery".to_string()),
            ("p".to_string(), "The Lauriston Garden Mystery".to_string()),
            ("p".to_string(), "I confess that I was considerably\nsurprised & startled.".to_string()),
            ("p".to_string(), "Rache".to_string()),
            ("p".to_string(), "He smiled.".to_string()),
        ]
    );
}

#[test]
fn extracted_blocks_are_well_formed() {
    let blocks = extract_xhtml(CHAPTER).ok().unwrap();
    for b in &blocks {
        assert!(["p", "blockquote", "h1", "h2", "h3", "h4", "h5", "h6"].contains(&b.tag.as_str()));
        assert!(!b.text.is_empty());
        assert_eq!(b.text.trim(), b.text);
    }
}

#[test]
fn extract_xhtml_reports_syntax_errors() {
    match extract_xhtml("<html><p>open</q></html>") {
        Err(XhtmlError::Xml { position, message }) => {
            assert!(position > 0);
            assert!(!message.is_empty());
        }
        _ => panic!("expected an XML error"),
    }
}

#[test]
fn read_xml_events_stops_at_the_end() {
    let events = read_xml_events("<p>a</p>").ok().unwrap();
    assert_eq!(events.len(), 3);
    assert!(matches!(&events[0], XmlEvent::Start(n) if n == b"p"));
    assert!(matches!(&events[1], XmlEvent::Text(Some(t)) if t == "a"));
    assert!(matches!(&events[2], XmlEvent::End(n) if n == b"p"));
}

#[test]
fn collect_blocks_skips_script_content_and_empty_blocks() {
    let events = vec![
        XmlEvent::Start(b"script".to_vec()),
        XmlEvent::Start(b"p".to_vec()),
        XmlEvent::Text(Some("hidden".to_string())),
        XmlEvent::End(b"p".to_vec()),
        XmlEvent::End(b"script".to_vec()),
        XmlEvent::Start(b"h1".to_vec()),
        XmlEvent::Text(Some("Title &lt;1&gt;".to_string())),
        XmlEvent::Text(Some("&bogus;".to_string())),
        XmlEvent::Text(None),
        XmlEvent::End(b"h1".to_vec()),
        XmlEvent::Start(b"p".to_vec()),
        XmlEvent::Text(Some("  ".to_string())),
        XmlEvent::End(b"p".to_vec()),
        XmlEvent::Other,
    ];
    assert_eq!(pairs(&collect_blocks(&events)), vec![("h1".to_string(), "Title <1>".to_string())]);
}

#[test]
fn titles_and_subtitles() {
    assert_eq!(extract_xhtml_title(CHAPTER).ok().unwrap(), Some("III: The Lauriston Garden Mystery".to_string()));
    assert_eq!(
        extract_xhtml_title("<TITLE lang=\"en\">A <b>bold</b> &amp; new</TITLE>").ok().unwrap(),
        Some("A bold & new".to_string())
    );
    assert_eq!(extract_xhtml_title("<p>no title</p>").ok().unwrap(), None);
    assert_eq!(extract_xhtml_title("<title>  </title>").ok().unwrap(), None);
    assert!(extract_xhtml_title("<title>&nope;</title>").is_err());
    assert_eq!(novel_subtitle("IV: The Sign"), Some("The Sign".to_string()));
    assert_eq!(novel_subtitle("xii.: Home Again"), Some("Home Again".to_string()));
    assert_eq!(novel_subtitle("Chapter One"), None);
    assert_eq!(extract_novel_subtitle(CHAPTER).ok().unwrap(), Some("The Lauriston Garden Mystery".to_string()));
}

#[test]
fn novel_content_leaves_out_the_subtitle() {
    let (sub, prose) = extract_novel_content(CHAPTER).ok().unwrap();
    assert_eq!(sub, Some("The Lauriston Garden Mystery".to_string()));
    assert_eq!(prose, "I confess that I was considerably\nsurprised & startled.\n\nRache\n\nHe smiled.");
}

#[test]
fn novel_content_without_prose_is_an_error() {
    let doc = "<html><head><title>I: Mr. Holmes</title></head><body><h2>I</h2><p>Mr. Holmes</p></body></html>";
    assert!(matches!(extract_novel_content(doc), Err(NovelError::NoProse)));
    assert!(matches!(extract_novel_content("<p>x</a>"), Err(NovelError::Xhtml(_))));
    assert!(matches!(extract_novel_content("<title>&x</title><p>a</p>"), Err(NovelError::Title(_))));
}

#[test]
fn prose_joins_prose_blocks() {
    let blocks = vec![block("h2", "Heading"), block("p", "One"), block("blockquote", "Two"), block("p", "Sub")];
    assert_eq!(prose_from_blocks(&blocks, &None), "One\n\nTwo\n\nSub");
    assert_eq!(prose_from_blocks(&blocks, &Some("Sub".to_string())), "One\n\nTwo");
}

#[test]
fn stories_are_found_by_title_key() {
    let blocks = vec![block("h2", "The Adventure of the Speckled Band"), block("p", "Text.")];
    let wanted = title_key("The Speckled Band");
    assert_eq!(story_in_blocks(&blocks, &wanted), Some("Text.".to_string()));
    assert_eq!(story_in_blocks(&blocks, &title_key("Silver Blaze")), None);
    let heading_in_p = vec![block("p", "The Speckled Band")];
    assert_eq!(story_in_blocks(&heading_in_p, &wanted), None);
    let no_prose = vec![block("h3", "The Speckled Band")];
    assert_eq!(story_in_blocks(&no_prose, &wanted), None);
}

#[test]
fn story_in_source_reads_the_document() {
    let doc = "<html><body><section><h2>Silver Blaze</h2><p>\u{201C}I am afraid, Watson.\u{201D}</p></section></body></html>";
    assert_eq!(story_in_source(doc, "Silver Blaze").ok().unwrap(), Some("\u{201C}I am afraid, Watson.\u{201D}".to_string()));
    assert_eq!(story_in_source(doc, "The Yellow Face").ok().unwrap(), None);
    assert!(story_in_source("<h2>x</h3>", "x").is_err());
}

#[test]
fn skipped_elements_change_nothing() {
    let with = "<body><p>One</p><script>if (a &lt; b) { x(); }</script><p>Two</p></body>";
    let without = "<body><p>One</p><p>Two</p></body>";
    let a = extract_xhtml(with).ok().unwrap();
    let b = extract_xhtml(without).ok().unwrap();
    assert_eq!(pairs(&a), pairs(&b));
    let styled = "<html><head><title>t</title><style>p{}</style></head><body><p>One</p><p>Two</p></body></html>";
    assert_eq!(pairs(&extract_xhtml(styled).ok().unwrap()), pairs(&b));
}

#[test]
fn mismatched_end_tags_are_errors() {
    assert!(extract_xhtml("<body><p>a</q></body>").is_err());
    assert!(read_xml_events("<a><b></a>").is_err());
}

#[test]
fn error_positions_are_reader_positions() {
    let source = "<html><p>open</q></html>";
    let first = match extract_xhtml(source) {
        Err(XhtmlError::Xml { position, .. }) => position,
        _ => panic!("expected an XML error"),
    };
    assert!(first > 0 && first <= source.len() as u64);
    match read_xml_events(source) {
        Err(XhtmlError::Xml { position, .. }) => assert_eq!(position, first),
        _ => panic!("expected an XML error"),
    }
}

const STORY: &str = "<html><body><h2>Silver Blaze</h2><p>Watson.</p></body></html>";
const OTHER: &str = "<html><body><h2>The Yellow Face</h2><p>Holmes.</p></body></html>";

#[test]
fn story_search_stops_at_the_first_document_with_the_story() {
    let docs = [OTHER, STORY, STORY];
    let mut search = StorySearch::new("Silver Blaze", docs.len());
    let mut action = search.action();
    let mut read = Vec::new();
    let found = loop {
        match action {
            SearchAction::Read(i) => {
                read.push(i);
                action = search.look_at(docs[i]);
            }
            other => break other,
        }
    };
    assert_eq!(read, vec![0, 1]);
    assert!(matches!(found, SearchAction::Found(1, ref p) if p == "Watson."));
}

#[test]
fn story_search_stops_at_an_unreadable_document() {
    let docs = [OTHER, "<h2>x</h3>", STORY];
    let mut search = StorySearch::new("Silver Blaze", docs.len());
    assert!(matches!(search.action(), SearchAction::Read(0)));
    assert!(matches!(search.look_at(docs[0]), SearchAction::Read(1)));
    assert!(matches!(
        search.look_at(docs[1]),
        SearchAction::Failed(1, StoryError::Xhtml(XhtmlError::Xml { .. }))
    ));
}

#[test]
fn story_search_without_the_story_finds_nothing() {
    let mut search = StorySearch::new("The Final Problem", 1);
    assert!(matches!(search.action(), SearchAction::Read(0)));
    assert!(matches!(search.look_at(OTHER), SearchAction::NotFound));
    let empty = StorySearch::new("The Final Problem", 0);
    assert!(matches!(empty.action(), SearchAction::NotFound));
}
