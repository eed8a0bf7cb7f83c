use sherlock_corpus::catalog::{
    collection_order, collection_stories, collection_title, novel_order, novel_title, novel_year,
    repositories, story_year,
};
use sherlock_corpus::chapters::{
    chapter_numbers_readable_in, get_novel_chapters, novel_chapter_key, stable_order, ChapterError,
    ChapterKeyError,
};
use sherlock_corpus::frontmatter::{novel_frontmatter, story_frontmatter, yaml_quote};
use sherlock_corpus::paths::{
    chapter_file_name, is_generated_content, is_story_source, relative_content_path,
    story_file_name,
};

fn names(items: &[&str]) -> Vec<String> {
    items.iter().map(|s| s.to_string()).collect()
}

#[test]
fn chapter_keys_from_stems() {
    assert!(matches!(novel_chapter_key("chapter-2-3"), Ok((2, 3))));
    assert!(matches!(novel_chapter_key("chapter-1"), Ok((1, 1))));
    assert!(matches!(novel_chapter_key("Chapter-4"), Ok((4, 1))));
    assert!(matches!(novel_chapter_key("part-chapter-07-10"), Ok((7, 10))));
    assert!(matches!(novel_chapter_key("imprint"), Err(ChapterKeyError::NoChapterNumbers)));
    assert!(matches!(novel_chapter_key("chapter-99999999999"), Err(ChapterKeyError::PartUnreadable)));
    assert!(chapter_numbers_readable_in("chapter-1-2"));
    assert!(chapter_numbers_readable_in("chapter-99999999999-99999999999"));
    assert!(!chapter_numbers_readable_in("chapter-1-99999999999"));
}

#[test]
fn stable_order_sorts_by_key_and_keeps_ties() {
    assert_eq!(stable_order(&vec![(1, 1), (0, 0), (1, 1), (0, 5)]), vec![1, 3, 0, 2]);
    assert_eq!(stable_order(&vec![]), Vec::<usize>::new());
    assert_eq!(stable_order(&vec![(2, 1), (1, 9), (1, 2)]), vec![2, 1, 0]);
}

#[test]
fn novel_chapters_in_reading_order() {
    let files = names(&[
        "chapter-2.xhtml",
        "chapter-1-2.xhtml",
        "imprint.xhtml",
        "chapter-1-1.xhtml",
        "chapter-10.html",
        "chapter-3.txt",
        "colophon.xhtml",
        "chapter-x.xhtml",
    ]);
    let sorted = get_novel_chapters(&files).ok().unwrap();
    assert_eq!(
        sorted,
        names(&["chapter-x.xhtml", "chapter-1-1.xhtml", "chapter-1-2.xhtml", "chapter-2.xhtml", "chapter-10.html"])
    );
}

#[test]
fn novel_chapter_errors() {
    assert!(matches!(get_novel_chapters(&names(&["a.xhtml", "b.html"])), Err(ChapterError::NoChapterFiles)));
    assert!(matches!(get_novel_chapters(&Vec::new()), Err(ChapterError::NoChapterFiles)));
    match get_novel_chapters(&names(&["chapter-1.xhtml", "chapter-1-99999999999.xhtml"])) {
        Err(ChapterError::ChapterNumberUnreadable(n)) => assert_eq!(n, "chapter-1-99999999999.xhtml"),
        _ => panic!("expected an unreadable chapter number"),
    }
    assert_eq!(
        get_novel_chapters(&names(&["chapter-1-99999999999.xhtml"])).ok().unwrap(),
        names(&["chapter-1-99999999999.xhtml"])
    );
}

#[test]
fn yaml_quoting_escapes_backslashes_and_quotes() {
    assert_eq!(yaml_quote("plain"), "\"plain\"");
    assert_eq!(yaml_quote("a \"b\" \\c"), "\"a \\\"b\\\" \\\\c\"");
    assert_eq!(yaml_quote(""), "\"\"");
}

#[test]
fn story_front_matter() {
    assert_eq!(
        story_frontmatter("The Adventure of the Speckled Band", "adventures", 1892, 8),
        "---\ntitle: \"the Speckled Band\"\ncollection: \"adventures\"\nyear: 1892\nrelease_order: 8\nlayout: \"single\"\n---\n\n"
    );
    assert_eq!(
        story_frontmatter("The Engineer's \"Thumb\"", "adventures", 1892, 9),
        "---\ntitle: \"The Engineer's \\\"Thumb\\\"\"\ncollection: \"adventures\"\nyear: 1892\nrelease_order: 9\nlayout: \"single\"\n---\n\n"
    );
}

#[test]
fn novel_front_matter() {
    assert_eq!(
        novel_frontmatter("Chapter 3", Some("The Lauriston Garden Mystery"), "A Study in Scarlet", 3, 1887),
        "---\ntitle: \"Chapter 3\"\nsubtitle: \"The Lauriston Garden Mystery\"\nnovel: \"A Study in Scarlet\"\nchapter: 3\nyear: 1887\nlayout: \"single\"\n---\n\n"
    );
    assert_eq!(
        novel_frontmatter("Chapter 12", None, "The Valley of Fear", 12, 1915),
        "---\ntitle: \"Chapter 12\"\nnovel: \"The Valley of Fear\"\nchapter: 12\nyear: 1915\nlayout: \"single\"\n---\n\n"
    );
}

#[test]
fn paths_shown_relative_to_content() {
    assert_eq!(relative_content_path("/site/content/stories/a.md", "/site/content"), "/stories/a.md");
    assert_eq!(relative_content_path("/site/content/stories/a.md", "/site/cont"), "//site/content/stories/a.md");
    assert_eq!(relative_content_path("/other/x.md", "/site/content"), "//other/x.md");
}

#[test]
fn page_file_names() {
    assert_eq!(chapter_file_name(3), "chapter-03.md");
    assert_eq!(chapter_file_name(0), "chapter-00.md");
    assert_eq!(chapter_file_name(12), "chapter-12.md");
    assert_eq!(chapter_file_name(123), "chapter-123.md");
    assert_eq!(story_file_name("The Engineer's Thumb"), Some("the-engineer-s-thumb.md".to_string()));
}

#[test]
fn generated_pages_are_markdown_but_not_section_indexes() {
    assert!(is_generated_content("a-scandal-in-bohemia.md"));
    assert!(is_generated_content("x.y.md"));
    assert!(!is_generated_content("_index.md"));
    assert!(!is_generated_content(".md"));
    assert!(!is_generated_content("md"));
    assert!(!is_generated_content("notes.txt"));
    assert!(!is_generated_content("a.md.bak"));
}

#[test]
fn every_story_has_a_year_and_a_slug() {
    let mut count = 0;
    for coll in collection_order() {
        let titles = collection_stories(&coll).unwrap();
        assert!(!titles.is_empty());
        for t in titles {
            assert!(story_year(&t).is_some(), "{t}");
            assert!(story_file_name(&t).is_some());
            count += 1;
        }
    }
    assert_eq!(count, 56);
    assert_eq!(story_year("A Scandal in Bohemia"), Some(1891));
    assert_eq!(story_year("Shoscombe Old Place"), Some(1927));
    assert_eq!(story_year("Unknown"), None);
}

#[test]
fn catalog_entries() {
    let repos = repositories();
    assert_eq!(repos.len(), 9);
    assert_eq!(repos[0].name, "adventures");
    assert!(repos.iter().all(|r| r.url.starts_with("https://github.com/standardebooks/")));
    for coll in collection_order() {
        assert!(repos.iter().any(|r| r.name == coll));
    }
    for novel in novel_order() {
        assert!(repos.iter().any(|r| r.name == novel));
        assert!(novel_title(&novel).is_some());
        assert!(novel_year(&novel).is_some());
    }
    assert_eq!(collection_title("case-book"), "The Case-Book of Sherlock Holmes");
    assert_eq!(collection_title("other"), "other");
    assert_eq!(novel_title("sign-of-four"), Some("The Sign of the Four".to_string()));
    assert_eq!(novel_year("valley-of-fear"), Some(1915));
    assert!(collection_stories("nothing").is_none());
}

fn read_quoted(q: &str) -> Option<String> {
    let inner = q.strip_prefix('"')?.strip_suffix('"')?;
    let mut out = String::new();
    let mut chars = inner.chars();
    while let Some(c) = chars.next() {
        match c {
            '\\' => match chars.next() {
                Some(e @ ('\\' | '"')) => out.push(e),
                _ => return None,
            },
            '"' => return None,
            _ => out.push(c),
        }
    }
    Some(out)
}

#[test]
fn quoted_values_read_back() {
    for s in ["", "plain", "a \"b\"", "back\\slash", "\\\"", "The Engineer's Thumb"] {
        assert_eq!(read_quoted(&yaml_quote(s)), Some(s.to_string()));
    }
}

#[test]
fn chapter_pages_have_distinct_names() {
    let names: Vec<String> = (0u32..200).map(chapter_file_name).collect();
    for (i, a) in names.iter().enumerate() {
        for b in &names[i + 1..] {
            assert_ne!(a, b);
        }
    }
    assert_ne!(chapter_file_name(1), chapter_file_name(10));
}

#[test]
fn story_sources_are_xhtml_files() {
    assert!(is_story_source("chapter-1.xhtml"));
    assert!(is_story_source("a.b.xhtml"));
    assert!(!is_story_source(".xhtml"));
    assert!(!is_story_source("chapter-1.html"));
    assert!(!is_story_source("xhtml"));
}
