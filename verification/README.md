# sherlock_corpus

Rebuilds a Hugo corpus of the Sherlock Holmes stories and novels from the
Standard Ebooks sources: it clones the source repositories, finds each story
and chapter in their XHTML, cleans up the prose and writes one Markdown page
with front matter per story or chapter.

The library under `src/` is verified with Verus:

- `text`, `number`: character sequences, trimming, joining, decimal numerals.
- `unicode`, `pattern`, `xml`: the calls into `unicode-normalization`, std's
  Unicode tables, `regex` and `quick-xml`, each with the contract it is
  trusted to meet.
- `normalize`: prose normalization, slugs and title keys, and the laws that
  they give their own results back.
- `spacing`: the laws of the spacing rules (runs replaced by one character,
  line breaks without padding, capped blank lines).
- `blocks`: the block-level text of an XHTML document, as a scan over the
  reader's events, which are named as a function of the source.
- `content`: titles, chapter subtitles, the prose of a story or a chapter.
- `search`: the search for a story through its documents, one document at a
  time; the program reads each document the search asks for.
- `chapters`: which files are chapters, their part and chapter numbers, and a
  stable sort by those numbers.
- `frontmatter`, `paths`: YAML quoting, front matter, page file names, the
  pages a rebuild removes.
- `catalog`: the repositories, collections, novels and years.
- `prompt`: the meaning of an answer to a yes/no question.

`app/main.rs` is the command-line program around it: arguments, prompts,
git, the file system and the Ctrl-C handler.
