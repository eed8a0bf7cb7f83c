//! Novel chapter files: which files are chapters and in which order they come.

use vstd::prelude::*;
use crate::number::{parse_u32, parsed_u32};
use crate::pattern::{
    check_patterns, patterns_compile, regex_capture_group, regex_capture_group_result,
    CHAPTER_NUMBERS,
};
use crate::text::{
    chars_of, ends_with, has_prefix, has_suffix, slice_chars, starts_with, string_of,
    strings_view,
};

verus! {

/// The part and chapter numbers in a chapter file's stem: `chapter-P` is
/// part `P`, chapter 1; `chapter-P-C` is part `P`, chapter `C`. `None` where
/// the stem has no such numbers or the part number does not fit a `u32`.
pub open spec fn chapter_key_of(stem: Seq<char>) -> Option<(u32, u32)> {
    match regex_capture_group_result(CHAPTER_NUMBERS@, stem, 1) {
        Some(Some(p)) => match parsed_u32(p) {
            Some(part) => Some(
                (
                    part,
                    match regex_capture_group_result(CHAPTER_NUMBERS@, stem, 2) {
                        Some(Some(c)) => parsed_u32(c)->0,
                        _ => 1,
                    },
                ),
            ),
            None => None,
        },
        _ => None,
    }
}

/// Where a stem has a readable part number, its chapter number, if it has
/// one, is readable too.
pub open spec fn chapter_numbers_readable(stem: Seq<char>) -> bool {
    match regex_capture_group_result(CHAPTER_NUMBERS@, stem, 1) {
        Some(Some(p)) => parsed_u32(p) is Some ==> match regex_capture_group_result(
            CHAPTER_NUMBERS@,
            stem,
            2,
        ) {
            Some(Some(c)) => parsed_u32(c) is Some,
            _ => true,
        },
        _ => true,
    }
}

/// Why a stem gives no chapter ordering.
pub enum ChapterKeyError {
    /// The stem holds no `chapter-` numbers.
    NoChapterNumbers,
    /// The part number does not fit a `u32`.
    PartUnreadable,
}

/// Why the chapters of a novel could not be listed.
pub enum ChapterError {
    /// `regex` refused a pattern of the library.
    PatternsRejected,
    /// No file name is that of a chapter.
    NoChapterFiles,
    /// This chapter file has a part number but a chapter number that does not
    /// fit a `u32`.
    ChapterNumberUnreadable(String),
}

/// Whether `stem`'s chapter number is readable where its part number is.
pub fn chapter_numbers_readable_in(stem: &str) -> (b: bool)
    requires
        patterns_compile(),
    ensures
        b == chapter_numbers_readable(stem@),
{
    match regex_capture_group(CHAPTER_NUMBERS, stem, 1) {
        Some(Some(p)) => {
            if parse_u32(p.as_str()).is_none() {
                return true;
            }
            match regex_capture_group(CHAPTER_NUMBERS, stem, 2) {
                Some(Some(c)) => parse_u32(c.as_str()).is_some(),
                _ => true,
            }
        },
        _ => true,
    }
}

/// The part and chapter numbers of a chapter file's stem, by which chapters
/// are ordered.
pub fn novel_chapter_key(stem: &str) -> (r: Result<(u32, u32), ChapterKeyError>)
    requires
        patterns_compile(),
        chapter_numbers_readable(stem@),
    ensures
        match chapter_key_of(stem@) {
            Some(k) => r == Ok::<(u32, u32), ChapterKeyError>(k),
            None => r is Err,
        },
        r matches Err(ChapterKeyError::NoChapterNumbers) <==> !(regex_capture_group_result(
            CHAPTER_NUMBERS@,
            stem@,
            1,
        ) is Some && regex_capture_group_result(CHAPTER_NUMBERS@, stem@, 1)->0 is Some),
{
    match regex_capture_group(CHAPTER_NUMBERS, stem, 1) {
        Some(Some(p)) => match parse_u32(p.as_str()) {
            Some(part) => {
                let chapter = match regex_capture_group(CHAPTER_NUMBERS, stem, 2) {
                    Some(Some(c)) => match parse_u32(c.as_str()) {
                        Some(n) => n,
                        None => {
                            proof {
                                assert(false);
                            }
                            1
                        },
                    },
                    _ => 1,
                };
                Ok((part, chapter))
            },
            None => Err(ChapterKeyError::PartUnreadable),
        },
        _ => Err(ChapterKeyError::NoChapterNumbers),
    }
}

/// A novel chapter file: `chapter-…` with an `.xhtml` or `.html` extension.
pub open spec fn is_chapter_file(name: Seq<char>) -> bool {
    has_prefix(name, "chapter-"@) && (has_suffix(name, ".xhtml"@) || has_suffix(name, ".html"@))
}

/// The stem of a chapter file: its name without the extension.
pub open spec fn chapter_stem(name: Seq<char>) -> Seq<char> {
    if has_suffix(name, ".xhtml"@) {
        name.take(name.len() - ".xhtml"@.len())
    } else if has_suffix(name, ".html"@) {
        name.take(name.len() - ".html"@.len())
    } else {
        name
    }
}

/// The names in `names` that are chapter files, in order.
pub open spec fn chapter_files(names: Seq<Seq<char>>) -> Seq<Seq<char>>
    decreases names.len(),
{
    if names.len() == 0 {
        seq![]
    } else {
        chapter_files(names.drop_last()) + if is_chapter_file(names.last()) {
            seq![names.last()]
        } else {
            seq![]
        }
    }
}

/// The key by which a chapter file is sorted: its chapter key, or `(0, 0)`
/// where it has none.
pub open spec fn sort_key(name: Seq<char>) -> (u32, u32) {
    match chapter_key_of(chapter_stem(name)) {
        Some(k) => k,
        None => (0, 0),
    }
}

/// Lexicographic order on keys.
pub open spec fn key_lt(a: (u32, u32), b: (u32, u32)) -> bool {
    a.0 < b.0 || (a.0 == b.0 && a.1 < b.1)
}

/// In a stable sort by `keys`, position `a` comes before position `b`.
pub open spec fn placed_before(keys: Seq<(u32, u32)>, a: int, b: int) -> bool {
    key_lt(keys[a], keys[b]) || (keys[a] == keys[b] && a < b)
}

/// `order` lists every position of `keys` once, sorted by key, positions
/// with equal keys in their original order.
pub open spec fn is_stable_order(keys: Seq<(u32, u32)>, order: Seq<usize>) -> bool {
    &&& order.len() == keys.len()
    &&& forall|i: int| 0 <= i < order.len() ==> #[trigger] order[i] < keys.len()
    &&& forall|i: int, j: int|
        0 <= i < j < order.len() ==> placed_before(keys, #[trigger] order[i] as int, #[trigger] order[j] as int)
    &&& forall|k: int| 0 <= k < keys.len() ==> #[trigger] lists(order, k)
}

/// Some entry of `order` is `k`.
pub open spec fn lists(order: Seq<usize>, k: int) -> bool {
    exists|i: int| 0 <= i < order.len() && order[i] == k
}

proof fn lemma_stable_orders_agree_upto(
    keys: Seq<(u32, u32)>,
    o1: Seq<usize>,
    o2: Seq<usize>,
    i: int,
)
    requires
        is_stable_order(keys, o1),
        is_stable_order(keys, o2),
        0 <= i < o1.len(),
    ensures
        forall|j: int| 0 <= j <= i ==> o1[j] == o2[j],
    decreases i,
{
    if i > 0 {
        lemma_stable_orders_agree_upto(keys, o1, o2, i - 1);
    }
    let a = o1[i];
    let b = o2[i];
    if a != b {
        assert(lists(o1, b as int));
        let p = choose|p: int| 0 <= p < o1.len() && o1[p] == b;
        if p < i {
            assert(o2[p] == b);
            assert(placed_before(keys, o2[p] as int, o2[i] as int));
        }
        assert(p > i);
        assert(placed_before(keys, o1[i] as int, o1[p] as int));
        assert(lists(o2, a as int));
        let q = choose|q: int| 0 <= q < o2.len() && o2[q] == a;
        if q < i {
            assert(o1[q] == a);
            assert(placed_before(keys, o1[q] as int, o1[i] as int));
        }
        assert(q > i);
        assert(placed_before(keys, o2[i] as int, o2[q] as int));
    }
}

/// The stable sort order of a sequence of keys is unique: any two orders
/// that list every position once, sorted by key and keeping positions with
/// equal keys in their original order, are the same.
pub proof fn lemma_stable_order_unique(keys: Seq<(u32, u32)>, o1: Seq<usize>, o2: Seq<usize>)
    requires
        is_stable_order(keys, o1),
        is_stable_order(keys, o2),
    ensures
        o1 == o2,
{
    if o1.len() > 0 {
        lemma_stable_orders_agree_upto(keys, o1, o2, o1.len() - 1);
    }
    assert(o1 =~= o2);
}

fn key_lt_exec(a: (u32, u32), b: (u32, u32)) -> (r: bool)
    ensures
        r == key_lt(a, b),
{
    a.0 < b.0 || (a.0 == b.0 && a.1 < b.1)
}

/// The stable sort order of `keys`: the positions of `keys`, sorted by key,
/// positions with equal keys in their original order.
pub fn stable_order(keys: &Vec<(u32, u32)>) -> (order: Vec<usize>)
    ensures
        is_stable_order(keys@, order@),
{
    let mut order: Vec<usize> = Vec::new();
    let mut i: usize = 0;
    while i < keys.len()
        invariant
            i <= keys.len(),
            order@.len() == i,
            forall|a: int| 0 <= a < order@.len() ==> #[trigger] order@[a] < i,
            forall|a: int, b: int|
                0 <= a < b < order@.len() ==> placed_before(keys@, #[trigger] order@[a] as int, #[trigger] order@[b] as int),
            forall|k: int| 0 <= k < i ==> #[trigger] lists(order@, k),
        decreases keys.len() - i,
    {
        let mut p: usize = 0;
        while p < order.len() && !key_lt_exec(keys[i], keys[order[p]])
            invariant
                p <= order@.len(),
                i < keys.len(),
                forall|q: int| 0 <= q < p ==> !key_lt(keys@[i as int], keys@[#[trigger] order@[q] as int]),
                forall|a: int| 0 <= a < order@.len() ==> #[trigger] order@[a] < i,
            decreases order.len() - p,
        {
            p += 1;
        }
        let ghost old_order = order@;
        order.insert(p, i);
        assert(order@ == old_order.insert(p as int, i));
        assert forall|a: int| 0 <= a < order@.len() implies #[trigger] order@[a] < i + 1 by {
            if a < p {
                assert(order@[a] == old_order[a]);
            } else if a > p {
                assert(order@[a] == old_order[a - 1]);
            }
        }
        assert forall|a: int, b: int|
            0 <= a < b < order@.len() implies placed_before(keys@, #[trigger] order@[a] as int, #[trigger] order@[b] as int) by {
            if b < p {
                assert(order@[a] == old_order[a] && order@[b] == old_order[b]);
            } else if b == p {
                assert(order@[a] == old_order[a]);
                assert(!key_lt(keys@[i as int], keys@[old_order[a] as int]));
            } else if a < p {
                assert(order@[a] == old_order[a] && order@[b] == old_order[b - 1]);
                assert(placed_before(keys@, old_order[a] as int, old_order[b - 1] as int));
            } else if a == p {
                assert(order@[b] == old_order[b - 1]);
                assert(key_lt(keys@[i as int], keys@[old_order[p as int] as int]));
                if b - 1 > p {
                    assert(placed_before(keys@, old_order[p as int] as int, old_order[b - 1] as int));
                }
            } else {
                assert(order@[a] == old_order[a - 1] && order@[b] == old_order[b - 1]);
                assert(placed_before(keys@, old_order[a - 1] as int, old_order[b - 1] as int));
            }
        }
        assert forall|k: int| 0 <= k < i + 1 implies #[trigger] lists(order@, k) by {
            if k == i {
                assert(order@[p as int] == k);
            } else {
                assert(lists(old_order, k));
                let a0 = choose|a: int| 0 <= a < old_order.len() && old_order[a] == k;
                if a0 < p {
                    assert(order@[a0] == k);
                } else {
                    assert(order@[a0 + 1] == k);
                }
            }
        }
        i += 1;
    }
    order
}

/// The sort keys of chapter files.
pub open spec fn chapter_keys(files: Seq<Seq<char>>) -> Seq<(u32, u32)> {
    files.map_values(|f: Seq<char>| sort_key(f))
}

/// The entries of `files` in the positions that `order` lists.
pub open spec fn reordered(files: Seq<Seq<char>>, order: Seq<usize>) -> Seq<Seq<char>> {
    order.map_values(|i: usize| files[i as int])
}

fn is_chapter_file_exec(name: &str) -> (b: bool)
    ensures
        b == is_chapter_file(name@),
{
    starts_with(name, "chapter-") && (ends_with(name, ".xhtml") || ends_with(name, ".html"))
}

fn chapter_stem_exec(name: &str) -> (r: String)
    ensures
        r@ == chapter_stem(name@),
{
    let v = chars_of(name);
    if ends_with(name, ".xhtml") {
        let ext = chars_of(".xhtml");
        string_of(&slice_chars(&v, 0, v.len() - ext.len()))
    } else if ends_with(name, ".html") {
        let ext = chars_of(".html");
        string_of(&slice_chars(&v, 0, v.len() - ext.len()))
    } else {
        String::from_str(name)
    }
}

/// The chapter files among `names` (the file names of a novel's text
/// directory), in reading order: by part and chapter number, files with
/// equal numbers, or without numbers (which sort as part 0, chapter 0), in
/// their order in `names`. Fails where a pattern is refused, where no name is
/// that of a chapter file, and, where there are two chapter files or more,
/// where one has a chapter number that does not fit a `u32`.
pub fn get_novel_chapters(names: &Vec<String>) -> (r: Result<Vec<String>, ChapterError>)
    ensures
        r matches Err(ChapterError::PatternsRejected) <==> !patterns_compile(),
        patterns_compile() ==> (r matches Err(ChapterError::NoChapterFiles) <==> chapter_files(
            strings_view(names@),
        ).len() == 0),
        patterns_compile() ==> (r matches Err(ChapterError::ChapterNumberUnreadable(_)) <==> {
            let files = chapter_files(strings_view(names@));
            files.len() >= 2 && exists|i: int|
                0 <= i < files.len() && !chapter_numbers_readable(chapter_stem(#[trigger] files[i]))
        }),
        r matches Err(ChapterError::ChapterNumberUnreadable(n)) ==> {
            &&& chapter_files(strings_view(names@)).contains(n@)
            &&& !chapter_numbers_readable(chapter_stem(n@))
        },
        r matches Ok(sorted) ==> {
            let files = chapter_files(strings_view(names@));
            exists|order: Seq<usize>|
                is_stable_order(chapter_keys(files), order) && strings_view(sorted@)
                    == #[trigger] reordered(files, order)
        },
{
    if !check_patterns() {
        return Err(ChapterError::PatternsRejected);
    }
    let ghost all = strings_view(names@);
    let mut files: Vec<String> = Vec::new();
    let mut i: usize = 0;
    while i < names.len()
        invariant
            i <= names.len(),
            all == strings_view(names@),
            strings_view(files@) == chapter_files(all.take(i as int)),
        decreases names.len() - i,
    {
        assert(all.take(i + 1).drop_last() =~= all.take(i as int));
        assert(all.take(i + 1).last() == names@[i as int]@);
        if is_chapter_file_exec(names[i].as_str()) {
            let ghost prev = files@;
            files.push(names[i].clone());
            assert(strings_view(files@) =~= strings_view(prev).push(names@[i as int]@));
        }
        i += 1;
    }
    assert(all.take(names.len() as int) =~= all);
    let ghost fv = strings_view(files@);
    assert(fv == chapter_files(all));
    if files.len() == 0 {
        return Err(ChapterError::NoChapterFiles);
    }
    if files.len() < 2 {
        let ghost order = seq![0usize];
        assert(order[0] == 0);
        assert(lists(order, 0));
        assert(is_stable_order(chapter_keys(fv), order));
        assert(strings_view(files@) =~= reordered(fv, order));
        return Ok(files);
    }
    let mut j: usize = 0;
    while j < files.len()
        invariant
            j <= files.len(),
            files.len() >= 2,
            patterns_compile(),
            fv == strings_view(files@),
            fv == chapter_files(all),
            all == strings_view(names@),
            forall|k: int| 0 <= k < j ==> chapter_numbers_readable(chapter_stem(#[trigger] fv[k])),
        decreases files.len() - j,
    {
        let stem = chapter_stem_exec(files[j].as_str());
        if !chapter_numbers_readable_in(stem.as_str()) {
            assert(fv[j as int] == files@[j as int]@);
            assert(fv.contains(files@[j as int]@));
            return Err(ChapterError::ChapterNumberUnreadable(files[j].clone()));
        }
        assert(fv[j as int] == files@[j as int]@);
        j += 1;
    }
    let mut keys: Vec<(u32, u32)> = Vec::new();
    let mut k: usize = 0;
    while k < files.len()
        invariant
            k <= files.len(),
            patterns_compile(),
            fv == strings_view(files@),
            forall|m: int| 0 <= m < files.len() ==> chapter_numbers_readable(chapter_stem(#[trigger] fv[m])),
            keys@ == chapter_keys(fv).take(k as int),
        decreases files.len() - k,
    {
        assert(fv[k as int] == files@[k as int]@);
        let stem = chapter_stem_exec(files[k].as_str());
        let key = match novel_chapter_key(stem.as_str()) {
            Ok(key) => key,
            Err(_) => (0, 0),
        };
        keys.push(key);
        assert(keys@ =~= chapter_keys(fv).take(k + 1));
        k += 1;
    }
    assert(keys@ =~= chapter_keys(fv));
    let order = stable_order(&keys);
    let mut sorted: Vec<String> = Vec::new();
    let mut m: usize = 0;
    while m < order.len()
        invariant
            m <= order.len(),
            order@.len() == files@.len(),
            forall|a: int| 0 <= a < order@.len() ==> #[trigger] order@[a] < files@.len(),
            fv == strings_view(files@),
            strings_view(sorted@) == reordered(fv, order@).take(m as int),
        decreases order.len() - m,
    {
        let ghost prev = sorted@;
        let idx = order[m];
        sorted.push(files[idx].clone());
        assert(reordered(fv, order@)[m as int] == fv[idx as int]);
        assert(strings_view(sorted@) =~= strings_view(prev).push(files@[idx as int]@));
        assert(strings_view(sorted@) =~= reordered(fv, order@).take(m + 1));
        m += 1;
    }
    assert(reordered(fv, order@).take(order.len() as int) =~= reordered(fv, order@));
    Ok(sorted)
}

} // verus!
