//! The corpus: the source repositories, the stories of each collection,
//! the novels, and the years of publication.

use vstd::prelude::*;
use crate::text::{same_text, strings_view};

verus! {

/// A source repository of the corpus.
pub struct Repository {
    /// The directory the repository is cloned into.
    pub name: String,
    /// Where it is cloned from.
    pub url: String,
}

/// The name and URL of each source repository, in order.
pub open spec fn repository_table() -> Seq<(Seq<char>, Seq<char>)> {
    seq![
        ("adventures"@, "https://github.com/standardebooks/arthur-conan-doyle_the-adventures-of-sherlock-holmes.git"@),
        ("memoirs"@, "https://github.com/standardebooks/arthur-conan-doyle_the-memoirs-of-sherlock-holmes.git"@),
        ("return"@, "https://github.com/standardebooks/arthur-conan-doyle_the-return-of-sherlock-holmes.git"@),
        ("his-last-bow"@, "https://github.com/standardebooks/arthur-conan-doyle_his-last-bow.git"@),
        ("case-book"@, "https://github.com/standardebooks/arthur-conan-doyle_the-casebook-of-sherlock-holmes.git"@),
        ("study-in-scarlet"@, "https://github.com/standardebooks/arthur-conan-doyle_a-study-in-scarlet.git"@),
        ("sign-of-four"@, "https://github.com/standardebooks/arthur-conan-doyle_the-sign-of-the-four.git"@),
        ("hound-of-the-baskervilles"@, "https://github.com/standardebooks/arthur-conan-doyle_the-hound-of-the-baskervilles.git"@),
        ("valley-of-fear"@, "https://github.com/standardebooks/arthur-conan-doyle_the-valley-of-fear.git"@),
    ]
}

/// The source repositories, in cloning order.
pub fn repositories() -> (r: Vec<Repository>)
    ensures
        r@.map_values(|x: Repository| (x.name@, x.url@)) == repository_table(),
{
    let mut r: Vec<Repository> = Vec::new();
    r.push(Repository { name: String::from_str("adventures"), url: String::from_str("https://github.com/standardebooks/arthur-conan-doyle_the-adventures-of-sherlock-holmes.git") });
    r.push(Repository { name: String::from_str("memoirs"), url: String::from_str("https://github.com/standardebooks/arthur-conan-doyle_the-memoirs-of-sherlock-holmes.git") });
    r.push(Repository { name: String::from_str("return"), url: String::from_str("https://github.com/standardebooks/arthur-conan-doyle_the-return-of-sherlock-holmes.git") });
    r.push(Repository { name: String::from_str("his-last-bow"), url: String::from_str("https://github.com/standardebooks/arthur-conan-doyle_his-last-bow.git") });
    r.push(Repository { name: String::from_str("case-book"), url: String::from_str("https://github.com/standardebooks/arthur-conan-doyle_the-casebook-of-sherlock-holmes.git") });
    r.push(Repository { name: String::from_str("study-in-scarlet"), url: String::from_str("https://github.com/standardebooks/arthur-conan-doyle_a-study-in-scarlet.git") });
    r.push(Repository { name: String::from_str("sign-of-four"), url: String::from_str("https://github.com/standardebooks/arthur-conan-doyle_the-sign-of-the-four.git") });
    r.push(Repository { name: String::from_str("hound-of-the-baskervilles"), url: String::from_str("https://github.com/standardebooks/arthur-conan-doyle_the-hound-of-the-baskervilles.git") });
    r.push(Repository { name: String::from_str("valley-of-fear"), url: String::from_str("https://github.com/standardebooks/arthur-conan-doyle_the-valley-of-fear.git") });
    assert(r@.map_values(|x: Repository| (x.name@, x.url@)) =~= repository_table());
    r
}

/// The story collections, in release order.
pub open spec fn collection_names() -> Seq<Seq<char>> {
    seq!["adventures"@, "memoirs"@, "return"@, "his-last-bow"@, "case-book"@]
}

/// The novels, in release order.
pub open spec fn novel_names() -> Seq<Seq<char>> {
    seq!["study-in-scarlet"@, "sign-of-four"@, "hound-of-the-baskervilles"@, "valley-of-fear"@]
}

fn strings_of(items: &[&str]) -> (r: Vec<String>)
    ensures
        strings_view(r@) == items@.map_values(|s: &str| s@),
{
    let mut r: Vec<String> = Vec::new();
    let mut i: usize = 0;
    while i < items.len()
        invariant
            i <= items.len(),
            strings_view(r@) == items@.map_values(|s: &str| s@).take(i as int),
        decreases items.len() - i,
    {
        let ghost prev = r@;
        let item: &str = items[i];
        r.push(String::from_str(item));
        assert(strings_view(r@) =~= strings_view(prev).push(items@[i as int]@));
        assert(strings_view(r@) =~= items@.map_values(|s: &str| s@).take(i + 1));
        i += 1;
    }
    assert(items@.map_values(|s: &str| s@).take(items.len() as int) =~= items@.map_values(|s: &str| s@));
    r
}

/// The story collections, in release order.
pub fn collection_order() -> (r: Vec<String>)
    ensures
        strings_view(r@) == collection_names(),
{
    let items = ["adventures", "memoirs", "return", "his-last-bow", "case-book"];
    let r = strings_of(&items);
    assert(items@.map_values(|s: &str| s@) =~= collection_names());
    r
}

/// The novels, in release order.
pub fn novel_order() -> (r: Vec<String>)
    ensures
        strings_view(r@) == novel_names(),
{
    let items = ["study-in-scarlet", "sign-of-four", "hound-of-the-baskervilles", "valley-of-fear"];
    let r = strings_of(&items);
    assert(items@.map_values(|s: &str| s@) =~= novel_names());
    r
}

/// The titles of the stories of a collection, in release order.
pub open spec fn collection_stories_of(collection: Seq<char>) -> Option<Seq<Seq<char>>> {
    if collection == "adventures"@ {
        Some(seq!["A Scandal in Bohemia"@, "The Red-Headed League"@, "A Case of Identity"@, "The Boscombe Valley Mystery"@, "The Five Orange Pips"@, "The Man with the Twisted Lip"@, "The Blue Carbuncle"@, "The Speckled Band"@, "The Engineer's Thumb"@, "The Noble Bachelor"@, "The Beryl Coronet"@, "The Copper Beeches"@])
    } else if collection == "memoirs"@ {
        Some(seq!["Silver Blaze"@, "The Yellow Face"@, "The Stockbroker's Clerk"@, "The Gloria Scott"@, "The Musgrave Ritual"@, "The Reigate Puzzle"@, "The Crooked Man"@, "The Resident Patient"@, "The Greek Interpreter"@, "The Naval Treaty"@, "The Final Problem"@, "The Cardboard Box"@])
    } else if collection == "return"@ {
        Some(seq!["The Empty House"@, "The Norwood Builder"@, "The Dancing Men"@, "The Solitary Cyclist"@, "The Priory School"@, "Black Peter"@, "Charles Augustus Milverton"@, "The Six Napoleons"@, "The Three Students"@, "The Golden Pince-Nez"@, "The Missing Three-Quarter"@, "The Abbey Grange"@, "The Second Stain"@])
    } else if collection == "his-last-bow"@ {
        Some(seq!["Wisteria Lodge"@, "The Bruce-Partington Plans"@, "The Devil's Foot"@, "The Red Circle"@, "The Disappearance of Lady Frances Carfax"@, "The Dying Detective"@, "His Last Bow"@])
    } else if collection == "case-book"@ {
        Some(seq!["The Mazarin Stone"@, "The Problem of Thor Bridge"@, "The Creeping Man"@, "The Sussex Vampire"@, "The Three Garridebs"@, "The Illustrious Client"@, "The Three Gables"@, "The Blanched Soldier"@, "The Lion's Mane"@, "The Retired Colourman"@, "The Veiled Lodger"@, "Shoscombe Old Place"@])
    } else {
        None
    }
}

/// The titles of the stories of a collection, in release order.
pub fn collection_stories(collection: &str) -> (r: Option<Vec<String>>)
    ensures
        match collection_stories_of(collection@) {
            Some(titles) => r matches Some(v) && strings_view(v@) == titles,
            None => r is None,
        },
{
    if same_text(collection, "adventures") {
        let items = ["A Scandal in Bohemia", "The Red-Headed League", "A Case of Identity", "The Boscombe Valley Mystery", "The Five Orange Pips", "The Man with the Twisted Lip", "The Blue Carbuncle", "The Speckled Band", "The Engineer's Thumb", "The Noble Bachelor", "The Beryl Coronet", "The Copper Beeches"];
        let r = strings_of(&items);
        assert(items@.map_values(|s: &str| s@) =~= seq!["A Scandal in Bohemia"@, "The Red-Headed League"@, "A Case of Identity"@, "The Boscombe Valley Mystery"@, "The Five Orange Pips"@, "The Man with the Twisted Lip"@, "The Blue Carbuncle"@, "The Speckled Band"@, "The Engineer's Thumb"@, "The Noble Bachelor"@, "The Beryl Coronet"@, "The Copper Beeches"@]);
        Some(r)
    } else if same_text(collection, "memoirs") {
        let items = ["Silver Blaze", "The Yellow Face", "The Stockbroker's Clerk", "The Gloria Scott", "The Musgrave Ritual", "The Reigate Puzzle", "The Crooked Man", "The Resident Patient", "The Greek Interpreter", "The Naval Treaty", "The Final Problem", "The Cardboard Box"];
        let r = strings_of(&items);
        assert(items@.map_values(|s: &str| s@) =~= seq!["Silver Blaze"@, "The Yellow Face"@, "The Stockbroker's Clerk"@, "The Gloria Scott"@, "The Musgrave Ritual"@, "The Reigate Puzzle"@, "The Crooked Man"@, "The Resident Patient"@, "The Greek Interpreter"@, "The Naval Treaty"@, "The Final Problem"@, "The Cardboard Box"@]);
        Some(r)
    } else if same_text(collection, "return") {
        let items = ["The Empty House", "The Norwood Builder", "The Dancing Men", "The Solitary Cyclist", "The Priory School", "Black Peter", "Charles Augustus Milverton", "The Six Napoleons", "The Three Students", "The Golden Pince-Nez", "The Missing Three-Quarter", "The Abbey Grange", "The Second Stain"];
        let r = strings_of(&items);
        assert(items@.map_values(|s: &str| s@) =~= seq!["The Empty House"@, "The Norwood Builder"@, "The Dancing Men"@, "The Solitary Cyclist"@, "The Priory School"@, "Black Peter"@, "Charles Augustus Milverton"@, "The Six Napoleons"@, "The Three Students"@, "The Golden Pince-Nez"@, "The Missing Three-Quarter"@, "The Abbey Grange"@, "The Second Stain"@]);
        Some(r)
    } else if same_text(collection, "his-last-bow") {
        let items = ["Wisteria Lodge", "The Bruce-Partington Plans", "The Devil's Foot", "The Red Circle", "The Disappearance of Lady Frances Carfax", "The Dying Detective", "His Last Bow"];
        let r = strings_of(&items);
        assert(items@.map_values(|s: &str| s@) =~= seq!["Wisteria Lodge"@, "The Bruce-Partington Plans"@, "The Devil's Foot"@, "The Red Circle"@, "The Disappearance of Lady Frances Carfax"@, "The Dying Detective"@, "His Last Bow"@]);
        Some(r)
    } else if same_text(collection, "case-book") {
        let items = ["The Mazarin Stone", "The Problem of Thor Bridge", "The Creeping Man", "The Sussex Vampire", "The Three Garridebs", "The Illustrious Client", "The Three Gables", "The Blanched Soldier", "The Lion's Mane", "The Retired Colourman", "The Veiled Lodger", "Shoscombe Old Place"];
        let r = strings_of(&items);
        assert(items@.map_values(|s: &str| s@) =~= seq!["The Mazarin Stone"@, "The Problem of Thor Bridge"@, "The Creeping Man"@, "The Sussex Vampire"@, "The Three Garridebs"@, "The Illustrious Client"@, "The Three Gables"@, "The Blanched Soldier"@, "The Lion's Mane"@, "The Retired Colourman"@, "The Veiled Lodger"@, "Shoscombe Old Place"@]);
        Some(r)
    } else {
        None
    }
}

/// The title of a collection; a name that is not a collection's is its own
/// title.
pub open spec fn collection_title_of(collection: Seq<char>) -> Seq<char> {
    if collection == "adventures"@ {
        "The Adventures of Sherlock Holmes"@
    } else if collection == "memoirs"@ {
        "The Memoirs of Sherlock Holmes"@
    } else if collection == "return"@ {
        "The Return of Sherlock Holmes"@
    } else if collection == "his-last-bow"@ {
        "His Last Bow"@
    } else if collection == "case-book"@ {
        "The Case-Book of Sherlock Holmes"@
    } else {
        collection
    }
}

/// The title of a collection; a name that is not a collection's is its own
/// title.
pub fn collection_title(collection: &str) -> (r: String)
    ensures
        r@ == collection_title_of(collection@),
{
    if same_text(collection, "adventures") {
        String::from_str("The Adventures of Sherlock Holmes")
    } else if same_text(collection, "memoirs") {
        String::from_str("The Memoirs of Sherlock Holmes")
    } else if same_text(collection, "return") {
        String::from_str("The Return of Sherlock Holmes")
    } else if same_text(collection, "his-last-bow") {
        String::from_str("His Last Bow")
    } else if same_text(collection, "case-book") {
        String::from_str("The Case-Book of Sherlock Holmes")
    } else {
        String::from_str(collection)
    }
}

/// The year in which a story was first published.
pub open spec fn story_year_of(title: Seq<char>) -> Option<u32> {
    if title == "A Scandal in Bohemia"@ {
        Some(1891)
    } else if title == "The Red-Headed League"@ {
        Some(1891)
    } else if title == "A Case of Identity"@ {
        Some(1891)
    } else if title == "The Boscombe Valley Mystery"@ {
        Some(1891)
    } else if title == "The Five Orange Pips"@ {
        Some(1891)
    } else if title == "The Man with the Twisted Lip"@ {
        Some(1891)
    } else if title == "The Blue Carbuncle"@ {
        Some(1892)
    } else if title == "The Speckled Band"@ {
        Some(1892)
    } else if title == "The Engineer's Thumb"@ {
        Some(1892)
    } else if title == "The Noble Bachelor"@ {
        Some(1892)
    } else if title == "The Beryl Coronet"@ {
        Some(1892)
    } else if title == "The Copper Beeches"@ {
        Some(1892)
    } else if title == "Silver Blaze"@ {
        Some(1892)
    } else if title == "The Yellow Face"@ {
        Some(1893)
    } else if title == "The Stockbroker's Clerk"@ {
        Some(1893)
    } else if title == "The Gloria Scott"@ {
        Some(1893)
    } else if title == "The Musgrave Ritual"@ {
        Some(1893)
    } else if title == "The Reigate Puzzle"@ {
        Some(1893)
    } else if title == "The Crooked Man"@ {
        Some(1893)
    } else if title == "The Resident Patient"@ {
        Some(1893)
    } else if title == "The Greek Interpreter"@ {
        Some(1893)
    } else if title == "The Naval Treaty"@ {
        Some(1893)
    } else if title == "The Final Problem"@ {
        Some(1893)
    } else if title == "The Cardboard Box"@ {
        Some(1893)
    } else if title == "The Empty House"@ {
        Some(1903)
    } else if title == "The Norwood Builder"@ {
        Some(1903)
    } else if title == "The Dancing Men"@ {
        Some(1903)
    } else if title == "The Solitary Cyclist"@ {
        Some(1903)
    } else if title == "The Priory School"@ {
        Some(1904)
    } else if title == "Black Peter"@ {
        Some(1904)
    } else if title == "Charles Augustus Milverton"@ {
        Some(1904)
    } else if title == "The Six Napoleons"@ {
        Some(1904)
    } else if title == "The Three Students"@ {
        Some(1904)
    } else if title == "The Golden Pince-Nez"@ {
        Some(1904)
    } else if title == "The Missing Three-Quarter"@ {
        Some(1904)
    } else if title == "The Abbey Grange"@ {
        Some(1904)
    } else if title == "The Second Stain"@ {
        Some(1904)
    } else if title == "Wisteria Lodge"@ {
        Some(1908)
    } else if title == "The Bruce-Partington Plans"@ {
        Some(1908)
    } else if title == "The Devil's Foot"@ {
        Some(1910)
    } else if title == "The Red Circle"@ {
        Some(1911)
    } else if title == "The Disappearance of Lady Frances Carfax"@ {
        Some(1911)
    } else if title == "The Dying Detective"@ {
        Some(1913)
    } else if title == "His Last Bow"@ {
        Some(1917)
    } else if title == "The Mazarin Stone"@ {
        Some(1921)
    } else if title == "The Problem of Thor Bridge"@ {
        Some(1922)
    } else if title == "The Creeping Man"@ {
        Some(1923)
    } else if title == "The Sussex Vampire"@ {
        Some(1924)
    } else if title == "The Three Garridebs"@ {
        Some(1925)
    } else if title == "The Illustrious Client"@ {
        Some(1925)
    } else if title == "The Three Gables"@ {
        Some(1926)
    } else if title == "The Blanched Soldier"@ {
        Some(1926)
    } else if title == "The Lion's Mane"@ {
        Some(1926)
    } else if title == "The Retired Colourman"@ {
        Some(1926)
    } else if title == "The Veiled Lodger"@ {
        Some(1927)
    } else if title == "Shoscombe Old Place"@ {
        Some(1927)
    } else {
        None
    }
}

/// The year in which a story was first published.
pub fn story_year(title: &str) -> (r: Option<u32>)
    ensures
        r == story_year_of(title@),
{
    if same_text(title, "A Scandal in Bohemia") {
        Some(1891)
    } else if same_text(title, "The Red-Headed League") {
        Some(1891)
    } else if same_text(title, "A Case of Identity") {
        Some(1891)
    } else if same_text(title, "The Boscombe Valley Mystery") {
        Some(1891)
    } else if same_text(title, "The Five Orange Pips") {
        Some(1891)
    } else if same_text(title, "The Man with the Twisted Lip") {
        Some(1891)
    } else if same_text(title, "The Blue Carbuncle") {
        Some(1892)
    } else if same_text(title, "The Speckled Band") {
        Some(1892)
    } else if same_text(title, "The Engineer's Thumb") {
        Some(1892)
    } else if same_text(title, "The Noble Bachelor") {
        Some(1892)
    } else if same_text(title, "The Beryl Coronet") {
        Some(1892)
    } else if same_text(title, "The Copper Beeches") {
        Some(1892)
    } else if same_text(title, "Silver Blaze") {
        Some(1892)
    } else if same_text(title, "The Yellow Face") {
        Some(1893)
    } else if same_text(title, "The Stockbroker's Clerk") {
        Some(1893)
    } else if same_text(title, "The Gloria Scott") {
        Some(1893)
    } else if same_text(title, "The Musgrave Ritual") {
        Some(1893)
    } else if same_text(title, "The Reigate Puzzle") {
        Some(1893)
    } else if same_text(title, "The Crooked Man") {
        Some(1893)
    } else if same_text(title, "The Resident Patient") {
        Some(1893)
    } else if same_text(title, "The Greek Interpreter") {
        Some(1893)
    } else if same_text(title, "The Naval Treaty") {
        Some(1893)
    } else if same_text(title, "The Final Problem") {
        Some(1893)
    } else if same_text(title, "The Cardboard Box") {
        Some(1893)
    } else if same_text(title, "The Empty House") {
        Some(1903)
    } else if same_text(title, "The Norwood Builder") {
        Some(1903)
    } else if same_text(title, "The Dancing Men") {
        Some(1903)
    } else if same_text(title, "The Solitary Cyclist") {
        Some(1903)
    } else if same_text(title, "The Priory School") {
        Some(1904)
    } else if same_text(title, "Black Peter") {
        Some(1904)
    } else if same_text(title, "Charles Augustus Milverton") {
        Some(1904)
    } else if same_text(title, "The Six Napoleons") {
        Some(1904)
    } else if same_text(title, "The Three Students") {
        Some(1904)
    } else if same_text(title, "The Golden Pince-Nez") {
        Some(1904)
    } else if same_text(title, "The Missing Three-Quarter") {
        Some(1904)
    } else if same_text(title, "The Abbey Grange") {
        Some(1904)
    } else if same_text(title, "The Second Stain") {
        Some(1904)
    } else if same_text(title, "Wisteria Lodge") {
        Some(1908)
    } else if same_text(title, "The Bruce-Partington Plans") {
        Some(1908)
    } else if same_text(title, "The Devil's Foot") {
        Some(1910)
    } else if same_text(title, "The Red Circle") {
        Some(1911)
    } else if same_text(title, "The Disappearance of Lady Frances Carfax") {
        Some(1911)
    } else if same_text(title, "The Dying Detective") {
        Some(1913)
    } else if same_text(title, "His Last Bow") {
        Some(1917)
    } else if same_text(title, "The Mazarin Stone") {
        Some(1921)
    } else if same_text(title, "The Problem of Thor Bridge") {
        Some(1922)
    } else if same_text(title, "The Creeping Man") {
        Some(1923)
    } else if same_text(title, "The Sussex Vampire") {
        Some(1924)
    } else if same_text(title, "The Three Garridebs") {
        Some(1925)
    } else if same_text(title, "The Illustrious Client") {
        Some(1925)
    } else if same_text(title, "The Three Gables") {
        Some(1926)
    } else if same_text(title, "The Blanched Soldier") {
        Some(1926)
    } else if same_text(title, "The Lion's Mane") {
        Some(1926)
    } else if same_text(title, "The Retired Colourman") {
        Some(1926)
    } else if same_text(title, "The Veiled Lodger") {
        Some(1927)
    } else if same_text(title, "Shoscombe Old Place") {
        Some(1927)
    } else {
        None
    }
}

/// The year in which a novel was first published.
pub open spec fn novel_year_of(novel: Seq<char>) -> Option<u32> {
    if novel == "study-in-scarlet"@ {
        Some(1887)
    } else if novel == "sign-of-four"@ {
        Some(1890)
    } else if novel == "hound-of-the-baskervilles"@ {
        Some(1902)
    } else if novel == "valley-of-fear"@ {
        Some(1915)
    } else {
        None
    }
}

/// The year in which a novel was first published.
pub fn novel_year(novel: &str) -> (r: Option<u32>)
    ensures
        r == novel_year_of(novel@),
{
    if same_text(novel, "study-in-scarlet") {
        Some(1887)
    } else if same_text(novel, "sign-of-four") {
        Some(1890)
    } else if same_text(novel, "hound-of-the-baskervilles") {
        Some(1902)
    } else if same_text(novel, "valley-of-fear") {
        Some(1915)
    } else {
        None
    }
}

/// The title of a novel.
pub open spec fn novel_title_of(novel: Seq<char>) -> Option<Seq<char>> {
    if novel == "study-in-scarlet"@ {
        Some("A Study in Scarlet"@)
    } else if novel == "sign-of-four"@ {
        Some("The Sign of the Four"@)
    } else if novel == "hound-of-the-baskervilles"@ {
        Some("The Hound of the Baskervilles"@)
    } else if novel == "valley-of-fear"@ {
        Some("The Valley of Fear"@)
    } else {
        None
    }
}

/// The title of a novel.
pub fn novel_title(novel: &str) -> (r: Option<String>)
    ensures
        match novel_title_of(novel@) {
            Some(t) => r matches Some(s) && s@ == t,
            None => r is None,
        },
{
    if same_text(novel, "study-in-scarlet") {
        Some(String::from_str("A Study in Scarlet"))
    } else if same_text(novel, "sign-of-four") {
        Some(String::from_str("The Sign of the Four"))
    } else if same_text(novel, "hound-of-the-baskervilles") {
        Some(String::from_str("The Hound of the Baskervilles"))
    } else if same_text(novel, "valley-of-fear") {
        Some(String::from_str("The Valley of Fear"))
    } else {
        None
    }
}

/// The release order of the stories of each collection, as the collections
/// were published; a name that is not a collection's has no stories.
pub proof fn lemma_collection_release_order(collection: Seq<char>)
    ensures
        collection_stories_of("adventures"@) == Some(seq![
            "A Scandal in Bohemia"@, "The Red-Headed League"@, "A Case of Identity"@,
            "The Boscombe Valley Mystery"@, "The Five Orange Pips"@,
            "The Man with the Twisted Lip"@, "The Blue Carbuncle"@, "The Speckled Band"@,
            "The Engineer's Thumb"@, "The Noble Bachelor"@, "The Beryl Coronet"@,
            "The Copper Beeches"@,
        ]),
        collection_stories_of("memoirs"@) == Some(seq![
            "Silver Blaze"@, "The Yellow Face"@, "The Stockbroker's Clerk"@, "The Gloria Scott"@,
            "The Musgrave Ritual"@, "The Reigate Puzzle"@, "The Crooked Man"@,
            "The Resident Patient"@, "The Greek Interpreter"@, "The Naval Treaty"@,
            "The Final Problem"@, "The Cardboard Box"@,
        ]),
        collection_stories_of("return"@) == Some(seq![
            "The Empty House"@, "The Norwood Builder"@, "The Dancing Men"@,
            "The Solitary Cyclist"@, "The Priory School"@, "Black Peter"@,
            "Charles Augustus Milverton"@, "The Six Napoleons"@, "The Three Students"@,
            "The Golden Pince-Nez"@, "The Missing Three-Quarter"@, "The Abbey Grange"@,
            "The Second Stain"@,
        ]),
        collection_stories_of("his-last-bow"@) == Some(seq![
            "Wisteria Lodge"@, "The Bruce-Partington Plans"@, "The Devil's Foot"@,
            "The Red Circle"@, "The Disappearance of Lady Frances Carfax"@,
            "The Dying Detective"@, "His Last Bow"@,
        ]),
        collection_stories_of("case-book"@) == Some(seq![
            "The Mazarin Stone"@, "The Problem of Thor Bridge"@, "The Creeping Man"@,
            "The Sussex Vampire"@, "The Three Garridebs"@, "The Illustrious Client"@,
            "The Three Gables"@, "The Blanched Soldier"@, "The Lion's Mane"@,
            "The Retired Colourman"@, "The Veiled Lodger"@, "Shoscombe Old Place"@,
        ]),
        collection_stories_of(collection) is Some ==> collection_names().contains(collection),
{
    reveal_strlit("adventures");
    reveal_strlit("memoirs");
    reveal_strlit("return");
    reveal_strlit("his-last-bow");
    reveal_strlit("case-book");
    assert("memoirs"@.len() != "adventures"@.len());
    assert("return"@.len() != "adventures"@.len() && "return"@.len() != "memoirs"@.len());
    assert("his-last-bow"@.len() != "adventures"@.len() && "his-last-bow"@.len() != "memoirs"@.len()
        && "his-last-bow"@.len() != "return"@.len());
    assert("case-book"@.len() != "adventures"@.len() && "case-book"@.len() != "memoirs"@.len()
        && "case-book"@.len() != "return"@.len() && "case-book"@.len() != "his-last-bow"@.len());
    if collection_stories_of(collection) is Some {
        let names = collection_names();
        if collection == "adventures"@ {
            assert(names[0] == collection);
        } else if collection == "memoirs"@ {
            assert(names[1] == collection);
        } else if collection == "return"@ {
            assert(names[2] == collection);
        } else if collection == "his-last-bow"@ {
            assert(names[3] == collection);
        } else {
            assert(names[4] == collection);
        }
    }
}

} // verus!
