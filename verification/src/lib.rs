//! Building blocks of a Sherlock Holmes corpus builder: text clean-up,
//! XHTML block extraction, chapter ordering and Hugo front matter.

pub mod blocks;
pub mod catalog;
pub mod chapters;
pub mod content;
pub mod frontmatter;
pub mod normalize;
pub mod number;
pub mod paths;
pub mod pattern;
pub mod prompt;
pub mod search;
pub mod spacing;
pub mod text;
pub mod unicode;
pub mod xml;
