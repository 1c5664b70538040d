//! Validation of the uploaded document's name: the closed set of
//! supported extensions, parsed case-insensitively from the suffix after
//! the final dot.

use vstd::prelude::*;
use vstd::string::*;

use crate::blunder::ParseError;
use crate::text::matches_lower;
use crate::text::eq_ignore_ascii_case;

verus! {

/// The supported document formats.
#[derive(Clone, Copy, Debug, PartialEq, Eq, Structural)]
pub enum Extension {
    Doc,
    Pdf,
    Xls,
    Docx,
    Xlsx,
}

impl Extension {
    /// Which extension a suffix names: exactly the five supported
    /// suffixes parse, each ignoring ASCII case.
    pub open spec fn spec_of(s: Seq<char>) -> Option<Extension> {
        if matches_lower(s, "doc"@) {
            Some(Extension::Doc)
        } else if matches_lower(s, "pdf"@) {
            Some(Extension::Pdf)
        } else if matches_lower(s, "xls"@) {
            Some(Extension::Xls)
        } else if matches_lower(s, "docx"@) {
            Some(Extension::Docx)
        } else if matches_lower(s, "xlsx"@) {
            Some(Extension::Xlsx)
        } else {
            None
        }
    }

    /// Parses a suffix, as `spec_of` describes; an unsupported suffix is
    /// an invalid-extension error.
    pub fn parse(s: &str) -> (r: Result<Extension, ParseError>)
        ensures
            r == match Extension::spec_of(s@) {
                Some(e) => Ok::<Extension, ParseError>(e),
                None => Err::<Extension, ParseError>(ParseError::InvalidExtension),
            },
    {
        if eq_ignore_ascii_case(s, "doc") {
            Ok(Extension::Doc)
        } else if eq_ignore_ascii_case(s, "pdf") {
            Ok(Extension::Pdf)
        } else if eq_ignore_ascii_case(s, "xls") {
            Ok(Extension::Xls)
        } else if eq_ignore_ascii_case(s, "docx") {
            Ok(Extension::Docx)
        } else if eq_ignore_ascii_case(s, "xlsx") {
            Ok(Extension::Xlsx)
        } else {
            Err(ParseError::InvalidExtension)
        }
    }

    /// Whether documents of this format are spreadsheets, whose chunks
    /// are tagged as tables.
    pub fn is_table(&self) -> (r: bool)
        ensures
            r == (*self is Xls || *self is Xlsx),
    {
        match self {
            Extension::Xls | Extension::Xlsx => true,
            _ => false,
        }
    }
}

/// The index of the last occurrence of `c`, or -1 if there is none.
pub open spec fn last_index_of(s: Seq<char>, c: char) -> int
    decreases s.len(),
{
    if s.len() == 0 {
        -1
    } else if s[s.len() - 1] == c {
        s.len() - 1
    } else {
        last_index_of(s.drop_last(), c)
    }
}

proof fn lemma_last_index_skip(s: Seq<char>, c: char, i: int)
    requires
        0 < i <= s.len(),
        s[i - 1] != c,
        last_index_of(s, c) == last_index_of(s.subrange(0, i), c),
    ensures
        last_index_of(s, c) == last_index_of(s.subrange(0, i - 1), c),
{
    let part = s.subrange(0, i);
    assert(part.drop_last() =~= s.subrange(0, i - 1));
}

/// Finds the last occurrence of `c`, as `last_index_of` describes.
pub fn find_last(s: &str, c: char) -> (r: Option<usize>)
    ensures
        match r {
            Some(i) => 0 <= i < s@.len() && last_index_of(s@, c) == i as int,
            None => last_index_of(s@, c) == -1,
        },
{
    let n: usize = s.unicode_len();
    let mut i: usize = n;
    proof {
        assert(s@.subrange(0, n as int) =~= s@);
    }
    while i > 0 && s.get_char(i - 1) != c
        invariant
            0 <= i <= n,
            n == s@.len(),
            last_index_of(s@, c) == last_index_of(s@.subrange(0, i as int), c),
        decreases i,
    {
        proof {
            lemma_last_index_skip(s@, c, i as int);
        }
        i = i - 1;
    }
    if i == 0 {
        proof {
            assert(s@.subrange(0, 0) =~= Seq::<char>::empty());
        }
        None
    } else {
        proof {
            let part = s@.subrange(0, i as int);
            assert(part[part.len() - 1] == c);
        }
        Some(i - 1)
    }
}

/// A validated document name: the original name together with its parsed
/// extension.
#[derive(Debug, Clone)]
pub struct DocumentName {
    pub name: String,
    pub extension: Extension,
}

impl DocumentName {
    /// The parsed extension a full filename carries, by the suffix after
    /// its last dot: `None` stands for a missing suffix.
    pub open spec fn spec_suffix(s: Seq<char>) -> Option<Seq<char>> {
        let dot = last_index_of(s, '.');
        if dot < 0 {
            None
        } else {
            Some(s.subrange(dot + 1, s.len() as int))
        }
    }

    /// Validates a filename: a name without a dot is missing its
    /// extension, a suffix outside the supported set is invalid, and
    /// otherwise the name parses with the suffix's extension.
    pub fn parse(s: String) -> (r: Result<DocumentName, ParseError>)
        ensures
            r == match DocumentName::spec_suffix(s@) {
                None => Err::<DocumentName, ParseError>(ParseError::MissingExtension),
                Some(suffix) => match Extension::spec_of(suffix) {
                    Some(e) => Ok::<DocumentName, ParseError>(
                        DocumentName { name: s, extension: e },
                    ),
                    None => Err::<DocumentName, ParseError>(ParseError::InvalidExtension),
                },
            },
    {
        let dot = match find_last(s.as_str(), '.') {
            None => {
                return Err(ParseError::MissingExtension);
            },
            Some(i) => i,
        };
        let n: usize = s.as_str().unicode_len();
        let suffix = s.as_str().substring_char(dot + 1, n);
        let extension = Extension::parse(suffix)?;
        Ok(DocumentName { name: s, extension })
    }

    /// The document's full name, as uploaded.
    pub fn name(&self) -> (r: &str)
        ensures
            r@ == self.name@,
    {
        self.name.as_str()
    }

    /// The document's parsed extension.
    pub fn extension(&self) -> (r: Extension)
        ensures
            r == self.extension,
    {
        self.extension
    }
}

/// Validates the filename an upload carries, which may be absent
/// altogether: absence is a distinct validation error.
pub fn parse_upload_filename(filename: Option<String>) -> (r: Result<DocumentName, ParseError>)
    ensures
        r == match filename {
            None => Err::<DocumentName, ParseError>(ParseError::MissingFileName),
            Some(s) => match DocumentName::spec_suffix(s@) {
                None => Err::<DocumentName, ParseError>(ParseError::MissingExtension),
                Some(suffix) => match Extension::spec_of(suffix) {
                    Some(e) => Ok::<DocumentName, ParseError>(
                        DocumentName { name: s, extension: e },
                    ),
                    None => Err::<DocumentName, ParseError>(ParseError::InvalidExtension),
                },
            },
        },
{
    match filename {
        None => Err(ParseError::MissingFileName),
        Some(s) => DocumentName::parse(s),
    }
}

} // verus!
