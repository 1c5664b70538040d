//! Configuration values of the service, as plain data.  Loading them
//! from files and environment variables belongs to the surrounding
//! process; here the settings only carry what the pipeline reads, and
//! the proxy addresses are assembled with exact contracts.

use vstd::prelude::*;
use vstd::string::*;

use crate::text::matches_lower;
use crate::text::eq_ignore_ascii_case;

verus! {

/// Where the HTTP server listens.
#[derive(Debug, Clone)]
pub struct ApplicationSettings {
    pub host: String,
    pub port: u16,
}

/// The proxy client's request timeout, in seconds.
#[derive(Debug, Clone)]
pub struct ClientSettings {
    pub timeout: u64,
}

/// Where the vector store listens.
#[derive(Debug, Clone)]
pub struct QdrantSettings {
    pub host: String,
    pub port: u16,
}

/// Shared knobs of the ingestion pipelines: the marker-count threshold
/// of the regulation splitter, and the cache directories and collection
/// names of the two document spaces.
#[derive(Debug, Clone)]
pub struct CommonSettings {
    pub lower_threshold: usize,
    pub thinktank_cache: String,
    pub thinktank_space: String,
    pub guideline_cache: String,
    pub guideline_space: String,
}

/// The remote tool endpoints: one shared address prefix and one path
/// per tool.
#[derive(Debug, Clone)]
pub struct ItoolsSettings {
    pub proxy_timeout: u64,
    pub proxy_address: String,
    pub word_to_pdf: String,
    pub pdf_to_html: String,
    pub excel_reader: String,
    pub docx_reader: String,
    pub pdf_reader: String,
    pub splitter: String,
    pub reranker: String,
    pub embedding: String,
}

impl ItoolsSettings {
    /// The full address of the word-to-PDF converter.
    pub fn word_to_pdf_proxy(&self) -> (r: String)
        ensures
            r@ == self.proxy_address@ + self.word_to_pdf@,
    {
        self.proxy_address.clone().concat(self.word_to_pdf.as_str())
    }

    /// The full address of the PDF-to-HTML converter.
    pub fn pdf_to_html_proxy(&self) -> (r: String)
        ensures
            r@ == self.proxy_address@ + self.pdf_to_html@,
    {
        self.proxy_address.clone().concat(self.pdf_to_html.as_str())
    }

    /// The full address of the spreadsheet reader.
    pub fn excel_reader_proxy(&self) -> (r: String)
        ensures
            r@ == self.proxy_address@ + self.excel_reader@,
    {
        self.proxy_address.clone().concat(self.excel_reader.as_str())
    }

    /// The full address of the docx reader.
    pub fn docx_reader_proxy(&self) -> (r: String)
        ensures
            r@ == self.proxy_address@ + self.docx_reader@,
    {
        self.proxy_address.clone().concat(self.docx_reader.as_str())
    }

    /// The full address of the generic PDF reader.
    pub fn pdf_reader_proxy(&self) -> (r: String)
        ensures
            r@ == self.proxy_address@ + self.pdf_reader@,
    {
        self.proxy_address.clone().concat(self.pdf_reader.as_str())
    }

    /// The full address of the remote splitter.
    pub fn splitter_proxy(&self) -> (r: String)
        ensures
            r@ == self.proxy_address@ + self.splitter@,
    {
        self.proxy_address.clone().concat(self.splitter.as_str())
    }

    /// The full address of the reranker.
    pub fn reranker_proxy(&self) -> (r: String)
        ensures
            r@ == self.proxy_address@ + self.reranker@,
    {
        self.proxy_address.clone().concat(self.reranker.as_str())
    }

    /// The full address of the embedder.
    pub fn embedding_proxy(&self) -> (r: String)
        ensures
            r@ == self.proxy_address@ + self.embedding@,
    {
        self.proxy_address.clone().concat(self.embedding.as_str())
    }
}

/// Which configuration profile the process runs under.
#[derive(Clone, Copy, Debug, PartialEq, Eq, Structural)]
pub enum Environment {
    Local,
    Production,
}

impl Environment {
    /// The profile's name, as configuration files spell it.
    pub fn as_str(&self) -> (r: &'static str)
        ensures
            *self is Local ==> r@ == "local"@,
            *self is Production ==> r@ == "production"@,
    {
        match self {
            Environment::Local => "local",
            Environment::Production => "production",
        }
    }

    /// Parses a profile name, ignoring ASCII case; anything besides the
    /// two known profiles is rejected with a message naming the input.
    pub fn parse(s: &str) -> (r: Result<Environment, String>)
        ensures
            matches_lower(s@, "local"@) ==> r == Ok::<Environment, String>(Environment::Local),
            matches_lower(s@, "production"@) ==> r == Ok::<Environment, String>(
                Environment::Production,
            ),
            !matches_lower(s@, "local"@) && !matches_lower(s@, "production"@) ==> (r matches Err(m)
                && m@ == s@
                + " is not a supported environment. Use either 'local' or 'production'"@),
    {
        proof {
            reveal_strlit("local");
            reveal_strlit("production");
        }
        if eq_ignore_ascii_case(s, "local") {
            Ok(Environment::Local)
        } else if eq_ignore_ascii_case(s, "production") {
            Ok(Environment::Production)
        } else {
            Err(
                s.to_owned().concat(
                    " is not a supported environment. Use either 'local' or 'production'",
                ),
            )
        }
    }
}

} // verus!
