//! The document pipeline's decision logic: the conversion fast path,
//! the extraction routing, the ordered chunking-strategy chain with its
//! aggregated failure report, the embedding step that assembles stored
//! points, and the state machine that sequences one document's run.
//!
//! Everything here computes; the remote calls the decisions ask for
//! (converter, readers, splitter, embedder, the store) are performed by
//! the surrounding asynchronous code, which feeds each outcome back in.

use vstd::prelude::*;
use vstd::string::*;

use crate::blunder::ErrorChain;
use crate::business::Document;
use crate::business::UploadDomainRequest;
use crate::business::area_tagged;
use crate::business::base_entries;
use crate::business::merge_entries;
use crate::cipher::SEED;
use crate::cipher::murmur64_of;
use crate::cipher::murmurhash64int;
use crate::document::Extension;
use crate::document::last_index_of;
use crate::document::find_last;
use crate::payload::SpecValue;
use crate::payload::Value;
use crate::regulation::spec_regulation_articles;
use crate::regulation::spec_sections;
use crate::regulation::spec_threshold_message;
use crate::regulation::splitting_regulation_document;
use crate::store::Point;
use crate::text::join_parts;
use crate::text::join_strings;
use crate::text::split_parts;
use vstd::utf8::encode_utf8;

verus! {

/// The model of one chunk: its text, the chapter heading it falls
/// under (empty if none), and the document-type tag.
pub ghost struct SpecArticle {
    pub article: Seq<char>,
    pub chapter: Seq<char>,
    pub doctype: Seq<char>,
}

/// One retrievable chunk of a document: a text span, the chapter it
/// belongs to (empty if none), and a tag telling table documents from
/// plain ones.
#[derive(Debug)]
pub struct Article {
    pub article: String,
    pub chapter: String,
    pub doctype: String,
}

impl View for Article {
    type V = SpecArticle;

    open spec fn view(&self) -> SpecArticle {
        SpecArticle {
            article: self.article@,
            chapter: self.chapter@,
            doctype: self.doctype@,
        }
    }
}

/// The serialized form of a chunk: its three fields as a payload map.
pub open spec fn spec_article_fields(a: SpecArticle) -> Seq<(Seq<char>, SpecValue)> {
    seq![
        ("article"@, SpecValue::Text(a.article)),
        ("chapter"@, SpecValue::Text(a.chapter)),
        ("doctype"@, SpecValue::Text(a.doctype)),
    ]
}

impl Article {
    /// Serializes the chunk's fields as a payload map, ready to merge
    /// into the document's shared metadata.
    pub fn serialize(&self) -> (r: Value)
        ensures
            r@ == SpecValue::Fields(spec_article_fields(self@)),
    {
        let mut entries: Vec<(String, Value)> = Vec::new();
        entries.push((String::from_str("article"), Value::Str(self.article.clone())));
        entries.push((String::from_str("chapter"), Value::Str(self.chapter.clone())));
        entries.push((String::from_str("doctype"), Value::Str(self.doctype.clone())));
        let r = Value::Hash(entries);
        proof {
            assert(crate::payload::value_view(entries@[0].1) == SpecValue::Text(self.article@));
            assert(crate::payload::value_view(entries@[1].1) == SpecValue::Text(self.chapter@));
            assert(crate::payload::value_view(entries@[2].1) == SpecValue::Text(self.doctype@));
            assert(r@ matches SpecValue::Fields(fs) && fs =~= spec_article_fields(self@));
        }
        r
    }
}

/// The chunk models a vector of chunks denotes.
pub open spec fn articles_view(articles: Seq<Article>) -> Seq<SpecArticle> {
    Seq::new(articles.len(), |i: int| articles[i]@)
}

/// Whether a document of this format must pass through the remote
/// converter before extraction: only the legacy word-processor format
/// does.
pub fn conversion_needed(extension: Extension) -> (r: bool)
    ensures
        r == (extension is Doc),
{
    match extension {
        Extension::Doc => true,
        _ => false,
    }
}

/// The path with the file name's extension replaced by `pdf`: the
/// suffix after the last dot of the final path component is swapped
/// out, and a component without an extension gains one.
pub open spec fn pdf_swapped(path: Seq<char>) -> Seq<char> {
    let slash = last_index_of(path, '/');
    let dot = last_index_of(path, '.');
    if dot > slash + 1 {
        path.subrange(0, dot) + ".pdf"@
    } else {
        path + ".pdf"@
    }
}

/// The sibling PDF's path, as `pdf_swapped` describes.
pub fn pdf_filepath(filepath: &str) -> (r: String)
    ensures
        r@ == pdf_swapped(filepath@),
{
    let n: usize = filepath.unicode_len();
    let stem_end: usize = match (find_last(filepath, '/'), find_last(filepath, '.')) {
        (Some(slash), Some(dot)) => if dot > slash + 1 {
            dot
        } else {
            n
        },
        (None, Some(dot)) => if dot > 0 {
            dot
        } else {
            n
        },
        (_, None) => n,
    };
    proof {
        if stem_end < n {
            assert(filepath@.subrange(0, stem_end as int) + ".pdf"@ == pdf_swapped(filepath@));
        } else {
            assert(filepath@.subrange(0, n as int) =~= filepath@);
        }
    }
    filepath.substring_char(0, stem_end).to_owned().concat(".pdf")
}

/// The path a converted document is found at: the sibling PDF for the
/// legacy format, the input path itself for every other format.
pub fn converted_filepath(filepath: &str, extension: Extension) -> (r: String)
    ensures
        extension is Doc ==> r@ == pdf_swapped(filepath@),
        !(extension is Doc) ==> r@ == filepath@,
{
    if conversion_needed(extension) {
        pdf_filepath(filepath)
    } else {
        filepath.to_owned()
    }
}

/// The request one extraction call posts: the spreadsheet reader gets a
/// read-mode hint and an empty sheet selector, the other readers only
/// the path.
#[derive(Debug)]
pub enum ExtractionRequest {
    Spreadsheet { filepath: String, readmode: String, sheet: String },
    Generic { filepath: String },
    Docx { filepath: String },
}

/// Which request the extraction step builds for a document: strictly by
/// its extension.
pub open spec fn request_matches(r: ExtractionRequest, filepath: Seq<char>, extension: Extension) -> bool {
    match extension {
        Extension::Xls | Extension::Xlsx => r matches ExtractionRequest::Spreadsheet {
            filepath: f,
            readmode,
            sheet,
        } && f@ == filepath && readmode@ == "table"@ && sheet@.len() == 0,
        Extension::Doc | Extension::Pdf => r matches ExtractionRequest::Generic { filepath: f }
            && f@ == filepath,
        Extension::Docx => r matches ExtractionRequest::Docx { filepath: f } && f@ == filepath,
    }
}

/// Routes a document to its reader, as `request_matches` describes.
pub fn extraction_request(filepath: &str, extension: Extension) -> (r: ExtractionRequest)
    ensures
        request_matches(r, filepath@, extension),
{
    match extension {
        Extension::Xls | Extension::Xlsx => ExtractionRequest::Spreadsheet {
            filepath: filepath.to_owned(),
            readmode: String::from_str("table"),
            sheet: String::new(),
        },
        Extension::Doc | Extension::Pdf => ExtractionRequest::Generic {
            filepath: filepath.to_owned(),
        },
        Extension::Docx => ExtractionRequest::Docx { filepath: filepath.to_owned() },
    }
}

/// The same chunks with every document-type tag replaced.
pub open spec fn retagged(articles: Seq<SpecArticle>, tag: Seq<char>) -> Seq<SpecArticle> {
    Seq::new(
        articles.len(),
        |i: int|
            SpecArticle { article: articles[i].article, chapter: articles[i].chapter, doctype: tag },
    )
}

fn tag_articles(articles: Vec<Article>, tag: &str) -> (r: Vec<Article>)
    ensures
        articles_view(r@) == retagged(articles_view(articles@), tag@),
{
    let mut out: Vec<Article> = Vec::new();
    let n: usize = articles.len();
    let mut i: usize = 0;
    while i < n
        invariant
            0 <= i <= n,
            n == articles@.len(),
            out@.len() == i,
            forall|j: int|
                0 <= j < i ==> (#[trigger] out@[j])@ == (SpecArticle {
                    article: articles@[j]@.article,
                    chapter: articles@[j]@.chapter,
                    doctype: tag@,
                }),
        decreases n - i,
    {
        let a = &articles[i];
        out.push(
            Article {
                article: a.article.clone(),
                chapter: a.chapter.clone(),
                doctype: tag.to_owned(),
            },
        );
        i = i + 1;
    }
    proof {
        assert(articles_view(out@) =~= retagged(articles_view(articles@), tag@));
    }
    out
}

/// The chunks of a table document.  This branch is an acknowledged gap:
/// a spreadsheet currently yields no chunks, and that is not an error.
pub fn splitting_table_document(_content: &str) -> (r: Vec<Article>)
    ensures
        r@.len() == 0,
{
    Vec::new()
}

/// What the local part of the chunking chain decides for one document.
#[derive(Debug)]
pub enum SplitOutcome {
    /// The chunks are settled without any remote call.
    Split(Vec<Article>),
    /// The regulation strategy failed; the remote strategy must be
    /// tried, and this failure reported if that fails too.
    NeedRemote(ErrorChain),
}

/// The context line the regulation strategy's failure is wrapped in.
pub open spec fn regulation_context() -> Seq<char> {
    "按照法律法规文件的模式来切片失败"@
}

/// The context line the remote strategy's failure is wrapped in.
pub open spec fn recurrence_context() -> Seq<char> {
    "按照自定义递归规则的模式来进行切片失败"@
}

/// Runs the local part of the chunking chain.  A table document yields
/// no chunks and no error.  A plain document is first tried against the
/// regulation pattern: on success its chunks come back tagged `plain`;
/// below the marker threshold the strategy's wrapped failure is handed
/// back so the remote strategy can be tried.
pub fn document_splitting_local(content: &str, extension: Extension, threshold: usize) -> (r:
    SplitOutcome)
    ensures
        (extension is Xls || extension is Xlsx) ==> (r matches SplitOutcome::Split(articles)
            && articles@.len() == 0),
        !(extension is Xls || extension is Xlsx) && spec_sections(content@).len() >= threshold
            ==> (r matches SplitOutcome::Split(articles) && articles_view(articles@) == retagged(
            spec_regulation_articles(content@),
            "plain"@,
        )),
        !(extension is Xls || extension is Xlsx) && spec_sections(content@).len() < threshold
            ==> (r matches SplitOutcome::NeedRemote(e) && e@ == seq![
            regulation_context(),
            spec_threshold_message(threshold as nat),
        ]),
{
    if extension.is_table() {
        let articles = splitting_table_document(content);
        let tagged = tag_articles(articles, "table");
        proof {
            assert(articles_view(tagged@).len() == tagged@.len());
        }
        SplitOutcome::Split(tagged)
    } else {
        match splitting_regulation_document(content, threshold) {
            Ok(articles) => SplitOutcome::Split(tag_articles(articles, "plain")),
            Err(e) => SplitOutcome::NeedRemote(
                e.context(String::from_str("按照法律法规文件的模式来切片失败")),
            ),
        }
    }
}

/// The chunks the remote strategy's slices become: one chunk per slice,
/// with no chapter context, tagged `plain`.
pub open spec fn slices_articles(slices: Seq<Seq<char>>) -> Seq<SpecArticle> {
    Seq::new(
        slices.len(),
        |i: int| SpecArticle { article: slices[i], chapter: Seq::empty(), doctype: "plain"@ },
    )
}

/// Turns the remote splitter's slices into chunks, as `slices_articles`
/// describes.
pub fn articles_from_slices(slices: Vec<String>) -> (r: Vec<Article>)
    ensures
        articles_view(r@) == slices_articles(slices.deep_view()),
{
    let mut out: Vec<Article> = Vec::new();
    let n: usize = slices.len();
    let mut i: usize = 0;
    while i < n
        invariant
            0 <= i <= n,
            n == slices@.len(),
            out@.len() == i,
            forall|j: int|
                0 <= j < i ==> (#[trigger] out@[j])@ == (SpecArticle {
                    article: slices@[j]@,
                    chapter: Seq::empty(),
                    doctype: "plain"@,
                }),
        decreases n - i,
    {
        out.push(
            Article {
                article: slices[i].clone(),
                chapter: String::new(),
                doctype: String::from_str("plain"),
            },
        );
        i = i + 1;
    }
    proof {
        assert(articles_view(out@) =~= slices_articles(slices.deep_view()));
    }
    out
}

/// The aggregated report of failed strategies: each failure's full
/// chain joined into one block, blocks separated so an operator can
/// read why each alternative failed.
pub open spec fn chains_text(chains: Seq<Seq<Seq<char>>>) -> Seq<char> {
    join_parts(
        Seq::new(chains.len(), |i: int| join_parts(chains[i], "\n\tCaused by:\n\t\t"@)),
        "\n\n\t"@,
    )
}

/// Renders failed strategies' cause chains into one report, as
/// `chains_text` describes.
pub fn format_errors(errors: &Vec<ErrorChain>) -> (r: String)
    ensures
        r@ == chains_text(errors.deep_view()),
{
    let mut blocks: Vec<String> = Vec::new();
    let n: usize = errors.len();
    let mut i: usize = 0;
    while i < n
        invariant
            0 <= i <= n,
            n == errors@.len(),
            blocks@.len() == i,
            forall|j: int|
                0 <= j < i ==> (#[trigger] blocks@[j])@ == join_parts(
                    errors@[j]@,
                    "\n\tCaused by:\n\t\t"@,
                ),
        decreases n - i,
    {
        blocks.push(join_strings(&errors[i].messages, "\n\tCaused by:\n\t\t"));
        i = i + 1;
    }
    proof {
        assert(blocks.deep_view() =~= Seq::new(
            errors.deep_view().len(),
            |i: int| join_parts(errors.deep_view()[i], "\n\tCaused by:\n\t\t"@),
        ));
    }
    join_strings(&blocks, "\n\n\t")
}

/// The single message the chain fails with when both strategies fail.
pub open spec fn chain_failure_message(
    regulation_failure: Seq<Seq<char>>,
    remote_failure: Seq<Seq<char>>,
) -> Seq<char> {
    chains_text(seq![regulation_failure, seq![recurrence_context()] + remote_failure])
}

/// Finishes the chunking chain after the remote strategy was tried.
/// Slices become `plain` chunks with no chapter context; a remote
/// failure ends the chain with one error whose message aggregates both
/// strategies' full cause chains.
pub fn document_splitting_remote(
    regulation_failure: ErrorChain,
    outcome: Result<Vec<String>, ErrorChain>,
) -> (r: Result<Vec<Article>, ErrorChain>)
    ensures
        match outcome {
            Ok(slices) => r matches Ok(articles) && articles_view(articles@) == slices_articles(
                slices.deep_view(),
            ),
            Err(remote_failure) => r matches Err(e) && e@ == seq![
                "Failed to splitting plain document"@,
                chain_failure_message(regulation_failure@, remote_failure@),
            ],
        },
{
    match outcome {
        Ok(slices) => Ok(articles_from_slices(slices)),
        Err(remote_failure) => {
            let wrapped = remote_failure.context(
                String::from_str("按照自定义递归规则的模式来进行切片失败"),
            );
            let mut failures: Vec<ErrorChain> = Vec::new();
            failures.push(regulation_failure);
            failures.push(wrapped);
            let ghost both = failures.deep_view();
            let message = format_errors(&failures);
            proof {
                assert(both =~= seq![both[0], both[1]]);
            }
            Err(
                ErrorChain::root(message).context(
                    String::from_str("Failed to splitting plain document"),
                ),
            )
        },
    }
}

/// The 64-bit identity of one stored chunk: the hash of the document's
/// uuid followed by the chunk's text.  It depends on nothing else, so
/// re-ingesting the identical document yields the identical identifier
/// and a later upsert overwrites rather than duplicates.
pub open spec fn spec_point_id(fileuuid: Seq<char>, article: Seq<char>) -> u64 {
    murmur64_of(encode_utf8(fileuuid + article), SEED)
}

/// Derives a chunk's point identifier, as `spec_point_id` describes.
pub fn point_identifier(fileuuid: &str, article_text: &str) -> (r: u64)
    ensures
        r == spec_point_id(fileuuid@, article_text@),
{
    let joined = fileuuid.to_owned().concat(article_text);
    murmurhash64int(joined.as_str())
}

/// The text the embedder is asked to embed for one chunk: the document
/// name followed by the chunk's text.
pub fn embedding_request_content(filename: &str, article: &Article) -> (r: String)
    ensures
        r@ == filename@ + article.article@,
{
    filename.to_owned().concat(article.article.as_str())
}

/// The shared payload after one chunk is merged in: the chunk's three
/// fields, then the resolved path.
pub open spec fn merged_payload(
    entries: Seq<(Seq<char>, SpecValue)>,
    article: SpecArticle,
    filepath: Seq<char>,
) -> Seq<(Seq<char>, SpecValue)> {
    merge_entries(
        merge_entries(entries, spec_article_fields(article)),
        seq![("filepath"@, SpecValue::Text(filepath))],
    )
}

/// Builds one stored point: merges the chunk's fields and the resolved
/// path into the shared metadata, derives the point's identity from the
/// document uuid and the chunk text, and snapshots the payload.
pub fn embed_article(
    document: &mut Document,
    fileuuid: &str,
    filepath: &str,
    article: &Article,
    vector: Vec<u32>,
) -> (r: Point)
    ensures
        final(document)@ == merged_payload(old(document)@, article@, filepath@),
        r.id == spec_point_id(fileuuid@, article.article@),
        r.vector == vector,
        r.payload@ == SpecValue::Fields(final(document)@),
{
    let fields = article.serialize();
    document.update(&fields);
    let mut path_entries: Vec<(String, Value)> = Vec::new();
    path_entries.push((String::from_str("filepath"), Value::Str(filepath.to_owned())));
    let path_value = Value::Hash(path_entries);
    proof {
        assert(crate::payload::value_view(path_entries@[0].1) == SpecValue::Text(filepath@));
        assert(path_value@ matches SpecValue::Fields(fs) && fs =~= seq![
            ("filepath"@, SpecValue::Text(filepath@)),
        ]);
    }
    document.update(&path_value);
    let id = point_identifier(fileuuid, article.article.as_str());
    Point { id, vector, payload: document.value() }
}

/// The shared payload after the first `k` chunks were merged in, in
/// order.
pub open spec fn payload_after(
    entries: Seq<(Seq<char>, SpecValue)>,
    articles: Seq<SpecArticle>,
    filepath: Seq<char>,
    k: int,
) -> Seq<(Seq<char>, SpecValue)>
    decreases k,
{
    if k <= 0 {
        entries
    } else {
        merged_payload(payload_after(entries, articles, filepath, k - 1), articles[k - 1], filepath)
    }
}

/// Runs the embedding step over every chunk in order, one vector per
/// chunk: each point carries the chunk's derived identity, its vector,
/// and a deep snapshot of the shared payload as it stood right after
/// that chunk's merge.  Later chunks see earlier chunks' path and tag
/// fields, but each point's snapshot is independent of all later
/// merges.
pub fn document_embedding(
    document: Document,
    fileuuid: &str,
    filepath: &str,
    articles: &Vec<Article>,
    vectors: &Vec<Vec<u32>>,
) -> (r: Vec<Point>)
    requires
        vectors@.len() == articles@.len(),
    ensures
        r@.len() == articles@.len(),
        forall|i: int|
            0 <= i < r@.len() ==> (#[trigger] r@[i]).id == spec_point_id(
                fileuuid@,
                articles@[i]@.article,
            ) && r@[i].vector@ == vectors@[i]@ && r@[i].payload@ == SpecValue::Fields(
                payload_after(document@, articles_view(articles@), filepath@, i + 1),
            ),
{
    let ghost doc0 = document@;
    let ghost av = articles_view(articles@);
    let mut doc = document;
    let mut points: Vec<Point> = Vec::new();
    let n: usize = articles.len();
    let mut i: usize = 0;
    while i < n
        invariant
            0 <= i <= n,
            n == articles@.len(),
            vectors@.len() == n,
            av == articles_view(articles@),
            doc@ == payload_after(doc0, av, filepath@, i as int),
            points@.len() == i,
            forall|j: int|
                0 <= j < i ==> (#[trigger] points@[j]).id == spec_point_id(
                    fileuuid@,
                    articles@[j]@.article,
                ) && points@[j].vector@ == vectors@[j]@ && points@[j].payload@
                    == SpecValue::Fields(payload_after(doc0, av, filepath@, j + 1)),
        decreases n - i,
    {
        let vector = vectors[i].clone();
        proof {
            assert(vector@ =~= vectors@[i as int]@);
            assert(av[i as int] == articles@[i as int]@);
        }
        let point = embed_article(&mut doc, fileuuid, filepath, &articles[i], vector);
        points.push(point);
        i = i + 1;
    }
    points
}

/// The identifier sequence one run of the embedding step assigns.
pub open spec fn spec_point_ids(fileuuid: Seq<char>, articles: Seq<SpecArticle>) -> Seq<u64> {
    Seq::new(articles.len(), |i: int| spec_point_id(fileuuid, articles[i].article))
}

/// Where one document's run stands.
#[derive(Debug)]
pub enum PipelineState {
    /// Awaiting the converter, or about to skip it.
    Converting,
    /// Awaiting the reader.
    Extracting,
    /// The regulation strategy failed; awaiting the remote splitter.
    SplittingRemote { regulation_failure: ErrorChain },
    /// Embedding chunk after chunk: the settled chunks, the points
    /// built so far, and the index of the chunk awaiting its vector.
    Embedding { articles: Vec<Article>, points: Vec<Point>, index: usize },
    /// Awaiting the store's batch upsert.
    Persisting,
    /// The run ended and its points were handed to the store.
    Finished,
    /// The run failed, with the full context chain.
    Failed { error: ErrorChain },
}

/// What the surrounding code must do next: perform the named remote
/// call and feed its outcome back as the next event, or stop.
#[derive(Debug)]
pub enum PipelineAction {
    CallConverter { filepath: String },
    CallReader { request: ExtractionRequest },
    CallSplitter { content: String },
    CallEmbedder { content: String },
    CallUpsert { collection: String, points: Vec<Point> },
    Stop,
}

/// The outcome of the call the last action asked for.
#[derive(Debug)]
pub enum PipelineEvent {
    Converted { outcome: Result<(), ErrorChain> },
    Extracted { outcome: Result<String, ErrorChain> },
    Splitted { outcome: Result<Vec<String>, ErrorChain> },
    Embedded { outcome: Result<Vec<u32>, ErrorChain> },
    Persisted { outcome: Result<(), ErrorChain> },
}

/// One document's run through the pipeline, as a state machine: every
/// decision is made here, while the surrounding asynchronous code only
/// performs the actions and feeds each outcome back in.
#[derive(Debug)]
pub struct DocumentPipeline {
    pub fileuuid: String,
    pub filename: String,
    pub filepath: String,
    pub extension: Extension,
    pub threshold: usize,
    pub collection: String,
    pub document: Document,
    pub state: PipelineState,
}

/// Whether two machine values describe the same document run.
pub open spec fn same_identity(a: DocumentPipeline, b: DocumentPipeline) -> bool {
    a.fileuuid == b.fileuuid && a.filename == b.filename && a.extension == b.extension
        && a.threshold == b.threshold && a.collection == b.collection
}

/// Whether a point carries the given identity, vector and payload
/// snapshot.
pub open spec fn point_matches(
    p: Point,
    id: u64,
    vector: Seq<u32>,
    payload: Seq<(Seq<char>, SpecValue)>,
) -> bool {
    p.id == id && p.vector@ == vector && p.payload@ == SpecValue::Fields(payload)
}

/// How a run enters the embedding phase once its chunks are settled: a
/// document without chunks goes straight to the store with an empty
/// batch, and otherwise the first chunk's embedding is requested.
pub open spec fn enters_embedding(
    base: DocumentPipeline,
    r: (DocumentPipeline, PipelineAction),
    articles: Seq<SpecArticle>,
) -> bool {
    &&& r.0.filepath == base.filepath
    &&& r.0.document == base.document
    &&& if articles.len() == 0 {
        &&& r.0.state is Persisting
        &&& r.1 matches PipelineAction::CallUpsert { collection, points } && collection@
            == base.collection@ && points@.len() == 0
    } else {
        &&& r.0.state matches PipelineState::Embedding { articles: a, points, index }
            && articles_view(a@) == articles && points@.len() == 0 && index == 0
        &&& r.1 matches PipelineAction::CallEmbedder { content } && content@ == base.filename@
            + articles[0].article
    }
}

fn launch_embedding(base: DocumentPipeline, articles: Vec<Article>) -> (r: (
    DocumentPipeline,
    PipelineAction,
))
    ensures
        same_identity(r.0, base),
        r.0.wf(),
        enters_embedding(base, r, articles_view(articles@)),
{
    let n: usize = articles.len();
    if n == 0 {
        let action = PipelineAction::CallUpsert {
            collection: base.collection.clone(),
            points: Vec::new(),
        };
        (DocumentPipeline { state: PipelineState::Persisting, ..base }, action)
    } else {
        let content = embedding_request_content(base.filename.as_str(), &articles[0]);
        proof {
            assert(articles_view(articles@)[0] == articles@[0]@);
        }
        let next = DocumentPipeline {
            state: PipelineState::Embedding { articles, points: Vec::new(), index: 0 },
            ..base
        };
        (next, PipelineAction::CallEmbedder { content })
    }
}

fn context_with_path(error: ErrorChain, prefix: &str, filepath: &str) -> (r: ErrorChain)
    ensures
        r@ == seq![prefix@ + filepath@] + error@,
{
    error.context(prefix.to_owned().concat(filepath))
}

impl DocumentPipeline {
    /// The machine's bookkeeping invariant: while embedding, the built
    /// points track the index exactly.
    pub open spec fn wf(self) -> bool {
        match self.state {
            PipelineState::Embedding { articles, points, index } => index <= articles@.len()
                && points@.len() == index,
            _ => true,
        }
    }

    /// Which event each state is waiting for.
    pub open spec fn accepts(self, event: PipelineEvent) -> bool {
        match (self.state, event) {
            (PipelineState::Converting, PipelineEvent::Converted { .. }) => true,
            (PipelineState::Extracting, PipelineEvent::Extracted { .. }) => true,
            (PipelineState::SplittingRemote { .. }, PipelineEvent::Splitted { .. }) => true,
            (
                PipelineState::Embedding { articles, index, .. },
                PipelineEvent::Embedded { .. },
            ) => index < articles@.len(),
            (PipelineState::Persisting, PipelineEvent::Persisted { .. }) => true,
            _ => false,
        }
    }

    /// Sets up the run of one validated upload: the shared payload is
    /// built from the request, and the machine waits to convert.
    pub fn new(
        request: &UploadDomainRequest,
        filepath: String,
        threshold: usize,
        collection: String,
    ) -> (r: DocumentPipeline)
        ensures
            r.fileuuid@ == request.uuid@,
            r.filename@ == request.name.name@,
            r.filepath == filepath,
            r.extension == request.name.extension,
            r.threshold == threshold,
            r.collection == collection,
            r.document@ == area_tagged(base_entries(*request), split_parts(request.area@, '/')),
            r.state is Converting,
            r.wf(),
    {
        DocumentPipeline {
            fileuuid: request.uuid.clone(),
            filename: request.name.name.clone(),
            filepath,
            extension: request.name.extension,
            threshold,
            collection,
            document: Document::from_upload(request),
            state: PipelineState::Converting,
        }
    }

    /// Begins the run: the legacy word-processor format is sent to the
    /// converter, every other format goes straight to its reader.
    pub fn start(self) -> (r: (DocumentPipeline, PipelineAction))
        requires
            self.state is Converting,
        ensures
            same_identity(r.0, self),
            r.0.wf(),
            r.0.filepath == self.filepath,
            r.0.document == self.document,
            self.extension is Doc ==> (r.0.state is Converting && (
            r.1 matches PipelineAction::CallConverter { filepath } && filepath@
                == self.filepath@)),
            !(self.extension is Doc) ==> (r.0.state is Extracting && (
            r.1 matches PipelineAction::CallReader { request } && request_matches(
                request,
                self.filepath@,
                self.extension,
            ))),
    {
        if conversion_needed(self.extension) {
            let action = PipelineAction::CallConverter { filepath: self.filepath.clone() };
            (self, action)
        } else {
            let request = extraction_request(self.filepath.as_str(), self.extension);
            let next = DocumentPipeline { state: PipelineState::Extracting, ..self };
            (next, PipelineAction::CallReader { request })
        }
    }

    /// What one step promises, case by case: the next state and action
    /// for every state/outcome pair.  The converted path is re-routed to
    /// its reader; extracted text is chunked by the strategy chain,
    /// falling through to the remote splitter below the marker
    /// threshold; each embedding outcome builds one point; and every
    /// failure ends the run with the step's context wrapped around the
    /// cause chain.
    pub open spec fn step_spec(
        self,
        event: PipelineEvent,
        r: (DocumentPipeline, PipelineAction),
    ) -> bool {
        match (self.state, event) {
            (PipelineState::Converting, PipelineEvent::Converted { outcome }) => match outcome {
                Ok(_) => {
                    &&& r.0.filepath@ == pdf_swapped(self.filepath@)
                    &&& r.0.document == self.document
                    &&& r.0.state is Extracting
                    &&& r.1 matches PipelineAction::CallReader { request } && request_matches(
                        request,
                        pdf_swapped(self.filepath@),
                        self.extension,
                    )
                },
                Err(e) => self.failed_with(
                    r,
                    seq!["Failed to run document convertor of "@ + self.filepath@] + e@,
                ),
            },
            (PipelineState::Extracting, PipelineEvent::Extracted { outcome }) => match outcome {
                Ok(content) => {
                    if self.extension is Xls || self.extension is Xlsx {
                        enters_embedding(self, r, Seq::empty())
                    } else if spec_sections(content@).len() >= self.threshold {
                        enters_embedding(
                            self,
                            r,
                            retagged(spec_regulation_articles(content@), "plain"@),
                        )
                    } else {
                        &&& r.0.filepath == self.filepath
                        &&& r.0.document == self.document
                        &&& r.0.state matches PipelineState::SplittingRemote {
                            regulation_failure,
                        } && regulation_failure@ == seq![
                            regulation_context(),
                            spec_threshold_message(self.threshold as nat),
                        ]
                        &&& r.1 matches PipelineAction::CallSplitter { content: c } && c@
                            == content@
                    }
                },
                Err(e) => self.failed_with(
                    r,
                    seq!["Failed to run document extractor of "@ + self.filepath@] + e@,
                ),
            },
            (
                PipelineState::SplittingRemote { regulation_failure },
                PipelineEvent::Splitted { outcome },
            ) => match outcome {
                Ok(slices) => enters_embedding(self, r, slices_articles(slices.deep_view())),
                Err(e) => self.failed_with(
                    r,
                    seq![
                        "Failed to run document splitting of "@ + self.filepath@,
                        "Failed to splitting plain document"@,
                        chain_failure_message(regulation_failure@, e@),
                    ],
                ),
            },
            (
                PipelineState::Embedding { articles, points, index },
                PipelineEvent::Embedded { outcome },
            ) => match outcome {
                Ok(vector) => {
                    &&& r.0.document@ == merged_payload(
                        self.document@,
                        articles@[index as int]@,
                        self.filepath@,
                    )
                    &&& r.0.filepath == self.filepath
                    &&& if index + 1 < articles@.len() {
                        &&& r.0.state matches PipelineState::Embedding {
                            articles: a2,
                            points: p2,
                            index: i2,
                        } && a2 == articles && i2 == index + 1 && p2@.len() == points@.len() + 1
                            && p2@.drop_last() == points@ && point_matches(
                            p2@.last(),
                            spec_point_id(self.fileuuid@, articles@[index as int]@.article),
                            vector@,
                            merged_payload(
                                self.document@,
                                articles@[index as int]@,
                                self.filepath@,
                            ),
                        )
                        &&& r.1 matches PipelineAction::CallEmbedder { content } && content@
                            == self.filename@ + articles@[index + 1]@.article
                    } else {
                        &&& r.0.state is Persisting
                        &&& r.1 matches PipelineAction::CallUpsert { collection, points: q }
                            && collection@ == self.collection@ && q@.len() == points@.len() + 1
                            && q@.drop_last() == points@ && point_matches(
                            q@.last(),
                            spec_point_id(self.fileuuid@, articles@[index as int]@.article),
                            vector@,
                            merged_payload(
                                self.document@,
                                articles@[index as int]@,
                                self.filepath@,
                            ),
                        )
                    }
                },
                Err(e) => self.failed_with(
                    r,
                    seq![
                        "Failed to run document embedding of "@ + self.filepath@,
                        "Failed to call document embedding proxy of "@ + self.filepath@,
                    ] + e@,
                ),
            },
            (PipelineState::Persisting, PipelineEvent::Persisted { outcome }) => match outcome {
                Ok(_) => r.0.state is Finished && r.1 is Stop,
                Err(e) => self.failed_with(
                    r,
                    seq!["Failed to insert to database of "@ + self.filepath@] + e@,
                ),
            },
            _ => true,
        }
    }

    /// How a run fails: the error chain is recorded and the machine
    /// asks the surrounding code to stop (the failure is logged, never
    /// returned to the uploading caller).
    pub open spec fn failed_with(
        self,
        r: (DocumentPipeline, PipelineAction),
        chain: Seq<Seq<char>>,
    ) -> bool {
        &&& r.0.state matches PipelineState::Failed { error } && error@ == chain
        &&& r.1 is Stop
    }

    /// Advances the run by one outcome, as `step_spec` describes.
    pub fn step(self, event: PipelineEvent) -> (r: (DocumentPipeline, PipelineAction))
        requires
            self.wf(),
            self.accepts(event),
        ensures
            same_identity(r.0, self),
            r.0.wf(),
            self.step_spec(event, r),
    {
        let DocumentPipeline {
            fileuuid,
            filename,
            filepath,
            extension,
            threshold,
            collection,
            document,
            state,
        } = self;
        match (state, event) {
            (PipelineState::Converting, PipelineEvent::Converted { outcome }) => match outcome {
                Ok(_) => {
                    let converted = pdf_filepath(filepath.as_str());
                    let request = extraction_request(converted.as_str(), extension);
                    let next = DocumentPipeline {
                        fileuuid,
                        filename,
                        filepath: converted,
                        extension,
                        threshold,
                        collection,
                        document,
                        state: PipelineState::Extracting,
                    };
                    (next, PipelineAction::CallReader { request })
                },
                Err(e) => {
                    let error = context_with_path(
                        e,
                        "Failed to run document convertor of ",
                        filepath.as_str(),
                    );
                    let next = DocumentPipeline {
                        fileuuid,
                        filename,
                        filepath,
                        extension,
                        threshold,
                        collection,
                        document,
                        state: PipelineState::Failed { error },
                    };
                    (next, PipelineAction::Stop)
                },
            },
            (PipelineState::Extracting, PipelineEvent::Extracted { outcome }) => match outcome {
                Ok(content) => {
                    let base = DocumentPipeline {
                        fileuuid,
                        filename,
                        filepath,
                        extension,
                        threshold,
                        collection,
                        document,
                        state: PipelineState::Extracting,
                    };
                    match document_splitting_local(content.as_str(), extension, threshold) {
                        SplitOutcome::Split(articles) => {
                            proof {
                                if extension is Xls || extension is Xlsx {
                                    assert(articles_view(articles@) =~= Seq::<
                                        SpecArticle,
                                    >::empty());
                                }
                            }
                            launch_embedding(base, articles)
                        },
                        SplitOutcome::NeedRemote(regulation_failure) => {
                            let next = DocumentPipeline {
                                state: PipelineState::SplittingRemote { regulation_failure },
                                ..base
                            };
                            (next, PipelineAction::CallSplitter { content })
                        },
                    }
                },
                Err(e) => {
                    let error = context_with_path(
                        e,
                        "Failed to run document extractor of ",
                        filepath.as_str(),
                    );
                    let next = DocumentPipeline {
                        fileuuid,
                        filename,
                        filepath,
                        extension,
                        threshold,
                        collection,
                        document,
                        state: PipelineState::Failed { error },
                    };
                    (next, PipelineAction::Stop)
                },
            },
            (
                PipelineState::SplittingRemote { regulation_failure },
                PipelineEvent::Splitted { outcome },
            ) => {
                let ghost rf = regulation_failure@;
                let ghost oc = outcome;
                let base = DocumentPipeline {
                    fileuuid,
                    filename,
                    filepath,
                    extension,
                    threshold,
                    collection,
                    document,
                    state: PipelineState::Extracting,
                };
                match document_splitting_remote(regulation_failure, outcome) {
                    Ok(articles) => launch_embedding(base, articles),
                    Err(e) => {
                        let error = context_with_path(
                            e,
                            "Failed to run document splitting of ",
                            base.filepath.as_str(),
                        );
                        proof {
                            assert(error@ =~= seq![
                                "Failed to run document splitting of "@ + base.filepath@,
                                "Failed to splitting plain document"@,
                                chain_failure_message(rf, oc->Err_0@),
                            ]);
                        }
                        let next = DocumentPipeline {
                            state: PipelineState::Failed { error },
                            ..base
                        };
                        (next, PipelineAction::Stop)
                    },
                }
            },
            (
                PipelineState::Embedding { articles, points, index },
                PipelineEvent::Embedded { outcome },
            ) => match outcome {
                Ok(vector) => {
                    let total: usize = articles.len();
                    let mut document = document;
                    let mut points = points;
                    let ghost old_points = points@;
                    let point = embed_article(
                        &mut document,
                        fileuuid.as_str(),
                        filepath.as_str(),
                        &articles[index],
                        vector,
                    );
                    points.push(point);
                    proof {
                        assert(points@.drop_last() =~= old_points);
                    }
                    let index = index + 1;
                    if index < total {
                        let content = embedding_request_content(
                            filename.as_str(),
                            &articles[index],
                        );
                        let next = DocumentPipeline {
                            fileuuid,
                            filename,
                            filepath,
                            extension,
                            threshold,
                            collection,
                            document,
                            state: PipelineState::Embedding { articles, points, index },
                        };
                        (next, PipelineAction::CallEmbedder { content })
                    } else {
                        let action = PipelineAction::CallUpsert {
                            collection: collection.clone(),
                            points,
                        };
                        let next = DocumentPipeline {
                            fileuuid,
                            filename,
                            filepath,
                            extension,
                            threshold,
                            collection,
                            document,
                            state: PipelineState::Persisting,
                        };
                        (next, action)
                    }
                },
                Err(e) => {
                    let ghost e0 = e@;
                    let wrapped = context_with_path(
                        e,
                        "Failed to call document embedding proxy of ",
                        filepath.as_str(),
                    );
                    let error = context_with_path(
                        wrapped,
                        "Failed to run document embedding of ",
                        filepath.as_str(),
                    );
                    proof {
                        assert(error@ =~= seq![
                            "Failed to run document embedding of "@ + filepath@,
                            "Failed to call document embedding proxy of "@ + filepath@,
                        ] + e0);
                    }
                    let next = DocumentPipeline {
                        fileuuid,
                        filename,
                        filepath,
                        extension,
                        threshold,
                        collection,
                        document,
                        state: PipelineState::Failed { error },
                    };
                    (next, PipelineAction::Stop)
                },
            },
            (PipelineState::Persisting, PipelineEvent::Persisted { outcome }) => match outcome {
                Ok(_) => {
                    let next = DocumentPipeline {
                        fileuuid,
                        filename,
                        filepath,
                        extension,
                        threshold,
                        collection,
                        document,
                        state: PipelineState::Finished,
                    };
                    (next, PipelineAction::Stop)
                },
                Err(e) => {
                    let error = context_with_path(
                        e,
                        "Failed to insert to database of ",
                        filepath.as_str(),
                    );
                    let next = DocumentPipeline {
                        fileuuid,
                        filename,
                        filepath,
                        extension,
                        threshold,
                        collection,
                        document,
                        state: PipelineState::Failed { error },
                    };
                    (next, PipelineAction::Stop)
                },
            },
            _ => {
                proof {
                    assert(false);
                }
                let next = DocumentPipeline {
                    fileuuid,
                    filename,
                    filepath,
                    extension,
                    threshold,
                    collection,
                    document,
                    state: PipelineState::Finished,
                };
                (next, PipelineAction::Stop)
            },
        }
    }
}

/// Law: two runs over the same document identity and the same chunk
/// texts assign pointwise identical point identifiers, whatever vectors
/// the embedder returned or how the other metadata fields read; with
/// the store's insert-or-replace semantics a re-ingested document
/// therefore overwrites its own points instead of duplicating them.
pub proof fn lemma_point_ids_deterministic(
    uuid1: Seq<char>,
    articles1: Seq<SpecArticle>,
    uuid2: Seq<char>,
    articles2: Seq<SpecArticle>,
)
    requires
        uuid1 == uuid2,
        articles1.len() == articles2.len(),
        forall|i: int|
            0 <= i < articles1.len() ==> (#[trigger] articles1[i]).article == articles2[i].article,
    ensures
        spec_point_ids(uuid1, articles1) == spec_point_ids(uuid2, articles2),
{
    assert(spec_point_ids(uuid1, articles1) =~= spec_point_ids(uuid2, articles2));
}

} // verus!

