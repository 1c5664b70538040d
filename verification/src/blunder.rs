//! Error taxonomy of the pipeline: validation errors raised while the
//! upload is examined, and step failures carried as an explicit chain of
//! context messages, outermost first, so the full cause chain can be
//! rendered for an operator.

use vstd::prelude::*;
use vstd::string::*;

verus! {

/// A validation failure of the uploaded document's name.
#[derive(Clone, Copy, Debug, PartialEq, Eq, Structural)]
pub enum ParseError {
    MissingFileName,
    MissingExtension,
    InvalidExtension,
}

impl ParseError {
    /// The operator-facing description of the validation failure.
    pub fn message(&self) -> (r: &'static str)
        ensures
            *self is MissingFileName ==> r@ == "文件名缺失"@,
            *self is MissingExtension ==> r@ == "扩展名缺失"@,
            *self is InvalidExtension ==> r@ == "扩展名无效"@,
    {
        match self {
            ParseError::MissingFileName => "文件名缺失",
            ParseError::MissingExtension => "扩展名缺失",
            ParseError::InvalidExtension => "扩展名无效",
        }
    }
}

/// A failure of one pipeline step, as a chain of messages: the first
/// entry describes the outermost attempt, each later entry the cause of
/// the one before it.
#[derive(Debug, Clone, PartialEq)]
pub struct ErrorChain {
    pub messages: Vec<String>,
}

impl View for ErrorChain {
    type V = Seq<Seq<char>>;

    open spec fn view(&self) -> Seq<Seq<char>> {
        self.messages.deep_view()
    }
}

impl DeepView for ErrorChain {
    type V = Seq<Seq<char>>;

    open spec fn deep_view(&self) -> Seq<Seq<char>> {
        self.view()
    }
}

impl ErrorChain {
    /// A chain with a single root cause.
    pub fn root(message: String) -> (r: Self)
        ensures
            r@ == seq![message@],
    {
        let mut messages: Vec<String> = Vec::new();
        messages.push(message);
        let r = ErrorChain { messages };
        proof {
            assert(r@ =~= seq![message@]);
        }
        r
    }

    /// Wraps the chain in one more line of context, which becomes the
    /// new outermost message.
    pub fn context(self, message: String) -> (r: Self)
        ensures
            r@ == seq![message@] + self@,
    {
        let ghost prev = self@;
        let mut messages = self.messages;
        messages.insert(0, message);
        let r = ErrorChain { messages };
        proof {
            assert(r@ =~= seq![message@] + prev);
        }
        r
    }

    /// An independent copy of the chain.
    pub fn duplicate(&self) -> (r: Self)
        ensures
            r@ == self@,
    {
        let mut messages: Vec<String> = Vec::new();
        let n: usize = self.messages.len();
        let mut i: usize = 0;
        while i < n
            invariant
                0 <= i <= n,
                n == self.messages.len(),
                messages.deep_view() == self.messages.deep_view().subrange(0, i as int),
            decreases n - i,
        {
            let ghost prev = messages.deep_view();
            messages.push(self.messages[i].clone());
            proof {
                assert(messages.deep_view() =~= prev.push(self.messages.deep_view()[i as int]));
                assert(messages.deep_view() =~= self.messages.deep_view().subrange(0, i + 1));
            }
            i = i + 1;
        }
        let r = ErrorChain { messages };
        proof {
            assert(self.messages.deep_view().subrange(0, n as int) =~= self@);
        }
        r
    }
}

/// An error of the document service: either a validation failure that is
/// reported to the uploading caller at once, or an unexpected failure of
/// the detached pipeline, which is only logged.
#[derive(Debug, Clone, PartialEq)]
pub enum DocumentError {
    ValidationError(ParseError),
    UnexpectedError(ErrorChain),
}

impl DocumentError {
    /// The HTTP status that the error is reported with: a client error
    /// for validation failures, a server error otherwise.
    pub fn status_code(&self) -> (r: u16)
        ensures
            *self is ValidationError ==> r == 400,
            *self is UnexpectedError ==> r == 500,
    {
        match self {
            DocumentError::ValidationError(_) => 400,
            DocumentError::UnexpectedError(_) => 500,
        }
    }
}

/// The rendering of the causes below the top message: one `Caused by`
/// line per cause, stopping early at the first cause that repeats the
/// top message.
pub open spec fn chain_text(top: Seq<char>, causes: Seq<Seq<char>>) -> Seq<char>
    decreases causes.len(),
{
    if causes.len() == 0 {
        Seq::empty()
    } else if causes[0] == top {
        Seq::empty()
    } else {
        "Caused by:\n\t"@ + causes[0] + "\n"@ + chain_text(top, causes.drop_first())
    }
}

proof fn lemma_chain_concat(top: Seq<char>, xs: Seq<Seq<char>>, ys: Seq<Seq<char>>)
    requires
        forall|j: int| 0 <= j < xs.len() ==> xs[j] != top,
    ensures
        chain_text(top, xs + ys) == chain_text(top, xs) + chain_text(top, ys),
    decreases xs.len(),
{
    if xs.len() == 0 {
        assert(xs + ys =~= ys);
        assert(chain_text(top, xs) + chain_text(top, ys) =~= chain_text(top, ys));
    } else {
        assert((xs + ys).drop_first() =~= xs.drop_first() + ys);
        lemma_chain_concat(top, xs.drop_first(), ys);
        assert(("Caused by:\n\t"@ + xs[0] + "\n"@ + (chain_text(top, xs.drop_first())
            + chain_text(top, ys))) =~= ("Caused by:\n\t"@ + xs[0] + "\n"@ + chain_text(
            top,
            xs.drop_first(),
        )) + chain_text(top, ys));
    }
}

/// Renders the cause chain below an error's own message, as `chain_text`
/// describes: the first entry of `error` is the top message, the rest
/// are its causes.
pub fn errorchain(error: &Vec<String>) -> (r: String)
    ensures
        error.len() == 0 ==> r@ == Seq::<char>::empty(),
        error.len() > 0 ==> r@ == chain_text(
            error.deep_view()[0],
            error.deep_view().drop_first(),
        ),
{
    let ghost dv = error.deep_view();
    let mut out = String::new();
    let n: usize = error.len();
    if n == 0 {
        return out;
    }
    let ghost top = dv[0];
    let mut i: usize = 1;
    while i < n && !(error[i] == error[0])
        invariant
            1 <= i <= n,
            n == error.len(),
            dv == error.deep_view(),
            top == dv[0],
            forall|j: int| 1 <= j < i ==> dv[j] != top,
            out@ == chain_text(top, dv.subrange(1, i as int)),
        decreases n - i,
    {
        out.append("Caused by:\n\t");
        out.append(error[i].as_str());
        out.append("\n");
        proof {
            let prefix = dv.subrange(1, i as int);
            let single = seq![dv[i as int]];
            lemma_chain_concat(top, prefix, single);
            assert(dv[i as int] == error@[i as int]@);
            assert(dv[0] == error@[0]@);
            assert(single[0] != top);
            assert(single.drop_first() =~= Seq::<Seq<char>>::empty());
            assert(chain_text(top, Seq::<Seq<char>>::empty()) == Seq::<char>::empty());
            assert(chain_text(top, single.drop_first()) == Seq::<char>::empty());
            assert(chain_text(top, single) =~= "Caused by:\n\t"@ + dv[i as int] + "\n"@);
            assert(prefix + single =~= dv.subrange(1, i + 1));
        }
        i = i + 1;
    }
    proof {
        let prefix = dv.subrange(1, i as int);
        let rest = dv.subrange(i as int, n as int);
        lemma_chain_concat(top, prefix, rest);
        assert(prefix + rest =~= dv.drop_first());
        if i < n {
            assert(dv[i as int] == top);
            assert(rest[0] == top);
            assert(chain_text(top, rest) == Seq::<char>::empty());
        }
        assert(out@ + chain_text(top, rest) =~= out@);
    }
    out
}

} // verus!
