//! The values that cross the boundary between Director and its providers.

use crate::text::joined;
use crate::time::Timestamp;
use vstd::prelude::*;
use vstd::string::*;

verus! {

/// A piece of project knowledge.
#[derive(Debug, PartialEq, Eq)]
pub struct Memory {
    /// An id in the substrate's own namespace.
    pub id: String,
    /// A short label.
    pub title: String,
    /// The body.
    pub body: String,
    /// The kind, when the substrate reports one.
    pub kind: Option<String>,
    /// What it is indexed under.
    pub tags: Vec<String>,
    /// How relevant the substrate found it, as the bits of a double-precision number.
    pub score_bits: Option<u64>,
    /// When it last changed.
    pub updated_at: Timestamp,
}

/// What a [`Memory`] holds.
#[verifier::ext_equal]
pub struct MemoryView {
    pub id: Seq<char>,
    pub title: Seq<char>,
    pub body: Seq<char>,
    pub kind: Option<Seq<char>>,
    pub tags: Seq<Seq<char>>,
    pub score_bits: Option<u64>,
    pub updated_at: Timestamp,
}

impl View for Memory {
    type V = MemoryView;

    open spec fn view(&self) -> MemoryView {
        MemoryView {
            id: self.id.deep_view(),
            title: self.title.deep_view(),
            body: self.body.deep_view(),
            kind: self.kind.deep_view(),
            tags: self.tags.deep_view(),
            score_bits: self.score_bits,
            updated_at: self.updated_at,
        }
    }
}

impl DeepView for Memory {
    type V = MemoryView;

    open spec fn deep_view(&self) -> MemoryView {
        self.view()
    }
}

impl Clone for Memory {
    fn clone(&self) -> (r: Self)
        ensures
            r@ == self@,
    {
        let r: Memory = Memory {
            id: self.id.clone(),
            title: self.title.clone(),
            body: self.body.clone(),
            kind: self.kind.clone(),
            tags: self.tags.clone(),
            score_bits: self.score_bits,
            updated_at: self.updated_at,
        };
        assert(r.tags.deep_view() =~= self.tags.deep_view());
        r
    }
}

/// How to look something up in long-term memory.
#[derive(Debug, PartialEq, Eq)]
pub struct MemoryQuery {
    /// What to search for.
    pub text: String,
    /// Tags to restrict the search to, where the substrate can.
    pub tags: Vec<String>,
    /// How many results to return at most.
    pub limit: u32,
}

/// What a [`MemoryQuery`] holds.
#[verifier::ext_equal]
pub struct MemoryQueryView {
    pub text: Seq<char>,
    pub tags: Seq<Seq<char>>,
    pub limit: u32,
}

impl View for MemoryQuery {
    type V = MemoryQueryView;

    open spec fn view(&self) -> MemoryQueryView {
        MemoryQueryView {
            text: self.text.deep_view(),
            tags: self.tags.deep_view(),
            limit: self.limit,
        }
    }
}

impl DeepView for MemoryQuery {
    type V = MemoryQueryView;

    open spec fn deep_view(&self) -> MemoryQueryView {
        self.view()
    }
}

impl Clone for MemoryQuery {
    fn clone(&self) -> (r: Self)
        ensures
            r@ == self@,
    {
        let r: MemoryQuery = MemoryQuery {
            text: self.text.clone(),
            tags: self.tags.clone(),
            limit: self.limit,
        };
        assert(r.tags.deep_view() =~= self.tags.deep_view());
        r
    }
}

impl MemoryQuery {
    /// A query for `text`, for at most `limit` results.
    pub fn new(text: &str, limit: u32) -> (r: Self)
        ensures
            r@ == (MemoryQueryView { text: text@, tags: Seq::empty(), limit }),
    {
        let r: MemoryQuery = MemoryQuery { text: text.to_owned(), tags: Vec::new(), limit };
        assert(r.tags.deep_view() =~= Seq::empty());
        r
    }
}

/// A command to run.
#[derive(Debug, PartialEq, Eq)]
pub struct CommandSpec {
    /// The program.
    pub program: String,
    /// Its arguments, in order.
    pub args: Vec<String>,
    /// The directory to run in.
    pub working_dir: Option<String>,
}

/// What a [`CommandSpec`] holds.
#[verifier::ext_equal]
pub struct CommandSpecView {
    pub program: Seq<char>,
    pub args: Seq<Seq<char>>,
    pub working_dir: Option<Seq<char>>,
}

impl View for CommandSpec {
    type V = CommandSpecView;

    open spec fn view(&self) -> CommandSpecView {
        CommandSpecView {
            program: self.program.deep_view(),
            args: self.args.deep_view(),
            working_dir: self.working_dir.deep_view(),
        }
    }
}

impl DeepView for CommandSpec {
    type V = CommandSpecView;

    open spec fn deep_view(&self) -> CommandSpecView {
        self.view()
    }
}

impl Clone for CommandSpec {
    fn clone(&self) -> (r: Self)
        ensures
            r@ == self@,
    {
        let r: CommandSpec = CommandSpec {
            program: self.program.clone(),
            args: self.args.clone(),
            working_dir: self.working_dir.clone(),
        };
        assert(r.args.deep_view() =~= self.args.deep_view());
        r
    }
}

/// What running a command produced.
#[derive(Debug, PartialEq, Eq)]
pub struct CommandOutcome {
    /// The exit code; `-1` when there is none.
    pub exit_code: i32,
    /// What it wrote to standard output.
    pub stdout: String,
    /// What it wrote to standard error.
    pub stderr: String,
    /// Whether it ran too long and was killed.
    pub timed_out: bool,
}

/// What a [`CommandOutcome`] holds.
#[verifier::ext_equal]
pub struct CommandOutcomeView {
    pub exit_code: i32,
    pub stdout: Seq<char>,
    pub stderr: Seq<char>,
    pub timed_out: bool,
}

impl View for CommandOutcome {
    type V = CommandOutcomeView;

    open spec fn view(&self) -> CommandOutcomeView {
        CommandOutcomeView {
            exit_code: self.exit_code,
            stdout: self.stdout.deep_view(),
            stderr: self.stderr.deep_view(),
            timed_out: self.timed_out,
        }
    }
}

impl DeepView for CommandOutcome {
    type V = CommandOutcomeView;

    open spec fn deep_view(&self) -> CommandOutcomeView {
        self.view()
    }
}

impl Clone for CommandOutcome {
    fn clone(&self) -> (r: Self)
        ensures
            r@ == self@,
    {
        let r: CommandOutcome = CommandOutcome {
            exit_code: self.exit_code,
            stdout: self.stdout.clone(),
            stderr: self.stderr.clone(),
            timed_out: self.timed_out,
        };
        r
    }
}

impl CommandOutcome {
    /// Whether the command exited with zero, in time.
    pub fn succeeded(&self) -> (r: bool)
        ensures
            r == (self@.exit_code == 0 && !self@.timed_out),
            r == is_success(self@),
    {
        self.exit_code == 0 && !self.timed_out
    }
}

/// What a provider can fail with.
#[derive(Debug, PartialEq, Eq)]
pub enum ProviderError {
    /// There is no record with the id.
    NotFound(String),
    /// The request conflicts with what is there.
    Conflict(String),
    /// The substrate cannot do this.
    Unsupported(String),
    /// Talking to the substrate failed.
    Transport(String),
}

/// What a [`ProviderError`] holds.
#[verifier::ext_equal]
pub enum ProviderErrorView {
    NotFound(Seq<char>),
    Conflict(Seq<char>),
    Unsupported(Seq<char>),
    Transport(Seq<char>),
}

impl View for ProviderError {
    type V = ProviderErrorView;

    open spec fn view(&self) -> ProviderErrorView {
        match self {
            ProviderError::NotFound(x) => ProviderErrorView::NotFound(x.deep_view()),
            ProviderError::Conflict(x) => ProviderErrorView::Conflict(x.deep_view()),
            ProviderError::Unsupported(x) => ProviderErrorView::Unsupported(x.deep_view()),
            ProviderError::Transport(x) => ProviderErrorView::Transport(x.deep_view()),
        }
    }
}

impl DeepView for ProviderError {
    type V = ProviderErrorView;

    open spec fn deep_view(&self) -> ProviderErrorView {
        self.view()
    }
}

impl Clone for ProviderError {
    fn clone(&self) -> (r: Self)
        ensures
            r@ == self@,
    {
        match self {
            ProviderError::NotFound(x) => ProviderError::NotFound(x.clone()),
            ProviderError::Conflict(x) => ProviderError::Conflict(x.clone()),
            ProviderError::Unsupported(x) => ProviderError::Unsupported(x.clone()),
            ProviderError::Transport(x) => ProviderError::Transport(x.clone()),
        }
    }
}

/// An error in words.
pub open spec fn provider_error_text(e: ProviderErrorView) -> Seq<char> {
    match e {
        ProviderErrorView::NotFound(what) => "not found: "@ + what,
        ProviderErrorView::Conflict(what) => "conflict: "@ + what,
        ProviderErrorView::Unsupported(what) => "unsupported: "@ + what,
        ProviderErrorView::Transport(what) => "transport: "@ + what,
    }
}

impl ProviderError {
    /// The error in words.
    pub fn to_string(&self) -> (r: String)
        ensures
            r@ == provider_error_text(self@),
    {
        match self {
            ProviderError::NotFound(what) => joined("not found: ", what.as_str()),
            ProviderError::Conflict(what) => joined("conflict: ", what.as_str()),
            ProviderError::Unsupported(what) => joined("unsupported: ", what.as_str()),
            ProviderError::Transport(what) => joined("transport: ", what.as_str()),
        }
    }
}

/// Whether a command did what it was asked: it ended in time, with the code of success.
pub open spec fn is_success(o: CommandOutcomeView) -> bool {
    o.exit_code == 0 && !o.timed_out
}

/// A command that ran out of time never counts as a success, and neither does one that
/// ended with another code. What it printed plays no part.
pub proof fn law_success_is_ending_in_time_with_zero(
    o: CommandOutcomeView,
    stdout: Seq<char>,
    stderr: Seq<char>,
)
    ensures
        o.timed_out ==> !is_success(o),
        o.exit_code != 0 ==> !is_success(o),
        !o.timed_out && o.exit_code == 0 ==> is_success(o),
        is_success((CommandOutcomeView { stdout, stderr, ..o })) == is_success(o),
{
}

/// A provider's error says what kind it is and ends with what it is about.
pub proof fn law_a_provider_error_names_what_it_is_about(what: Seq<char>)
    ensures
        provider_error_text(ProviderErrorView::NotFound(what)) == "not found: "@ + what,
        provider_error_text(ProviderErrorView::Conflict(what)) == "conflict: "@ + what,
        provider_error_text(ProviderErrorView::Unsupported(what)) == "unsupported: "@ + what,
        provider_error_text(ProviderErrorView::Transport(what)) == "transport: "@ + what,
{
}

} // verus!
