//! Speaking line-delimited JSON-RPC with a tool server: what each line, reply and
//! tool result means.

use crate::text::{
    is_space, joined, law_trimming_takes_off_the_blank_ends, string_of, trim_chars, trimmed,
};
use vstd::prelude::*;
use vstd::string::*;

verus! {

/// The protocol version that is advertised.
pub const PROTOCOL_VERSION: &'static str = "2024-11-05";

/// What the transport can fail with.
#[derive(Debug, PartialEq, Eq)]
pub enum TransportError {
    /// The server could not be started.
    SpawnFailed { path: String, source: String },
    /// The server closed the connection, or sent something malformed.
    Malformed(String),
    /// A tool reported failure.
    ToolFailed(String),
    /// A tool's result held no text.
    NoContent,
}

/// What a [`TransportError`] holds.
#[verifier::ext_equal]
pub enum TransportErrorView {
    SpawnFailed { path: Seq<char>, source: Seq<char> },
    Malformed(Seq<char>),
    ToolFailed(Seq<char>),
    NoContent,
}

impl View for TransportError {
    type V = TransportErrorView;

    open spec fn view(&self) -> TransportErrorView {
        match self {
            TransportError::SpawnFailed { path, source } => TransportErrorView::SpawnFailed { path: path.deep_view(), source: source.deep_view() },
            TransportError::Malformed(x) => TransportErrorView::Malformed(x.deep_view()),
            TransportError::ToolFailed(x) => TransportErrorView::ToolFailed(x.deep_view()),
            TransportError::NoContent => TransportErrorView::NoContent,
        }
    }
}

impl DeepView for TransportError {
    type V = TransportErrorView;

    open spec fn deep_view(&self) -> TransportErrorView {
        self.view()
    }
}

impl Clone for TransportError {
    fn clone(&self) -> (r: Self)
        ensures
            r@ == self@,
    {
        match self {
            TransportError::SpawnFailed { path, source } => TransportError::SpawnFailed { path: path.clone(), source: source.clone() },
            TransportError::Malformed(x) => TransportError::Malformed(x.clone()),
            TransportError::ToolFailed(x) => TransportError::ToolFailed(x.clone()),
            TransportError::NoContent => TransportError::NoContent,
        }
    }
}

/// An error in words.
pub open spec fn transport_error_text(e: TransportErrorView) -> Seq<char> {
    match e {
        TransportErrorView::SpawnFailed { path, source } => "could not spawn "@ + path + ": "@
            + source,
        TransportErrorView::Malformed(what) => "malformed JSON-RPC response: "@ + what,
        TransportErrorView::ToolFailed(what) => "tool failed: "@ + what,
        TransportErrorView::NoContent => "the server returned no content"@,
    }
}

impl TransportError {
    /// The error in words.
    pub fn to_string(&self) -> (r: String)
        ensures
            r@ == transport_error_text(self@),
    {
        match self {
            TransportError::SpawnFailed { path, source } => {
                let mut text: String = joined("could not spawn ", path.as_str());
                text.append(": ");
                text.append(source.as_str());
                text
            },
            TransportError::Malformed(what) => joined(
                "malformed JSON-RPC response: ",
                what.as_str(),
            ),
            TransportError::ToolFailed(what) => joined("tool failed: ", what.as_str()),
            TransportError::NoContent => "the server returned no content".to_owned(),
        }
    }
}

/// What a line from the server calls for.
#[derive(Debug, PartialEq, Eq)]
pub enum LineStep {
    /// The connection is closed.
    Closed(TransportError),
    /// Nothing: the line is blank.
    Skip,
    /// The line holds a reply to parse.
    Parse(String),
}

/// What a [`LineStep`] holds.
#[verifier::ext_equal]
pub enum LineStepView {
    Closed(TransportErrorView),
    Skip,
    Parse(Seq<char>),
}

impl View for LineStep {
    type V = LineStepView;

    open spec fn view(&self) -> LineStepView {
        match self {
            LineStep::Closed(x) => LineStepView::Closed(x.deep_view()),
            LineStep::Skip => LineStepView::Skip,
            LineStep::Parse(x) => LineStepView::Parse(x.deep_view()),
        }
    }
}

impl DeepView for LineStep {
    type V = LineStepView;

    open spec fn deep_view(&self) -> LineStepView {
        self.view()
    }
}

impl Clone for LineStep {
    fn clone(&self) -> (r: Self)
        ensures
            r@ == self@,
    {
        match self {
            LineStep::Closed(x) => LineStep::Closed(x.clone()),
            LineStep::Skip => LineStep::Skip,
            LineStep::Parse(x) => LineStep::Parse(x.clone()),
        }
    }
}

/// What a line calls for, by the number of bytes that were read for it.
pub open spec fn line_step(bytes_read: usize, line: Seq<char>) -> LineStepView {
    if bytes_read == 0 {
        LineStepView::Closed(TransportErrorView::Malformed("server closed the connection"@))
    } else if trimmed(line).len() == 0 {
        LineStepView::Skip
    } else {
        LineStepView::Parse(trimmed(line))
    }
}

/// What a reply says of itself.
#[derive(Debug, PartialEq, Eq)]
pub struct Reply {
    /// The id of the request that it answers, if it names one.
    pub id: Option<u64>,
    /// The error message, when the call failed.
    pub error: Option<String>,
}

/// What a [`Reply`] holds.
#[verifier::ext_equal]
pub struct ReplyView {
    pub id: Option<u64>,
    pub error: Option<Seq<char>>,
}

impl View for Reply {
    type V = ReplyView;

    open spec fn view(&self) -> ReplyView {
        ReplyView {
            id: self.id,
            error: self.error.deep_view(),
        }
    }
}

impl DeepView for Reply {
    type V = ReplyView;

    open spec fn deep_view(&self) -> ReplyView {
        self.view()
    }
}

impl Clone for Reply {
    fn clone(&self) -> (r: Self)
        ensures
            r@ == self@,
    {
        let r: Reply = Reply {
            id: self.id,
            error: self.error.clone(),
        };
        r
    }
}

/// What a reply calls for.
#[derive(Debug, PartialEq, Eq)]
pub enum ReplyStep {
    /// Nothing: it answers another request, or none.
    Skip,
    /// The call failed.
    Fail(TransportError),
    /// It carries the result.
    Accept,
}

/// What a [`ReplyStep`] holds.
#[verifier::ext_equal]
pub enum ReplyStepView {
    Skip,
    Fail(TransportErrorView),
    Accept,
}

impl View for ReplyStep {
    type V = ReplyStepView;

    open spec fn view(&self) -> ReplyStepView {
        match self {
            ReplyStep::Skip => ReplyStepView::Skip,
            ReplyStep::Fail(x) => ReplyStepView::Fail(x.deep_view()),
            ReplyStep::Accept => ReplyStepView::Accept,
        }
    }
}

impl DeepView for ReplyStep {
    type V = ReplyStepView;

    open spec fn deep_view(&self) -> ReplyStepView {
        self.view()
    }
}

impl Clone for ReplyStep {
    fn clone(&self) -> (r: Self)
        ensures
            r@ == self@,
    {
        match self {
            ReplyStep::Skip => ReplyStep::Skip,
            ReplyStep::Fail(x) => ReplyStep::Fail(x.clone()),
            ReplyStep::Accept => ReplyStep::Accept,
        }
    }
}

/// What a reply calls for, while an answer to request `id` is awaited.
pub open spec fn reply_step(id: u64, reply: ReplyView) -> ReplyStepView {
    if reply.id != Some(id) {
        ReplyStepView::Skip
    } else {
        match reply.error {
            Some(message) => ReplyStepView::Fail(
                TransportErrorView::Malformed("JSON-RPC error: "@ + message),
            ),
            None => ReplyStepView::Accept,
        }
    }
}

/// One block of a tool's result.
#[derive(Debug, PartialEq, Eq)]
pub struct ContentBlock {
    /// Its type, such as `text`.
    pub kind: String,
    /// Its text, when it carries one.
    pub text: Option<String>,
}

/// What a [`ContentBlock`] holds.
#[verifier::ext_equal]
pub struct ContentBlockView {
    pub kind: Seq<char>,
    pub text: Option<Seq<char>>,
}

impl View for ContentBlock {
    type V = ContentBlockView;

    open spec fn view(&self) -> ContentBlockView {
        ContentBlockView {
            kind: self.kind.deep_view(),
            text: self.text.deep_view(),
        }
    }
}

impl DeepView for ContentBlock {
    type V = ContentBlockView;

    open spec fn deep_view(&self) -> ContentBlockView {
        self.view()
    }
}

impl Clone for ContentBlock {
    fn clone(&self) -> (r: Self)
        ensures
            r@ == self@,
    {
        let r: ContentBlock = ContentBlock {
            kind: self.kind.clone(),
            text: self.text.clone(),
        };
        r
    }
}

/// What a tool's result amounts to: the text of its first block. When the tool
/// reports failure, that text is the error; otherwise the block must be of type
/// `text`.
pub open spec fn tool_outcome(is_error: bool, content: Seq<ContentBlockView>) -> Result<
    Seq<char>,
    TransportErrorView,
> {
    let text = if content.len() > 0 {
        content[0].text
    } else {
        None
    };
    if is_error {
        Err(
            TransportErrorView::ToolFailed(
                match text {
                    Some(text) => text,
                    None => "unknown error"@,
                },
            ),
        )
    } else if content.len() > 0 && content[0].kind == "text"@ && text is Some {
        Ok(text->0)
    } else {
        Err(TransportErrorView::NoContent)
    }
}

/// The outcome of a call, by view.
pub open spec fn call_outcome(r: Result<String, TransportError>) -> Result<
    Seq<char>,
    TransportErrorView,
> {
    match r {
        Ok(text) => Ok(text@),
        Err(e) => Err(e@),
    }
}

/// The decisions of a JSON-RPC client.
#[derive(Debug, Clone, Copy, PartialEq, Eq, Structural)]
pub struct StdioMcpTransport;

impl StdioMcpTransport {
    /// What a line from the server calls for.
    pub fn read_line(&self, bytes_read: usize, line: &str) -> (r: LineStep)
        ensures
            r@ == line_step(bytes_read, line@),
    {
        if bytes_read == 0 {
            return LineStep::Closed(
                TransportError::Malformed("server closed the connection".to_owned()),
            );
        }
        let inner: Vec<char> = trim_chars(line);
        if inner.len() == 0 {
            LineStep::Skip
        } else {
            LineStep::Parse(string_of(&inner))
        }
    }

    /// The error for a line that does not parse.
    pub fn unparsable(&self, message: &str, line: &str) -> (r: TransportError)
        ensures
            r@ == TransportErrorView::Malformed(message@ + ": "@ + line@),
    {
        let mut text: String = joined(message, ": ");
        text.append(line);
        TransportError::Malformed(text)
    }

    /// What a reply calls for, while an answer to request `id` is awaited.
    pub fn request(&self, id: u64, reply: &Reply) -> (r: ReplyStep)
        ensures
            r@ == reply_step(id, reply@),
    {
        let ours: bool = match reply.id {
            Some(answered) => answered == id,
            None => false,
        };
        if !ours {
            return ReplyStep::Skip;
        }
        match &reply.error {
            Some(message) => ReplyStep::Fail(
                TransportError::Malformed(joined("JSON-RPC error: ", message.as_str())),
            ),
            None => ReplyStep::Accept,
        }
    }

    /// What a tool's result amounts to.
    pub fn call_tool(&self, is_error: bool, content: &Vec<ContentBlock>) -> (r: Result<
        String,
        TransportError,
    >)
        ensures
            call_outcome(r) == tool_outcome(is_error, content.deep_view()),
    {
        if content.len() == 0 {
            return if is_error {
                Err(TransportError::ToolFailed("unknown error".to_owned()))
            } else {
                Err(TransportError::NoContent)
            };
        }
        let first: &ContentBlock = &content[0];
        assert(content.deep_view()[0] == first@);
        if is_error {
            return match &first.text {
                Some(text) => Err(TransportError::ToolFailed(text.clone())),
                None => Err(TransportError::ToolFailed("unknown error".to_owned())),
            };
        }
        if !crate::text::same_text(first.kind.as_str(), "text") {
            return Err(TransportError::NoContent);
        }
        match &first.text {
            Some(text) => Ok(text.clone()),
            None => Err(TransportError::NoContent),
        }
    }
}

/// A failure that a tool reports is never taken for a result.
pub proof fn law_tool_failure_is_an_error(content: Seq<ContentBlockView>)
    ensures
        tool_outcome(true, content) is Err,
        tool_outcome(true, content)->Err_0 is ToolFailed,
{
}

/// A reply to another request is never taken for an answer to this one.
pub proof fn law_only_the_matching_reply_answers(id: u64, reply: ReplyView)
    ensures
        reply_step(id, reply) !is Skip ==> reply.id == Some(id),
{
}

/// A reply answers exactly where it has the id of the request and no error; an error is
/// passed on in the server's words, and every other reply is passed over.
pub proof fn law_a_reply_answers_by_its_id(id: u64, reply: ReplyView)
    ensures
        reply_step(id, reply) is Skip <==> reply.id != Some(id),
        reply_step(id, reply) is Accept <==> reply.id == Some(id) && reply.error is None,
        reply_step(id, reply) is Fail <==> reply.id == Some(id) && reply.error is Some,
        forall|message: Seq<char>|
            reply.id == Some(id) && reply.error == Some(message) ==> #[trigger] reply_step(id, reply)
                == ReplyStepView::Fail(
                TransportErrorView::Malformed("JSON-RPC error: "@ + message),
            ),
{
}

/// A line is parsed without its blank ends, passed over where nothing else is in it, and
/// the end of the stream is told as such.
pub proof fn law_a_line_is_parsed_unless_it_is_blank(bytes_read: usize, line: Seq<char>)
    ensures
        line_step(bytes_read, line) is Closed <==> bytes_read == 0,
        line_step(bytes_read, line) is Skip <==> bytes_read > 0 && forall|i: int|
            0 <= i < line.len() ==> is_space(#[trigger] line[i]),
        line_step(bytes_read, line) matches LineStepView::Parse(text) ==> text == trimmed(line)
            && text.len() > 0,
{
    law_trimming_takes_off_the_blank_ends(line);
    let (from, to) = choose|from: int, to: int|
        0 <= from <= to <= line.len() && #[trigger] line.subrange(from, to) == trimmed(line) && (
        forall|k: int| 0 <= k < from || to <= k < line.len() ==> is_space(#[trigger] line[k]));
    if trimmed(line).len() > 0 {
        assert(line[from] == trimmed(line)[0]);
    } else {
        assert forall|i: int| 0 <= i < line.len() implies is_space(#[trigger] line[i]) by {
            assert(i < from || to <= i);
        }
    }
}

/// A tool succeeds exactly where it does not say that it failed and the first block of
/// its result is a text, which is the result; a failure is told in the words of that
/// block.
pub proof fn law_a_tool_answers_with_its_first_text(
    is_error: bool,
    content: Seq<ContentBlockView>,
)
    ensures
        tool_outcome(is_error, content) is Ok <==> !is_error && content.len() > 0
            && content[0].kind == "text"@ && content[0].text is Some,
        tool_outcome(is_error, content) matches Ok(text) ==> content[0].text == Some(text),
        is_error && content.len() > 0 && content[0].text is Some ==> tool_outcome(is_error, content)
            == Err::<Seq<char>, TransportErrorView>(
            TransportErrorView::ToolFailed(content[0].text->0),
        ),
        !is_error && tool_outcome(is_error, content) is Err ==> tool_outcome(
            is_error,
            content,
        )->Err_0 is NoContent,
{
}

/// What a failed exchange says ends with what it is about.
pub proof fn law_a_transport_error_names_what_it_is_about(path: Seq<char>, what: Seq<char>)
    ensures
        transport_error_text(TransportErrorView::SpawnFailed { path, source: what })
            == "could not spawn "@ + path + ": "@ + what,
        transport_error_text(TransportErrorView::Malformed(what))
            == "malformed JSON-RPC response: "@ + what,
        transport_error_text(TransportErrorView::ToolFailed(what)) == "tool failed: "@ + what,
{
}

} // verus!
