//! The messages that client and builder exchange.

use vstd::prelude::*;

use crate::text;

verus! {

pub const VERSION: u32 = 0;

/// How the client shows the log of a build.
#[derive(Clone, Copy, Debug, PartialEq, Eq, Structural)]
pub enum OutputMode {
    Nom,
    Plain,
}

/// One message of the protocol.
pub enum Message {
    Hello(Hello),
    AuthTrustedClient,
    AuthTicket(AuthTicket),
    AuthOk(AuthOk),
    BuildRequest(BuildRequest),
    BuildPaths(PathListChunk),
    BuildQueued,
    MissingPaths(PathListChunk),
    InputUploadReady,
    BuildStarted,
    NixLog(NixLog),
    BuildFinished(BuildFinished),
    OutputClosure(PathListChunk),
    OutputRequest(PathListChunk),
    OutputDownloadReady(OutputDownloadReady),
    OutputCacheReady(OutputCacheReady),
    OutputCacheDone,
    CacheFileRequest(CacheFileRequest),
    CacheFileResponse(CacheFileResponse),
    Done,
    Error(ErrorMessage),
}

/// Who the client is and what it speaks.
pub struct Hello {
    pub version: u32,
    pub node_id: String,
}

/// The secret of a ticket.
pub struct AuthTicket {
    pub secret: [u8; 32],
}

/// The client may build.
pub struct AuthOk {
    pub client_name: Option<String>,
    pub builder_public_key: String,
}

/// What the client wants built.
pub struct BuildRequest {
    pub installable: String,
    pub drv_path: String,
    pub output_paths: Vec<String>,
    pub output_mode: OutputMode,
    pub rebuild: bool,
}

/// A piece of a list of store paths.
pub struct PathListChunk {
    pub paths: Vec<String>,
    pub done: bool,
}

/// A line of a build's log.
pub struct NixLog {
    pub line: String,
}

/// How a build ended.
pub struct BuildFinished {
    pub success: bool,
    pub output_paths: Vec<String>,
}

pub struct OutputDownloadReady {
    pub path_count: usize,
}

/// The builder's cache can be read.
pub struct OutputCacheReady {
    pub copy_paths: Vec<String>,
    pub closure_path_count: usize,
}

/// The client wants a file of the cache.
pub struct CacheFileRequest {
    pub path: String,
    pub send_body: bool,
}

/// Whether there is such a file, and how long it is.
pub struct CacheFileResponse {
    pub found: bool,
    pub byte_count: u64,
}

/// What went wrong on the other side.
pub struct ErrorMessage {
    pub message: String,
}

/// The view of a message.
pub enum MessageView {
    Hello { version: u32, node_id: Seq<char> },
    AuthTrustedClient,
    AuthTicket { secret: Seq<u8> },
    AuthOk { client_name: Option<Seq<char>>, builder_public_key: Seq<char> },
    BuildRequest(BuildRequestView),
    BuildPaths(PathListChunkView),
    BuildQueued,
    MissingPaths(PathListChunkView),
    InputUploadReady,
    BuildStarted,
    NixLog { line: Seq<char> },
    BuildFinished { success: bool, output_paths: Seq<Seq<char>> },
    OutputClosure(PathListChunkView),
    OutputRequest(PathListChunkView),
    OutputDownloadReady { path_count: usize },
    OutputCacheReady { copy_paths: Seq<Seq<char>>, closure_path_count: usize },
    OutputCacheDone,
    CacheFileRequest { path: Seq<char>, send_body: bool },
    CacheFileResponse { found: bool, byte_count: u64 },
    Done,
    Error { message: Seq<char> },
}

/// The view of a build request.
pub struct BuildRequestView {
    pub installable: Seq<char>,
    pub drv_path: Seq<char>,
    pub output_paths: Seq<Seq<char>>,
    pub output_mode: OutputMode,
    pub rebuild: bool,
}

/// The view of a piece of a list.
pub struct PathListChunkView {
    pub paths: Seq<Seq<char>>,
    pub done: bool,
}

impl View for BuildRequest {
    type V = BuildRequestView;

    open spec fn view(&self) -> BuildRequestView {
        BuildRequestView {
            installable: self.installable@,
            drv_path: self.drv_path@,
            output_paths: text::texts(self.output_paths@),
            output_mode: self.output_mode,
            rebuild: self.rebuild,
        }
    }
}

impl View for PathListChunk {
    type V = PathListChunkView;

    open spec fn view(&self) -> PathListChunkView {
        PathListChunkView { paths: text::texts(self.paths@), done: self.done }
    }
}

impl View for Message {
    type V = MessageView;

    open spec fn view(&self) -> MessageView {
        match *self {
            Message::Hello(m) => MessageView::Hello { version: m.version, node_id: m.node_id@ },
            Message::AuthTrustedClient => MessageView::AuthTrustedClient,
            Message::AuthTicket(m) => MessageView::AuthTicket { secret: m.secret@ },
            Message::AuthOk(m) => MessageView::AuthOk {
                client_name: text::optional_text(m.client_name),
                builder_public_key: m.builder_public_key@,
            },
            Message::BuildRequest(m) => MessageView::BuildRequest(m@),
            Message::BuildPaths(m) => MessageView::BuildPaths(m@),
            Message::BuildQueued => MessageView::BuildQueued,
            Message::MissingPaths(m) => MessageView::MissingPaths(m@),
            Message::InputUploadReady => MessageView::InputUploadReady,
            Message::BuildStarted => MessageView::BuildStarted,
            Message::NixLog(m) => MessageView::NixLog { line: m.line@ },
            Message::BuildFinished(m) => MessageView::BuildFinished {
                success: m.success,
                output_paths: text::texts(m.output_paths@),
            },
            Message::OutputClosure(m) => MessageView::OutputClosure(m@),
            Message::OutputRequest(m) => MessageView::OutputRequest(m@),
            Message::OutputDownloadReady(m) => MessageView::OutputDownloadReady {
                path_count: m.path_count,
            },
            Message::OutputCacheReady(m) => MessageView::OutputCacheReady {
                copy_paths: text::texts(m.copy_paths@),
                closure_path_count: m.closure_path_count,
            },
            Message::OutputCacheDone => MessageView::OutputCacheDone,
            Message::CacheFileRequest(m) => MessageView::CacheFileRequest {
                path: m.path@,
                send_body: m.send_body,
            },
            Message::CacheFileResponse(m) => MessageView::CacheFileResponse {
                found: m.found,
                byte_count: m.byte_count,
            },
            Message::Done => MessageView::Done,
            Message::Error(m) => MessageView::Error { message: m.message@ },
        }
    }
}

/// A message that was received, and how it is shown where nobody expected it.
pub struct Incoming {
    pub message: Message,
    pub shown: String,
}

/// The error where a message came that nobody expected.
pub open spec fn unexpected(context: Seq<char>, shown: Seq<char>) -> Seq<Seq<char>> {
    seq![context + ": "@ + shown]
}

/// An error message for the other side.
pub fn error_message(message: &str) -> (m: Message)
    ensures
        m@ == (MessageView::Error { message: message@ }),
{
    Message::Error(ErrorMessage { message: message.to_string() })
}

/// There is one version of the protocol.
pub proof fn law_there_is_one_version()
    ensures
        VERSION == 0,
{
}

/// A message that was not expected is told with where it came.
pub proof fn law_unexpected_messages_are_shown(context: Seq<char>, shown: Seq<char>)
    ensures
        unexpected(context, shown).len() == 1,
        unexpected(context, shown)[0] == context + ": "@ + shown,
        context.is_prefix_of(unexpected(context, shown)[0]),
        shown.is_suffix_of(unexpected(context, shown)[0]),
{
    let said = unexpected(context, shown)[0];
    assert(context =~= said.subrange(0, context.len() as int));
    assert(shown =~= said.subrange(said.len() - shown.len(), said.len() as int));
}

} // verus!
