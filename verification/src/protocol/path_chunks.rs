//! Lists of store paths, sent in pieces and read within limits.

use vstd::prelude::*;

use crate::chunks;
use crate::chunks::piece_end;
use crate::error::Error;
use crate::proto;
use crate::proto::{Message, MessageView, PathListChunk, PathListChunkView};
use crate::text;
use crate::text::{clone_strings, concat3, decimal_string, push_texts};
use vstd::slice::slice_subrange;

verus! {

/// The most paths in one piece.
pub const PATH_CHUNK_SIZE: usize = 512;

/// How much of a list is read at most.
#[derive(Clone, Copy, Debug, PartialEq, Eq, Structural)]
pub struct ReadLimits {
    pub chunks: usize,
    pub paths: usize,
    pub bytes: usize,
}

/// Which list is read.
#[derive(Clone, Copy, Debug, PartialEq, Eq, Structural)]
pub enum PathListKind {
    BuildPaths,
    MissingPaths,
    OutputClosure,
    OutputRequest,
}

// ---------------------------------------------------------------------------
// Writing
// ---------------------------------------------------------------------------

/// The pieces of a list: the last one says so, and an empty list is one empty
/// piece.
pub open spec fn written(paths: Seq<Seq<char>>) -> Seq<PathListChunkView> {
    if paths.len() == 0 {
        seq![PathListChunkView { paths: Seq::empty(), done: true }]
    } else {
        marked(chunks::pieces(paths, PATH_CHUNK_SIZE as int))
    }
}

/// Pieces of a list, of which the last one says so.
pub open spec fn marked(pieces: Seq<Seq<Seq<char>>>) -> Seq<PathListChunkView> {
    Seq::new(
        pieces.len(),
        |i: int| PathListChunkView { paths: pieces[i], done: i == pieces.len() - 1 },
    )
}

pub open spec fn chunk_views(list: Seq<PathListChunk>) -> Seq<PathListChunkView> {
    Seq::new(list.len(), |i: int| list[i]@)
}

proof fn lemma_texts_subrange(list: Seq<String>, from: int, to: int)
    requires
        0 <= from <= to <= list.len(),
    ensures
        text::texts(list.subrange(from, to)) == text::texts(list).subrange(from, to),
{
    assert(text::texts(list.subrange(from, to)) =~= text::texts(list).subrange(from, to));
}

/// Cuts a list into the pieces in which it is sent.
pub fn write(paths: &[String]) -> (r: Vec<PathListChunk>)
    ensures
        chunk_views(r@) == written(text::texts(paths@)),
{
    let mut out: Vec<PathListChunk> = Vec::new();
    let ghost all = text::texts(paths@);
    if paths.len() == 0 {
        let none: Vec<String> = Vec::new();
        assert(text::texts(none@) =~= Seq::<Seq<char>>::empty());
        out.push(PathListChunk { paths: none, done: true });
        assert(chunk_views(out@) =~= written(all));
        return out;
    }
    let ghost cut = chunks::pieces(all, PATH_CHUNK_SIZE as int);
    let mut from: usize = 0;
    proof {
        assert(all.skip(0) =~= all);
        assert(cut.take(0) + cut =~= cut);
        chunks::law_pieces_assemble(all, PATH_CHUNK_SIZE as int);
    }
    while from < paths.len()
        invariant
            from <= paths@.len(),
            all == text::texts(paths@),
            cut == chunks::pieces(all, PATH_CHUNK_SIZE as int),
            out@.len() <= cut.len(),
            cut.take(out@.len() as int) + chunks::pieces(
                all.skip(from as int),
                PATH_CHUNK_SIZE as int,
            ) == cut,
            chunk_views(out@) == marked(cut).take(out@.len() as int),
        decreases paths@.len() - from,
    {
        let to: usize = piece_end(paths.len(), from, PATH_CHUNK_SIZE);
        let piece: &[String] = slice_subrange(paths, from, to);
        let ghost n = out@.len() as int;
        let ghost rest = chunks::pieces(all.skip(to as int), PATH_CHUNK_SIZE as int);
        let ghost now = all.subrange(from as int, to as int);
        proof {
            chunks::lemma_next_piece(all, PATH_CHUNK_SIZE as int, from as int, to as int);
            lemma_texts_subrange(paths@, from as int, to as int);
            assert(cut.take(n) + (seq![now] + rest) =~= cut);
            assert((cut.take(n) + (seq![now] + rest))[n] == now);
            assert(cut.take(n + 1) =~= cut.take(n).push(now));
            assert(cut.take(n + 1) + rest =~= cut);
            chunks::law_pieces_assemble(all.skip(to as int), PATH_CHUNK_SIZE as int);
            assert(cut.len() == n + 1 + rest.len());
        }
        let ghost earlier = chunk_views(out@);
        let chunk: PathListChunk = PathListChunk {
            paths: clone_strings(piece),
            done: to == paths.len(),
        };
        assert(chunk@ == marked(cut)[n]);
        out.push(chunk);
        assert(chunk_views(out@) =~= earlier.push(marked(cut)[n]));
        assert(chunk_views(out@) =~= marked(cut).take(n + 1));
        from = to;
    }
    proof {
        assert(all.skip(from as int) =~= Seq::<Seq<char>>::empty());
        assert(cut.take(out@.len() as int) =~= cut);
        assert(marked(cut).take(out@.len() as int) =~= marked(cut));
    }
    out
}

/// The message that carries a piece of a list.
pub open spec fn carried(kind: PathListKind, chunk: PathListChunkView) -> MessageView {
    match kind {
        PathListKind::BuildPaths => MessageView::BuildPaths(chunk),
        PathListKind::MissingPaths => MessageView::MissingPaths(chunk),
        PathListKind::OutputClosure => MessageView::OutputClosure(chunk),
        PathListKind::OutputRequest => MessageView::OutputRequest(chunk),
    }
}

pub fn chunk_message(kind: PathListKind, chunk: PathListChunk) -> (m: Message)
    ensures
        m@ == carried(kind, chunk@),
{
    match kind {
        PathListKind::BuildPaths => Message::BuildPaths(chunk),
        PathListKind::MissingPaths => Message::MissingPaths(chunk),
        PathListKind::OutputClosure => Message::OutputClosure(chunk),
        PathListKind::OutputRequest => Message::OutputRequest(chunk),
    }
}

/// The messages that send a list.
pub open spec fn list_messages(kind: PathListKind, paths: Seq<Seq<char>>) -> Seq<MessageView> {
    Seq::new(written(paths).len(), |i: int| carried(kind, written(paths)[i]))
}

pub open spec fn message_views(list: Seq<Message>) -> Seq<MessageView> {
    Seq::new(list.len(), |i: int| list[i]@)
}

/// The messages that send a list.
pub fn write_messages(kind: PathListKind, paths: &[String]) -> (r: Vec<Message>)
    ensures
        message_views(r@) == list_messages(kind, text::texts(paths@)),
{
    let mut pieces: Vec<PathListChunk> = write(paths);
    let ghost all = written(text::texts(paths@));
    let mut reversed: Vec<Message> = Vec::new();
    let mut out: Vec<Message> = Vec::new();
    assert(chunk_views(pieces@) == all);
    assert(pieces@.len() == all.len());
    while pieces.len() > 0
        invariant
            pieces@.len() + reversed@.len() == all.len(),
            chunk_views(pieces@) == all.take(pieces@.len() as int),
            forall|i: int|
                0 <= i < reversed@.len() ==> (#[trigger] reversed@[i])@ == carried(
                    kind,
                    all[all.len() - 1 - i],
                ),
        decreases pieces@.len(),
    {
        let ghost n = pieces@.len() as int;
        assert(chunk_views(pieces@)[n - 1] == all[n - 1]);
        match pieces.pop() {
            Some(chunk) => {
                reversed.push(chunk_message(kind, chunk));
            },
            None => {},
        }
        assert(chunk_views(pieces@) =~= all.take(n - 1));
    }
    while reversed.len() > 0
        invariant
            reversed@.len() + out@.len() == all.len(),
            forall|i: int|
                0 <= i < reversed@.len() ==> (#[trigger] reversed@[i])@ == carried(
                    kind,
                    all[all.len() - 1 - i],
                ),
            forall|i: int|
                0 <= i < out@.len() ==> (#[trigger] out@[i])@ == carried(kind, all[i]),
        decreases reversed@.len(),
    {
        let ghost n = reversed@.len() as int;
        assert(reversed@[n - 1]@ == carried(kind, all[all.len() - n]));
        match reversed.pop() {
            Some(message) => {
                out.push(message);
            },
            None => {},
        }
    }
    assert(message_views(out@) =~= list_messages(kind, text::texts(paths@)));
    out
}

// ---------------------------------------------------------------------------
// Reading
// ---------------------------------------------------------------------------

/// How many bytes the texts of a list take.
pub open spec fn byte_len(paths: Seq<Seq<char>>) -> nat
    decreases paths.len(),
{
    if paths.len() == 0 {
        0
    } else {
        byte_len(paths.drop_last()) + vstd::utf8::encode_utf8(paths.last()).len()
    }
}

/// What was read so far of a list.
pub struct ReadState {
    pub paths: Vec<String>,
    pub chunks: usize,
    pub path_bytes: usize,
}

/// The view of what was read so far.
pub struct ReadStateView {
    pub paths: Seq<Seq<char>>,
    pub chunks: nat,
    pub path_bytes: nat,
}

impl View for ReadState {
    type V = ReadStateView;

    open spec fn view(&self) -> ReadStateView {
        ReadStateView {
            paths: text::texts(self.paths@),
            chunks: self.chunks as nat,
            path_bytes: self.path_bytes as nat,
        }
    }
}

pub open spec fn nothing_read() -> ReadStateView {
    ReadStateView { paths: Seq::empty(), chunks: 0, path_bytes: 0 }
}

/// Why a piece is one too many, or too long.
pub open spec fn limit_fault(
    state: ReadStateView,
    chunk: Seq<Seq<char>>,
    limits: ReadLimits,
) -> Option<Seq<char>> {
    if state.chunks + 1 > limits.chunks {
        Some("path list exceeded "@ + text::decimal(limits.chunks as nat) + " chunks"@)
    } else if state.paths.len() + chunk.len() > limits.paths {
        Some("path list exceeded "@ + text::decimal(limits.paths as nat) + " paths"@)
    } else if state.path_bytes + byte_len(chunk) > usize::MAX {
        Some("path list byte count overflow"@)
    } else if state.path_bytes + byte_len(chunk) > limits.bytes {
        Some("path list exceeded "@ + text::decimal(limits.bytes as nat) + " bytes"@)
    } else {
        None
    }
}

/// What was read, with one more piece.
pub open spec fn with_chunk(state: ReadStateView, chunk: Seq<Seq<char>>) -> ReadStateView {
    ReadStateView {
        paths: state.paths + chunk,
        chunks: state.chunks + 1,
        path_bytes: state.path_bytes + byte_len(chunk),
    }
}

proof fn lemma_byte_len_grows(paths: Seq<Seq<char>>, n: int)
    requires
        0 <= n <= paths.len(),
    ensures
        byte_len(paths.take(n)) <= byte_len(paths),
    decreases paths.len() - n,
{
    if n < paths.len() {
        lemma_byte_len_grows(paths, n + 1);
        assert(paths.take(n + 1).drop_last() =~= paths.take(n));
    } else {
        assert(paths.take(n) =~= paths);
    }
}

/// The bytes of a list after `start`, where they can be counted.
fn count_bytes(start: usize, paths: &[String]) -> (r: Option<usize>)
    ensures
        match r {
            Some(total) => total == start + byte_len(text::texts(paths@)),
            None => start + byte_len(text::texts(paths@)) > usize::MAX,
        },
{
    let ghost all = text::texts(paths@);
    let mut total: usize = start;
    let mut i: usize = 0;
    assert(all.take(0).len() == 0);
    while i < paths.len()
        invariant
            i <= paths@.len(),
            all == text::texts(paths@),
            total == start + byte_len(all.take(i as int)),
        decreases paths@.len() - i,
    {
        proof {
            assert(all.take(i + 1).drop_last() =~= all.take(i as int));
            assert(all.take(i + 1).last() == paths@[i as int]@);
            lemma_byte_len_grows(all, i + 1);
        }
        let bytes: &[u8] = paths[i].as_str().as_bytes();
        match total.checked_add(bytes.len()) {
            Some(sum) => {
                total = sum;
            },
            None => {
                return None;
            },
        }
        i = i + 1;
    }
    assert(all.take(i as int) =~= all);
    Some(total)
}

fn exceeded(limit: usize, what: &str) -> (e: Error)
    ensures
        e@ == seq!["path list exceeded "@ + text::decimal(limit as nat) + what@],
{
    Error::new(concat3("path list exceeded ", decimal_string(limit as u64).as_str(), what))
}

/// The bytes that are counted once a piece was looked at: those of the piece are
/// added where neither the pieces nor the paths are too many.
pub open spec fn counted_bytes(
    state: ReadStateView,
    chunk: Seq<Seq<char>>,
    limits: ReadLimits,
) -> nat {
    let total = state.path_bytes + byte_len(chunk);
    if state.chunks + 1 > limits.chunks || state.paths.len() + chunk.len() > limits.paths || total
        > usize::MAX {
        state.path_bytes
    } else {
        total
    }
}

/// Counts a piece, and refuses it where it goes beyond the limits.
pub fn check_limits(state: &mut ReadState, chunk: &PathListChunk, limits: ReadLimits) -> (r: Result<
    (),
    Error,
>)
    requires
        old(state)@.chunks < usize::MAX,
    ensures
        final(state).paths == old(state).paths,
        final(state)@.chunks == old(state)@.chunks + 1,
        final(state)@.path_bytes == counted_bytes(old(state)@, chunk@.paths, limits),
        match r {
            Ok(()) => limit_fault(old(state)@, chunk@.paths, limits) is None,
            Err(e) => limit_fault(old(state)@, chunk@.paths, limits) matches Some(fault) && e@
                == seq![fault],
        },
{
    state.chunks = state.chunks + 1;
    if state.chunks > limits.chunks {
        return Err(exceeded(limits.chunks, " chunks"));
    }
    assert(text::texts(state.paths@).len() == state.paths@.len());
    assert(text::texts(chunk.paths@).len() == chunk.paths@.len());
    let within: bool = match state.paths.len().checked_add(chunk.paths.len()) {
        Some(count) => count <= limits.paths,
        None => false,
    };
    if !within {
        return Err(exceeded(limits.paths, " paths"));
    }
    state.path_bytes = match count_bytes(state.path_bytes, chunk.paths.as_slice()) {
        Some(total) => total,
        None => {
            return Err(Error::of("path list byte count overflow"));
        },
    };
    if state.path_bytes > limits.bytes {
        return Err(exceeded(limits.bytes, " bytes"));
    }
    Ok(())
}

/// The piece in a message, where it carries one of the list that is read.
pub open spec fn chunk_of(
    kind: PathListKind,
    message: MessageView,
    shown: Seq<char>,
    context: Seq<char>,
) -> Result<PathListChunkView, Seq<Seq<char>>> {
    match (kind, message) {
        (PathListKind::BuildPaths, MessageView::BuildPaths(chunk)) => Ok(chunk),
        (PathListKind::MissingPaths, MessageView::MissingPaths(chunk)) => Ok(chunk),
        (PathListKind::OutputClosure, MessageView::OutputClosure(chunk)) => Ok(chunk),
        (PathListKind::OutputRequest, MessageView::OutputRequest(chunk)) => Ok(chunk),
        (_, MessageView::Error { message }) => Err(seq![message]),
        _ => Err(proto::unexpected(context, shown)),
    }
}

/// Takes the piece out of a message.
pub fn read_chunk(kind: PathListKind, message: Message, shown: &str, context: &str) -> (r: Result<
    PathListChunk,
    Error,
>)
    ensures
        match r {
            Ok(chunk) => chunk_of(kind, message@, shown@, context@) == Ok::<
                PathListChunkView,
                Seq<Seq<char>>,
            >(chunk@),
            Err(e) => chunk_of(kind, message@, shown@, context@) == Err::<
                PathListChunkView,
                Seq<Seq<char>>,
            >(e@),
        },
{
    match (kind, message) {
        (PathListKind::BuildPaths, Message::BuildPaths(chunk)) => Ok(chunk),
        (PathListKind::MissingPaths, Message::MissingPaths(chunk)) => Ok(chunk),
        (PathListKind::OutputClosure, Message::OutputClosure(chunk)) => Ok(chunk),
        (PathListKind::OutputRequest, Message::OutputRequest(chunk)) => Ok(chunk),
        (_, Message::Error(err)) => Err(Error::new(err.message)),
        _ => Err(Error::new(concat3(context, ": ", shown))),
    }
}

/// What reading one more message of a list comes to: the whole list, more to
/// read, or an error.
pub enum ReadStep {
    Finished { paths: Vec<String> },
    More { state: ReadState },
    Failed { error: Error },
}

/// The view of such a step.
pub enum ReadStepView {
    Finished { paths: Seq<Seq<char>> },
    More { state: ReadStateView },
    Failed { error: Seq<Seq<char>> },
}

impl View for ReadStep {
    type V = ReadStepView;

    open spec fn view(&self) -> ReadStepView {
        match *self {
            ReadStep::Finished { paths } => ReadStepView::Finished { paths: text::texts(paths@) },
            ReadStep::More { state } => ReadStepView::More { state: state@ },
            ReadStep::Failed { error } => ReadStepView::Failed { error: error@ },
        }
    }
}

/// Reading a piece.
pub open spec fn read_piece(
    state: ReadStateView,
    chunk: PathListChunkView,
    limits: ReadLimits,
) -> ReadStepView {
    match limit_fault(state, chunk.paths, limits) {
        Some(fault) => ReadStepView::Failed { error: seq![fault] },
        None => if chunk.done {
            ReadStepView::Finished { paths: state.paths + chunk.paths }
        } else {
            ReadStepView::More { state: with_chunk(state, chunk.paths) }
        },
    }
}

/// Reading a message.
pub open spec fn read_message(
    state: ReadStateView,
    kind: PathListKind,
    limits: ReadLimits,
    message: MessageView,
    shown: Seq<char>,
    context: Seq<char>,
) -> ReadStepView {
    match chunk_of(kind, message, shown, context) {
        Err(error) => ReadStepView::Failed { error },
        Ok(chunk) => read_piece(state, chunk, limits),
    }
}

impl ReadState {
    pub fn new() -> (state: Self)
        ensures
            state@ == nothing_read(),
    {
        let paths: Vec<String> = Vec::new();
        assert(text::texts(paths@) =~= Seq::<Seq<char>>::empty());
        ReadState { paths, chunks: 0, path_bytes: 0 }
    }

    /// Reads one more message of a list.
    pub fn read(
        self,
        kind: PathListKind,
        limits: ReadLimits,
        message: Message,
        shown: &str,
        context: &str,
    ) -> (r: ReadStep)
        ensures
            r@ == read_message(self@, kind, limits, message@, shown@, context@),
    {
        let chunk: PathListChunk = match read_chunk(kind, message, shown, context) {
            Ok(chunk) => chunk,
            Err(error) => {
                return ReadStep::Failed { error };
            },
        };
        let mut state: ReadState = self;
        if state.chunks == usize::MAX {
            return ReadStep::Failed { error: exceeded(limits.chunks, " chunks") };
        }
        match check_limits(&mut state, &chunk, limits) {
            Ok(()) => {},
            Err(error) => {
                return ReadStep::Failed { error };
            },
        }
        let ReadState { mut paths, chunks, path_bytes } = state;
        push_texts(&mut paths, chunk.paths.as_slice());
        if chunk.done {
            ReadStep::Finished { paths }
        } else {
            ReadStep::More { state: ReadState { paths, chunks, path_bytes } }
        }
    }
}

// ---------------------------------------------------------------------------
// Laws
// ---------------------------------------------------------------------------

/// Reading a series of pieces: after the first that ends the list or fails,
/// the rest is not read.
pub open spec fn read_pieces(
    state: ReadStateView,
    pieces: Seq<PathListChunkView>,
    limits: ReadLimits,
) -> ReadStepView
    decreases pieces.len(),
{
    if pieces.len() == 0 {
        ReadStepView::More { state }
    } else {
        match read_piece(state, pieces[0], limits) {
            ReadStepView::More { state } => read_pieces(state, pieces.skip(1), limits),
            step => step,
        }
    }
}

/// How many bytes two lists take together.
proof fn lemma_byte_len_concat(a: Seq<Seq<char>>, b: Seq<Seq<char>>)
    ensures
        byte_len(a + b) == byte_len(a) + byte_len(b),
    decreases b.len(),
{
    if b.len() == 0 {
        assert(a + b =~= a);
    } else {
        assert((a + b).drop_last() =~= a + b.drop_last());
        lemma_byte_len_concat(a, b.drop_last());
    }
}

/// A list that keeps within the limits is read as it was written.
pub proof fn law_lists_are_read_as_written(paths: Seq<Seq<char>>, limits: ReadLimits)
    requires
        1 <= limits.chunks,
        chunks::pieces(paths, PATH_CHUNK_SIZE as int).len() <= limits.chunks,
        paths.len() <= limits.paths,
        byte_len(paths) <= limits.bytes,
    ensures
        read_pieces(nothing_read(), written(paths), limits) == (ReadStepView::Finished { paths }),
{
    if paths.len() == 0 {
        let piece = PathListChunkView { paths: Seq::<Seq<char>>::empty(), done: true };
        assert(written(paths)[0] == piece);
        assert(nothing_read().paths + piece.paths =~= paths);
        assert(byte_len(piece.paths) == 0);
    } else {
        let cut = chunks::pieces(paths, PATH_CHUNK_SIZE as int);
        assert(marked(cut).skip(0) =~= marked(cut));
        assert(paths.skip(0) =~= paths);
        chunks::law_pieces_assemble(paths, PATH_CHUNK_SIZE as int);
        lemma_read_rest(nothing_read(), paths, paths, limits);
    }
}

/// What is left of a list is read in pieces.
proof fn lemma_read_rest(
    state: ReadStateView,
    rest: Seq<Seq<char>>,
    all: Seq<Seq<char>>,
    limits: ReadLimits,
)
    requires
        rest.len() > 0,
        state.paths + rest == all,
        state.path_bytes == byte_len(state.paths),
        state.chunks + chunks::pieces(rest, PATH_CHUNK_SIZE as int).len() <= limits.chunks,
        all.len() <= limits.paths,
        byte_len(all) <= limits.bytes,
    ensures
        read_pieces(state, marked(chunks::pieces(rest, PATH_CHUNK_SIZE as int)), limits) == (
        ReadStepView::Finished { paths: all }),
    decreases rest.len(),
{
    let size = PATH_CHUNK_SIZE as int;
    let cut = chunks::pieces(rest, size);
    let to = if rest.len() <= size {
        rest.len() as int
    } else {
        size
    };
    assert(rest.skip(0) =~= rest);
    chunks::lemma_next_piece(rest, size, 0, to);
    let first = rest.subrange(0, to);
    let later = rest.skip(to);
    assert(first + later =~= rest);
    assert(state.paths + first + later =~= all);
    lemma_byte_len_concat(state.paths, first);
    lemma_byte_len_concat(state.paths + first, later);
    assert(cut == seq![first] + chunks::pieces(later, size));
    chunks::law_pieces_assemble(later, size);
    let pieces = marked(cut);
    assert(pieces[0].paths == first);
    if later.len() == 0 {
        assert(pieces[0].done);
        assert(state.paths + first =~= all);
    } else {
        assert(!pieces[0].done);
        assert(pieces.skip(1) =~= marked(chunks::pieces(later, size)));
        lemma_read_rest(with_chunk(state, first), later, all, limits);
    }
}

/// Whatever the other side sends, no list is taken that goes beyond the
/// limits.
pub proof fn law_limits_hold(
    state: ReadStateView,
    pieces: Seq<PathListChunkView>,
    limits: ReadLimits,
)
    requires
        state.path_bytes == byte_len(state.paths),
    ensures
        match read_pieces(state, pieces, limits) {
            ReadStepView::Finished { paths } => paths.len() <= limits.paths && byte_len(paths)
                <= limits.bytes,
            ReadStepView::More { state } => state.path_bytes == byte_len(state.paths),
            ReadStepView::Failed { .. } => true,
        },
    decreases pieces.len(),
{
    if pieces.len() > 0 {
        lemma_byte_len_concat(state.paths, pieces[0].paths);
        match read_piece(state, pieces[0], limits) {
            ReadStepView::More { state: next } => {
                law_limits_hold(next, pieces.skip(1), limits);
            },
            _ => {},
        }
    }
}

/// The piece of a list that a message carries, where it is one of this kind.
pub open spec fn piece_in(kind: PathListKind, message: MessageView) -> Option<PathListChunkView> {
    match (kind, message) {
        (PathListKind::BuildPaths, MessageView::BuildPaths(chunk)) => Some(chunk),
        (PathListKind::MissingPaths, MessageView::MissingPaths(chunk)) => Some(chunk),
        (PathListKind::OutputClosure, MessageView::OutputClosure(chunk)) => Some(chunk),
        (PathListKind::OutputRequest, MessageView::OutputRequest(chunk)) => Some(chunk),
        _ => None,
    }
}

/// A list of any length is sent whole, in messages of its kind: their pieces, one
/// after the other, are the list, and just the last of them says that it is the
/// last.
pub proof fn law_lists_are_sent_whole(kind: PathListKind, paths: Seq<Seq<char>>)
    ensures
        ({
            let messages = list_messages(kind, paths);
            &&& messages.len() > 0
            &&& forall|i: int|
                0 <= i < messages.len() ==> (piece_in(kind, #[trigger] messages[i]) matches Some(
                    piece,
                ) && piece.done == (i == messages.len() - 1))
            &&& chunks::assembled(
                Seq::new(messages.len(), |i: int| piece_in(kind, messages[i])->0.paths),
            ) == paths
        }),
{
    let messages = list_messages(kind, paths);
    let parts = Seq::new(messages.len(), |i: int| piece_in(kind, messages[i])->0.paths);
    chunks::law_pieces_assemble(paths, PATH_CHUNK_SIZE as int);
    if paths.len() == 0 {
        assert(parts =~= seq![Seq::<Seq<char>>::empty()]);
        assert(parts.skip(1) =~= Seq::<Seq<Seq<char>>>::empty());
        assert(chunks::assembled(parts.skip(1)) =~= Seq::<Seq<char>>::empty());
        assert(chunks::assembled(parts) =~= paths);
    } else {
        assert(parts =~= chunks::pieces(paths, PATH_CHUNK_SIZE as int));
    }
}

/// A piece is taken where it keeps the list within the limits, and only there; the
/// list then has the paths of the piece at its end, and is complete where the
/// piece says so.
pub proof fn law_pieces_are_taken_within_the_limits(
    state: ReadStateView,
    chunk: PathListChunkView,
    limits: ReadLimits,
)
    requires
        limits.bytes <= usize::MAX,
    ensures
        ({
            let fits = state.chunks < limits.chunks && state.paths.len() + chunk.paths.len()
                <= limits.paths && state.path_bytes + byte_len(chunk.paths) <= limits.bytes;
            &&& read_piece(state, chunk, limits) is Failed <==> !fits
            &&& fits && chunk.done ==> read_piece(state, chunk, limits) == (ReadStepView::Finished {
                paths: state.paths + chunk.paths,
            })
            &&& fits && !chunk.done ==> (read_piece(state, chunk, limits) matches ReadStepView::More {
                state: longer,
            } && longer.paths == state.paths + chunk.paths && longer.chunks == state.chunks + 1
                && longer.path_bytes == state.path_bytes + byte_len(chunk.paths))
        }),
{
}

/// Where a message is no piece of the list that is read, reading fails: with what
/// the other side says went wrong, or with the message that nobody expected.
pub proof fn law_other_messages_end_a_list(
    state: ReadStateView,
    kind: PathListKind,
    limits: ReadLimits,
    message: MessageView,
    shown: Seq<char>,
    context: Seq<char>,
)
    ensures
        piece_in(kind, message) matches Some(piece) ==> read_message(
            state,
            kind,
            limits,
            message,
            shown,
            context,
        ) == read_piece(state, piece, limits),
        piece_in(kind, message) is None ==> read_message(
            state,
            kind,
            limits,
            message,
            shown,
            context,
        ) == (ReadStepView::Failed {
            error: seq![
                if message is Error {
                    message->Error_message
                } else {
                    context + ": "@ + shown
                },
            ],
        }),
{
}

/// A list that is too long is refused, with the limit that it goes beyond: of
/// its messages, of its paths, or of their bytes.
pub proof fn law_long_lists_are_refused(
    state: ReadStateView,
    chunk: Seq<Seq<char>>,
    limits: ReadLimits,
)
    ensures
        ({
            let pieces = state.chunks + 1;
            let paths = state.paths.len() + chunk.len();
            let bytes = state.path_bytes + byte_len(chunk);
            &&& pieces > limits.chunks ==> limit_fault(state, chunk, limits) == Some(
                "path list exceeded "@ + text::decimal(limits.chunks as nat) + " chunks"@,
            )
            &&& pieces <= limits.chunks && paths > limits.paths ==> limit_fault(
                state,
                chunk,
                limits,
            ) == Some("path list exceeded "@ + text::decimal(limits.paths as nat) + " paths"@)
            &&& pieces <= limits.chunks && paths <= limits.paths && limits.bytes < bytes
                <= usize::MAX ==> limit_fault(state, chunk, limits) == Some(
                "path list exceeded "@ + text::decimal(limits.bytes as nat) + " bytes"@,
            )
            &&& pieces <= limits.chunks && paths <= limits.paths && bytes > usize::MAX
                ==> limit_fault(state, chunk, limits) == Some("path list byte count overflow"@)
            &&& pieces <= limits.chunks && paths <= limits.paths && bytes <= limits.bytes
                ==> limit_fault(state, chunk, limits) is None && counted_bytes(
                state,
                chunk,
                limits,
            ) == bytes
            &&& pieces > limits.chunks ==> counted_bytes(state, chunk, limits) == state.path_bytes
            &&& paths > limits.paths ==> counted_bytes(state, chunk, limits) == state.path_bytes
        }),
{
}

} // verus!
