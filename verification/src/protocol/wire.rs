//! Frames: a message's length in four bytes, and the message.

use vstd::prelude::*;

use crate::error::Error;
use crate::text;
use crate::text::{concat3, decimal_string};

verus! {

/// The longest message that is written or read.
pub const MAX_MESSAGE_LEN: usize = 1_048_576;

/// The number that four bytes write, the highest first.
pub open spec fn number_of(bytes: Seq<u8>) -> int {
    bytes[0] * 0x1000000 + bytes[1] * 0x10000 + bytes[2] * 0x100 + bytes[3]
}

/// The four bytes that write a number.
pub open spec fn number_bytes(n: int) -> Seq<u8> {
    seq![
        (n / 0x1000000 % 0x100) as u8,
        (n / 0x10000 % 0x100) as u8,
        (n / 0x100 % 0x100) as u8,
        (n % 0x100) as u8,
    ]
}

/// The complaint about a message that is too long, where `what` says whose
/// message it is.
pub open spec fn too_large(what: Seq<char>, len: nat) -> Seq<char> {
    what + " message too large: "@ + text::decimal(len) + " bytes"@
}

/// A message as it is written: its length, then its body.
pub open spec fn framed(what: Seq<char>, body: Seq<u8>) -> Result<Seq<u8>, Seq<Seq<char>>> {
    if body.len() > MAX_MESSAGE_LEN {
        Err(seq![too_large(what, body.len())])
    } else {
        Ok(number_bytes(body.len() as int) + body)
    }
}

/// The length of the body that follows a header.
pub open spec fn body_len(what: Seq<char>, header: Seq<u8>) -> Result<int, Seq<Seq<char>>> {
    if number_of(header) > MAX_MESSAGE_LEN {
        Err(seq![too_large(what, number_of(header) as nat)])
    } else {
        Ok(number_of(header))
    }
}

fn too_large_error(what: &str, len: u64) -> (e: Error)
    ensures
        e@ == seq![too_large(what@, len as nat)],
{
    let mut message: String = concat3(
        what,
        " message too large: ",
        decimal_string(len).as_str(),
    );
    message.append(" bytes");
    Error::new(message)
}

/// Writes a message: its length, then its body.
pub fn frame(what: &str, body: &[u8]) -> (r: Result<Vec<u8>, Error>)
    ensures
        match r {
            Ok(bytes) => framed(what@, body@) == Ok::<Seq<u8>, Seq<Seq<char>>>(bytes@),
            Err(e) => framed(what@, body@) == Err::<Seq<u8>, Seq<Seq<char>>>(e@),
        },
{
    let n: usize = body.len();
    if n > MAX_MESSAGE_LEN {
        return Err(too_large_error(what, n as u64));
    }
    let mut bytes: Vec<u8> = Vec::new();
    bytes.push((n / 0x1000000 % 0x100) as u8);
    bytes.push((n / 0x10000 % 0x100) as u8);
    bytes.push((n / 0x100 % 0x100) as u8);
    bytes.push((n % 0x100) as u8);
    assert(bytes@ =~= number_bytes(body@.len() as int));
    bytes.extend_from_slice(body);
    assert(bytes@ =~= number_bytes(body@.len() as int) + body@);
    Ok(bytes)
}

/// Reads the length of the body that follows a header.
pub fn frame_body_len(what: &str, header: &[u8; 4]) -> (r: Result<usize, Error>)
    ensures
        match r {
            Ok(n) => body_len(what@, header@) == Ok::<int, Seq<Seq<char>>>(n as int),
            Err(e) => body_len(what@, header@) == Err::<int, Seq<Seq<char>>>(e@),
        },
{
    let n: u64 = header[0] as u64 * 0x1000000 + header[1] as u64 * 0x10000 + header[2] as u64
        * 0x100 + header[3] as u64;
    if n > MAX_MESSAGE_LEN as u64 {
        return Err(too_large_error(what, n));
    }
    Ok(n as usize)
}

/// What is written is read back: the first four bytes of a message that was
/// written say how long its body is, and the body follows them.
pub proof fn law_frames_are_read_back(what: Seq<char>, body: Seq<u8>)
    requires
        body.len() <= MAX_MESSAGE_LEN,
    ensures
        framed(what, body) matches Ok(bytes) && body_len(what, bytes.take(4)) == Ok::<
            int,
            Seq<Seq<char>>,
        >(body.len() as int) && bytes.skip(4) == body,
{
    let n = body.len() as int;
    let header = number_bytes(n);
    let bytes = header + body;
    assert(bytes.take(4) =~= header);
    assert(bytes.skip(4) =~= body);
    assert(number_of(header) == n) by {
        assert(n / 0x1000000 == 0);
        assert(n / 0x10000 < 0x100);
        assert(n / 0x100 < 0x10000);
        assert((n / 0x100) / 0x100 == n / 0x10000);
    }
}

/// No message that is too long is written, and none is read.
pub proof fn law_long_messages_are_refused(what: Seq<char>, body: Seq<u8>, header: Seq<u8>)
    ensures
        (framed(what, body) is Err) == (body.len() > MAX_MESSAGE_LEN),
        (body_len(what, header) is Err) == (number_of(header) > MAX_MESSAGE_LEN),
{
}

/// A message of up to a mebibyte is written as four bytes and its body. Each
/// byte counts for two hundred and fifty-six of the next, so that they come to
/// the body's length.
pub proof fn law_lengths_are_written_highest_first(what: Seq<char>, body: Seq<u8>)
    ensures
        body.len() <= 1_048_576 ==> match framed(what, body) {
            Ok(bytes) => {
                &&& bytes.len() == 4 + body.len()
                &&& ((bytes[0] * 256 + bytes[1]) * 256 + bytes[2]) * 256 + bytes[3] == body.len()
                &&& bytes.skip(4) == body
            },
            Err(_) => false,
        },
        body.len() > 1_048_576 ==> framed(what, body) == Err::<Seq<u8>, Seq<Seq<char>>>(
            seq![what + " message too large: "@ + text::decimal(body.len()) + " bytes"@],
        ),
{
    if body.len() <= 1_048_576 {
        law_frames_are_read_back(what, body);
        assert(framed(what, body)->Ok_0.take(4).len() == 4);
    }
}

/// The length that a header says is the one that its bytes come to, up to a
/// mebibyte, and a longer message is refused.
pub proof fn law_headers_say_the_length(what: Seq<char>, header: Seq<u8>)
    requires
        header.len() == 4,
    ensures
        ({
            let n = ((header[0] * 256 + header[1]) * 256 + header[2]) * 256 + header[3];
            &&& n <= 1_048_576 ==> body_len(what, header) == Ok::<int, Seq<Seq<char>>>(n)
            &&& n > 1_048_576 ==> body_len(what, header) == Err::<int, Seq<Seq<char>>>(
                seq![what + " message too large: "@ + text::decimal(n as nat) + " bytes"@],
            )
        }),
{
}

} // verus!
