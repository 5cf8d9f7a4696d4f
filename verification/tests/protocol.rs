use drv_thru::proto::{error_message, Message, PathListChunk};
use drv_thru::protocol::path_chunks::{
    check_limits, write_messages, PathListKind, ReadLimits, ReadState, ReadStep,
};
use drv_thru::protocol::wire::{frame, frame_body_len, MAX_MESSAGE_LEN};

#[test]
fn frames_are_read_back() {
    let bytes = frame("control", b"hello").unwrap();
    assert_eq!(bytes, [0, 0, 0, 5, b'h', b'e', b'l', b'l', b'o']);
    assert_eq!(frame_body_len("control", &[0, 0, 0, 5]).unwrap(), 5);
    assert_eq!(frame_body_len("control", &[0, 1, 2, 3]).unwrap(), 0x10203);
}

#[test]
fn long_messages_are_refused() {
    let body = vec![0u8; MAX_MESSAGE_LEN + 1];
    assert!(frame("helper", &body)
        .unwrap_err()
        .message()
        .contains("message too large: 1048577 bytes"));
    assert!(frame("helper", &body[1..]).is_ok());
    assert!(frame_body_len("helper", &[1, 0, 0, 0]).is_err());
}

fn texts(n: usize) -> Vec<String> {
    (0..n).map(|i| format!("path-{i}")).collect()
}

fn limits() -> ReadLimits {
    ReadLimits {
        chunks: 4,
        paths: 1500,
        bytes: 100_000,
    }
}

fn read_all(messages: Vec<Message>, kind: PathListKind) -> Result<Vec<String>, String> {
    let mut state = ReadState::new();
    for message in messages {
        match state.read(kind, limits(), message, "Shown", "unexpected") {
            ReadStep::Finished { paths } => return Ok(paths),
            ReadStep::More { state: next } => state = next,
            ReadStep::Failed { error } => return Err(error.message()),
        }
    }
    Err("no end".to_string())
}

#[test]
fn lists_are_read_as_written() {
    for n in [0, 1, 511, 512, 513, 1500] {
        let paths = texts(n);
        let messages = write_messages(PathListKind::MissingPaths, &paths);
        assert_eq!(read_all(messages, PathListKind::MissingPaths).unwrap(), paths);
    }
    let pieces = drv_thru::protocol::path_chunks::write(&texts(1025));
    assert_eq!(pieces.len(), 3);
    assert!(pieces[2].done && !pieces[0].done);
}

#[test]
fn lists_beyond_the_limits_are_refused() {
    let read = |paths: Vec<String>| {
        read_all(
            write_messages(PathListKind::BuildPaths, &paths),
            PathListKind::BuildPaths,
        )
        .unwrap_err()
    };
    assert_eq!(read(texts(1501)), "path list exceeded 1500 paths");
    assert_eq!(read(vec!["x".repeat(100_001)]), "path list exceeded 100000 bytes");
    let endless: Vec<Message> = (0..5)
        .map(|_| {
            Message::BuildPaths(PathListChunk {
                paths: Vec::new(),
                done: false,
            })
        })
        .collect();
    assert_eq!(
        read_all(endless, PathListKind::BuildPaths).unwrap_err(),
        "path list exceeded 4 chunks"
    );
}

#[test]
fn lists_are_told_apart() {
    let read = |message| read_all(vec![message], PathListKind::OutputClosure).unwrap_err();
    assert_eq!(read(Message::Done), "unexpected: Shown");
    assert_eq!(read(error_message("oops")), "oops");
}

#[test]
fn pieces_are_counted_before_they_are_refused() {
    let chunk = PathListChunk {
        paths: vec!["abc".to_string(), "de".to_string()],
        done: false,
    };
    let counted = |path_bytes: usize, limits: ReadLimits| {
        let mut state = ReadState {
            paths: vec!["x".to_string()],
            chunks: 4,
            path_bytes,
        };
        let result = check_limits(&mut state, &chunk, limits);
        let said = result.err().map(|err| err.message());
        (said, state.paths.len(), state.chunks, state.path_bytes)
    };
    let limits = ReadLimits {
        chunks: 5,
        paths: 3,
        bytes: 6,
    };
    let said = |text: &str| Some(text.to_string());
    assert_eq!(counted(1, limits), (None, 1, 5, 6));
    assert_eq!(
        counted(1, ReadLimits { chunks: 4, ..limits }),
        (said("path list exceeded 4 chunks"), 1, 5, 1)
    );
    assert_eq!(
        counted(1, ReadLimits { paths: 2, ..limits }),
        (said("path list exceeded 2 paths"), 1, 5, 1)
    );
    assert_eq!(
        counted(usize::MAX, limits),
        (said("path list byte count overflow"), 1, 5, usize::MAX)
    );
    assert_eq!(
        counted(1, ReadLimits { bytes: 5, ..limits }),
        (said("path list exceeded 5 bytes"), 1, 5, 6)
    );
    let full = ReadState {
        paths: Vec::new(),
        chunks: usize::MAX,
        path_bytes: 0,
    };
    assert!(matches!(
        full.read(
            PathListKind::BuildPaths,
            limits,
            Message::BuildPaths(PathListChunk {
                paths: Vec::new(),
                done: true,
            }),
            "Shown",
            "context",
        ),
        ReadStep::Failed { error } if error.message() == "path list exceeded 5 chunks"
    ));
}
