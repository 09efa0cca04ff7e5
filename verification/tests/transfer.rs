use payload_link::filename::sanitize;
use payload_link::transfer::{
    Action, FileTransfer, Request, Token, TransferError, CHUNK_SIZE, HASH_SIZE,
};
use sha2::{Digest, Sha256};

/// What a transfer did with a scripted stream.
struct Outcome {
    tokens: Vec<String>,
    stored: Vec<(String, Vec<u8>)>,
    end: FileTransfer,
    unread: usize,
}

/// Plays the receiver's side against a stream that holds the sender's
/// writes, one per read, as a serial port hands them over.
fn receive(writes: &[Vec<u8>]) -> Outcome {
    let mut transfer = FileTransfer::new();
    let mut tokens = Vec::new();
    let mut stored = Vec::new();
    let mut next = 0;
    loop {
        match transfer.awaits() {
            Request::Nothing => break,
            Request::Chunk => assert!(writes[next].len() <= CHUNK_SIZE),
            Request::Hash => assert_eq!(writes[next].len(), HASH_SIZE),
        }
        let (state, actions) = transfer.advance(&writes[next]);
        next += 1;
        transfer = state;
        for action in actions {
            match action {
                Action::Send(token) => tokens.push(token.text().to_string()),
                Action::Persist => match &transfer {
                    FileTransfer::Done { filename, body } => {
                        stored.push((filename.clone(), body.clone()))
                    }
                    other => panic!("nothing to store in {:?}", other),
                },
            }
        }
    }
    Outcome { tokens, stored, end: transfer, unread: writes.len() - next }
}

fn digest_of(body: &[u8]) -> Vec<u8> {
    Sha256::digest(body).to_vec()
}

fn all_bytes() -> Vec<u8> {
    (1..=255u8).collect()
}

#[test]
fn tokens_are_sent_as_their_text() {
    assert_eq!(Token::ReadyReceiveFile.text(), "READY_RECEIVE_FILE");
    assert_eq!(Token::ReceivedFileData.text(), "RECEIVED_FILE_DATA");
    assert_eq!(Token::SendFileHash.text(), "SEND_FILE_HASH");
    assert_eq!(Token::ReceiveFileSuccess.text(), "RECEIVE_FILE_SUCCESS");
    assert_eq!(Token::ReceiveFileErrorRetry.text(), "RECEIVE_FILE_ERROR_RETRY");
    assert_eq!(Token::ReadyReceiveFile.text().as_bytes(), b"READY_RECEIVE_FILE");
}

#[test]
fn chunks_and_hashes_have_their_sizes() {
    assert_eq!(CHUNK_SIZE, 1024);
    assert_eq!(HASH_SIZE, 32);
}

#[test]
fn a_file_is_received_and_stored() {
    let body = all_bytes();
    let outcome = receive(&[b"orbit05.json".to_vec(), body.clone(), digest_of(&body)]);
    assert_eq!(
        outcome.tokens,
        vec!["READY_RECEIVE_FILE", "RECEIVED_FILE_DATA", "SEND_FILE_HASH", "RECEIVE_FILE_SUCCESS"]
    );
    assert_eq!(outcome.stored, vec![("orbit05.json".to_string(), body)]);
    assert!(matches!(outcome.end, FileTransfer::Done { .. }));
    assert_eq!(outcome.unread, 0);
}

#[test]
fn directories_are_stripped_from_the_name() {
    let body = all_bytes();
    let outcome = receive(&[b"/tmp/orbit05.json".to_vec(), body.clone(), digest_of(&body)]);
    assert_eq!(outcome.stored, vec![("orbit05.json".to_string(), body)]);
}

#[test]
fn padding_is_stripped_from_the_name() {
    let body = b"{}".to_vec();
    let mut name = b"/home/payload/patch01.json".to_vec();
    name.resize(64, 0);
    let outcome = receive(&[name, body.clone(), digest_of(&body)]);
    assert_eq!(outcome.stored, vec![("patch01.json".to_string(), body)]);
}

#[test]
fn a_wrong_hash_stores_nothing() {
    let body = all_bytes();
    let mut hash = digest_of(&body);
    hash[0] ^= 0x01;
    let outcome = receive(&[b"orbit05.json".to_vec(), body, hash]);
    assert_eq!(
        outcome.tokens,
        vec![
            "READY_RECEIVE_FILE",
            "RECEIVED_FILE_DATA",
            "SEND_FILE_HASH",
            "RECEIVE_FILE_ERROR_RETRY"
        ]
    );
    assert!(outcome.stored.is_empty());
    match outcome.end {
        FileTransfer::Error { reason } => assert_eq!(reason, TransferError::HashMismatch),
        other => panic!("ended in {:?}", other),
    }
}

#[test]
fn every_flipped_bit_of_the_hash_is_noticed() {
    let body = b"abc".to_vec();
    for byte in 0..HASH_SIZE {
        for bit in 0..8 {
            let mut hash = digest_of(&body);
            hash[byte] ^= 1 << bit;
            let outcome = receive(&[b"a".to_vec(), body.clone(), hash]);
            assert!(outcome.stored.is_empty());
            assert_eq!(outcome.tokens.last().unwrap(), "RECEIVE_FILE_ERROR_RETRY");
        }
    }
}

#[test]
fn the_digest_is_sha_256() {
    // The digest of "abc", from the standard's examples.
    let hash: Vec<u8> = vec![
        0xba, 0x78, 0x16, 0xbf, 0x8f, 0x01, 0xcf, 0xea, 0x41, 0x41, 0x40, 0xde, 0x5d, 0xae,
        0x22, 0x23, 0xb0, 0x03, 0x61, 0xa3, 0x96, 0x17, 0x7a, 0x9c, 0xb4, 0x10, 0xff, 0x61,
        0xf2, 0x00, 0x15, 0xad,
    ];
    let outcome = receive(&[b"abc.txt".to_vec(), b"abc".to_vec(), hash.clone()]);
    assert_eq!(outcome.stored, vec![("abc.txt".to_string(), b"abc".to_vec())]);
    let other = receive(&[b"abc.txt".to_vec(), b"abd".to_vec(), hash]);
    assert!(other.stored.is_empty());
}

#[test]
fn an_empty_body_is_a_file() {
    // The digest of no bytes at all.
    let hash: Vec<u8> = vec![
        0xe3, 0xb0, 0xc4, 0x42, 0x98, 0xfc, 0x1c, 0x14, 0x9a, 0xfb, 0xf4, 0xc8, 0x99, 0x6f,
        0xb9, 0x24, 0x27, 0xae, 0x41, 0xe4, 0x64, 0x9b, 0x93, 0x4c, 0xa4, 0x95, 0x99, 0x1b,
        0x78, 0x52, 0xb8, 0x55,
    ];
    let outcome = receive(&[b"empty".to_vec(), vec![], hash]);
    assert_eq!(outcome.stored, vec![("empty".to_string(), vec![])]);
}

#[test]
fn a_hash_of_the_wrong_length_is_a_mismatch() {
    let body = b"abc".to_vec();
    let transfer = FileTransfer::AwaitHash { filename: "f".to_string(), body: body.clone() };
    let mut hash = digest_of(&body);
    hash.pop();
    let (end, actions) = transfer.advance(&hash);
    assert_eq!(actions, vec![Action::Send(Token::ReceiveFileErrorRetry)]);
    assert!(matches!(end, FileTransfer::Error { reason: TransferError::HashMismatch }));
}

#[test]
fn a_long_body_comes_in_chunks() {
    let body: Vec<u8> = (0..2500usize).map(|i| (i % 251) as u8).collect();
    let mut writes = vec![b"big.bin".to_vec()];
    for chunk in body.chunks(CHUNK_SIZE) {
        writes.push(chunk.to_vec());
    }
    assert_eq!(writes.len(), 4);
    writes.push(digest_of(&body));
    let outcome = receive(&writes);
    assert_eq!(outcome.stored, vec![("big.bin".to_string(), body)]);
    assert_eq!(outcome.tokens.len(), 4);
}

#[test]
fn a_long_name_comes_in_chunks() {
    let mut name = vec![b'd'; CHUNK_SIZE - 1];
    name.push(b'/');
    name.extend_from_slice(b"deep.json");
    let body = b"x".to_vec();
    let outcome = receive(&[
        name[..CHUNK_SIZE].to_vec(),
        name[CHUNK_SIZE..].to_vec(),
        body.clone(),
        digest_of(&body),
    ]);
    assert_eq!(outcome.stored, vec![("deep.json".to_string(), body)]);
}

#[test]
fn a_full_chunk_does_not_end_a_field() {
    let (transfer, actions) = FileTransfer::new().advance(&vec![b'n'; CHUNK_SIZE]);
    assert!(actions.is_empty());
    assert_eq!(transfer.awaits(), Request::Chunk);
    match &transfer {
        FileTransfer::AwaitFilename { name } => assert_eq!(name.len(), CHUNK_SIZE),
        other => panic!("moved on to {:?}", other),
    }
    // Only a shorter chunk ends the name, be it empty.
    let (transfer, actions) = transfer.advance(&[]);
    assert_eq!(actions, vec![Action::Send(Token::ReadyReceiveFile)]);
    let (transfer, actions) = transfer.advance(&vec![7; CHUNK_SIZE]);
    assert!(actions.is_empty());
    assert!(matches!(transfer, FileTransfer::AwaitData { .. }));
    let (transfer, actions) = transfer.advance(&[]);
    assert_eq!(
        actions,
        vec![Action::Send(Token::ReceivedFileData), Action::Send(Token::SendFileHash)]
    );
    match transfer {
        FileTransfer::AwaitHash { filename, body } => {
            assert_eq!(filename.len(), CHUNK_SIZE);
            assert_eq!(body, vec![7; CHUNK_SIZE]);
        }
        other => panic!("moved on to {:?}", other),
    }
}

#[test]
fn a_name_that_is_not_text_ends_the_transfer() {
    let outcome = receive(&[vec![b'a', 0xFF, b'b'], b"body".to_vec()]);
    assert!(outcome.tokens.is_empty());
    assert!(outcome.stored.is_empty());
    assert_eq!(outcome.unread, 1);
    match outcome.end {
        FileTransfer::Error { reason } => assert_eq!(reason, TransferError::FilenameNotUtf8),
        other => panic!("ended in {:?}", other),
    }
}

#[test]
fn a_character_cut_by_a_chunk_is_not_text() {
    // The two bytes of one character, the first at the end of a full chunk.
    let mut first = vec![b'a'; CHUNK_SIZE - 1];
    first.push(0xC3);
    let outcome = receive(&[first, vec![0xA9]]);
    assert!(matches!(
        outcome.end,
        FileTransfer::Error { reason: TransferError::FilenameNotUtf8 }
    ));
}

#[test]
fn a_name_may_hold_any_text() {
    let body = b"1".to_vec();
    let outcome = receive(&["données/été.json".as_bytes().to_vec(), body.clone(), digest_of(&body)]);
    assert_eq!(outcome.stored, vec![("été.json".to_string(), body)]);
}

#[test]
fn a_finished_transfer_takes_nothing_more() {
    let done = FileTransfer::Done { filename: "f".to_string(), body: vec![1, 2] };
    assert_eq!(done.awaits(), Request::Nothing);
    let (done, actions) = done.advance(b"more");
    assert!(actions.is_empty());
    match done {
        FileTransfer::Done { filename, body } => {
            assert_eq!(filename, "f");
            assert_eq!(body, vec![1, 2]);
        }
        other => panic!("moved on to {:?}", other),
    }
    let failed = FileTransfer::Error { reason: TransferError::HashMismatch };
    assert_eq!(failed.awaits(), Request::Nothing);
    let (failed, actions) = failed.advance(b"more");
    assert!(actions.is_empty());
    assert!(matches!(failed, FileTransfer::Error { reason: TransferError::HashMismatch }));
}

#[test]
fn a_transfer_asks_for_what_it_waits_for() {
    assert_eq!(FileTransfer::new().awaits(), Request::Chunk);
    let data = FileTransfer::AwaitData { filename: String::new(), body: vec![] };
    assert_eq!(data.awaits(), Request::Chunk);
    let hash = FileTransfer::AwaitHash { filename: String::new(), body: vec![] };
    assert_eq!(hash.awaits(), Request::Hash);
}

#[test]
fn settling_compares_the_two_digests() {
    let (end, actions) =
        FileTransfer::settle("f".to_string(), vec![1], &[1, 2, 3], &[1, 2, 3]);
    assert_eq!(actions, vec![Action::Send(Token::ReceiveFileSuccess), Action::Persist]);
    assert!(matches!(end, FileTransfer::Done { .. }));
    let (end, actions) =
        FileTransfer::settle("f".to_string(), vec![1], &[1, 2, 3], &[1, 2, 4]);
    assert_eq!(actions, vec![Action::Send(Token::ReceiveFileErrorRetry)]);
    assert!(matches!(end, FileTransfer::Error { reason: TransferError::HashMismatch }));
    let (end, _) = FileTransfer::settle("f".to_string(), vec![1], &[1, 2], &[1, 2, 3]);
    assert!(matches!(end, FileTransfer::Error { .. }));
}

#[test]
fn names_are_sanitized() {
    assert_eq!(sanitize("orbit05.json"), "orbit05.json");
    assert_eq!(sanitize("/tmp/orbit05.json"), "orbit05.json");
    assert_eq!(sanitize("orbit05.json\0\0\0"), "orbit05.json");
    assert_eq!(sanitize("/a/b/c.txt\0"), "c.txt");
    assert_eq!(sanitize("a/b/"), "");
    assert_eq!(sanitize("a/b/\0\0"), "");
    assert_eq!(sanitize(""), "");
    assert_eq!(sanitize("\0\0"), "");
    assert_eq!(sanitize("/"), "");
    assert_eq!(sanitize("a\0b\0"), "a\0b");
    assert_eq!(sanitize("x/a\0b/c\0d\0\0"), "c\0d");
    assert_eq!(sanitize("relative/../up.bin"), "up.bin");
    assert_eq!(sanitize("héllo/wörld\0"), "wörld");
}

#[test]
fn names_are_sanitized_as_the_standard_library_would() {
    for name in ["", "a", "/", "//", "a/", "/a", "a/b", "\0", "a\0", "\0a", "a/\0", "a\0/b\0\0", "é/ü\0"] {
        let expected = name.trim_end_matches('\0').rsplit('/').next().unwrap();
        assert_eq!(sanitize(name), expected);
    }
}
