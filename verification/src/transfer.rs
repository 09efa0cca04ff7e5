//! Receiving a file over the byte stream.
//!
//! The sender gives a file name, then the file's body, then the SHA-256
//! digest of the body. Name and body have no length in front: each is read
//! in chunks, and a chunk that does not fill the buffer ends the field. (A
//! field that fills the last buffer exactly cannot be told from one that
//! goes on; the sender has to avoid such lengths.) The receiver answers each
//! step with a token in plain text, and stores the body only if the digest
//! is the right one.
//!
//! [`FileTransfer`] holds where a transfer stands. The caller asks it what to
//! read, reads that from the stream, hands it over, and carries out the
//! actions that come back. A transfer that failed is not taken up again: the
//! sender starts a new one.

use vstd::prelude::*;
use vstd::string::StringExecFns;
use vstd::utf8::{decode_utf8, valid_utf8};
use crate::bytes::{append_bytes, same_bytes};
use crate::digest::{sha256, sha256_digest};
use crate::filename::{sanitize, sanitized};
use crate::text::text_of;

verus! {

/// The size of the buffer that name and body are read into. A chunk shorter
/// than this ends the field.
pub const CHUNK_SIZE: usize = 1024;

/// The number of bytes of the digest that the sender gives.
pub const HASH_SIZE: usize = 32;

/// What the receiver says to the sender.
#[derive(Copy, Clone, PartialEq, Eq, Debug, Structural)]
pub enum Token {
    /// The name is in; the body may come.
    ReadyReceiveFile,
    /// The body is in.
    ReceivedFileData,
    /// The digest may come.
    SendFileHash,
    /// The digest is right; the file is kept.
    ReceiveFileSuccess,
    /// The digest is wrong; the transfer has to be made again.
    ReceiveFileErrorRetry,
}

impl Token {
    /// The characters of the token as they go over the stream.
    pub open spec fn spec_text(self) -> Seq<char> {
        match self {
            Token::ReadyReceiveFile => "READY_RECEIVE_FILE"@,
            Token::ReceivedFileData => "RECEIVED_FILE_DATA"@,
            Token::SendFileHash => "SEND_FILE_HASH"@,
            Token::ReceiveFileSuccess => "RECEIVE_FILE_SUCCESS"@,
            Token::ReceiveFileErrorRetry => "RECEIVE_FILE_ERROR_RETRY"@,
        }
    }

    /// The token as text. It is sent as it is, without a frame around it.
    pub fn text(self) -> (text: &'static str)
        ensures
            text@ == self.spec_text(),
    {
        match self {
            Token::ReadyReceiveFile => "READY_RECEIVE_FILE",
            Token::ReceivedFileData => "RECEIVED_FILE_DATA",
            Token::SendFileHash => "SEND_FILE_HASH",
            Token::ReceiveFileSuccess => "RECEIVE_FILE_SUCCESS",
            Token::ReceiveFileErrorRetry => "RECEIVE_FILE_ERROR_RETRY",
        }
    }
}

/// Why a transfer failed.
#[derive(Copy, Clone, PartialEq, Eq, Debug, Structural)]
pub enum TransferError {
    /// A chunk of the name was not valid UTF-8.
    FilenameNotUtf8,
    /// The digest that the sender gave is not the digest of the body.
    HashMismatch,
}

/// What the caller is to read from the stream next.
#[derive(Copy, Clone, PartialEq, Eq, Debug, Structural)]
pub enum Request {
    /// One read into a buffer of `CHUNK_SIZE` bytes; whatever it brings.
    Chunk,
    /// Exactly `HASH_SIZE` bytes.
    Hash,
    /// Nothing: the transfer is over.
    Nothing,
}

/// What the caller is to do after handing over what was read.
#[derive(Copy, Clone, PartialEq, Eq, Debug, Structural)]
pub enum Action {
    /// Write the token to the stream.
    Send(Token),
    /// Store the body under the file name; both are in the `Done` state.
    Persist,
}

/// Where a transfer stands.
#[derive(Debug)]
pub enum FileTransfer {
    /// The name is being read; `name` is what has come of it.
    AwaitFilename { name: String },
    /// The body is being read; `body` is what has come of it.
    AwaitData { filename: String, body: Vec<u8> },
    /// The body is in and the digest is waited for.
    AwaitHash { filename: String, body: Vec<u8> },
    /// The digest was right: `body` is to be stored as `filename`.
    Done { filename: String, body: Vec<u8> },
    /// The transfer failed; nothing is to be stored.
    Error { reason: TransferError },
}

/// A transfer as a mathematical value.
pub enum TransferView {
    AwaitFilename { name: Seq<char> },
    AwaitData { filename: Seq<char>, body: Seq<u8> },
    AwaitHash { filename: Seq<char>, body: Seq<u8> },
    Done { filename: Seq<char>, body: Seq<u8> },
    Error { reason: TransferError },
}

impl View for FileTransfer {
    type V = TransferView;

    open spec fn view(&self) -> TransferView {
        match *self {
            FileTransfer::AwaitFilename { name } => TransferView::AwaitFilename { name: name@ },
            FileTransfer::AwaitData { filename, body } => TransferView::AwaitData {
                filename: filename@,
                body: body@,
            },
            FileTransfer::AwaitHash { filename, body } => TransferView::AwaitHash {
                filename: filename@,
                body: body@,
            },
            FileTransfer::Done { filename, body } => TransferView::Done {
                filename: filename@,
                body: body@,
            },
            FileTransfer::Error { reason } => TransferView::Error { reason },
        }
    }
}

/// A transfer at its beginning.
pub open spec fn spec_start() -> TransferView {
    TransferView::AwaitFilename { name: Seq::empty() }
}

/// What a transfer waits for.
pub open spec fn spec_awaits(transfer: TransferView) -> Request {
    match transfer {
        TransferView::AwaitFilename { .. } => Request::Chunk,
        TransferView::AwaitData { .. } => Request::Chunk,
        TransferView::AwaitHash { .. } => Request::Hash,
        TransferView::Done { .. } => Request::Nothing,
        TransferView::Error { .. } => Request::Nothing,
    }
}

/// How a transfer that waits for the digest ends: well if `received` is
/// `digest`, the digest of the body, and in `HashMismatch` if not.
pub open spec fn spec_settle(
    filename: Seq<char>,
    body: Seq<u8>,
    received: Seq<u8>,
    digest: Seq<u8>,
) -> (TransferView, Seq<Action>) {
    if received == digest {
        (
            TransferView::Done { filename, body },
            seq![Action::Send(Token::ReceiveFileSuccess), Action::Persist],
        )
    } else {
        (
            TransferView::Error { reason: TransferError::HashMismatch },
            seq![Action::Send(Token::ReceiveFileErrorRetry)],
        )
    }
}

/// The step that a transfer takes when `received` is handed over, and the
/// actions that follow from it, in order.
pub open spec fn spec_advance(transfer: TransferView, received: Seq<u8>) -> (
    TransferView,
    Seq<Action>,
) {
    match transfer {
        TransferView::AwaitFilename { name } => {
            if !valid_utf8(received) {
                (TransferView::Error { reason: TransferError::FilenameNotUtf8 }, Seq::empty())
            } else if received.len() < CHUNK_SIZE {
                (
                    TransferView::AwaitData {
                        filename: sanitized(name + decode_utf8(received)),
                        body: Seq::empty(),
                    },
                    seq![Action::Send(Token::ReadyReceiveFile)],
                )
            } else {
                (TransferView::AwaitFilename { name: name + decode_utf8(received) }, Seq::empty())
            }
        },
        TransferView::AwaitData { filename, body } => {
            if received.len() < CHUNK_SIZE {
                (
                    TransferView::AwaitHash { filename, body: body + received },
                    seq![Action::Send(Token::ReceivedFileData), Action::Send(Token::SendFileHash)],
                )
            } else {
                (TransferView::AwaitData { filename, body: body + received }, Seq::empty())
            }
        },
        TransferView::AwaitHash { filename, body } => spec_settle(
            filename,
            body,
            received,
            sha256_digest(body),
        ),
        TransferView::Done { .. } => (transfer, Seq::empty()),
        TransferView::Error { .. } => (transfer, Seq::empty()),
    }
}

/// Where a transfer stands after `inputs` were handed over one after the
/// other, and all the actions that came back, in order.
pub open spec fn spec_run(inputs: Seq<Seq<u8>>) -> (TransferView, Seq<Action>)
    decreases inputs.len(),
{
    if inputs.len() == 0 {
        (spec_start(), Seq::empty())
    } else {
        let (before, done) = spec_run(inputs.drop_last());
        let (after, actions) = spec_advance(before, inputs.last());
        (after, done + actions)
    }
}

/// The actions that lie behind a transfer, given where it stands.
pub open spec fn spec_actions_behind(transfer: TransferView) -> Seq<Action> {
    match transfer {
        TransferView::AwaitFilename { .. } => Seq::empty(),
        TransferView::AwaitData { .. } => seq![Action::Send(Token::ReadyReceiveFile)],
        TransferView::AwaitHash { .. } => seq![
            Action::Send(Token::ReadyReceiveFile),
            Action::Send(Token::ReceivedFileData),
            Action::Send(Token::SendFileHash),
        ],
        TransferView::Done { .. } => seq![
            Action::Send(Token::ReadyReceiveFile),
            Action::Send(Token::ReceivedFileData),
            Action::Send(Token::SendFileHash),
            Action::Send(Token::ReceiveFileSuccess),
            Action::Persist,
        ],
        TransferView::Error { reason: TransferError::FilenameNotUtf8 } => Seq::empty(),
        TransferView::Error { reason: TransferError::HashMismatch } => seq![
            Action::Send(Token::ReadyReceiveFile),
            Action::Send(Token::ReceivedFileData),
            Action::Send(Token::SendFileHash),
            Action::Send(Token::ReceiveFileErrorRetry),
        ],
    }
}

impl FileTransfer {
    /// A transfer at its beginning: it waits for the name.
    pub fn new() -> (transfer: FileTransfer)
        ensures
            transfer@ == spec_start(),
    {
        FileTransfer::AwaitFilename { name: String::new() }
    }

    /// What is to be read from the stream next.
    pub fn awaits(&self) -> (request: Request)
        ensures
            request == spec_awaits(self@),
    {
        match self {
            FileTransfer::AwaitFilename { .. } => Request::Chunk,
            FileTransfer::AwaitData { .. } => Request::Chunk,
            FileTransfer::AwaitHash { .. } => Request::Hash,
            FileTransfer::Done { .. } => Request::Nothing,
            FileTransfer::Error { .. } => Request::Nothing,
        }
    }

    /// Ends a transfer whose body is in: `received` is what the sender gave
    /// as the digest, `digest` is the digest of `body`.
    pub fn settle(filename: String, body: Vec<u8>, received: &[u8], digest: &[u8]) -> (next: (
        FileTransfer,
        Vec<Action>,
    ))
        ensures
            (next.0@, next.1@) == spec_settle(filename@, body@, received@, digest@),
    {
        let mut actions: Vec<Action> = Vec::new();
        if same_bytes(received, digest) {
            actions.push(Action::Send(Token::ReceiveFileSuccess));
            actions.push(Action::Persist);
            assert(actions@ =~= seq![Action::Send(Token::ReceiveFileSuccess), Action::Persist]);
            (FileTransfer::Done { filename, body }, actions)
        } else {
            actions.push(Action::Send(Token::ReceiveFileErrorRetry));
            assert(actions@ =~= seq![Action::Send(Token::ReceiveFileErrorRetry)]);
            (FileTransfer::Error { reason: TransferError::HashMismatch }, actions)
        }
    }

    /// Takes what was read for the last request and moves the transfer on.
    /// The actions that come back are to be carried out in order.
    ///
    /// A transfer that is over stays as it is and asks for nothing.
    pub fn advance(self, received: &[u8]) -> (next: (FileTransfer, Vec<Action>))
        ensures
            (next.0@, next.1@) == spec_advance(self@, received@),
    {
        let mut actions: Vec<Action> = Vec::new();
        match self {
            FileTransfer::AwaitFilename { name } => {
                let mut name = name;
                match text_of(received) {
                    None => (
                        FileTransfer::Error { reason: TransferError::FilenameNotUtf8 },
                        actions,
                    ),
                    Some(text) => {
                        name.append(text);
                        if received.len() < CHUNK_SIZE {
                            actions.push(Action::Send(Token::ReadyReceiveFile));
                            assert(actions@ =~= seq![Action::Send(Token::ReadyReceiveFile)]);
                            let filename = sanitize(name.as_str());
                            (FileTransfer::AwaitData { filename, body: Vec::new() }, actions)
                        } else {
                            (FileTransfer::AwaitFilename { name }, actions)
                        }
                    },
                }
            },
            FileTransfer::AwaitData { filename, body } => {
                let mut body = body;
                append_bytes(&mut body, received);
                if received.len() < CHUNK_SIZE {
                    actions.push(Action::Send(Token::ReceivedFileData));
                    actions.push(Action::Send(Token::SendFileHash));
                    assert(actions@ =~= seq![
                        Action::Send(Token::ReceivedFileData),
                        Action::Send(Token::SendFileHash),
                    ]);
                    (FileTransfer::AwaitHash { filename, body }, actions)
                } else {
                    (FileTransfer::AwaitData { filename, body }, actions)
                }
            },
            FileTransfer::AwaitHash { filename, body } => {
                let digest = sha256(body.as_slice());
                FileTransfer::settle(filename, body, received, digest.as_slice())
            },
            FileTransfer::Done { filename, body } => (FileTransfer::Done { filename, body }, actions),
            FileTransfer::Error { reason } => (FileTransfer::Error { reason }, actions),
        }
    }
}

/// Whatever is handed over, the actions of a transfer follow the handshake:
/// the tokens come in its order, each at most once, and the body is stored
/// once, after `RECEIVE_FILE_SUCCESS`, or not at all.
pub proof fn lemma_actions_follow_handshake(inputs: Seq<Seq<u8>>)
    ensures
        spec_run(inputs).1 == spec_actions_behind(spec_run(inputs).0),
    decreases inputs.len(),
{
    if inputs.len() > 0 {
        lemma_actions_follow_handshake(inputs.drop_last());
        let (before, done) = spec_run(inputs.drop_last());
        let (after, actions) = spec_advance(before, inputs.last());
        assert(done + actions =~= spec_actions_behind(after));
    }
}

/// A body is stored only in answer to its own digest, and then the transfer
/// is done and holds the name and the body as they were received.
pub proof fn lemma_persist_only_on_match(transfer: TransferView, received: Seq<u8>)
    ensures
        spec_advance(transfer, received).1.contains(Action::Persist) <==> (transfer matches TransferView::AwaitHash {
            body,
            ..
        } && received == sha256_digest(body)),
        spec_advance(transfer, received).1.contains(Action::Persist) ==> (transfer matches TransferView::AwaitHash {
            filename,
            body,
        } && spec_advance(transfer, received).0 == (TransferView::Done { filename, body })),
{
    let actions = spec_advance(transfer, received).1;
    if let TransferView::AwaitHash { filename, body } = transfer {
        if received == sha256_digest(body) {
            assert(actions[1] == Action::Persist);
        } else {
            assert(forall|i: int| 0 <= i < actions.len() ==> actions[i] != Action::Persist);
        }
    } else {
        assert(forall|i: int| 0 <= i < actions.len() ==> actions[i] != Action::Persist);
    }
}

/// A transfer whose name and body each come in one chunk takes three steps.
/// The first two are answered with `READY_RECEIVE_FILE`, then
/// `RECEIVED_FILE_DATA` and `SEND_FILE_HASH`. The third decides: the digest
/// of the body is answered with `RECEIVE_FILE_SUCCESS` and the body is
/// stored under the sanitized name; anything else is answered with
/// `RECEIVE_FILE_ERROR_RETRY` and nothing is stored.
pub proof fn lemma_transfer_in_three_steps(name: Seq<u8>, body: Seq<u8>, hash: Seq<u8>)
    requires
        valid_utf8(name),
        name.len() < CHUNK_SIZE,
        body.len() < CHUNK_SIZE,
    ensures
        ({
            let (named, first) = spec_advance(spec_start(), name);
            let (filled, second) = spec_advance(named, body);
            let (ended, third) = spec_advance(filled, hash);
            &&& first == seq![Action::Send(Token::ReadyReceiveFile)]
            &&& second == seq![
                Action::Send(Token::ReceivedFileData),
                Action::Send(Token::SendFileHash),
            ]
            &&& hash == sha256_digest(body) ==> {
                &&& third == seq![Action::Send(Token::ReceiveFileSuccess), Action::Persist]
                &&& ended == (TransferView::Done { filename: sanitized(decode_utf8(name)), body })
            }
            &&& hash != sha256_digest(body) ==> {
                &&& third == seq![Action::Send(Token::ReceiveFileErrorRetry)]
                &&& ended == (TransferView::Error { reason: TransferError::HashMismatch })
            }
        }),
{
    assert(Seq::<char>::empty() + decode_utf8(name) =~= decode_utf8(name));
    assert(Seq::<u8>::empty() + body =~= body);
}

} // verus!
