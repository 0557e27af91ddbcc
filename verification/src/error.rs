//! What can go wrong, by kind.
use vstd::prelude::*;

verus! {

/// Why the local record store refused an operation.
#[derive(Clone, Copy, Debug, PartialEq, Eq, Structural)]
pub enum StoreError {
    /// The store holds as many records as it may.
    MaxRecords,
    /// The store holds as many provider records as it may.
    MaxProvidedKeys,
    /// The value is larger than the store accepts.
    ValueTooLarge,
}

impl StoreError {
    /// The sentence that describes the refusal.
    pub open spec fn text(self) -> Seq<char> {
        match self {
            StoreError::MaxRecords => "the store cannot contain any more records"@,
            StoreError::MaxProvidedKeys => "the store cannot contain any more provider records"@,
            StoreError::ValueTooLarge => "the value is too large to be stored"@,
        }
    }

    /// Writes the refusal out.
    pub fn message(&self) -> (out: String)
        ensures
            out@ == self.text(),
    {
        match self {
            StoreError::MaxRecords => String::from_str("the store cannot contain any more records"),
            StoreError::MaxProvidedKeys => String::from_str(
                "the store cannot contain any more provider records",
            ),
            StoreError::ValueTooLarge => String::from_str("the value is too large to be stored"),
        }
    }
}

/// A failure, with the kind of operation that failed and what is known of the
/// cause.
#[derive(Clone, Debug, PartialEq, Eq)]
pub enum Error {
    /// A failure that has no kind of its own; the text is the whole message.
    Anyhow(String),
    /// A transport could not be set up or used.
    Transport(String),
    /// The encrypted handshake failed.
    Noise(String),
    /// An operation of the operating system failed.
    Io(String),
    /// A peer could not be reached, or was not connected.
    Dial(String),
    /// An operation on the distributed hash table failed.
    Kad(String),
    /// The local record store refused a record.
    KadStore(StoreError),
    /// Announcing a key failed.
    KadProvide(String),
    /// Looking up the providers of a key failed.
    KadGetProviders(String),
    /// Looking up a record failed.
    KadGetRecord(String),
    /// Storing a record failed.
    KadPutRecord(String),
    /// Looking up the peers closest to a key failed.
    KadGetClosestPeers(String),
    /// An address could not be listened on.
    Listen(String),
    /// The runtime itself could not do what was asked.
    Behaviour(String),
    /// The configuration is not usable.
    Config(String),
}

/// The kinds of failure.
#[derive(Clone, Copy, Debug, PartialEq, Eq, Structural)]
pub enum ErrorKind {
    Anyhow,
    Transport,
    Noise,
    Io,
    Dial,
    Kad,
    KadStore,
    KadProvide,
    KadGetProviders,
    KadGetRecord,
    KadPutRecord,
    KadGetClosestPeers,
    Listen,
    Behaviour,
    Config,
}

impl Error {
    /// The kind of the failure.
    pub open spec fn spec_kind(&self) -> ErrorKind {
        match *self {
            Error::Anyhow(_) => ErrorKind::Anyhow,
            Error::Transport(_) => ErrorKind::Transport,
            Error::Noise(_) => ErrorKind::Noise,
            Error::Io(_) => ErrorKind::Io,
            Error::Dial(_) => ErrorKind::Dial,
            Error::Kad(_) => ErrorKind::Kad,
            Error::KadStore(_) => ErrorKind::KadStore,
            Error::KadProvide(_) => ErrorKind::KadProvide,
            Error::KadGetProviders(_) => ErrorKind::KadGetProviders,
            Error::KadGetRecord(_) => ErrorKind::KadGetRecord,
            Error::KadPutRecord(_) => ErrorKind::KadPutRecord,
            Error::KadGetClosestPeers(_) => ErrorKind::KadGetClosestPeers,
            Error::Listen(_) => ErrorKind::Listen,
            Error::Behaviour(_) => ErrorKind::Behaviour,
            Error::Config(_) => ErrorKind::Config,
        }
    }

    /// What is known of the cause of the failure.
    pub open spec fn cause(self) -> Seq<char> {
        match self {
            Error::Anyhow(cause) => cause@,
            Error::Transport(cause) => cause@,
            Error::Noise(cause) => cause@,
            Error::Io(cause) => cause@,
            Error::Dial(cause) => cause@,
            Error::Kad(cause) => cause@,
            Error::KadStore(cause) => cause.text(),
            Error::KadProvide(cause) => cause@,
            Error::KadGetProviders(cause) => cause@,
            Error::KadGetRecord(cause) => cause@,
            Error::KadPutRecord(cause) => cause@,
            Error::KadGetClosestPeers(cause) => cause@,
            Error::Listen(cause) => cause@,
            Error::Behaviour(cause) => cause@,
            Error::Config(cause) => cause@,
        }
    }

    /// Whether the failure is of the given kind and has the given cause.
    pub open spec fn is(self, kind: ErrorKind, cause: Seq<char>) -> bool {
        self.spec_kind() == kind && self.cause() == cause
    }

    /// The kind of the failure.
    #[verifier::when_used_as_spec(spec_kind)]
    pub fn kind(&self) -> (kind: ErrorKind)
        ensures
            kind == self.spec_kind(),
    {
        match self {
            Error::Anyhow(_) => ErrorKind::Anyhow,
            Error::Transport(_) => ErrorKind::Transport,
            Error::Noise(_) => ErrorKind::Noise,
            Error::Io(_) => ErrorKind::Io,
            Error::Dial(_) => ErrorKind::Dial,
            Error::Kad(_) => ErrorKind::Kad,
            Error::KadStore(_) => ErrorKind::KadStore,
            Error::KadProvide(_) => ErrorKind::KadProvide,
            Error::KadGetProviders(_) => ErrorKind::KadGetProviders,
            Error::KadGetRecord(_) => ErrorKind::KadGetRecord,
            Error::KadPutRecord(_) => ErrorKind::KadPutRecord,
            Error::KadGetClosestPeers(_) => ErrorKind::KadGetClosestPeers,
            Error::Listen(_) => ErrorKind::Listen,
            Error::Behaviour(_) => ErrorKind::Behaviour,
            Error::Config(_) => ErrorKind::Config,
        }
    }

    /// The message of the failure: what kind it is, then its cause.
    pub open spec fn text(self) -> Seq<char> {
        match self {
            Error::Anyhow(cause) => cause@,
            Error::Transport(cause) => "Transport error: "@ + cause@,
            Error::Noise(cause) => "Noise authentication error: "@ + cause@,
            Error::Io(cause) => "IO error: "@ + cause@,
            Error::Dial(cause) => "Dial error: "@ + cause@,
            Error::Kad(cause) => "Kad error: "@ + cause@,
            Error::KadStore(cause) => "Kad store error: "@ + cause.text(),
            Error::KadProvide(cause) => "Kad provide error: "@ + cause@,
            Error::KadGetProviders(cause) => "Kad get providers error: "@ + cause@,
            Error::KadGetRecord(cause) => "Kad get record error: "@ + cause@,
            Error::KadPutRecord(cause) => "Kad put record error: "@ + cause@,
            Error::KadGetClosestPeers(cause) => "Kad get closest peers error: "@ + cause@,
            Error::Listen(cause) => "Listen error: "@ + cause@,
            Error::Behaviour(cause) => "Behaviour error: "@ + cause@,
            Error::Config(cause) => "Config error: "@ + cause@,
        }
    }

    /// Writes the failure out.
    pub fn message(&self) -> (out: String)
        ensures
            out@ == self.text(),
    {
        match self {
            Error::Anyhow(cause) => cause.clone(),
            Error::Transport(cause) => String::from_str("Transport error: ").concat(cause.as_str()),
            Error::Noise(cause) => String::from_str("Noise authentication error: ").concat(
                cause.as_str(),
            ),
            Error::Io(cause) => String::from_str("IO error: ").concat(cause.as_str()),
            Error::Dial(cause) => String::from_str("Dial error: ").concat(cause.as_str()),
            Error::Kad(cause) => String::from_str("Kad error: ").concat(cause.as_str()),
            Error::KadStore(cause) => {
                let detail = cause.message();
                String::from_str("Kad store error: ").concat(detail.as_str())
            },
            Error::KadProvide(cause) => String::from_str("Kad provide error: ").concat(
                cause.as_str(),
            ),
            Error::KadGetProviders(cause) => String::from_str("Kad get providers error: ").concat(
                cause.as_str(),
            ),
            Error::KadGetRecord(cause) => String::from_str("Kad get record error: ").concat(
                cause.as_str(),
            ),
            Error::KadPutRecord(cause) => String::from_str("Kad put record error: ").concat(
                cause.as_str(),
            ),
            Error::KadGetClosestPeers(cause) => String::from_str(
                "Kad get closest peers error: ",
            ).concat(cause.as_str()),
            Error::Listen(cause) => String::from_str("Listen error: ").concat(cause.as_str()),
            Error::Behaviour(cause) => String::from_str("Behaviour error: ").concat(cause.as_str()),
            Error::Config(cause) => String::from_str("Config error: ").concat(cause.as_str()),
        }
    }
}

/// Joins a fixed opening and a cause into one text.
pub fn with_cause(opening: &str, cause: &str) -> (out: String)
    ensures
        out@ == opening@ + cause@,
{
    String::from_str(opening).concat(cause)
}

} // verus!
