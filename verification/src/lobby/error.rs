use vstd::prelude::*;
use vstd::std_specs::convert::FromSpecImpl;
use vstd::string::StringExecFns;

verus! {

/// Failures of the lobby. A failure of a collaborator carries that
/// collaborator's own message.
#[derive(Clone, Debug)]
pub enum Error {
    PlayerTokenExpired,
    PlayerNotFound,
    GameNotFound,
    GameNotDeletable,
    GameDataInvalid,
    GameFull,
    MapHasNoPlayer,
    MultiJoin,
    PlayerNotInGame,
    PlayerChannelSendTimeout,
    PlayerChannelClosed,
    InvalidPlayerSourceState,
    Timeout,
    Net(String),
    Db(String),
    Json(String),
    JsonWebToken(String),
    Proto(String),
    GrpcTransport(String),
}

pub type Result<T, E = Error> = std::result::Result<T, E>;

/// How a failure is classed for a remote caller.
#[derive(Clone, Copy, Debug, PartialEq, Eq, Structural)]
pub enum Code {
    InvalidArgument,
    Unauthenticated,
    Internal,
}

/// A failure as a remote caller gets it: its class and a message.
#[derive(Clone, Debug)]
pub struct Status {
    pub code: Code,
    pub message: String,
}

/// How a task handed to the database executor failed: in the task itself, or
/// in the executor, which then gives its message.
#[derive(Clone, Debug)]
pub enum ExecutorError<E> {
    Task(E),
    Executor(String),
}

impl Error {
    /// The text of the failure.
    pub open spec fn spec_message(self) -> Seq<char> {
        match self {
            Error::PlayerTokenExpired => "player token expired"@,
            Error::PlayerNotFound => "player not found"@,
            Error::GameNotFound => "game not found"@,
            Error::GameNotDeletable => "only games with `Waiting` status are deletable"@,
            Error::GameDataInvalid => "invalid game data, please re-create"@,
            Error::GameFull => "the game you are trying to join is full"@,
            Error::MapHasNoPlayer => "this map has no player slot"@,
            Error::MultiJoin => "you can only join one game at a time"@,
            Error::PlayerNotInGame => "player not in game"@,
            Error::PlayerChannelSendTimeout => "send to player channel timeout"@,
            Error::PlayerChannelClosed => "player channel closed"@,
            Error::InvalidPlayerSourceState => "invalid player source state"@,
            Error::Timeout => "operation timeout"@,
            Error::Net(e) => "net: "@ + e@,
            Error::Db(e) => "db error: "@ + e@,
            Error::Json(e) => "json: "@ + e@,
            Error::JsonWebToken(e) => "json web token: "@ + e@,
            Error::Proto(e) => "proto: "@ + e@,
            Error::GrpcTransport(e) => "gRPC transport: "@ + e@,
        }
    }

    /// The class of the failure: what the caller asked for cannot be done,
    /// the caller is not who it claims to be, or the server failed.
    pub open spec fn spec_code(self) -> Code {
        match self {
            Error::GameNotFound
            | Error::PlayerNotFound
            | Error::MapHasNoPlayer
            | Error::GameFull
            | Error::GameNotDeletable
            | Error::MultiJoin => Code::InvalidArgument,
            Error::PlayerTokenExpired | Error::JsonWebToken(_) => Code::Unauthenticated,
            _ => Code::Internal,
        }
    }

    /// The message that a remote caller gets: for a rejected web token the
    /// collaborator's message alone, for every other failure its own text.
    pub open spec fn spec_status_message(self) -> Seq<char> {
        match self {
            Error::JsonWebToken(e) => e@,
            _ => self.spec_message(),
        }
    }

    /// The text of the failure.
    pub fn message(&self) -> (text: String)
        ensures
            text@ == self.spec_message(),
    {
        match self {
            Error::PlayerTokenExpired => String::from_str("player token expired"),
            Error::PlayerNotFound => String::from_str("player not found"),
            Error::GameNotFound => String::from_str("game not found"),
            Error::GameNotDeletable => String::from_str(
                "only games with `Waiting` status are deletable",
            ),
            Error::GameDataInvalid => String::from_str("invalid game data, please re-create"),
            Error::GameFull => String::from_str("the game you are trying to join is full"),
            Error::MapHasNoPlayer => String::from_str("this map has no player slot"),
            Error::MultiJoin => String::from_str("you can only join one game at a time"),
            Error::PlayerNotInGame => String::from_str("player not in game"),
            Error::PlayerChannelSendTimeout => String::from_str("send to player channel timeout"),
            Error::PlayerChannelClosed => String::from_str("player channel closed"),
            Error::InvalidPlayerSourceState => String::from_str("invalid player source state"),
            Error::Timeout => String::from_str("operation timeout"),
            Error::Net(e) => String::from_str("net: ").concat(e.as_str()),
            Error::Db(e) => String::from_str("db error: ").concat(e.as_str()),
            Error::Json(e) => String::from_str("json: ").concat(e.as_str()),
            Error::JsonWebToken(e) => String::from_str("json web token: ").concat(e.as_str()),
            Error::Proto(e) => String::from_str("proto: ").concat(e.as_str()),
            Error::GrpcTransport(e) => String::from_str("gRPC transport: ").concat(e.as_str()),
        }
    }

    /// The class of the failure.
    pub fn code(&self) -> (code: Code)
        ensures
            code == self.spec_code(),
    {
        match self {
            Error::GameNotFound
            | Error::PlayerNotFound
            | Error::MapHasNoPlayer
            | Error::GameFull
            | Error::GameNotDeletable
            | Error::MultiJoin => Code::InvalidArgument,
            Error::PlayerTokenExpired | Error::JsonWebToken(_) => Code::Unauthenticated,
            _ => Code::Internal,
        }
    }

    /// The failure of a database task: every such failure is a `Db` failure
    /// with the message of whichever part failed.
    pub fn from_db_executor_error(e: ExecutorError<String>) -> (error: Error)
        ensures
            error == match e {
                ExecutorError::Task(message) => Error::Db(message),
                ExecutorError::Executor(message) => Error::Db(message),
            },
    {
        match e {
            ExecutorError::Task(message) => Error::Db(message),
            ExecutorError::Executor(message) => Error::Db(message),
        }
    }
}

impl From<Error> for String {
    fn from(e: Error) -> (text: String) {
        e.message()
    }
}

impl FromSpecImpl<Error> for String {
    open spec fn obeys_from_spec() -> bool {
        false
    }

    open spec fn from_spec(e: Error) -> String {
        arbitrary()
    }
}

impl From<Error> for Status {
    fn from(e: Error) -> (status: Status) {
        Error::into_status(e)
    }
}

impl FromSpecImpl<Error> for Status {
    open spec fn obeys_from_spec() -> bool {
        false
    }

    open spec fn from_spec(e: Error) -> Status {
        arbitrary()
    }
}

impl From<ExecutorError<Error>> for Error {
    fn from(e: ExecutorError<Error>) -> (error: Error) {
        match e {
            ExecutorError::Task(e) => e,
            ExecutorError::Executor(message) => Error::Db(message),
        }
    }
}

impl FromSpecImpl<ExecutorError<Error>> for Error {
    open spec fn obeys_from_spec() -> bool {
        true
    }

    open spec fn from_spec(e: ExecutorError<Error>) -> Error {
        match e {
            ExecutorError::Task(e) => e,
            ExecutorError::Executor(message) => Error::Db(message),
        }
    }
}

impl Error {
    /// The failure as a remote caller gets it.
    pub fn into_status(e: Error) -> (status: Status)
        ensures
            status.code == e.spec_code(),
            status.message@ == e.spec_status_message(),
    {
        let code = e.code();
        let message = match e {
            Error::JsonWebToken(message) => message,
            e => e.message(),
        };
        Status { code, message }
    }
}

} // verus!
