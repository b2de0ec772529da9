use flo_core::lobby::error::{Code, Error, ExecutorError, Status};

fn all() -> Vec<(Error, &'static str, Code)> {
    vec![
        (
            Error::PlayerTokenExpired,
            "player token expired",
            Code::Unauthenticated,
        ),
        (Error::PlayerNotFound, "player not found", Code::InvalidArgument),
        (Error::GameNotFound, "game not found", Code::InvalidArgument),
        (
            Error::GameNotDeletable,
            "only games with `Waiting` status are deletable",
            Code::InvalidArgument,
        ),
        (
            Error::GameDataInvalid,
            "invalid game data, please re-create",
            Code::Internal,
        ),
        (
            Error::GameFull,
            "the game you are trying to join is full",
            Code::InvalidArgument,
        ),
        (
            Error::MapHasNoPlayer,
            "this map has no player slot",
            Code::InvalidArgument,
        ),
        (
            Error::MultiJoin,
            "you can only join one game at a time",
            Code::InvalidArgument,
        ),
        (Error::PlayerNotInGame, "player not in game", Code::Internal),
        (
            Error::PlayerChannelSendTimeout,
            "send to player channel timeout",
            Code::Internal,
        ),
        (
            Error::PlayerChannelClosed,
            "player channel closed",
            Code::Internal,
        ),
        (
            Error::InvalidPlayerSourceState,
            "invalid player source state",
            Code::Internal,
        ),
        (Error::Timeout, "operation timeout", Code::Internal),
        (Error::Net("reset".to_string()), "net: reset", Code::Internal),
        (Error::Db("gone".to_string()), "db error: gone", Code::Internal),
        (Error::Json("eof".to_string()), "json: eof", Code::Internal),
        (
            Error::JsonWebToken("expired".to_string()),
            "json web token: expired",
            Code::Unauthenticated,
        ),
        (
            Error::Proto("field".to_string()),
            "proto: field",
            Code::Internal,
        ),
        (
            Error::GrpcTransport("closed".to_string()),
            "gRPC transport: closed",
            Code::Internal,
        ),
    ]
}

#[test]
fn every_error_has_its_text() {
    for (error, text, _) in all() {
        assert_eq!(error.message(), text);
        assert_eq!(String::from(error), text);
    }
}

#[test]
fn every_error_has_its_class() {
    for (error, text, code) in all() {
        assert_eq!(error.code(), code, "{}", text);
    }
}

#[test]
fn status_carries_class_and_text() {
    for (error, text, code) in all() {
        let web_token = matches!(error, Error::JsonWebToken(_));
        let status = Status::from(error.clone());
        assert_eq!(status.code, code);
        if !web_token {
            assert_eq!(status.message, text);
        }
        let status = Error::into_status(error);
        assert_eq!(status.code, code);
    }
}

#[test]
fn rejected_web_token_gives_the_bare_message() {
    let status = Status::from(Error::JsonWebToken("expired".to_string()));
    assert_eq!(status.code, Code::Unauthenticated);
    assert_eq!(status.message, "expired");
}

#[test]
fn executor_errors_become_lobby_errors() {
    let e = Error::from(ExecutorError::Task(Error::GameFull));
    assert!(matches!(e, Error::GameFull));
    let e = Error::from(ExecutorError::<Error>::Executor("pool".to_string()));
    assert_eq!(e.message(), "db error: pool");
    let e = Error::from_db_executor_error(ExecutorError::Task("row".to_string()));
    assert_eq!(e.message(), "db error: row");
    let e = Error::from_db_executor_error(ExecutorError::Executor("pool".to_string()));
    assert_eq!(e.message(), "db error: pool");
}
