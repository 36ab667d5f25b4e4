use swanky::error::{format_err, Error, ErrorKind, OptionExt, Result, ResultExt, WrapErr};

#[test]
fn test_error_sizes() {
    assert_eq!(
        std::mem::size_of::<Error>(),
        std::mem::size_of::<&()>()
    );
    assert_eq!(
        std::mem::size_of::<Result<()>>(),
        std::mem::size_of::<&()>()
    );
}

#[test]
fn test_swanky_error() {
    let mut e = format_err(ErrorKind::OtherError, "Message");
    e = e.context("Context".to_string());

    assert_eq!(e.kind(), ErrorKind::OtherError);
    assert_eq!(e.message(), "Message");
    assert_eq!(e.contexts(), vec!["Context".to_string()]);
}

#[test]
fn test_bail() {
    fn bails() -> Result<()> {
        return Err(format_err(ErrorKind::OtherError, "Get me out of here!"));
    }

    assert!(bails().is_err());
}

#[test]
fn test_ensure() {
    fn ensure_true() -> Result<()> {
        if !true {
            return Err(format_err(ErrorKind::OtherError, "A happy universe."));
        }
        Ok(())
    }

    assert!(ensure_true().is_ok());

    fn ensure_false() -> Result<()> {
        if !false {
            return Err(format_err(ErrorKind::OtherError, "A sad universe."));
        }
        Ok(())
    }

    assert!(ensure_false().is_err());
}

#[test]
fn new_error_has_no_context_and_keeps_source() {
    let cause = format_err(ErrorKind::NetworkError, "socket closed");
    let e = Error::new(ErrorKind::SerializationError, "bad bytes".to_string(), Some(cause));
    assert_eq!(e.kind(), ErrorKind::SerializationError);
    assert_eq!(e.message(), "bad bytes");
    assert!(e.contexts().is_empty());
    let source = e.source().unwrap();
    assert_eq!(source.kind(), ErrorKind::NetworkError);
    assert_eq!(source.message(), "socket closed");
    assert!(source.source().is_none());
}

#[test]
fn context_appends_in_order() {
    let e = format_err(ErrorKind::OtherError, "m")
        .context("first".to_string())
        .context("second".to_string());
    assert_eq!(e.contexts(), vec!["first".to_string(), "second".to_string()]);
    assert_eq!(e.message(), "m");
}

#[test]
fn wrap_err_takes_kind_and_message_of_other() {
    let inner = format_err(ErrorKind::NetworkError, "inner").context("ctx".to_string());
    let outer = format_err(ErrorKind::InitializationError, "outer").context("dropped".to_string());
    let e = inner.wrap_err(outer);
    assert_eq!(e.kind(), ErrorKind::InitializationError);
    assert_eq!(e.message(), "outer");
    assert!(e.contexts().is_empty());
    let s = e.source().unwrap();
    assert_eq!(s.message(), "inner");
    assert_eq!(s.contexts(), vec!["ctx".to_string()]);
}

#[test]
fn result_context_only_touches_errors() {
    let ok: Result<u32> = Ok(7);
    assert_eq!(ok.context("unused".to_string()).unwrap(), 7);
    let err: Result<u32> = Err(format_err(ErrorKind::OtherError, "boom"));
    let e = err.context("while testing".to_string()).unwrap_err();
    assert_eq!(e.contexts(), vec!["while testing".to_string()]);
}

#[test]
fn wrap_err_on_result_uses_error_as_source() {
    let err: Result<u32> = Err(format_err(ErrorKind::NetworkError, "timeout"));
    let e = err
        .wrap_err(ErrorKind::CorrelationFailure, "check failed".to_string())
        .unwrap_err();
    assert_eq!(e.kind(), ErrorKind::CorrelationFailure);
    assert_eq!(e.message(), "check failed");
    assert_eq!(e.source().unwrap().message(), "timeout");
    let ok: Result<u32> = Ok(3);
    assert_eq!(ok.wrap_err(ErrorKind::OtherError, "x".to_string()).unwrap(), 3);
}

#[test]
fn option_to_result() {
    let some: Option<u8> = Some(4);
    assert_eq!(some.ok_or_swanky_error(ErrorKind::OtherError, "none".to_string()).unwrap(), 4);
    let none: Option<u8> = None;
    let e = none
        .ok_or_swanky_error(ErrorKind::UnsupportedError, "missing".to_string())
        .unwrap_err();
    assert_eq!(e.kind(), ErrorKind::UnsupportedError);
    assert_eq!(e.message(), "missing");
    assert!(e.source().is_none());
}

#[test]
fn kind_names_and_descriptions() {
    assert_eq!(ErrorKind::NetworkError.name(), "NetworkError");
    assert_eq!(ErrorKind::OtherError.name(), "OtherError");
    assert_eq!(
        ErrorKind::CorrelationFailure.description(),
        "A correlation check has failed"
    );
}

#[test]
fn display_and_debug_strings() {
    let cause = format_err(ErrorKind::NetworkError, "closed");
    let e = Error::new(ErrorKind::OtherError, "outer".to_string(), Some(cause))
        .context("a".to_string())
        .context("b".to_string());
    assert_eq!(e.display_string(), "Kind: OtherError\nMessage: outer");
    assert_eq!(
        e.debug_string(),
        "Kind: OtherError\n\nMessage:\n\touter\n\nContext:\n\t0: a\n\t1: b\n\n\nCaused by:\n\tKind: NetworkError\nMessage: closed"
    );
    let plain = format_err(ErrorKind::OtherError, "m");
    assert_eq!(plain.debug_string(), "Kind: OtherError\n\nMessage:\n\tm");
}

#[test]
fn pretty_context_lists_with_indices() {
    let ctx: Vec<String> = (0..12).map(|i| format!("c{}", i)).collect();
    let out = swanky::error::pretty_context(&ctx);
    let expected: String = (0..12).map(|i| format!("\t{}: c{}\n", i, i)).collect();
    assert_eq!(out, expected);
    assert_eq!(swanky::error::pretty_context(&[]), "");
}

#[test]
fn lazy_context_and_wrapping() {
    let ok: Result<u8> = Ok(5);
    assert_eq!(ok.with_context(|| "unused".to_string()).unwrap(), 5);
    let err: Result<u8> = Err(format_err(ErrorKind::NetworkError, "inner"));
    let e = err.with_context(|| "while reading".to_string()).unwrap_err();
    assert_eq!(e.kind(), ErrorKind::NetworkError);
    assert_eq!(e.message(), "inner");
    assert_eq!(e.contexts(), vec!["while reading".to_string()]);
    let err: Result<u8> = Err(format_err(ErrorKind::NetworkError, "inner"));
    let w = err
        .wrap_err_with(ErrorKind::SerializationError, || "outer".to_string())
        .unwrap_err();
    assert_eq!(w.kind(), ErrorKind::SerializationError);
    assert_eq!(w.message(), "outer");
    assert_eq!(w.source().unwrap().message(), "inner");
    let ok: Result<u8> = Ok(3);
    assert_eq!(ok.wrap_err_with(ErrorKind::OtherError, || "x".to_string()).unwrap(), 3);
}
