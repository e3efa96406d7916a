use yiarg::error::{decimal_text, render_chain, yierr, yierr_str, YiError, YiErrorKind};

#[test]
fn kind_messages() {
    assert_eq!(YiErrorKind::Info("x".to_string()).message(), "x");
    assert_eq!(YiErrorKind::InfoStr("y").message(), "y");
    assert_eq!(
        YiErrorKind::ShellColor("red".to_string()).message(),
        "shell color argument for --color must be auto, always, or never, but value: red"
    );
    assert_eq!(YiErrorKind::Cli(101).message(), "");
    assert_eq!(YiErrorKind::Clap("bad flag".to_string()).message(), "bad flag");
    assert_eq!(YiErrorKind::Opt("o".to_string()).message(), "o");
    assert_eq!(YiErrorKind::Ver(42).message(), "version 42");
    assert_eq!(YiErrorKind::StdIo.message(), "io error");
    assert_eq!(YiErrorKind::Unknown.message(), "An unknown error kind has occurred.");
}

#[test]
fn decimal_digits() {
    assert_eq!(decimal_text(0), "0");
    assert_eq!(decimal_text(7), "7");
    assert_eq!(decimal_text(10), "10");
    assert_eq!(decimal_text(4294967295), "4294967295");
}

#[test]
fn chain_is_comma_separated() {
    assert_eq!(render_chain("loading from file", &vec![]), "loading from file");
    assert_eq!(
        render_chain("loading from file", &vec!["No such file or directory".to_string()]),
        "loading from file, No such file or directory"
    );
    let e = YiError::new(YiErrorKind::StdIo, vec!["a".to_string(), "b".to_string()]);
    assert_eq!(e.inner(), "io error, a, b");
    assert!(matches!(e.kind(), YiErrorKind::StdIo));
}

#[test]
fn context_with_cause() {
    assert_eq!(yierr_str("opening", "denied").inner(), "opening, inner cause: denied");
    assert_eq!(yierr_str("opening", "").inner(), "opening");
    assert_eq!(yierr("plain").inner(), "plain");
}
