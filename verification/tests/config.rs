use jyt::error::{is_broken_pipe, surfaced_error, Error, IoErrorKind};
use jyt::format::{bytes_eq, Format};
use jyt::opt::{InputSource, Opt};
use jyt::transcode::{select_style, Style};

#[test]
fn format_names_parse() {
    assert!(matches!(Format::from_str("j"), Ok(Format::Json)));
    assert!(matches!(Format::from_str("json"), Ok(Format::Json)));
    assert!(matches!(Format::from_str("y"), Ok(Format::Yaml)));
    assert!(matches!(Format::from_str("yaml"), Ok(Format::Yaml)));
    assert!(matches!(Format::from_str("t"), Ok(Format::Toml)));
    assert!(matches!(Format::from_str("toml"), Ok(Format::Toml)));
}

#[test]
fn unknown_format_name_is_reported() {
    match Format::from_str("xml") {
        Err(Error::UnrecognizedFormat(t)) => assert_eq!(t, "xml"),
        other => panic!("expected an unrecognized-format error, got {:?}", other),
    }
    assert!(matches!(
        Format::from_str("JSON"),
        Err(Error::UnrecognizedFormat(_))
    ));
    assert!(matches!(
        Format::from_str(""),
        Err(Error::UnrecognizedFormat(_))
    ));
}

#[test]
fn output_capability() {
    assert!(Format::Json.can_output());
    assert!(Format::Yaml.can_output());
    assert!(!Format::Toml.can_output());
}

#[test]
fn format_name_round_trip() {
    for f in [Format::Json, Format::Yaml, Format::Toml] {
        assert!(matches!(Format::from_str(f.name()), Ok(g) if g == f));
    }
}

#[test]
fn toml_output_rejected_at_configuration_time() {
    assert!(matches!(
        Opt::parse_to("toml"),
        Err(Error::UnsupportedOutputFormat(Format::Toml))
    ));
    assert!(matches!(
        Opt::parse_to("t"),
        Err(Error::UnsupportedOutputFormat(Format::Toml))
    ));
    assert!(matches!(Opt::parse_to("json"), Ok(Format::Json)));
    assert!(matches!(Opt::parse_to("yaml"), Ok(Format::Yaml)));
    assert!(matches!(
        Opt::parse_to("nope"),
        Err(Error::UnrecognizedFormat(_))
    ));
}

fn opt_for(name: Option<&str>, from: Option<Format>) -> Opt {
    Opt {
        to: Format::Json,
        from,
        input_filename: name.map(|n| n.to_string()),
    }
}

#[test]
fn extension_detection() {
    assert_eq!(opt_for(Some("a.json"), None).detect_from(), Some(Format::Json));
    assert_eq!(opt_for(Some("a.yaml"), None).detect_from(), Some(Format::Yaml));
    assert_eq!(opt_for(Some("a.yml"), None).detect_from(), Some(Format::Yaml));
    assert_eq!(opt_for(Some("a.toml"), None).detect_from(), Some(Format::Toml));
    assert_eq!(opt_for(Some("dir/in.d/a.json"), None).detect_from(), Some(Format::Json));
    assert_eq!(opt_for(Some("a.tar.json"), None).detect_from(), Some(Format::Json));
    assert_eq!(opt_for(Some("a.txt"), None).detect_from(), None);
    assert_eq!(opt_for(Some("nodot"), None).detect_from(), None);
    assert_eq!(opt_for(Some(".json"), None).detect_from(), None);
    assert_eq!(opt_for(Some("dir.json/file"), None).detect_from(), None);
    assert_eq!(opt_for(Some("dir/a.json/"), None).detect_from(), Some(Format::Json));
    assert_eq!(opt_for(Some("a.yml//"), None).detect_from(), Some(Format::Yaml));
    assert_eq!(opt_for(Some("dir/"), None).detect_from(), None);
    assert_eq!(opt_for(Some("///"), None).detect_from(), None);
    assert_eq!(opt_for(None, None).detect_from(), None);
}

#[test]
fn explicit_from_wins_over_extension() {
    assert_eq!(
        opt_for(Some("a.json"), Some(Format::Toml)).detect_from(),
        Some(Format::Toml)
    );
    assert_eq!(opt_for(None, Some(Format::Yaml)).detect_from(), Some(Format::Yaml));
}

#[test]
fn input_source_resolution() {
    assert!(matches!(opt_for(None, None).input_source(), InputSource::Stdin));
    assert!(matches!(opt_for(Some("-"), None).input_source(), InputSource::Stdin));
    match opt_for(Some("a.json"), None).input_source() {
        InputSource::File(name) => assert_eq!(name, "a.json"),
        other => panic!("expected a file source, got {:?}", other),
    }
}

#[test]
fn broken_pipe_is_recognized() {
    assert!(is_broken_pipe(&Error::IOFailure(IoErrorKind::BrokenPipe)));
    assert!(!is_broken_pipe(&Error::IOFailure(IoErrorKind::Other)));
    assert!(!is_broken_pipe(&Error::MalformedInput("boom".to_string())));
}

#[test]
fn broken_pipe_ends_a_run_silently() {
    assert!(surfaced_error(Ok(())).is_none());
    assert!(surfaced_error(Err(Error::IOFailure(IoErrorKind::BrokenPipe))).is_none());
    match surfaced_error(Err(Error::IOFailure(IoErrorKind::Other))) {
        Some(Error::IOFailure(IoErrorKind::Other)) => {}
        other => panic!("expected the failure back, got {:?}", other),
    }
    assert!(matches!(
        surfaced_error(Err(Error::MalformedInput("bad".to_string()))),
        Some(Error::MalformedInput(_))
    ));
}

#[test]
fn style_follows_the_destination() {
    assert_eq!(select_style(true), Style::Pretty);
    assert_eq!(select_style(false), Style::Compact);
}

#[test]
fn byte_equality() {
    assert!(bytes_eq(b"abc", b"abc"));
    assert!(!bytes_eq(b"abc", b"abd"));
    assert!(!bytes_eq(b"abc", b"ab"));
    assert!(bytes_eq(b"", b""));
}
