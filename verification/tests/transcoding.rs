use jyt::error::Error;
use jyt::format::Format;
use jyt::opt::Opt;
use jyt::transcode::{jyt, transcode_all_input, Style};

fn run(input: &[u8], from: Format, to: Format, style: Style) -> (Result<(), Error>, Vec<u8>) {
    let mut out: Vec<u8> = Vec::new();
    let r = transcode_all_input(input, from, to, style, &mut out);
    (r, out)
}

fn ok(input: &[u8], from: Format, to: Format, style: Style) -> String {
    let (r, out) = run(input, from, to, style);
    r.unwrap();
    String::from_utf8(out).unwrap()
}

#[test]
fn yaml_to_compact_json() {
    assert_eq!(
        ok(b"a: 1\nb: two\n", Format::Yaml, Format::Json, Style::Compact),
        "{\"a\":1,\"b\":\"two\"}\n"
    );
}

#[test]
fn yaml_scalar_types_survive() {
    assert_eq!(
        ok(
            b"s: text\nn: 3\nf: true\nz: null\n",
            Format::Yaml,
            Format::Json,
            Style::Compact
        ),
        "{\"s\":\"text\",\"n\":3,\"f\":true,\"z\":null}\n"
    );
}

#[test]
fn yaml_to_pretty_json() {
    assert_eq!(
        ok(b"a: 1\n", Format::Yaml, Format::Json, Style::Pretty),
        "{\n  \"a\": 1\n}\n"
    );
}

#[test]
fn empty_yaml_input_yields_zero_documents() {
    let (r, out) = run(b"", Format::Yaml, Format::Json, Style::Compact);
    r.unwrap();
    assert!(out.is_empty());
    let (r, out) = run(b"", Format::Yaml, Format::Yaml, Style::Compact);
    r.unwrap();
    assert!(out.is_empty());
}

#[test]
fn empty_json_input_yields_zero_documents() {
    let (r, out) = run(b"", Format::Json, Format::Json, Style::Compact);
    r.unwrap();
    assert!(out.is_empty());
    let (r, out) = run(b"   \n ", Format::Json, Format::Json, Style::Compact);
    r.unwrap();
    assert!(out.is_empty());
}

#[test]
fn three_bare_json_values_stay_three_documents() {
    assert_eq!(
        ok(b"1 2 3", Format::Json, Format::Json, Style::Compact),
        "1\n2\n3\n"
    );
}

#[test]
fn json_documents_need_no_separator() {
    assert_eq!(
        ok(b"{\"a\":1}[2]\"x\"", Format::Json, Format::Json, Style::Compact),
        "{\"a\":1}\n[2]\n\"x\"\n"
    );
}

#[test]
fn two_yaml_documents_come_out_in_order() {
    assert_eq!(
        ok(b"a: 1\n---\nb: 2\n", Format::Yaml, Format::Json, Style::Compact),
        "{\"a\":1}\n{\"b\":2}\n"
    );
}

#[test]
fn failing_second_document_keeps_the_first_output() {
    let (r, out) = run(
        b"a: 1\n---\n[1, 2\n",
        Format::Yaml,
        Format::Json,
        Style::Compact,
    );
    assert!(matches!(r, Err(Error::MalformedInput(_))));
    let text = String::from_utf8(out).unwrap();
    assert!(text.starts_with("{\"a\":1}\n"));
}

#[test]
fn key_order_is_preserved() {
    assert_eq!(
        ok(
            b"{\"b\":1,\"a\":2,\"c\":3}",
            Format::Json,
            Format::Json,
            Style::Compact
        ),
        "{\"b\":1,\"a\":2,\"c\":3}\n"
    );
    assert_eq!(
        ok(b"z: 1\nm: 2\na: 3\n", Format::Yaml, Format::Json, Style::Compact),
        "{\"z\":1,\"m\":2,\"a\":3}\n"
    );
    assert_eq!(
        ok(
            b"z = 1\nm = 2\na = 3\n",
            Format::Toml,
            Format::Json,
            Style::Compact
        ),
        "{\"z\":1,\"m\":2,\"a\":3}\n"
    );
}

#[test]
fn nesting_is_copied_structurally() {
    assert_eq!(
        ok(
            b"m:\n  list:\n    - 1\n    - x: 2\n",
            Format::Yaml,
            Format::Json,
            Style::Compact
        ),
        "{\"m\":{\"list\":[1,{\"x\":2}]}}\n"
    );
}

#[test]
fn json_to_yaml() {
    assert_eq!(
        ok(b"{\"a\":1,\"b\":[2,3]}", Format::Json, Format::Yaml, Style::Compact),
        "a: 1\nb:\n- 2\n- 3\n"
    );
}

#[test]
fn multiple_documents_to_yaml_are_separated() {
    assert_eq!(
        ok(b"1 2", Format::Json, Format::Yaml, Style::Compact),
        "1\n---\n2\n"
    );
}

#[test]
fn round_trip_json_through_yaml() {
    let start = "{\"a\":1,\"b\":[true,null,\"s\"]}";
    let as_yaml = ok(start.as_bytes(), Format::Json, Format::Yaml, Style::Compact);
    let back = ok(as_yaml.as_bytes(), Format::Yaml, Format::Json, Style::Compact);
    assert_eq!(back, format!("{}\n", start));
}

#[test]
fn round_trip_yaml_through_json() {
    let start = "k: 1\nlist:\n- a\n- b\n";
    let as_json = ok(start.as_bytes(), Format::Yaml, Format::Json, Style::Compact);
    let back = ok(as_json.as_bytes(), Format::Json, Format::Yaml, Style::Compact);
    assert_eq!(back, start);
}

#[test]
fn toml_to_json() {
    assert_eq!(
        ok(
            b"title = \"x\"\n[owner]\nname = \"y\"\n",
            Format::Toml,
            Format::Json,
            Style::Compact
        ),
        "{\"title\":\"x\",\"owner\":{\"name\":\"y\"}}\n"
    );
}

#[test]
fn toml_to_yaml() {
    assert_eq!(
        ok(b"a = 1\n", Format::Toml, Format::Yaml, Style::Compact),
        "a: 1\n"
    );
}

#[test]
fn empty_toml_is_one_empty_table() {
    assert_eq!(
        ok(b"", Format::Toml, Format::Json, Style::Compact),
        "{}\n"
    );
}

#[test]
fn toml_duplicate_key_is_malformed() {
    let (r, _) = run(b"a = 1\na = 2\n", Format::Toml, Format::Json, Style::Compact);
    assert!(matches!(r, Err(Error::MalformedInput(_))));
}

#[test]
fn toml_trailing_garbage_is_malformed() {
    let (r, _) = run(
        b"[t]\nb = 1\n]]\n",
        Format::Toml,
        Format::Json,
        Style::Compact,
    );
    assert!(matches!(r, Err(Error::MalformedInput(_))));
}

#[test]
fn toml_input_must_be_utf8() {
    let (r, _) = run(&[0xff, 0xfe], Format::Toml, Format::Json, Style::Compact);
    assert!(matches!(r, Err(Error::MalformedInput(_))));
}

#[test]
fn truncated_json_is_malformed() {
    let (r, _) = run(b"{\"a\":", Format::Json, Format::Json, Style::Compact);
    assert!(matches!(r, Err(Error::MalformedInput(_))));
    let (r, out) = run(b"1 {", Format::Json, Format::Json, Style::Compact);
    assert!(matches!(r, Err(Error::MalformedInput(_))));
    assert!(String::from_utf8(out).unwrap().starts_with("1\n"));
}

#[test]
fn unrepresentable_key_is_unsupported() {
    let (r, _) = run(b"null: 1\n", Format::Yaml, Format::Json, Style::Compact);
    assert!(matches!(r, Err(Error::UnsupportedValue(_))));
}

#[test]
fn integer_keys_become_string_keys() {
    assert_eq!(
        ok(b"1: a\n", Format::Yaml, Format::Json, Style::Compact),
        "{\"1\":\"a\"}\n"
    );
}

#[test]
fn jyt_defaults_to_yaml_input() {
    let opt = Opt {
        to: Format::Json,
        from: None,
        input_filename: None,
    };
    let mut out: Vec<u8> = Vec::new();
    jyt(&opt, b"a: 1\n", false, &mut out).unwrap();
    assert_eq!(String::from_utf8(out).unwrap(), "{\"a\":1}\n");
}

#[test]
fn jyt_honors_the_file_extension() {
    let opt = Opt {
        to: Format::Yaml,
        from: None,
        input_filename: Some("in.json".to_string()),
    };
    let mut out: Vec<u8> = Vec::new();
    jyt(&opt, b"{\"a\":1}", false, &mut out).unwrap();
    assert_eq!(String::from_utf8(out).unwrap(), "a: 1\n");
}

#[test]
fn jyt_pretty_prints_to_a_terminal() {
    let opt = Opt {
        to: Format::Json,
        from: Some(Format::Json),
        input_filename: None,
    };
    let mut out: Vec<u8> = Vec::new();
    jyt(&opt, b"{\"a\":1}", true, &mut out).unwrap();
    assert_eq!(String::from_utf8(out).unwrap(), "{\n  \"a\": 1\n}\n");
}

#[test]
fn output_is_appended_not_replaced() {
    let mut out: Vec<u8> = b"before\n".to_vec();
    transcode_all_input(b"1", Format::Json, Format::Json, Style::Compact, &mut out).unwrap();
    assert_eq!(String::from_utf8(out).unwrap(), "before\n1\n");
}

#[test]
fn yaml_to_yaml_keeps_document_boundaries() {
    assert_eq!(
        ok(b"a: 1\n---\nb: 2\n", Format::Yaml, Format::Yaml, Style::Compact),
        "a: 1\n---\nb: 2\n"
    );
}

#[test]
fn toml_to_pretty_json() {
    assert_eq!(
        ok(b"a = 1\n", Format::Toml, Format::Json, Style::Pretty),
        "{\n  \"a\": 1\n}\n"
    );
}
