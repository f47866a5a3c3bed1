//! The crate's border with the serde ecosystem. Everything here either
//! declares an outside type or wraps one outside call; Verus takes the
//! stated contracts on trust, and nothing else in the crate is trusted.
//!
//! Every parser and serializer here is deterministic, so what a call
//! renders is a function of its arguments alone. Those results are given
//! uninterpreted names below — the render of a document, the bytes a
//! cursor has not consumed, the documents an iterator will still yield —
//! and each wrapper states exactly which named bytes it appends.
//!
//! serde-transcode funnels the failures of both sides of a copy through the
//! serializer's error type, so an error's message is the only mark left of
//! a value the sink rejected; the wrappers sort the one rejection a JSON
//! sink knows, a key that is not a string, into its own variant, and treat
//! everything else as the reading side's grammar error.

use vstd::prelude::*;
use vstd::string::StringSliceAdditionalSpecFns;

verus! {

#[verifier::external_type_specification]
#[verifier::external_body]
#[verifier::reject_recursive_types(R)]
pub struct ExJsonDeserializer<R>(serde_json::Deserializer<R>);

#[verifier::external_type_specification]
#[verifier::external_body]
pub struct ExJsonSliceRead<'a>(serde_json::de::SliceRead<'a>);

#[verifier::external_type_specification]
#[verifier::external_body]
pub struct ExYamlDeserializer<'a>(serde_yaml::Deserializer<'a>);

// What a YAML document iterator holds: the renders, in order, of the
// documents it will still yield while the stream scans cleanly, one
// sequence per output form. After a scan error the iterator departs from
// this model: it hands back failed documents without consuming anything,
// marked by `yaml_doc_failed` below.

/// The pretty JSON renders of the documents the iterator will still yield.
pub uninterp spec fn yaml_renders_json_pretty(d: serde_yaml::Deserializer) -> Seq<Seq<u8>>;

/// The compact JSON renders of the documents the iterator will still yield.
pub uninterp spec fn yaml_renders_json_compact(d: serde_yaml::Deserializer) -> Seq<Seq<u8>>;

/// The YAML renders of the documents the iterator will still yield.
pub uninterp spec fn yaml_renders_yaml(d: serde_yaml::Deserializer) -> Seq<Seq<u8>>;

/// The same three sequences as functions of the input bytes alone: the
/// renders of the documents of `input`, in input order.
pub uninterp spec fn yaml_input_renders_json_pretty(input: Seq<u8>) -> Seq<Seq<u8>>;

pub uninterp spec fn yaml_input_renders_json_compact(input: Seq<u8>) -> Seq<Seq<u8>>;

pub uninterp spec fn yaml_input_renders_yaml(input: Seq<u8>) -> Seq<Seq<u8>>;

/// Whether a yielded document records a scan error instead of parse
/// events. Transcoding such a document returns the stored error.
pub uninterp spec fn yaml_doc_failed(d: serde_yaml::Deserializer) -> bool;

/// The pretty JSON render of one yielded document.
pub uninterp spec fn yaml_doc_rendered_json_pretty(d: serde_yaml::Deserializer) -> Seq<u8>;

/// The compact JSON render of one yielded document.
pub uninterp spec fn yaml_doc_rendered_json_compact(d: serde_yaml::Deserializer) -> Seq<u8>;

/// The YAML render of one yielded document.
pub uninterp spec fn yaml_doc_rendered_yaml(d: serde_yaml::Deserializer) -> Seq<u8>;

/// The bytes a JSON cursor has not consumed yet.
pub uninterp spec fn json_rest(d: serde_json::Deserializer<serde_json::de::SliceRead>) -> Seq<u8>;

/// What remains of `s` after its leading whitespace and one JSON value.
pub uninterp spec fn json_after_doc(s: Seq<u8>) -> Seq<u8>;

/// The pretty JSON render of the first value of `s`.
pub uninterp spec fn json_doc_rendered_pretty(s: Seq<u8>) -> Seq<u8>;

/// The compact JSON render of the first value of `s`.
pub uninterp spec fn json_doc_rendered_compact(s: Seq<u8>) -> Seq<u8>;

/// The YAML render of the first value of `s`.
pub uninterp spec fn json_doc_rendered_yaml(s: Seq<u8>) -> Seq<u8>;

/// The pretty JSON render of the single TOML document `s`.
pub uninterp spec fn toml_rendered_json_pretty(s: Seq<char>) -> Seq<u8>;

/// The compact JSON render of the single TOML document `s`.
pub uninterp spec fn toml_rendered_json_compact(s: Seq<char>) -> Seq<u8>;

/// The YAML render of the single TOML document `s`.
pub uninterp spec fn toml_rendered_yaml(s: Seq<char>) -> Seq<u8>;

/// Whether `b` is JSON whitespace, as serde_json's reader skips it.
pub open spec fn json_ws(b: u8) -> bool {
    b == 32 || b == 10 || b == 9 || b == 13
}

/// `s` without its leading JSON whitespace.
pub open spec fn json_strip_ws(s: Seq<u8>) -> Seq<u8>
    decreases s.len(),
{
    if s.len() > 0 && json_ws(s[0]) {
        json_strip_ws(s.drop_first())
    } else {
        s
    }
}

/// Relies on str::from_utf8: it accepts exactly the valid UTF-8 byte
/// strings, and returns them unchanged as a string slice.
#[verifier::external_body]
pub(crate) fn bytes_as_str<'a>(b: &'a [u8]) -> (r: Option<&'a str>)
    ensures
        r is Some <==> vstd::utf8::valid_utf8(b@),
        r matches Some(s) ==> s.spec_bytes() == b@,
{
    std::str::from_utf8(b).ok()
}

/// Relies on serde_yaml::Deserializer::from_slice: the returned value
/// iterates over the documents of `input`, whose renders depend on the
/// input bytes alone.
#[verifier::external_body]
pub(crate) fn yaml_docs_new<'a>(input: &'a [u8]) -> (d: serde_yaml::Deserializer<'a>)
    ensures
        yaml_renders_json_pretty(d) == yaml_input_renders_json_pretty(input@),
        yaml_renders_json_compact(d) == yaml_input_renders_json_compact(input@),
        yaml_renders_yaml(d) == yaml_input_renders_yaml(input@),
{
    serde_yaml::Deserializer::from_slice(input)
}

/// Relies on serde_yaml's Iterator impl for Deserializer. While the stream
/// scans cleanly each step hands out the next document and drops it from
/// what is left, and a step past the last one returns nothing. After a
/// scan error the iterator yields a failed document, endlessly; the
/// disjunction below covers that case, and transcoding a failed document
/// always fails, which is what ends a run.
#[verifier::external_body]
pub(crate) fn yaml_docs_next<'de>(d: &mut serde_yaml::Deserializer<'de>) -> (r: Option<
    serde_yaml::Deserializer<'de>,
>)
    ensures
        r matches Some(doc) ==> yaml_doc_failed(doc) || (yaml_renders_yaml(*old(d)).len() >= 1
            && yaml_renders_json_pretty(*old(d)).len() >= 1 && yaml_renders_json_compact(
            *old(d),
        ).len() >= 1 && yaml_doc_rendered_json_pretty(doc) == yaml_renders_json_pretty(
            *old(d),
        )[0] && yaml_doc_rendered_json_compact(doc) == yaml_renders_json_compact(*old(d))[0]
            && yaml_doc_rendered_yaml(doc) == yaml_renders_yaml(*old(d))[0]
            && yaml_renders_json_pretty(*final(d)) == yaml_renders_json_pretty(
            *old(d),
        ).drop_first() && yaml_renders_json_compact(*final(d)) == yaml_renders_json_compact(
            *old(d),
        ).drop_first() && yaml_renders_yaml(*final(d)) == yaml_renders_yaml(
            *old(d),
        ).drop_first()),
        r is None ==> yaml_renders_json_pretty(*old(d)).len() == 0 && yaml_renders_json_compact(
            *old(d),
        ).len() == 0 && yaml_renders_yaml(*old(d)).len() == 0,
{
    d.next()
}

/// Relies on serde_json::Deserializer::from_slice: the returned cursor
/// still has all of `input` in front of it.
#[verifier::external_body]
pub(crate) fn json_de_new<'a>(input: &'a [u8]) -> (d: serde_json::Deserializer<
    serde_json::de::SliceRead<'a>,
>)
    ensures
        json_rest(d) == input@,
{
    serde_json::Deserializer::from_slice(input)
}

/// Relies on serde_json::Deserializer::end: it consumes exactly the
/// leading whitespace, and reports whether nothing else remains.
#[verifier::external_body]
pub(crate) fn json_de_at_end<'a>(d: &mut serde_json::Deserializer<serde_json::de::SliceRead<'a>>) -> (r:
    bool)
    ensures
        r == (json_strip_ws(json_rest(*old(d))).len() == 0),
        json_rest(*final(d)) == json_strip_ws(json_rest(*old(d))),
{
    d.end().is_ok()
}

/// Relies on serde_transcode::transcode driving one JSON value from the
/// cursor into a pretty-printing serde_json serializer over `out`: on
/// success exactly that value's render is appended and the cursor stops
/// right after the value, having consumed at least one byte; the
/// serializer only appends.
#[verifier::external_body]
pub(crate) fn json_doc_to_json_pretty<'a>(
    d: &mut serde_json::Deserializer<serde_json::de::SliceRead<'a>>,
    out: &mut Vec<u8>,
) -> (r: Result<(), crate::error::Error>)
    ensures
        old(out)@.is_prefix_of(final(out)@),
        r is Ok ==> final(out)@ == old(out)@ + json_doc_rendered_pretty(
            json_strip_ws(json_rest(*old(d))),
        ) && json_rest(*final(d)) == json_after_doc(json_strip_ws(json_rest(*old(d))))
            && json_rest(*final(d)).len() < json_rest(*old(d)).len(),
        r matches Err(e) ==> e.from_transcoding(),
{
    let f = serde_json::ser::PrettyFormatter::new();
    let mut ser = serde_json::Serializer::with_formatter(&mut *out, f);
    serde_transcode::transcode(&mut *d, &mut ser).map_err(|e| match e.classify() {
        serde_json::error::Category::Io => crate::error::Error::IOFailure(crate::error::IoErrorKind::Other),
        _ if e.to_string().contains("key must be a string") => crate::error::Error::UnsupportedValue(e.to_string()),
        _ => crate::error::Error::MalformedInput(e.to_string()),
    })
}

/// Relies on serde_transcode::transcode driving one JSON value from the
/// cursor into a compact serde_json serializer over `out`: on success
/// exactly that value's render is appended and the cursor stops right
/// after the value, having consumed at least one byte; the serializer
/// only appends.
#[verifier::external_body]
pub(crate) fn json_doc_to_json_compact<'a>(
    d: &mut serde_json::Deserializer<serde_json::de::SliceRead<'a>>,
    out: &mut Vec<u8>,
) -> (r: Result<(), crate::error::Error>)
    ensures
        old(out)@.is_prefix_of(final(out)@),
        r is Ok ==> final(out)@ == old(out)@ + json_doc_rendered_compact(
            json_strip_ws(json_rest(*old(d))),
        ) && json_rest(*final(d)) == json_after_doc(json_strip_ws(json_rest(*old(d))))
            && json_rest(*final(d)).len() < json_rest(*old(d)).len(),
        r matches Err(e) ==> e.from_transcoding(),
{
    let mut ser = serde_json::Serializer::new(&mut *out);
    serde_transcode::transcode(&mut *d, &mut ser).map_err(|e| match e.classify() {
        serde_json::error::Category::Io => crate::error::Error::IOFailure(crate::error::IoErrorKind::Other),
        _ if e.to_string().contains("key must be a string") => crate::error::Error::UnsupportedValue(e.to_string()),
        _ => crate::error::Error::MalformedInput(e.to_string()),
    })
}

/// Relies on serde_transcode::transcode driving one JSON value from the
/// cursor into a fresh serde_yaml serializer over `out`: on success
/// exactly that value's render is appended and the cursor stops right
/// after the value, having consumed at least one byte; the serializer
/// only appends.
#[verifier::external_body]
pub(crate) fn json_doc_to_yaml<'a>(
    d: &mut serde_json::Deserializer<serde_json::de::SliceRead<'a>>,
    out: &mut Vec<u8>,
) -> (r: Result<(), crate::error::Error>)
    ensures
        old(out)@.is_prefix_of(final(out)@),
        r is Ok ==> final(out)@ == old(out)@ + json_doc_rendered_yaml(
            json_strip_ws(json_rest(*old(d))),
        ) && json_rest(*final(d)) == json_after_doc(json_strip_ws(json_rest(*old(d))))
            && json_rest(*final(d)).len() < json_rest(*old(d)).len(),
        r matches Err(e) ==> e.from_transcoding(),
{
    let mut ser = serde_yaml::Serializer::new(&mut *out);
    serde_transcode::transcode(&mut *d, &mut ser).and_then(
        |_| ser.into_inner().map(|_| ()),
    ).map_err(|e| crate::error::Error::MalformedInput(e.to_string()))
}

/// Relies on serde_transcode::transcode driving one YAML document into a
/// pretty-printing serde_json serializer over `out`: on success exactly
/// the document's render is appended; a failed document always fails; the
/// serializer only appends.
#[verifier::external_body]
pub(crate) fn yaml_doc_to_json_pretty(doc: serde_yaml::Deserializer, out: &mut Vec<u8>) -> (r:
    Result<(), crate::error::Error>)
    ensures
        old(out)@.is_prefix_of(final(out)@),
        r is Ok ==> final(out)@ == old(out)@ + yaml_doc_rendered_json_pretty(doc),
        yaml_doc_failed(doc) ==> r is Err,
        r matches Err(e) ==> e.from_transcoding(),
{
    let f = serde_json::ser::PrettyFormatter::new();
    let mut ser = serde_json::Serializer::with_formatter(&mut *out, f);
    serde_transcode::transcode(doc, &mut ser).map_err(|e| match e.classify() {
        serde_json::error::Category::Io => crate::error::Error::IOFailure(crate::error::IoErrorKind::Other),
        _ if e.to_string().contains("key must be a string") => crate::error::Error::UnsupportedValue(e.to_string()),
        _ => crate::error::Error::MalformedInput(e.to_string()),
    })
}

/// Relies on serde_transcode::transcode driving one YAML document into a
/// compact serde_json serializer over `out`: on success exactly the
/// document's render is appended; a failed document always fails; the
/// serializer only appends.
#[verifier::external_body]
pub(crate) fn yaml_doc_to_json_compact(doc: serde_yaml::Deserializer, out: &mut Vec<u8>) -> (r:
    Result<(), crate::error::Error>)
    ensures
        old(out)@.is_prefix_of(final(out)@),
        r is Ok ==> final(out)@ == old(out)@ + yaml_doc_rendered_json_compact(doc),
        yaml_doc_failed(doc) ==> r is Err,
        r matches Err(e) ==> e.from_transcoding(),
{
    let mut ser = serde_json::Serializer::new(&mut *out);
    serde_transcode::transcode(doc, &mut ser).map_err(|e| match e.classify() {
        serde_json::error::Category::Io => crate::error::Error::IOFailure(crate::error::IoErrorKind::Other),
        _ if e.to_string().contains("key must be a string") => crate::error::Error::UnsupportedValue(e.to_string()),
        _ => crate::error::Error::MalformedInput(e.to_string()),
    })
}

/// Relies on serde_transcode::transcode driving one YAML document into a
/// fresh serde_yaml serializer over `out`: on success exactly the
/// document's render is appended; a failed document always fails; the
/// serializer only appends.
#[verifier::external_body]
pub(crate) fn yaml_doc_to_yaml(doc: serde_yaml::Deserializer, out: &mut Vec<u8>) -> (r: Result<
    (),
    crate::error::Error,
>)
    ensures
        old(out)@.is_prefix_of(final(out)@),
        r is Ok ==> final(out)@ == old(out)@ + yaml_doc_rendered_yaml(doc),
        yaml_doc_failed(doc) ==> r is Err,
        r matches Err(e) ==> e.from_transcoding(),
{
    let mut ser = serde_yaml::Serializer::new(&mut *out);
    serde_transcode::transcode(doc, &mut ser).and_then(
        |_| ser.into_inner().map(|_| ()),
    ).map_err(|e| crate::error::Error::MalformedInput(e.to_string()))
}

/// Relies on serde_transcode::transcode driving the single TOML document
/// of `s` into a pretty-printing serde_json serializer over `out`: on
/// success exactly its render is appended; the serializer only appends.
#[verifier::external_body]
pub(crate) fn toml_to_json_pretty(s: &str, out: &mut Vec<u8>) -> (r: Result<(), crate::error::Error>)
    ensures
        old(out)@.is_prefix_of(final(out)@),
        r is Ok ==> final(out)@ == old(out)@ + toml_rendered_json_pretty(s@),
        r matches Err(e) ==> e.from_transcoding(),
{
    let de = toml::Deserializer::new(s);
    let f = serde_json::ser::PrettyFormatter::new();
    let mut ser = serde_json::Serializer::with_formatter(&mut *out, f);
    serde_transcode::transcode(de, &mut ser).map_err(|e| match e.classify() {
        serde_json::error::Category::Io => crate::error::Error::IOFailure(crate::error::IoErrorKind::Other),
        _ if e.to_string().contains("key must be a string") => crate::error::Error::UnsupportedValue(e.to_string()),
        _ => crate::error::Error::MalformedInput(e.to_string()),
    })
}

/// Relies on serde_transcode::transcode driving the single TOML document
/// of `s` into a compact serde_json serializer over `out`: on success
/// exactly its render is appended; the serializer only appends.
#[verifier::external_body]
pub(crate) fn toml_to_json_compact(s: &str, out: &mut Vec<u8>) -> (r: Result<(), crate::error::Error>)
    ensures
        old(out)@.is_prefix_of(final(out)@),
        r is Ok ==> final(out)@ == old(out)@ + toml_rendered_json_compact(s@),
        r matches Err(e) ==> e.from_transcoding(),
{
    let de = toml::Deserializer::new(s);
    let mut ser = serde_json::Serializer::new(&mut *out);
    serde_transcode::transcode(de, &mut ser).map_err(|e| match e.classify() {
        serde_json::error::Category::Io => crate::error::Error::IOFailure(crate::error::IoErrorKind::Other),
        _ if e.to_string().contains("key must be a string") => crate::error::Error::UnsupportedValue(e.to_string()),
        _ => crate::error::Error::MalformedInput(e.to_string()),
    })
}

/// Relies on serde_transcode::transcode driving the single TOML document
/// of `s` into a fresh serde_yaml serializer over `out`: on success
/// exactly its render is appended; the serializer only appends.
#[verifier::external_body]
pub(crate) fn toml_to_yaml(s: &str, out: &mut Vec<u8>) -> (r: Result<(), crate::error::Error>)
    ensures
        old(out)@.is_prefix_of(final(out)@),
        r is Ok ==> final(out)@ == old(out)@ + toml_rendered_yaml(s@),
        r matches Err(e) ==> e.from_transcoding(),
{
    let de = toml::Deserializer::new(s);
    let mut ser = serde_yaml::Serializer::new(&mut *out);
    serde_transcode::transcode(de, &mut ser).and_then(
        |_| ser.into_inner().map(|_| ()),
    ).map_err(|e| crate::error::Error::MalformedInput(e.to_string()))
}

} // verus!
