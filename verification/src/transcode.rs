use vstd::prelude::*;
use vstd::utf8::{decode_utf8, encode_utf8_decode_utf8, valid_utf8};

use crate::error::Error;
use crate::format::Format;
use crate::opt::{Opt, DASH};
use crate::outside::{
    bytes_as_str, json_after_doc, json_de_at_end, json_de_new, json_doc_rendered_compact,
    json_doc_rendered_pretty, json_doc_rendered_yaml, json_doc_to_json_compact,
    json_doc_to_json_pretty, json_doc_to_yaml, json_rest, json_strip_ws, json_ws,
    toml_rendered_json_compact, toml_rendered_json_pretty, toml_rendered_yaml,
    toml_to_json_compact, toml_to_json_pretty, toml_to_yaml, yaml_doc_failed,
    yaml_doc_rendered_json_compact, yaml_doc_rendered_json_pretty, yaml_doc_rendered_yaml,
    yaml_doc_to_json_compact, yaml_doc_to_json_pretty, yaml_doc_to_yaml, yaml_docs_new,
    yaml_docs_next, yaml_input_renders_json_compact, yaml_input_renders_json_pretty,
    yaml_input_renders_yaml, yaml_renders_json_compact, yaml_renders_json_pretty,
    yaml_renders_yaml,
};

verus! {

/// The newline byte that ends every document written as JSON.
pub const NEWLINE: u8 = 10;

/// How JSON output is laid out. YAML has a single canonical layout, so the
/// choice only matters for JSON destinations.
#[derive(Clone, Copy, PartialEq, Eq, Structural, Debug)]
pub enum Style {
    Pretty,
    Compact,
}

/// The layout an interactive destination gets: indented documents for a
/// terminal, compact ones for anything else.
pub open spec fn style_for(to_tty: bool) -> Style {
    if to_tty {
        Style::Pretty
    } else {
        Style::Compact
    }
}

/// Output layout is a run-level decision, made once.
pub fn select_style(to_tty: bool) -> (r: Style)
    ensures
        r == style_for(to_tty),
{
    if to_tty {
        Style::Pretty
    } else {
        Style::Compact
    }
}

/// A document's render wrapped in the destination's own framing: a newline
/// ends each JSON document; YAML documents carry none of their own here.
pub open spec fn framed(rend: Seq<u8>, to: Format) -> Seq<u8> {
    if to == Format::Json {
        rend + seq![NEWLINE]
    } else {
        rend
    }
}

/// Everything the driver writes for one document: a `---` separator line
/// before every YAML document but the run's first, then the framed render.
pub open spec fn doc_chunk(rend: Seq<u8>, to: Format, first: bool) -> Seq<u8> {
    (if to == Format::Yaml && !first {
        seq![DASH, DASH, DASH, NEWLINE]
    } else {
        Seq::<u8>::empty()
    }) + framed(rend, to)
}

/// The renders, in order, of the documents of a YAML input, for the given
/// destination and style.
pub open spec fn yaml_input_renders(input: Seq<u8>, to: Format, style: Style) -> Seq<Seq<u8>> {
    match to {
        Format::Json => if style == Style::Pretty {
            yaml_input_renders_json_pretty(input)
        } else {
            yaml_input_renders_json_compact(input)
        },
        Format::Yaml => yaml_input_renders_yaml(input),
        Format::Toml => Seq::empty(),
    }
}

/// The renders of the documents a YAML iterator will still yield, for the
/// given destination and style.
pub open spec fn yaml_iter_renders(d: serde_yaml::Deserializer, to: Format, style: Style) -> Seq<
    Seq<u8>,
> {
    match to {
        Format::Json => if style == Style::Pretty {
            yaml_renders_json_pretty(d)
        } else {
            yaml_renders_json_compact(d)
        },
        Format::Yaml => yaml_renders_yaml(d),
        Format::Toml => Seq::empty(),
    }
}

/// The render of one yielded YAML document, for the given destination and
/// style.
pub open spec fn yaml_doc_render(doc: serde_yaml::Deserializer, to: Format, style: Style) -> Seq<
    u8,
> {
    match to {
        Format::Json => if style == Style::Pretty {
            yaml_doc_rendered_json_pretty(doc)
        } else {
            yaml_doc_rendered_json_compact(doc)
        },
        Format::Yaml => yaml_doc_rendered_yaml(doc),
        Format::Toml => Seq::empty(),
    }
}

/// Everything the driver writes for a sequence of document renders.
pub open spec fn yaml_run_render(renders: Seq<Seq<u8>>, to: Format, first: bool) -> Seq<u8>
    decreases renders.len(),
{
    if renders.len() == 0 {
        Seq::empty()
    } else {
        doc_chunk(renders[0], to, first) + yaml_run_render(renders.drop_first(), to, false)
    }
}

/// The render of the next document of a JSON input, for the given
/// destination and style.
pub open spec fn json_doc_render(s: Seq<u8>, to: Format, style: Style) -> Seq<u8> {
    match to {
        Format::Json => if style == Style::Pretty {
            json_doc_rendered_pretty(s)
        } else {
            json_doc_rendered_compact(s)
        },
        Format::Yaml => json_doc_rendered_yaml(s),
        Format::Toml => Seq::empty(),
    }
}

/// The unconsumed bytes of a JSON input after `n` documents were read.
pub open spec fn json_after_n(s: Seq<u8>, n: nat) -> Seq<u8>
    decreases n,
{
    if n == 0 {
        s
    } else {
        json_after_doc(json_strip_ws(json_after_n(s, (n - 1) as nat)))
    }
}

/// Everything the driver writes for the first `n` documents of a JSON
/// input.
pub open spec fn json_run_render(s: Seq<u8>, to: Format, style: Style, first: bool, n: nat) -> Seq<
    u8,
>
    decreases n,
{
    if n == 0 {
        Seq::empty()
    } else {
        let t = json_strip_ws(s);
        doc_chunk(json_doc_render(t, to, style), to, first) + json_run_render(
            json_after_doc(t),
            to,
            style,
            false,
            (n - 1) as nat,
        )
    }
}

/// Everything the driver writes for the single document of a TOML input.
pub open spec fn toml_run_render(s: Seq<char>, to: Format, style: Style) -> Seq<u8> {
    match to {
        Format::Json => framed(
            if style == Style::Pretty {
                toml_rendered_json_pretty(s)
            } else {
                toml_rendered_json_compact(s)
            },
            to,
        ),
        Format::Yaml => toml_rendered_yaml(s),
        Format::Toml => Seq::empty(),
    }
}

proof fn lemma_prefix_trans(a: Seq<u8>, b: Seq<u8>, c: Seq<u8>)
    requires
        a.is_prefix_of(b),
        b.is_prefix_of(c),
    ensures
        a.is_prefix_of(c),
{
    assert(a =~= c.subrange(0, a.len() as int));
}

proof fn lemma_prefix_concat(a: Seq<u8>, b: Seq<u8>)
    ensures
        a.is_prefix_of(a + b),
{
    assert(a =~= (a + b).subrange(0, a.len() as int));
}

proof fn lemma_strip_ws_len(s: Seq<u8>)
    ensures
        json_strip_ws(s).len() <= s.len(),
    decreases s.len(),
{
    if s.len() > 0 && json_ws(s[0]) {
        lemma_strip_ws_len(s.drop_first());
    }
}

proof fn lemma_strip_ws_idem(s: Seq<u8>)
    ensures
        json_strip_ws(json_strip_ws(s)) == json_strip_ws(s),
    decreases s.len(),
{
    if s.len() > 0 && json_ws(s[0]) {
        lemma_strip_ws_idem(s.drop_first());
    }
}

proof fn lemma_yaml_run_snoc(renders: Seq<Seq<u8>>, to: Format, first: bool, k: int)
    requires
        0 <= k < renders.len(),
    ensures
        yaml_run_render(renders.take(k + 1), to, first) == yaml_run_render(
            renders.take(k),
            to,
            first,
        ) + doc_chunk(renders[k], to, first && k == 0),
    decreases k,
{
    reveal_with_fuel(yaml_run_render, 3);
    if k == 0 {
        assert(renders.take(1).drop_first() =~= Seq::<Seq<u8>>::empty());
        assert(renders.take(1)[0] == renders[0]);
        assert(yaml_run_render(renders.take(1), to, first) =~= doc_chunk(renders[0], to, first));
        assert(yaml_run_render(renders.take(0), to, first) + doc_chunk(renders[0], to, first)
            =~= doc_chunk(renders[0], to, first));
    } else {
        let dropped = renders.drop_first();
        assert(renders.take(k + 1).drop_first() =~= dropped.take(k));
        assert(renders.take(k).drop_first() =~= dropped.take(k - 1));
        assert(renders.take(k + 1)[0] == renders[0]);
        assert(renders.take(k)[0] == renders[0]);
        lemma_yaml_run_snoc(dropped, to, false, k - 1);
        assert(dropped[k - 1] == renders[k]);
        assert(yaml_run_render(renders.take(k + 1), to, first) =~= yaml_run_render(
            renders.take(k),
            to,
            first,
        ) + doc_chunk(renders[k], to, false));
    }
}

proof fn lemma_json_after_n_shift(s: Seq<u8>, n: nat)
    ensures
        json_after_n(json_after_doc(json_strip_ws(s)), n) == json_after_n(s, n + 1),
    decreases n,
{
    reveal_with_fuel(json_after_n, 3);
    if n > 0 {
        lemma_json_after_n_shift(s, (n - 1) as nat);
    }
}

proof fn lemma_json_run_snoc(s: Seq<u8>, to: Format, style: Style, first: bool, n: nat)
    ensures
        json_run_render(s, to, style, first, n + 1) == json_run_render(s, to, style, first, n)
            + doc_chunk(
            json_doc_render(json_strip_ws(json_after_n(s, n)), to, style),
            to,
            first && n == 0,
        ),
    decreases n,
{
    reveal_with_fuel(json_run_render, 3);
    let t = json_strip_ws(s);
    if n == 0 {
        assert(json_run_render(s, to, style, first, 1) =~= doc_chunk(
            json_doc_render(t, to, style),
            to,
            first,
        ));
        assert(json_run_render(s, to, style, first, 0) + doc_chunk(
            json_doc_render(t, to, style),
            to,
            first,
        ) =~= doc_chunk(json_doc_render(t, to, style), to, first));
    } else {
        lemma_json_run_snoc(json_after_doc(t), to, style, false, (n - 1) as nat);
        lemma_json_after_n_shift(s, (n - 1) as nat);
        assert(json_run_render(s, to, style, first, n + 1) =~= json_run_render(
            s,
            to,
            style,
            first,
            n,
        ) + doc_chunk(
            json_doc_render(json_strip_ws(json_after_n(s, n)), to, style),
            to,
            false,
        ));
    }
}

/// Appends the `---` document separator line that keeps YAML documents
/// apart when more than one is written to the same destination.
fn push_separator(out: &mut Vec<u8>)
    ensures
        final(out)@ == old(out)@ + seq![DASH, DASH, DASH, NEWLINE],
{
    out.push(DASH);
    out.push(DASH);
    out.push(DASH);
    out.push(NEWLINE);
    proof {
        assert(out@ =~= old(out)@ + seq![DASH, DASH, DASH, NEWLINE]);
    }
}

/// Writes one YAML input document to the sink: its render in the
/// destination format, with a newline after it when that format is JSON.
fn yaml_doc_out(doc: serde_yaml::Deserializer, to: Format, style: Style, out: &mut Vec<u8>) -> (r:
    Result<(), Error>)
    requires
        to.can_output_spec(),
    ensures
        old(out)@.is_prefix_of(final(out)@),
        r matches Err(e) ==> e.from_transcoding(),
        yaml_doc_failed(doc) ==> r is Err,
        r is Ok ==> final(out)@ == old(out)@ + framed(yaml_doc_render(doc, to, style), to),
{
    match to {
        Format::Json => {
            let r = if matches!(style, Style::Pretty) {
                yaml_doc_to_json_pretty(doc, out)
            } else {
                yaml_doc_to_json_compact(doc, out)
            };
            match r {
                Ok(_) => {
                    out.push(NEWLINE);
                    proof {
                        assert(out@ =~= old(out)@ + framed(yaml_doc_render(doc, to, style), to));
                        assert(old(out)@ =~= out@.subrange(0, old(out)@.len() as int));
                    }
                    Ok(())
                },
                Err(e) => Err(e),
            }
        },
        Format::Yaml => yaml_doc_to_yaml(doc, out),
        Format::Toml => Err(Error::UnsupportedOutputFormat(Format::Toml)),
    }
}

/// Writes the next JSON input value to the sink: its render in the
/// destination format, with a newline after it when that format is JSON.
fn json_doc_out<'a>(
    de: &mut serde_json::Deserializer<serde_json::de::SliceRead<'a>>,
    to: Format,
    style: Style,
    out: &mut Vec<u8>,
) -> (r: Result<(), Error>)
    requires
        to.can_output_spec(),
    ensures
        old(out)@.is_prefix_of(final(out)@),
        r matches Err(e) ==> e.from_transcoding(),
        r is Ok ==> final(out)@ == old(out)@ + framed(
            json_doc_render(json_strip_ws(json_rest(*old(de))), to, style),
            to,
        ) && json_rest(*final(de)) == json_after_doc(json_strip_ws(json_rest(*old(de))))
            && json_rest(*final(de)).len() < json_rest(*old(de)).len(),
{
    match to {
        Format::Json => {
            let r = if matches!(style, Style::Pretty) {
                json_doc_to_json_pretty(de, out)
            } else {
                json_doc_to_json_compact(de, out)
            };
            match r {
                Ok(_) => {
                    out.push(NEWLINE);
                    proof {
                        assert(out@ =~= old(out)@ + framed(
                            json_doc_render(json_strip_ws(json_rest(*old(de))), to, style),
                            to,
                        ));
                        assert(old(out)@ =~= out@.subrange(0, old(out)@.len() as int));
                    }
                    Ok(())
                },
                Err(e) => Err(e),
            }
        },
        Format::Yaml => json_doc_to_yaml(de, out),
        Format::Toml => Err(Error::UnsupportedOutputFormat(Format::Toml)),
    }
}

/// The stream driver: reads every document that `input` holds in format
/// `from` and appends each one, in order, to `out` in format `to`.
///
/// On success the bytes appended are exactly the documents' renders in
/// input order, each wrapped in the destination's framing. Bytes already
/// appended are never taken back: when a later document fails, everything
/// written for the documents before it stays in `out`, followed at most by
/// a partial render of the failing one. An empty JSON or YAML input holds
/// no documents, so it succeeds and writes nothing; a TOML input is one
/// document, rejected before any parsing when it is not valid UTF-8.
pub fn transcode_all_input(
    input: &[u8],
    from: Format,
    to: Format,
    style: Style,
    out: &mut Vec<u8>,
) -> (r: Result<(), Error>)
    requires
        to.can_output_spec(),
    ensures
        old(out)@.is_prefix_of(final(out)@),
        r matches Err(e) ==> e.from_transcoding(),
        from == Format::Yaml && input@.len() == 0 ==> r is Ok && final(out)@ == old(out)@,
        from == Format::Yaml && input@.len() != 0 && r is Ok ==> final(out)@ == old(out)@
            + yaml_run_render(yaml_input_renders(input@, to, style), to, true),
        from == Format::Yaml && input@.len() != 0 && r is Err ==> (exists|k: int|
            0 <= k <= yaml_input_renders(input@, to, style).len() && (old(out)@ + yaml_run_render(
                yaml_input_renders(input@, to, style).take(k),
                to,
                true,
            )).is_prefix_of(final(out)@)),
        from == Format::Json && input@.len() == 0 ==> r is Ok && final(out)@ == old(out)@,
        from == Format::Json && r is Ok ==> (exists|n: nat|
            final(out)@ == old(out)@ + json_run_render(input@, to, style, true, n)
                && json_strip_ws(json_after_n(input@, n)).len() == 0),
        from == Format::Json && r is Err ==> (exists|n: nat|
            (old(out)@ + json_run_render(input@, to, style, true, n)).is_prefix_of(final(out)@)),
        from == Format::Toml && !valid_utf8(input@) ==> r is Err && final(out)@ == old(out)@,
        from == Format::Toml && valid_utf8(input@) && r is Ok ==> final(out)@ == old(out)@
            + toml_run_render(decode_utf8(input@), to, style),
        to == Format::Json && r is Ok && final(out)@.len() > old(out)@.len()
            ==> final(out)@.last() == NEWLINE,
{
    match from {
        Format::Yaml => {
            if input.len() == 0 {
                // This stream holds no documents. The YAML iterator below
                // would nevertheless hand back one empty document, so the
                // driver settles the case itself.
                return Ok(());
            }
            let mut docs = yaml_docs_new(input);
            let ghost rall = yaml_input_renders(input@, to, style);
            let ghost out0 = out@;
            let ghost mut k: int = 0;
            let mut first: bool = true;
            loop
                invariant_except_break
                    from == Format::Yaml,
                    to.can_output_spec(),
                    out0 == old(out)@,
                    input@.len() != 0,
                    rall == yaml_input_renders(input@, to, style),
                    0 <= k <= rall.len(),
                    yaml_iter_renders(docs, to, style) == rall.skip(k),
                    out@ == out0 + yaml_run_render(rall.take(k), to, true),
                    first == (k == 0),
                    to == Format::Json ==> (out@.len() > out0.len() ==> out@.last() == NEWLINE),
                ensures
                    out@ == out0 + yaml_run_render(rall, to, true),
                    to == Format::Json ==> (out@.len() > out0.len() ==> out@.last() == NEWLINE),
                decreases rall.len() - k,
            {
                match yaml_docs_next(&mut docs) {
                    None => {
                        proof {
                            assert(rall.skip(k).len() == 0);
                            assert(k == rall.len());
                            assert(rall.take(k) =~= rall);
                        }
                        break;
                    },
                    Some(doc) => {
                        let ghost pre = out@;
                        if matches!(to, Format::Yaml) && !first {
                            push_separator(out);
                            proof {
                                lemma_prefix_concat(pre, seq![DASH, DASH, DASH, NEWLINE]);
                            }
                        }
                        first = false;
                        let ghost mid = out@;
                        match yaml_doc_out(doc, to, style, out) {
                            Ok(_) => {
                                proof {
                                    // A failed document cannot have
                                    // succeeded, so the head and tail
                                    // equations of the iterator step hold.
                                    assert(!yaml_doc_failed(doc));
                                    assert(rall.skip(k)[0] == rall[k]);
                                    assert(yaml_doc_render(doc, to, style) == rall[k]);
                                    assert(yaml_iter_renders(docs, to, style) =~= rall.skip(k + 1));
                                    lemma_yaml_run_snoc(rall, to, true, k);
                                    assert(out@ =~= out0 + yaml_run_render(
                                        rall.take(k + 1),
                                        to,
                                        true,
                                    ));
                                    k = k + 1;
                                }
                            },
                            Err(e) => {
                                proof {
                                    assert(pre.is_prefix_of(mid)) by {
                                        assert(pre =~= mid.subrange(0, pre.len() as int));
                                    }
                                    lemma_prefix_trans(pre, mid, out@);
                                    lemma_prefix_concat(out0, yaml_run_render(
                                        rall.take(k),
                                        to,
                                        true,
                                    ));
                                    lemma_prefix_trans(out0, pre, out@);
                                    assert((out0 + yaml_run_render(
                                        rall.take(k),
                                        to,
                                        true,
                                    )).is_prefix_of(out@));
                                }
                                return Err(e);
                            },
                        }
                    },
                }
            }
            proof {
                lemma_prefix_concat(out0, yaml_run_render(rall, to, true));
            }
            Ok(())
        },
        Format::Json => {
            if input.len() == 0 {
                proof {
                    assert(json_after_n(input@, 0) == input@);
                    assert(json_strip_ws(input@).len() == 0);
                    assert(out@ =~= out@ + json_run_render(input@, to, style, true, 0));
                }
                return Ok(());
            }
            let mut de = json_de_new(input);
            let ghost out0 = out@;
            let ghost mut n: nat = 0;
            let mut first: bool = true;
            loop
                invariant_except_break
                    from == Format::Json,
                    input@.len() != 0,
                    to.can_output_spec(),
                    out0 == old(out)@,
                    out@ == out0 + json_run_render(input@, to, style, true, n),
                    json_rest(de) == json_after_n(input@, n),
                    first == (n == 0),
                    to == Format::Json ==> (out@.len() > out0.len() ==> out@.last() == NEWLINE),
                ensures
                    out@ == out0 + json_run_render(input@, to, style, true, n),
                    json_strip_ws(json_after_n(input@, n)).len() == 0,
                    to == Format::Json ==> (out@.len() > out0.len() ==> out@.last() == NEWLINE),
                decreases json_rest(de).len(),
            {
                let ghost rest_head = json_rest(de);
                if json_de_at_end(&mut de) {
                    break;
                }
                proof {
                    lemma_strip_ws_len(rest_head);
                }
                let ghost pre = out@;
                if matches!(to, Format::Yaml) && !first {
                    push_separator(out);
                    proof {
                        lemma_prefix_concat(pre, seq![DASH, DASH, DASH, NEWLINE]);
                    }
                }
                first = false;
                let ghost mid = out@;
                match json_doc_out(&mut de, to, style, out) {
                    Ok(_) => {
                        proof {
                            lemma_strip_ws_idem(rest_head);
                            lemma_json_run_snoc(input@, to, style, true, n);
                            assert(out@ =~= out0 + json_run_render(
                                input@,
                                to,
                                style,
                                true,
                                n + 1,
                            ));
                            n = n + 1;
                        }
                    },
                    Err(e) => {
                        proof {
                            assert(pre.is_prefix_of(mid)) by {
                                assert(pre =~= mid.subrange(0, pre.len() as int));
                            }
                            lemma_prefix_trans(pre, mid, out@);
                            lemma_prefix_concat(out0, json_run_render(input@, to, style, true, n));
                            lemma_prefix_trans(out0, pre, out@);
                            assert((out0 + json_run_render(
                                input@,
                                to,
                                style,
                                true,
                                n,
                            )).is_prefix_of(out@));
                        }
                        return Err(e);
                    },
                }
            }
            proof {
                lemma_prefix_concat(out0, json_run_render(input@, to, style, true, n));
            }
            Ok(())
        },
        Format::Toml => {
            match bytes_as_str(input) {
                None => Err(Error::MalformedInput("input is not valid UTF-8".to_owned())),
                Some(s) => {
                    proof {
                        // The slice decodes to exactly the characters the
                        // wrapper renders.
                        encode_utf8_decode_utf8(s@);
                        assert(decode_utf8(input@) == s@);
                    }
                    match to {
                        Format::Json => {
                            let r = if matches!(style, Style::Pretty) {
                                toml_to_json_pretty(s, out)
                            } else {
                                toml_to_json_compact(s, out)
                            };
                            match r {
                                Ok(_) => {
                                    out.push(NEWLINE);
                                    proof {
                                        assert(out@ =~= old(out)@ + toml_run_render(
                                            decode_utf8(input@),
                                            to,
                                            style,
                                        ));
                                        assert(old(out)@ =~= out@.subrange(
                                            0,
                                            old(out)@.len() as int,
                                        ));
                                        assert(out@.last() == NEWLINE);
                                    }
                                    Ok(())
                                },
                                Err(e) => Err(e),
                            }
                        },
                        Format::Yaml => toml_to_yaml(s, out),
                        Format::Toml => Err(Error::UnsupportedOutputFormat(Format::Toml)),
                    }
                },
            }
        },
    }
}

/// One whole run: picks the source format — the one the configuration
/// fixes, else the one the file name's extension names, else YAML — picks
/// the JSON layout from whether the destination is interactive, and hands
/// everything to the stream driver, whose guarantees carry over with that
/// source format and style filled in.
#[verifier::rlimit(60)]
pub fn jyt(opt: &Opt, input: &[u8], to_tty: bool, out: &mut Vec<u8>) -> (r: Result<(), Error>)
    requires
        opt.to.can_output_spec(),
    ensures
        old(out)@.is_prefix_of(final(out)@),
        r matches Err(e) ==> e.from_transcoding(),
        ({
            let from = match opt.detect_from_spec() {
                Some(f) => f,
                None => Format::Yaml,
            };
            from == Format::Yaml && input@.len() == 0 ==> r is Ok && final(out)@ == old(out)@
        }),
        ({
            let from = match opt.detect_from_spec() {
                Some(f) => f,
                None => Format::Yaml,
            };
            from == Format::Yaml && input@.len() != 0 && r is Ok ==> final(out)@ == old(out)@
                + yaml_run_render(
                yaml_input_renders(input@, opt.to, style_for(to_tty)),
                opt.to,
                true,
            )
        }),
        ({
            let from = match opt.detect_from_spec() {
                Some(f) => f,
                None => Format::Yaml,
            };
            from == Format::Json && r is Ok ==> (exists|n: nat|
                final(out)@ == old(out)@ + json_run_render(
                    input@,
                    opt.to,
                    style_for(to_tty),
                    true,
                    n,
                ) && json_strip_ws(json_after_n(input@, n)).len() == 0)
        }),
        ({
            let from = match opt.detect_from_spec() {
                Some(f) => f,
                None => Format::Yaml,
            };
            from == Format::Toml && !valid_utf8(input@) ==> r is Err && final(out)@ == old(out)@
        }),
        ({
            let from = match opt.detect_from_spec() {
                Some(f) => f,
                None => Format::Yaml,
            };
            from == Format::Toml && valid_utf8(input@) && r is Ok ==> final(out)@ == old(out)@
                + toml_run_render(decode_utf8(input@), opt.to, style_for(to_tty))
        }),
        opt.to == Format::Json && r is Ok && final(out)@.len() > old(out)@.len()
            ==> final(out)@.last() == NEWLINE,
{
    let from = match opt.detect_from() {
        Some(f) => f,
        None => Format::Yaml,
    };
    let style = select_style(to_tty);
    let r = transcode_all_input(input, from, opt.to, style, out);
    proof {
        if r is Ok && from == Format::Json {
            let n0 = choose|n: nat|
                out@ == old(out)@ + json_run_render(input@, opt.to, style, true, n)
                    && json_strip_ws(json_after_n(input@, n)).len() == 0;
            assert(out@ == old(out)@ + json_run_render(
                input@,
                opt.to,
                style_for(to_tty),
                true,
                n0,
            ) && json_strip_ws(json_after_n(input@, n0)).len() == 0);
        }
    }
    r
}

} // verus!
