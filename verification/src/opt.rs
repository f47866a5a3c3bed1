use vstd::prelude::*;
use vstd::string::StringSliceAdditionalSpecFns;
use vstd::utf8::encode_utf8;

use crate::error::Error;
use crate::format::{bytes_eq, Format};

verus! {

/// The byte of the path separator `/`.
pub const SLASH: u8 = 47;

/// The byte of `.`.
pub const DOT: u8 = 46;

/// The byte of `-`, the conventional name for standard input.
pub const DASH: u8 = 45;

/// The suffix of `s` after the last occurrence of `b`, or all of `s` when
/// `b` does not occur in it.
pub open spec fn after_last(s: Seq<u8>, b: u8) -> Seq<u8>
    decreases s.len(),
{
    if s.len() == 0 {
        s
    } else if s[s.len() - 1] == b {
        Seq::empty()
    } else {
        after_last(s.take(s.len() - 1), b).push(s[s.len() - 1])
    }
}

proof fn lemma_after_last_found(s: Seq<u8>, b: u8, i: int)
    requires
        0 <= i < s.len(),
        s[i] == b,
        forall|j: int| i < j < s.len() ==> s[j] != b,
    ensures
        after_last(s, b) =~= s.subrange(i + 1, s.len() as int),
    decreases s.len(),
{
    if i == s.len() - 1 {
    } else {
        lemma_after_last_found(s.take(s.len() - 1), b, i);
    }
}

proof fn lemma_after_last_absent(s: Seq<u8>, b: u8)
    requires
        forall|j: int| 0 <= j < s.len() ==> s[j] != b,
    ensures
        after_last(s, b) =~= s,
    decreases s.len(),
{
    if s.len() > 0 {
        lemma_after_last_absent(s.take(s.len() - 1), b);
    }
}

/// `s` without its trailing path separators, which a path reading ignores:
/// `dir/name.ext/` names the same file as `dir/name.ext`.
pub open spec fn drop_trailing_slashes(s: Seq<u8>) -> Seq<u8>
    decreases s.len(),
{
    if s.len() > 0 && s[s.len() - 1] == SLASH {
        drop_trailing_slashes(s.take(s.len() - 1))
    } else {
        s
    }
}

/// The extension of a path, read at the byte level: the part of the path's
/// last component after its last `.`, provided that dot does not open the
/// component (a name that is nothing but `.something` has no extension).
/// Trailing separators are ignored, as a path reading ignores them.
pub open spec fn extension_spec(path: Seq<u8>) -> Option<Seq<u8>> {
    let comp = after_last(drop_trailing_slashes(path), SLASH);
    if exists|i: int| 1 <= i < comp.len() && comp[i] == DOT {
        Some(after_last(comp, DOT))
    } else {
        None
    }
}

/// The format a recognized extension names.
pub open spec fn ext_format_spec(e: Seq<u8>) -> Option<Format> {
    if e == "json".spec_bytes() {
        Some(Format::Json)
    } else if e == "yaml".spec_bytes() || e == "yml".spec_bytes() {
        Some(Format::Yaml)
    } else if e == "toml".spec_bytes() {
        Some(Format::Toml)
    } else {
        None
    }
}

/// The length of `v` once its trailing path separators are dropped.
fn stripped_len(v: &[u8]) -> (e: usize)
    ensures
        e <= v@.len(),
        drop_trailing_slashes(v@) =~= v@.subrange(0, e as int),
        e > 0 ==> v@[e - 1] != SLASH,
{
    let mut e: usize = v.len();
    proof {
        assert(v@.subrange(0, e as int) =~= v@);
    }
    while e > 0 && v[e - 1] == SLASH
        invariant
            e <= v@.len(),
            drop_trailing_slashes(v@) == drop_trailing_slashes(v@.subrange(0, e as int)),
        decreases e,
    {
        proof {
            assert(v@.subrange(0, e as int).take(e - 1) =~= v@.subrange(0, e - 1));
        }
        e = e - 1;
    }
    e
}

/// The index right after the last occurrence of `b` in `v`, or zero when
/// `b` does not occur.
fn start_after_last(v: &[u8], b: u8) -> (r: usize)
    ensures
        r <= v@.len(),
        after_last(v@, b) =~= v@.subrange(r as int, v@.len() as int),
        forall|j: int| r <= j < v@.len() ==> v@[j] != b,
        r > 0 ==> v@[r - 1] == b,
{
    let mut i: usize = v.len();
    while i > 0
        invariant
            i <= v@.len(),
            forall|j: int| i <= j < v@.len() ==> v@[j] != b,
        decreases i,
    {
        if v[i - 1] == b {
            proof {
                lemma_after_last_found(v@, b, i - 1);
            }
            return i;
        }
        i = i - 1;
    }
    proof {
        lemma_after_last_absent(v@, b);
    }
    0
}

/// Where the extension of `name` stands, when it has one: the byte range
/// holding the bytes after the last dot of the last component.
fn extension_start(name: &[u8]) -> (r: Option<(usize, usize)>)
    ensures
        match r {
            Some((k, e)) => k <= e <= name@.len() && extension_spec(name@) == Some(
                name@.subrange(k as int, e as int),
            ),
            None => extension_spec(name@) is None,
        },
{
    let e = stripped_len(name);
    let st = &name[0..e];
    let c = start_after_last(st, SLASH);
    let ghost comp = after_last(st@, SLASH);
    proof {
        assert(st@ == drop_trailing_slashes(name@));
    }
    let mut i: usize = e;
    while i > 0 && i - 1 > c
        invariant
            i <= st@.len(),
            c <= st@.len(),
            st@ == name@.subrange(0, e as int),
            st@ == drop_trailing_slashes(name@),
            e <= name@.len(),
            comp == after_last(st@, SLASH),
            comp =~= st@.subrange(c as int, st@.len() as int),
            forall|j: int| i <= j < st@.len() ==> st@[j] != DOT,
        decreases i,
    {
        if st[i - 1] == DOT {
            proof {
                // The dot sits at component index i - 1 - c >= 1.
                assert(comp[i - 1 - c] == DOT);
                assert(exists|m: int| 1 <= m < comp.len() && comp[m] == DOT);
                lemma_after_last_found(comp, DOT, i - 1 - c);
                assert(comp.subrange(i - c, comp.len() as int) =~= st@.subrange(
                    i as int,
                    st@.len() as int,
                ));
                assert(st@.subrange(i as int, st@.len() as int) =~= name@.subrange(
                    i as int,
                    e as int,
                ));
            }
            return Some((i, e));
        }
        i = i - 1;
    }
    proof {
        assert forall|j: int| 1 <= j < comp.len() implies comp[j] != DOT by {
            assert(comp[j] == st@[c + j]);
        }
    }
    None
}

/// One resolved run: the destination format, the source format when the
/// caller fixed one, and the input file's name when input does not come
/// from standard input.
pub struct Opt {
    pub to: Format,
    pub from: Option<Format>,
    pub input_filename: Option<String>,
}

/// Where the input bytes come from.
#[derive(Debug)]
pub enum InputSource {
    Stdin,
    File(String),
}

impl Opt {
    /// Accepts a destination format name: the name must be recognized and
    /// the format must be writable. A format that can only be read is
    /// rejected here, before any input is touched.
    pub fn parse_to(s: &str) -> (r: Result<Format, Error>)
        ensures
            match Format::parse_spec(s@) {
                Some(f) => if f.can_output_spec() {
                    r == Ok::<Format, Error>(f)
                } else {
                    r == Err::<Format, Error>(Error::UnsupportedOutputFormat(f))
                },
                None => r matches Err(e) && e matches Error::UnrecognizedFormat(t) && t@ == s@,
            },
    {
        let f = Format::from_str(s)?;
        if f.can_output() {
            Ok(f)
        } else {
            Err(Error::UnsupportedOutputFormat(f))
        }
    }

    /// The source format the run will use before falling back to a default:
    /// the one the caller fixed, else the one the input file's extension
    /// names, else none.
    pub open spec fn detect_from_spec(self) -> Option<Format> {
        if self.from is Some {
            self.from
        } else {
            match self.input_filename {
                None => None,
                Some(name) => match extension_spec(encode_utf8(name@)) {
                    None => None,
                    Some(e) => ext_format_spec(e),
                },
            }
        }
    }

    pub fn detect_from(&self) -> (r: Option<Format>)
        ensures
            r == self.detect_from_spec(),
    {
        if self.from.is_some() {
            return self.from;
        }
        match &self.input_filename {
            None => None,
            Some(name) => {
                let b = name.as_str().as_bytes();
                match extension_start(b) {
                    None => None,
                    Some((k, e)) => {
                        let ext = &b[k..e];
                        if bytes_eq(ext, "json".as_bytes()) {
                            Some(Format::Json)
                        } else if bytes_eq(ext, "yaml".as_bytes()) || bytes_eq(
                            ext,
                            "yml".as_bytes(),
                        ) {
                            Some(Format::Yaml)
                        } else if bytes_eq(ext, "toml".as_bytes()) {
                            Some(Format::Toml)
                        } else {
                            None
                        }
                    },
                }
            },
        }
    }

    /// Where this run reads its input: standard input when no file name was
    /// given, and also under the conventional name `-`.
    pub open spec fn input_source_spec(self) -> InputSource {
        match self.input_filename {
            None => InputSource::Stdin,
            Some(name) => if encode_utf8(name@) == seq![DASH] {
                InputSource::Stdin
            } else {
                InputSource::File(name)
            },
        }
    }

    pub fn input_source(&self) -> (r: InputSource)
        ensures
            r == self.input_source_spec(),
    {
        match &self.input_filename {
            None => InputSource::Stdin,
            Some(name) => {
                let b = name.as_str().as_bytes();
                if b.len() == 1 && b[0] == DASH {
                    proof {
                        assert(b@ =~= seq![DASH]);
                    }
                    InputSource::Stdin
                } else {
                    proof {
                        assert(b@ != seq![DASH]);
                    }
                    InputSource::File(name.clone())
                }
            },
        }
    }
}

} // verus!
