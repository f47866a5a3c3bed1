use vstd::prelude::*;
use vstd::string::StringSliceAdditionalSpecFns;
use vstd::utf8::encode_utf8_decode_utf8;

use crate::error::Error;

verus! {

/// The closed set of supported formats. JSON and YAML can be read and
/// written; TOML can only be read.
#[derive(Clone, Copy, PartialEq, Eq, Structural, Debug)]
pub enum Format {
    Json,
    Yaml,
    Toml,
}

impl Format {
    /// Whether the format may be chosen as the destination of a conversion:
    /// JSON and YAML have streaming serializers, TOML has none here.
    pub open spec fn can_output_spec(self) -> bool {
        match self {
            Format::Json | Format::Yaml => true,
            Format::Toml => false,
        }
    }

    pub fn can_output(&self) -> (r: bool)
        ensures
            r == self.can_output_spec(),
    {
        matches!(self, Format::Json | Format::Yaml)
    }

    /// Which format a name picks out: the full name, or its unambiguous
    /// one-letter abbreviation.
    pub open spec fn parse_spec(s: Seq<char>) -> Option<Format> {
        if s == "j"@ || s == "json"@ {
            Some(Format::Json)
        } else if s == "y"@ || s == "yaml"@ {
            Some(Format::Yaml)
        } else if s == "t"@ || s == "toml"@ {
            Some(Format::Toml)
        } else {
            None
        }
    }

    /// Recognizes a format name; any other token is reported back inside the
    /// error.
    pub fn from_str(s: &str) -> (r: Result<Format, Error>)
        ensures
            match Format::parse_spec(s@) {
                Some(f) => r == Ok::<Format, Error>(f),
                None => r matches Err(e) && e matches Error::UnrecognizedFormat(t) && t@ == s@,
            },
    {
        proof {
            // Equal encodings mean equal character sequences.
            encode_utf8_decode_utf8(s@);
            encode_utf8_decode_utf8("j"@);
            encode_utf8_decode_utf8("json"@);
            encode_utf8_decode_utf8("y"@);
            encode_utf8_decode_utf8("yaml"@);
            encode_utf8_decode_utf8("t"@);
            encode_utf8_decode_utf8("toml"@);
        }
        let b = s.as_bytes();
        if bytes_eq(b, "j".as_bytes()) || bytes_eq(b, "json".as_bytes()) {
            Ok(Format::Json)
        } else if bytes_eq(b, "y".as_bytes()) || bytes_eq(b, "yaml".as_bytes()) {
            Ok(Format::Yaml)
        } else if bytes_eq(b, "t".as_bytes()) || bytes_eq(b, "toml".as_bytes()) {
            Ok(Format::Toml)
        } else {
            Err(Error::UnrecognizedFormat(s.to_owned()))
        }
    }

    /// The format's full name, for diagnostics.
    pub fn name(&self) -> (r: &'static str)
        ensures
            *self == Format::Json ==> r@ == "json"@,
            *self == Format::Yaml ==> r@ == "yaml"@,
            *self == Format::Toml ==> r@ == "toml"@,
    {
        match self {
            Format::Json => "json",
            Format::Yaml => "yaml",
            Format::Toml => "toml",
        }
    }
}

/// Whether two byte slices hold the same bytes.
pub fn bytes_eq(a: &[u8], b: &[u8]) -> (r: bool)
    ensures
        r == (a@ == b@),
{
    if a.len() != b.len() {
        return false;
    }
    let mut i: usize = 0;
    while i < a.len()
        invariant
            i <= a@.len(),
            a@.len() == b@.len(),
            forall|j: int| 0 <= j < i ==> a@[j] == b@[j],
        decreases a@.len() - i,
    {
        if a[i] != b[i] {
            return false;
        }
        i += 1;
    }
    proof {
        assert(a@ =~= b@);
    }
    true
}

} // verus!

