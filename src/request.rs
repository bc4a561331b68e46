//! The body of the generation request, and what can go wrong while fetching.
use vstd::prelude::*;
use crate::config::CodegenConfig;

verus! {

/// The service that turns an API description into an archive of generated code.
pub const GENERATOR_URL: &'static str = "https://generator3.swagger.io/api/generate";

#[verifier::external_type_specification]
#[verifier::external_body]
pub struct ExJsonError(serde_json::Error);

/// The lower-case hexadecimal digit for `n`, below 16.
pub open spec fn hex_digit(n: u32) -> char {
    seq!['0', '1', '2', '3', '4', '5', '6', '7', '8', '9', 'a', 'b', 'c', 'd', 'e', 'f'][n as int]
}

/// One character inside a JSON string: a quote and a backslash take a backslash, the control
/// characters below U+0020 take their short escape or `\u00XX`, all others stand as they are.
pub open spec fn json_escape(c: char) -> Seq<char> {
    if c == '"' {
        seq!['\\', '"']
    } else if c == '\\' {
        seq!['\\', '\\']
    } else if c == '\u{8}' {
        seq!['\\', 'b']
    } else if c == '\t' {
        seq!['\\', 't']
    } else if c == '\n' {
        seq!['\\', 'n']
    } else if c == '\u{c}' {
        seq!['\\', 'f']
    } else if c == '\r' {
        seq!['\\', 'r']
    } else if (c as u32) < 0x20 {
        seq!['\\', 'u', '0', '0', hex_digit((c as u32) / 16), hex_digit((c as u32) % 16)]
    } else {
        seq![c]
    }
}

/// The characters of `s`, each escaped for a JSON string.
pub open spec fn json_escaped(s: Seq<char>) -> Seq<char>
    decreases s.len(),
{
    if s.len() == 0 {
        Seq::empty()
    } else {
        json_escape(s[0]) + json_escaped(s.drop_first())
    }
}

/// `s` written as a JSON string: quoted and escaped.
pub open spec fn json_string_of(s: Seq<char>) -> Seq<char> {
    seq!['"'] + json_escaped(s) + seq!['"']
}

/// The text of the single JSON value that `s` holds, without surrounding whitespace;
/// `None` when `s` is not one well-formed JSON value.
pub uninterp spec fn raw_json_of(s: Seq<char>) -> Option<Seq<char>>;

/// Relies on serde_json::to_string, applied to a `str`: the string as a JSON string literal,
/// escaped as its `format_escaped_str` and `ESCAPE` table do. Writing into a `Vec` cannot fail,
/// so neither can this.
#[verifier::external_body]
fn json_string(s: &str) -> (r: Result<String, serde_json::Error>)
    ensures
        r is Ok,
        r->Ok_0@ == json_string_of(s@),
{
    serde_json::to_string(s)
}

/// Relies on serde_json::value::RawValue::from_string: it accepts exactly one JSON value,
/// whose text it keeps as written.
#[verifier::external_body]
fn raw_json(s: String) -> (r: Result<String, serde_json::Error>)
    ensures
        r is Ok <==> raw_json_of(s@) is Some,
        r is Ok ==> r->Ok_0@ == raw_json_of(s@)->0,
{
    match serde_json::value::RawValue::from_string(s) {
        Ok(v) => Ok(v.get().to_string()),
        Err(e) => Err(e),
    }
}

/// Why no archive was obtained.
#[derive(Debug)]
pub enum ArchiveError {
    SpecFetchFailed(String),
    InvalidSpec(String),
    RequestFailed(String),
    ReceiveFailed(String),
}

impl ArchiveError {
    /// The text shown to the user for this error.
    pub open spec fn message_spec(&self) -> Seq<char> {
        match self {
            ArchiveError::SpecFetchFailed(c) => "Can't get api info. ("@ + c@ + ")"@,
            ArchiveError::InvalidSpec(c) => "Api info is not valid JSON. ("@ + c@ + ")"@,
            ArchiveError::RequestFailed(c) => "Can't download archive. ("@ + c@ + ")"@,
            ArchiveError::ReceiveFailed(c) => "Can't receive archive. ("@ + c@ + ")"@,
        }
    }

    pub fn message(&self) -> (r: String)
        ensures
            r@ == self.message_spec(),
    {
        let (mut m, c) = match self {
            ArchiveError::SpecFetchFailed(c) => (String::from_str("Can't get api info. ("), c),
            ArchiveError::InvalidSpec(c) => (String::from_str("Api info is not valid JSON. ("), c),
            ArchiveError::RequestFailed(c) => (String::from_str("Can't download archive. ("), c),
            ArchiveError::ReceiveFailed(c) => (String::from_str("Can't receive archive. ("), c),
        };
        m.append(c.as_str());
        m.append(")");
        m
    }
}

/// The request body: an object whose `lang` and `type` are the given JSON strings and whose
/// `spec` is the given JSON text, placed as it is.
pub open spec fn body_spec(lang_json: Seq<char>, type_json: Seq<char>, spec_json: Seq<char>) -> Seq<char> {
    "{\"lang\":"@ + lang_json + ",\"type\":"@ + type_json + ",\"spec\":"@ + spec_json + "}"@
}

/// Puts the request body together from its three JSON parts.
pub fn assemble_body(lang_json: &str, type_json: &str, spec_json: &str) -> (r: String)
    ensures
        r@ == body_spec(lang_json@, type_json@, spec_json@),
{
    let mut body = String::from_str("{\"lang\":");
    body.append(lang_json);
    body.append(",\"type\":");
    body.append(type_json);
    body.append(",\"spec\":");
    body.append(spec_json);
    body.append("}");
    body
}

/// The generation request for `config`, with the fetched API description `spec` embedded as a
/// JSON value rather than as a string.
pub fn request_body(config: &CodegenConfig, spec: String) -> (r: Result<String, ArchiveError>)
    ensures
        r is Ok <==> raw_json_of(spec@) is Some,
        r is Err ==> r->Err_0 is InvalidSpec,
        r is Ok ==> r->Ok_0@ == body_spec(
            json_string_of(config.lang@),
            json_string_of(config.gen_type@),
            raw_json_of(spec@)->0,
        ),
{
    let raw = match raw_json(spec) {
        Ok(raw) => raw,
        Err(e) => {
            return Err(ArchiveError::InvalidSpec(e.to_string()));
        },
    };
    let lang = match json_string(config.lang.as_str()) {
        Ok(s) => s,
        Err(_) => unreached(),
    };
    let gen_type = match json_string(config.gen_type.as_str()) {
        Ok(s) => s,
        Err(_) => unreached(),
    };
    Ok(assemble_body(lang.as_str(), gen_type.as_str(), raw.as_str()))
}

} // verus!
