//! XML events: reading them from text and writing them as text, through quick-xml.
use vstd::prelude::*;
use quick_xml::events::Event::{Empty, End, Eof, Start};
use quick_xml::events::{BytesEnd, BytesStart};
use quick_xml::Error as QxError;

verus! {

/// A start or self-closing tag: its local name and its attributes in document order, each
/// as its key and its value as written (the key possibly prefixed, the value escaped).
#[derive(Debug)]
pub struct XmlTag {
    pub name: String,
    pub attributes: Vec<(String, String)>,
}

/// One event of an XML document.
#[derive(Debug)]
pub enum XmlToken {
    /// `<name ...>`
    Start(XmlTag),
    /// `<name .../>`
    Empty(XmlTag),
    /// `</name>`, by local name
    End(String),
    /// text, comments, declarations and other markup
    Other,
    /// the end of the document
    Eof,
}

#[verifier::external_type_specification]
#[verifier::external_body]
#[verifier::reject_recursive_types(R)]
pub struct ExXmlReader<R>(quick_xml::Reader<R>);

#[verifier::external_type_specification]
#[verifier::external_body]
pub struct ExXmlError(quick_xml::Error);

/// A name for the `n`-th event (counting from 0) that `read_token` gives on a reader made by
/// `Reader::from_str` on the text `s`: quick-xml's `Reader::read_event` result converted to
/// an event, or `None` when that call fails or the tag's attributes are malformed (for
/// example, one given twice). The reader holds no other input, so this depends on `s` and
/// `n` alone.
pub uninterp spec fn xml_event(s: Seq<char>, n: nat) -> Option<XmlToken>;

/// A name for the text that a reader reads.
pub uninterp spec fn reader_source(r: quick_xml::Reader<&[u8]>) -> Seq<char>;

/// A name for how many events a reader has been asked for.
pub uninterp spec fn reader_calls(r: quick_xml::Reader<&[u8]>) -> nat;

/// Relies on quick_xml::Reader::from_str: a reader of `input` that has read nothing yet.
#[verifier::external_body]
fn open_reader<'a>(input: &'a str) -> (r: quick_xml::Reader<&'a [u8]>)
    ensures
        reader_source(r) == input@,
        reader_calls(r) == 0,
{
    quick_xml::Reader::from_str(input)
}

/// Relies on quick_xml::Reader::read_event: the next event of the document, or the
/// syntax error met (unbalanced tags, malformed attributes). Names and attribute keys are
/// taken as written; attribute values are left escaped.
#[verifier::external_body]
fn read_token<'a>(reader: &mut quick_xml::Reader<&'a [u8]>) -> (r: Result<XmlToken, quick_xml::Error>)
    ensures
        reader_source(*final(reader)) == reader_source(*old(reader)),
        reader_calls(*final(reader)) == reader_calls(*old(reader)) + 1,
        match r {
            Ok(t) => xml_event(reader_source(*old(reader)), reader_calls(*old(reader))) == Some(t),
            Err(_) => xml_event(reader_source(*old(reader)), reader_calls(*old(reader))) is None,
        },
{
    let text = |b: &[u8]| String::from_utf8_lossy(b).into_owned();
    let tag = |e: BytesStart| {
        let attributes = e.attributes().map(|a| a.map(|a| (text(a.key.0), text(&a.value)))).collect::<Result<_, _>>()?;
        Ok::<_, QxError>(XmlTag { name: text(e.local_name().as_ref()), attributes })
    };
    Ok(match reader.read_event()? {
        Start(e) => XmlToken::Start(tag(e)?),
        Empty(e) => XmlToken::Empty(tag(e)?),
        End(e) => XmlToken::End(text(e.local_name().as_ref())),
        Eof => XmlToken::Eof,
        _ => XmlToken::Other,
    })
}

/// A name for what quick_xml::escape::unescape gives on `s`: `None` when it fails.
pub uninterp spec fn unescaped(s: Seq<char>) -> Option<Seq<char>>;

/// Relies on quick_xml::escape::unescape: `raw` with its entity and character references
/// replaced, or nothing when a reference is malformed or unknown. Text without `&` is
/// returned as it is.
#[verifier::external_body]
pub(crate) fn unescape(raw: &str) -> (r: Option<String>)
    ensures
        r.deep_view() == unescaped(raw@),
        !raw@.contains('&') ==> r.deep_view() == Some(raw@),
{
    quick_xml::escape::unescape(raw).ok().map(|v| v.into_owned())
}

/// Relies on the `Display` impl of quick_xml::Error: a description of the error.
#[verifier::external_body]
fn describe_error(e: &quick_xml::Error) -> String {
    e.to_string()
}

/// Why an XML document could not be read.
#[derive(Debug)]
pub enum XmlError {
    /// The document is not well-formed; the description of the problem.
    Syntax(String),
    /// The document has more events than it has bytes, which no well-formed reader produces.
    Runaway,
}

/// How reading a document's events can end without reaching its end.
pub ghost enum ReadFailure {
    /// quick-xml met a syntax error.
    Malformed,
    /// More events than the text has characters.
    Runaway,
}

/// The events of the text `s` from the `n`-th call on, after the events `acc`: up to and
/// including the end of the document, at most one per character of `s` before it.
pub open spec fn read_events(s: Seq<char>, n: nat, acc: Seq<XmlToken>) -> Result<Seq<XmlToken>, ReadFailure>
    decreases s.len() - n,
{
    match xml_event(s, n) {
        None => Err(ReadFailure::Malformed),
        Some(XmlToken::Eof) => Ok(acc.push(XmlToken::Eof)),
        Some(t) => if n < s.len() {
            read_events(s, n + 1, acc.push(t))
        } else {
            Err(ReadFailure::Runaway)
        },
    }
}

/// The events of the document `s`.
pub open spec fn document_events(s: Seq<char>) -> Result<Seq<XmlToken>, ReadFailure> {
    read_events(s, 0, Seq::empty())
}

/// Reads every event of `input`, up to and including the end of the document.
/// The first malformed construct fails the whole read.
pub fn tokenize(input: &str) -> (r: Result<Vec<XmlToken>, XmlError>)
    ensures
        match document_events(input@) {
            Ok(ts) => r matches Ok(v) && v@ == ts,
            Err(ReadFailure::Malformed) => r matches Err(XmlError::Syntax(_)),
            Err(ReadFailure::Runaway) => r matches Err(XmlError::Runaway),
        },
{
    let mut reader = open_reader(input);
    let limit = input.unicode_len();
    let mut toks: Vec<XmlToken> = Vec::new();
    let mut count: usize = 0;
    loop
        invariant
            count <= limit,
            limit == input@.len(),
            reader_source(reader) == input@,
            reader_calls(reader) == count,
            document_events(input@) == read_events(input@, count as nat, toks@),
        decreases limit - count,
    {
        match read_token(&mut reader) {
            Ok(XmlToken::Eof) => {
                toks.push(XmlToken::Eof);
                return Ok(toks);
            },
            Ok(t) => {
                toks.push(t);
            },
            Err(e) => {
                return Err(XmlError::Syntax(describe_error(&e)));
            },
        }
        if count == limit {
            return Err(XmlError::Runaway);
        }
        count = count + 1;
    }
}

/// The characters that stand for `c` in an attribute value.
pub open spec fn escape_char(c: char) -> Seq<char> {
    if c == '<' {
        seq!['&', 'l', 't', ';']
    } else if c == '>' {
        seq!['&', 'g', 't', ';']
    } else if c == '&' {
        seq!['&', 'a', 'm', 'p', ';']
    } else if c == '\'' {
        seq!['&', 'a', 'p', 'o', 's', ';']
    } else if c == '"' {
        seq!['&', 'q', 'u', 'o', 't', ';']
    } else {
        seq![c]
    }
}

/// `s` with each of `< > & ' "` replaced by its entity.
pub open spec fn escape(s: Seq<char>) -> Seq<char>
    decreases s.len(),
{
    if s.len() == 0 {
        Seq::empty()
    } else {
        escape(s.drop_last()) + escape_char(s.last())
    }
}

/// The text of one attribute: ` key="value"`, the value escaped.
pub open spec fn attribute_text(a: (Seq<char>, Seq<char>)) -> Seq<char> {
    seq![' '] + a.0 + seq!['=', '"'] + escape(a.1) + seq!['"']
}

pub open spec fn attributes_text(attrs: Seq<(Seq<char>, Seq<char>)>) -> Seq<char>
    decreases attrs.len(),
{
    if attrs.len() == 0 {
        Seq::empty()
    } else {
        attributes_text(attrs.drop_last()) + attribute_text(attrs.last())
    }
}

pub open spec fn pairs_view(attrs: Seq<(String, String)>) -> Seq<(Seq<char>, Seq<char>)> {
    attrs.map_values(|p: (String, String)| (p.0@, p.1@))
}

/// The shape of a tag to write.
#[derive(Clone, Copy, PartialEq, Eq, Structural)]
pub enum TagKind {
    Open,
    SelfClosing,
    Close,
}

/// The text of a tag: `<name attrs>`, `<name attrs/>` or `</name>`.
pub open spec fn tag_text(kind: TagKind, name: Seq<char>, attrs: Seq<(Seq<char>, Seq<char>)>) -> Seq<char> {
    match kind {
        TagKind::Open => seq!['<'] + name + attributes_text(attrs) + seq!['>'],
        TagKind::SelfClosing => seq!['<'] + name + attributes_text(attrs) + seq!['/', '>'],
        TagKind::Close => seq!['<', '/'] + name + seq!['>'],
    }
}

/// Relies on quick_xml::Writer::write_event without indentation: a start tag is written as
/// `<`, the name, ` key="value"` for each attribute pushed (the value escaped by
/// quick_xml::escape::escape), then `>`; a self-closing one ends in `/>`; an end tag is
/// `</name>`. The writer's sink is a `Vec<u8>`, whose `io::Write` never fails, so the write
/// always succeeds and its text is appended to `out`.
#[verifier::external_body]
pub(crate) fn write_tag(out: &mut String, kind: TagKind, name: &str, attrs: &Vec<(String, String)>)
    ensures
        final(out)@ == old(out)@ + tag_text(kind, name@, pairs_view(attrs@)),
{
    let start = BytesStart::new(name).with_attributes(attrs.iter().map(|(k, v)| (k.as_str(), v.as_str())));
    let event = match kind {
        TagKind::Open => Start(start),
        TagKind::SelfClosing => Empty(start),
        TagKind::Close => End(BytesEnd::new(name)),
    };
    let mut writer = quick_xml::Writer::new(Vec::new());
    let _ = writer.write_event(event);
    out.push_str(&String::from_utf8_lossy(&writer.into_inner()));
}

} // verus!
