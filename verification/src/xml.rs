//! XML LLSD: each value is an element named after its kind (`<integer>`,
//! `<map>`, ...), inside one `<llsd>` element. Binary data is base64, dates
//! are RFC 3339, and the reading side works on the events of an XML parser.

use crate::osd::{
    chrono_parse_utc, chrono_rfc3339, format_real, read_real, spec_real_formatter, spec_real_reader,
    spec_real_text, spec_real_value, lemma_entry_decreases, LlsdDate, OSD, OsdMap, OsdModel, MIN_DATE_SECS,
};
use crate::binary::{spec_entry_model, spec_entry_models, spec_model_insert, spec_models};
use crate::text::{
    i32_to_string, parse_i32, spec_int_decimal, spec_parse_i32, spec_trim, str_chars, str_eq, string_push,
    string_push_str, trim,
};
use crate::uuid::{spec_uuid_hyphenated, uuid_parse_str, UUID};
use base64::Engine;
use vstd::prelude::*;

verus! {

/// The text of `bytes` in standard base64 with padding.
pub uninterp spec fn base64_standard_encode(bytes: Seq<u8>) -> Seq<char>;

/// The bytes standard base64 decodes from `text`, or `None` when the
/// decoder rejects it.
pub uninterp spec fn base64_standard_decode(text: Seq<char>) -> Option<Seq<u8>>;

/// `general_purpose::STANDARD.encode_string`: appends the base64 text of
/// `bytes`.
#[verifier::external_body]
fn base64_encode_into(bytes: &[u8], out: &mut String)
    ensures
        final(out)@ == old(out)@ + base64_standard_encode(bytes@),
{
    base64::engine::general_purpose::STANDARD.encode_string(bytes, out)
}

/// `general_purpose::STANDARD.decode`, keeping whether it succeeded.
#[verifier::external_body]
fn base64_decode(text: &str) -> (r: Option<Vec<u8>>)
    ensures
        match base64_standard_decode(text@) {
            Some(b) => r is Some && r->0@ == b,
            None => r is None,
        },
{
    base64::engine::general_purpose::STANDARD.decode(text).ok()
}

/// The escaped form of one character in XML text.
pub open spec fn spec_xml_escape_char(c: char) -> Seq<char> {
    if c == '&' {
        "&amp;"@
    } else if c == '<' {
        "&lt;"@
    } else if c == '>' {
        "&gt;"@
    } else if c == '"' {
        "&quot;"@
    } else if c == '\'' {
        "&apos;"@
    } else {
        seq![c]
    }
}

/// XML text for `s`: `&`, `<`, `>`, `"` and `'` replaced by entities.
pub open spec fn spec_xml_escape(s: Seq<char>) -> Seq<char>
    decreases s.len(),
{
    if s.len() == 0 {
        Seq::empty()
    } else {
        spec_xml_escape(s.drop_last()) + spec_xml_escape_char(s.last())
    }
}

/// `c` in front of the text `r`, if any.
pub open spec fn spec_prepend(c: char, r: Option<Seq<char>>) -> Option<Seq<char>> {
    match r {
        Some(t) => Some(seq![c] + t),
        None => None,
    }
}

/// The text an XML reader gives back for the character data `e`: each of
/// the five predefined entities stands for its character, every other
/// character for itself. `None` when a `<` appears or an `&` starts none of
/// the entities, which no well-formed document holds.
pub open spec fn spec_xml_unescape(e: Seq<char>) -> Option<Seq<char>>
    decreases e.len(),
{
    if e.len() == 0 {
        Some(Seq::empty())
    } else if e[0] == '<' {
        None
    } else if e[0] == '&' {
        if e.len() >= 5 && e.subrange(0, 5) == "&amp;"@ {
            spec_prepend('&', spec_xml_unescape(e.subrange(5, e.len() as int)))
        } else if e.len() >= 4 && e.subrange(0, 4) == "&lt;"@ {
            spec_prepend('<', spec_xml_unescape(e.subrange(4, e.len() as int)))
        } else if e.len() >= 4 && e.subrange(0, 4) == "&gt;"@ {
            spec_prepend('>', spec_xml_unescape(e.subrange(4, e.len() as int)))
        } else if e.len() >= 6 && e.subrange(0, 6) == "&quot;"@ {
            spec_prepend('"', spec_xml_unescape(e.subrange(6, e.len() as int)))
        } else if e.len() >= 6 && e.subrange(0, 6) == "&apos;"@ {
            spec_prepend('\'', spec_xml_unescape(e.subrange(6, e.len() as int)))
        } else {
            None
        }
    } else {
        spec_prepend(e[0], spec_xml_unescape(e.subrange(1, e.len() as int)))
    }
}

/// Escaping a text escapes its first character, then the rest.
proof fn lemma_xml_escape_front(s: Seq<char>)
    requires
        s.len() > 0,
    ensures
        spec_xml_escape(s) == spec_xml_escape_char(s[0]) + spec_xml_escape(s.drop_first()),
    decreases s.len(),
{
    if s.len() == 1 {
        assert(s.drop_last() =~= Seq::<char>::empty());
        assert(s.drop_first() =~= Seq::<char>::empty());
        assert(spec_xml_escape(s.drop_first()) == Seq::<char>::empty());
        assert(spec_xml_escape(s) =~= spec_xml_escape_char(s[0]));
    } else {
        let d = s.drop_last();
        lemma_xml_escape_front(d);
        assert(d.drop_first() =~= s.drop_first().drop_last());
        assert(s.drop_first().last() == s.last());
        assert(d[0] == s[0]);
        assert(spec_xml_escape(s) =~= spec_xml_escape_char(s[0]) + spec_xml_escape(s.drop_first()));
    }
}

/// Reading back one escaped character in front of more character data
/// gives the character in front of what the rest reads back as.
proof fn lemma_xml_unescape_char(c: char, rest: Seq<char>)
    ensures
        spec_xml_unescape(spec_xml_escape_char(c) + rest) == spec_prepend(c, spec_xml_unescape(rest)),
{
    reveal_strlit("&amp;");
    reveal_strlit("&lt;");
    reveal_strlit("&gt;");
    reveal_strlit("&quot;");
    reveal_strlit("&apos;");
    let x = spec_xml_escape_char(c);
    let e = x + rest;
    let n = x.len() as int;
    assert(e.subrange(n, e.len() as int) =~= rest);
    if c == '&' {
        assert(e.subrange(0, 5) =~= "&amp;"@);
    } else if c == '<' {
        assert(e.subrange(0, 4) =~= "&lt;"@);
        assert(e[1] == 'l');
        assert(!(e.len() >= 5 && e.subrange(0, 5) == "&amp;"@)) by {
            if e.len() >= 5 && e.subrange(0, 5) == "&amp;"@ {
                assert(e.subrange(0, 5)[1] == 'a');
            }
        }
    } else if c == '>' {
        assert(e.subrange(0, 4) =~= "&gt;"@);
        assert(e[1] == 'g');
        assert(!(e.len() >= 5 && e.subrange(0, 5) == "&amp;"@)) by {
            if e.len() >= 5 && e.subrange(0, 5) == "&amp;"@ {
                assert(e.subrange(0, 5)[1] == 'a');
            }
        }
        assert(!(e.subrange(0, 4) == "&lt;"@)) by {
            assert(e.subrange(0, 4)[1] == 'g');
        }
    } else if c == '"' {
        assert(e.subrange(0, 6) =~= "&quot;"@);
        assert(e[1] == 'q');
        assert(!(e.subrange(0, 5) == "&amp;"@)) by {
            assert(e.subrange(0, 5)[1] == 'q');
        }
        assert(!(e.subrange(0, 4) == "&lt;"@)) by {
            assert(e.subrange(0, 4)[1] == 'q');
        }
        assert(!(e.subrange(0, 4) == "&gt;"@)) by {
            assert(e.subrange(0, 4)[1] == 'q');
        }
    } else if c == '\'' {
        assert(e.subrange(0, 6) =~= "&apos;"@);
        assert(!(e.subrange(0, 5) == "&amp;"@)) by {
            assert(e.subrange(0, 5)[2] == 'p');
        }
        assert(!(e.subrange(0, 4) == "&lt;"@)) by {
            assert(e.subrange(0, 4)[1] == 'a');
        }
        assert(!(e.subrange(0, 4) == "&gt;"@)) by {
            assert(e.subrange(0, 4)[1] == 'a');
        }
        assert(!(e.subrange(0, 6) == "&quot;"@)) by {
            assert(e.subrange(0, 6)[1] == 'a');
        }
    } else {
        assert(x == seq![c]);
        assert(e[0] == c);
    }
}

/// Law: XML escaping is undone by reading back: the escaped form of any
/// text reads back, entity by entity, as that text.
pub proof fn lemma_xml_unescape_escape(s: Seq<char>)
    ensures
        spec_xml_unescape(spec_xml_escape(s)) == Some(s),
    decreases s.len(),
{
    if s.len() == 0 {
        assert(spec_xml_escape(s) == Seq::<char>::empty());
    } else {
        lemma_xml_escape_front(s);
        lemma_xml_unescape_escape(s.drop_first());
        lemma_xml_unescape_char(s[0], spec_xml_escape(s.drop_first()));
        assert(seq![s[0]] + s.drop_first() =~= s);
    }
}

/// Appends the XML text for `s`.
pub fn escape_xml_into(s: &str, output: &mut String)
    ensures
        final(output)@ == old(output)@ + spec_xml_escape(s@),
{
    let chars = crate::text::str_chars(s);
    let mut i: usize = 0;
    while i < chars.len()
        invariant
            i <= chars@.len(),
            chars@ == s@,
            output@ == old(output)@ + spec_xml_escape(s@.subrange(0, i as int)),
        decreases chars@.len() - i,
    {
        let c = chars[i];
        if c == '&' {
            string_push_str(output, "&amp;");
        } else if c == '<' {
            string_push_str(output, "&lt;");
        } else if c == '>' {
            string_push_str(output, "&gt;");
        } else if c == '"' {
            string_push_str(output, "&quot;");
        } else if c == '\'' {
            string_push_str(output, "&apos;");
        } else {
            string_push(output, c);
        }
        proof {
            let t = s@.subrange(0, i + 1);
            assert(t.drop_last() =~= s@.subrange(0, i as int));
            assert(t.last() == c);
        }
        i = i + 1;
        assert(output@ =~= old(output)@ + spec_xml_escape(s@.subrange(0, i as int)));
    }
    assert(s@.subrange(0, s@.len() as int) =~= s@);
}

/// The XML element of a value; reals are written by `f`.
pub open spec fn spec_xml<F: Fn(u64) -> String>(m: OsdModel, f: F) -> Seq<char>
    decreases m,
{
    match m {
        OsdModel::Boolean(b) => "<boolean>"@ + (if b { "1"@ } else { "0"@ }) + "</boolean>"@,
        OsdModel::Integer(v) => "<integer>"@ + spec_int_decimal(v as int) + "</integer>"@,
        OsdModel::Real(bits) => "<real>"@ + spec_real_text(f, bits) + "</real>"@,
        OsdModel::String(s) => "<string>"@ + spec_xml_escape(s) + "</string>"@,
        OsdModel::UUID(u) => "<uuid>"@ + spec_uuid_hyphenated(u) + "</uuid>"@,
        OsdModel::Date(secs, nanos) => "<date>"@ + chrono_rfc3339(secs, nanos) + "</date>"@,
        OsdModel::Uri(s) => "<uri>"@ + spec_xml_escape(s) + "</uri>"@,
        OsdModel::Binary(b) => "<binary>"@ + base64_standard_encode(b) + "</binary>"@,
        OsdModel::Dict(entries) => "<map>"@ + spec_xml_entries(entries, f) + "</map>"@,
        OsdModel::Array(items) => "<array>"@ + spec_xml_items(items, f) + "</array>"@,
        OsdModel::Undef => "<undef />"@,
    }
}

/// The XML elements of `items`, one after another.
pub open spec fn spec_xml_items<F: Fn(u64) -> String>(items: Seq<OsdModel>, f: F) -> Seq<char>
    decreases items,
{
    if items.len() == 0 {
        Seq::empty()
    } else {
        spec_xml_items(items.subrange(0, items.len() - 1), f) + spec_xml(items[items.len() - 1], f)
    }
}

/// The XML of map entries: each key in `<key>`, then its value.
pub open spec fn spec_xml_entries<F: Fn(u64) -> String>(entries: Seq<(Seq<char>, OsdModel)>, f: F) -> Seq<char>
    decreases entries,
{
    if entries.len() == 0 {
        Seq::empty()
    } else {
        spec_xml_entries(entries.subrange(0, entries.len() - 1), f) + "<key>"@ + spec_xml_escape(
            entries[entries.len() - 1].0,
        ) + "</key>"@ + spec_xml(entries[entries.len() - 1].1, f)
    }
}

impl OSD {
    /// Appends the XML element of this value; reals are written by
    /// `real_text`.
    pub fn write_xml<F: Fn(u64) -> String>(&self, output: &mut String, real_text: &F)
        requires
            spec_real_formatter(*real_text),
        ensures
            final(output)@ == old(output)@ + spec_xml(self.model(), *real_text),
        decreases self,
    {
        let ghost start = output@;
        match self {
            OSD::Boolean(v) => {
                string_push_str(output, "<boolean>");
                string_push_str(output, if *v { "1" } else { "0" });
                string_push_str(output, "</boolean>");
            },
            OSD::Integer(v) => {
                string_push_str(output, "<integer>");
                let t = i32_to_string(*v);
                string_push_str(output, t.as_str());
                string_push_str(output, "</integer>");
            },
            OSD::Real(b) => {
                string_push_str(output, "<real>");
                let t = format_real(real_text, *b);
                string_push_str(output, t.as_str());
                string_push_str(output, "</real>");
            },
            OSD::String(v) => {
                string_push_str(output, "<string>");
                escape_xml_into(v.as_str(), output);
                string_push_str(output, "</string>");
            },
            OSD::UUID(u) => {
                string_push_str(output, "<uuid>");
                let t = u.to_string();
                string_push_str(output, t.as_str());
                string_push_str(output, "</uuid>");
            },
            OSD::Date(d) => {
                string_push_str(output, "<date>");
                let t = d.to_rfc3339();
                string_push_str(output, t.as_str());
                string_push_str(output, "</date>");
            },
            OSD::Uri(v) => {
                string_push_str(output, "<uri>");
                escape_xml_into(v.as_str(), output);
                string_push_str(output, "</uri>");
            },
            OSD::Binary(v) => {
                string_push_str(output, "<binary>");
                base64_encode_into(v.as_slice(), output);
                string_push_str(output, "</binary>");
            },
            OSD::Dict(m) => {
                string_push_str(output, "<map>");
                write_xml_entries(m, output, real_text);
                string_push_str(output, "</map>");
                proof {
                    reveal(spec_entry_model);
                }
                assert(self.model()->Dict_0 =~= spec_entry_models(m.spec_entries()));
            },
            OSD::Array(a) => {
                string_push_str(output, "<array>");
                write_xml_items(a, output, real_text);
                string_push_str(output, "</array>");
                assert(self.model()->Array_0 =~= spec_models(a@));
            },
            OSD::Undef => {
                string_push_str(output, "<undef />");
            },
        }
        assert(output@ =~= start + spec_xml(self.model(), *real_text));
    }

    /// The XML LLSD document of this value: its element inside `<llsd>`.
    pub fn to_xml<F: Fn(u64) -> String>(&self, real_text: &F) -> (r: String)
        requires
            spec_real_formatter(*real_text),
        ensures
            r@ == "<llsd>"@ + spec_xml(self.model(), *real_text) + "</llsd>"@,
    {
        let mut output = String::new();
        string_push_str(&mut output, "<llsd>");
        self.write_xml(&mut output, real_text);
        string_push_str(&mut output, "</llsd>");
        output
    }
}

/// Appends the XML elements of `items`.
fn write_xml_items<F: Fn(u64) -> String>(items: &Vec<OSD>, output: &mut String, real_text: &F)
    requires
        spec_real_formatter(*real_text),
    ensures
        final(output)@ == old(output)@ + spec_xml_items(spec_models(items@), *real_text),
    decreases items,
{
    let ghost ms = spec_models(items@);
    let mut i: usize = 0;
    while i < items.len()
        invariant
            i <= items@.len(),
            ms == spec_models(items@),
            spec_real_formatter(*real_text),
            output@ == old(output)@ + spec_xml_items(ms.subrange(0, i as int), *real_text),
        decreases items@.len() - i,
    {
        assert(decreases_to!(items => items@[i as int]));
        items[i].write_xml(output, real_text);
        proof {
            let s = ms.subrange(0, i + 1);
            assert(s.subrange(0, s.len() - 1) =~= ms.subrange(0, i as int));
        }
        i = i + 1;
    }
    assert(ms.subrange(0, items@.len() as int) =~= ms);
}

/// Appends the XML of map entries.
fn write_xml_entries<F: Fn(u64) -> String>(map: &OsdMap<OSD>, output: &mut String, real_text: &F)
    requires
        spec_real_formatter(*real_text),
    ensures
        final(output)@ == old(output)@ + spec_xml_entries(spec_entry_models(map.spec_entries()), *real_text),
    decreases map,
{
    let entries = map.entries();
    let ghost ms = spec_entry_models(entries@);
    let mut i: usize = 0;
    while i < entries.len()
        invariant
            entries@ == map.spec_entries(),
            i <= entries@.len(),
            ms == spec_entry_models(entries@),
            spec_real_formatter(*real_text),
            output@ == old(output)@ + spec_xml_entries(ms.subrange(0, i as int), *real_text),
        decreases entries@.len() - i,
    {
        string_push_str(output, "<key>");
        escape_xml_into(entries[i].0.as_str(), output);
        string_push_str(output, "</key>");
        proof {
            lemma_entry_decreases(*map, i as int);
        }
        entries[i].1.write_xml(output, real_text);
        proof {
            reveal(spec_entry_model);
            let s = ms.subrange(0, i + 1);
            assert(s.subrange(0, s.len() - 1) =~= ms.subrange(0, i as int));
        }
        i = i + 1;
    }
    assert(ms.subrange(0, entries@.len() as int) =~= ms);
}


/// An XML event as the readers see it: a start or end tag with its local
/// name, character data, a run of whitespace, any other event, or a parse
/// error with its message.
#[derive(Debug, Clone, PartialEq)]
pub enum XmlToken {
    Start(String),
    End(String),
    Text(String),
    Whitespace(String),
    Other,
    Error(String),
}

/// The mathematical form of an XML event.
pub enum XmlTokenModel {
    Start(Seq<char>),
    End(Seq<char>),
    Text(Seq<char>),
    Whitespace(Seq<char>),
    Other,
    Error(Seq<char>),
}

impl View for XmlToken {
    type V = XmlTokenModel;

    open spec fn view(&self) -> XmlTokenModel {
        match self {
            XmlToken::Start(n) => XmlTokenModel::Start(n@),
            XmlToken::End(n) => XmlTokenModel::End(n@),
            XmlToken::Text(t) => XmlTokenModel::Text(t@),
            XmlToken::Whitespace(t) => XmlTokenModel::Whitespace(t@),
            XmlToken::Other => XmlTokenModel::Other,
            XmlToken::Error(e) => XmlTokenModel::Error(e@),
        }
    }
}

/// The events `xml-rs` reads from a text with its default configuration,
/// up to the end of the document or the first error.
pub uninterp spec fn xml_rs_events(text: Seq<char>) -> Seq<XmlTokenModel>;

/// The models of a sequence of events.
pub open spec fn spec_tokens(v: Seq<XmlToken>) -> Seq<XmlTokenModel> {
    v.map_values(|t: XmlToken| t@)
}

/// `xml::reader::EventReader` run over `text` to its end: every event, each
/// kept as its kind and local name, character data, a run of whitespace,
/// or error message.
#[verifier::external_body]
pub(crate) fn xml_tokens(text: &str) -> (r: Vec<XmlToken>)
    ensures
        spec_tokens(r@) == xml_rs_events(text@),
{
    xml::reader::EventReader::new(std::io::Cursor::new(text)).into_iter().map(|e| match e {
        Ok(xml::reader::XmlEvent::StartElement { name, .. }) => XmlToken::Start(name.local_name),
        Ok(xml::reader::XmlEvent::EndElement { name }) => XmlToken::End(name.local_name),
        Ok(xml::reader::XmlEvent::Characters(t)) => XmlToken::Text(t),
        Ok(xml::reader::XmlEvent::Whitespace(t)) => XmlToken::Whitespace(t),
        Ok(_) => XmlToken::Other,
        Err(e) => XmlToken::Error(e.to_string()),
    }).collect()
}

/// The message for an XML parse error.
pub open spec fn spec_xml_error(e: Seq<char>) -> Seq<char> {
    "XML error: "@ + e
}

fn xml_error(e: &String) -> (r: String)
    ensures
        r@ == spec_xml_error(e@),
{
    let mut s = String::new();
    string_push_str(&mut s, "XML error: ");
    string_push_str(&mut s, e.as_str());
    s
}

/// Reading the character data of a scalar element from event `i` on, after
/// the text `acc`: up to its end tag, which is consumed. A run of
/// whitespace is character data too.
pub open spec fn spec_content(ev: Seq<XmlTokenModel>, i: int, acc: Seq<char>) -> Result<(Seq<char>, int), Seq<char>>
    decreases ev.len() - i,
{
    if i < 0 || i >= ev.len() {
        Err("Unexpected end of XML"@)
    } else {
        match ev[i] {
            XmlTokenModel::Text(t) => spec_content(ev, i + 1, acc + t),
            XmlTokenModel::Whitespace(t) => spec_content(ev, i + 1, acc + t),
            XmlTokenModel::End(_) => Ok((acc, i + 1)),
            XmlTokenModel::Start(_) => Err("Unexpected nested element in scalar"@),
            XmlTokenModel::Other => spec_content(ev, i + 1, acc),
            XmlTokenModel::Error(e) => Err(spec_xml_error(e)),
        }
    }
}

/// Reads the character data of a scalar element from event `i` on.
fn xml_content(ev: &Vec<XmlToken>, i: usize) -> (r: Result<(String, usize), String>)
    ensures
        match spec_content(spec_tokens(ev@), i as int, Seq::empty()) {
            Ok((t, j)) => r is Ok && r->Ok_0.0@ == t && r->Ok_0.1 == j,
            Err(e) => r is Err && r->Err_0@ == e,
        },
{
    let ghost evm = spec_tokens(ev@);
    if i >= ev.len() {
        return Err("Unexpected end of XML".to_string());
    }
    let mut content = String::new();
    let mut k: usize = i;
    while k < ev.len()
        invariant
            i <= k <= ev@.len(),
            evm == spec_tokens(ev@),
            spec_content(evm, i as int, Seq::empty()) == spec_content(evm, k as int, content@),
        decreases ev@.len() - k,
    {
        assert(evm[k as int] == ev@[k as int]@);
        match &ev[k] {
            XmlToken::Text(t) => {
                string_push_str(&mut content, t.as_str());
            },
            XmlToken::Whitespace(t) => {
                string_push_str(&mut content, t.as_str());
            },
            XmlToken::End(_) => {
                return Ok((content, k + 1));
            },
            XmlToken::Start(_) => {
                return Err("Unexpected nested element in scalar".to_string());
            },
            XmlToken::Other => {},
            XmlToken::Error(e) => {
                return Err(xml_error(e));
            },
        }
        k = k + 1;
    }
    Err("Unexpected end of XML".to_string())
}


/// Whether `name` is the element of a scalar value.
pub open spec fn spec_is_scalar_name(name: Seq<char>) -> bool {
    ||| name == "undef"@
    ||| name == "boolean"@
    ||| name == "integer"@
    ||| name == "real"@
    ||| name == "uuid"@
    ||| name == "string"@
    ||| name == "binary"@
    ||| name == "date"@
    ||| name == "uri"@
}

/// The scalar an element named `name` with character data `s` holds.
/// Booleans, numbers, identifiers, binary data and dates are read from the
/// trimmed text, and an empty one gives that kind's zero value; strings and
/// URIs keep their text as it is.
pub open spec fn spec_scalar_from_text<G: Fn(&str) -> Option<u64>>(name: Seq<char>, s: Seq<char>, g: G) -> Result<OsdModel, Seq<char>> {
    let t = spec_trim(s);
    if name == "undef"@ {
        Ok(OsdModel::Undef)
    } else if name == "boolean"@ {
        Ok(OsdModel::Boolean(t == "1"@ || t == "true"@))
    } else if name == "integer"@ {
        if t.len() == 0 {
            Ok(OsdModel::Integer(0))
        } else {
            match spec_parse_i32(t) {
                Some(v) => Ok(OsdModel::Integer(v)),
                None => Err("Invalid integer"@),
            }
        }
    } else if name == "real"@ {
        if t.len() == 0 {
            Ok(OsdModel::Real(0))
        } else {
            match spec_real_value(g, t) {
                Some(b) => Ok(OsdModel::Real(b)),
                None => Err("Invalid real"@),
            }
        }
    } else if name == "uuid"@ {
        if t.len() == 0 {
            Ok(OsdModel::UUID(Seq::new(16, |k: int| 0u8)))
        } else {
            match uuid_parse_str(t) {
                Some(b) => Ok(OsdModel::UUID(b)),
                None => Err("Invalid UUID"@),
            }
        }
    } else if name == "string"@ {
        Ok(OsdModel::String(s))
    } else if name == "binary"@ {
        if t.len() == 0 {
            Ok(OsdModel::Binary(Seq::empty()))
        } else {
            match base64_standard_decode(t) {
                Some(b) => Ok(OsdModel::Binary(b)),
                None => Err("Invalid base64"@),
            }
        }
    } else if name == "date"@ {
        if t.len() == 0 {
            Ok(OsdModel::Date(MIN_DATE_SECS, 0))
        } else {
            match chrono_parse_utc(t) {
                Some(p) => Ok(OsdModel::Date(p.0, p.1)),
                None => Err("Invalid date"@),
            }
        }
    } else {
        Ok(OsdModel::Uri(s))
    }
}

/// The scalar an element named `name` with character data `s` holds.
fn xml_scalar<G: Fn(&str) -> Option<u64>>(name: &str, s: String, real_value: &G) -> (r: Result<OSD, String>)
    requires
        spec_is_scalar_name(name@),
        spec_real_reader(*real_value),
    ensures
        match spec_scalar_from_text(name@, s@, *real_value) {
            Ok(m) => r is Ok && r->Ok_0.model() == m,
            Err(e) => r is Err && r->Err_0@ == e,
        },
{
    let t = trim(s.as_str());
    let empty = str_chars(t.as_str()).len() == 0;
    if str_eq(name, "undef") {
        Ok(OSD::Undef)
    } else if str_eq(name, "boolean") {
        Ok(OSD::Boolean(str_eq(t.as_str(), "1") || str_eq(t.as_str(), "true")))
    } else if str_eq(name, "integer") {
        if empty {
            Ok(OSD::Integer(0))
        } else {
            match parse_i32(t.as_str()) {
                Some(v) => Ok(OSD::Integer(v)),
                None => Err("Invalid integer".to_string()),
            }
        }
    } else if str_eq(name, "real") {
        if empty {
            Ok(OSD::Real(0))
        } else {
            match read_real(real_value, t.as_str()) {
                Some(b) => Ok(OSD::Real(b)),
                None => Err("Invalid real".to_string()),
            }
        }
    } else if str_eq(name, "uuid") {
        if empty {
            Ok(OSD::UUID(UUID::default()))
        } else {
            match UUID::parse(t.as_str()) {
                Ok(u) => Ok(OSD::UUID(u)),
                Err(_) => Err("Invalid UUID".to_string()),
            }
        }
    } else if str_eq(name, "string") {
        Ok(OSD::String(s))
    } else if str_eq(name, "binary") {
        if empty {
            Ok(OSD::Binary(Vec::new()))
        } else {
            match base64_decode(t.as_str()) {
                Some(b) => Ok(OSD::Binary(b)),
                None => Err("Invalid base64".to_string()),
            }
        }
    } else if str_eq(name, "date") {
        if empty {
            Ok(OSD::Date(LlsdDate::min_utc()))
        } else {
            match LlsdDate::parse(t.as_str()) {
                Some(d) => Ok(OSD::Date(d)),
                None => Err("Invalid date".to_string()),
            }
        }
    } else {
        Ok(OSD::Uri(s))
    }
}

/// Reading the value of an element named `name` whose start tag came just
/// before event `i`. `fuel` bounds the nesting; twice the events left, plus
/// two, is enough.
pub open spec fn spec_xml_value<G: Fn(&str) -> Option<u64>>(name: Seq<char>, ev: Seq<XmlTokenModel>, i: int, fuel: nat, g: G) -> Result<(OsdModel, int), Seq<char>>
    decreases fuel,
{
    if fuel == 0 {
        Err("Unexpected end of XML"@)
    } else if name == "map"@ {
        spec_xml_map(ev, i, (fuel - 1) as nat, Seq::empty(), None, g)
    } else if name == "array"@ {
        spec_xml_array(ev, i, (fuel - 1) as nat, Seq::empty(), g)
    } else if spec_is_scalar_name(name) {
        match spec_content(ev, i, Seq::empty()) {
            Err(e) => Err(e),
            Ok((t, j)) => match spec_scalar_from_text(name, t, g) {
                Ok(m) => Ok((m, j)),
                Err(e) => Err(e),
            },
        }
    } else {
        Err("Unknown element: "@ + name)
    }
}

/// Reading the rest of a map from event `i`, after the entries `acc` and
/// with the key just read, if any.
pub open spec fn spec_xml_map<G: Fn(&str) -> Option<u64>>(ev: Seq<XmlTokenModel>, i: int, fuel: nat, acc: Seq<(Seq<char>, OsdModel)>, key: Option<Seq<char>>, g: G) -> Result<(OsdModel, int), Seq<char>>
    decreases fuel,
{
    if fuel == 0 || i < 0 || i >= ev.len() {
        Err("Unexpected end of XML in map"@)
    } else {
        match ev[i] {
            XmlTokenModel::Start(name) => if name == "key"@ {
                match spec_content(ev, i + 1, Seq::empty()) {
                    Err(e) => Err(e),
                    Ok((k, j)) => spec_xml_map(ev, j, (fuel - 1) as nat, acc, Some(k), g),
                }
            } else {
                match key {
                    Some(k) => match spec_xml_value(name, ev, i + 1, (fuel - 1) as nat, g) {
                        Err(e) => Err(e),
                        Ok((v, j)) => spec_xml_map(ev, j, (fuel - 1) as nat, spec_model_insert(acc, k, v), None, g),
                    },
                    None => Err("Value without key in map"@),
                }
            },
            XmlTokenModel::End(name) => if name == "map"@ {
                Ok((OsdModel::Dict(acc), i + 1))
            } else {
                spec_xml_map(ev, i + 1, (fuel - 1) as nat, acc, key, g)
            },
            XmlTokenModel::Error(e) => Err(spec_xml_error(e)),
            _ => spec_xml_map(ev, i + 1, (fuel - 1) as nat, acc, key, g),
        }
    }
}

/// Reading the rest of an array from event `i`, after the items `acc`.
pub open spec fn spec_xml_array<G: Fn(&str) -> Option<u64>>(ev: Seq<XmlTokenModel>, i: int, fuel: nat, acc: Seq<OsdModel>, g: G) -> Result<(OsdModel, int), Seq<char>>
    decreases fuel,
{
    if fuel == 0 || i < 0 || i >= ev.len() {
        Err("Unexpected end of XML in array"@)
    } else {
        match ev[i] {
            XmlTokenModel::Start(name) => match spec_xml_value(name, ev, i + 1, (fuel - 1) as nat, g) {
                Err(e) => Err(e),
                Ok((v, j)) => spec_xml_array(ev, j, (fuel - 1) as nat, acc.push(v), g),
            },
            XmlTokenModel::End(name) => if name == "array"@ {
                Ok((OsdModel::Array(acc), i + 1))
            } else {
                spec_xml_array(ev, i + 1, (fuel - 1) as nat, acc, g)
            },
            XmlTokenModel::Error(e) => Err(spec_xml_error(e)),
            _ => spec_xml_array(ev, i + 1, (fuel - 1) as nat, acc, g),
        }
    }
}

/// Reading the one value inside `<llsd>` from event `i`: the first element,
/// or undef when `<llsd>` closes first.
pub open spec fn spec_xml_element<G: Fn(&str) -> Option<u64>>(ev: Seq<XmlTokenModel>, i: int, g: G) -> Result<(OsdModel, int), Seq<char>>
    decreases ev.len() - i,
{
    if i < 0 || i >= ev.len() {
        Err("Unexpected end of XML"@)
    } else {
        match ev[i] {
            XmlTokenModel::Start(name) => spec_xml_value(name, ev, i + 1, (2 * ev.len() + 2) as nat, g),
            XmlTokenModel::End(_) => Ok((OsdModel::Undef, i + 1)),
            XmlTokenModel::Error(e) => Err(spec_xml_error(e)),
            _ => spec_xml_element(ev, i + 1, g),
        }
    }
}

/// The position after the `<llsd>` start tag.
pub open spec fn spec_find_llsd(ev: Seq<XmlTokenModel>, i: int) -> Result<int, Seq<char>>
    decreases ev.len() - i,
{
    if i < 0 || i >= ev.len() {
        Err("No llsd tag found"@)
    } else {
        match ev[i] {
            XmlTokenModel::Start(name) => if name == "llsd"@ {
                Ok(i + 1)
            } else {
                spec_find_llsd(ev, i + 1)
            },
            XmlTokenModel::Error(e) => Err(spec_xml_error(e)),
            _ => spec_find_llsd(ev, i + 1),
        }
    }
}

/// What an XML LLSD document reads as: the value inside its `<llsd>`
/// element. Reals are read by `g`.
pub open spec fn spec_parse_xml<G: Fn(&str) -> Option<u64>>(text: Seq<char>, g: G) -> Result<OsdModel, Seq<char>> {
    spec_parse_xml_events(xml_rs_events(text), g)
}

/// What a sequence of XML events reads as: the value inside the `<llsd>`
/// element, the first element there, or undef when there is none.
pub open spec fn spec_parse_xml_events<G: Fn(&str) -> Option<u64>>(ev: Seq<XmlTokenModel>, g: G) -> Result<OsdModel, Seq<char>> {
    match spec_find_llsd(ev, 0) {
        Err(e) => Err(e),
        Ok(i) => match spec_xml_element(ev, i, g) {
            Ok((m, _)) => Ok(m),
            Err(e) => Err(e),
        },
    }
}


/// Reads the value of an element named `name` whose start tag came just
/// before event `i`.
fn xml_value<G: Fn(&str) -> Option<u64>>(name: &str, ev: &Vec<XmlToken>, i: usize, Ghost(fuel): Ghost<nat>, real_value: &G) -> (r: Result<(OSD, usize), String>)
    requires
        i <= ev@.len(),
        fuel > 2 * (ev@.len() - i) + 1,
        spec_real_reader(*real_value),
    ensures
        match spec_xml_value(name@, spec_tokens(ev@), i as int, fuel, *real_value) {
            Ok((m, j)) => r is Ok && r->Ok_0.0.model() == m && r->Ok_0.1 == j,
            Err(e) => r is Err && r->Err_0@ == e,
        },
        r is Ok ==> i < r->Ok_0.1 <= ev@.len(),
    decreases fuel,
{
    if str_eq(name, "map") {
        xml_map(ev, i, Ghost((fuel - 1) as nat), real_value)
    } else if str_eq(name, "array") {
        xml_array(ev, i, Ghost((fuel - 1) as nat), real_value)
    } else if str_eq(name, "undef") || str_eq(name, "boolean") || str_eq(name, "integer") || str_eq(name, "real")
        || str_eq(name, "uuid") || str_eq(name, "string") || str_eq(name, "binary") || str_eq(name, "date")
        || str_eq(name, "uri") {
        match xml_content(ev, i) {
            Err(e) => Err(e),
            Ok((t, j)) => {
                proof {
                    lemma_content_advances(spec_tokens(ev@), i as int, Seq::empty());
                }
                match xml_scalar(name, t, real_value) {
                    Ok(m) => Ok((m, j)),
                    Err(e) => Err(e),
                }
            },
        }
    } else {
        let mut e = String::new();
        string_push_str(&mut e, "Unknown element: ");
        string_push_str(&mut e, name);
        Err(e)
    }
}

/// Reading character data ends past its start, within the events.
proof fn lemma_content_advances(ev: Seq<XmlTokenModel>, i: int, acc: Seq<char>)
    ensures
        spec_content(ev, i, acc) matches Ok((t, j)) ==> i < j <= ev.len(),
    decreases ev.len() - i,
{
    if 0 <= i < ev.len() {
        match ev[i] {
            XmlTokenModel::Text(t) => lemma_content_advances(ev, i + 1, acc + t),
            XmlTokenModel::Whitespace(t) => lemma_content_advances(ev, i + 1, acc + t),
            XmlTokenModel::Other => lemma_content_advances(ev, i + 1, acc),
            _ => {},
        }
    }
}

/// Reads the rest of a map from event `i`.
#[verifier::loop_isolation(false)]
fn xml_map<G: Fn(&str) -> Option<u64>>(ev: &Vec<XmlToken>, i: usize, Ghost(fuel): Ghost<nat>, real_value: &G) -> (r: Result<(OSD, usize), String>)
    requires
        i <= ev@.len(),
        fuel > 2 * (ev@.len() - i),
        spec_real_reader(*real_value),
    ensures
        match spec_xml_map(spec_tokens(ev@), i as int, fuel, Seq::empty(), None, *real_value) {
            Ok((m, j)) => r is Ok && r->Ok_0.0.model() == m && r->Ok_0.1 == j,
            Err(e) => r is Err && r->Err_0@ == e,
        },
        r is Ok ==> i < r->Ok_0.1 <= ev@.len(),
    decreases fuel,
{
    let ghost evm = spec_tokens(ev@);
    let mut map: OsdMap<OSD> = OsdMap::new();
    assert(spec_entry_models(map.spec_entries()) =~= Seq::<(Seq<char>, OsdModel)>::empty());
    let mut key: Option<String> = None;
    let mut k: usize = i;
    let ghost mut f: nat = fuel;
    loop
        invariant
            i <= k <= ev@.len(),
            f <= fuel,
            f > 2 * (ev@.len() - k),
            spec_xml_map(evm, i as int, fuel, Seq::empty(), None, *real_value) == spec_xml_map(
                evm,
                k as int,
                f,
                spec_entry_models(map.spec_entries()),
                match key {
                    Some(s) => Some(s@),
                    None => None,
                },
                *real_value,
            ),
        decreases ev@.len() - k,
    {
        if k >= ev.len() {
            return Err("Unexpected end of XML in map".to_string());
        }
        assert(evm[k as int] == ev@[k as int]@);
        match &ev[k] {
            XmlToken::Start(name) => {
                if str_eq(name.as_str(), "key") {
                    match xml_content(ev, k + 1) {
                        Err(e) => {
                            return Err(e);
                        },
                        Ok((kk, j)) => {
                            proof {
                                lemma_content_advances(evm, k + 1, Seq::empty());
                            }
                            key = Some(kk);
                            k = j;
                            proof {
                                f = (f - 1) as nat;
                            }
                        },
                    }
                } else {
                    match key.take() {
                        Some(kk) => {
                            match xml_value(name.as_str(), ev, k + 1, Ghost((f - 1) as nat), real_value) {
                                Err(e) => {
                                    return Err(e);
                                },
                                Ok((v, j)) => {
                                    let ghost before = map.spec_entries();
                                    let ghost gk = kk;
                                    let ghost gv = v;
                                    map.insert(kk, v);
                                    proof {
                                        crate::binary::lemma_entry_models_insert(before, gk, gv);
                                        f = (f - 1) as nat;
                                    }
                                    k = j;
                                },
                            }
                        },
                        None => {
                            return Err("Value without key in map".to_string());
                        },
                    }
                }
            },
            XmlToken::End(name) => {
                if str_eq(name.as_str(), "map") {
                    let ghost ms = spec_entry_models(map.spec_entries());
                    let result = OSD::Dict(map);
                    proof {
                        reveal(spec_entry_model);
                    }
                    assert(result.model()->Dict_0 =~= ms);
                    return Ok((result, k + 1));
                }
                k = k + 1;
                proof {
                    f = (f - 1) as nat;
                }
            },
            XmlToken::Error(e) => {
                return Err(xml_error(e));
            },
            _ => {
                k = k + 1;
                proof {
                    f = (f - 1) as nat;
                }
            },
        }
    }
}

/// Reads the rest of an array from event `i`.
#[verifier::loop_isolation(false)]
fn xml_array<G: Fn(&str) -> Option<u64>>(ev: &Vec<XmlToken>, i: usize, Ghost(fuel): Ghost<nat>, real_value: &G) -> (r: Result<(OSD, usize), String>)
    requires
        i <= ev@.len(),
        fuel > 2 * (ev@.len() - i),
        spec_real_reader(*real_value),
    ensures
        match spec_xml_array(spec_tokens(ev@), i as int, fuel, Seq::empty(), *real_value) {
            Ok((m, j)) => r is Ok && r->Ok_0.0.model() == m && r->Ok_0.1 == j,
            Err(e) => r is Err && r->Err_0@ == e,
        },
        r is Ok ==> i < r->Ok_0.1 <= ev@.len(),
    decreases fuel,
{
    let ghost evm = spec_tokens(ev@);
    let mut arr: Vec<OSD> = Vec::new();
    assert(spec_models(arr@) =~= Seq::<OsdModel>::empty());
    let mut k: usize = i;
    let ghost mut f: nat = fuel;
    loop
        invariant
            i <= k <= ev@.len(),
            f <= fuel,
            f > 2 * (ev@.len() - k),
            spec_xml_array(evm, i as int, fuel, Seq::empty(), *real_value) == spec_xml_array(
                evm,
                k as int,
                f,
                spec_models(arr@),
                *real_value,
            ),
        decreases ev@.len() - k,
    {
        if k >= ev.len() {
            return Err("Unexpected end of XML in array".to_string());
        }
        assert(evm[k as int] == ev@[k as int]@);
        match &ev[k] {
            XmlToken::Start(name) => {
                match xml_value(name.as_str(), ev, k + 1, Ghost((f - 1) as nat), real_value) {
                    Err(e) => {
                        return Err(e);
                    },
                    Ok((v, j)) => {
                        let ghost before = spec_models(arr@);
                        arr.push(v);
                        assert(spec_models(arr@) =~= before.push(v.model()));
                        proof {
                            f = (f - 1) as nat;
                        }
                        k = j;
                    },
                }
            },
            XmlToken::End(name) => {
                if str_eq(name.as_str(), "array") {
                    let ghost ms = spec_models(arr@);
                    let result = OSD::Array(arr);
                    assert(result.model()->Array_0 =~= ms);
                    return Ok((result, k + 1));
                }
                k = k + 1;
                proof {
                    f = (f - 1) as nat;
                }
            },
            XmlToken::Error(e) => {
                return Err(xml_error(e));
            },
            _ => {
                k = k + 1;
                proof {
                    f = (f - 1) as nat;
                }
            },
        }
    }
}

/// The position after the `<llsd>` start tag.
fn find_llsd(ev: &Vec<XmlToken>) -> (r: Result<usize, String>)
    ensures
        match spec_find_llsd(spec_tokens(ev@), 0) {
            Ok(j) => r is Ok && r->Ok_0 == j,
            Err(e) => r is Err && r->Err_0@ == e,
        },
        r is Ok ==> r->Ok_0 <= ev@.len(),
{
    let ghost evm = spec_tokens(ev@);
    let mut k: usize = 0;
    while k < ev.len()
        invariant
            k <= ev@.len(),
            evm == spec_tokens(ev@),
            spec_find_llsd(evm, 0) == spec_find_llsd(evm, k as int),
        decreases ev@.len() - k,
    {
        assert(evm[k as int] == ev@[k as int]@);
        match &ev[k] {
            XmlToken::Start(name) => {
                if str_eq(name.as_str(), "llsd") {
                    return Ok(k + 1);
                }
            },
            XmlToken::Error(e) => {
                return Err(xml_error(e));
            },
            _ => {},
        }
        k = k + 1;
    }
    Err("No llsd tag found".to_string())
}

/// Reads the one value inside `<llsd>` from event `i`.
fn xml_element<G: Fn(&str) -> Option<u64>>(ev: &Vec<XmlToken>, i: usize, real_value: &G) -> (r: Result<OSD, String>)
    requires
        i <= ev@.len(),
        spec_real_reader(*real_value),
    ensures
        match spec_xml_element(spec_tokens(ev@), i as int, *real_value) {
            Ok((m, _)) => r is Ok && r->Ok_0.model() == m,
            Err(e) => r is Err && r->Err_0@ == e,
        },
{
    let ghost evm = spec_tokens(ev@);
    let mut k: usize = i;
    while k < ev.len()
        invariant
            i <= k <= ev@.len(),
            evm == spec_tokens(ev@),
            spec_xml_element(evm, i as int, *real_value) == spec_xml_element(evm, k as int, *real_value),
            spec_real_reader(*real_value),
        decreases ev@.len() - k,
    {
        assert(evm[k as int] == ev@[k as int]@);
        match &ev[k] {
            XmlToken::Start(name) => {
                let fuel = Ghost((2 * ev@.len() + 2) as nat);
                return match xml_value(name.as_str(), ev, k + 1, fuel, real_value) {
                    Ok((v, _)) => Ok(v),
                    Err(e) => Err(e),
                };
            },
            XmlToken::End(_) => {
                return Ok(OSD::Undef);
            },
            XmlToken::Error(e) => {
                return Err(xml_error(e));
            },
            _ => {},
        }
        k = k + 1;
    }
    Err("Unexpected end of XML".to_string())
}

/// Reads an XML LLSD document: the value inside its `<llsd>` element, the
/// first element there, or undef when there is none. Reals are read by
/// `real_value`.
pub fn parse_xml<G: Fn(&str) -> Option<u64>>(xml_content: &str, real_value: &G) -> (r: Result<OSD, String>)
    requires
        spec_real_reader(*real_value),
    ensures
        match spec_parse_xml(xml_content@, *real_value) {
            Ok(m) => r is Ok && r->Ok_0.model() == m,
            Err(e) => r is Err && r->Err_0@ == e,
        },
{
    let ev = xml_tokens(xml_content);
    parse_xml_events(&ev, real_value)
}

/// Reads the LLSD value that a sequence of XML events stands for: the value
/// inside its `<llsd>` element, the first element there, or undef when there
/// is none. Reals are read by `real_value`.
pub fn parse_xml_events<G: Fn(&str) -> Option<u64>>(ev: &Vec<XmlToken>, real_value: &G) -> (r: Result<OSD, String>)
    requires
        spec_real_reader(*real_value),
    ensures
        match spec_parse_xml_events(spec_tokens(ev@), *real_value) {
            Ok(m) => r is Ok && r->Ok_0.model() == m,
            Err(e) => r is Err && r->Err_0@ == e,
        },
{
    match find_llsd(ev) {
        Err(e) => Err(e),
        Ok(k) => xml_element(ev, k, real_value),
    }
}

} // verus!
