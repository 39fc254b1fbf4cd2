//! The XML round trip, stated over the events `xml-rs` reads: when the
//! parser reads a written document as the events its markup stands for,
//! the document reads back as the value it was written for.

use crate::binary::{spec_model_insert, spec_model_key_index, spec_model_keys};
use crate::osd::{chrono_parse_utc, chrono_rfc3339, lemma_first_index, spec_real_text, spec_real_value, OsdModel};
use crate::text::{spec_int_decimal, spec_is_whitespace, spec_trim, spec_trim_end, spec_trim_start};
use crate::uuid::{spec_uuid_hyphenated, uuid_parse_str};
use crate::notation::spec_is_number_char;
use crate::notation_round_trip::{lemma_hex_lower_plain, lemma_int_decimal};
use crate::uuid::spec_hex_lower;
use crate::xml::{
    base64_standard_decode, base64_standard_encode, spec_content, spec_find_llsd, spec_is_scalar_name, spec_parse_xml, spec_parse_xml_events,
    spec_scalar_from_text, spec_xml, spec_xml_array, spec_xml_element, spec_xml_entries, spec_xml_items, spec_xml_map,
    spec_xml_value, xml_rs_events, XmlTokenModel,
};
use vstd::prelude::*;

verus! {

/// Whether `c` is white space as XML has it: space, tab, line feed or
/// carriage return.
pub open spec fn spec_is_xml_space(c: char) -> bool {
    c == ' ' || c == '\t' || c == '\n' || c == '\r'
}

/// The character-data event for `t`: a run of whitespace when every
/// character of it is white space, character data otherwise, and none for
/// empty text.
pub open spec fn spec_text_event(t: Seq<char>) -> Seq<XmlTokenModel> {
    if t.len() == 0 {
        Seq::empty()
    } else if forall|i: int| 0 <= i < t.len() ==> spec_is_xml_space(#[trigger] t[i]) {
        seq![XmlTokenModel::Whitespace(t)]
    } else {
        seq![XmlTokenModel::Text(t)]
    }
}

/// The events of an element named `name` holding the text `t`.
pub open spec fn spec_leaf_events(name: Seq<char>, t: Seq<char>) -> Seq<XmlTokenModel> {
    seq![XmlTokenModel::Start(name)] + spec_text_event(t) + seq![XmlTokenModel::End(name)]
}

/// The events the XML element of a value stands for: a start tag, the
/// character data (entities replaced), and an end tag, with the elements
/// of items and entries nested inside.
pub open spec fn spec_xml_events<F: Fn(u64) -> String>(m: OsdModel, f: F) -> Seq<XmlTokenModel>
    decreases m,
{
    match m {
        OsdModel::Boolean(b) => spec_leaf_events("boolean"@, if b { "1"@ } else { "0"@ }),
        OsdModel::Integer(v) => spec_leaf_events("integer"@, spec_int_decimal(v as int)),
        OsdModel::Real(bits) => spec_leaf_events("real"@, spec_real_text(f, bits)),
        OsdModel::String(s) => spec_leaf_events("string"@, s),
        OsdModel::UUID(u) => spec_leaf_events("uuid"@, spec_uuid_hyphenated(u)),
        OsdModel::Date(secs, nanos) => spec_leaf_events("date"@, chrono_rfc3339(secs, nanos)),
        OsdModel::Uri(s) => spec_leaf_events("uri"@, s),
        OsdModel::Binary(b) => spec_leaf_events("binary"@, base64_standard_encode(b)),
        OsdModel::Undef => spec_leaf_events("undef"@, Seq::empty()),
        OsdModel::Array(items) => seq![XmlTokenModel::Start("array"@)] + spec_xml_items_events(items, f) + seq![
            XmlTokenModel::End("array"@),
        ],
        OsdModel::Dict(entries) => seq![XmlTokenModel::Start("map"@)] + spec_xml_entries_events(entries, f) + seq![
            XmlTokenModel::End("map"@),
        ],
    }
}

/// The events of items, one after another.
pub open spec fn spec_xml_items_events<F: Fn(u64) -> String>(items: Seq<OsdModel>, f: F) -> Seq<XmlTokenModel>
    decreases items,
{
    if items.len() == 0 {
        Seq::empty()
    } else {
        spec_xml_items_events(items.subrange(0, items.len() - 1), f) + spec_xml_events(items[items.len() - 1], f)
    }
}

/// The events of map entries: each key element, then its value.
pub open spec fn spec_xml_entries_events<F: Fn(u64) -> String>(entries: Seq<(Seq<char>, OsdModel)>, f: F) -> Seq<XmlTokenModel>
    decreases entries,
{
    if entries.len() == 0 {
        Seq::empty()
    } else {
        spec_xml_entries_events(entries.subrange(0, entries.len() - 1), f) + spec_leaf_events(
            "key"@,
            entries[entries.len() - 1].0,
        ) + spec_xml_events(entries[entries.len() - 1].1, f)
    }
}

/// `ev` holds `t` from `i` on.
pub open spec fn spec_ev_holds(ev: Seq<XmlTokenModel>, i: int, t: Seq<XmlTokenModel>) -> bool {
    0 <= i && i + t.len() <= ev.len() && ev.subrange(i, i + t.len()) == t
}

proof fn lemma_ev_at(ev: Seq<XmlTokenModel>, i: int, t: Seq<XmlTokenModel>, k: int)
    requires
        spec_ev_holds(ev, i, t),
        0 <= k < t.len(),
    ensures
        ev[i + k] == t[k],
{
    assert(ev.subrange(i, i + t.len())[k] == ev[i + k]);
}

proof fn lemma_ev_split(ev: Seq<XmlTokenModel>, i: int, a: Seq<XmlTokenModel>, b: Seq<XmlTokenModel>)
    requires
        spec_ev_holds(ev, i, a + b),
    ensures
        spec_ev_holds(ev, i, a),
        spec_ev_holds(ev, i + a.len(), b),
{
    let w = ev.subrange(i, i + (a + b).len());
    assert(w == a + b);
    assert(ev.subrange(i, i + a.len()) =~= w.subrange(0, a.len() as int));
    assert(w.subrange(0, a.len() as int) =~= a);
    assert(ev.subrange(i + a.len(), i + a.len() + b.len()) =~= w.subrange(a.len() as int, w.len() as int));
    assert(w.subrange(a.len() as int, w.len() as int) =~= b);
}

/// The character data of a leaf element, after its start tag, reads as its
/// text, ending after the end tag.
proof fn lemma_leaf_content(ev: Seq<XmlTokenModel>, i: int, name: Seq<char>, t: Seq<char>)
    requires
        spec_ev_holds(ev, i, spec_text_event(t) + seq![XmlTokenModel::End(name)]),
    ensures
        spec_content(ev, i, Seq::empty()) == Ok::<(Seq<char>, int), Seq<char>>(
            (t, i + spec_text_event(t).len() + 1),
        ),
{
    let te = spec_text_event(t);
    lemma_ev_split(ev, i, te, seq![XmlTokenModel::End(name)]);
    lemma_ev_at(ev, i + te.len(), seq![XmlTokenModel::End(name)], 0);
    if t.len() > 0 {
        lemma_ev_at(ev, i, te, 0);
        assert(Seq::<char>::empty() + t =~= t);
        assert(spec_content(ev, i + 1, Seq::empty() + t) == Ok::<(Seq<char>, int), Seq<char>>((t, i + 2)));
    } else {
        assert(t =~= Seq::<char>::empty());
    }
}

/// Text with no whitespace at either end is its own trim.
proof fn lemma_trim_plain(t: Seq<char>)
    requires
        t.len() > 0,
        !spec_is_whitespace(t[0]),
        !spec_is_whitespace(t[t.len() - 1]),
    ensures
        spec_trim(t) == t,
{
    assert(spec_trim_start(t) == t);
    assert(t.last() == t[t.len() - 1]);
    assert(spec_trim_end(t) == t);
}

/// The lengths and first letters of the element names, which tell them
/// apart.
proof fn lemma_names()
    ensures
        "undef"@.len() == 5 && "undef"@[0] == 'u',
        "boolean"@.len() == 7 && "boolean"@[0] == 'b',
        "integer"@.len() == 7 && "integer"@[0] == 'i',
        "real"@.len() == 4 && "real"@[0] == 'r',
        "uuid"@.len() == 4 && "uuid"@[0] == 'u',
        "string"@.len() == 6 && "string"@[0] == 's',
        "binary"@.len() == 6 && "binary"@[0] == 'b',
        "date"@.len() == 4 && "date"@[0] == 'd',
        "uri"@.len() == 3 && "uri"@[0] == 'u',
        "map"@.len() == 3 && "map"@[0] == 'm',
        "array"@.len() == 5 && "array"@[0] == 'a',
        "key"@.len() == 3 && "key"@[0] == 'k',
        "llsd"@.len() == 4 && "llsd"@[0] == 'l',
        "1"@.len() == 1 && "1"@[0] == '1',
        "0"@.len() == 1 && "0"@[0] == '0',
        "true"@.len() == 4 && "true"@[0] == 't',
{
    reveal_strlit("undef");
    reveal_strlit("boolean");
    reveal_strlit("integer");
    reveal_strlit("real");
    reveal_strlit("uuid");
    reveal_strlit("string");
    reveal_strlit("binary");
    reveal_strlit("date");
    reveal_strlit("uri");
    reveal_strlit("map");
    reveal_strlit("array");
    reveal_strlit("key");
    reveal_strlit("llsd");
    reveal_strlit("1");
    reveal_strlit("0");
    reveal_strlit("true");
}

/// The element name of a scalar.
pub open spec fn spec_leaf_name(m: OsdModel) -> Seq<char> {
    match m {
        OsdModel::Boolean(_) => "boolean"@,
        OsdModel::Integer(_) => "integer"@,
        OsdModel::Real(_) => "real"@,
        OsdModel::String(_) => "string"@,
        OsdModel::UUID(_) => "uuid"@,
        OsdModel::Date(_, _) => "date"@,
        OsdModel::Uri(_) => "uri"@,
        OsdModel::Binary(_) => "binary"@,
        _ => "undef"@,
    }
}

/// The character data of a scalar's element.
pub open spec fn spec_leaf_text<F: Fn(u64) -> String>(m: OsdModel, f: F) -> Seq<char> {
    match m {
        OsdModel::Boolean(b) => if b { "1"@ } else { "0"@ },
        OsdModel::Integer(v) => spec_int_decimal(v as int),
        OsdModel::Real(bits) => spec_real_text(f, bits),
        OsdModel::String(s) => s,
        OsdModel::UUID(u) => spec_uuid_hyphenated(u),
        OsdModel::Date(secs, nanos) => chrono_rfc3339(secs, nanos),
        OsdModel::Uri(s) => s,
        OsdModel::Binary(b) => base64_standard_encode(b),
        _ => Seq::empty(),
    }
}

/// The scalars the XML form carries unchanged: reals whose trimmed text
/// `g` reads back, identifiers the `uuid` parser reads back, dates whose
/// trimmed RFC 3339 text `chrono` reads back, and binary data whose
/// trimmed base64 text decodes back (empty for no bytes).
pub open spec fn spec_xml_scalar_exact<F: Fn(u64) -> String, G: Fn(&str) -> Option<u64>>(m: OsdModel, f: F, g: G) -> bool {
    match m {
        OsdModel::Real(b) => spec_trim(spec_real_text(f, b)).len() > 0 && spec_real_value(g, spec_trim(spec_real_text(f, b)))
            == Some(b),
        OsdModel::UUID(u) => u.len() == 16 && uuid_parse_str(spec_uuid_hyphenated(u)) == Some(u),
        OsdModel::Date(secs, nanos) => spec_trim(chrono_rfc3339(secs, nanos)).len() > 0 && chrono_parse_utc(
            spec_trim(chrono_rfc3339(secs, nanos)),
        ) == Some((secs, nanos)),
        OsdModel::Binary(b) => if b.len() == 0 {
            spec_trim(base64_standard_encode(b)).len() == 0
        } else {
            spec_trim(base64_standard_encode(b)).len() > 0 && base64_standard_decode(spec_trim(base64_standard_encode(b)))
                == Some(b)
        },
        OsdModel::Array(_) => false,
        OsdModel::Dict(_) => false,
        _ => true,
    }
}

/// A scalar's text reads back, by its element's name, as the scalar.
proof fn lemma_scalar_text<F: Fn(u64) -> String, G: Fn(&str) -> Option<u64>>(m: OsdModel, f: F, g: G)
    requires
        spec_xml_scalar_exact(m, f, g),
    ensures
        spec_is_scalar_name(spec_leaf_name(m)),
        spec_leaf_name(m) != "map"@ && spec_leaf_name(m) != "array"@,
        spec_scalar_from_text(spec_leaf_name(m), spec_leaf_text(m, f), g) == Ok::<OsdModel, Seq<char>>(m),
{
    lemma_names();
    let t = spec_leaf_text(m, f);
    match m {
        OsdModel::Boolean(b) => {
            reveal_strlit("1");
            reveal_strlit("0");
            assert(spec_trim(t) == t);
            assert(spec_scalar_from_text(spec_leaf_name(m), t, g) == Ok::<OsdModel, Seq<char>>(m));
        },
        OsdModel::Integer(v) => {
            lemma_int_decimal(v);
            assert(!spec_is_whitespace(t[0]) && spec_is_number_char(t[0]));
            assert(spec_is_number_char(t[t.len() - 1]));
            lemma_trim_plain(t);
            assert(spec_scalar_from_text(spec_leaf_name(m), t, g) == Ok::<OsdModel, Seq<char>>(m));
        },
        OsdModel::UUID(u) => {
            lemma_hex_lower_plain(u.subrange(0, 4));
            lemma_hex_lower_plain(u.subrange(10, 16));
            let a = spec_hex_lower(u.subrange(0, 4));
            let e = spec_hex_lower(u.subrange(10, 16));
            assert(t =~= a + seq!['-'] + spec_hex_lower(u.subrange(4, 6)) + seq!['-'] + spec_hex_lower(u.subrange(6, 8))
                + seq!['-'] + spec_hex_lower(u.subrange(8, 10)) + seq!['-'] + e);
            assert(t[0] == a[0]);
            assert(t[t.len() - 1] == e[e.len() - 1]);
            lemma_trim_plain(t);
            assert(spec_scalar_from_text(spec_leaf_name(m), t, g) == Ok::<OsdModel, Seq<char>>(m));
        },
        OsdModel::Real(_) => {
            assert(spec_scalar_from_text(spec_leaf_name(m), t, g) == Ok::<OsdModel, Seq<char>>(m));
        },
        OsdModel::String(_) => {
            assert(spec_scalar_from_text(spec_leaf_name(m), t, g) == Ok::<OsdModel, Seq<char>>(m));
        },
        OsdModel::Uri(_) => {
            assert(spec_scalar_from_text(spec_leaf_name(m), t, g) == Ok::<OsdModel, Seq<char>>(m));
        },
        OsdModel::Date(_, _) => {
            assert(spec_scalar_from_text(spec_leaf_name(m), t, g) == Ok::<OsdModel, Seq<char>>(m));
        },
        OsdModel::Binary(bytes) => {
            if bytes.len() == 0 {
                assert(bytes =~= Seq::<u8>::empty());
            }
            assert(spec_scalar_from_text(spec_leaf_name(m), t, g) == Ok::<OsdModel, Seq<char>>(m));
        },
        OsdModel::Undef => {
            assert(spec_scalar_from_text(spec_leaf_name(m), t, g) == Ok::<OsdModel, Seq<char>>(m));
        },
        _ => {},
    }
}

/// The values the XML form carries unchanged: scalars as
/// `spec_xml_scalar_exact` says, arrays of such values, and maps of such
/// values without repeated keys.
pub open spec fn spec_xml_exact<F: Fn(u64) -> String, G: Fn(&str) -> Option<u64>>(m: OsdModel, f: F, g: G) -> bool
    decreases m,
{
    match m {
        OsdModel::Array(items) => forall|i: int| 0 <= i < items.len() ==> spec_xml_exact(#[trigger] items[i], f, g),
        OsdModel::Dict(entries) => {
            &&& forall|i: int, j: int| 0 <= i < j < entries.len() ==> (#[trigger] entries[i]).0 != (#[trigger] entries[j]).0
            &&& forall|i: int| 0 <= i < entries.len() ==> spec_xml_exact((#[trigger] entries[i]).1, f, g)
        },
        _ => spec_xml_scalar_exact(m, f, g),
    }
}

/// The name of a value's element.
pub open spec fn spec_element_name(m: OsdModel) -> Seq<char> {
    match m {
        OsdModel::Array(_) => "array"@,
        OsdModel::Dict(_) => "map"@,
        _ => spec_leaf_name(m),
    }
}

/// A value's events open with its element's start tag; there are at least
/// two of them, and the name is not that of a key.
proof fn lemma_events_shape<F: Fn(u64) -> String>(m: OsdModel, f: F)
    ensures
        spec_xml_events(m, f).len() >= 2,
        spec_xml_events(m, f)[0] == XmlTokenModel::Start(spec_element_name(m)),
        spec_element_name(m) != "key"@,
{
    lemma_names();
    match m {
        OsdModel::Array(items) => {},
        OsdModel::Dict(entries) => {},
        _ => {
            assert(spec_xml_events(m, f) == spec_leaf_events(spec_leaf_name(m), spec_leaf_text(m, f)));
        },
    }
}

proof fn lemma_items_events_concat<F: Fn(u64) -> String>(a: Seq<OsdModel>, b: Seq<OsdModel>, f: F)
    ensures
        spec_xml_items_events(a + b, f) == spec_xml_items_events(a, f) + spec_xml_items_events(b, f),
    decreases b.len(),
{
    if b.len() == 0 {
        assert(a + b =~= a);
        assert(spec_xml_items_events(a, f) + Seq::<XmlTokenModel>::empty() =~= spec_xml_items_events(a, f));
    } else {
        let ab = a + b;
        assert(ab.subrange(0, ab.len() - 1) =~= a + b.subrange(0, b.len() - 1));
        assert(ab[ab.len() - 1] == b[b.len() - 1]);
        lemma_items_events_concat(a, b.subrange(0, b.len() - 1), f);
    }
}

proof fn lemma_entries_events_concat<F: Fn(u64) -> String>(a: Seq<(Seq<char>, OsdModel)>, b: Seq<(Seq<char>, OsdModel)>, f: F)
    ensures
        spec_xml_entries_events(a + b, f) == spec_xml_entries_events(a, f) + spec_xml_entries_events(b, f),
    decreases b.len(),
{
    if b.len() == 0 {
        assert(a + b =~= a);
        assert(spec_xml_entries_events(a, f) + Seq::<XmlTokenModel>::empty() =~= spec_xml_entries_events(a, f));
    } else {
        let ab = a + b;
        assert(ab.subrange(0, ab.len() - 1) =~= a + b.subrange(0, b.len() - 1));
        assert(ab[ab.len() - 1] == b[b.len() - 1]);
        lemma_entries_events_concat(a, b.subrange(0, b.len() - 1), f);
    }
}

/// The events of the items from `k` on: those of item `k`, then the rest.
proof fn lemma_items_events_front<F: Fn(u64) -> String>(items: Seq<OsdModel>, k: int, f: F)
    requires
        0 <= k < items.len(),
    ensures
        spec_xml_items_events(items.subrange(k, items.len() as int), f) == spec_xml_events(items[k], f)
            + spec_xml_items_events(items.subrange(k + 1, items.len() as int), f),
{
    let tail = items.subrange(k + 1, items.len() as int);
    assert(items.subrange(k, items.len() as int) =~= seq![items[k]] + tail);
    lemma_items_events_concat(seq![items[k]], tail, f);
    assert(seq![items[k]].subrange(0, 0) =~= Seq::<OsdModel>::empty());
    let one = seq![items[k]];
    assert(spec_xml_items_events(one, f) == spec_xml_items_events(one.subrange(0, 0), f) + spec_xml_events(one[0], f));
    assert(spec_xml_items_events(Seq::<OsdModel>::empty(), f) == Seq::<XmlTokenModel>::empty());
    assert(spec_xml_items_events(one, f) =~= spec_xml_events(items[k], f));
}

/// The events of the entries from `k` on: the key element of entry `k`,
/// its value, then the rest.
proof fn lemma_entries_events_front<F: Fn(u64) -> String>(entries: Seq<(Seq<char>, OsdModel)>, k: int, f: F)
    requires
        0 <= k < entries.len(),
    ensures
        spec_xml_entries_events(entries.subrange(k, entries.len() as int), f) == spec_leaf_events("key"@, entries[k].0)
            + spec_xml_events(entries[k].1, f) + spec_xml_entries_events(entries.subrange(k + 1, entries.len() as int), f),
{
    let tail = entries.subrange(k + 1, entries.len() as int);
    assert(entries.subrange(k, entries.len() as int) =~= seq![entries[k]] + tail);
    lemma_entries_events_concat(seq![entries[k]], tail, f);
    assert(seq![entries[k]].subrange(0, 0) =~= Seq::<(Seq<char>, OsdModel)>::empty());
    let one = seq![entries[k]];
    assert(spec_xml_entries_events(one, f) == spec_xml_entries_events(one.subrange(0, 0), f) + spec_leaf_events(
        "key"@,
        one[0].0,
    ) + spec_xml_events(one[0].1, f));
    assert(spec_xml_entries_events(Seq::<(Seq<char>, OsdModel)>::empty(), f) == Seq::<XmlTokenModel>::empty());
    assert(spec_xml_entries_events(seq![entries[k]], f) =~= spec_leaf_events("key"@, entries[k].0) + spec_xml_events(
        entries[k].1,
        f,
    ));
}

/// The events after a value's start tag, from `i` on, read as the value,
/// ending after its end tag, given two units of fuel per event.
proof fn lemma_xml_value_read<F: Fn(u64) -> String, G: Fn(&str) -> Option<u64>>(
    m: OsdModel,
    f: F,
    g: G,
    ev: Seq<XmlTokenModel>,
    i: int,
    fuel: nat,
)
    requires
        spec_xml_exact(m, f, g),
        spec_ev_holds(ev, i, spec_xml_events(m, f).drop_first()),
        fuel >= 2 * spec_xml_events(m, f).len(),
    ensures
        spec_xml_value(spec_element_name(m), ev, i, fuel, g) == Ok::<(OsdModel, int), Seq<char>>(
            (m, i + spec_xml_events(m, f).len() - 1),
        ),
    decreases m, 0nat,
{
    lemma_names();
    let e = spec_xml_events(m, f);
    match m {
        OsdModel::Array(items) => {
            lemma_array_read(items, f, g, ev, i, fuel);
        },
        OsdModel::Dict(entries) => {
            lemma_map_read(entries, f, g, ev, i, fuel);
        },
        _ => {
            let name = spec_leaf_name(m);
            let t = spec_leaf_text(m, f);
            assert(e == spec_leaf_events(name, t));
            assert(e.drop_first() =~= spec_text_event(t) + seq![XmlTokenModel::End(name)]);
            lemma_leaf_content(ev, i, name, t);
            lemma_scalar_text(m, f, g);
        },
    }
}

proof fn lemma_array_read<F: Fn(u64) -> String, G: Fn(&str) -> Option<u64>>(
    items: Seq<OsdModel>,
    f: F,
    g: G,
    ev: Seq<XmlTokenModel>,
    i: int,
    fuel: nat,
)
    requires
        spec_xml_exact(OsdModel::Array(items), f, g),
        spec_ev_holds(ev, i, spec_xml_events(OsdModel::Array(items), f).drop_first()),
        fuel >= 2 * spec_xml_events(OsdModel::Array(items), f).len(),
    ensures
        spec_xml_value("array"@, ev, i, fuel, g) == Ok::<(OsdModel, int), Seq<char>>(
            (OsdModel::Array(items), i + spec_xml_events(OsdModel::Array(items), f).len() - 1),
        ),
    decreases items, items.len() + 1,
{
    lemma_names();
    let body = spec_xml_items_events(items, f);
    let e = spec_xml_events(OsdModel::Array(items), f);
    assert(e.drop_first() =~= body + seq![XmlTokenModel::End("array"@)]);
    assert(items.subrange(0, items.len() as int) =~= items);
    assert(items.subrange(0, 0) =~= Seq::<OsdModel>::empty());
    lemma_items_read(items, 0, f, g, ev, i, (fuel - 1) as nat);
}

proof fn lemma_map_read<F: Fn(u64) -> String, G: Fn(&str) -> Option<u64>>(
    entries: Seq<(Seq<char>, OsdModel)>,
    f: F,
    g: G,
    ev: Seq<XmlTokenModel>,
    i: int,
    fuel: nat,
)
    requires
        spec_xml_exact(OsdModel::Dict(entries), f, g),
        spec_ev_holds(ev, i, spec_xml_events(OsdModel::Dict(entries), f).drop_first()),
        fuel >= 2 * spec_xml_events(OsdModel::Dict(entries), f).len(),
    ensures
        spec_xml_value("map"@, ev, i, fuel, g) == Ok::<(OsdModel, int), Seq<char>>(
            (OsdModel::Dict(entries), i + spec_xml_events(OsdModel::Dict(entries), f).len() - 1),
        ),
    decreases entries, entries.len() + 1,
{
    lemma_names();
    let body = spec_xml_entries_events(entries, f);
    let e = spec_xml_events(OsdModel::Dict(entries), f);
    assert(e.drop_first() =~= body + seq![XmlTokenModel::End("map"@)]);
    assert(entries.subrange(0, entries.len() as int) =~= entries);
    assert(entries.subrange(0, 0) =~= Seq::<(Seq<char>, OsdModel)>::empty());
    lemma_entries_read(entries, 0, f, g, ev, i, (fuel - 1) as nat);
}

/// The events of the items from `k` on, closed by the array's end tag,
/// read after the items before `k` as all the items.
proof fn lemma_items_read<F: Fn(u64) -> String, G: Fn(&str) -> Option<u64>>(
    items: Seq<OsdModel>,
    k: int,
    f: F,
    g: G,
    ev: Seq<XmlTokenModel>,
    i: int,
    fuel: nat,
)
    requires
        0 <= k <= items.len(),
        forall|j: int| 0 <= j < items.len() ==> spec_xml_exact(#[trigger] items[j], f, g),
        spec_ev_holds(ev, i, spec_xml_items_events(items.subrange(k, items.len() as int), f) + seq![XmlTokenModel::End("array"@)]),
        fuel >= 2 * spec_xml_items_events(items.subrange(k, items.len() as int), f).len() + 1,
    ensures
        spec_xml_array(ev, i, fuel, items.subrange(0, k), g) == Ok::<(OsdModel, int), Seq<char>>(
            (OsdModel::Array(items), i + spec_xml_items_events(items.subrange(k, items.len() as int), f).len() + 1),
        ),
    decreases items, items.len() - k,
{
    lemma_names();
    let rest = spec_xml_items_events(items.subrange(k, items.len() as int), f);
    if k == items.len() {
        assert(items.subrange(k, items.len() as int) =~= Seq::<OsdModel>::empty());
        assert(rest.len() == 0);
        lemma_ev_at(ev, i, rest + seq![XmlTokenModel::End("array"@)], 0);
        assert(items.subrange(0, k) =~= items);
    } else {
        let x = items[k];
        let ex = spec_xml_events(x, f);
        let tail = spec_xml_items_events(items.subrange(k + 1, items.len() as int), f);
        lemma_items_events_front(items, k, f);
        lemma_events_shape(x, f);
        assert(rest + seq![XmlTokenModel::End("array"@)] =~= ex + (tail + seq![XmlTokenModel::End("array"@)]));
        lemma_ev_split(ev, i, ex, tail + seq![XmlTokenModel::End("array"@)]);
        lemma_ev_at(ev, i, ex, 0);
        assert(ex =~= seq![ex[0]] + ex.drop_first());
        lemma_ev_split(ev, i, seq![ex[0]], ex.drop_first());
        lemma_xml_value_read(x, f, g, ev, i + 1, (fuel - 1) as nat);
        assert(items.subrange(0, k).push(x) =~= items.subrange(0, k + 1));
        lemma_items_read(items, k + 1, f, g, ev, i + ex.len(), (fuel - 1) as nat);
    }
}

/// The events of the entries from `k` on, closed by the map's end tag,
/// read into the entries before `k` as all the entries.
proof fn lemma_entries_read<F: Fn(u64) -> String, G: Fn(&str) -> Option<u64>>(
    entries: Seq<(Seq<char>, OsdModel)>,
    k: int,
    f: F,
    g: G,
    ev: Seq<XmlTokenModel>,
    i: int,
    fuel: nat,
)
    requires
        0 <= k <= entries.len(),
        forall|a: int, b: int| 0 <= a < b < entries.len() ==> (#[trigger] entries[a]).0 != (#[trigger] entries[b]).0,
        forall|j: int| 0 <= j < entries.len() ==> spec_xml_exact((#[trigger] entries[j]).1, f, g),
        spec_ev_holds(ev, i, spec_xml_entries_events(entries.subrange(k, entries.len() as int), f) + seq![XmlTokenModel::End("map"@)]),
        fuel >= 2 * spec_xml_entries_events(entries.subrange(k, entries.len() as int), f).len() + 1,
    ensures
        spec_xml_map(ev, i, fuel, entries.subrange(0, k), None, g) == Ok::<(OsdModel, int), Seq<char>>(
            (OsdModel::Dict(entries), i + spec_xml_entries_events(entries.subrange(k, entries.len() as int), f).len() + 1),
        ),
    decreases entries, entries.len() - k,
{
    lemma_names();
    let rest = spec_xml_entries_events(entries.subrange(k, entries.len() as int), f);
    if k == entries.len() {
        assert(entries.subrange(k, entries.len() as int) =~= Seq::<(Seq<char>, OsdModel)>::empty());
        assert(rest.len() == 0);
        lemma_ev_at(ev, i, rest + seq![XmlTokenModel::End("map"@)], 0);
        assert(entries.subrange(0, k) =~= entries);
    } else {
        let x = entries[k];
        let ke = spec_leaf_events("key"@, x.0);
        let ve = spec_xml_events(x.1, f);
        let tail = spec_xml_entries_events(entries.subrange(k + 1, entries.len() as int), f);
        lemma_entries_events_front(entries, k, f);
        lemma_events_shape(x.1, f);
        assert(rest + seq![XmlTokenModel::End("map"@)] =~= ke + (ve + (tail + seq![XmlTokenModel::End("map"@)])));
        lemma_ev_split(ev, i, ke, ve + (tail + seq![XmlTokenModel::End("map"@)]));
        lemma_ev_split(ev, i + ke.len(), ve, tail + seq![XmlTokenModel::End("map"@)]);
        // The key element.
        lemma_ev_at(ev, i, ke, 0);
        assert(ke =~= seq![XmlTokenModel::Start("key"@)] + (spec_text_event(x.0) + seq![XmlTokenModel::End("key"@)]));
        lemma_ev_split(ev, i, seq![XmlTokenModel::Start("key"@)], spec_text_event(x.0) + seq![XmlTokenModel::End("key"@)]);
        lemma_leaf_content(ev, i + 1, "key"@, x.0);
        let j = i + ke.len();
        // The value element.
        lemma_ev_at(ev, j, ve, 0);
        assert(ve =~= seq![ve[0]] + ve.drop_first());
        lemma_ev_split(ev, j, seq![ve[0]], ve.drop_first());
        lemma_xml_value_read(x.1, f, g, ev, j + 1, (fuel - 2) as nat);
        // The entry joins those before it.
        let acc = entries.subrange(0, k);
        lemma_first_index(spec_model_keys(acc), x.0);
        if spec_model_key_index(acc, x.0) is Some {
            let a = spec_model_key_index(acc, x.0)->0;
            assert(spec_model_keys(acc)[a] == acc[a].0);
            assert(entries[a].0 != entries[k].0);
        }
        assert(spec_model_insert(acc, x.0, x.1) =~= entries.subrange(0, k + 1));
        lemma_entries_read(entries, k + 1, f, g, ev, j + ve.len(), (fuel - 2) as nat);
        assert(spec_xml_map(ev, j, (fuel - 1) as nat, acc, Some(x.0), g) == Ok::<(OsdModel, int), Seq<char>>(
            (OsdModel::Dict(entries), i + rest.len() + 1),
        ));
    }
}

/// The events a conforming XML parser reads from the document written for
/// `m`: the start of the document, the `<llsd>` element around the value's
/// element, and the end of the document.
pub open spec fn spec_document_events<F: Fn(u64) -> String>(m: OsdModel, f: F) -> Seq<XmlTokenModel> {
    seq![XmlTokenModel::Other, XmlTokenModel::Start("llsd"@)] + spec_xml_events(m, f) + seq![
        XmlTokenModel::End("llsd"@),
        XmlTokenModel::Other,
    ]
}

/// XML round trip over events: the events that the document written for a
/// value (its reals written by `f`) stands for read back (reals read by
/// `g`) as that value, for every value the XML form carries unchanged.
pub proof fn lemma_xml_events_round_trip<F: Fn(u64) -> String, G: Fn(&str) -> Option<u64>>(m: OsdModel, f: F, g: G)
    requires
        spec_xml_exact(m, f, g),
    ensures
        spec_parse_xml_events(spec_document_events(m, f), g) == Ok::<OsdModel, Seq<char>>(m),
{
    lemma_names();
    let ev = spec_document_events(m, f);
    let e = spec_xml_events(m, f);
    lemma_events_shape(m, f);
    assert(ev[0] == XmlTokenModel::Other);
    assert(ev[1] == XmlTokenModel::Start("llsd"@));
    assert(spec_find_llsd(ev, 1) == Ok::<int, Seq<char>>(2));
    assert(spec_find_llsd(ev, 0) == Ok::<int, Seq<char>>(2));
    assert(ev[2] == e[0]);
    assert(ev.subrange(3, 3 + e.len() - 1) =~= e.drop_first());
    lemma_xml_value_read(m, f, g, ev, 3, (2 * ev.len() + 2) as nat);
    assert(spec_xml_element(ev, 2, g) == Ok::<(OsdModel, int), Seq<char>>((m, 2 + e.len() as int)));
}

/// XML round trip: when `xml-rs` reads the document written for a value
/// (its reals written by `f`) as the events its markup stands for, the
/// document reads back (reals read by `g`) as that value, for every value
/// the XML form carries unchanged.
pub proof fn lemma_xml_round_trip<F: Fn(u64) -> String, G: Fn(&str) -> Option<u64>>(m: OsdModel, f: F, g: G)
    requires
        spec_xml_exact(m, f, g),
        xml_rs_events("<llsd>"@ + spec_xml(m, f) + "</llsd>"@) == spec_document_events(m, f),
    ensures
        spec_parse_xml("<llsd>"@ + spec_xml(m, f) + "</llsd>"@, g) == Ok::<OsdModel, Seq<char>>(m),
{
    lemma_xml_events_round_trip(m, f, g);
}

/// Law: an LLSD XML `<boolean>` element reads as true exactly when its
/// character data, trimmed, is `1` or `true`; any other text, `false`, `0`
/// and empty text among them, reads as false. Reading ends where the
/// element's character data ends.
pub proof fn lemma_xml_boolean_text<G: Fn(&str) -> Option<u64>>(ev: Seq<XmlTokenModel>, i: int, fuel: nat, g: G, s: Seq<char>, j: int)
    requires
        fuel > 0,
        spec_content(ev, i, Seq::empty()) == Ok::<(Seq<char>, int), Seq<char>>((s, j)),
    ensures
        (spec_trim(s) == "1"@ || spec_trim(s) == "true"@) ==> spec_xml_value("boolean"@, ev, i, fuel, g)
            == Ok::<(OsdModel, int), Seq<char>>((OsdModel::Boolean(true), j)),
        !(spec_trim(s) == "1"@ || spec_trim(s) == "true"@) ==> spec_xml_value("boolean"@, ev, i, fuel, g)
            == Ok::<(OsdModel, int), Seq<char>>((OsdModel::Boolean(false), j)),
{
    lemma_names();
}

} // verus!
