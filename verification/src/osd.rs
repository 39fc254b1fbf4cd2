//! LLSD values: the structured-data model shared by the binary, notation and
//! XML serializations.

use crate::realbits::{
    f64_bits_as_i32, i32_to_f64_bits, lemma_i32_f64_round_trip, spec_f64_as_i32, spec_int_to_f64_bits,
};
use crate::text::{
    i32_to_string, parse_i32, spec_int_decimal, spec_parse_i32, str_chars, str_eq,
};
use crate::uuid::{spec_uuid_hyphenated, uuid_parse_str, UUID};
use chrono::TimeZone;
use vstd::prelude::*;

verus! {

/// Whether `chrono` accepts `secs` seconds and `nanos` nanoseconds since the
/// Unix epoch as an instant (`Utc.timestamp_opt(secs, nanos)` is `Single`).
pub uninterp spec fn chrono_instant_valid(secs: i64, nanos: u32) -> bool;

/// The RFC 3339 text `chrono` writes for a valid instant.
pub uninterp spec fn chrono_rfc3339(secs: i64, nanos: u32) -> Seq<char>;

/// The earliest instant `chrono` represents, -262143-01-01T00:00:00Z, in
/// seconds since the epoch.
pub const MIN_DATE_SECS: i64 = -8334601315200;

/// The latest whole second `chrono` represents, +262142-12-31T23:59:59Z.
pub const MAX_DATE_SECS: i64 = 8210266876799;

/// `Utc.timestamp_opt(secs, nanos).single().is_some()`. An accepted instant
/// lies between the earliest and the latest date, with fewer than two
/// seconds of nanoseconds (the second one only in a leap second); for a
/// whole second every second in that range is accepted.
#[verifier::external_body]
fn chrono_timestamp_valid(secs: i64, nanos: u32) -> (r: bool)
    ensures
        r == chrono_instant_valid(secs, nanos),
        r ==> MIN_DATE_SECS <= secs <= MAX_DATE_SECS && nanos < 2000000000,
        nanos == 0 ==> (r <==> MIN_DATE_SECS <= secs <= MAX_DATE_SECS),
{
    chrono::Utc.timestamp_opt(secs, nanos).single().is_some()
}

/// `DateTime::<Utc>::to_rfc3339` of a valid instant.
#[verifier::external_body]
fn chrono_to_rfc3339(secs: i64, nanos: u32) -> (r: String)
    requires
        chrono_instant_valid(secs, nanos),
    ensures
        r@ == chrono_rfc3339(secs, nanos),
{
    chrono::Utc.timestamp_opt(secs, nanos).unwrap().to_rfc3339()
}

/// The instant `str::parse::<DateTime<Utc>>` reads from a text, as seconds
/// since the epoch and nanoseconds, or `None` when it rejects the text.
pub uninterp spec fn chrono_parse_utc(s: Seq<char>) -> Option<(i64, u32)>;

/// An instant `chrono` represents, as seconds and nanoseconds.
pub open spec fn spec_representable(p: (i64, u32)) -> bool {
    &&& chrono_instant_valid(p.0, p.1)
    &&& MIN_DATE_SECS <= p.0 <= MAX_DATE_SECS
    &&& p.1 < 2000000000
}

/// `str::parse::<DateTime<Utc>>`, giving the instant's seconds and
/// nanoseconds. A parsed instant is one `chrono` represents.
#[verifier::external_body]
fn chrono_parse_instant(s: &str) -> (r: Option<(i64, u32)>)
    ensures
        r == chrono_parse_utc(s@),
        r is Some ==> spec_representable(r->0),
{
    match s.parse::<chrono::DateTime<chrono::Utc>>() {
        Ok(d) => Some((d.timestamp(), d.timestamp_subsec_nanos())),
        Err(_) => None,
    }
}

/// An instant, held as `chrono`'s `DateTime<Utc>` holds it: seconds since the
/// Unix epoch and nanoseconds within the second.
#[derive(Clone, Copy, PartialEq, Eq, Debug)]
pub struct LlsdDate {
    secs: i64,
    nanos: u32,
}

impl LlsdDate {
    /// Only instants `chrono` can represent are held.
    #[verifier::type_invariant]
    spec fn wf(self) -> bool {
        &&& chrono_instant_valid(self.secs, self.nanos)
        &&& MIN_DATE_SECS <= self.secs <= MAX_DATE_SECS
        &&& self.nanos < 2000000000
    }

    pub closed spec fn spec_secs(self) -> i64 {
        self.secs
    }

    pub closed spec fn spec_nanos(self) -> u32 {
        self.nanos
    }

    /// The instant `secs` seconds and `nanos` nanoseconds after the epoch,
    /// when `chrono` can represent it.
    pub fn from_timestamp(secs: i64, nanos: u32) -> (r: Option<LlsdDate>)
        ensures
            r is Some <==> chrono_instant_valid(secs, nanos),
            r matches Some(d) ==> d.spec_secs() == secs && d.spec_nanos() == nanos,
    {
        if chrono_timestamp_valid(secs, nanos) {
            Some(LlsdDate { secs, nanos })
        } else {
            None
        }
    }

    /// The instant a text spells, as `str::parse::<DateTime<Utc>>` reads it.
    pub fn parse(s: &str) -> (r: Option<LlsdDate>)
        ensures
            match chrono_parse_utc(s@) {
                Some(p) => r is Some && r->0.spec_secs() == p.0 && r->0.spec_nanos() == p.1,
                None => r is None,
            },
    {
        match chrono_parse_instant(s) {
            Some((secs, nanos)) => Some(LlsdDate { secs, nanos }),
            None => None,
        }
    }

    /// The earliest instant, `DateTime::<Utc>::MIN_UTC`.
    pub fn min_utc() -> (r: LlsdDate)
        ensures
            r.spec_secs() == MIN_DATE_SECS,
            r.spec_nanos() == 0,
    {
        let ok = chrono_timestamp_valid(MIN_DATE_SECS, 0);
        assert(ok);
        LlsdDate { secs: MIN_DATE_SECS, nanos: 0 }
    }

    /// Seconds since the epoch.
    pub fn secs(&self) -> (r: i64)
        ensures
            r == self.spec_secs(),
    {
        self.secs
    }

    /// Microseconds since the epoch, `DateTime::timestamp_micros`: the
    /// seconds times a million plus the whole microseconds of the second.
    pub fn timestamp_micros(&self) -> (r: i64)
        ensures
            r == self.spec_secs() * 1000000 + self.spec_nanos() / 1000,
            r != i64::MIN,
    {
        proof {
            use_type_invariant(self);
        }
        self.secs * 1000000 + (self.nanos / 1000) as i64
    }

    /// Nanoseconds within the second.
    pub fn nanos(&self) -> (r: u32)
        ensures
            r == self.spec_nanos(),
    {
        self.nanos
    }

    /// The RFC 3339 form, as `DateTime::to_rfc3339` writes it.
    pub fn to_rfc3339(&self) -> (r: String)
        ensures
            r@ == chrono_rfc3339(self.spec_secs(), self.spec_nanos()),
    {
        proof {
            use_type_invariant(self);
        }
        chrono_to_rfc3339(self.secs, self.nanos)
    }
}

/// An LLSD value. A real is held as the bit pattern of its IEEE-754 double.
#[derive(Debug, PartialEq)]
pub enum OSD {
    Boolean(bool),
    Integer(i32),
    Real(u64),
    String(String),
    UUID(UUID),
    Date(LlsdDate),
    Uri(String),
    Binary(Vec<u8>),
    Dict(OsdMap<OSD>),
    Array(Vec<OSD>),
    Undef,
}

/// The mathematical value of an LLSD value: texts as characters, binary
/// data and identifiers as bytes, a date as seconds and nanoseconds since
/// the epoch, a map as its entries in insertion order.
pub enum OsdModel {
    Boolean(bool),
    Integer(i32),
    Real(u64),
    String(Seq<char>),
    UUID(Seq<u8>),
    Date(i64, u32),
    Uri(Seq<char>),
    Binary(Seq<u8>),
    Dict(Seq<(Seq<char>, OsdModel)>),
    Array(Seq<OsdModel>),
    Undef,
}

impl OSD {
    /// The mathematical value this value holds.
    pub open spec fn model(self) -> OsdModel
        decreases self,
    {
        match self {
            OSD::Boolean(b) => OsdModel::Boolean(b),
            OSD::Integer(v) => OsdModel::Integer(v),
            OSD::Real(v) => OsdModel::Real(v),
            OSD::String(s) => OsdModel::String(s@),
            OSD::UUID(u) => OsdModel::UUID(u.0@),
            OSD::Date(d) => OsdModel::Date(d.spec_secs(), d.spec_nanos()),
            OSD::Uri(s) => OsdModel::Uri(s@),
            OSD::Binary(b) => OsdModel::Binary(b@),
            OSD::Dict(m) => OsdModel::Dict(Seq::new(m.spec_entries().len(), |i: int|
                if 0 <= i < m.spec_entries().len() {
                    (m.spec_entries()[i].0@, m.spec_entries()[i].1.model())
                } else {
                    (Seq::empty(), OsdModel::Undef)
                })),
            OSD::Array(a) => OsdModel::Array(Seq::new(a@.len(), |i: int|
                if 0 <= i < a@.len() {
                    a@[i].model()
                } else {
                    OsdModel::Undef
                })),
            OSD::Undef => OsdModel::Undef,
        }
    }
}

/// An insertion-ordered map from string keys to values; no key occurs
/// twice. The entries are held in a vector of their own: an `OSD` nests
/// maps of `OSD`, and a collection whose contents Verus sees only through
/// a name would leave the recursive model of a value without a proof that
/// it terminates.
#[derive(Debug, PartialEq)]
pub struct OsdMap<V> {
    entries: Vec<(String, V)>,
}

/// The position of the first occurrence of `k` in `keys`.
pub open spec fn spec_first_index(keys: Seq<Seq<char>>, k: Seq<char>) -> Option<int> {
    if exists|i: int| 0 <= i < keys.len() && keys[i] == k {
        Some(choose|i: int| 0 <= i < keys.len() && keys[i] == k && (forall|j: int| 0 <= j < i ==> keys[j] != k))
    } else {
        None
    }
}

/// What the first occurrence satisfies: it is in range, holds `k`, and no
/// earlier key is `k`; when there is none, no key is `k`.
pub proof fn lemma_first_index(keys: Seq<Seq<char>>, k: Seq<char>)
    ensures
        spec_first_index(keys, k) matches Some(i) ==> (0 <= i < keys.len() && keys[i] == k && (forall|j: int| 0 <= j < i ==> keys[j] != k)),
        spec_first_index(keys, k) is None ==> (forall|j: int| 0 <= j < keys.len() ==> keys[j] != k),
{
    if exists|i: int| 0 <= i < keys.len() && keys[i] == k {
        let w = choose|i: int| 0 <= i < keys.len() && keys[i] == k;
        lemma_first_exists(keys, k, w);
    }
}

/// Where `k` occurs, a first occurrence exists.
proof fn lemma_first_exists(keys: Seq<Seq<char>>, k: Seq<char>, w: int)
    requires
        0 <= w < keys.len(),
        keys[w] == k,
    ensures
        exists|i: int| 0 <= i < keys.len() && keys[i] == k && (forall|j: int| 0 <= j < i ==> keys[j] != k),
    decreases w,
{
    if exists|j: int| 0 <= j < w && keys[j] == k {
        let j = choose|j: int| 0 <= j < w && keys[j] == k;
        lemma_first_exists(keys, k, j);
    } else {
        assert(0 <= w < keys.len() && keys[w] == k && (forall|j: int| 0 <= j < w ==> keys[j] != k));
    }
}

/// The keys of the entries, in order.
pub open spec fn spec_keys<V>(e: Seq<(String, V)>) -> Seq<Seq<char>> {
    e.map_values(|x: (String, V)| x.0@)
}

/// The position of the first entry with key `k`.
pub open spec fn spec_key_index<V>(e: Seq<(String, V)>, k: Seq<char>) -> Option<int> {
    spec_first_index(spec_keys(e), k)
}

/// No two entries have the same key.
pub open spec fn spec_keys_unique<V>(e: Seq<(String, V)>) -> bool {
    forall|i: int, j: int| 0 <= i < j < e.len() ==> (#[trigger] e[i]).0@ != (#[trigger] e[j]).0@
}

/// Inserting into an insertion-ordered map: an existing key keeps its place
/// and gets the new value; a new key goes at the end.
pub open spec fn spec_map_insert<V>(e: Seq<(String, V)>, k: String, v: V) -> Seq<(String, V)> {
    match spec_key_index(e, k@) {
        Some(i) => e.update(i, (e[i].0, v)),
        None => e.push((k, v)),
    }
}

impl<V> OsdMap<V> {
    /// The entries, in insertion order.
    pub closed spec fn spec_entries(self) -> Seq<(String, V)> {
        self.entries@
    }

    /// No key occurs twice.
    #[verifier::type_invariant]
    spec fn keys_unique(self) -> bool {
        spec_keys_unique(self.entries@)
    }

    /// An empty map.
    pub fn new() -> (r: OsdMap<V>)
        ensures
            r.spec_entries() == Seq::<(String, V)>::empty(),
    {
        OsdMap { entries: Vec::new() }
    }

    /// Number of entries.
    pub fn len(&self) -> (r: usize)
        ensures
            r == self.spec_entries().len(),
    {
        self.entries.len()
    }

    /// Whether the map has no entry.
    pub fn is_empty(&self) -> (r: bool)
        ensures
            r == (self.spec_entries().len() == 0),
    {
        self.entries.len() == 0
    }

    /// The entries, in insertion order.
    pub fn entries(&self) -> (r: &Vec<(String, V)>)
        ensures
            r@ == self.spec_entries(),
            spec_keys_unique(r@),
    {
        proof {
            use_type_invariant(self);
        }
        &self.entries
    }

    /// The position of `key`, if present.
    fn index_of(&self, key: &str) -> (r: Option<usize>)
        ensures
            r matches Some(i) ==> spec_key_index(self.spec_entries(), key@) == Some(i as int) && i < self.spec_entries().len(),
            r is None ==> spec_key_index(self.spec_entries(), key@) is None,
    {
        let ghost keys = spec_keys(self.entries@);
        let mut i: usize = 0;
        while i < self.entries.len()
            invariant
                i <= self.entries@.len(),
                keys == spec_keys(self.entries@),
                forall|j: int| 0 <= j < i ==> keys[j] != key@,
            decreases self.entries@.len() - i,
        {
            if str_eq(self.entries[i].0.as_str(), key) {
                assert(keys[i as int] == key@);
                let ghost c = choose|k: int| 0 <= k < keys.len() && keys[k] == key@ && (forall|j: int| 0 <= j < k ==> keys[j] != key@);
                assert(c == i) by {
                    if c < i {
                        assert(keys[c] != key@);
                    } else if c > i {
                        assert(keys[i as int] != key@);
                    }
                }
                return Some(i);
            }
            i = i + 1;
        }
        None
    }

    /// The value stored under `key`.
    pub fn get(&self, key: &str) -> (r: Option<&V>)
        ensures
            match spec_key_index(self.spec_entries(), key@) {
                Some(i) => r == Some(&self.spec_entries()[i].1),
                None => r is None,
            },
    {
        match self.index_of(key) {
            Some(i) => Some(&self.entries[i].1),
            None => None,
        }
    }

    /// Whether `key` is present.
    pub fn contains_key(&self, key: &str) -> (r: bool)
        ensures
            r == spec_key_index(self.spec_entries(), key@) is Some,
    {
        self.index_of(key).is_some()
    }

    /// Insert `value` under `key`: an existing key keeps its place and its
    /// previous value is returned; a new key is appended.
    pub fn insert(&mut self, key: String, value: V) -> (r: Option<V>)
        ensures
            final(self).spec_entries() == spec_map_insert(old(self).spec_entries(), key, value),
            match spec_key_index(old(self).spec_entries(), key@) {
                Some(i) => r == Some(old(self).spec_entries()[i].1),
                None => r is None,
            },
            spec_keys_unique(final(self).spec_entries()),
    {
        proof {
            use_type_invariant(&*self);
        }
        let found = self.index_of(key.as_str());
        let mut entries: Vec<(String, V)> = Vec::new();
        std::mem::swap(&mut entries, &mut self.entries);
        let ghost e = entries@;
        assert(spec_keys_unique(e));
        match found {
            Some(i) => {
                let (k, old_value) = entries.remove(i);
                entries.insert(i, (k, value));
                assert(entries@ =~= e.update(i as int, (e[i as int].0, value)));
                assert forall|a: int, b: int| 0 <= a < b < entries@.len() implies (#[trigger] entries@[a]).0@ != (#[trigger] entries@[b]).0@ by {
                    assert(entries@[a].0 == e[a].0);
                    assert(entries@[b].0 == e[b].0);
                    assert(e[a].0@ != e[b].0@);
                }
                self.entries = entries;
                Some(old_value)
            },
            None => {
                let ghost kv = key@;
                entries.push((key, value));
                proof {
                    lemma_first_index(spec_keys(e), kv);
                    assert forall|a: int, b: int| 0 <= a < b < entries@.len() implies (#[trigger] entries@[a]).0@ != (#[trigger] entries@[b]).0@ by {
                        if b == e.len() {
                            assert(entries@[a] == e[a]);
                            assert(spec_keys(e)[a] == e[a].0@);
                        } else {
                            assert(entries@[a] == e[a]);
                            assert(entries@[b] == e[b]);
                        }
                    }
                }
                self.entries = entries;
                None
            },
        }
    }
}

/// The value of each entry lies inside the map, so a recursion over values
/// may go on into it.
pub proof fn lemma_entry_decreases(m: OsdMap<OSD>, i: int)
    requires
        0 <= i < m.spec_entries().len(),
    ensures
        decreases_to!(m => m.spec_entries()[i].1),
{
    assert(decreases_to!(m => m.entries));
    assert(decreases_to!(m.entries => m.entries@));
    assert(decreases_to!(m.entries@ => m.entries@[i]));
    assert(decreases_to!(m.entries@[i] => m.entries@[i].1));
}

impl OSD {
    /// A copy of the value, built node by node.
    #[verifier::loop_isolation(false)]
    fn clone_value(&self) -> (r: OSD)
        ensures
            r.model() == self.model(),
        decreases self,
    {
        match self {
            OSD::Boolean(v) => OSD::Boolean(*v),
            OSD::Integer(v) => OSD::Integer(*v),
            OSD::Real(v) => OSD::Real(*v),
            OSD::String(v) => OSD::String(v.clone()),
            OSD::UUID(v) => OSD::UUID(*v),
            OSD::Date(v) => OSD::Date(*v),
            OSD::Uri(v) => OSD::Uri(v.clone()),
            OSD::Binary(v) => OSD::Binary(v.clone()),
            OSD::Dict(m) => {
                proof {
                    use_type_invariant(m);
                }
                let mut entries: Vec<(String, OSD)> = Vec::new();
                let mut i: usize = 0;
                while i < m.entries.len()
                    invariant
                        i <= m.entries@.len(),
                        spec_keys_unique(m.entries@),
                        entries@.len() == i,
                        forall|j: int| 0 <= j < i ==> (#[trigger] entries@[j]).0@ == m.entries@[j].0@
                            && entries@[j].1.model() == m.entries@[j].1.model(),
                    decreases m.entries@.len() - i,
                {
                    let value = m.entries[i].1.clone_value();
                    entries.push((m.entries[i].0.clone(), value));
                    i = i + 1;
                }
                assert forall|x: int, y: int| 0 <= x < y < entries@.len() implies (#[trigger] entries@[x]).0@ != (#[trigger] entries@[y]).0@ by {
                    assert(entries@[x].0@ == m.entries@[x].0@);
                    assert(entries@[y].0@ == m.entries@[y].0@);
                }
                let ghost e = entries@;
                let r = OSD::Dict(OsdMap { entries });
                proof {
                    assert(r.model() == self.model()) by {
                        if let OsdModel::Dict(a) = r.model() {
                            if let OsdModel::Dict(b) = self.model() {
                                assert forall|j: int| 0 <= j < a.len() implies a[j] == b[j] by {
                                    assert(e[j].0@ == m.entries@[j].0@);
                                }
                                assert(a =~= b);
                            }
                        }
                    }
                }
                r
            },
            OSD::Array(a) => {
                let mut items: Vec<OSD> = Vec::new();
                let mut i: usize = 0;
                while i < a.len()
                    invariant
                        i <= a@.len(),
                        items@.len() == i,
                        forall|j: int| 0 <= j < i ==> (#[trigger] items@[j]).model() == a@[j].model(),
                    decreases a@.len() - i,
                {
                    items.push(a[i].clone_value());
                    i = i + 1;
                }
                let r = OSD::Array(items);
                proof {
                    assert(r.model() == self.model()) by {
                        if let OsdModel::Array(x) = r.model() {
                            if let OsdModel::Array(y) = self.model() {
                                assert forall|j: int| 0 <= j < x.len() implies x[j] == y[j] by {
                                    assert(items@[j].model() == a@[j].model());
                                }
                                assert(x =~= y);
                            }
                        }
                    }
                }
                r
            },
            OSD::Undef => OSD::Undef,
        }
    }
}

impl Clone for OSD {
    fn clone(&self) -> (r: OSD)
        ensures
            r.model() == self.model(),
    {
        self.clone_value()
    }
}

impl<V: Clone> Clone for OsdMap<V> {
    fn clone(&self) -> (r: OsdMap<V>)
        ensures
            r.spec_entries().len() == self.spec_entries().len(),
            forall|j: int| 0 <= j < r.spec_entries().len() ==> (#[trigger] r.spec_entries()[j]).0@ == self.spec_entries()[j].0@
                && cloned::<V>(self.spec_entries()[j].1, r.spec_entries()[j].1),
    {
        proof {
            use_type_invariant(self);
        }
        let mut entries: Vec<(String, V)> = Vec::new();
        let mut i: usize = 0;
        while i < self.entries.len()
            invariant
                i <= self.entries@.len(),
                spec_keys_unique(self.entries@),
                entries@.len() == i,
                forall|j: int| 0 <= j < i ==> (#[trigger] entries@[j]).0@ == self.entries@[j].0@
                    && cloned::<V>(self.entries@[j].1, entries@[j].1),
            decreases self.entries@.len() - i,
        {
            entries.push((self.entries[i].0.clone(), self.entries[i].1.clone()));
            i = i + 1;
        }
        assert forall|x: int, y: int| 0 <= x < y < entries@.len() implies (#[trigger] entries@[x]).0@ != (#[trigger] entries@[y]).0@ by {
            assert(entries@[x].0@ == self.entries@[x].0@);
            assert(entries@[y].0@ == self.entries@[y].0@);
        }
        OsdMap { entries }
    }
}

impl Default for OSD {
    fn default() -> (r: OSD)
        ensures
            r is Undef,
    {
        OSD::Undef
    }
}

/// ASCII case folding of one character.
pub open spec fn spec_ascii_lower(c: char) -> char {
    if 'A' <= c <= 'Z' {
        ((c as u32) + 32) as char
    } else {
        c
    }
}

/// `str::eq_ignore_ascii_case`: same length, and equal after ASCII case folding.
pub open spec fn spec_eq_ignore_ascii_case(a: Seq<char>, b: Seq<char>) -> bool {
    a.len() == b.len() && forall|i: int| 0 <= i < a.len() ==> spec_ascii_lower(#[trigger] a[i]) == spec_ascii_lower(b[i])
}

/// ASCII case folding of one character.
fn ascii_lower(c: char) -> (r: char)
    ensures
        r == spec_ascii_lower(c),
{
    if 'A' <= c && c <= 'Z' {
        ((c as u32) + 32) as u8 as char
    } else {
        c
    }
}

/// Whether `a` equals `b` ignoring ASCII case.
fn eq_ignore_ascii_case(a: &str, b: &str) -> (r: bool)
    ensures
        r == spec_eq_ignore_ascii_case(a@, b@),
{
    let ac = str_chars(a);
    let bc = str_chars(b);
    if ac.len() != bc.len() {
        return false;
    }
    let mut i: usize = 0;
    while i < ac.len()
        invariant
            ac@ == a@,
            bc@ == b@,
            ac@.len() == bc@.len(),
            i <= ac@.len(),
            forall|j: int| 0 <= j < i ==> spec_ascii_lower(#[trigger] a@[j]) == spec_ascii_lower(b@[j]),
        decreases ac@.len() - i,
    {
        if ascii_lower(ac[i]) != ascii_lower(bc[i]) {
            return false;
        }
        i = i + 1;
    }
    true
}

/// A way to write a real as text (floating-point formatting, done by the
/// caller): it accepts every bit pattern and gives one text for each.
pub open spec fn spec_real_formatter<F: Fn(u64) -> String>(f: F) -> bool {
    &&& forall|b: u64| call_requires(f, (b,))
    &&& forall|b: u64, s1: String, s2: String| #[trigger] call_ensures(f, (b,), s1) && #[trigger] call_ensures(f, (b,), s2) ==> s1@ == s2@
}

/// The text `f` writes for the bit pattern `b`.
pub open spec fn spec_real_text<F: Fn(u64) -> String>(f: F, b: u64) -> Seq<char> {
    (choose|s: String| call_ensures(f, (b,), s))@
}

/// Formats the real with bit pattern `b` with `f`.
pub fn format_real<F: Fn(u64) -> String>(f: &F, b: u64) -> (r: String)
    requires
        spec_real_formatter(*f),
    ensures
        r@ == spec_real_text(*f, b),
{
    let r = f(b);
    assert(call_ensures(*f, (b,), r));
    r
}

/// A way to read a real from text (floating-point parsing, done by the
/// caller): it accepts every text and gives one answer for each.
pub open spec fn spec_real_reader<G: Fn(&str) -> Option<u64>>(g: G) -> bool {
    &&& forall|t: &str| call_requires(g, (t,))
    &&& forall|t1: &str, t2: &str, r1: Option<u64>, r2: Option<u64>|
        t1@ == t2@ && #[trigger] call_ensures(g, (t1,), r1) && #[trigger] call_ensures(g, (t2,), r2) ==> r1 == r2
}

/// Whether `g` can answer `r` for a text with the characters `s`.
pub open spec fn spec_reads_as<G: Fn(&str) -> Option<u64>>(g: G, s: Seq<char>, r: Option<u64>) -> bool {
    exists|t: &str| #[trigger] call_ensures(g, (t,), r) && t@ == s
}

/// The bit pattern `g` reads from the text `s`, or `None` when it rejects it.
pub open spec fn spec_real_value<G: Fn(&str) -> Option<u64>>(g: G, s: Seq<char>) -> Option<u64> {
    choose|r: Option<u64>| #[trigger] spec_reads_as(g, s, r)
}

/// Reads a real from `t` with `g`.
pub fn read_real<G: Fn(&str) -> Option<u64>>(g: &G, t: &str) -> (r: Option<u64>)
    requires
        spec_real_reader(*g),
    ensures
        r == spec_real_value(*g, t@),
{
    let r = g(t);
    assert(call_ensures(*g, (t,), r));
    assert(spec_reads_as(*g, t@, r));
    r
}

/// What `as_boolean` reads from a string: `1` or any case of `true` is
/// true; `0` or any case of `false` is false.
pub open spec fn spec_string_boolean(s: Seq<char>) -> Option<bool> {
    if s == seq!['1'] || spec_eq_ignore_ascii_case(s, seq!['t', 'r', 'u', 'e']) {
        Some(true)
    } else if s == seq!['0'] || spec_eq_ignore_ascii_case(s, seq!['f', 'a', 'l', 's', 'e']) {
        Some(false)
    } else {
        None
    }
}

/// The value as a boolean: booleans themselves, integers by being non-zero,
/// and the strings `1`/`0`/`true`/`false` (any case).
pub open spec fn spec_as_boolean(v: OSD) -> Option<bool> {
    match v {
        OSD::Boolean(b) => Some(b),
        OSD::Integer(i) => Some(i != 0),
        OSD::String(s) => spec_string_boolean(s@),
        _ => None,
    }
}

/// The value as an `i32`: integers themselves, reals converted as `as`
/// converts a double, booleans as 1 or 0, and strings that parse.
pub open spec fn spec_as_integer(v: OSD) -> Option<i32> {
    match v {
        OSD::Integer(i) => Some(i),
        OSD::Real(b) => Some(spec_f64_as_i32(b)),
        OSD::Boolean(b) => Some(if b { 1i32 } else { 0i32 }),
        OSD::String(s) => spec_parse_i32(s@),
        _ => None,
    }
}

/// Law: a number read as a boolean is true exactly when it is non-zero,
/// and for booleans and integers `as_boolean` and `as_integer` agree: the
/// boolean is true exactly when the integer is not zero.
pub proof fn lemma_as_boolean_is_non_zero(i: i32, b: bool)
    ensures
        spec_as_boolean(OSD::Integer(i)) == Some(i != 0),
        spec_as_boolean(OSD::Integer(i)) == Some(spec_as_integer(OSD::Integer(i))->0 != 0),
        spec_as_boolean(OSD::Boolean(b)) == Some(spec_as_integer(OSD::Boolean(b))->0 != 0),
        spec_as_integer(OSD::Boolean(b)) == Some(if b { 1i32 } else { 0i32 }),
{
}

/// The bit pattern of the double 1.0.
pub const F64_ONE_BITS: u64 = 0x3FF0000000000000;

/// The value as a real, by its bit pattern: reals themselves, integers as
/// `as f64` converts them, booleans as 1 or 0, and strings `g` reads.
pub open spec fn spec_as_real<G: Fn(&str) -> Option<u64>>(v: OSD, g: G) -> Option<u64> {
    match v {
        OSD::Real(b) => Some(b),
        OSD::Integer(i) => Some(spec_int_to_f64_bits(i as int)),
        OSD::Boolean(b) => Some(if b { F64_ONE_BITS } else { 0u64 }),
        OSD::String(s) => spec_real_value(g, s@),
        _ => None,
    }
}

/// Law: an integer value read as a real, and that real read as an integer,
/// gives the integer back.
pub proof fn lemma_integer_real_round_trip<G: Fn(&str) -> Option<u64>>(v: i32, g: G)
    ensures
        spec_as_real(OSD::Integer(v), g) matches Some(b) && spec_as_integer(OSD::Real(b)) == Some(v),
{
    lemma_i32_f64_round_trip(v);
}

/// The value as text; reals are written by `f`.
pub open spec fn spec_as_string<F: Fn(u64) -> String>(v: OSD, f: F) -> Option<Seq<char>> {
    match v {
        OSD::String(s) => Some(s@),
        OSD::Boolean(b) => Some(if b { seq!['1'] } else { seq!['0'] }),
        OSD::Integer(i) => Some(spec_int_decimal(i as int)),
        OSD::Real(b) => Some(spec_real_text(f, b)),
        OSD::UUID(u) => Some(spec_uuid_hyphenated(u.0@)),
        OSD::Uri(s) => Some(s@),
        OSD::Date(d) => Some(chrono_rfc3339(d.spec_secs(), d.spec_nanos())),
        _ => None,
    }
}

impl OSD {
    /// The value as a boolean: booleans themselves, integers by being
    /// non-zero, and the strings `1`/`0`/`true`/`false` (any case).
    pub fn as_boolean(&self) -> (r: Option<bool>)
        ensures
            r == spec_as_boolean(*self),
    {
        match self {
            OSD::Boolean(v) => Some(*v),
            OSD::Integer(v) => Some(*v != 0),
            OSD::String(v) => {
                proof {
                    reveal_strlit("1");
                    reveal_strlit("0");
                    reveal_strlit("true");
                    reveal_strlit("false");
                    assert("1"@ =~= seq!['1']);
                    assert("0"@ =~= seq!['0']);
                    assert("true"@ =~= seq!['t', 'r', 'u', 'e']);
                    assert("false"@ =~= seq!['f', 'a', 'l', 's', 'e']);
                }
                if str_eq(v.as_str(), "1") || eq_ignore_ascii_case(v.as_str(), "true") {
                    Some(true)
                } else if str_eq(v.as_str(), "0") || eq_ignore_ascii_case(v.as_str(), "false") {
                    Some(false)
                } else {
                    None
                }
            },
            _ => None,
        }
    }

    /// The value as an `i32`: integers themselves, reals converted as `as`
    /// converts a double (toward zero, saturating, NaN to 0), booleans as 1
    /// or 0, and strings that `str::parse::<i32>` accepts.
    pub fn as_integer(&self) -> (r: Option<i32>)
        ensures
            r == spec_as_integer(*self),
    {
        match self {
            OSD::Integer(v) => Some(*v),
            OSD::Real(b) => Some(f64_bits_as_i32(*b)),
            OSD::Boolean(v) => Some(if *v { 1 } else { 0 }),
            OSD::String(v) => parse_i32(v.as_str()),
            _ => None,
        }
    }

    /// The value as a real, by its bit pattern: reals themselves, integers
    /// converted as `as f64` converts them, booleans as 1 or 0, and strings
    /// that `real_value` reads.
    pub fn as_real<G: Fn(&str) -> Option<u64>>(&self, real_value: &G) -> (r: Option<u64>)
        requires
            spec_real_reader(*real_value),
        ensures
            r == spec_as_real(*self, *real_value),
    {
        match self {
            OSD::Real(b) => Some(*b),
            OSD::Integer(v) => Some(i32_to_f64_bits(*v)),
            OSD::Boolean(v) => Some(if *v { F64_ONE_BITS } else { 0 }),
            OSD::String(v) => read_real(real_value, v.as_str()),
            _ => None,
        }
    }

    /// The value as text: strings and URIs themselves, booleans as `1`/`0`,
    /// integers in decimal, reals as `real_text` writes them, identifiers
    /// hyphenated and dates in RFC 3339.
    pub fn as_string<F: Fn(u64) -> String>(&self, real_text: &F) -> (r: Option<String>)
        requires
            spec_real_formatter(*real_text),
        ensures
            match spec_as_string(*self, *real_text) {
                Some(t) => r is Some && r->0@ == t,
                None => r is None,
            },
    {
        match self {
            OSD::String(v) => Some(v.clone()),
            OSD::Boolean(v) => {
                let mut s = String::new();
                crate::text::string_push(&mut s, if *v { '1' } else { '0' });
                Some(s)
            },
            OSD::Integer(v) => Some(i32_to_string(*v)),
            OSD::Real(b) => Some(format_real(real_text, *b)),
            OSD::UUID(u) => Some(u.to_string()),
            OSD::Uri(v) => Some(v.clone()),
            OSD::Date(d) => Some(d.to_rfc3339()),
            _ => None,
        }
    }

    /// The value as an identifier: identifiers themselves and strings that
    /// parse as one.
    pub fn as_uuid(&self) -> (r: Option<UUID>)
        ensures
            match *self {
                OSD::UUID(u) => r == Some(u),
                OSD::String(v) => match uuid_parse_str(v@) {
                    Some(b) => r matches Some(u) && u.0@ == b,
                    None => r is None,
                },
                _ => r is None,
            },
    {
        match self {
            OSD::UUID(u) => Some(*u),
            OSD::String(v) => match UUID::parse(v.as_str()) {
                Ok(u) => Some(u),
                Err(_) => None,
            },
            _ => None,
        }
    }

    /// The date, when the value is one.
    pub fn as_date(&self) -> (r: Option<&LlsdDate>)
        ensures
            match *self {
                OSD::Date(d) => r == Some(&d),
                _ => r is None,
            },
    {
        match self {
            OSD::Date(d) => Some(d),
            _ => None,
        }
    }

    /// The bytes, when the value is binary.
    pub fn as_binary(&self) -> (r: Option<&Vec<u8>>)
        ensures
            match *self {
                OSD::Binary(v) => r == Some(&v),
                _ => r is None,
            },
    {
        match self {
            OSD::Binary(v) => Some(v),
            _ => None,
        }
    }

    /// The URI, when the value is one.
    pub fn as_uri(&self) -> (r: Option<&String>)
        ensures
            match *self {
                OSD::Uri(v) => r == Some(&v),
                _ => r is None,
            },
    {
        match self {
            OSD::Uri(v) => Some(v),
            _ => None,
        }
    }

    /// The map, when the value is one.
    pub fn as_map(&self) -> (r: Option<&OsdMap<OSD>>)
        ensures
            match *self {
                OSD::Dict(m) => r == Some(&m),
                _ => r is None,
            },
    {
        match self {
            OSD::Dict(m) => Some(m),
            _ => None,
        }
    }

    /// The map, to change in place, when the value is one.
    pub fn as_map_mut(&mut self) -> (r: Option<&mut OsdMap<OSD>>)
        ensures
            match *old(self) {
                OSD::Dict(m) => r matches Some(x) && *x == m && *final(self) == OSD::Dict(*final(x)),
                _ => r is None && *final(self) == *old(self),
            },
    {
        match self {
            OSD::Dict(m) => Some(m),
            _ => None,
        }
    }

    /// The array, when the value is one.
    pub fn as_array(&self) -> (r: Option<&Vec<OSD>>)
        ensures
            match *self {
                OSD::Array(a) => r == Some(&a),
                _ => r is None,
            },
    {
        match self {
            OSD::Array(a) => Some(a),
            _ => None,
        }
    }

    /// The array, to change in place, when the value is one.
    pub fn as_array_mut(&mut self) -> (r: Option<&mut Vec<OSD>>)
        ensures
            match *old(self) {
                OSD::Array(a) => r matches Some(x) && *x == a && *final(self) == OSD::Array(*final(x)),
                _ => r is None && *final(self) == *old(self),
            },
    {
        match self {
            OSD::Array(a) => Some(a),
            _ => None,
        }
    }

    /// Whether the value is undefined.
    pub fn is_undef(&self) -> (r: bool)
        ensures
            r == (*self is Undef),
    {
        match self {
            OSD::Undef => true,
            _ => false,
        }
    }
}

} // verus!
