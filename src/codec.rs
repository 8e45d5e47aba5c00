//! The `package-docs` custom section: one version byte, then the JSON text
//! of the documentation tree.

use vstd::prelude::*;

verus! {

/// Version byte written in front of the payload.
pub const PAYLOAD_VERSION: u8 = 1;

/// A payload of a component, as far as the documentation section cares.
pub enum Section {
    /// A custom section, with its name and its data.
    Custom { name: String, data: Vec<u8> },
    /// Any other payload.
    Other,
    /// The binary could not be parsed here; nothing follows.
    Malformed,
}

#[derive(Debug, PartialEq, Eq, Structural)]
pub enum ParseError {
    /// The component binary is not structurally valid.
    MalformedBinary,
}

/// Name of the custom section that carries the documentation.
pub open spec fn docs_section_name() -> Seq<char> {
    seq!['p', 'a', 'c', 'k', 'a', 'g', 'e', '-', 'd', 'o', 'c', 's']
}

/// The section payload for the JSON text `json`.
pub open spec fn payload_of(json: Seq<u8>) -> Seq<u8> {
    seq![PAYLOAD_VERSION] + json
}

/// The JSON text of a section payload: all but the version byte. A payload
/// of one byte or none carries no documentation.
pub open spec fn json_of(data: Seq<u8>) -> Option<Seq<u8>> {
    if data.len() <= 1 {
        None
    } else {
        Some(data.skip(1))
    }
}

/// A payload seen as plain values: kind (custom, other or malformed),
/// then the name and data of a custom section.
pub type PayloadView = (int, Seq<char>, Seq<u8>);

pub open spec fn custom_kind() -> int {
    0
}

pub open spec fn other_kind() -> int {
    1
}

pub open spec fn malformed_kind() -> int {
    2
}

pub open spec fn section_view(s: Section) -> PayloadView {
    match s {
        Section::Custom { name, data } => (custom_kind(), name@, data@),
        Section::Other => (other_kind(), Seq::empty(), Seq::empty()),
        Section::Malformed => (malformed_kind(), Seq::empty(), Seq::empty()),
    }
}

pub open spec fn section_views(ss: Seq<Section>) -> Seq<PayloadView> {
    ss.map_values(|s: Section| section_view(s))
}

/// The payloads that `wasmparser` yields for the binary `wasm`, in order.
pub uninterp spec fn parsed_payloads(wasm: Seq<u8>) -> Seq<PayloadView>;

/// No payload of `ps` is a parse failure.
pub open spec fn parses_cleanly(ps: Seq<PayloadView>) -> bool {
    forall|k: int| 0 <= k < ps.len() ==> (#[trigger] ps[k]).0 != malformed_kind()
}

/// Whether no payload of `sections` is a parse failure.
pub fn no_parse_error(sections: &Vec<Section>) -> (r: bool)
    ensures
        r == parses_cleanly(section_views(sections@)),
{
    let ghost ps = section_views(sections@);
    let mut i: usize = 0;
    while i < sections.len()
        invariant
            i <= sections@.len(),
            ps == section_views(sections@),
            forall|k: int| 0 <= k < i ==> (#[trigger] ps[k]).0 != malformed_kind(),
        decreases sections@.len() - i,
    {
        assert(ps[i as int] == section_view(sections@[i as int]));
        if let Section::Malformed = &sections[i] {
            return false;
        }
        i = i + 1;
    }
    true
}

/// Index of the first payload at or after `i` that is the documentation
/// section or where parsing failed.
pub open spec fn first_stop(ps: Seq<PayloadView>, i: int) -> Option<int>
    decreases ps.len() - i,
{
    if i < 0 || i >= ps.len() {
        None
    } else if ps[i].0 == custom_kind() && ps[i].1 == docs_section_name() {
        Some(i)
    } else if ps[i].0 == malformed_kind() {
        Some(i)
    } else {
        first_stop(ps, i + 1)
    }
}

/// What the payloads of a component hold as documentation: the JSON of its
/// first `package-docs` section, or an error where parsing failed first.
pub open spec fn docs_in(ps: Seq<PayloadView>) -> Result<Option<Seq<u8>>, ParseError> {
    match first_stop(ps, 0) {
        None => Ok(None),
        Some(i) => if ps[i].0 == custom_kind() {
            Ok(json_of(ps[i].2))
        } else {
            Err(ParseError::MalformedBinary)
        },
    }
}

/// `r` is the executable form of the documentation result `d`.
pub open spec fn docs_result_is(
    r: Result<Option<Vec<u8>>, ParseError>,
    d: Result<Option<Seq<u8>>, ParseError>,
) -> bool {
    match (r, d) {
        (Ok(Some(v)), Ok(Some(w))) => v@ == w,
        (Ok(None), Ok(None)) => true,
        (Err(e), Err(f)) => e == f,
        _ => false,
    }
}

/// Decoding an encoded payload gives back the JSON text it was made from.
pub proof fn lemma_payload_round_trip(json: Seq<u8>)
    requires
        json.len() >= 1,
    ensures
        json_of(payload_of(json)) == Some(json),
{
    assert(payload_of(json).skip(1) =~= json);
}

/// A payload of one byte or none carries no documentation, and a component
/// whose first documentation section holds such a payload has none.
pub proof fn lemma_short_payload(ps: Seq<PayloadView>, i: int)
    requires
        first_stop(ps, 0) == Some(i),
        ps[i].0 == custom_kind(),
        ps[i].2.len() <= 1,
    ensures
        docs_in(ps) == Ok::<Option<Seq<u8>>, ParseError>(None),
{
}

/// No payload of `ps` is the documentation section or a parse failure.
pub open spec fn plain_payloads(ps: Seq<PayloadView>) -> bool {
    forall|k: int|
        0 <= k < ps.len() ==> (#[trigger] ps[k]).0 != malformed_kind() && !(ps[k].0
            == custom_kind() && ps[k].1 == docs_section_name())
}

proof fn lemma_first_stop_append(ps: Seq<PayloadView>, p: PayloadView, i: int)
    requires
        0 <= i <= ps.len(),
        plain_payloads(ps),
        p.0 == custom_kind() && p.1 == docs_section_name(),
    ensures
        first_stop(ps.push(p), i) == Some(ps.len() as int),
    decreases ps.len() - i,
{
    let t = ps.push(p);
    if i < ps.len() {
        assert(t[i] == ps[i]);
        lemma_first_stop_append(ps, p, i + 1);
    } else {
        assert(t[i] == p);
    }
}

/// A component that has no documentation section and parsed without error,
/// with a section appended that holds the payload of `json`, yields `json`.
pub proof fn lemma_appended_section_round_trip(ps: Seq<PayloadView>, json: Seq<u8>)
    requires
        json.len() >= 1,
        plain_payloads(ps),
    ensures
        docs_in(ps.push((custom_kind(), docs_section_name(), payload_of(json))))
            == Ok::<Option<Seq<u8>>, ParseError>(Some(json)),
{
    let p = (custom_kind(), docs_section_name(), payload_of(json));
    lemma_first_stop_append(ps, p, 0);
    assert(ps.push(p)[ps.len() as int] == p);
    lemma_payload_round_trip(json);
}

/// Frames the JSON text of a documentation tree as a section payload.
pub fn encode_payload(json: &[u8]) -> (r: Vec<u8>)
    ensures
        r@ == payload_of(json@),
{
    let mut r: Vec<u8> = Vec::new();
    r.push(PAYLOAD_VERSION);
    let mut i: usize = 0;
    while i < json.len()
        invariant
            i <= json@.len(),
            r@ == seq![PAYLOAD_VERSION] + json@.take(i as int),
        decreases json@.len() - i,
    {
        r.push(json[i]);
        i = i + 1;
        assert(r@ =~= seq![PAYLOAD_VERSION] + json@.take(i as int));
    }
    assert(json@.take(json@.len() as int) =~= json@);
    r
}

/// The JSON text of a section payload, past its version byte; `None` where
/// nothing follows the version byte.
pub fn decode_payload(data: &[u8]) -> (r: Option<Vec<u8>>)
    ensures
        match r {
            Some(v) => json_of(data@) == Some(v@),
            None => json_of(data@) is None,
        },
{
    if data.len() <= 1 {
        return None;
    }
    let mut r: Vec<u8> = Vec::new();
    let mut i: usize = 1;
    while i < data.len()
        invariant
            1 <= i <= data@.len(),
            r@ == data@.subrange(1, i as int),
        decreases data@.len() - i,
    {
        r.push(data[i]);
        i = i + 1;
        assert(r@ =~= data@.subrange(1, i as int));
    }
    assert(data@.skip(1) =~= data@.subrange(1, data@.len() as int));
    Some(r)
}

fn is_docs_section_name(name: &String) -> (r: bool)
    ensures
        r == (name@ == docs_section_name()),
{
    let expected = "package-docs".to_owned();
    proof {
        reveal_strlit("package-docs");
        assert(expected@ =~= docs_section_name());
    }
    *name == expected
}

/// The documentation JSON found in the first `package-docs` section of a
/// component, given its payloads in order; an error where the binary failed
/// to parse before that section.
pub fn extract_package_docs(sections: &Vec<Section>) -> (r: Result<Option<Vec<u8>>, ParseError>)
    ensures
        docs_result_is(r, docs_in(section_views(sections@))),
{
    let ghost ps = section_views(sections@);
    let mut i: usize = 0;
    while i < sections.len()
        invariant
            i <= sections@.len(),
            ps == section_views(sections@),
            first_stop(ps, 0) == first_stop(ps, i as int),
        decreases sections@.len() - i,
    {
        assert(ps[i as int] == section_view(sections@[i as int]));
        match &sections[i] {
            Section::Custom { name, data } => {
                if is_docs_section_name(name) {
                    return Ok(decode_payload(data.as_slice()));
                }
            },
            Section::Other => {},
            Section::Malformed => {
                return Err(ParseError::MalformedBinary);
            },
        }
        i = i + 1;
    }
    Ok(None)
}

/// Relies on `wasmparser::Parser::parse_all`: the payloads of the binary in
/// order, custom sections with their name and data; after an error it yields
/// nothing more.
#[verifier::external_body]
pub(crate) fn read_sections(wasm: &[u8]) -> (r: Vec<Section>)
    ensures
        section_views(r@) == parsed_payloads(wasm@),
        forall|i: int| 0 <= i < r@.len() - 1 ==> !(#[trigger] r@[i] is Malformed),
{
    let mut r = Vec::new();
    for p in wasmparser::Parser::new(0).parse_all(wasm) {
        r.push(match p {
            Ok(wasmparser::Payload::CustomSection(c)) => Section::Custom {
                name: c.name().to_string(),
                data: c.data().to_vec(),
            },
            Ok(_) => Section::Other,
            Err(_) => Section::Malformed,
        });
    }
    r
}

/// The documentation JSON of a component binary: that of its first
/// `package-docs` section, `None` where it has none or where nothing follows
/// the version byte, an error where the binary fails to parse before it.
pub fn find_package_docs(wasm: &[u8]) -> (r: Result<Option<Vec<u8>>, ParseError>)
    ensures
        docs_result_is(r, docs_in(parsed_payloads(wasm@))),
{
    let sections = read_sections(wasm);
    extract_package_docs(&sections)
}

} // verus!
