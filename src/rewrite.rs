//! Rewriting a component binary: every section re-encoded in order, then
//! one custom section appended.

use vstd::prelude::*;
use vstd::string::StringSliceAdditionalSpecFns;
use crate::codec::{no_parse_error, parsed_payloads, parses_cleanly, read_sections};

verus! {

#[verifier::external_type_specification]
#[verifier::external_body]
pub struct ExComponent(wasm_encoder::Component);

/// The bytes written so far into a component under construction.
pub uninterp spec fn component_bytes(c: wasm_encoder::Component) -> Seq<u8>;

/// The sections of the component `input` as the round-trip re-encoder writes
/// them, after the header; `None` where `input` does not parse.
pub uninterp spec fn reencoded(input: Seq<u8>) -> Option<Seq<u8>>;

/// The 8-byte header of every component: magic and layer/version.
pub open spec fn component_header() -> Seq<u8> {
    seq![0x00u8, 0x61u8, 0x73u8, 0x6du8, 0x0du8, 0x00u8, 0x01u8, 0x00u8]
}

/// Unsigned LEB128: seven bits per byte, lowest first, the high bit set on
/// every byte but the last.
pub open spec fn leb128(n: nat) -> Seq<u8>
    decreases n,
{
    if n < 128 {
        seq![n as u8]
    } else {
        seq![(n % 128 + 128) as u8] + leb128(n / 128)
    }
}

/// A custom section of a component: id 0, the size of the rest, the name's
/// length, the name and the data.
pub open spec fn custom_section_bytes(name: Seq<u8>, data: Seq<u8>) -> Seq<u8> {
    let body = leb128(name.len()) + name + data;
    seq![0u8] + leb128(body.len()) + body
}

/// Largest size that the encoder writes for a section.
pub open spec fn fits_section(name: Seq<u8>, data: Seq<u8>) -> bool {
    name.len() + data.len() + 5 <= u32::MAX
}

/// A rewritten component is the header and the re-encoded sections of the
/// input, unchanged, followed by exactly the appended section.
pub proof fn lemma_rewrite_keeps_sections(input: Seq<u8>, name: Seq<u8>, data: Seq<u8>, out: Seq<u8>)
    requires
        reencoded(input) is Some,
        out == component_header() + reencoded(input)->0 + custom_section_bytes(name, data),
    ensures
        out.take(8 + reencoded(input)->0.len() as int) == component_header() + reencoded(input)->0,
        out.skip(8 + reencoded(input)->0.len() as int) == custom_section_bytes(name, data),
{
    let kept = component_header() + reencoded(input)->0;
    assert(out.take(8 + reencoded(input)->0.len() as int) =~= kept);
    assert(out.skip(8 + reencoded(input)->0.len() as int) =~= custom_section_bytes(name, data));
}

/// Relies on `wasm_encoder::Component::new`: a component holding only the
/// header.
pub assume_specification[ wasm_encoder::Component::new ]() -> (r: wasm_encoder::Component)
    ensures
        component_bytes(r) == component_header(),
;

/// Relies on `wasm_encoder::Component::finish`: the bytes written.
pub assume_specification[ wasm_encoder::Component::finish ](
    self_: wasm_encoder::Component,
) -> (r: Vec<u8>)
    ensures
        r@ == component_bytes(self_),
;

#[derive(Debug, PartialEq, Eq, Structural)]
pub enum RewriteError {
    /// The input is not a structurally valid component.
    Unparseable,
}

/// Relies on `wasm_encoder::reencode::component_utils::parse_component` with
/// the `RoundtripReencoder`: every section of `input` parsed and written
/// again into `out`, in order, or an error where `input` does not parse.
/// It slices nested sections by their declared sizes without a bounds
/// check, so it is called only on input that `parse_all` reads without error.
#[verifier::external_body]
fn copy_sections(out: &mut wasm_encoder::Component, input: &[u8]) -> (r: Result<(), RewriteError>)
    requires
        parses_cleanly(parsed_payloads(input@)),
    ensures
        r is Ok <==> reencoded(input@) is Some,
        r is Ok ==> component_bytes(*final(out)) == component_bytes(*old(out)) + reencoded(
            input@,
        )->0,
{
    wasm_encoder::reencode::component_utils::parse_component(
        &mut wasm_encoder::reencode::RoundtripReencoder,
        out,
        wasmparser::Parser::new(0),
        input,
        input,
    ).map_err(|_| RewriteError::Unparseable)
}

/// Relies on `wasm_encoder::Component::section` with a `CustomSection`:
/// appends a custom section named `name` that holds `data`. The encoder
/// asserts that the section's size fits in a `u32`.
#[verifier::external_body]
fn push_custom_section(out: &mut wasm_encoder::Component, name: &str, data: &[u8])
    requires
        fits_section(name.spec_bytes(), data@),
    ensures
        component_bytes(*final(out)) == component_bytes(*old(out)) + custom_section_bytes(
            name.spec_bytes(),
            data@,
        ),
{
    out.section(
        &wasm_encoder::CustomSection {
            name: std::borrow::Cow::Borrowed(name),
            data: std::borrow::Cow::Borrowed(data),
        },
    );
}

/// The component `input` with every section re-encoded in order and a
/// custom section `name` holding `data` appended after them; an error
/// exactly where `input` does not parse (an empty input among them) or the
/// re-encoder refuses it. A section of that name
/// already in `input` is kept, so the new one follows it; readers take the
/// first.
pub fn rewrite_module(input: &[u8], name: &str, data: &[u8]) -> (r: Result<Vec<u8>, RewriteError>)
    requires
        fits_section(name.spec_bytes(), data@),
    ensures
        r is Err <==> !parses_cleanly(parsed_payloads(input@)) || reencoded(input@) is None,
        r matches Ok(b) ==> b@ == component_header() + reencoded(input@)->0
            + custom_section_bytes(name.spec_bytes(), data@),
{
    let sections = read_sections(input);
    if !no_parse_error(&sections) {
        return Err(RewriteError::Unparseable);
    }
    let mut out = wasm_encoder::Component::new();
    match copy_sections(&mut out, input) {
        Ok(()) => {},
        Err(e) => {
            return Err(e);
        },
    }
    push_custom_section(&mut out, name, data);
    Ok(out.finish())
}

} // verus!
