//! BER octets, through the `lber` crate.
//!
//! This module holds what the library takes from `lber` without proof: its parser,
//! its writer and its integer encoding, each behind one function whose contract
//! names the result. The verified functions at the end are what the rest of the
//! library calls.

use crate::ber::{BerClass, BerPayload, BerTag, TagModel};
use crate::prim::{be_value, integer_value, unsigned_octets};
use vstd::prelude::*;

verus! {

/// `lber::structure::StructureTag`, the tag tree of `lber`. Opaque here: it is
/// only carried between the functions below.
#[verifier::external_type_specification]
#[verifier::external_body]
pub struct ExStructureTag(lber::structure::StructureTag);

/// How far a parse got in its input.
#[derive(Clone, Copy, Debug, PartialEq, Eq, Structural)]
pub enum Advance {
    /// So many octets from the head of the input were used.
    Consume(usize),
    /// The parser asks for a seek in the input.
    Seek,
    /// The parser waits for more input.
    Await,
}

/// What `lber`'s parser reports for an input, still holding `lber`'s tree.
pub enum RawStep {
    Continue,
    Error,
    Done(Advance, lber::structure::StructureTag),
}

/// What the parser reports for an input.
#[derive(Debug, PartialEq, Eq)]
pub enum ParseStep {
    /// The input ends before a whole value does.
    Continue,
    /// The input is no BER value.
    Error,
    /// One whole value was read.
    Done(Advance, BerTag),
}

/// Model of [`ParseStep`].
pub enum StepModel {
    Continue,
    Error,
    Done(Advance, TagModel),
}

impl DeepView for ParseStep {
    type V = StepModel;

    open spec fn deep_view(&self) -> StepModel {
        match self {
            ParseStep::Continue => StepModel::Continue,
            ParseStep::Error => StepModel::Error,
            ParseStep::Done(a, t) => StepModel::Done(*a, t.deep_view()),
        }
    }
}

/// The tree that a `StructureTag` holds: class, tag number and payload of each node.
pub uninterp spec fn structure_model(s: lber::structure::StructureTag) -> TagModel;

/// What `lber::Parser::handle` reports when a new parser is handed `input` as one element.
pub uninterp spec fn lber_parse(input: Seq<u8>) -> StepModel;

/// The octets that `lber::write::encode_into` appends for a tree.
pub uninterp spec fn lber_encoding(tag: TagModel) -> Seq<u8>;

/// The content octets that `lber` gives an INTEGER or ENUMERATED of this value.
pub uninterp spec fn lber_integer_octets(value: i64) -> Seq<u8>;

/// The model of a [`RawStep`].
pub open spec fn raw_step_model(r: RawStep) -> StepModel {
    match r {
        RawStep::Continue => StepModel::Continue,
        RawStep::Error => StepModel::Error,
        RawStep::Done(a, s) => StepModel::Done(a, structure_model(s)),
    }
}

/// Copies a `StructureTag` of `lber` into a [`BerTag`], node by node: the class by
/// its variant, the tag number and the payload as they are. Not proved.
#[verifier::external_body]
fn tag_from_structure(s: lber::structure::StructureTag) -> (t: BerTag)
    ensures
        t.deep_view() == structure_model(s),
{
    let class = match s.class {
        lber::common::TagClass::Universal => BerClass::Universal,
        lber::common::TagClass::Application => BerClass::Application,
        lber::common::TagClass::Context => BerClass::Context,
        lber::common::TagClass::Private => BerClass::Private,
    };
    let payload = match s.payload {
        lber::structure::PL::P(octets) => BerPayload::Primitive(octets),
        lber::structure::PL::C(inner) => BerPayload::Constructed(
            inner.into_iter().map(tag_from_structure).collect(),
        ),
    };
    BerTag { class, id: s.id, payload }
}

/// Copies a [`BerTag`] into a `StructureTag` of `lber`, node by node. Not proved.
#[verifier::external_body]
fn tag_to_structure(t: &BerTag) -> (s: lber::structure::StructureTag)
    ensures
        structure_model(s) == t.deep_view(),
{
    let class = match t.class {
        BerClass::Universal => lber::common::TagClass::Universal,
        BerClass::Application => lber::common::TagClass::Application,
        BerClass::Context => lber::common::TagClass::Context,
        BerClass::Private => lber::common::TagClass::Private,
    };
    let payload = match &t.payload {
        BerPayload::Primitive(octets) => lber::structure::PL::P(octets.clone()),
        BerPayload::Constructed(inner) => lber::structure::PL::C(
            inner.iter().map(tag_to_structure).collect(),
        ),
    };
    lber::structure::StructureTag { class, id: t.id, payload }
}

/// `lber::Parser::handle` on a new parser, with `input` as one element. The
/// parser's state is copied out variant by variant. Claimed without proof: the
/// report depends on the input alone, and where it says that octets were consumed,
/// their number is the offset of the unread rest in the input, so at most the
/// input's length.
#[verifier::external_body]
fn parser_handle(input: &[u8]) -> (r: RawStep)
    ensures
        raw_step_model(r) == lber_parse(input@),
        r matches RawStep::Done(Advance::Consume(n), _) ==> n <= input@.len(),
{
    let mut parser = lber::Parser::new();
    match lber::Consumer::handle(&mut parser, lber::Input::Element(input)) {
        lber::ConsumerState::Continue(_) => RawStep::Continue,
        lber::ConsumerState::Error(_) => RawStep::Error,
        lber::ConsumerState::Done(lber::Move::Consume(n), s) => RawStep::Done(
            Advance::Consume(*n),
            s.clone(),
        ),
        lber::ConsumerState::Done(lber::Move::Seek(_), s) => RawStep::Done(Advance::Seek, s.clone()),
        lber::ConsumerState::Done(lber::Move::Await(_), s) => RawStep::Done(
            Advance::Await,
            s.clone(),
        ),
    }
}

/// `lber::write::encode_into` on an empty buffer. Claimed without proof: the
/// octets depend on the tree alone, and the writer succeeds. Its source returns
/// an error only where one of its own recursive calls did, and ignores what the
/// sink reports, so none can arise.
#[verifier::external_body]
fn encode_structure(s: lber::structure::StructureTag) -> (r: Option<Vec<u8>>)
    ensures
        r is Some,
        r->0@ == lber_encoding(structure_model(s)),
{
    let mut buf = bytes::BytesMut::new();
    match lber::write::encode_into(&mut buf, s) {
        Ok(()) => Some(buf.to_vec()),
        Err(_) => None,
    }
}

/// The content octets of `lber::structures::Integer::into_structure` (the same
/// function encodes `Enumerated`). Claimed without proof: they depend on the value
/// alone. For a value that is not negative they are the octets that spell it, most
/// significant first and none of them a zero in front, with one zero octet before
/// them where the first has its top bit set: `lber` counts the octets by shifting
/// the value right, adds one for a set top bit, and writes so many low octets of
/// the value. The smallest `i64` is left out: `lber` negates a negative value
/// first.
#[verifier::external_body]
fn integer_octets(value: i64) -> (r: Vec<u8>)
    requires
        value > i64::MIN,
    ensures
        r@ == lber_integer_octets(value),
        value >= 0 ==> r@ == unsigned_octets(value as nat),
{
    let tag = lber::structures::Integer {
        id: 2,
        class: lber::common::TagClass::Universal,
        inner: value,
    };
    match lber::structures::ASNTag::into_structure(tag).payload {
        lber::structure::PL::P(octets) => octets,
        lber::structure::PL::C(_) => Vec::new(),
    }
}

/// What parsing `input` as one BER value gives.
pub open spec fn ber_parse(input: Seq<u8>) -> StepModel {
    lber_parse(input)
}

/// The BER octets of a tree.
pub open spec fn ber_encoding(tag: TagModel) -> Seq<u8> {
    lber_encoding(tag)
}

/// The eight octets of the smallest 64-bit number.
pub open spec fn smallest_octets() -> Seq<u8> {
    seq![0x80u8, 0u8, 0u8, 0u8, 0u8, 0u8, 0u8, 0u8]
}

/// The content octets of an integer. A number that is not negative has the
/// octets that spell it, with a zero octet in front where they would read as
/// negative. The smallest 64-bit number, which the encoding of `lber` cannot take,
/// has its eight octets. Any other negative number has what `lber` gives it.
pub open spec fn integer_content(value: i64) -> Seq<u8> {
    if value >= 0 {
        unsigned_octets(value as nat)
    } else if value == i64::MIN {
        smallest_octets()
    } else {
        lber_integer_octets(value)
    }
}

/// The octets of an integer read back as the integer, where it is not negative
/// or is the smallest of all.
pub proof fn lemma_integer_reads_back(value: i64)
    requires
        value >= 0 || value == i64::MIN,
    ensures
        integer_value(integer_content(value)) == Some(value),
{
    if value >= 0 {
        crate::prim::lemma_unsigned_octets(value);
    } else {
        lemma_smallest_reads_back();
    }
}

/// The eight octets of the smallest 64-bit number read back as that number.
pub proof fn lemma_smallest_reads_back()
    ensures
        integer_value(smallest_octets()) == Some(i64::MIN),
{
    let s = smallest_octets();
    let s7 = s.drop_last();
    let s6 = s7.drop_last();
    let s5 = s6.drop_last();
    let s4 = s5.drop_last();
    let s3 = s4.drop_last();
    let s2 = s3.drop_last();
    let s1 = s2.drop_last();
    let s0 = s1.drop_last();
    assert(s0.len() == 0);
    assert(be_value(s0) == 0);
    assert(s1.last() == 0x80u8);
    assert(s2.last() == 0u8 && s3.last() == 0u8 && s4.last() == 0u8 && s5.last() == 0u8);
    assert(s6.last() == 0u8 && s7.last() == 0u8 && s.last() == 0u8);
    assert(be_value(s1) == 0x80);
    assert(be_value(s2) == 0x8000);
    assert(be_value(s3) == 0x80_0000);
    assert(be_value(s4) == 0x8000_0000);
    assert(be_value(s5) == 0x80_0000_0000);
    assert(be_value(s6) == 0x8000_0000_0000);
    assert(be_value(s7) == 0x80_0000_0000_0000);
    assert(be_value(s) == 0x8000_0000_0000_0000);
}

/// Parses the head of `input` as one BER value.
pub fn parse(input: &[u8]) -> (r: ParseStep)
    ensures
        r.deep_view() == ber_parse(input@),
        r matches ParseStep::Done(Advance::Consume(n), _) ==> n <= input@.len(),
{
    match parser_handle(input) {
        RawStep::Continue => ParseStep::Continue,
        RawStep::Error => ParseStep::Error,
        RawStep::Done(a, s) => ParseStep::Done(a, tag_from_structure(s)),
    }
}

/// Writes a tree as BER octets.
pub fn encode(tag: &BerTag) -> (r: Vec<u8>)
    ensures
        r@ == ber_encoding(tag.deep_view()),
{
    match encode_structure(tag_to_structure(tag)) {
        Some(octets) => octets,
        None => Vec::new(),
    }
}

/// Whether writing a tree and parsing the octets gives the tree back.
pub open spec fn reads_back(tag: TagModel) -> bool {
    ber_parse(ber_encoding(tag)) matches StepModel::Done(_, t) && t == tag
}

/// Whether the octets of a tree parse as that tree and as nothing less or more.
pub open spec fn frames_exactly(tag: TagModel) -> bool {
    ber_parse(ber_encoding(tag)) matches StepModel::Done(Advance::Consume(n), t) && t == tag && n
        == ber_encoding(tag).len()
}

/// Writes a tree, parses the octets, and says whether the tree came back.
pub fn parses_back(tag: &BerTag) -> (r: bool)
    ensures
        r == reads_back(tag.deep_view()),
{
    let octets = encode(tag);
    match parse(octets.as_slice()) {
        ParseStep::Done(_, t) => t.same(tag),
        _ => false,
    }
}

/// Writes a tree, parses the octets, and says whether the tree came back
/// and used all of them.
pub fn frames_whole(tag: &BerTag) -> (r: bool)
    ensures
        r == frames_exactly(tag.deep_view()),
{
    let octets = encode(tag);
    match parse(octets.as_slice()) {
        ParseStep::Done(Advance::Consume(n), t) => n == octets.len() && t.same(tag),
        _ => false,
    }
}

/// An INTEGER or ENUMERATED value of the given class and tag number.
pub fn integer_tag(class: BerClass, id: u64, value: i64) -> (r: BerTag)
    ensures
        r.deep_view() == TagModel::new_primitive(class, id, integer_content(value)),
{
    if value == i64::MIN {
        let mut octets: Vec<u8> = Vec::new();
        octets.push(0x80u8);
        let mut i: usize = 1;
        while i < 8
            invariant
                1 <= i <= 8,
                octets.len() == i,
                octets@[0] == 0x80u8,
                forall|j: int| 1 <= j < i ==> octets@[j] == 0u8,
            decreases 8 - i,
        {
            octets.push(0u8);
            i += 1;
        }
        proof {
            assert(octets@ =~= smallest_octets());
        }
        BerTag::primitive(class, id, octets)
    } else {
        BerTag::primitive(class, id, integer_octets(value))
    }
}

} // verus!
