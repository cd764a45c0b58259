//! The stream codec: frames of a byte stream to messages and back.
//!
//! `decode` looks at the head of a buffer that the caller fills from the stream.
//! It takes one whole message off the head, or leaves the buffer as it is and
//! asks for more octets. `encode` appends the octets of one message.

use crate::ber::TagModel;
use crate::proto::{LdapMsg, LdapMsgModel};
use crate::wire::{
    ber_encoding, ber_parse, encode, frames_exactly, parse, Advance, ParseStep, StepModel,
};
use vstd::prelude::*;

verus! {

broadcast use crate::prim::lemma_octets_deep_view;

/// Why the codec gave up on a stream.
#[derive(Debug, Clone, Copy, PartialEq, Eq, Structural)]
pub enum CodecError {
    /// The head of the buffer is no BER value.
    Parser,
    /// The parser asked for a seek, which a stream cannot do.
    Seek,
    /// The head of the buffer is a BER value and no LDAP message.
    Message,
}

/// The codec. `strict` says how search requests are read; a new codec is lenient.
#[derive(Debug, Clone, Copy, PartialEq, Eq)]
pub struct LdapCodec {
    pub strict: bool,
}

/// The model of what `decode` returns.
pub open spec fn outcome_model(r: Result<Option<LdapMsg>, CodecError>) -> Result<
    Option<LdapMsgModel>,
    CodecError,
> {
    match r {
        Ok(Some(m)) => Ok(Some(m.deep_view())),
        Ok(None) => Ok(None),
        Err(e) => Err(e),
    }
}

/// The model of what decoding with a count returns, without the count.
pub open spec fn counted_model(r: Result<Option<(LdapMsg, usize)>, CodecError>) -> Result<
    Option<LdapMsgModel>,
    CodecError,
> {
    match r {
        Ok(Some((m, _))) => Ok(Some(m.deep_view())),
        Ok(None) => Ok(None),
        Err(e) => Err(e),
    }
}

/// The number of control tags that a decoding step passes over, given what
/// parsing the head of the buffer gave.
pub open spec fn spec_skipped_step(step: StepModel) -> nat {
    match step {
        StepModel::Done(Advance::Consume(_), t) => LdapMsg::spec_skipped(t),
        _ => 0,
    }
}

/// What a decoding step does with a buffer, given what parsing its head gave:
/// the buffer afterwards, and the outcome.
pub open spec fn spec_decode_step(step: StepModel, buf: Seq<u8>, strict: bool) -> (
    Seq<u8>,
    Result<Option<LdapMsgModel>, CodecError>,
) {
    match step {
        StepModel::Continue => (buf, Ok(None)),
        StepModel::Error => (buf, Err(CodecError::Parser)),
        StepModel::Done(Advance::Await, _) => (buf, Ok(None)),
        StepModel::Done(Advance::Seek, _) => (buf, Err(CodecError::Seek)),
        StepModel::Done(Advance::Consume(n), t) => (
            buf.skip(n as int),
            match LdapMsg::spec_try_from(t, strict) {
                Some(m) => Ok(Some(m)),
                None => Err(CodecError::Message),
            },
        ),
    }
}

/// What decoding does with a buffer: the buffer afterwards, and the outcome.
pub open spec fn spec_decode(buf: Seq<u8>, strict: bool) -> (
    Seq<u8>,
    Result<Option<LdapMsgModel>, CodecError>,
) {
    spec_decode_step(ber_parse(buf), buf, strict)
}

/// The octets of a message.
pub open spec fn spec_encode(m: LdapMsgModel) -> Seq<u8> {
    ber_encoding(LdapMsg::spec_to_tag(m))
}

impl Default for LdapCodec {
    fn default() -> (r: Self)
        ensures
            !r.strict,
    {
        LdapCodec { strict: false }
    }
}

impl LdapCodec {
    /// A lenient codec.
    pub fn new() -> (r: Self)
        ensures
            !r.strict,
    {
        LdapCodec { strict: false }
    }

    /// Does one decoding step on the buffer, given what parsing its head gave.
    /// A whole value is taken off the head and read as a message; in every other
    /// case the buffer stays as it is.
    pub fn decode_step(&self, step: &ParseStep, buf: &mut Vec<u8>) -> (r: Result<
        Option<LdapMsg>,
        CodecError,
    >)
        requires
            step matches ParseStep::Done(Advance::Consume(n), _) ==> n <= old(buf)@.len(),
        ensures
            (final(buf)@, outcome_model(r)) == spec_decode_step(
                step.deep_view(),
                old(buf)@,
                self.strict,
            ),
    {
        match self.decode_step_counting(step, buf) {
            Ok(Some((msg, _))) => Ok(Some(msg)),
            Ok(None) => Ok(None),
            Err(e) => Err(e),
        }
    }

    /// Does one decoding step as [`Self::decode_step`] does, and gives beside
    /// the message the number of control tags that hold no control and were
    /// passed over.
    pub fn decode_step_counting(&self, step: &ParseStep, buf: &mut Vec<u8>) -> (r: Result<
        Option<(LdapMsg, usize)>,
        CodecError,
    >)
        requires
            step matches ParseStep::Done(Advance::Consume(n), _) ==> n <= old(buf)@.len(),
        ensures
            (final(buf)@, counted_model(r)) == spec_decode_step(
                step.deep_view(),
                old(buf)@,
                self.strict,
            ),
            r matches Ok(Some((_, skipped))) ==> skipped == spec_skipped_step(step.deep_view()),
    {
        match step {
            ParseStep::Continue => Ok(None),
            ParseStep::Error => Err(CodecError::Parser),
            ParseStep::Done(Advance::Await, _) => Ok(None),
            ParseStep::Done(Advance::Seek, _) => Err(CodecError::Seek),
            ParseStep::Done(Advance::Consume(n), t) => {
                let rest = buf.split_off(*n);
                *buf = rest;
                proof {
                    assert(buf@ =~= old(buf)@.skip(*n as int));
                }
                match LdapMsg::try_from_counting(t, self.strict) {
                    Ok(m) => Ok(Some(m)),
                    Err(_) => Err(CodecError::Message),
                }
            },
        }
    }

    /// Takes one message off the head of the buffer, if a whole one is there.
    /// Returns nothing and leaves the buffer where more octets are needed; returns
    /// an error, and leaves the buffer, where the head is no BER value. Where the
    /// head is a BER value it is taken off, whether or not it is a message.
    pub fn decode(&mut self, buf: &mut Vec<u8>) -> (r: Result<Option<LdapMsg>, CodecError>)
        ensures
            *final(self) == *old(self),
            (final(buf)@, outcome_model(r)) == spec_decode(old(buf)@, old(self).strict),
    {
        let step = parse(buf.as_slice());
        self.decode_step(&step, buf)
    }

    /// Decodes as [`Self::decode`] does, and gives beside the message the
    /// number of control tags that hold no control and were passed over.
    pub fn decode_counting(&mut self, buf: &mut Vec<u8>) -> (r: Result<
        Option<(LdapMsg, usize)>,
        CodecError,
    >)
        ensures
            *final(self) == *old(self),
            (final(buf)@, counted_model(r)) == spec_decode(old(buf)@, old(self).strict),
            r matches Ok(Some((_, skipped))) ==> skipped == spec_skipped_step(
                ber_parse(old(buf)@),
            ),
    {
        let step = parse(buf.as_slice());
        self.decode_step_counting(&step, buf)
    }

    /// Appends the octets of a message to the buffer. Decoding those octets
    /// gives the message back and leaves nothing, where the message is canonical
    /// and its octets parse as its tag.
    pub fn encode(&mut self, msg: LdapMsg, buf: &mut Vec<u8>) -> (r: Result<(), CodecError>)
        ensures
            *final(self) == *old(self),
            r is Ok,
            final(buf)@ == old(buf)@ + spec_encode(msg.deep_view()),
            forall|strict: bool|
                msg.deep_view().canonical() && frames_exactly(LdapMsg::spec_to_tag(msg.deep_view()))
                    ==> #[trigger] spec_decode(spec_encode(msg.deep_view()), strict) == (
                    Seq::<u8>::empty(),
                    Ok::<Option<LdapMsgModel>, CodecError>(Some(msg.deep_view())),
                ),
    {
        let tag = msg.to_tag();
        let mut octets = encode(&tag);
        buf.append(&mut octets);
        proof {
            let m = msg.deep_view();
            assert forall|strict: bool|
                m.canonical() && frames_exactly(LdapMsg::spec_to_tag(m)) implies #[trigger] spec_decode(
                spec_encode(m),
                strict,
            ) == (Seq::<u8>::empty(), Ok::<Option<LdapMsgModel>, CodecError>(Some(m))) by {
                law_round_trip(m, strict);
            }
        }
        Ok(())
    }
}

/// Round trip. Decoding the octets of a canonical message gives the message
/// back and leaves nothing, where those octets parse as the tag of the message.
pub proof fn law_round_trip(m: LdapMsgModel, strict: bool)
    ensures
        m.canonical() && frames_exactly(LdapMsg::spec_to_tag(m)) ==> spec_decode(
            spec_encode(m),
            strict,
        ) == (Seq::<u8>::empty(), Ok::<Option<LdapMsgModel>, CodecError>(Some(m))),
{
    if m.canonical() && frames_exactly(LdapMsg::spec_to_tag(m)) {
        let e = spec_encode(m);
        LdapMsg::lemma_round_trip(m, strict);
        assert(e.skip(e.len() as int) =~= Seq::<u8>::empty());
    }
}

/// Unless a message or a message error comes out, decoding leaves the buffer as
/// it is: no frame is half-consumed, and asking for more octets consumes nothing.
pub proof fn law_buffer_kept(buf: Seq<u8>, strict: bool)
    ensures
        spec_decode(buf, strict).1 == Ok::<Option<LdapMsgModel>, CodecError>(None) ==> spec_decode(
            buf,
            strict,
        ).0 == buf,
        spec_decode(buf, strict).1 == Err::<Option<LdapMsgModel>, CodecError>(CodecError::Parser)
            ==> spec_decode(buf, strict).0 == buf,
        spec_decode(buf, strict).1 == Err::<Option<LdapMsgModel>, CodecError>(CodecError::Seek)
            ==> spec_decode(buf, strict).0 == buf,
{
}

/// Incremental decoding. Where the parser waits on the first part `a` of a
/// frame and reads the whole frame `a + b` as the tag `t`, decoding `a` asks for
/// more and keeps `a`, and decoding `a + b` then reads `t` as a message and
/// leaves nothing.
pub proof fn law_incremental(a: Seq<u8>, b: Seq<u8>, t: TagModel, strict: bool)
    ensures
        ber_parse(a) is Continue && (a + b).len() <= usize::MAX && ber_parse(a + b)
            == StepModel::Done(Advance::Consume((a + b).len() as usize), t) ==> {
            &&& spec_decode(a, strict) == (a, Ok::<Option<LdapMsgModel>, CodecError>(None))
            &&& spec_decode(a + b, strict).0 == Seq::<u8>::empty()
            &&& spec_decode(a + b, strict).1 == match LdapMsg::spec_try_from(t, strict) {
                Some(m) => Ok::<Option<LdapMsgModel>, CodecError>(Some(m)),
                None => Err(CodecError::Message),
            }
        },
{
    assert((a + b).skip((a + b).len() as int) =~= Seq::<u8>::empty());
}

/// Frame boundary. Where the parser reads the head of `e1 + e2` as `t1`
/// using the octets of `e1`, and `e2` as `t2` using all of it, two decoding steps
/// on `e1 + e2` read `t1` and then `t2`, and leave nothing.
pub proof fn law_frame_boundary(
    e1: Seq<u8>,
    e2: Seq<u8>,
    t1: TagModel,
    t2: TagModel,
    strict: bool,
)
    ensures
        (e1 + e2).len() <= usize::MAX && ber_parse(e1 + e2) == StepModel::Done(
            Advance::Consume(e1.len() as usize),
            t1,
        ) && ber_parse(e2) == StepModel::Done(Advance::Consume(e2.len() as usize), t2) ==> {
            let first = spec_decode(e1 + e2, strict);
            let second = spec_decode(first.0, strict);
            &&& first.0 == e2
            &&& first.1 == match LdapMsg::spec_try_from(t1, strict) {
                Some(m) => Ok::<Option<LdapMsgModel>, CodecError>(Some(m)),
                None => Err(CodecError::Message),
            }
            &&& second.0 == Seq::<u8>::empty()
            &&& second.1 == match LdapMsg::spec_try_from(t2, strict) {
                Some(m) => Ok::<Option<LdapMsgModel>, CodecError>(Some(m)),
                None => Err(CodecError::Message),
            }
        },
{
    assert((e1 + e2).skip(e1.len() as int) =~= e2);
    assert(e2.skip(e2.len() as int) =~= Seq::<u8>::empty());
}

} // verus!
