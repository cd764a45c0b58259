//! Operations and whole messages.
//!
//! A message is a SEQUENCE of the message id, the operation and, where there
//! are controls, the controls in a context tag 0. The operation is an
//! application tag whose number says which operation it is.

use crate::ber::{
    at, tag_at, tag_model, BerClass, BerTag, PayloadModel, TagModel, INTEGER, SEQUENCE,
};
use crate::codes::need;
use crate::field::{
    constructed_field, get_constructed, get_integer, integer_field, integer_tag_model, number_tag,
};
use crate::proto::{
    decoded, LdapAddRequest, LdapBindRequest, LdapBindResponse, LdapControl, LdapControlModel,
    LdapExtendedRequest, LdapExtendedResponse, LdapIntermediateResponse, LdapModifyRequest,
    LdapMsg, LdapMsgModel, LdapOp, LdapOpModel, LdapResult, LdapSearchRequest,
    LdapSearchResultEntry,
};
use crate::prim::{integer_of, integer_value, text_content, text_of, text_value};
use crate::wire::{
    ber_parse, integer_content, integer_tag, parse, reads_back, Advance, ParseStep, StepModel,
};
use vstd::prelude::*;
use vstd::slice::slice_subrange;
use vstd::utf8::encode_utf8;

verus! {

broadcast use crate::prim::lemma_octets_deep_view;

/// Application tag number of a bind request.
pub const BIND_REQUEST: u64 = 0;

/// Application tag number of a bind response.
pub const BIND_RESPONSE: u64 = 1;

/// Application tag number of an unbind request.
pub const UNBIND_REQUEST: u64 = 2;

/// Application tag number of a search request.
pub const SEARCH_REQUEST: u64 = 3;

/// Application tag number of a search result entry.
pub const SEARCH_RESULT_ENTRY: u64 = 4;

/// Application tag number of the end of a search.
pub const SEARCH_RESULT_DONE: u64 = 5;

/// Application tag number of a modify request.
pub const MODIFY_REQUEST: u64 = 6;

/// Application tag number of a modify response.
pub const MODIFY_RESPONSE: u64 = 7;

/// Application tag number of an add request.
pub const ADD_REQUEST: u64 = 8;

/// Application tag number of an add response.
pub const ADD_RESPONSE: u64 = 9;

/// Application tag number of a delete request.
pub const DEL_REQUEST: u64 = 10;

/// Application tag number of a delete response.
pub const DEL_RESPONSE: u64 = 11;

/// Application tag number of an abandon request.
pub const ABANDON_REQUEST: u64 = 16;

/// Application tag number of an extended request.
pub const EXTENDED_REQUEST: u64 = 23;

/// Application tag number of an extended response.
pub const EXTENDED_RESPONSE: u64 = 24;

/// Application tag number of an intermediate response.
pub const INTERMEDIATE_RESPONSE: u64 = 25;

/// Context tag number of the controls of a message.
pub const CONTROLS: u64 = 0;

impl LdapOpModel {
    /// Whether reading the tag of this operation gives all of it back: results
    /// without referrals, a bind response without SASL credentials, limits and an
    /// abandoned id that are not negative, and an intermediate response that is
    /// canonical and whose structure, if it has one, parses from its own octets.
    pub open spec fn canonical(self) -> bool {
        match self {
            LdapOpModel::BindResponse(x) => x.canonical(),
            LdapOpModel::SearchRequest(x) => x.canonical(),
            LdapOpModel::SearchResultDone(x) => x.canonical(),
            LdapOpModel::ModifyResponse(x) => x.canonical(),
            LdapOpModel::AddResponse(x) => x.canonical(),
            LdapOpModel::DelResponse(x) => x.canonical(),
            LdapOpModel::AbandonRequest(id) => id >= 0,
            LdapOpModel::ExtendedResponse(x) => x.canonical(),
            LdapOpModel::IntermediateResponse(x) => x.canonical() && (
            LdapIntermediateResponse::spec_body(x) matches Some(b) ==> reads_back(b)),
            _ => true,
        }
    }
}

impl LdapOp {
    /// The operation that a tag holds. The tag is of class application; its
    /// number picks the operation, which is read from the nested tags, or for a
    /// delete and an abandon request from the octets. An unbind request takes any
    /// content. An abandoned id is cut to 32 bits.
    pub open spec fn spec_try_from(t: TagModel, strict: bool) -> Option<LdapOpModel> {
        if t.class != BerClass::Application {
            None
        } else if t.id == UNBIND_REQUEST {
            Some(LdapOpModel::UnbindRequest)
        } else {
            match t.payload {
                PayloadModel::Constructed(inner) => {
                    if t.id == BIND_REQUEST {
                        match LdapBindRequest::spec_try_from(inner) {
                            Some(x) => Some(LdapOpModel::BindRequest(x)),
                            None => None,
                        }
                    } else if t.id == BIND_RESPONSE {
                        match LdapBindResponse::spec_try_from(inner) {
                            Some(x) => Some(LdapOpModel::BindResponse(x)),
                            None => None,
                        }
                    } else if t.id == SEARCH_REQUEST {
                        match LdapSearchRequest::spec_try_from(inner, strict) {
                            Some(x) => Some(LdapOpModel::SearchRequest(x)),
                            None => None,
                        }
                    } else if t.id == SEARCH_RESULT_ENTRY {
                        match LdapSearchResultEntry::spec_try_from(inner) {
                            Some(x) => Some(LdapOpModel::SearchResultEntry(x)),
                            None => None,
                        }
                    } else if t.id == SEARCH_RESULT_DONE {
                        match LdapResult::spec_try_from(inner) {
                            Some(x) => Some(LdapOpModel::SearchResultDone(x)),
                            None => None,
                        }
                    } else if t.id == MODIFY_REQUEST {
                        match LdapModifyRequest::spec_try_from(inner) {
                            Some(x) => Some(LdapOpModel::ModifyRequest(x)),
                            None => None,
                        }
                    } else if t.id == MODIFY_RESPONSE {
                        match LdapResult::spec_try_from(inner) {
                            Some(x) => Some(LdapOpModel::ModifyResponse(x)),
                            None => None,
                        }
                    } else if t.id == ADD_REQUEST {
                        match LdapAddRequest::spec_try_from(inner) {
                            Some(x) => Some(LdapOpModel::AddRequest(x)),
                            None => None,
                        }
                    } else if t.id == ADD_RESPONSE {
                        match LdapResult::spec_try_from(inner) {
                            Some(x) => Some(LdapOpModel::AddResponse(x)),
                            None => None,
                        }
                    } else if t.id == DEL_RESPONSE {
                        match LdapResult::spec_try_from(inner) {
                            Some(x) => Some(LdapOpModel::DelResponse(x)),
                            None => None,
                        }
                    } else if t.id == EXTENDED_REQUEST {
                        match LdapExtendedRequest::spec_try_from(inner) {
                            Some(x) => Some(LdapOpModel::ExtendedRequest(x)),
                            None => None,
                        }
                    } else if t.id == EXTENDED_RESPONSE {
                        match LdapExtendedResponse::spec_try_from(inner) {
                            Some(x) => Some(LdapOpModel::ExtendedResponse(x)),
                            None => None,
                        }
                    } else if t.id == INTERMEDIATE_RESPONSE {
                        match LdapIntermediateResponse::spec_try_from(inner) {
                            Some(x) => Some(LdapOpModel::IntermediateResponse(x)),
                            None => None,
                        }
                    } else {
                        None
                    }
                },
                PayloadModel::Primitive(octets) => {
                    if t.id == DEL_REQUEST {
                        match text_value(octets) {
                            Some(dn) => Some(LdapOpModel::DelRequest(dn)),
                            None => None,
                        }
                    } else if t.id == ABANDON_REQUEST {
                        match integer_value(octets) {
                            Some(id) => Some(LdapOpModel::AbandonRequest(id as i32)),
                            None => None,
                        }
                    } else {
                        None
                    }
                },
            }
        }
    }

    /// The tag of an operation.
    pub open spec fn spec_to_tag(m: LdapOpModel) -> TagModel {
        let app = BerClass::Application;
        match m {
            LdapOpModel::BindRequest(x) => TagModel::new_constructed(
                app,
                BIND_REQUEST,
                LdapBindRequest::spec_to_tags(x),
            ),
            LdapOpModel::BindResponse(x) => TagModel::new_constructed(
                app,
                BIND_RESPONSE,
                LdapBindResponse::spec_to_tags(x),
            ),
            LdapOpModel::UnbindRequest => TagModel::new_primitive(
                app,
                UNBIND_REQUEST,
                Seq::empty(),
            ),
            LdapOpModel::SearchRequest(x) => TagModel::new_constructed(
                app,
                SEARCH_REQUEST,
                LdapSearchRequest::spec_to_tags(x),
            ),
            LdapOpModel::SearchResultEntry(x) => TagModel::new_constructed(
                app,
                SEARCH_RESULT_ENTRY,
                LdapSearchResultEntry::spec_to_tags(x),
            ),
            LdapOpModel::SearchResultDone(x) => TagModel::new_constructed(
                app,
                SEARCH_RESULT_DONE,
                LdapResult::spec_to_tags(x),
            ),
            LdapOpModel::ModifyRequest(x) => TagModel::new_constructed(
                app,
                MODIFY_REQUEST,
                LdapModifyRequest::spec_to_tags(x),
            ),
            LdapOpModel::ModifyResponse(x) => TagModel::new_constructed(
                app,
                MODIFY_RESPONSE,
                LdapResult::spec_to_tags(x),
            ),
            LdapOpModel::AddRequest(x) => TagModel::new_constructed(
                app,
                ADD_REQUEST,
                LdapAddRequest::spec_to_tags(x),
            ),
            LdapOpModel::AddResponse(x) => TagModel::new_constructed(
                app,
                ADD_RESPONSE,
                LdapResult::spec_to_tags(x),
            ),
            LdapOpModel::DelRequest(dn) => TagModel::new_primitive(
                app,
                DEL_REQUEST,
                encode_utf8(dn),
            ),
            LdapOpModel::DelResponse(x) => TagModel::new_constructed(
                app,
                DEL_RESPONSE,
                LdapResult::spec_to_tags(x),
            ),
            LdapOpModel::AbandonRequest(id) => TagModel::new_primitive(
                app,
                ABANDON_REQUEST,
                integer_content(id as i64),
            ),
            LdapOpModel::ExtendedRequest(x) => TagModel::new_constructed(
                app,
                EXTENDED_REQUEST,
                LdapExtendedRequest::spec_to_tags(x),
            ),
            LdapOpModel::ExtendedResponse(x) => TagModel::new_constructed(
                app,
                EXTENDED_RESPONSE,
                LdapExtendedResponse::spec_to_tags(x),
            ),
            LdapOpModel::IntermediateResponse(x) => TagModel::new_constructed(
                app,
                INTERMEDIATE_RESPONSE,
                LdapIntermediateResponse::spec_to_tags(x),
            ),
        }
    }

    /// Reads an operation, strictly or leniently.
    pub fn try_from(t: &BerTag, strict: bool) -> (r: Result<LdapOp, ()>)
        ensures
            decoded(r) == LdapOp::spec_try_from(t.deep_view(), strict),
    {
        if t.class != BerClass::Application {
            return Err(());
        }
        if t.id == UNBIND_REQUEST {
            return Ok(LdapOp::UnbindRequest);
        }
        match t.expect_constructed() {
            Some(inner) => {
                if t.id == BIND_REQUEST {
                    Ok(LdapOp::BindRequest(LdapBindRequest::try_from(inner)?))
                } else if t.id == BIND_RESPONSE {
                    Ok(LdapOp::BindResponse(LdapBindResponse::try_from(inner)?))
                } else if t.id == SEARCH_REQUEST {
                    Ok(LdapOp::SearchRequest(LdapSearchRequest::try_from(inner, strict)?))
                } else if t.id == SEARCH_RESULT_ENTRY {
                    Ok(LdapOp::SearchResultEntry(LdapSearchResultEntry::try_from(inner)?))
                } else if t.id == SEARCH_RESULT_DONE {
                    Ok(LdapOp::SearchResultDone(LdapResult::try_from_tag(inner)?))
                } else if t.id == MODIFY_REQUEST {
                    Ok(LdapOp::ModifyRequest(LdapModifyRequest::try_from(inner)?))
                } else if t.id == MODIFY_RESPONSE {
                    Ok(LdapOp::ModifyResponse(LdapResult::try_from_tag(inner)?))
                } else if t.id == ADD_REQUEST {
                    Ok(LdapOp::AddRequest(LdapAddRequest::try_from(inner)?))
                } else if t.id == ADD_RESPONSE {
                    Ok(LdapOp::AddResponse(LdapResult::try_from_tag(inner)?))
                } else if t.id == DEL_RESPONSE {
                    Ok(LdapOp::DelResponse(LdapResult::try_from_tag(inner)?))
                } else if t.id == EXTENDED_REQUEST {
                    Ok(LdapOp::ExtendedRequest(LdapExtendedRequest::try_from(inner)?))
                } else if t.id == EXTENDED_RESPONSE {
                    Ok(LdapOp::ExtendedResponse(LdapExtendedResponse::try_from(inner)?))
                } else if t.id == INTERMEDIATE_RESPONSE {
                    Ok(LdapOp::IntermediateResponse(LdapIntermediateResponse::try_from(inner)?))
                } else {
                    Err(())
                }
            },
            None => {
                let octets = need(t.expect_primitive())?;
                if t.id == DEL_REQUEST {
                    Ok(LdapOp::DelRequest(need(text_of(octets))?))
                } else if t.id == ABANDON_REQUEST {
                    let id = need(integer_of(octets.as_slice()))?;
                    Ok(LdapOp::AbandonRequest(#[verifier::truncate] (id as i32)))
                } else {
                    Err(())
                }
            },
        }
    }

    /// The tag of an operation. Reading it, strictly or leniently, gives the
    /// operation back where the operation is canonical.
    pub fn to_tag(&self) -> (r: BerTag)
        ensures
            r.deep_view() == LdapOp::spec_to_tag(self.deep_view()),
            forall|strict: bool|
                self.deep_view().canonical() ==> #[trigger] LdapOp::spec_try_from(
                    r.deep_view(),
                    strict,
                ) == Some(self.deep_view()),
    {
        let app = BerClass::Application;
        proof {
            let m = self.deep_view();
            assert forall|strict: bool| m.canonical() implies #[trigger] LdapOp::spec_try_from(
                LdapOp::spec_to_tag(m),
                strict,
            ) == Some(m) by {
                LdapOp::lemma_round_trip(m, strict);
            }
        }
        match self {
            LdapOp::BindRequest(x) => BerTag::constructed(app, BIND_REQUEST, x.to_tags()),
            LdapOp::BindResponse(x) => BerTag::constructed(app, BIND_RESPONSE, x.to_tags()),
            LdapOp::UnbindRequest => BerTag::primitive(app, UNBIND_REQUEST, Vec::new()),
            LdapOp::SearchRequest(x) => BerTag::constructed(app, SEARCH_REQUEST, x.to_tags()),
            LdapOp::SearchResultEntry(x) => BerTag::constructed(
                app,
                SEARCH_RESULT_ENTRY,
                x.to_tags(),
            ),
            LdapOp::SearchResultDone(x) => BerTag::constructed(
                app,
                SEARCH_RESULT_DONE,
                x.to_tags(),
            ),
            LdapOp::ModifyRequest(x) => BerTag::constructed(app, MODIFY_REQUEST, x.to_tags()),
            LdapOp::ModifyResponse(x) => BerTag::constructed(app, MODIFY_RESPONSE, x.to_tags()),
            LdapOp::AddRequest(x) => BerTag::constructed(app, ADD_REQUEST, x.to_tags()),
            LdapOp::AddResponse(x) => BerTag::constructed(app, ADD_RESPONSE, x.to_tags()),
            LdapOp::DelRequest(dn) => BerTag::primitive(
                app,
                DEL_REQUEST,
                text_content(dn.as_str()),
            ),
            LdapOp::DelResponse(x) => BerTag::constructed(app, DEL_RESPONSE, x.to_tags()),
            LdapOp::AbandonRequest(id) => integer_tag(app, ABANDON_REQUEST, *id as i64),
            LdapOp::ExtendedRequest(x) => BerTag::constructed(app, EXTENDED_REQUEST, x.to_tags()),
            LdapOp::ExtendedResponse(x) => BerTag::constructed(
                app,
                EXTENDED_RESPONSE,
                x.to_tags(),
            ),
            LdapOp::IntermediateResponse(x) => BerTag::constructed(
                app,
                INTERMEDIATE_RESPONSE,
                x.to_tags(),
            ),
        }
    }

    /// Reading the tag of a canonical operation, strictly or leniently, gives
    /// the operation back.
    pub proof fn lemma_round_trip(m: LdapOpModel, strict: bool)
        ensures
            m.canonical() ==> LdapOp::spec_try_from(LdapOp::spec_to_tag(m), strict) == Some(m),
    {
        if m.canonical() {
            match m {
                LdapOpModel::BindRequest(x) => {
                    LdapBindRequest::lemma_round_trip(x);
                },
                LdapOpModel::BindResponse(x) => {
                    LdapBindResponse::lemma_round_trip(x);
                },
                LdapOpModel::UnbindRequest => {},
                LdapOpModel::SearchRequest(x) => {
                    LdapSearchRequest::lemma_round_trip(x, strict);
                },
                LdapOpModel::SearchResultEntry(x) => {
                    LdapSearchResultEntry::lemma_round_trip(x);
                },
                LdapOpModel::SearchResultDone(x) => {
                    LdapResult::lemma_round_trip(x);
                },
                LdapOpModel::ModifyRequest(x) => {
                    LdapModifyRequest::lemma_round_trip(x);
                },
                LdapOpModel::ModifyResponse(x) => {
                    LdapResult::lemma_round_trip(x);
                },
                LdapOpModel::AddRequest(x) => {
                    LdapAddRequest::lemma_round_trip(x);
                },
                LdapOpModel::AddResponse(x) => {
                    LdapResult::lemma_round_trip(x);
                },
                LdapOpModel::DelRequest(dn) => {
                    crate::prim::lemma_text_round_trip(dn);
                },
                LdapOpModel::DelResponse(x) => {
                    LdapResult::lemma_round_trip(x);
                },
                LdapOpModel::AbandonRequest(id) => {
                    crate::wire::lemma_integer_reads_back(id as i64);
                },
                LdapOpModel::ExtendedRequest(x) => {
                    LdapExtendedRequest::lemma_round_trip(x);
                },
                LdapOpModel::ExtendedResponse(x) => {
                    LdapExtendedResponse::lemma_round_trip(x);
                },
                LdapOpModel::IntermediateResponse(x) => {
                    LdapIntermediateResponse::lemma_round_trip(x);
                },
            }
        }
    }
}

impl LdapMsgModel {
    /// Whether reading the tag of this message gives all of it back: an id
    /// that is not negative, a canonical operation, and controls that are canonical
    /// and whose structures parse from their own octets.
    pub open spec fn canonical(self) -> bool {
        &&& self.msgid >= 0
        &&& self.op.canonical()
        &&& forall|i: int|
            0 <= i < self.ctrl.len() ==> (#[trigger] self.ctrl[i]).canonical() && reads_back(
                LdapControl::spec_body(self.ctrl[i]),
            )
    }
}

impl LdapMsg {
    /// The controls that a list of tags holds, in their order. A tag that
    /// holds no control is passed over.
    pub open spec fn spec_controls_from(tags: Seq<TagModel>) -> Seq<LdapControlModel>
        decreases tags.len(),
    {
        if tags.len() == 0 {
            Seq::empty()
        } else {
            let init = LdapMsg::spec_controls_from(tags.drop_last());
            match LdapControl::spec_try_from(tags.last()) {
                Some(c) => init.push(c),
                None => init,
            }
        }
    }

    /// The number of tags in a list that hold no control.
    pub open spec fn spec_controls_skipped(tags: Seq<TagModel>) -> nat
        decreases tags.len(),
    {
        if tags.len() == 0 {
            0
        } else {
            LdapMsg::spec_controls_skipped(tags.drop_last()) + if LdapControl::spec_try_from(
                tags.last(),
            ) is None {
                1nat
            } else {
                0nat
            }
        }
    }

    /// The number of tags among the controls of a message that hold no
    /// control, and are passed over when the message is read.
    pub open spec fn spec_skipped(t: TagModel) -> nat {
        match t.constructed() {
            Some(seq) => match constructed_field(
                LdapMsg::spec_controls_tag(seq),
                BerClass::Context,
                CONTROLS,
            ) {
                Some(list) => LdapMsg::spec_controls_skipped(list),
                None => 0,
            },
            None => 0,
        }
    }

    /// The tags of a list of controls.
    pub open spec fn spec_controls_to(list: Seq<LdapControlModel>) -> Seq<TagModel> {
        list.map_values(|c: LdapControlModel| LdapControl::spec_to_tag(c))
    }

    /// The tag that holds the controls among the fields of a message: the
    /// third of three.
    pub open spec fn spec_controls_tag(seq: Seq<TagModel>) -> Option<TagModel> {
        if seq.len() == 3 {
            at(seq, 2)
        } else {
            None
        }
    }

    /// The message that a tag holds. The tag has the number of a SEQUENCE and
    /// two or three fields: the id, an INTEGER that is cut to 32 bits; the
    /// operation; and the controls, read where the third field is a constructed
    /// context tag 0 and taken as none otherwise.
    pub open spec fn spec_try_from(t: TagModel, strict: bool) -> Option<LdapMsgModel> {
        if t.id != SEQUENCE {
            None
        } else {
            match t.constructed() {
                Some(seq) => if seq.len() == 2 || seq.len() == 3 {
                    match (integer_field(at(seq, 0), INTEGER), at(seq, 1)) {
                        (Some(id), Some(op)) => match LdapOp::spec_try_from(op, strict) {
                            Some(op) => Some(
                                LdapMsgModel {
                                    msgid: id as i32,
                                    op,
                                    ctrl: match constructed_field(
                                        LdapMsg::spec_controls_tag(seq),
                                        BerClass::Context,
                                        CONTROLS,
                                    ) {
                                        Some(list) => LdapMsg::spec_controls_from(list),
                                        None => Seq::empty(),
                                    },
                                },
                            ),
                            None => None,
                        },
                        _ => None,
                    }
                } else {
                    None
                },
                None => None,
            }
        }
    }

    /// The tag of a message.
    pub open spec fn spec_to_tag(m: LdapMsgModel) -> TagModel {
        let head = seq![integer_tag_model(INTEGER, m.msgid as i64), LdapOp::spec_to_tag(m.op)];
        TagModel::new_constructed(
            BerClass::Universal,
            SEQUENCE,
            if m.ctrl.len() > 0 {
                head.push(
                    TagModel::new_constructed(
                        BerClass::Context,
                        CONTROLS,
                        LdapMsg::spec_controls_to(m.ctrl),
                    ),
                )
            } else {
                head
            },
        )
    }

    /// A message without controls.
    pub fn new(msgid: i32, op: LdapOp) -> (r: LdapMsg)
        ensures
            r.deep_view() == (LdapMsgModel { msgid, op: op.deep_view(), ctrl: Seq::empty() }),
    {
        let r = LdapMsg { msgid, op, ctrl: Vec::new() };
        proof {
            assert(r.ctrl.deep_view() =~= Seq::<LdapControlModel>::empty());
        }
        r
    }

    /// A message with controls.
    pub fn new_with_ctrls(msgid: i32, op: LdapOp, ctrl: Vec<LdapControl>) -> (r: LdapMsg)
        ensures
            r.deep_view() == (LdapMsgModel {
                msgid,
                op: op.deep_view(),
                ctrl: ctrl.deep_view(),
            }),
    {
        LdapMsg { msgid, op, ctrl }
    }

    /// Reads the controls of a message, passing over what holds none.
    pub fn controls_from(tags: &Vec<BerTag>) -> (r: Vec<LdapControl>)
        ensures
            r.deep_view() == LdapMsg::spec_controls_from(tags.deep_view()),
    {
        let (out, _) = LdapMsg::controls_counting(tags);
        out
    }

    /// Reads the controls of a message, and counts the tags that hold none
    /// and are passed over.
    pub fn controls_counting(tags: &Vec<BerTag>) -> (r: (Vec<LdapControl>, usize))
        ensures
            r.0.deep_view() == LdapMsg::spec_controls_from(tags.deep_view()),
            r.1 == LdapMsg::spec_controls_skipped(tags.deep_view()),
    {
        let ghost m = tags.deep_view();
        let mut out: Vec<LdapControl> = Vec::new();
        let mut skipped: usize = 0;
        let mut i: usize = 0;
        proof {
            assert(m.take(0) =~= Seq::<TagModel>::empty());
            assert(out.deep_view() =~= Seq::<LdapControlModel>::empty());
        }
        while i < tags.len()
            invariant
                i <= tags.len(),
                m == tags.deep_view(),
                out.deep_view() == LdapMsg::spec_controls_from(m.take(i as int)),
                skipped == LdapMsg::spec_controls_skipped(m.take(i as int)),
                skipped <= i,
            decreases tags.len() - i,
        {
            proof {
                assert(m.take(i + 1).drop_last() =~= m.take(i as int));
                assert(m.take(i + 1).last() == tag_model(tags@[i as int]));
            }
            let ghost before = out.deep_view();
            match LdapControl::try_from(&tags[i]) {
                Ok(c) => {
                    out.push(c);
                    proof {
                        assert(out.deep_view() =~= before.push(c.deep_view()));
                    }
                },
                Err(_) => {
                    skipped += 1;
                },
            }
            i += 1;
        }
        proof {
            assert(m.take(tags.len() as int) =~= m);
        }
        (out, skipped)
    }

    /// Every tag of a list of controls is either read or passed over.
    pub proof fn lemma_controls_count(tags: Seq<TagModel>)
        ensures
            LdapMsg::spec_controls_from(tags).len() + LdapMsg::spec_controls_skipped(tags)
                == tags.len(),
        decreases tags.len(),
    {
        if tags.len() > 0 {
            LdapMsg::lemma_controls_count(tags.drop_last());
        }
    }

    /// Reads a message, strictly or leniently.
    pub fn try_from(t: &BerTag, strict: bool) -> (r: Result<LdapMsg, ()>)
        ensures
            decoded(r) == LdapMsg::spec_try_from(t.deep_view(), strict),
    {
        match LdapMsg::try_from_counting(t, strict) {
            Ok((msg, _)) => Ok(msg),
            Err(_) => Err(()),
        }
    }

    /// Reads a message, strictly or leniently, and counts the control tags
    /// that hold no control and are passed over, so that a caller can report them.
    pub fn try_from_counting(t: &BerTag, strict: bool) -> (r: Result<(LdapMsg, usize), ()>)
        ensures
            match r {
                Ok((msg, skipped)) => LdapMsg::spec_try_from(t.deep_view(), strict) == Some(
                    msg.deep_view(),
                ) && skipped == LdapMsg::spec_skipped(t.deep_view()),
                Err(_) => LdapMsg::spec_try_from(t.deep_view(), strict) is None,
            },
    {
        if t.id != SEQUENCE {
            return Err(());
        }
        let seq = need(t.expect_constructed())?;
        let n = seq.len();
        if n != 2 && n != 3 {
            return Err(());
        }
        let id = need(get_integer(tag_at(seq, 0), INTEGER))?;
        let op_tag = need(tag_at(seq, 1))?;
        let op = LdapOp::try_from(op_tag, strict)?;
        let controls_tag = if n == 3 {
            tag_at(seq, 2)
        } else {
            None
        };
        let (ctrl, skipped) = match get_constructed(controls_tag, BerClass::Context, CONTROLS) {
            Some(list) => LdapMsg::controls_counting(list),
            None => {
                let none: Vec<LdapControl> = Vec::new();
                proof {
                    assert(none.deep_view() =~= Seq::<LdapControlModel>::empty());
                }
                (none, 0)
            },
        };
        Ok((LdapMsg { msgid: #[verifier::truncate] (id as i32), op, ctrl }, skipped))
    }

    /// The tags of the controls of a message.
    fn controls_to(list: &Vec<LdapControl>) -> (r: Vec<BerTag>)
        ensures
            r.deep_view() == LdapMsg::spec_controls_to(list.deep_view()),
    {
        let ghost m = list.deep_view();
        let mut out: Vec<BerTag> = Vec::new();
        let mut i: usize = 0;
        while i < list.len()
            invariant
                i <= list.len(),
                out.len() == i,
                m == list.deep_view(),
                forall|j: int|
                    0 <= j < i ==> tag_model(#[trigger] out@[j]) == LdapControl::spec_to_tag(m[j]),
            decreases list.len() - i,
        {
            out.push(list[i].to_tag());
            i += 1;
        }
        proof {
            assert(out.deep_view() =~= LdapMsg::spec_controls_to(m));
        }
        out
    }

    /// Reading a list of tags of which each reads back as its control gives the controls.
    pub proof fn lemma_controls_are(tags: Seq<TagModel>, list: Seq<LdapControlModel>)
        requires
            tags.len() == list.len(),
            forall|i: int|
                0 <= i < tags.len() ==> LdapControl::spec_try_from(#[trigger] tags[i]) == Some(
                    list[i],
                ),
        ensures
            LdapMsg::spec_controls_from(tags) == list,
        decreases tags.len(),
    {
        if tags.len() > 0 {
            LdapMsg::lemma_controls_are(tags.drop_last(), list.drop_last());
            assert(LdapControl::spec_try_from(tags[tags.len() - 1]) == Some(list.last()));
            assert(list.drop_last().push(list.last()) =~= list);
        } else {
            assert(list =~= Seq::<LdapControlModel>::empty());
        }
    }

    /// The tag of a message. Reading it, strictly or leniently, gives the
    /// message back where the message is canonical.
    pub fn to_tag(&self) -> (r: BerTag)
        ensures
            r.deep_view() == LdapMsg::spec_to_tag(self.deep_view()),
            forall|strict: bool|
                self.deep_view().canonical() ==> #[trigger] LdapMsg::spec_try_from(
                    r.deep_view(),
                    strict,
                ) == Some(self.deep_view()),
    {
        let ghost m = self.deep_view();
        let mut out: Vec<BerTag> = Vec::new();
        out.push(number_tag(INTEGER, self.msgid as i64));
        let op = self.op.to_tag();
        out.push(op);
        let ghost head = out.deep_view();
        proof {
            assert(head =~= seq![
                integer_tag_model(INTEGER, m.msgid as i64),
                LdapOp::spec_to_tag(m.op),
            ]);
        }
        if self.ctrl.len() > 0 {
            let list = LdapMsg::controls_to(&self.ctrl);
            let c = BerTag::constructed(BerClass::Context, CONTROLS, list);
            out.push(c);
            proof {
                assert(out.deep_view() =~= head.push(tag_model(c)));
            }
        } else {
            proof {
                assert(m.ctrl =~= Seq::<LdapControlModel>::empty());
            }
        }
        proof {
            assert(out.deep_view() =~= LdapMsg::spec_to_tag(m).payload->Constructed_0);
            assert forall|strict: bool| m.canonical() implies #[trigger] LdapMsg::spec_try_from(
                LdapMsg::spec_to_tag(m),
                strict,
            ) == Some(m) by {
                LdapMsg::lemma_round_trip(m, strict);
            }
        }
        BerTag::sequence(out)
    }

    /// Reading the tag of a canonical message, strictly or leniently, gives
    /// the message back.
    pub proof fn lemma_round_trip(m: LdapMsgModel, strict: bool)
        ensures
            m.canonical() ==> LdapMsg::spec_try_from(LdapMsg::spec_to_tag(m), strict) == Some(m),
    {
        if m.canonical() {
            crate::wire::lemma_integer_reads_back(m.msgid as i64);
            LdapOp::lemma_round_trip(m.op, strict);
            let t = LdapMsg::spec_to_tag(m);
            let seq = t.payload->Constructed_0;
            assert(t.constructed() == Some(seq));
            assert(at(seq, 0) == Some(integer_tag_model(INTEGER, m.msgid as i64)));
            assert(at(seq, 1) == Some(LdapOp::spec_to_tag(m.op)));
            assert(integer_field(at(seq, 0), INTEGER) == Some(m.msgid as i64));
            if m.ctrl.len() > 0 {
                let tags = LdapMsg::spec_controls_to(m.ctrl);
                assert forall|i: int| 0 <= i < tags.len() implies LdapControl::spec_try_from(
                    #[trigger] tags[i],
                ) == Some(m.ctrl[i]) by {
                    assert(m.ctrl[i].canonical());
                    LdapControl::lemma_round_trip(m.ctrl[i]);
                }
                LdapMsg::lemma_controls_are(tags, m.ctrl);
                assert(seq.len() == 3);
                assert(constructed_field(
                    LdapMsg::spec_controls_tag(seq),
                    BerClass::Context,
                    CONTROLS,
                ) == Some(tags));
            } else {
                assert(seq.len() == 2);
                assert(m.ctrl =~= Seq::<LdapControlModel>::empty());
            }
            let got = LdapMsg::spec_try_from(t, strict);
            assert(got is Some);
            assert(got->0.ctrl == m.ctrl);
            assert(got->0.msgid == m.msgid);
        }
    }

    /// Builds a message from the tags of a memory dump: the id and the
    /// operation, read leniently. Controls are not read.
    pub open spec fn spec_from_dump_tags(id: TagModel, op: TagModel) -> Option<LdapMsgModel> {
        match (integer_field(Some(id), INTEGER), LdapOp::spec_try_from(op, false)) {
            (Some(id), Some(op)) => Some(
                LdapMsgModel { msgid: id as i32, op, ctrl: Seq::empty() },
            ),
            _ => None,
        }
    }

    /// Builds a message from the first two tags of a memory dump.
    pub fn from_dump_tags(id: &BerTag, op: &BerTag) -> (r: Result<LdapMsg, ()>)
        ensures
            decoded(r) == LdapMsg::spec_from_dump_tags(id.deep_view(), op.deep_view()),
    {
        let id = need(get_integer(Some(id), INTEGER))?;
        let op = LdapOp::try_from(op, false)?;
        let r = LdapMsg { msgid: #[verifier::truncate] (id as i32), op, ctrl: Vec::new() };
        proof {
            assert(r.ctrl.deep_view() =~= Seq::<LdapControlModel>::empty());
        }
        Ok(r)
    }
}

impl LdapMsg {
    /// The message in a memory dump: three BER values one after another, the
    /// id, the operation and, unless the dump ends there, one more that is parsed
    /// and not read. Each must parse whole.
    pub open spec fn spec_try_from_openldap_mem_dump(bytes: Seq<u8>) -> Option<LdapMsgModel> {
        match ber_parse(bytes) {
            StepModel::Done(Advance::Consume(n1), id) => if n1 <= bytes.len() {
                let rest = bytes.skip(n1 as int);
                match ber_parse(rest) {
                    StepModel::Done(Advance::Consume(n2), op) => if n2 <= rest.len() {
                        let last = rest.skip(n2 as int);
                        if last.len() == 0 || ber_parse(
                            last,
                        ) matches StepModel::Done(Advance::Consume(_), _) {
                            LdapMsg::spec_from_dump_tags(id, op)
                        } else {
                            None
                        }
                    } else {
                        None
                    },
                    _ => None,
                }
            } else {
                None
            },
            _ => None,
        }
    }

    /// Reads a message from a memory dump of OpenLDAP.
    pub fn try_from_openldap_mem_dump(bytes: &[u8]) -> (r: Result<LdapMsg, ()>)
        ensures
            decoded(r) == LdapMsg::spec_try_from_openldap_mem_dump(bytes@),
    {
        let (n1, id) = match parse(bytes) {
            ParseStep::Done(Advance::Consume(n), t) => (n, t),
            _ => {
                return Err(());
            },
        };
        let rest = slice_subrange(bytes, n1, bytes.len());
        proof {
            assert(rest@ =~= bytes@.skip(n1 as int));
        }
        let (n2, op) = match parse(rest) {
            ParseStep::Done(Advance::Consume(n), t) => (n, t),
            _ => {
                return Err(());
            },
        };
        let last = slice_subrange(rest, n2, rest.len());
        proof {
            assert(last@ =~= rest@.skip(n2 as int));
        }
        if last.len() > 0 {
            match parse(last) {
                ParseStep::Done(Advance::Consume(_), _) => {},
                _ => {
                    return Err(());
                },
            }
        }
        LdapMsg::from_dump_tags(&id, &op)
    }
}

} // verus!
