//! Two extended operations by name: "who am I" and password modify.
//!
//! Each is an extended request or response with a fixed OID. The value of a
//! password modify operation holds BER octets of its own.

use crate::ber::{tag_model, BerClass, BerTag, TagModel, SEQUENCE};
use crate::codes::need;
use crate::extended::{get_optional_text, optional_text};
use crate::field::text_tag_of;
use crate::intermediate::{from_end, tag_from_end};
use crate::proto::{
    decoded, LdapExtendedRequest, LdapExtendedRequestModel, LdapExtendedResponse,
    LdapExtendedResponseModel, LdapPasswordModifyRequest, LdapPasswordModifyRequestModel,
    LdapPasswordModifyResponse, LdapPasswordModifyResponseModel, LdapWhoamiRequest,
    LdapWhoamiResponse, LdapWhoamiResponseModel,
};
use crate::prim::{same_text, text_of, text_value};
use crate::wire::{ber_encoding, ber_parse, encode, parse, reads_back, ParseStep, StepModel};
use vstd::prelude::*;
use vstd::string::StringExecFns;
use vstd::utf8::encode_utf8;

verus! {

broadcast use crate::prim::lemma_octets_deep_view;

/// The OID of the "who am I" operation.
pub const WHOAMI_OID: &'static str = "1.3.6.1.4.1.4203.1.11.3";

/// The OID of the password modify operation.
pub const PASSWORD_MODIFY_OID: &'static str = "1.3.6.1.4.1.4203.1.11.1";

/// Context tag number of the user identity in a password modify request.
pub const USER_IDENTITY: u64 = 0;

/// Context tag number of the old password in a password modify request.
pub const OLD_PASSWORD: u64 = 1;

/// Context tag number of the new password in a password modify request.
pub const NEW_PASSWORD: u64 = 2;

/// Context tag number of the generated password in a password modify response.
pub const GEN_PASSWORD: u64 = 0;

impl LdapExtendedRequest {
    /// The extended request of "who am I": its OID, and no value.
    pub fn from_whoami(_value: LdapWhoamiRequest) -> (r: LdapExtendedRequest)
        ensures
            r.deep_view() == (LdapExtendedRequestModel { name: WHOAMI_OID@, value: None }),
    {
        LdapExtendedRequest { name: String::from_str(WHOAMI_OID), value: None }
    }

    /// The extended request of a password modify request: its OID, and as the
    /// value the octets of the request's structure. Read as a password modify
    /// request, it gives the request back, where those octets parse as the
    /// structure.
    pub fn from_password_modify(value: LdapPasswordModifyRequest) -> (r: LdapExtendedRequest)
        ensures
            r.deep_view() == LdapPasswordModifyRequest::spec_to_extended(value.deep_view()),
            reads_back(LdapPasswordModifyRequest::spec_body(value.deep_view()))
                ==> LdapPasswordModifyRequest::spec_try_from(r.deep_view()) == Some(
                value.deep_view(),
            ),
    {
        let body = value.body();
        let octets = encode(&body);
        proof {
            LdapPasswordModifyRequest::lemma_round_trip(value.deep_view());
        }
        LdapExtendedRequest { name: String::from_str(PASSWORD_MODIFY_OID), value: Some(octets) }
    }
}

impl LdapWhoamiResponse {
    /// The answer that an extended response holds: it has no name, and its
    /// value, where it is UTF-8, is the DN.
    pub open spec fn spec_try_from(m: LdapExtendedResponseModel) -> Option<
        LdapWhoamiResponseModel,
    > {
        if m.name is Some {
            None
        } else {
            Some(
                LdapWhoamiResponseModel {
                    dn: match m.value {
                        Some(b) => text_value(b),
                        None => None,
                    },
                },
            )
        }
    }

    /// Reads the answer to "who am I" from an extended response.
    pub fn try_from(value: &LdapExtendedResponse) -> (r: Result<LdapWhoamiResponse, ()>)
        ensures
            decoded(r) == LdapWhoamiResponse::spec_try_from(value.deep_view()),
    {
        if value.name.is_some() {
            return Err(());
        }
        let dn = match &value.value {
            Some(b) => text_of(b),
            None => None,
        };
        Ok(LdapWhoamiResponse { dn })
    }
}

impl LdapPasswordModifyRequest {
    /// One field as a list of no tag or one.
    pub open spec fn spec_field(id: u64, text: Option<Seq<char>>) -> Seq<TagModel> {
        match text {
            Some(s) => seq![TagModel::new_primitive(BerClass::Context, id, encode_utf8(s))],
            None => seq![],
        }
    }

    /// The structure of the request: a SEQUENCE of the fields that are there.
    pub open spec fn spec_body(m: LdapPasswordModifyRequestModel) -> TagModel {
        TagModel::new_constructed(
            BerClass::Universal,
            SEQUENCE,
            LdapPasswordModifyRequest::spec_field(USER_IDENTITY, m.user_identity)
                + LdapPasswordModifyRequest::spec_field(OLD_PASSWORD, m.old_password)
                + LdapPasswordModifyRequest::spec_field(NEW_PASSWORD, m.new_password),
        )
    }

    /// The request that a list of fields holds. Every field is primitive, holds
    /// text and has one of the three tag numbers; of two with one number the
    /// later counts.
    pub open spec fn spec_fields(inner: Seq<TagModel>) -> Option<LdapPasswordModifyRequestModel>
        decreases inner.len(),
    {
        if inner.len() == 0 {
            Some(
                LdapPasswordModifyRequestModel {
                    user_identity: None,
                    old_password: None,
                    new_password: None,
                },
            )
        } else {
            match (
                LdapPasswordModifyRequest::spec_fields(inner.drop_last()),
                optional_text(Some(inner.last())),
            ) {
                (Some(m), Some(s)) => {
                    let id = inner.last().id;
                    if id == USER_IDENTITY {
                        Some(LdapPasswordModifyRequestModel { user_identity: Some(s), ..m })
                    } else if id == OLD_PASSWORD {
                        Some(LdapPasswordModifyRequestModel { old_password: Some(s), ..m })
                    } else if id == NEW_PASSWORD {
                        Some(LdapPasswordModifyRequestModel { new_password: Some(s), ..m })
                    } else {
                        None
                    }
                },
                _ => None,
            }
        }
    }

    /// The extended request that carries a password modify request.
    pub open spec fn spec_to_extended(m: LdapPasswordModifyRequestModel) -> LdapExtendedRequestModel {
        LdapExtendedRequestModel {
            name: PASSWORD_MODIFY_OID@,
            value: Some(ber_encoding(LdapPasswordModifyRequest::spec_body(m))),
        }
    }

    /// A password modify request, carried by an extended request and read
    /// from it, is the same request, where the octets of its structure parse as
    /// that structure.
    pub proof fn lemma_round_trip(m: LdapPasswordModifyRequestModel)
        ensures
            reads_back(LdapPasswordModifyRequest::spec_body(m))
                ==> LdapPasswordModifyRequest::spec_try_from(
                LdapPasswordModifyRequest::spec_to_extended(m),
            ) == Some(m),
    {
        LdapPasswordModifyRequest::lemma_fields(m);
    }

    /// The request in a parsed value: a constructed tag with the number of a
    /// SEQUENCE, whose fields are read by [`Self::spec_fields`].
    pub open spec fn spec_from_parsed(step: StepModel) -> Option<LdapPasswordModifyRequestModel> {
        match step {
            StepModel::Done(_, t) => if t.id == SEQUENCE {
                match t.constructed() {
                    Some(inner) => LdapPasswordModifyRequest::spec_fields(inner),
                    None => None,
                }
            } else {
                None
            },
            _ => None,
        }
    }

    /// The request that an extended request holds: the request has the OID of
    /// password modify and a value, and the value is parsed.
    pub open spec fn spec_try_from(m: LdapExtendedRequestModel) -> Option<
        LdapPasswordModifyRequestModel,
    > {
        if m.name == PASSWORD_MODIFY_OID@ && m.value is Some {
            LdapPasswordModifyRequest::spec_from_parsed(ber_parse(m.value->0))
        } else {
            None
        }
    }

    /// Appends the tag of a field, if the field is there.
    fn push_field(out: &mut Vec<BerTag>, id: u64, text: &Option<String>)
        ensures
            final(out).deep_view() == old(out).deep_view() + LdapPasswordModifyRequest::spec_field(
                id,
                text.deep_view(),
            ),
    {
        let ghost before = out.deep_view();
        match text {
            Some(s) => {
                out.push(text_tag_of(BerClass::Context, id, s.as_str()));
            },
            None => {},
        }
        proof {
            assert(out.deep_view() =~= before + LdapPasswordModifyRequest::spec_field(
                id,
                text.deep_view(),
            ));
        }
    }

    /// The structure of the request. Read as a parsed value, it gives the
    /// request back.
    pub fn body(&self) -> (r: BerTag)
        ensures
            r.deep_view() == LdapPasswordModifyRequest::spec_body(self.deep_view()),
            forall|a: crate::wire::Advance| #[trigger]
                LdapPasswordModifyRequest::spec_from_parsed(StepModel::Done(a, r.deep_view()))
                    == Some(self.deep_view()),
    {
        let mut out: Vec<BerTag> = Vec::new();
        LdapPasswordModifyRequest::push_field(&mut out, USER_IDENTITY, &self.user_identity);
        LdapPasswordModifyRequest::push_field(&mut out, OLD_PASSWORD, &self.old_password);
        LdapPasswordModifyRequest::push_field(&mut out, NEW_PASSWORD, &self.new_password);
        proof {
            let m = self.deep_view();
            let inner = out.deep_view();
            assert(inner =~= LdapPasswordModifyRequest::spec_body(m).payload->Constructed_0);
            LdapPasswordModifyRequest::lemma_fields(m);
        }
        BerTag::sequence(out)
    }

    /// Reading the fields of a request gives the request back.
    pub proof fn lemma_fields(m: LdapPasswordModifyRequestModel)
        ensures
            LdapPasswordModifyRequest::spec_fields(
                LdapPasswordModifyRequest::spec_body(m).payload->Constructed_0,
            ) == Some(m),
    {
        let u = LdapPasswordModifyRequest::spec_field(USER_IDENTITY, m.user_identity);
        let o = LdapPasswordModifyRequest::spec_field(OLD_PASSWORD, m.old_password);
        let n = LdapPasswordModifyRequest::spec_field(NEW_PASSWORD, m.new_password);
        let none = LdapPasswordModifyRequestModel {
            user_identity: None,
            old_password: None,
            new_password: None,
        };
        let m1 = LdapPasswordModifyRequestModel { user_identity: m.user_identity, ..none };
        let m2 = LdapPasswordModifyRequestModel { old_password: m.old_password, ..m1 };
        reveal_with_fuel(LdapPasswordModifyRequest::spec_fields, 2);
        if m.user_identity is Some {
            crate::prim::lemma_text_round_trip(m.user_identity->0);
            assert(u.drop_last() =~= Seq::<TagModel>::empty());
        }
        assert(LdapPasswordModifyRequest::spec_fields(u) == Some(m1));
        if m.old_password is Some {
            crate::prim::lemma_text_round_trip(m.old_password->0);
            assert((u + o).drop_last() =~= u);
        } else {
            assert(u + o =~= u);
        }
        assert(LdapPasswordModifyRequest::spec_fields(u + o) == Some(m2));
        if m.new_password is Some {
            crate::prim::lemma_text_round_trip(m.new_password->0);
            assert((u + o + n).drop_last() =~= u + o);
        } else {
            assert(u + o + n =~= u + o);
        }
        assert(LdapPasswordModifyRequest::spec_fields(u + o + n) == Some(m));
    }

    /// Reads the fields of a request.
    fn fields_from(inner: &Vec<BerTag>) -> (r: Result<LdapPasswordModifyRequest, ()>)
        ensures
            decoded(r) == LdapPasswordModifyRequest::spec_fields(inner.deep_view()),
    {
        let ghost m = inner.deep_view();
        let mut out = LdapPasswordModifyRequest {
            user_identity: None,
            old_password: None,
            new_password: None,
        };
        let mut i: usize = 0;
        proof {
            assert(m.take(0) =~= Seq::<TagModel>::empty());
        }
        while i < inner.len()
            invariant
                i <= inner.len(),
                m == inner.deep_view(),
                LdapPasswordModifyRequest::spec_fields(m.take(i as int)) == Some(out.deep_view()),
            decreases inner.len() - i,
        {
            proof {
                assert(m.take(i + 1).drop_last() =~= m.take(i as int));
                assert(m.take(i + 1).last() == tag_model(inner@[i as int]));
            }
            let t = &inner[i];
            let s = match get_optional_text(Some(t)) {
                Some(s) => s,
                None => {
                    proof {
                        LdapPasswordModifyRequest::lemma_fields_prefix(m, i + 1);
                    }
                    return Err(());
                },
            };
            if t.id == USER_IDENTITY {
                out.user_identity = Some(s);
            } else if t.id == OLD_PASSWORD {
                out.old_password = Some(s);
            } else if t.id == NEW_PASSWORD {
                out.new_password = Some(s);
            } else {
                proof {
                    LdapPasswordModifyRequest::lemma_fields_prefix(m, i + 1);
                }
                return Err(());
            }
            i += 1;
        }
        proof {
            assert(m.take(inner.len() as int) =~= m);
        }
        Ok(out)
    }

    /// Where a prefix of the fields holds no request, all of them hold none.
    pub proof fn lemma_fields_prefix(inner: Seq<TagModel>, n: int)
        requires
            0 <= n <= inner.len(),
            LdapPasswordModifyRequest::spec_fields(inner.take(n)) is None,
        ensures
            LdapPasswordModifyRequest::spec_fields(inner) is None,
        decreases inner.len() - n,
    {
        if n < inner.len() {
            assert(inner.take(n + 1).drop_last() =~= inner.take(n));
            LdapPasswordModifyRequest::lemma_fields_prefix(inner, n + 1);
        } else {
            assert(inner.take(n) =~= inner);
        }
    }

    /// Reads a password modify request from what parsing the value of an
    /// extended request gave.
    pub fn from_parsed(step: &ParseStep) -> (r: Result<LdapPasswordModifyRequest, ()>)
        ensures
            decoded(r) == LdapPasswordModifyRequest::spec_from_parsed(step.deep_view()),
    {
        let t = match step {
            ParseStep::Done(_, t) => t,
            _ => {
                return Err(());
            },
        };
        if t.id != SEQUENCE {
            return Err(());
        }
        let inner = need(t.expect_constructed())?;
        LdapPasswordModifyRequest::fields_from(inner)
    }

    /// Reads a password modify request from an extended request.
    pub fn try_from(value: &LdapExtendedRequest) -> (r: Result<LdapPasswordModifyRequest, ()>)
        ensures
            decoded(r) == LdapPasswordModifyRequest::spec_try_from(value.deep_view()),
    {
        if !same_text(value.name.as_str(), PASSWORD_MODIFY_OID) {
            return Err(());
        }
        match &value.value {
            Some(b) => {
                let step = parse(b.as_slice());
                LdapPasswordModifyRequest::from_parsed(&step)
            },
            None => Err(()),
        }
    }
}

impl LdapPasswordModifyResponse {
    /// The structure of the response: a SEQUENCE of the generated password,
    /// where there is one.
    pub open spec fn spec_body(m: LdapPasswordModifyResponseModel) -> TagModel {
        TagModel::new_constructed(
            BerClass::Universal,
            SEQUENCE,
            LdapPasswordModifyRequest::spec_field(GEN_PASSWORD, m.gen_password),
        )
    }

    /// The extended response that carries a password modify response.
    pub open spec fn spec_to_extended(
        m: LdapPasswordModifyResponseModel,
    ) -> LdapExtendedResponseModel {
        LdapExtendedResponseModel {
            res: m.res,
            name: None,
            value: Some(ber_encoding(LdapPasswordModifyResponse::spec_body(m))),
        }
    }

    /// A password modify response, carried by an extended response and read
    /// from it, is the same response, where the octets of its structure parse as
    /// that structure.
    pub proof fn lemma_round_trip(m: LdapPasswordModifyResponseModel)
        ensures
            reads_back(LdapPasswordModifyResponse::spec_body(m))
                ==> LdapPasswordModifyResponse::spec_try_from(
                LdapPasswordModifyResponse::spec_to_extended(m),
            ) == Some(m),
    {
        let inner = LdapPasswordModifyResponse::spec_body(m).payload->Constructed_0;
        if m.gen_password is Some {
            crate::prim::lemma_text_round_trip(m.gen_password->0);
            assert(inner[0] == TagModel::new_primitive(
                BerClass::Context,
                GEN_PASSWORD,
                encode_utf8(m.gen_password->0),
            ));
        } else {
            assert(inner.len() == 0);
        }
    }

    /// The generated password in a parsed value: the text of the last field of
    /// a constructed tag with the number of a SEQUENCE, where that field is
    /// primitive and has the tag number 0. The outer option says whether the value
    /// is such a tag at all.
    pub open spec fn spec_from_parsed(step: StepModel) -> Option<Option<Seq<char>>> {
        match step {
            StepModel::Done(_, t) => if t.id == SEQUENCE {
                match t.constructed() {
                    Some(inner) => Some(
                        match from_end(inner, 1) {
                            Some(last) => if last.id == GEN_PASSWORD {
                                optional_text(Some(last))
                            } else {
                                None
                            },
                            None => None,
                        },
                    ),
                    None => None,
                }
            } else {
                None
            },
            _ => None,
        }
    }

    /// The response that an extended response holds: the response has no name
    /// and a value, and the value is parsed. The result is taken over.
    pub open spec fn spec_try_from(m: LdapExtendedResponseModel) -> Option<
        LdapPasswordModifyResponseModel,
    > {
        if m.name is None && m.value is Some {
            match LdapPasswordModifyResponse::spec_from_parsed(ber_parse(m.value->0)) {
                Some(gen_password) => Some(
                    LdapPasswordModifyResponseModel { res: m.res, gen_password },
                ),
                None => None,
            }
        } else {
            None
        }
    }

    /// The structure of the response. Read as a parsed value, it gives the
    /// generated password back.
    pub fn body(&self) -> (r: BerTag)
        ensures
            r.deep_view() == LdapPasswordModifyResponse::spec_body(self.deep_view()),
            forall|a: crate::wire::Advance| #[trigger]
                LdapPasswordModifyResponse::spec_from_parsed(StepModel::Done(a, r.deep_view()))
                    == Some(self.deep_view().gen_password),
    {
        let mut out: Vec<BerTag> = Vec::new();
        match &self.gen_password {
            Some(s) => {
                out.push(text_tag_of(BerClass::Context, GEN_PASSWORD, s.as_str()));
                proof {
                    crate::prim::lemma_text_round_trip(s@);
                }
            },
            None => {},
        }
        proof {
            assert(out.deep_view() =~= LdapPasswordModifyResponse::spec_body(
                self.deep_view(),
            ).payload->Constructed_0);
        }
        BerTag::sequence(out)
    }

    /// Reads the generated password from what parsing the value of an extended
    /// response gave. The outer result says whether the value has the shape of a
    /// password modify response.
    pub fn from_parsed(step: &ParseStep) -> (r: Result<Option<String>, ()>)
        ensures
            decoded(r) == LdapPasswordModifyResponse::spec_from_parsed(step.deep_view()),
    {
        let t = match step {
            ParseStep::Done(_, t) => t,
            _ => {
                return Err(());
            },
        };
        if t.id != SEQUENCE {
            return Err(());
        }
        let inner = need(t.expect_constructed())?;
        match tag_from_end(inner, 1) {
            Some(last) => {
                if last.id == GEN_PASSWORD {
                    Ok(get_optional_text(Some(last)))
                } else {
                    Ok(None)
                }
            },
            None => Ok(None),
        }
    }

    /// Reads a password modify response from an extended response.
    pub fn try_from(value: &LdapExtendedResponse) -> (r: Result<LdapPasswordModifyResponse, ()>)
        ensures
            decoded(r) == LdapPasswordModifyResponse::spec_try_from(value.deep_view()),
    {
        if value.name.is_some() {
            return Err(());
        }
        match &value.value {
            Some(b) => {
                let step = parse(b.as_slice());
                let gen_password = LdapPasswordModifyResponse::from_parsed(&step)?;
                Ok(LdapPasswordModifyResponse { res: value.res.clone(), gen_password })
            },
            None => Err(()),
        }
    }
}

impl LdapExtendedResponse {
    /// The extended response of a password modify response: its result, no
    /// name, and as the value the octets of the response's structure. Read as a
    /// password modify response, it gives the response back, where those octets
    /// parse as the structure.
    pub fn from_password_modify(value: LdapPasswordModifyResponse) -> (r: LdapExtendedResponse)
        ensures
            r.deep_view() == LdapPasswordModifyResponse::spec_to_extended(value.deep_view()),
            reads_back(LdapPasswordModifyResponse::spec_body(value.deep_view()))
                ==> LdapPasswordModifyResponse::spec_try_from(r.deep_view()) == Some(
                value.deep_view(),
            ),
    {
        let body = value.body();
        let octets = encode(&body);
        proof {
            LdapPasswordModifyResponse::lemma_round_trip(value.deep_view());
        }
        LdapExtendedResponse { res: value.res, name: None, value: Some(octets) }
    }
}

} // verus!
