//! The result of an operation, and the bind operation.

use crate::ber::{at, tag_at, BerClass, BerTag, TagModel, ENUMERATED, INTEGER};
use crate::codes::need;
use crate::field::{
    get_integer, get_text, get_text_of, integer_field, integer_tag_model, number_tag, text_field,
    text_field_of, text_tag, text_tag_model, text_tag_of, text_tags,
};
use crate::proto::{
    decoded, LdapBindCred, LdapBindCredModel, LdapBindRequest, LdapBindRequestModel,
    LdapBindResponse, LdapBindResponseModel, LdapResult, LdapResultCode, LdapResultModel,
};
use crate::wire::lemma_integer_reads_back;
use vstd::prelude::*;
use vstd::utf8::encode_utf8;

verus! {

broadcast use crate::prim::lemma_octets_deep_view;

/// The protocol version that a bind request names.
pub const LDAP_VERSION: i64 = 3;

/// The context tag number of the referrals of a result.
pub const REFERRAL: u64 = 3;

impl LdapResultModel {
    /// The same result without its referrals.
    pub open spec fn without_referral(self) -> LdapResultModel {
        LdapResultModel { referral: Seq::empty(), ..self }
    }

    /// Whether reading the tags of this result gives all of it back: it has no
    /// referrals, which are written and not read.
    pub open spec fn canonical(self) -> bool {
        self.referral.len() == 0
    }
}

impl LdapBindResponseModel {
    /// Whether reading the tags of this response gives all of it back: no
    /// referrals and no SASL credentials, which are written and not read.
    pub open spec fn canonical(self) -> bool {
        self.res.canonical() && self.saslcreds is None
    }
}

impl LdapResult {
    /// The result that a sequence of tags holds: an ENUMERATED result code, then
    /// two OCTET STRINGs, the matched DN and the diagnostic message. What follows
    /// them is not read here, so referrals are dropped.
    pub open spec fn spec_try_from(tags: Seq<TagModel>) -> Option<LdapResultModel> {
        match (
            integer_field(at(tags, 0), ENUMERATED),
            text_field(at(tags, 1)),
            text_field(at(tags, 2)),
        ) {
            (Some(v), Some(matcheddn), Some(message)) => match LdapResultCode::spec_try_from(v) {
                Some(code) => Some(
                    LdapResultModel { code, matcheddn, message, referral: Seq::empty() },
                ),
                None => None,
            },
            _ => None,
        }
    }

    /// The tags of a result: the code, the matched DN, the message, and the
    /// referrals in a context tag where there are any.
    pub open spec fn spec_to_tags(m: LdapResultModel) -> Seq<TagModel> {
        let head = seq![
            integer_tag_model(ENUMERATED, m.code.spec_code()),
            text_tag_model(m.matcheddn),
            text_tag_model(m.message),
        ];
        if m.referral.len() > 0 {
            head.push(
                TagModel::new_constructed(
                    BerClass::Context,
                    REFERRAL,
                    m.referral.map_values(|s: Seq<char>| text_tag_model(s)),
                ),
            )
        } else {
            head
        }
    }

    /// Reads a result from the tags of a response.
    pub fn try_from_tag(tags: &Vec<BerTag>) -> (r: Result<LdapResult, ()>)
        ensures
            decoded(r) == LdapResult::spec_try_from(tags.deep_view()),
    {
        let v = need(get_integer(tag_at(tags, 0), ENUMERATED))?;
        let matcheddn = need(get_text(tag_at(tags, 1)))?;
        let message = need(get_text(tag_at(tags, 2)))?;
        let code = LdapResultCode::try_from(v)?;
        let r = LdapResult { code, matcheddn, message, referral: Vec::new() };
        proof {
            assert(r.referral.deep_view() =~= Seq::<Seq<char>>::empty());
        }
        Ok(r)
    }

    /// The tags of a result.
    pub fn to_tags(&self) -> (r: Vec<BerTag>)
        ensures
            r.deep_view() == LdapResult::spec_to_tags(self.deep_view()),
            LdapResult::spec_try_from(r.deep_view()) == Some(self.deep_view().without_referral()),
    {
        proof {
            self.code.lemma_code_round_trip();
        }
        let mut out: Vec<BerTag> = Vec::new();
        out.push(number_tag(ENUMERATED, self.code.code()));
        out.push(text_tag(self.matcheddn.as_str()));
        out.push(text_tag(self.message.as_str()));
        if self.referral.len() > 0 {
            out.push(BerTag::constructed(BerClass::Context, REFERRAL, text_tags(&self.referral)));
        }
        proof {
            assert(out.deep_view() =~= LdapResult::spec_to_tags(self.deep_view()));
            LdapResult::lemma_round_trip(self.deep_view());
        }
        out
    }

    /// Reading the tags of a result gives the result back, without its referrals.
    pub proof fn lemma_round_trip(m: LdapResultModel)
        ensures
            LdapResult::spec_try_from(LdapResult::spec_to_tags(m)) == Some(m.without_referral()),
            m.canonical() ==> LdapResult::spec_try_from(LdapResult::spec_to_tags(m)) == Some(m),
    {
        lemma_integer_reads_back(m.code.spec_code());
        if m.canonical() {
            assert(m.referral =~= Seq::<Seq<char>>::empty());
        }
        crate::prim::lemma_text_round_trip(m.matcheddn);
        crate::prim::lemma_text_round_trip(m.message);
        m.code.lemma_code_round_trip();
    }
}

impl LdapBindCred {
    /// The credential that a tag holds: a primitive context tag 0 with the
    /// password of a simple bind.
    pub open spec fn spec_try_from(t: Option<TagModel>) -> Option<LdapBindCredModel> {
        match text_field_of(t, BerClass::Context, 0) {
            Some(pw) => Some(LdapBindCredModel::Simple(pw)),
            None => None,
        }
    }

    /// The tag of a credential.
    pub open spec fn spec_to_tag(m: LdapBindCredModel) -> TagModel {
        match m {
            LdapBindCredModel::Simple(pw) => TagModel::new_primitive(
                BerClass::Context,
                0,
                encode_utf8(pw),
            ),
        }
    }

    /// Reads a credential.
    pub fn try_from(t: Option<&BerTag>) -> (r: Result<LdapBindCred, ()>)
        ensures
            decoded(r) == LdapBindCred::spec_try_from(t.deep_view()),
    {
        let pw = need(get_text_of(t, BerClass::Context, 0))?;
        Ok(LdapBindCred::Simple(pw))
    }

    /// The tag of a credential.
    pub fn to_tag(&self) -> (r: BerTag)
        ensures
            r.deep_view() == LdapBindCred::spec_to_tag(self.deep_view()),
    {
        match self {
            LdapBindCred::Simple(pw) => text_tag_of(BerClass::Context, 0, pw.as_str()),
        }
    }
}

impl LdapBindRequest {
    /// The bind request that a sequence of tags holds: INTEGER version 3, the DN,
    /// the credential.
    pub open spec fn spec_try_from(tags: Seq<TagModel>) -> Option<LdapBindRequestModel> {
        match (
            integer_field(at(tags, 0), INTEGER),
            text_field(at(tags, 1)),
            LdapBindCred::spec_try_from(at(tags, 2)),
        ) {
            (Some(v), Some(dn), Some(cred)) => if v == LDAP_VERSION {
                Some(LdapBindRequestModel { dn, cred })
            } else {
                None
            },
            _ => None,
        }
    }

    /// The tags of a bind request.
    pub open spec fn spec_to_tags(m: LdapBindRequestModel) -> Seq<TagModel> {
        seq![
            integer_tag_model(INTEGER, LDAP_VERSION),
            text_tag_model(m.dn),
            LdapBindCred::spec_to_tag(m.cred),
        ]
    }

    /// Reads a bind request; an error unless the version is 3.
    pub fn try_from(tags: &Vec<BerTag>) -> (r: Result<LdapBindRequest, ()>)
        ensures
            decoded(r) == LdapBindRequest::spec_try_from(tags.deep_view()),
    {
        let v = need(get_integer(tag_at(tags, 0), INTEGER))?;
        let dn = need(get_text(tag_at(tags, 1)))?;
        let cred = LdapBindCred::try_from(tag_at(tags, 2))?;
        if v != LDAP_VERSION {
            return Err(());
        }
        Ok(LdapBindRequest { dn, cred })
    }

    /// The tags of a bind request.
    pub fn to_tags(&self) -> (r: Vec<BerTag>)
        ensures
            r.deep_view() == LdapBindRequest::spec_to_tags(self.deep_view()),
            LdapBindRequest::spec_try_from(r.deep_view()) == Some(self.deep_view()),
    {
        let mut out: Vec<BerTag> = Vec::new();
        out.push(number_tag(INTEGER, LDAP_VERSION));
        out.push(text_tag(self.dn.as_str()));
        out.push(self.cred.to_tag());
        proof {
            assert(out.deep_view() =~= LdapBindRequest::spec_to_tags(self.deep_view()));
            LdapBindRequest::lemma_round_trip(self.deep_view());
        }
        out
    }

    /// Reading the tags of a bind request gives the request back.
    pub proof fn lemma_round_trip(m: LdapBindRequestModel)
        ensures
            LdapBindRequest::spec_try_from(LdapBindRequest::spec_to_tags(m)) == Some(m),
    {
        lemma_integer_reads_back(LDAP_VERSION);
        crate::prim::lemma_text_round_trip(m.dn);
        crate::prim::lemma_text_round_trip(m.cred->Simple_0);
    }
}

impl LdapBindResponse {
    /// The bind response that a sequence of tags holds: a result. Credentials
    /// of a SASL exchange are not read.
    pub open spec fn spec_try_from(tags: Seq<TagModel>) -> Option<LdapBindResponseModel> {
        match LdapResult::spec_try_from(tags) {
            Some(res) => Some(LdapBindResponseModel { res, saslcreds: None }),
            None => None,
        }
    }

    /// The tags of a bind response: those of its result, then the SASL
    /// credentials as an OCTET STRING where there are any.
    pub open spec fn spec_to_tags(m: LdapBindResponseModel) -> Seq<TagModel> {
        match m.saslcreds {
            Some(sc) => LdapResult::spec_to_tags(m.res).push(text_tag_model(sc)),
            None => LdapResult::spec_to_tags(m.res),
        }
    }

    /// Reads a bind response.
    pub fn try_from(tags: &Vec<BerTag>) -> (r: Result<LdapBindResponse, ()>)
        ensures
            decoded(r) == LdapBindResponse::spec_try_from(tags.deep_view()),
    {
        let res = LdapResult::try_from_tag(tags)?;
        Ok(LdapBindResponse { res, saslcreds: None })
    }

    /// The tags of a bind response.
    pub fn to_tags(&self) -> (r: Vec<BerTag>)
        ensures
            r.deep_view() == LdapBindResponse::spec_to_tags(self.deep_view()),
            self.deep_view().canonical() ==> LdapBindResponse::spec_try_from(r.deep_view())
                == Some(self.deep_view()),
    {
        let mut out = self.res.to_tags();
        proof {
            if self.deep_view().canonical() {
                LdapBindResponse::lemma_round_trip(self.deep_view());
            }
        }
        match &self.saslcreds {
            Some(sc) => {
                out.push(text_tag(sc.as_str()));
            },
            None => {},
        }
        proof {
            assert(out.deep_view() =~= LdapBindResponse::spec_to_tags(self.deep_view()));
        }
        out
    }

    /// Reading the tags of a canonical bind response gives the response back.
    pub proof fn lemma_round_trip(m: LdapBindResponseModel)
        requires
            m.canonical(),
        ensures
            LdapBindResponse::spec_try_from(LdapBindResponse::spec_to_tags(m)) == Some(m),
    {
        LdapResult::lemma_round_trip(m.res);
    }

    /// A response that reports success, with a message.
    pub fn new_success(msg: &str) -> (r: LdapBindResponse)
        ensures
            r.deep_view() == (LdapBindResponseModel {
                res: LdapResultModel {
                    code: LdapResultCode::Success,
                    matcheddn: Seq::empty(),
                    message: msg@,
                    referral: Seq::empty(),
                },
                saslcreds: None,
            }),
    {
        let r = LdapBindResponse {
            res: LdapResult {
                code: LdapResultCode::Success,
                matcheddn: String::new(),
                message: msg.to_owned(),
                referral: Vec::new(),
            },
            saslcreds: None,
        };
        proof {
            assert(r.res.referral.deep_view() =~= Seq::<Seq<char>>::empty());
        }
        r
    }

    /// A response that reports invalid credentials for a DN, with a message.
    pub fn new_invalidcredentials(dn: &str, msg: &str) -> (r: LdapBindResponse)
        ensures
            r.deep_view() == (LdapBindResponseModel {
                res: LdapResultModel {
                    code: LdapResultCode::InvalidCredentials,
                    matcheddn: dn@,
                    message: msg@,
                    referral: Seq::empty(),
                },
                saslcreds: None,
            }),
    {
        let r = LdapBindResponse {
            res: LdapResult {
                code: LdapResultCode::InvalidCredentials,
                matcheddn: dn.to_owned(),
                message: msg.to_owned(),
                referral: Vec::new(),
            },
            saslcreds: None,
        };
        proof {
            assert(r.res.referral.deep_view() =~= Seq::<Seq<char>>::empty());
        }
        r
    }
}

} // verus!
