//! Extended requests and responses.

use crate::ber::{at, tag_at, tag_model, BerClass, BerTag, TagModel, BOOLEAN, OCTET_STRING};
use crate::codes::need;
use crate::field::{
    bool_field, get_bool, get_octets, get_primitive, get_text_of, octets_field, primitive_field,
    text_field_of, text_tag_of,
};
use crate::proto::{
    decoded, LdapExtendedRequest, LdapExtendedRequestModel, LdapExtendedResponse,
    LdapExtendedResponseModel, LdapResult, LdapResultCode, LdapResultModel,
};
use crate::prim::{text_content, text_of, text_value};
use vstd::prelude::*;
use vstd::utf8::encode_utf8;

verus! {

broadcast use crate::prim::lemma_octets_deep_view;

/// Context tag number of the name of an extended request.
pub const REQUEST_NAME: u64 = 0;

/// Context tag number of the value of an extended request.
pub const REQUEST_VALUE: u64 = 1;

/// Context tag number of the name of an extended response.
pub const RESPONSE_NAME: u64 = 10;

/// Context tag number of the value of an extended response.
pub const RESPONSE_VALUE: u64 = 11;

/// The first tag at or after position `from` that carries the given class and tag number.
pub open spec fn first_with(tags: Seq<TagModel>, from: int, class: BerClass, id: u64) -> Option<
    TagModel,
>
    decreases tags.len() - from,
{
    if from < 0 || from >= tags.len() {
        None
    } else if tags[from].is(class, id) {
        Some(tags[from])
    } else {
        first_with(tags, from + 1, class, id)
    }
}

/// The last tag that carries the given class and tag number.
pub open spec fn last_with(tags: Seq<TagModel>, class: BerClass, id: u64) -> Option<TagModel>
    decreases tags.len(),
{
    if tags.len() == 0 {
        None
    } else if tags.last().is(class, id) {
        Some(tags.last())
    } else {
        last_with(tags.drop_last(), class, id)
    }
}

/// The cookie among the fields from position `from` on: the octets of the first
/// universal OCTET STRING, nothing where there is none or it is constructed.
pub open spec fn cookie_field(tags: Seq<TagModel>, from: int) -> Option<Seq<u8>> {
    octets_field(first_with(tags, from, BerClass::Universal, OCTET_STRING))
}

/// The flag among the fields from position `from` on: the truth value of the
/// first universal BOOLEAN, nothing where there is none or it has no value.
pub open spec fn flag_field(tags: Seq<TagModel>, from: int) -> Option<bool> {
    bool_field(first_with(tags, from, BerClass::Universal, BOOLEAN))
}

/// The octets of an optional primitive tag.
pub open spec fn optional_octets(t: Option<TagModel>) -> Option<Seq<u8>> {
    match t {
        Some(t) => t.primitive(),
        None => None,
    }
}

/// The text of an optional primitive tag.
pub open spec fn optional_text(t: Option<TagModel>) -> Option<Seq<char>> {
    match optional_octets(t) {
        Some(b) => text_value(b),
        None => None,
    }
}

/// The first tag at or after position `from` with the given class and tag number.
pub fn find_first(tags: &Vec<BerTag>, from: usize, class: BerClass, id: u64) -> (r: Option<
    &BerTag,
>)
    ensures
        r.deep_view() == first_with(tags.deep_view(), from as int, class, id),
{
    let mut i: usize = from;
    while i < tags.len()
        invariant
            from <= i,
            first_with(tags.deep_view(), from as int, class, id) == first_with(
                tags.deep_view(),
                i as int,
                class,
                id,
            ),
        decreases tags.len() - i,
    {
        if tags[i].is(class, id) {
            return Some(&tags[i]);
        }
        i += 1;
    }
    None
}

/// The last tag with the given class and tag number.
pub fn find_last(tags: &Vec<BerTag>, class: BerClass, id: u64) -> (r: Option<&BerTag>)
    ensures
        r.deep_view() == last_with(tags.deep_view(), class, id),
{
    let mut i: usize = tags.len();
    proof {
        assert(tags.deep_view().take(tags.len() as int) =~= tags.deep_view());
    }
    while i > 0
        invariant
            i <= tags.len(),
            last_with(tags.deep_view(), class, id) == last_with(
                tags.deep_view().take(i as int),
                class,
                id,
            ),
        decreases i,
    {
        proof {
            let s = tags.deep_view().take(i as int);
            assert(s.drop_last() =~= tags.deep_view().take(i - 1));
            assert(s.last() == tag_model(tags@[i - 1]));
        }
        if tags[i - 1].is(class, id) {
            return Some(&tags[i - 1]);
        }
        i -= 1;
    }
    None
}

/// The cookie among the fields from position `from` on.
pub fn get_cookie(tags: &Vec<BerTag>, from: usize) -> (r: Option<Vec<u8>>)
    ensures
        r.deep_view() == cookie_field(tags.deep_view(), from as int),
{
    get_octets(find_first(tags, from, BerClass::Universal, OCTET_STRING))
}

/// The flag among the fields from position `from` on.
pub fn get_flag(tags: &Vec<BerTag>, from: usize) -> (r: Option<bool>)
    ensures
        r == flag_field(tags.deep_view(), from as int),
{
    get_bool(find_first(tags, from, BerClass::Universal, BOOLEAN))
}

/// The octets of an optional primitive tag.
pub fn get_optional_octets(t: Option<&BerTag>) -> (r: Option<Vec<u8>>)
    ensures
        r.deep_view() == optional_octets(t.deep_view()),
{
    match t {
        Some(t) => match t.expect_primitive() {
            Some(b) => Some(b.clone()),
            None => None,
        },
        None => None,
    }
}

/// The text of an optional primitive tag.
pub fn get_optional_text(t: Option<&BerTag>) -> (r: Option<String>)
    ensures
        r.deep_view() == optional_text(t.deep_view()),
{
    match t {
        Some(t) => match t.expect_primitive() {
            Some(b) => text_of(b),
            None => None,
        },
        None => None,
    }
}

impl LdapExtendedRequest {
    /// The extended request that a sequence of tags holds: the name in a primitive
    /// context tag 0, and the value, where the next tag is a primitive context tag 1.
    pub open spec fn spec_try_from(tags: Seq<TagModel>) -> Option<LdapExtendedRequestModel> {
        match text_field_of(at(tags, 0), BerClass::Context, REQUEST_NAME) {
            Some(name) => Some(
                LdapExtendedRequestModel {
                    name,
                    value: primitive_field(at(tags, 1), BerClass::Context, REQUEST_VALUE),
                },
            ),
            None => None,
        }
    }

    /// The tags of an extended request.
    pub open spec fn spec_to_tags(m: LdapExtendedRequestModel) -> Seq<TagModel> {
        let name = TagModel::new_primitive(BerClass::Context, REQUEST_NAME, encode_utf8(m.name));
        match m.value {
            Some(v) => seq![name, TagModel::new_primitive(BerClass::Context, REQUEST_VALUE, v)],
            None => seq![name],
        }
    }

    /// Reads an extended request.
    pub fn try_from(tags: &Vec<BerTag>) -> (r: Result<LdapExtendedRequest, ()>)
        ensures
            decoded(r) == LdapExtendedRequest::spec_try_from(tags.deep_view()),
    {
        let name = need(get_text_of(tag_at(tags, 0), BerClass::Context, REQUEST_NAME))?;
        let value = match get_primitive(tag_at(tags, 1), BerClass::Context, REQUEST_VALUE) {
            Some(b) => Some(b.clone()),
            None => None,
        };
        Ok(LdapExtendedRequest { name, value })
    }

    /// The tags of an extended request. Reading them gives the request back.
    pub fn to_tags(&self) -> (r: Vec<BerTag>)
        ensures
            r.deep_view() == LdapExtendedRequest::spec_to_tags(self.deep_view()),
            LdapExtendedRequest::spec_try_from(r.deep_view()) == Some(self.deep_view()),
    {
        let mut out: Vec<BerTag> = Vec::new();
        out.push(text_tag_of(BerClass::Context, REQUEST_NAME, self.name.as_str()));
        match &self.value {
            Some(v) => {
                out.push(BerTag::primitive(BerClass::Context, REQUEST_VALUE, v.clone()));
            },
            None => {},
        }
        proof {
            assert(out.deep_view() =~= LdapExtendedRequest::spec_to_tags(self.deep_view()));
            LdapExtendedRequest::lemma_round_trip(self.deep_view());
        }
        out
    }

    /// Reading the tags of an extended request gives the request back.
    pub proof fn lemma_round_trip(m: LdapExtendedRequestModel)
        ensures
            LdapExtendedRequest::spec_try_from(LdapExtendedRequest::spec_to_tags(m)) == Some(m),
    {
        crate::prim::lemma_text_round_trip(m.name);
    }
}

impl LdapExtendedResponseModel {
    /// Whether reading the tags of this response gives all of it back: its
    /// result has no referrals.
    pub open spec fn canonical(self) -> bool {
        self.res.canonical()
    }
}

impl LdapExtendedResponse {
    /// The extended response that a sequence of tags holds: a result, and after
    /// its three fields the first context tag 10 as the name and the first context
    /// tag 11 as the value. A name or value that is constructed, and a name that
    /// is no UTF-8, count as absent.
    pub open spec fn spec_try_from(tags: Seq<TagModel>) -> Option<LdapExtendedResponseModel> {
        match LdapResult::spec_try_from(tags) {
            Some(res) => Some(
                LdapExtendedResponseModel {
                    res,
                    name: optional_text(first_with(tags, 3, BerClass::Context, RESPONSE_NAME)),
                    value: optional_octets(first_with(tags, 3, BerClass::Context, RESPONSE_VALUE)),
                },
            ),
            None => None,
        }
    }

    /// The tags that follow the result in an extended response.
    pub open spec fn spec_tail(m: LdapExtendedResponseModel) -> Seq<TagModel> {
        let name = match m.name {
            Some(n) => seq![
                TagModel::new_primitive(BerClass::Context, RESPONSE_NAME, encode_utf8(n)),
            ],
            None => seq![],
        };
        let value = match m.value {
            Some(v) => seq![TagModel::new_primitive(BerClass::Context, RESPONSE_VALUE, v)],
            None => seq![],
        };
        name + value
    }

    /// The tags of an extended response.
    pub open spec fn spec_to_tags(m: LdapExtendedResponseModel) -> Seq<TagModel> {
        LdapResult::spec_to_tags(m.res) + LdapExtendedResponse::spec_tail(m)
    }

    /// Reads an extended response.
    pub fn try_from(tags: &Vec<BerTag>) -> (r: Result<LdapExtendedResponse, ()>)
        ensures
            decoded(r) == LdapExtendedResponse::spec_try_from(tags.deep_view()),
    {
        let res = LdapResult::try_from_tag(tags)?;
        let name = get_optional_text(find_first(tags, 3, BerClass::Context, RESPONSE_NAME));
        let value = get_optional_octets(find_first(tags, 3, BerClass::Context, RESPONSE_VALUE));
        Ok(LdapExtendedResponse { res, name, value })
    }

    /// The tags of an extended response. Reading them gives the response back,
    /// without the referrals of its result.
    pub fn to_tags(&self) -> (r: Vec<BerTag>)
        ensures
            r.deep_view() == LdapExtendedResponse::spec_to_tags(self.deep_view()),
            LdapExtendedResponse::spec_try_from(r.deep_view()) == Some(
                LdapExtendedResponseModel {
                    res: self.deep_view().res.without_referral(),
                    ..self.deep_view()
                },
            ),
    {
        let mut out = self.res.to_tags();
        let ghost head = out.deep_view();
        match &self.name {
            Some(n) => {
                out.push(text_tag_of(BerClass::Context, RESPONSE_NAME, n.as_str()));
            },
            None => {},
        }
        match &self.value {
            Some(v) => {
                out.push(BerTag::primitive(BerClass::Context, RESPONSE_VALUE, v.clone()));
            },
            None => {},
        }
        proof {
            let m = self.deep_view();
            assert(out.deep_view() =~= LdapExtendedResponse::spec_to_tags(m));
            LdapExtendedResponse::lemma_round_trip(m);
        }
        out
    }

    /// Reading the tags of an extended response gives the response back,
    /// without the referrals of its result.
    pub proof fn lemma_round_trip(m: LdapExtendedResponseModel)
        ensures
            LdapExtendedResponse::spec_try_from(LdapExtendedResponse::spec_to_tags(m)) == Some(
                LdapExtendedResponseModel { res: m.res.without_referral(), ..m },
            ),
            m.canonical() ==> LdapExtendedResponse::spec_try_from(
                LdapExtendedResponse::spec_to_tags(m),
            ) == Some(m),
    {
        let head = LdapResult::spec_to_tags(m.res);
        let all = LdapExtendedResponse::spec_to_tags(m);
        LdapResult::lemma_round_trip(m.res);
        LdapExtendedResponse::lemma_tail(m, head);
        assert(at(all, 0) == at(head, 0));
        assert(at(all, 1) == at(head, 1));
        assert(at(all, 2) == at(head, 2));
    }

    /// After the tags of a result, the name and the value of a response are the
    /// first of their kind.
    pub proof fn lemma_tail(m: LdapExtendedResponseModel, head: Seq<TagModel>)
        requires
            head == LdapResult::spec_to_tags(m.res),
        ensures
            optional_text(
                first_with(
                    head + LdapExtendedResponse::spec_tail(m),
                    3,
                    BerClass::Context,
                    RESPONSE_NAME,
                ),
            ) == m.name,
            optional_octets(
                first_with(
                    head + LdapExtendedResponse::spec_tail(m),
                    3,
                    BerClass::Context,
                    RESPONSE_VALUE,
                ),
            ) == m.value,
    {
        let all = head + LdapExtendedResponse::spec_tail(m);
        let n = head.len() as int;
        reveal_with_fuel(first_with, 4);
        if m.name is Some {
            crate::prim::lemma_text_round_trip(m.name->0);
        }
        if n == 4 {
            assert(all[3] == head[3]);
            assert(!all[3].is(BerClass::Context, RESPONSE_NAME));
            assert(!all[3].is(BerClass::Context, RESPONSE_VALUE));
        }
    }

    /// A response that reports success, with an optional name and value.
    pub fn new_success(name: Option<&str>, value: Option<&str>) -> (r: LdapExtendedResponse)
        ensures
            r.deep_view() == (LdapExtendedResponseModel {
                res: LdapResultModel {
                    code: LdapResultCode::Success,
                    matcheddn: Seq::empty(),
                    message: Seq::empty(),
                    referral: Seq::empty(),
                },
                name: match name {
                    Some(n) => Some(n@),
                    None => None,
                },
                value: match value {
                    Some(v) => Some(encode_utf8(v@)),
                    None => None,
                },
            }),
    {
        let r = LdapExtendedResponse {
            res: LdapResult {
                code: LdapResultCode::Success,
                matcheddn: String::new(),
                message: String::new(),
                referral: Vec::new(),
            },
            name: match name {
                Some(n) => Some(n.to_owned()),
                None => None,
            },
            value: match value {
                Some(v) => Some(text_content(v)),
                None => None,
            },
        };
        proof {
            assert(r.res.referral.deep_view() =~= Seq::<Seq<char>>::empty());
        }
        r
    }

    /// A response that reports an operations error, with a message.
    pub fn new_operationserror(msg: &str) -> (r: LdapExtendedResponse)
        ensures
            r.deep_view() == (LdapExtendedResponseModel {
                res: LdapResultModel {
                    code: LdapResultCode::OperationsError,
                    matcheddn: Seq::empty(),
                    message: msg@,
                    referral: Seq::empty(),
                },
                name: None,
                value: None,
            }),
    {
        let r = LdapExtendedResponse {
            res: LdapResult {
                code: LdapResultCode::OperationsError,
                matcheddn: String::new(),
                message: msg.to_owned(),
                referral: Vec::new(),
            },
            name: None,
            value: None,
        };
        proof {
            assert(r.res.referral.deep_view() =~= Seq::<Seq<char>>::empty());
        }
        r
    }
}

} // verus!
