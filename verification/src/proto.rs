//! The LDAP message model: one type for every operation, result, control and
//! intermediate response, and beside each its mathematical model over `Seq`.
//!
//! The contracts of the library speak of the models, reached from a value by
//! `deep_view()`: a text is a `Seq<char>`, an octet string a `Seq<u8>`, a list a `Seq`.

use vstd::prelude::*;

verus! {

/// Mode of a content synchronization request.
#[derive(Debug, Clone, Copy, PartialEq, Eq, Structural)]
pub enum SyncRequestMode {
    RefreshOnly,
    RefreshAndPersist,
}

/// State of an entry in a content synchronization.
#[derive(Debug, Clone, Copy, PartialEq, Eq, Structural)]
pub enum SyncStateValue {
    Present,
    Add,
    Modify,
    Delete,
}

/// Result codes of LDAP operations.
#[derive(Debug, Clone, Copy, PartialEq, Eq, Structural)]
pub enum LdapResultCode {
    Success,
    OperationsError,
    ProtocolError,
    TimeLimitExceeded,
    SizeLimitExceeded,
    CompareFalse,
    CompareTrue,
    AuthMethodNotSupported,
    StrongerAuthRequired,
    Referral,
    AdminLimitExceeded,
    UnavailableCriticalExtension,
    ConfidentialityRequired,
    SaslBindInProgress,
    NoSuchAttribute,
    UndefinedAttributeType,
    InappropriateMatching,
    ConstraintViolation,
    AttributeOrValueExists,
    InvalidAttributeSyntax,
    NoSuchObject,
    AliasProblem,
    InvalidDNSyntax,
    AliasDereferencingProblem,
    InappropriateAuthentication,
    InvalidCredentials,
    InsufficentAccessRights,
    Busy,
    Unavailable,
    UnwillingToPerform,
    LoopDetect,
    NamingViolation,
    ObjectClassViolation,
    NotAllowedOnNonLeaf,
    NotALlowedOnRDN,
    EntryAlreadyExists,
    ObjectClassModsProhibited,
    AffectsMultipleDSAs,
    Other,
    EsyncRefreshRequired,
}

/// Scope of a search.
#[derive(Debug, Clone, Copy, PartialEq, Eq, Structural)]
pub enum LdapSearchScope {
    Base,
    OneLevel,
    Subtree,
}

/// How a search dereferences aliases.
#[derive(Debug, Clone, Copy, PartialEq, Eq, Structural)]
pub enum LdapDerefAliases {
    Never,
    InSearching,
    FindingBaseObj,
    Always,
}

/// Kind of one change in a modify request.
#[derive(Debug, Clone, Copy, PartialEq, Eq, Structural)]
pub enum LdapModifyType {
    Add,
    Delete,
    Replace,
}

/// The sixteen octets of an entry's UUID.
#[derive(Debug, Clone, Copy, PartialEq, Eq)]
pub struct SyncUuid {
    pub octets: [u8; 16],
}

impl DeepView for SyncUuid {
    type V = Seq<u8>;

    open spec fn deep_view(&self) -> Seq<u8> {
        self.octets@
    }
}

impl SyncUuid {
    /// The UUID that sixteen octets spell; nothing for any other number of octets.
    pub open spec fn spec_from_slice(octets: Seq<u8>) -> Option<Seq<u8>> {
        if octets.len() == 16 {
            Some(octets)
        } else {
            None
        }
    }

    /// The UUID that sixteen octets spell; nothing for any other number of octets.
    pub fn from_slice(octets: &[u8]) -> (r: Option<SyncUuid>)
        ensures
            r.deep_view() == SyncUuid::spec_from_slice(octets@),
    {
        if octets.len() != 16 {
            return None;
        }
        let mut out: [u8; 16] = [0u8; 16];
        let mut i: usize = 0;
        while i < 16
            invariant
                i <= 16,
                octets@.len() == 16,
                forall|j: int| 0 <= j < i ==> out@[j] == octets@[j],
            decreases 16 - i,
        {
            out[i] = octets[i];
            i += 1;
        }
        proof {
            assert(out@ =~= octets@);
        }
        Some(SyncUuid { octets: out })
    }

    /// The sixteen octets of a UUID.
    pub fn as_bytes(&self) -> (r: Vec<u8>)
        ensures
            r@ == self.deep_view(),
            r@.len() == 16,
    {
        let mut out: Vec<u8> = Vec::new();
        let mut i: usize = 0;
        while i < 16
            invariant
                i <= 16,
                out.len() == i,
                forall|j: int| 0 <= j < i ==> out@[j] == self.octets@[j],
            decreases 16 - i,
        {
            out.push(self.octets[i]);
            i += 1;
        }
        proof {
            assert(out@ =~= self.octets@);
        }
        out
    }
}

/// The outcome of an operation.
#[derive(Debug, PartialEq)]
pub struct LdapResult {
    pub code: LdapResultCode,
    pub matcheddn: String,
    pub message: String,
    pub referral: Vec<String>,
}

/// Model of [`LdapResult`].
pub struct LdapResultModel {
    pub code: LdapResultCode,
    pub matcheddn: Seq<char>,
    pub message: Seq<char>,
    pub referral: Seq<Seq<char>>,
}

impl DeepView for LdapResult {
    type V = LdapResultModel;

    open spec fn deep_view(&self) -> LdapResultModel {
        LdapResultModel {
            code: self.code,
            matcheddn: self.matcheddn@,
            message: self.message@,
            referral: self.referral.deep_view(),
        }
    }
}

impl Clone for LdapResult {
    fn clone(&self) -> (r: Self)
        ensures
            r.deep_view() == self.deep_view(),
    {
        LdapResult {
            code: self.code,
            matcheddn: self.matcheddn.clone(),
            message: self.message.clone(),
            referral: clone_texts(&self.referral),
        }
    }
}

/// The credential of a bind request.
#[derive(Clone, PartialEq)]
pub enum LdapBindCred {
    Simple(String),
}

/// Model of [`LdapBindCred`].
pub enum LdapBindCredModel {
    Simple(Seq<char>),
}

impl DeepView for LdapBindCred {
    type V = LdapBindCredModel;

    open spec fn deep_view(&self) -> LdapBindCredModel {
        match self {
            LdapBindCred::Simple(pw) => LdapBindCredModel::Simple(pw@),
        }
    }
}

/// A bind request.
#[derive(Clone, PartialEq)]
pub struct LdapBindRequest {
    pub dn: String,
    pub cred: LdapBindCred,
}

/// Model of [`LdapBindRequest`].
pub struct LdapBindRequestModel {
    pub dn: Seq<char>,
    pub cred: LdapBindCredModel,
}

impl DeepView for LdapBindRequest {
    type V = LdapBindRequestModel;

    open spec fn deep_view(&self) -> LdapBindRequestModel {
        LdapBindRequestModel { dn: self.dn@, cred: self.cred.deep_view() }
    }
}

/// A bind response.
#[derive(Debug, Clone, PartialEq)]
pub struct LdapBindResponse {
    pub res: LdapResult,
    pub saslcreds: Option<String>,
}

/// Model of [`LdapBindResponse`].
pub struct LdapBindResponseModel {
    pub res: LdapResultModel,
    pub saslcreds: Option<Seq<char>>,
}

impl DeepView for LdapBindResponse {
    type V = LdapBindResponseModel;

    open spec fn deep_view(&self) -> LdapBindResponseModel {
        LdapBindResponseModel { res: self.res.deep_view(), saslcreds: self.saslcreds.deep_view() }
    }
}

/// The parts of a substring filter.
#[derive(Debug, PartialEq)]
pub struct LdapSubstringFilter {
    pub initial: Option<String>,
    pub any: Vec<String>,
    pub final_: Option<String>,
}

/// Model of [`LdapSubstringFilter`].
pub struct LdapSubstringFilterModel {
    pub initial: Option<Seq<char>>,
    pub any: Seq<Seq<char>>,
    pub final_: Option<Seq<char>>,
}

impl DeepView for LdapSubstringFilter {
    type V = LdapSubstringFilterModel;

    open spec fn deep_view(&self) -> LdapSubstringFilterModel {
        LdapSubstringFilterModel {
            initial: self.initial.deep_view(),
            any: self.any.deep_view(),
            final_: self.final_.deep_view(),
        }
    }
}

impl Default for LdapSubstringFilter {
    fn default() -> (r: Self)
        ensures
            r.deep_view() == (LdapSubstringFilterModel {
                initial: None,
                any: Seq::empty(),
                final_: None,
            }),
    {
        let r = LdapSubstringFilter { initial: None, any: Vec::new(), final_: None };
        proof {
            assert(r.any.deep_view() =~= Seq::<Seq<char>>::empty());
        }
        r
    }
}

impl Clone for LdapSubstringFilter {
    fn clone(&self) -> (r: Self)
        ensures
            r.deep_view() == self.deep_view(),
    {
        let initial = match &self.initial {
            Some(s) => Some(s.clone()),
            None => None,
        };
        let final_ = match &self.final_ {
            Some(s) => Some(s.clone()),
            None => None,
        };
        let r = LdapSubstringFilter { initial, any: clone_texts(&self.any), final_ };
        r
    }
}

/// Copies a list of texts.
pub fn clone_texts(v: &Vec<String>) -> (r: Vec<String>)
    ensures
        r.deep_view() == v.deep_view(),
{
    let mut out: Vec<String> = Vec::new();
    let mut i: usize = 0;
    while i < v.len()
        invariant
            i <= v.len(),
            out.len() == i,
            forall|j: int| 0 <= j < i ==> (#[trigger] out@[j])@ == v@[j]@,
        decreases v.len() - i,
    {
        out.push(v[i].clone());
        i += 1;
    }
    proof {
        assert(out.deep_view() =~= v.deep_view());
    }
    out
}

/// A search filter.
#[derive(Debug, PartialEq)]
pub enum LdapFilter {
    And(Vec<LdapFilter>),
    Or(Vec<LdapFilter>),
    Not(Box<LdapFilter>),
    Equality(String, String),
    Substring(String, LdapSubstringFilter),
    Present(String),
}

/// Model of [`LdapFilter`].
pub enum LdapFilterModel {
    And(Seq<LdapFilterModel>),
    Or(Seq<LdapFilterModel>),
    Not(Box<LdapFilterModel>),
    Equality(Seq<char>, Seq<char>),
    Substring(Seq<char>, LdapSubstringFilterModel),
    Present(Seq<char>),
}

/// The model of a filter.
pub open spec fn filter_model(f: LdapFilter) -> LdapFilterModel
    decreases f,
{
    match f {
        LdapFilter::And(v) => LdapFilterModel::And(
            Seq::new(
                v@.len(),
                |i: int|
                    if 0 <= i < v@.len() {
                        filter_model(v@[i])
                    } else {
                        arbitrary()
                    },
            ),
        ),
        LdapFilter::Or(v) => LdapFilterModel::Or(
            Seq::new(
                v@.len(),
                |i: int|
                    if 0 <= i < v@.len() {
                        filter_model(v@[i])
                    } else {
                        arbitrary()
                    },
            ),
        ),
        LdapFilter::Not(inner) => LdapFilterModel::Not(Box::new(filter_model(*inner))),
        LdapFilter::Equality(a, v) => LdapFilterModel::Equality(a@, v@),
        LdapFilter::Substring(a, s) => LdapFilterModel::Substring(a@, s.deep_view()),
        LdapFilter::Present(a) => LdapFilterModel::Present(a@),
    }
}

impl DeepView for LdapFilter {
    type V = LdapFilterModel;

    open spec fn deep_view(&self) -> LdapFilterModel {
        filter_model(*self)
    }
}

impl Clone for LdapFilter {
    fn clone(&self) -> (r: Self)
        ensures
            r.deep_view() == self.deep_view(),
        decreases self,
    {
        match self {
            LdapFilter::And(v) => {
                let mut out: Vec<LdapFilter> = Vec::new();
                let mut i: usize = 0;
                while i < v.len()
                    invariant
                        i <= v.len(),
                        *self == LdapFilter::And(*v),
                        out.len() == i,
                        forall|j: int|
                            0 <= j < i ==> filter_model(#[trigger] out@[j]) == filter_model(v@[j]),
                    decreases v.len() - i,
                {
                    proof {
                        vstd::std_specs::vec::axiom_vec_index_decreases(*v, i as int);
                        assert(decreases_to!(*self => self->And_0));
                    }
                    out.push(v[i].clone());
                    i += 1;
                }
                let r = LdapFilter::And(out);
                proof {
                    assert(filter_model(r)->And_0 =~= filter_model(*self)->And_0);
                }
                r
            },
            LdapFilter::Or(v) => {
                let mut out: Vec<LdapFilter> = Vec::new();
                let mut i: usize = 0;
                while i < v.len()
                    invariant
                        i <= v.len(),
                        *self == LdapFilter::Or(*v),
                        out.len() == i,
                        forall|j: int|
                            0 <= j < i ==> filter_model(#[trigger] out@[j]) == filter_model(v@[j]),
                    decreases v.len() - i,
                {
                    proof {
                        vstd::std_specs::vec::axiom_vec_index_decreases(*v, i as int);
                        assert(decreases_to!(*self => self->Or_0));
                    }
                    out.push(v[i].clone());
                    i += 1;
                }
                let r = LdapFilter::Or(out);
                proof {
                    assert(filter_model(r)->Or_0 =~= filter_model(*self)->Or_0);
                }
                r
            },
            LdapFilter::Not(inner) => LdapFilter::Not(Box::new((&**inner).clone())),
            LdapFilter::Equality(a, v) => LdapFilter::Equality(a.clone(), v.clone()),
            LdapFilter::Substring(a, s) => LdapFilter::Substring(a.clone(), s.clone()),
            LdapFilter::Present(a) => LdapFilter::Present(a.clone()),
        }
    }
}

/// A search request.
#[derive(Debug, Clone, PartialEq)]
pub struct LdapSearchRequest {
    pub base: String,
    pub scope: LdapSearchScope,
    pub aliases: LdapDerefAliases,
    pub sizelimit: i32,
    pub timelimit: i32,
    pub typesonly: bool,
    pub filter: LdapFilter,
    pub attrs: Vec<String>,
}

/// Model of [`LdapSearchRequest`].
pub struct LdapSearchRequestModel {
    pub base: Seq<char>,
    pub scope: LdapSearchScope,
    pub aliases: LdapDerefAliases,
    pub sizelimit: i32,
    pub timelimit: i32,
    pub typesonly: bool,
    pub filter: LdapFilterModel,
    pub attrs: Seq<Seq<char>>,
}

impl DeepView for LdapSearchRequest {
    type V = LdapSearchRequestModel;

    open spec fn deep_view(&self) -> LdapSearchRequestModel {
        LdapSearchRequestModel {
            base: self.base@,
            scope: self.scope,
            aliases: self.aliases,
            sizelimit: self.sizelimit,
            timelimit: self.timelimit,
            typesonly: self.typesonly,
            filter: self.filter.deep_view(),
            attrs: self.attrs.deep_view(),
        }
    }
}

/// An attribute type with zero or more values.
#[derive(Clone, PartialEq)]
pub struct LdapPartialAttribute {
    pub atype: String,
    pub vals: Vec<Vec<u8>>,
}

/// An attribute: a partial attribute that is meant to hold at least one value.
pub type LdapAttribute = LdapPartialAttribute;

/// Model of [`LdapPartialAttribute`].
pub struct LdapPartialAttributeModel {
    pub atype: Seq<char>,
    pub vals: Seq<Seq<u8>>,
}

impl DeepView for LdapPartialAttribute {
    type V = LdapPartialAttributeModel;

    open spec fn deep_view(&self) -> LdapPartialAttributeModel {
        LdapPartialAttributeModel { atype: self.atype@, vals: self.vals.deep_view() }
    }
}

/// One entry found by a search.
#[derive(Clone, PartialEq)]
pub struct LdapSearchResultEntry {
    pub dn: String,
    pub attributes: Vec<LdapPartialAttribute>,
}

/// Model of [`LdapSearchResultEntry`].
pub struct LdapSearchResultEntryModel {
    pub dn: Seq<char>,
    pub attributes: Seq<LdapPartialAttributeModel>,
}

impl DeepView for LdapSearchResultEntry {
    type V = LdapSearchResultEntryModel;

    open spec fn deep_view(&self) -> LdapSearchResultEntryModel {
        LdapSearchResultEntryModel { dn: self.dn@, attributes: self.attributes.deep_view() }
    }
}

/// An add request.
#[derive(Clone, PartialEq)]
pub struct LdapAddRequest {
    pub dn: String,
    pub attributes: Vec<LdapAttribute>,
}

/// Model of [`LdapAddRequest`].
pub struct LdapAddRequestModel {
    pub dn: Seq<char>,
    pub attributes: Seq<LdapPartialAttributeModel>,
}

impl DeepView for LdapAddRequest {
    type V = LdapAddRequestModel;

    open spec fn deep_view(&self) -> LdapAddRequestModel {
        LdapAddRequestModel { dn: self.dn@, attributes: self.attributes.deep_view() }
    }
}

/// One change of a modify request.
#[derive(Clone, PartialEq)]
pub struct LdapModify {
    pub operation: LdapModifyType,
    pub modification: LdapPartialAttribute,
}

/// Model of [`LdapModify`].
pub struct LdapModifyModel {
    pub operation: LdapModifyType,
    pub modification: LdapPartialAttributeModel,
}

impl DeepView for LdapModify {
    type V = LdapModifyModel;

    open spec fn deep_view(&self) -> LdapModifyModel {
        LdapModifyModel {
            operation: self.operation,
            modification: self.modification.deep_view(),
        }
    }
}

/// A modify request.
#[derive(Clone, PartialEq)]
pub struct LdapModifyRequest {
    pub dn: String,
    pub changes: Vec<LdapModify>,
}

/// Model of [`LdapModifyRequest`].
pub struct LdapModifyRequestModel {
    pub dn: Seq<char>,
    pub changes: Seq<LdapModifyModel>,
}

impl DeepView for LdapModifyRequest {
    type V = LdapModifyRequestModel;

    open spec fn deep_view(&self) -> LdapModifyRequestModel {
        LdapModifyRequestModel { dn: self.dn@, changes: self.changes.deep_view() }
    }
}

/// An extended request: an OID and an optional value.
#[derive(Clone, PartialEq)]
pub struct LdapExtendedRequest {
    pub name: String,
    pub value: Option<Vec<u8>>,
}

/// Model of [`LdapExtendedRequest`].
pub struct LdapExtendedRequestModel {
    pub name: Seq<char>,
    pub value: Option<Seq<u8>>,
}

impl DeepView for LdapExtendedRequest {
    type V = LdapExtendedRequestModel;

    open spec fn deep_view(&self) -> LdapExtendedRequestModel {
        LdapExtendedRequestModel { name: self.name@, value: self.value.deep_view() }
    }
}

/// An extended response.
#[derive(Debug, Clone, PartialEq)]
pub struct LdapExtendedResponse {
    pub res: LdapResult,
    pub name: Option<String>,
    pub value: Option<Vec<u8>>,
}

/// Model of [`LdapExtendedResponse`].
pub struct LdapExtendedResponseModel {
    pub res: LdapResultModel,
    pub name: Option<Seq<char>>,
    pub value: Option<Seq<u8>>,
}

impl DeepView for LdapExtendedResponse {
    type V = LdapExtendedResponseModel;

    open spec fn deep_view(&self) -> LdapExtendedResponseModel {
        LdapExtendedResponseModel {
            res: self.res.deep_view(),
            name: self.name.deep_view(),
            value: self.value.deep_view(),
        }
    }
}

/// An intermediate response: one of the content synchronization messages, or
/// any other by its name and value.
#[derive(Debug, Clone, PartialEq)]
#[allow(inconsistent_fields)]
pub enum LdapIntermediateResponse {
    SyncInfoNewCookie { cookie: Vec<u8> },
    SyncInfoRefreshDelete { cookie: Option<Vec<u8>>, done: bool },
    SyncInfoRefreshPresent { cookie: Option<Vec<u8>>, done: bool },
    SyncInfoIdSet { cookie: Option<Vec<u8>>, refresh_deletes: bool, syncuuids: Vec<SyncUuid> },
    Raw { name: Option<String>, value: Option<Vec<u8>> },
}

/// Model of [`LdapIntermediateResponse`].
#[allow(inconsistent_fields)]
pub enum LdapIntermediateResponseModel {
    SyncInfoNewCookie { cookie: Seq<u8> },
    SyncInfoRefreshDelete { cookie: Option<Seq<u8>>, done: bool },
    SyncInfoRefreshPresent { cookie: Option<Seq<u8>>, done: bool },
    SyncInfoIdSet { cookie: Option<Seq<u8>>, refresh_deletes: bool, syncuuids: Seq<Seq<u8>> },
    Raw { name: Option<Seq<char>>, value: Option<Seq<u8>> },
}

impl DeepView for LdapIntermediateResponse {
    type V = LdapIntermediateResponseModel;

    open spec fn deep_view(&self) -> LdapIntermediateResponseModel {
        match self {
            LdapIntermediateResponse::SyncInfoNewCookie { cookie } => {
                LdapIntermediateResponseModel::SyncInfoNewCookie { cookie: cookie@ }
            },
            LdapIntermediateResponse::SyncInfoRefreshDelete { cookie, done } => {
                LdapIntermediateResponseModel::SyncInfoRefreshDelete {
                    cookie: cookie.deep_view(),
                    done: *done,
                }
            },
            LdapIntermediateResponse::SyncInfoRefreshPresent { cookie, done } => {
                LdapIntermediateResponseModel::SyncInfoRefreshPresent {
                    cookie: cookie.deep_view(),
                    done: *done,
                }
            },
            LdapIntermediateResponse::SyncInfoIdSet { cookie, refresh_deletes, syncuuids } => {
                LdapIntermediateResponseModel::SyncInfoIdSet {
                    cookie: cookie.deep_view(),
                    refresh_deletes: *refresh_deletes,
                    syncuuids: syncuuids.deep_view(),
                }
            },
            LdapIntermediateResponse::Raw { name, value } => {
                LdapIntermediateResponseModel::Raw {
                    name: name.deep_view(),
                    value: value.deep_view(),
                }
            },
        }
    }
}

/// A control attached to a message.
#[derive(Debug, Clone, PartialEq)]
pub enum LdapControl {
    SyncRequest {
        criticality: bool,
        mode: SyncRequestMode,
        cookie: Option<Vec<u8>>,
        reload_hint: bool,
    },
    SyncState { state: SyncStateValue, entry_uuid: SyncUuid, cookie: Option<Vec<u8>> },
    SyncDone { cookie: Option<Vec<u8>>, refresh_deletes: bool },
    AdDirsync { flags: i64, max_bytes: i64, cookie: Option<Vec<u8>> },
}

/// Model of [`LdapControl`].
pub enum LdapControlModel {
    SyncRequest {
        criticality: bool,
        mode: SyncRequestMode,
        cookie: Option<Seq<u8>>,
        reload_hint: bool,
    },
    SyncState { state: SyncStateValue, entry_uuid: Seq<u8>, cookie: Option<Seq<u8>> },
    SyncDone { cookie: Option<Seq<u8>>, refresh_deletes: bool },
    AdDirsync { flags: i64, max_bytes: i64, cookie: Option<Seq<u8>> },
}

impl DeepView for LdapControl {
    type V = LdapControlModel;

    open spec fn deep_view(&self) -> LdapControlModel {
        match self {
            LdapControl::SyncRequest { criticality, mode, cookie, reload_hint } => {
                LdapControlModel::SyncRequest {
                    criticality: *criticality,
                    mode: *mode,
                    cookie: cookie.deep_view(),
                    reload_hint: *reload_hint,
                }
            },
            LdapControl::SyncState { state, entry_uuid, cookie } => {
                LdapControlModel::SyncState {
                    state: *state,
                    entry_uuid: entry_uuid.deep_view(),
                    cookie: cookie.deep_view(),
                }
            },
            LdapControl::SyncDone { cookie, refresh_deletes } => {
                LdapControlModel::SyncDone {
                    cookie: cookie.deep_view(),
                    refresh_deletes: *refresh_deletes,
                }
            },
            LdapControl::AdDirsync { flags, max_bytes, cookie } => {
                LdapControlModel::AdDirsync {
                    flags: *flags,
                    max_bytes: *max_bytes,
                    cookie: cookie.deep_view(),
                }
            },
        }
    }
}

/// The operation that a message carries.
#[derive(Clone, PartialEq)]
pub enum LdapOp {
    BindRequest(LdapBindRequest),
    BindResponse(LdapBindResponse),
    UnbindRequest,
    SearchRequest(LdapSearchRequest),
    SearchResultEntry(LdapSearchResultEntry),
    SearchResultDone(LdapResult),
    ModifyRequest(LdapModifyRequest),
    ModifyResponse(LdapResult),
    AddRequest(LdapAddRequest),
    AddResponse(LdapResult),
    DelRequest(String),
    DelResponse(LdapResult),
    AbandonRequest(i32),
    ExtendedRequest(LdapExtendedRequest),
    ExtendedResponse(LdapExtendedResponse),
    IntermediateResponse(LdapIntermediateResponse),
}

/// Model of [`LdapOp`].
pub enum LdapOpModel {
    BindRequest(LdapBindRequestModel),
    BindResponse(LdapBindResponseModel),
    UnbindRequest,
    SearchRequest(LdapSearchRequestModel),
    SearchResultEntry(LdapSearchResultEntryModel),
    SearchResultDone(LdapResultModel),
    ModifyRequest(LdapModifyRequestModel),
    ModifyResponse(LdapResultModel),
    AddRequest(LdapAddRequestModel),
    AddResponse(LdapResultModel),
    DelRequest(Seq<char>),
    DelResponse(LdapResultModel),
    AbandonRequest(i32),
    ExtendedRequest(LdapExtendedRequestModel),
    ExtendedResponse(LdapExtendedResponseModel),
    IntermediateResponse(LdapIntermediateResponseModel),
}

impl DeepView for LdapOp {
    type V = LdapOpModel;

    open spec fn deep_view(&self) -> LdapOpModel {
        match self {
            LdapOp::BindRequest(x) => LdapOpModel::BindRequest(x.deep_view()),
            LdapOp::BindResponse(x) => LdapOpModel::BindResponse(x.deep_view()),
            LdapOp::UnbindRequest => LdapOpModel::UnbindRequest,
            LdapOp::SearchRequest(x) => LdapOpModel::SearchRequest(x.deep_view()),
            LdapOp::SearchResultEntry(x) => LdapOpModel::SearchResultEntry(x.deep_view()),
            LdapOp::SearchResultDone(x) => LdapOpModel::SearchResultDone(x.deep_view()),
            LdapOp::ModifyRequest(x) => LdapOpModel::ModifyRequest(x.deep_view()),
            LdapOp::ModifyResponse(x) => LdapOpModel::ModifyResponse(x.deep_view()),
            LdapOp::AddRequest(x) => LdapOpModel::AddRequest(x.deep_view()),
            LdapOp::AddResponse(x) => LdapOpModel::AddResponse(x.deep_view()),
            LdapOp::DelRequest(x) => LdapOpModel::DelRequest(x@),
            LdapOp::DelResponse(x) => LdapOpModel::DelResponse(x.deep_view()),
            LdapOp::AbandonRequest(x) => LdapOpModel::AbandonRequest(*x),
            LdapOp::ExtendedRequest(x) => LdapOpModel::ExtendedRequest(x.deep_view()),
            LdapOp::ExtendedResponse(x) => LdapOpModel::ExtendedResponse(x.deep_view()),
            LdapOp::IntermediateResponse(x) => LdapOpModel::IntermediateResponse(x.deep_view()),
        }
    }
}

/// One LDAP message.
#[derive(Clone, PartialEq)]
pub struct LdapMsg {
    pub msgid: i32,
    pub op: LdapOp,
    pub ctrl: Vec<LdapControl>,
}

/// Model of [`LdapMsg`].
pub struct LdapMsgModel {
    pub msgid: i32,
    pub op: LdapOpModel,
    pub ctrl: Seq<LdapControlModel>,
}

impl DeepView for LdapMsg {
    type V = LdapMsgModel;

    open spec fn deep_view(&self) -> LdapMsgModel {
        LdapMsgModel {
            msgid: self.msgid,
            op: self.op.deep_view(),
            ctrl: self.ctrl.deep_view(),
        }
    }
}

/// The request to learn the identity that a connection is bound to.
#[derive(Clone, PartialEq)]
pub struct LdapWhoamiRequest {}

/// The answer to a [`LdapWhoamiRequest`].
#[derive(Clone, PartialEq)]
pub struct LdapWhoamiResponse {
    pub dn: Option<String>,
}

/// Model of [`LdapWhoamiResponse`].
pub struct LdapWhoamiResponseModel {
    pub dn: Option<Seq<char>>,
}

impl DeepView for LdapWhoamiResponse {
    type V = LdapWhoamiResponseModel;

    open spec fn deep_view(&self) -> LdapWhoamiResponseModel {
        LdapWhoamiResponseModel { dn: self.dn.deep_view() }
    }
}

/// The request to change a password.
#[derive(Clone, PartialEq)]
pub struct LdapPasswordModifyRequest {
    pub user_identity: Option<String>,
    pub old_password: Option<String>,
    pub new_password: Option<String>,
}

/// Model of [`LdapPasswordModifyRequest`].
pub struct LdapPasswordModifyRequestModel {
    pub user_identity: Option<Seq<char>>,
    pub old_password: Option<Seq<char>>,
    pub new_password: Option<Seq<char>>,
}

impl DeepView for LdapPasswordModifyRequest {
    type V = LdapPasswordModifyRequestModel;

    open spec fn deep_view(&self) -> LdapPasswordModifyRequestModel {
        LdapPasswordModifyRequestModel {
            user_identity: self.user_identity.deep_view(),
            old_password: self.old_password.deep_view(),
            new_password: self.new_password.deep_view(),
        }
    }
}

/// The answer to a [`LdapPasswordModifyRequest`].
#[derive(Debug, Clone, PartialEq)]
pub struct LdapPasswordModifyResponse {
    pub res: LdapResult,
    pub gen_password: Option<String>,
}

/// Model of [`LdapPasswordModifyResponse`].
pub struct LdapPasswordModifyResponseModel {
    pub res: LdapResultModel,
    pub gen_password: Option<Seq<char>>,
}

impl DeepView for LdapPasswordModifyResponse {
    type V = LdapPasswordModifyResponseModel;

    open spec fn deep_view(&self) -> LdapPasswordModifyResponseModel {
        LdapPasswordModifyResponseModel {
            res: self.res.deep_view(),
            gen_password: self.gen_password.deep_view(),
        }
    }
}

/// What a decoder returns, as the model of the value or nothing.
pub open spec fn decoded<T: DeepView>(r: Result<T, ()>) -> Option<T::V> {
    match r {
        Ok(v) => Some(v.deep_view()),
        Err(_) => None,
    }
}

} // verus!
