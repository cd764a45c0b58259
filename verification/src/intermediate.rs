//! Intermediate responses, and among them the sync info message of content
//! synchronization, whose value holds BER octets of its own.

use crate::ber::{at, tag_at, tag_model, BerClass, BerTag, TagModel, BOOLEAN, OCTET_STRING, SET};
use crate::codes::need;
use crate::control::or_false;
use crate::extended::{
    cookie_field, find_last, first_with, flag_field, get_cookie, get_flag, get_optional_octets,
    get_optional_text, last_with, optional_octets, optional_text,
};
use crate::field::{
    bool_field, bool_tag, bool_tag_model, constructed_field, get_bool, get_constructed, get_octets,
    lemma_map_all_none, lemma_map_all_some, map_all, octets_field, octets_tag, octets_tag_model,
    text_tag_of,
};
use crate::proto::{decoded, LdapIntermediateResponse, LdapIntermediateResponseModel, SyncUuid};
use crate::prim::same_text;
use crate::wire::{ber_encoding, ber_parse, encode, parse, reads_back, ParseStep, StepModel};
use vstd::prelude::*;
use vstd::utf8::encode_utf8;

verus! {

broadcast use crate::prim::lemma_octets_deep_view;

/// The OID of the sync info message.
pub const SYNC_INFO_OID: &'static str = "1.3.6.1.4.1.4203.1.9.1.4";

/// Context tag number of the name of an intermediate response.
pub const RESPONSE_NAME: u64 = 0;

/// Context tag number of the value of an intermediate response.
pub const RESPONSE_VALUE: u64 = 1;

/// Tag number of a new cookie.
pub const NEW_COOKIE: u64 = 0;

/// Tag number of the end of a refresh by deletions.
pub const REFRESH_DELETE: u64 = 1;

/// Tag number of the end of a refresh by presence.
pub const REFRESH_PRESENT: u64 = 2;

/// Tag number of a set of entry UUIDs.
pub const ID_SET: u64 = 3;

/// The tag that stands `k` places before the end, counting the last as 1.
pub open spec fn from_end(tags: Seq<TagModel>, k: int) -> Option<TagModel> {
    at(tags, tags.len() - k)
}

/// The tag that stands `k` places before the end, counting the last as 1.
pub fn tag_from_end(tags: &Vec<BerTag>, k: usize) -> (r: Option<&BerTag>)
    ensures
        r.deep_view() == from_end(tags.deep_view(), k as int),
{
    if k <= tags.len() {
        tag_at(tags, tags.len() - k)
    } else {
        None
    }
}

impl LdapIntermediateResponseModel {
    /// Whether reading the tags of this response gives all of it back. Each
    /// UUID of a set has sixteen octets, as that of every
    /// [`LdapIntermediateResponse`] has; a response that is no sync info does not
    /// carry the name of sync info together with a value. Every other sync info
    /// message always comes back.
    pub open spec fn canonical(self) -> bool {
        match self {
            LdapIntermediateResponseModel::SyncInfoNewCookie { .. } => true,
            LdapIntermediateResponseModel::SyncInfoRefreshDelete { .. } => true,
            LdapIntermediateResponseModel::SyncInfoRefreshPresent { .. } => true,
            LdapIntermediateResponseModel::SyncInfoIdSet { syncuuids, .. } => forall|i: int|
                0 <= i < syncuuids.len() ==> (#[trigger] syncuuids[i]).len() == 16,
            LdapIntermediateResponseModel::Raw { name, value } => !(name == Some(SYNC_INFO_OID@)
                && value is Some),
        }
    }
}

impl LdapIntermediateResponse {
    /// The cookie and the done flag in the fields of a refresh by deletions:
    /// of the universal fields, the last BOOLEAN gives the flag, true without one,
    /// and the last OCTET STRING the cookie. A BOOLEAN without a value spoils all.
    pub open spec fn spec_refresh_delete(inner: Seq<TagModel>) -> Option<(Option<Seq<u8>>, bool)>
        decreases inner.len(),
    {
        if inner.len() == 0 {
            Some((None, true))
        } else {
            match LdapIntermediateResponse::spec_refresh_delete(inner.drop_last()) {
                Some((cookie, done)) => {
                    let t = inner.last();
                    if t.is(BerClass::Universal, BOOLEAN) {
                        match bool_field(Some(t)) {
                            Some(b) => Some((cookie, b)),
                            None => None,
                        }
                    } else if t.is(BerClass::Universal, OCTET_STRING) {
                        Some((t.primitive(), done))
                    } else {
                        Some((cookie, done))
                    }
                },
                None => None,
            }
        }
    }

    /// The UUID in a universal OCTET STRING of sixteen octets.
    pub open spec fn spec_uuid(t: TagModel) -> Option<Seq<u8>> {
        match octets_field(Some(t)) {
            Some(b) => SyncUuid::spec_from_slice(b),
            None => None,
        }
    }

    /// The sync info message that a parsed value holds: a constructed context
    /// tag whose number says which of the four messages it is. A new cookie is the
    /// last field, and the UUIDs of a set are the SET that stands last. A cookie
    /// and a flag that may be left out are found by kind: at the end of a refresh
    /// by deletions the last of each kind counts, at the end of a refresh by
    /// presence and in a set of UUIDs the first OCTET STRING and the first BOOLEAN.
    /// The end of a refresh is done unless its flag says otherwise.
    pub open spec fn spec_sync_info(step: StepModel) -> Option<LdapIntermediateResponseModel> {
        match step {
            StepModel::Done(_, t) => if t.class != BerClass::Context {
                None
            } else {
                match t.constructed() {
                    Some(inner) => {
                        if t.id == NEW_COOKIE {
                            match optional_octets(from_end(inner, 1)) {
                                Some(cookie) => Some(
                                    LdapIntermediateResponseModel::SyncInfoNewCookie { cookie },
                                ),
                                None => None,
                            }
                        } else if t.id == REFRESH_DELETE {
                            match LdapIntermediateResponse::spec_refresh_delete(inner) {
                                Some((cookie, done)) => Some(
                                    LdapIntermediateResponseModel::SyncInfoRefreshDelete {
                                        cookie,
                                        done,
                                    },
                                ),
                                None => None,
                            }
                        } else if t.id == REFRESH_PRESENT {
                            Some(
                                LdapIntermediateResponseModel::SyncInfoRefreshPresent {
                                    cookie: cookie_field(inner, 0),
                                    done: match flag_field(inner, 0) {
                                        Some(b) => b,
                                        None => true,
                                    },
                                },
                            )
                        } else if t.id == ID_SET {
                            match constructed_field(from_end(inner, 1), BerClass::Universal, SET) {
                                Some(set) => match map_all(
                                    set,
                                    |u: TagModel| LdapIntermediateResponse::spec_uuid(u),
                                ) {
                                    Some(syncuuids) => Some(
                                        LdapIntermediateResponseModel::SyncInfoIdSet {
                                            cookie: cookie_field(inner, 0),
                                            refresh_deletes: or_false(flag_field(inner, 0)),
                                            syncuuids,
                                        },
                                    ),
                                    None => None,
                                },
                                None => None,
                            }
                        } else {
                            None
                        }
                    },
                    None => None,
                }
            },
            _ => None,
        }
    }

    /// The name in the tags of an intermediate response: the text of the last
    /// context tag 0.
    pub open spec fn spec_name(tags: Seq<TagModel>) -> Option<Seq<char>> {
        optional_text(last_with(tags, BerClass::Context, RESPONSE_NAME))
    }

    /// The value in the tags of an intermediate response: the octets of the
    /// last context tag 1.
    pub open spec fn spec_value(tags: Seq<TagModel>) -> Option<Seq<u8>> {
        optional_octets(last_with(tags, BerClass::Context, RESPONSE_VALUE))
    }

    /// The intermediate response that a sequence of tags holds. With the name
    /// of sync info and a value, the value is parsed and read as sync info; any
    /// other name and value are handed on as they are.
    pub open spec fn spec_try_from(tags: Seq<TagModel>) -> Option<LdapIntermediateResponseModel> {
        let name = LdapIntermediateResponse::spec_name(tags);
        let value = LdapIntermediateResponse::spec_value(tags);
        if name == Some(SYNC_INFO_OID@) && value is Some {
            LdapIntermediateResponse::spec_sync_info(ber_parse(value->0))
        } else {
            Some(LdapIntermediateResponseModel::Raw { name, value })
        }
    }

    /// A cookie as a list of no tag or one.
    pub open spec fn spec_cookie(cookie: Option<Seq<u8>>) -> Seq<TagModel> {
        match cookie {
            Some(c) => seq![octets_tag_model(c)],
            None => seq![],
        }
    }

    /// A flag as a list of one tag where it has the given value, of none otherwise.
    pub open spec fn spec_flag(flag: bool, written: bool) -> Seq<TagModel> {
        if flag == written {
            seq![bool_tag_model(written)]
        } else {
            seq![]
        }
    }

    /// The structure of a sync info message, whose octets are the value of
    /// the response. Any other response has none.
    pub open spec fn spec_body(m: LdapIntermediateResponseModel) -> Option<TagModel> {
        match m {
            LdapIntermediateResponseModel::SyncInfoNewCookie { cookie } => Some(
                TagModel::new_constructed(
                    BerClass::Context,
                    NEW_COOKIE,
                    seq![octets_tag_model(cookie)],
                ),
            ),
            LdapIntermediateResponseModel::SyncInfoRefreshDelete { cookie, done } => Some(
                TagModel::new_constructed(
                    BerClass::Context,
                    REFRESH_DELETE,
                    LdapIntermediateResponse::spec_cookie(cookie)
                        + LdapIntermediateResponse::spec_flag(done, false),
                ),
            ),
            LdapIntermediateResponseModel::SyncInfoRefreshPresent { cookie, done } => Some(
                TagModel::new_constructed(
                    BerClass::Context,
                    REFRESH_PRESENT,
                    LdapIntermediateResponse::spec_cookie(cookie)
                        + LdapIntermediateResponse::spec_flag(done, false),
                ),
            ),
            LdapIntermediateResponseModel::SyncInfoIdSet { cookie, refresh_deletes, syncuuids } =>
                Some(
                TagModel::new_constructed(
                    BerClass::Context,
                    ID_SET,
                    LdapIntermediateResponse::spec_cookie(cookie)
                        + LdapIntermediateResponse::spec_flag(refresh_deletes, true) + seq![
                        TagModel::new_constructed(
                            BerClass::Universal,
                            SET,
                            syncuuids.map_values(|u: Seq<u8>| octets_tag_model(u)),
                        ),
                    ],
                ),
            ),
            LdapIntermediateResponseModel::Raw { .. } => None,
        }
    }

    /// The name that a response is written with.
    pub open spec fn spec_written_name(m: LdapIntermediateResponseModel) -> Option<Seq<char>> {
        match m {
            LdapIntermediateResponseModel::Raw { name, .. } => name,
            _ => Some(SYNC_INFO_OID@),
        }
    }

    /// The value that a response is written with.
    pub open spec fn spec_written_value(m: LdapIntermediateResponseModel) -> Option<Seq<u8>> {
        match m {
            LdapIntermediateResponseModel::Raw { value, .. } => value,
            _ => Some(ber_encoding(LdapIntermediateResponse::spec_body(m)->0)),
        }
    }

    /// The tags of a name and a value.
    pub open spec fn spec_pair(name: Option<Seq<char>>, value: Option<Seq<u8>>) -> Seq<TagModel> {
        let n = match name {
            Some(n) => seq![
                TagModel::new_primitive(BerClass::Context, RESPONSE_NAME, encode_utf8(n)),
            ],
            None => seq![],
        };
        let v = match value {
            Some(v) => seq![TagModel::new_primitive(BerClass::Context, RESPONSE_VALUE, v)],
            None => seq![],
        };
        n + v
    }

    /// The tags of an intermediate response.
    pub open spec fn spec_to_tags(m: LdapIntermediateResponseModel) -> Seq<TagModel> {
        LdapIntermediateResponse::spec_pair(
            LdapIntermediateResponse::spec_written_name(m),
            LdapIntermediateResponse::spec_written_value(m),
        )
    }

    /// Reads the cookie and the done flag of a refresh by deletions.
    fn refresh_delete_from(inner: &Vec<BerTag>) -> (r: Option<(Option<Vec<u8>>, bool)>)
        ensures
            r.deep_view() == LdapIntermediateResponse::spec_refresh_delete(inner.deep_view()),
    {
        let ghost m = inner.deep_view();
        let mut cookie: Option<Vec<u8>> = None;
        let mut done: bool = true;
        let mut i: usize = 0;
        proof {
            assert(m.take(0) =~= Seq::<TagModel>::empty());
        }
        while i < inner.len()
            invariant
                i <= inner.len(),
                m == inner.deep_view(),
                LdapIntermediateResponse::spec_refresh_delete(m.take(i as int)) == Some(
                    (cookie.deep_view(), done),
                ),
            decreases inner.len() - i,
        {
            proof {
                assert(m.take(i + 1).drop_last() =~= m.take(i as int));
                assert(m.take(i + 1).last() == tag_model(inner@[i as int]));
            }
            let t = &inner[i];
            if t.is(BerClass::Universal, BOOLEAN) {
                match get_bool(Some(t)) {
                    Some(b) => {
                        done = b;
                    },
                    None => {
                        proof {
                            LdapIntermediateResponse::lemma_refresh_delete_prefix(m, i + 1);
                        }
                        return None;
                    },
                }
            } else if t.is(BerClass::Universal, OCTET_STRING) {
                cookie = get_optional_octets(Some(t));
            }
            i += 1;
        }
        proof {
            assert(m.take(inner.len() as int) =~= m);
        }
        Some((cookie, done))
    }

    /// Where a prefix of the fields is spoilt, all of them are.
    pub proof fn lemma_refresh_delete_prefix(inner: Seq<TagModel>, n: int)
        requires
            0 <= n <= inner.len(),
            LdapIntermediateResponse::spec_refresh_delete(inner.take(n)) is None,
        ensures
            LdapIntermediateResponse::spec_refresh_delete(inner) is None,
        decreases inner.len() - n,
    {
        if n < inner.len() {
            assert(inner.take(n + 1).drop_last() =~= inner.take(n));
            LdapIntermediateResponse::lemma_refresh_delete_prefix(inner, n + 1);
        } else {
            assert(inner.take(n) =~= inner);
        }
    }

    /// Reads the UUIDs of a set.
    fn uuids_from(set: &Vec<BerTag>) -> (r: Option<Vec<SyncUuid>>)
        ensures
            r.deep_view() == map_all(
                set.deep_view(),
                |u: TagModel| LdapIntermediateResponse::spec_uuid(u),
            ),
    {
        let ghost f = |u: TagModel| LdapIntermediateResponse::spec_uuid(u);
        let mut out: Vec<SyncUuid> = Vec::new();
        let mut i: usize = 0;
        while i < set.len()
            invariant
                i <= set.len(),
                out.len() == i,
                f == |u: TagModel| LdapIntermediateResponse::spec_uuid(u),
                forall|j: int|
                    0 <= j < i ==> f(tag_model(set@[j])) == Some((#[trigger] out@[j]).deep_view()),
            decreases set.len() - i,
        {
            let id = match get_octets(Some(&set[i])) {
                Some(b) => SyncUuid::from_slice(b.as_slice()),
                None => None,
            };
            match id {
                Some(u) => out.push(u),
                None => {
                    proof {
                        lemma_map_all_none(set.deep_view(), f, i as int);
                    }
                    return None;
                },
            }
            i += 1;
        }
        proof {
            lemma_map_all_some(set.deep_view(), f, out.deep_view());
        }
        Some(out)
    }

    /// Reads a sync info message from what parsing the value of the response gave.
    pub fn sync_info_from(step: &ParseStep) -> (r: Result<LdapIntermediateResponse, ()>)
        ensures
            decoded(r) == LdapIntermediateResponse::spec_sync_info(step.deep_view()),
    {
        let t = match step {
            ParseStep::Done(_, t) => t,
            _ => {
                return Err(());
            },
        };
        if t.class != BerClass::Context {
            return Err(());
        }
        let inner = need(t.expect_constructed())?;
        if t.id == NEW_COOKIE {
            let cookie = need(get_optional_octets(tag_from_end(inner, 1)))?;
            Ok(LdapIntermediateResponse::SyncInfoNewCookie { cookie })
        } else if t.id == REFRESH_DELETE {
            let (cookie, done) = need(LdapIntermediateResponse::refresh_delete_from(inner))?;
            Ok(LdapIntermediateResponse::SyncInfoRefreshDelete { cookie, done })
        } else if t.id == REFRESH_PRESENT {
            let done = match get_flag(inner, 0) {
                Some(b) => b,
                None => true,
            };
            let cookie = get_cookie(inner, 0);
            Ok(LdapIntermediateResponse::SyncInfoRefreshPresent { cookie, done })
        } else if t.id == ID_SET {
            let set = need(get_constructed(tag_from_end(inner, 1), BerClass::Universal, SET))?;
            let syncuuids = need(LdapIntermediateResponse::uuids_from(set))?;
            let refresh_deletes = match get_flag(inner, 0) {
                Some(b) => b,
                None => false,
            };
            let cookie = get_cookie(inner, 0);
            Ok(LdapIntermediateResponse::SyncInfoIdSet { cookie, refresh_deletes, syncuuids })
        } else {
            Err(())
        }
    }

    /// Reads an intermediate response.
    pub fn try_from(tags: &Vec<BerTag>) -> (r: Result<LdapIntermediateResponse, ()>)
        ensures
            decoded(r) == LdapIntermediateResponse::spec_try_from(tags.deep_view()),
    {
        let name = get_optional_text(find_last(tags, BerClass::Context, RESPONSE_NAME));
        let value = get_optional_octets(find_last(tags, BerClass::Context, RESPONSE_VALUE));
        let named_sync_info = match &name {
            Some(n) => same_text(n.as_str(), SYNC_INFO_OID),
            None => false,
        };
        if named_sync_info {
            match &value {
                Some(v) => {
                    let step = parse(v.as_slice());
                    return LdapIntermediateResponse::sync_info_from(&step);
                },
                None => {},
            }
        }
        Ok(LdapIntermediateResponse::Raw { name, value })
    }

    /// Appends the tag of a cookie, if there is a cookie.
    fn push_cookie(out: &mut Vec<BerTag>, cookie: &Option<Vec<u8>>)
        ensures
            final(out).deep_view() == old(out).deep_view()
                + LdapIntermediateResponse::spec_cookie(cookie.deep_view()),
    {
        let ghost before = out.deep_view();
        match cookie {
            Some(c) => {
                out.push(octets_tag(c));
            },
            None => {},
        }
        proof {
            assert(out.deep_view() =~= before + LdapIntermediateResponse::spec_cookie(
                cookie.deep_view(),
            ));
        }
    }

    /// Appends the tag of a flag where the flag has the value that is written.
    fn push_flag(out: &mut Vec<BerTag>, flag: bool, written: bool)
        ensures
            final(out).deep_view() == old(out).deep_view() + LdapIntermediateResponse::spec_flag(
                flag,
                written,
            ),
    {
        let ghost before = out.deep_view();
        if flag == written {
            out.push(bool_tag(written));
        }
        proof {
            assert(out.deep_view() =~= before + LdapIntermediateResponse::spec_flag(flag, written));
        }
    }

    /// The tags of a list of UUIDs.
    fn uuid_tags(list: &Vec<SyncUuid>) -> (r: Vec<BerTag>)
        ensures
            r.deep_view() == list.deep_view().map_values(|u: Seq<u8>| octets_tag_model(u)),
    {
        let mut out: Vec<BerTag> = Vec::new();
        let mut i: usize = 0;
        while i < list.len()
            invariant
                i <= list.len(),
                out.len() == i,
                forall|j: int|
                    0 <= j < i ==> tag_model(#[trigger] out@[j]) == octets_tag_model(
                        list@[j].deep_view(),
                    ),
            decreases list.len() - i,
        {
            out.push(BerTag::octet_string(list[i].as_bytes()));
            i += 1;
        }
        proof {
            assert(out.deep_view() =~= list.deep_view().map_values(
                |u: Seq<u8>| octets_tag_model(u),
            ));
        }
        out
    }

    /// The structure of a sync info message; nothing for any other response.
    /// Read as the parsed value of the response, it gives the message back where
    /// the message is canonical.
    pub fn body(&self) -> (r: Option<BerTag>)
        ensures
            r.deep_view() == LdapIntermediateResponse::spec_body(self.deep_view()),
            forall|a: crate::wire::Advance|
                r is Some && self.deep_view().canonical()
                    ==> #[trigger] LdapIntermediateResponse::spec_sync_info(
                    StepModel::Done(a, r->0.deep_view()),
                ) == Some(self.deep_view()),
    {
        let mut out: Vec<BerTag> = Vec::new();
        proof {
            let m = self.deep_view();
            assert forall|a: crate::wire::Advance|
                m !is Raw && m.canonical()
                    implies #[trigger] LdapIntermediateResponse::spec_sync_info(
                StepModel::Done(a, LdapIntermediateResponse::spec_body(m)->0),
            ) == Some(m) by {
                LdapIntermediateResponse::lemma_sync_info_round_trip(m, a);
            }
        }
        match self {
            LdapIntermediateResponse::SyncInfoNewCookie { cookie } => {
                out.push(octets_tag(cookie));
                proof {
                    assert(out.deep_view() =~= seq![octets_tag_model(cookie@)]);
                }
                Some(BerTag::constructed(BerClass::Context, NEW_COOKIE, out))
            },
            LdapIntermediateResponse::SyncInfoRefreshDelete { cookie, done } => {
                LdapIntermediateResponse::push_cookie(&mut out, cookie);
                LdapIntermediateResponse::push_flag(&mut out, *done, false);
                Some(BerTag::constructed(BerClass::Context, REFRESH_DELETE, out))
            },
            LdapIntermediateResponse::SyncInfoRefreshPresent { cookie, done } => {
                LdapIntermediateResponse::push_cookie(&mut out, cookie);
                LdapIntermediateResponse::push_flag(&mut out, *done, false);
                Some(BerTag::constructed(BerClass::Context, REFRESH_PRESENT, out))
            },
            LdapIntermediateResponse::SyncInfoIdSet { cookie, refresh_deletes, syncuuids } => {
                LdapIntermediateResponse::push_cookie(&mut out, cookie);
                LdapIntermediateResponse::push_flag(&mut out, *refresh_deletes, true);
                let ghost head = out.deep_view();
                let set = BerTag::set(LdapIntermediateResponse::uuid_tags(syncuuids));
                out.push(set);
                proof {
                    assert(out.deep_view() =~= head.push(tag_model(set)));
                    assert(out.deep_view() =~= head + seq![tag_model(set)]);
                }
                Some(BerTag::constructed(BerClass::Context, ID_SET, out))
            },
            LdapIntermediateResponse::Raw { .. } => None,
        }
    }

    /// Every sync info message is canonical: its UUIDs have sixteen octets.
    pub proof fn lemma_canonical(r: LdapIntermediateResponse)
        ensures
            r.deep_view() !is Raw ==> r.deep_view().canonical(),
    {
        broadcast use vstd::array::group_array_axioms;

        match r {
            LdapIntermediateResponse::SyncInfoIdSet { syncuuids, .. } => {
                let list = syncuuids.deep_view();
                assert forall|i: int| 0 <= i < list.len() implies (#[trigger] list[i]).len()
                    == 16 by {
                    assert(list[i] == syncuuids@[i].deep_view());
                }
            },
            _ => {},
        }
    }

    /// The structure of a canonical sync info message, read as a parsed value,
    /// gives the message back.
    pub proof fn lemma_sync_info_round_trip(
        m: LdapIntermediateResponseModel,
        a: crate::wire::Advance,
    )
        requires
            m.canonical(),
            m !is Raw,
        ensures
            LdapIntermediateResponse::spec_sync_info(
                StepModel::Done(a, LdapIntermediateResponse::spec_body(m)->0),
            ) == Some(m),
    {
        crate::prim::lemma_bool_round_trip(true);
        crate::prim::lemma_bool_round_trip(false);
        reveal_with_fuel(LdapIntermediateResponse::spec_refresh_delete, 4);
        reveal_with_fuel(first_with, 4);
        let inner = LdapIntermediateResponse::spec_body(m)->0.payload->Constructed_0;
        match m {
            LdapIntermediateResponseModel::SyncInfoNewCookie { cookie } => {
                assert(inner[0] == octets_tag_model(cookie));
            },
            LdapIntermediateResponseModel::SyncInfoRefreshDelete { cookie, done } => {
                if inner.len() == 2 {
                    assert(inner[0] == octets_tag_model(cookie->0));
                    assert(inner[1] == bool_tag_model(false));
                    assert(inner.drop_last() =~= seq![inner[0]]);
                    assert(inner.drop_last().drop_last() =~= Seq::<TagModel>::empty());
                } else if inner.len() == 1 {
                    assert(inner.drop_last() =~= Seq::<TagModel>::empty());
                    if cookie is Some {
                        assert(inner[0] == octets_tag_model(cookie->0));
                    } else {
                        assert(inner[0] == bool_tag_model(false));
                    }
                }
            },
            LdapIntermediateResponseModel::SyncInfoRefreshPresent { cookie, done } => {
                if cookie is Some {
                    assert(inner[0] == octets_tag_model(cookie->0));
                    if !done {
                        assert(inner[1] == bool_tag_model(false));
                        assert(inner.len() == 2);
                    } else {
                        assert(inner.len() == 1);
                    }
                } else if !done {
                    assert(inner[0] == bool_tag_model(false));
                    assert(inner.len() == 1);
                } else {
                    assert(inner.len() == 0);
                }
            },
            LdapIntermediateResponseModel::SyncInfoIdSet { cookie, refresh_deletes, syncuuids } => {
                let set = syncuuids.map_values(|u: Seq<u8>| octets_tag_model(u));
                let f = |u: TagModel| LdapIntermediateResponse::spec_uuid(u);
                assert forall|i: int| 0 <= i < set.len() implies f(#[trigger] set[i]) == Some(
                    syncuuids[i],
                ) by {
                    assert(syncuuids[i].len() == 16);
                }
                lemma_map_all_some(set, f, syncuuids);
                let last = TagModel::new_constructed(BerClass::Universal, SET, set);
                if cookie is Some {
                    assert(inner[0] == octets_tag_model(cookie->0));
                    if refresh_deletes {
                        assert(inner[1] == bool_tag_model(true));
                        assert(inner[2] == last);
                        assert(inner.len() == 3);
                    } else {
                        assert(inner[1] == last);
                        assert(inner.len() == 2);
                    }
                } else if refresh_deletes {
                    assert(inner[0] == bool_tag_model(true));
                    assert(inner[1] == last);
                    assert(inner.len() == 2);
                } else {
                    assert(inner[0] == last);
                    assert(inner.len() == 1);
                }
            },
            LdapIntermediateResponseModel::Raw { .. } => {},
        }
    }

    /// Reading the tags of an intermediate response gives the response back,
    /// where it is canonical and, for sync info, the octets of its structure parse
    /// as that structure.
    pub proof fn lemma_round_trip(m: LdapIntermediateResponseModel)
        ensures
            m.canonical() && (LdapIntermediateResponse::spec_body(m) matches Some(b)
                ==> reads_back(b)) ==> LdapIntermediateResponse::spec_try_from(
                LdapIntermediateResponse::spec_to_tags(m),
            ) == Some(m),
    {
        LdapIntermediateResponse::lemma_pair(
            LdapIntermediateResponse::spec_written_name(m),
            LdapIntermediateResponse::spec_written_value(m),
        );
        if m.canonical() && m !is Raw {
            let body = LdapIntermediateResponse::spec_body(m)->0;
            if reads_back(body) {
                let step = ber_parse(ber_encoding(body));
                LdapIntermediateResponse::lemma_sync_info_round_trip(m, step->Done_0);
            }
        }
    }

    /// The name and value that a pair of tags holds are those it was made of.
    pub proof fn lemma_pair(name: Option<Seq<char>>, value: Option<Seq<u8>>)
        ensures
            LdapIntermediateResponse::spec_name(LdapIntermediateResponse::spec_pair(name, value))
                == name,
            LdapIntermediateResponse::spec_value(LdapIntermediateResponse::spec_pair(name, value))
                == value,
    {
        let tags = LdapIntermediateResponse::spec_pair(name, value);
        reveal_with_fuel(last_with, 3);
        if name is Some {
            crate::prim::lemma_text_round_trip(name->0);
        }
        if tags.len() == 2 {
            assert(tags.drop_last() =~= seq![tags[0]]);
            assert(tags.drop_last().drop_last() =~= Seq::<TagModel>::empty());
        } else if tags.len() == 1 {
            assert(tags.drop_last() =~= Seq::<TagModel>::empty());
        }
    }

    /// The tags of an intermediate response. Reading them gives the response
    /// back, where it is canonical and, for sync info, the octets of its structure
    /// parse as that structure.
    pub fn to_tags(&self) -> (r: Vec<BerTag>)
        ensures
            r.deep_view() == LdapIntermediateResponse::spec_to_tags(self.deep_view()),
            self.deep_view().canonical() && (LdapIntermediateResponse::spec_body(
                self.deep_view(),
            ) matches Some(b) ==> reads_back(b)) ==> LdapIntermediateResponse::spec_try_from(
                r.deep_view(),
            ) == Some(self.deep_view()),
    {
        let mut out: Vec<BerTag> = Vec::new();
        match self {
            LdapIntermediateResponse::Raw { name, value } => {
                match name {
                    Some(n) => {
                        out.push(text_tag_of(BerClass::Context, RESPONSE_NAME, n.as_str()));
                    },
                    None => {},
                }
                match value {
                    Some(v) => {
                        out.push(BerTag::primitive(BerClass::Context, RESPONSE_VALUE, v.clone()));
                    },
                    None => {},
                }
            },
            _ => {
                match self.body() {
                    Some(body) => {
                        out.push(text_tag_of(BerClass::Context, RESPONSE_NAME, SYNC_INFO_OID));
                        out.push(
                            BerTag::primitive(BerClass::Context, RESPONSE_VALUE, encode(&body)),
                        );
                    },
                    None => {},
                }
            },
        }
        proof {
            let m = self.deep_view();
            assert(out.deep_view() =~= LdapIntermediateResponse::spec_to_tags(m));
            LdapIntermediateResponse::lemma_round_trip(m);
        }
        out
    }
}

} // verus!
