//! Controls: the content synchronization controls and the DirSync control.
//!
//! A control is a SEQUENCE of its OID, an optional criticality and a value. The
//! value is an OCTET STRING that holds the BER octets of the control's own
//! structure, so reading a control parses a second time and writing one encodes a
//! second time.

use crate::ber::{at, tag_at, tag_model, BerClass, BerTag, TagModel, ENUMERATED, INTEGER, SEQUENCE};
use crate::codes::need;
use crate::extended::{cookie_field, first_with, flag_field, get_cookie, get_flag};
use crate::field::{
    bool_field, bool_tag, bool_tag_model, get_bool, get_integer, get_octets, get_text,
    integer_field, integer_tag_model, number_tag, octets_field, octets_tag, octets_tag_model,
    text_field, text_tag, text_tag_model,
};
use crate::proto::{
    decoded, LdapControl, LdapControlModel, SyncRequestMode, SyncStateValue, SyncUuid,
};
use crate::prim::same_text;
use crate::wire::{ber_encoding, ber_parse, encode, parse, reads_back, ParseStep, StepModel};
use vstd::prelude::*;

verus! {

broadcast use crate::prim::lemma_octets_deep_view;

/// The OID of the sync request control.
pub const SYNC_REQUEST_OID: &'static str = "1.3.6.1.4.1.4203.1.9.1.1";

/// The OID of the sync state control.
pub const SYNC_STATE_OID: &'static str = "1.3.6.1.4.1.4203.1.9.1.2";

/// The OID of the sync done control.
pub const SYNC_DONE_OID: &'static str = "1.3.6.1.4.1.4203.1.9.1.3";

/// The OID of the DirSync control of Active Directory.
pub const AD_DIRSYNC_OID: &'static str = "1.2.840.113556.1.4.841";

/// An optional truth value that is false where it is absent.
pub open spec fn or_false(o: Option<bool>) -> bool {
    match o {
        Some(b) => b,
        None => false,
    }
}

/// The four OIDs differ from one another.
pub proof fn lemma_oids_differ()
    ensures
        SYNC_REQUEST_OID@ != SYNC_STATE_OID@,
        SYNC_REQUEST_OID@ != SYNC_DONE_OID@,
        SYNC_REQUEST_OID@ != AD_DIRSYNC_OID@,
        SYNC_STATE_OID@ != SYNC_DONE_OID@,
        SYNC_STATE_OID@ != AD_DIRSYNC_OID@,
        SYNC_DONE_OID@ != AD_DIRSYNC_OID@,
{
    reveal_strlit("1.3.6.1.4.1.4203.1.9.1.1");
    reveal_strlit("1.3.6.1.4.1.4203.1.9.1.2");
    reveal_strlit("1.3.6.1.4.1.4203.1.9.1.3");
    reveal_strlit("1.2.840.113556.1.4.841");
    assert(SYNC_REQUEST_OID@[23] == '1');
    assert(SYNC_STATE_OID@[23] == '2');
    assert(SYNC_DONE_OID@[23] == '3');
    assert(AD_DIRSYNC_OID@.len() == 22);
}

impl LdapControlModel {
    /// Whether reading the structure of this control gives all of it back. A
    /// UUID has sixteen octets, as that of every [`LdapControl`] has; the DirSync
    /// control has a cookie, and numbers that are not negative or are the smallest
    /// of all. A sync request and a sync done control always come back.
    pub open spec fn canonical(self) -> bool {
        match self {
            LdapControlModel::SyncRequest { .. } => true,
            LdapControlModel::SyncState { entry_uuid, .. } => entry_uuid.len() == 16,
            LdapControlModel::SyncDone { .. } => true,
            LdapControlModel::AdDirsync { flags, max_bytes, cookie } => (flags >= 0 || flags
                == i64::MIN) && (max_bytes >= 0 || max_bytes == i64::MIN) && cookie is Some,
        }
    }
}

impl LdapControl {
    /// The OID of a control.
    pub open spec fn spec_oid(m: LdapControlModel) -> Seq<char> {
        match m {
            LdapControlModel::SyncRequest { .. } => SYNC_REQUEST_OID@,
            LdapControlModel::SyncState { .. } => SYNC_STATE_OID@,
            LdapControlModel::SyncDone { .. } => SYNC_DONE_OID@,
            LdapControlModel::AdDirsync { .. } => AD_DIRSYNC_OID@,
        }
    }

    /// The criticality that a control is written with: its own for a sync
    /// request, true for DirSync, false for the others.
    pub open spec fn spec_criticality(m: LdapControlModel) -> bool {
        match m {
            LdapControlModel::SyncRequest { criticality, .. } => criticality,
            LdapControlModel::AdDirsync { .. } => true,
            _ => false,
        }
    }

    /// A cookie as a list of no tag or one.
    pub open spec fn spec_cookie(cookie: Option<Seq<u8>>) -> Seq<TagModel> {
        match cookie {
            Some(c) => seq![octets_tag_model(c)],
            None => seq![],
        }
    }

    /// A flag as a list of no tag, or of one that holds true.
    pub open spec fn spec_flag(flag: bool) -> Seq<TagModel> {
        if flag {
            seq![bool_tag_model(true)]
        } else {
            seq![]
        }
    }

    /// The structure of a control, whose octets are the control's value.
    pub open spec fn spec_body(m: LdapControlModel) -> TagModel {
        TagModel::new_constructed(
            BerClass::Universal,
            SEQUENCE,
            match m {
                LdapControlModel::SyncRequest { mode, cookie, reload_hint, .. } => seq![
                    integer_tag_model(ENUMERATED, mode.spec_code()),
                ] + LdapControl::spec_cookie(cookie) + LdapControl::spec_flag(reload_hint),
                LdapControlModel::SyncState { state, entry_uuid, cookie } => seq![
                    integer_tag_model(ENUMERATED, state.spec_code()),
                    octets_tag_model(entry_uuid),
                ] + LdapControl::spec_cookie(cookie),
                LdapControlModel::SyncDone { cookie, refresh_deletes } => LdapControl::spec_cookie(
                    cookie,
                ) + LdapControl::spec_flag(refresh_deletes),
                LdapControlModel::AdDirsync { flags, max_bytes, cookie } => seq![
                    integer_tag_model(INTEGER, flags),
                    integer_tag_model(INTEGER, max_bytes),
                    octets_tag_model(
                        match cookie {
                            Some(c) => c,
                            None => Seq::empty(),
                        },
                    ),
                ],
            },
        )
    }

    /// The tag of a control: OID, criticality where it is true, and the octets
    /// of the structure.
    pub open spec fn spec_to_tag(m: LdapControlModel) -> TagModel {
        TagModel::new_constructed(
            BerClass::Universal,
            SEQUENCE,
            seq![text_tag_model(LdapControl::spec_oid(m))] + LdapControl::spec_flag(
                LdapControl::spec_criticality(m),
            ) + seq![octets_tag_model(ber_encoding(LdapControl::spec_body(m)))],
        )
    }

    /// The control with the given OID and criticality whose value parsed as
    /// `step`. The value must have parsed to a constructed tag. The fields that
    /// must be there are read by position. A cookie and a flag that may be left
    /// out are found by kind: in a sync request behind the mode, and in a sync done
    /// control anywhere, the first OCTET STRING is the cookie and the first BOOLEAN
    /// the flag.
    pub open spec fn spec_from_body(oid: Seq<char>, criticality: bool, step: StepModel) -> Option<
        LdapControlModel,
    > {
        match step {
            StepModel::Done(_, t) => match t.constructed() {
                Some(inner) => {
                    if oid == SYNC_REQUEST_OID@ {
                        match integer_field(at(inner, 0), ENUMERATED) {
                            Some(v) => match SyncRequestMode::spec_try_from(v) {
                                Some(mode) => Some(
                                    LdapControlModel::SyncRequest {
                                        criticality,
                                        mode,
                                        cookie: cookie_field(inner, 1),
                                        reload_hint: or_false(flag_field(inner, 1)),
                                    },
                                ),
                                None => None,
                            },
                            None => None,
                        }
                    } else if oid == SYNC_STATE_OID@ {
                        match (integer_field(at(inner, 0), ENUMERATED), octets_field(at(inner, 1))) {
                            (Some(v), Some(id)) => match (
                                SyncStateValue::spec_try_from(v),
                                SyncUuid::spec_from_slice(id),
                            ) {
                                (Some(state), Some(entry_uuid)) => Some(
                                    LdapControlModel::SyncState {
                                        state,
                                        entry_uuid,
                                        cookie: octets_field(at(inner, 2)),
                                    },
                                ),
                                _ => None,
                            },
                            _ => None,
                        }
                    } else if oid == SYNC_DONE_OID@ {
                        Some(
                            LdapControlModel::SyncDone {
                                cookie: cookie_field(inner, 0),
                                refresh_deletes: or_false(flag_field(inner, 0)),
                            },
                        )
                    } else if oid == AD_DIRSYNC_OID@ {
                        match (
                            integer_field(at(inner, 0), INTEGER),
                            integer_field(at(inner, 1), INTEGER),
                        ) {
                            (Some(flags), Some(max_bytes)) => Some(
                                LdapControlModel::AdDirsync {
                                    flags,
                                    max_bytes,
                                    cookie: octets_field(at(inner, 2)),
                                },
                            ),
                            _ => None,
                        }
                    } else {
                        None
                    }
                },
                None => None,
            },
            _ => None,
        }
    }

    /// The tag that holds the criticality of a control with these fields.
    pub open spec fn spec_criticality_tag(seq: Seq<TagModel>) -> Option<TagModel> {
        if seq.len() == 3 {
            at(seq, 1)
        } else {
            None
        }
    }

    /// The tag that holds the value of a control with these fields.
    pub open spec fn spec_value_tag(seq: Seq<TagModel>) -> Option<TagModel> {
        if seq.len() == 3 {
            at(seq, 2)
        } else if seq.len() == 2 {
            at(seq, 1)
        } else {
            None
        }
    }

    /// The control that a tag holds. The tag has the number of a SEQUENCE and
    /// one to three fields: the OID; with three, the criticality; with two or three,
    /// the value last. The value is parsed, and the rest is [`Self::spec_from_body`].
    pub open spec fn spec_try_from(t: TagModel) -> Option<LdapControlModel> {
        if t.id != SEQUENCE {
            None
        } else {
            match t.constructed() {
                Some(seq) => if 1 <= seq.len() <= 3 {
                    match (
                        text_field(at(seq, 0)),
                        octets_field(LdapControl::spec_value_tag(seq)),
                    ) {
                        (Some(oid), Some(value)) => LdapControl::spec_from_body(
                            oid,
                            or_false(bool_field(LdapControl::spec_criticality_tag(seq))),
                            ber_parse(value),
                        ),
                        _ => None,
                    }
                } else {
                    None
                },
                None => None,
            }
        }
    }

    /// Builds a control from its OID, its criticality and what parsing its value gave.
    pub fn from_body(oid: &str, criticality: bool, step: &ParseStep) -> (r: Result<
        LdapControl,
        (),
    >)
        ensures
            decoded(r) == LdapControl::spec_from_body(oid@, criticality, step.deep_view()),
    {
        let body = match step {
            ParseStep::Done(_, t) => t,
            _ => {
                return Err(());
            },
        };
        let inner = need(body.expect_constructed())?;
        if same_text(oid, SYNC_REQUEST_OID) {
            let v = need(get_integer(tag_at(inner, 0), ENUMERATED))?;
            let mode = SyncRequestMode::try_from(v)?;
            let cookie = get_cookie(inner, 1);
            let reload_hint = match get_flag(inner, 1) {
                Some(b) => b,
                None => false,
            };
            Ok(LdapControl::SyncRequest { criticality, mode, cookie, reload_hint })
        } else if same_text(oid, SYNC_STATE_OID) {
            let v = need(get_integer(tag_at(inner, 0), ENUMERATED))?;
            let id = need(get_octets(tag_at(inner, 1)))?;
            let state = SyncStateValue::try_from(v)?;
            let entry_uuid = need(SyncUuid::from_slice(id.as_slice()))?;
            let cookie = get_octets(tag_at(inner, 2));
            Ok(LdapControl::SyncState { state, entry_uuid, cookie })
        } else if same_text(oid, SYNC_DONE_OID) {
            let cookie = get_cookie(inner, 0);
            let refresh_deletes = match get_flag(inner, 0) {
                Some(b) => b,
                None => false,
            };
            Ok(LdapControl::SyncDone { cookie, refresh_deletes })
        } else if same_text(oid, AD_DIRSYNC_OID) {
            let flags = need(get_integer(tag_at(inner, 0), INTEGER))?;
            let max_bytes = need(get_integer(tag_at(inner, 1), INTEGER))?;
            let cookie = get_octets(tag_at(inner, 2));
            Ok(LdapControl::AdDirsync { flags, max_bytes, cookie })
        } else {
            Err(())
        }
    }

    /// Reads a control.
    pub fn try_from(t: &BerTag) -> (r: Result<LdapControl, ()>)
        ensures
            decoded(r) == LdapControl::spec_try_from(t.deep_view()),
    {
        if t.id != SEQUENCE {
            return Err(());
        }
        let seq = need(t.expect_constructed())?;
        let n = seq.len();
        if n < 1 || n > 3 {
            return Err(());
        }
        let oid = need(get_text(tag_at(seq, 0)))?;
        let criticality_tag = if n == 3 {
            tag_at(seq, 1)
        } else {
            None
        };
        let value_tag = if n == 3 {
            tag_at(seq, 2)
        } else if n == 2 {
            tag_at(seq, 1)
        } else {
            None
        };
        let value = need(get_octets(value_tag))?;
        let criticality = match get_bool(criticality_tag) {
            Some(b) => b,
            None => false,
        };
        let step = parse(value.as_slice());
        LdapControl::from_body(oid.as_str(), criticality, &step)
    }

    /// Appends the tag of a cookie, if there is a cookie.
    fn push_cookie(out: &mut Vec<BerTag>, cookie: &Option<Vec<u8>>)
        ensures
            final(out).deep_view() == old(out).deep_view() + LdapControl::spec_cookie(
                cookie.deep_view(),
            ),
    {
        let ghost before = out.deep_view();
        match cookie {
            Some(c) => {
                out.push(octets_tag(c));
                proof {
                    assert(out.deep_view() =~= before + LdapControl::spec_cookie(
                        cookie.deep_view(),
                    ));
                }
            },
            None => {
                proof {
                    assert(out.deep_view() =~= before + LdapControl::spec_cookie(
                        cookie.deep_view(),
                    ));
                }
            },
        }
    }

    /// Appends the tag of a flag, if the flag is set.
    fn push_flag(out: &mut Vec<BerTag>, flag: bool)
        ensures
            final(out).deep_view() == old(out).deep_view() + LdapControl::spec_flag(flag),
    {
        let ghost before = out.deep_view();
        if flag {
            out.push(bool_tag(true));
        }
        proof {
            assert(out.deep_view() =~= before + LdapControl::spec_flag(flag));
        }
    }

    /// The structure of a control. Read as the parsed value of a control with
    /// this control's OID and criticality, it gives the control back, where the
    /// control is canonical.
    pub fn body(&self) -> (r: BerTag)
        ensures
            r.deep_view() == LdapControl::spec_body(self.deep_view()),
            forall|a: crate::wire::Advance|
                self.deep_view().canonical() ==> #[trigger] LdapControl::spec_from_body(
                    LdapControl::spec_oid(self.deep_view()),
                    LdapControl::spec_criticality(self.deep_view()),
                    StepModel::Done(a, r.deep_view()),
                ) == Some(
                    self.deep_view(),
                ),
    {
        let mut out: Vec<BerTag> = Vec::new();
        match self {
            LdapControl::SyncRequest { mode, cookie, reload_hint, .. } => {
                out.push(number_tag(ENUMERATED, mode.code()));
                LdapControl::push_cookie(&mut out, cookie);
                LdapControl::push_flag(&mut out, *reload_hint);
            },
            LdapControl::SyncState { state, entry_uuid, cookie } => {
                out.push(number_tag(ENUMERATED, state.code()));
                out.push(BerTag::octet_string(entry_uuid.as_bytes()));
                LdapControl::push_cookie(&mut out, cookie);
            },
            LdapControl::SyncDone { cookie, refresh_deletes } => {
                LdapControl::push_cookie(&mut out, cookie);
                LdapControl::push_flag(&mut out, *refresh_deletes);
            },
            LdapControl::AdDirsync { flags, max_bytes, cookie } => {
                out.push(number_tag(INTEGER, *flags));
                out.push(number_tag(INTEGER, *max_bytes));
                match cookie {
                    Some(c) => {
                        out.push(octets_tag(c));
                    },
                    None => {
                        out.push(BerTag::octet_string(Vec::new()));
                    },
                }
            },
        }
        proof {
            let m = self.deep_view();
            assert(out.deep_view() =~= LdapControl::spec_body(m).payload->Constructed_0);
            assert forall|a: crate::wire::Advance|
                m.canonical() implies #[trigger] LdapControl::spec_from_body(
                LdapControl::spec_oid(m),
                LdapControl::spec_criticality(m),
                StepModel::Done(a, LdapControl::spec_body(m)),
            ) == Some(m) by {
                LdapControl::lemma_body_round_trip(m, a);
            }
        }
        BerTag::sequence(out)
    }

    /// Every control but a DirSync control is canonical: its UUID, if it has
    /// one, has sixteen octets.
    pub proof fn lemma_canonical(c: LdapControl)
        ensures
            c.deep_view() !is AdDirsync ==> c.deep_view().canonical(),
    {
        broadcast use vstd::array::group_array_axioms;

    }

    /// The structure of a canonical control, read as the parsed value of a
    /// control with its OID and criticality, gives the control back.
    pub proof fn lemma_body_round_trip(m: LdapControlModel, a: crate::wire::Advance)
        requires
            m.canonical(),
        ensures
            LdapControl::spec_from_body(
                LdapControl::spec_oid(m),
                LdapControl::spec_criticality(m),
                StepModel::Done(a, LdapControl::spec_body(m)),
            ) == Some(m),
    {
        lemma_oids_differ();
        crate::prim::lemma_bool_round_trip(true);
        reveal_with_fuel(first_with, 4);
        let inner = LdapControl::spec_body(m).payload->Constructed_0;
        match m {
            LdapControlModel::SyncRequest { mode, cookie, reload_hint, .. } => {
                mode.lemma_code_round_trip();
                crate::wire::lemma_integer_reads_back(mode.spec_code());
                assert(inner[0] == integer_tag_model(ENUMERATED, mode.spec_code()));
                if cookie is Some {
                    assert(inner[1] == octets_tag_model(cookie->0));
                    if reload_hint {
                        assert(inner[2] == bool_tag_model(true));
                        assert(inner.len() == 3);
                    } else {
                        assert(inner.len() == 2);
                    }
                } else if reload_hint {
                    assert(inner[1] == bool_tag_model(true));
                    assert(inner.len() == 2);
                } else {
                    assert(inner.len() == 1);
                }
            },
            LdapControlModel::SyncState { state, entry_uuid, cookie } => {
                state.lemma_code_round_trip();
                crate::wire::lemma_integer_reads_back(state.spec_code());
                assert(inner[0] == integer_tag_model(ENUMERATED, state.spec_code()));
                assert(inner[1] == octets_tag_model(entry_uuid));
                if cookie is Some {
                    assert(inner[2] == octets_tag_model(cookie->0));
                } else {
                    assert(inner.len() == 2);
                }
            },
            LdapControlModel::SyncDone { cookie, refresh_deletes } => {
                if cookie is Some {
                    assert(inner[0] == octets_tag_model(cookie->0));
                    if refresh_deletes {
                        assert(inner[1] == bool_tag_model(true));
                        assert(inner.len() == 2);
                    } else {
                        assert(inner.len() == 1);
                    }
                } else if refresh_deletes {
                    assert(inner[0] == bool_tag_model(true));
                    assert(inner.len() == 1);
                } else {
                    assert(inner.len() == 0);
                }
            },
            LdapControlModel::AdDirsync { flags, max_bytes, cookie } => {
                crate::wire::lemma_integer_reads_back(flags);
                crate::wire::lemma_integer_reads_back(max_bytes);
                assert(inner[0] == integer_tag_model(INTEGER, flags));
                assert(inner[1] == integer_tag_model(INTEGER, max_bytes));
                assert(inner[2] == octets_tag_model(cookie->0));
            },
        }
    }

    /// Reading the tag of a control gives the control back, where the control
    /// is canonical and the octets of its structure parse as that structure.
    pub proof fn lemma_round_trip(m: LdapControlModel)
        ensures
            m.canonical() && reads_back(LdapControl::spec_body(m)) ==> LdapControl::spec_try_from(
                LdapControl::spec_to_tag(m),
            ) == Some(m),
    {
        if m.canonical() && reads_back(LdapControl::spec_body(m)) {
            let body = LdapControl::spec_body(m);
            let seq = LdapControl::spec_to_tag(m).payload->Constructed_0;
            let step = ber_parse(ber_encoding(body));
            crate::prim::lemma_text_round_trip(LdapControl::spec_oid(m));
            crate::prim::lemma_bool_round_trip(true);
            LdapControl::lemma_body_round_trip(m, step->Done_0);
            assert(seq[0] == text_tag_model(LdapControl::spec_oid(m)));
            if LdapControl::spec_criticality(m) {
                assert(seq.len() == 3);
                assert(seq[1] == bool_tag_model(true));
                assert(seq[2] == octets_tag_model(ber_encoding(body)));
            } else {
                assert(seq.len() == 2);
                assert(seq[1] == octets_tag_model(ber_encoding(body)));
            }
        }
    }

    /// The tag of a control. Reading it gives the control back, where the
    /// control is canonical and the octets of its structure parse as that structure.
    pub fn to_tag(&self) -> (r: BerTag)
        ensures
            r.deep_view() == LdapControl::spec_to_tag(self.deep_view()),
            self.deep_view().canonical() && reads_back(LdapControl::spec_body(self.deep_view()))
                ==> LdapControl::spec_try_from(r.deep_view()) == Some(self.deep_view()),
    {
        let body = self.body();
        let (oid, criticality) = match self {
            LdapControl::SyncRequest { criticality, .. } => (SYNC_REQUEST_OID, *criticality),
            LdapControl::SyncState { .. } => (SYNC_STATE_OID, false),
            LdapControl::SyncDone { .. } => (SYNC_DONE_OID, false),
            LdapControl::AdDirsync { .. } => (AD_DIRSYNC_OID, true),
        };
        let mut out: Vec<BerTag> = Vec::new();
        out.push(text_tag(oid));
        let ghost first = out.deep_view();
        proof {
            assert(first =~= seq![text_tag_model(oid@)]);
        }
        LdapControl::push_flag(&mut out, criticality);
        let ghost second = out.deep_view();
        let value = octets_tag(&encode(&body));
        out.push(value);
        proof {
            let m = self.deep_view();
            let want = LdapControl::spec_to_tag(m).payload->Constructed_0;
            assert(oid@ == LdapControl::spec_oid(m));
            assert(criticality == LdapControl::spec_criticality(m));
            assert(out.deep_view() =~= second.push(tag_model(value)));
            assert(out.deep_view() =~= want);
            LdapControl::lemma_round_trip(m);
        }
        BerTag::sequence(out)
    }
}

} // verus!
