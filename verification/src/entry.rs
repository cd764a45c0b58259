//! Attributes, and the operations that carry them: search result entries, add
//! requests and modify requests.

use crate::ber::{at, tag_at, tag_model, BerClass, BerTag, TagModel, ENUMERATED, SEQUENCE, SET};
use crate::codes::need;
use crate::field::{
    constructed_field, get_constructed, get_integer, get_octets_list, get_text, integer_field,
    integer_tag_model, lemma_map_all_none, lemma_map_all_some, map_all, number_tag, octets_of,
    octets_tag_model, octets_tags, text_field, text_tag, text_tag_model,
};
use crate::proto::{
    decoded, LdapAddRequest, LdapAddRequestModel, LdapModify, LdapModifyModel, LdapModifyRequest,
    LdapModifyRequestModel, LdapModifyType, LdapPartialAttribute, LdapPartialAttributeModel,
    LdapSearchResultEntry, LdapSearchResultEntryModel,
};

use vstd::prelude::*;

verus! {

broadcast use crate::prim::lemma_octets_deep_view;

impl LdapPartialAttribute {
    /// The attribute that a tag holds: a SEQUENCE of the type, an OCTET STRING
    /// with text, and the values, a SET of OCTET STRINGs.
    pub open spec fn spec_try_from(t: TagModel) -> Option<LdapPartialAttributeModel> {
        match t.constructed_of(BerClass::Universal, SEQUENCE) {
            Some(inner) => match (
                text_field(at(inner, 0)),
                constructed_field(at(inner, 1), BerClass::Universal, SET),
            ) {
                (Some(atype), Some(set)) => match octets_of(set) {
                    Some(vals) => Some(LdapPartialAttributeModel { atype, vals }),
                    None => None,
                },
                _ => None,
            },
            None => None,
        }
    }

    /// The tag of an attribute.
    pub open spec fn spec_to_tag(m: LdapPartialAttributeModel) -> TagModel {
        TagModel::new_constructed(
            BerClass::Universal,
            SEQUENCE,
            seq![
                text_tag_model(m.atype),
                TagModel::new_constructed(
                    BerClass::Universal,
                    SET,
                    m.vals.map_values(|s: Seq<u8>| octets_tag_model(s)),
                ),
            ],
        )
    }

    /// The attributes that a list of tags holds, nothing if one of them holds none.
    pub open spec fn spec_list_from(tags: Seq<TagModel>) -> Option<Seq<LdapPartialAttributeModel>> {
        map_all(tags, |t: TagModel| LdapPartialAttribute::spec_try_from(t))
    }

    /// The tags of a list of attributes.
    pub open spec fn spec_list_to(list: Seq<LdapPartialAttributeModel>) -> Seq<TagModel> {
        list.map_values(|m: LdapPartialAttributeModel| LdapPartialAttribute::spec_to_tag(m))
    }

    /// Reads an attribute.
    pub fn try_from(t: &BerTag) -> (r: Result<LdapPartialAttribute, ()>)
        ensures
            decoded(r) == LdapPartialAttribute::spec_try_from(t.deep_view()),
    {
        let inner = need(t.constructed_of(BerClass::Universal, SEQUENCE))?;
        let atype = need(get_text(tag_at(inner, 0)))?;
        let set = need(get_constructed(tag_at(inner, 1), BerClass::Universal, SET))?;
        let vals = need(get_octets_list(set))?;
        Ok(LdapPartialAttribute { atype, vals })
    }

    /// The tag of an attribute. Reading it gives the attribute back.
    pub fn to_tag(&self) -> (r: BerTag)
        ensures
            r.deep_view() == LdapPartialAttribute::spec_to_tag(self.deep_view()),
            LdapPartialAttribute::spec_try_from(r.deep_view()) == Some(self.deep_view()),
    {
        let mut inner: Vec<BerTag> = Vec::new();
        inner.push(text_tag(self.atype.as_str()));
        inner.push(BerTag::set(octets_tags(&self.vals)));
        proof {
            assert(inner.deep_view() =~= LdapPartialAttribute::spec_to_tag(
                self.deep_view(),
            ).payload->Constructed_0);
            LdapPartialAttribute::lemma_round_trip(self.deep_view());
        }
        BerTag::sequence(inner)
    }

    /// Reads a list of attributes; an error if one of the tags holds none.
    pub fn list_from(tags: &Vec<BerTag>) -> (r: Result<Vec<LdapPartialAttribute>, ()>)
        ensures
            decoded(r) == LdapPartialAttribute::spec_list_from(tags.deep_view()),
    {
        let ghost f = |t: TagModel| LdapPartialAttribute::spec_try_from(t);
        let mut out: Vec<LdapPartialAttribute> = Vec::new();
        let mut i: usize = 0;
        while i < tags.len()
            invariant
                i <= tags.len(),
                out.len() == i,
                f == |t: TagModel| LdapPartialAttribute::spec_try_from(t),
                forall|j: int|
                    0 <= j < i ==> f(tag_model(tags@[j])) == Some((#[trigger] out@[j]).deep_view()),
            decreases tags.len() - i,
        {
            match LdapPartialAttribute::try_from(&tags[i]) {
                Ok(a) => out.push(a),
                Err(_) => {
                    proof {
                        lemma_map_all_none(tags.deep_view(), f, i as int);
                    }
                    return Err(());
                },
            }
            i += 1;
        }
        proof {
            lemma_map_all_some(tags.deep_view(), f, out.deep_view());
        }
        Ok(out)
    }

    /// The tags of a list of attributes. Reading them gives the list back.
    pub fn list_to(list: &Vec<LdapPartialAttribute>) -> (r: Vec<BerTag>)
        ensures
            r.deep_view() == LdapPartialAttribute::spec_list_to(list.deep_view()),
            LdapPartialAttribute::spec_list_from(r.deep_view()) == Some(list.deep_view()),
    {
        let mut out: Vec<BerTag> = Vec::new();
        let mut i: usize = 0;
        while i < list.len()
            invariant
                i <= list.len(),
                out.len() == i,
                forall|j: int|
                    0 <= j < i ==> tag_model(#[trigger] out@[j])
                        == LdapPartialAttribute::spec_to_tag(list@[j].deep_view()),
            decreases list.len() - i,
        {
            out.push(list[i].to_tag());
            i += 1;
        }
        proof {
            assert(out.deep_view() =~= LdapPartialAttribute::spec_list_to(list.deep_view()));
            LdapPartialAttribute::lemma_list_round_trip(list.deep_view());
        }
        out
    }

    /// Reading the tag of an attribute gives the attribute back.
    pub proof fn lemma_round_trip(m: LdapPartialAttributeModel)
        ensures
            LdapPartialAttribute::spec_try_from(LdapPartialAttribute::spec_to_tag(m)) == Some(m),
    {
        crate::prim::lemma_text_round_trip(m.atype);
        crate::field::lemma_octets_round_trip(m.vals);
    }

    /// Reading the tags of a list of attributes gives the list back.
    pub proof fn lemma_list_round_trip(list: Seq<LdapPartialAttributeModel>)
        ensures
            LdapPartialAttribute::spec_list_from(LdapPartialAttribute::spec_list_to(list)) == Some(
                list,
            ),
    {
        let f = |t: TagModel| LdapPartialAttribute::spec_try_from(t);
        let tags = LdapPartialAttribute::spec_list_to(list);
        assert forall|i: int| 0 <= i < tags.len() implies f(#[trigger] tags[i]) == Some(
            list[i],
        ) by {
            LdapPartialAttribute::lemma_round_trip(list[i]);
        }
        lemma_map_all_some(tags, f, list);
    }
}

impl LdapSearchResultEntry {
    /// The entry that a sequence of tags holds: the DN, then a SEQUENCE of attributes.
    pub open spec fn spec_try_from(tags: Seq<TagModel>) -> Option<LdapSearchResultEntryModel> {
        match (
            text_field(at(tags, 0)),
            constructed_field(at(tags, 1), BerClass::Universal, SEQUENCE),
        ) {
            (Some(dn), Some(list)) => match LdapPartialAttribute::spec_list_from(list) {
                Some(attributes) => Some(LdapSearchResultEntryModel { dn, attributes }),
                None => None,
            },
            _ => None,
        }
    }

    /// The tags of an entry.
    pub open spec fn spec_to_tags(m: LdapSearchResultEntryModel) -> Seq<TagModel> {
        seq![
            text_tag_model(m.dn),
            TagModel::new_constructed(
                BerClass::Universal,
                SEQUENCE,
                LdapPartialAttribute::spec_list_to(m.attributes),
            ),
        ]
    }

    /// Reads a search result entry.
    pub fn try_from(tags: &Vec<BerTag>) -> (r: Result<LdapSearchResultEntry, ()>)
        ensures
            decoded(r) == LdapSearchResultEntry::spec_try_from(tags.deep_view()),
    {
        let dn = need(get_text(tag_at(tags, 0)))?;
        let list = need(get_constructed(tag_at(tags, 1), BerClass::Universal, SEQUENCE))?;
        let attributes = LdapPartialAttribute::list_from(list)?;
        Ok(LdapSearchResultEntry { dn, attributes })
    }

    /// The tags of a search result entry. Reading them gives the entry back.
    pub fn to_tags(&self) -> (r: Vec<BerTag>)
        ensures
            r.deep_view() == LdapSearchResultEntry::spec_to_tags(self.deep_view()),
            LdapSearchResultEntry::spec_try_from(r.deep_view()) == Some(self.deep_view()),
    {
        let mut out: Vec<BerTag> = Vec::new();
        out.push(text_tag(self.dn.as_str()));
        out.push(BerTag::sequence(LdapPartialAttribute::list_to(&self.attributes)));
        proof {
            assert(out.deep_view() =~= LdapSearchResultEntry::spec_to_tags(self.deep_view()));
            LdapSearchResultEntry::lemma_round_trip(self.deep_view());
        }
        out
    }

    /// Reading the tags of an entry gives the entry back.
    pub proof fn lemma_round_trip(m: LdapSearchResultEntryModel)
        ensures
            LdapSearchResultEntry::spec_try_from(LdapSearchResultEntry::spec_to_tags(m)) == Some(m),
    {
        crate::prim::lemma_text_round_trip(m.dn);
        LdapPartialAttribute::lemma_list_round_trip(m.attributes);
    }
}

impl LdapAddRequest {
    /// The add request that a sequence of tags holds: the DN, then a SEQUENCE of attributes.
    pub open spec fn spec_try_from(tags: Seq<TagModel>) -> Option<LdapAddRequestModel> {
        match (
            text_field(at(tags, 0)),
            constructed_field(at(tags, 1), BerClass::Universal, SEQUENCE),
        ) {
            (Some(dn), Some(list)) => match LdapPartialAttribute::spec_list_from(list) {
                Some(attributes) => Some(LdapAddRequestModel { dn, attributes }),
                None => None,
            },
            _ => None,
        }
    }

    /// The tags of an add request.
    pub open spec fn spec_to_tags(m: LdapAddRequestModel) -> Seq<TagModel> {
        seq![
            text_tag_model(m.dn),
            TagModel::new_constructed(
                BerClass::Universal,
                SEQUENCE,
                LdapPartialAttribute::spec_list_to(m.attributes),
            ),
        ]
    }

    /// Reads an add request.
    pub fn try_from(tags: &Vec<BerTag>) -> (r: Result<LdapAddRequest, ()>)
        ensures
            decoded(r) == LdapAddRequest::spec_try_from(tags.deep_view()),
    {
        let dn = need(get_text(tag_at(tags, 0)))?;
        let list = need(get_constructed(tag_at(tags, 1), BerClass::Universal, SEQUENCE))?;
        let attributes = LdapPartialAttribute::list_from(list)?;
        Ok(LdapAddRequest { dn, attributes })
    }

    /// The tags of an add request. Reading them gives the request back.
    pub fn to_tags(&self) -> (r: Vec<BerTag>)
        ensures
            r.deep_view() == LdapAddRequest::spec_to_tags(self.deep_view()),
            LdapAddRequest::spec_try_from(r.deep_view()) == Some(self.deep_view()),
    {
        let mut out: Vec<BerTag> = Vec::new();
        out.push(text_tag(self.dn.as_str()));
        out.push(BerTag::sequence(LdapPartialAttribute::list_to(&self.attributes)));
        proof {
            assert(out.deep_view() =~= LdapAddRequest::spec_to_tags(self.deep_view()));
            LdapAddRequest::lemma_round_trip(self.deep_view());
        }
        out
    }

    /// Reading the tags of an add request gives the request back.
    pub proof fn lemma_round_trip(m: LdapAddRequestModel)
        ensures
            LdapAddRequest::spec_try_from(LdapAddRequest::spec_to_tags(m)) == Some(m),
    {
        crate::prim::lemma_text_round_trip(m.dn);
        LdapPartialAttribute::lemma_list_round_trip(m.attributes);
    }
}

impl LdapModify {
    /// The change that a tag holds: a SEQUENCE of an ENUMERATED kind and an attribute.
    pub open spec fn spec_try_from(t: TagModel) -> Option<LdapModifyModel> {
        match t.constructed_of(BerClass::Universal, SEQUENCE) {
            Some(inner) => match (integer_field(at(inner, 0), ENUMERATED), at(inner, 1)) {
                (Some(v), Some(a)) => match (
                    LdapModifyType::spec_try_from(v),
                    LdapPartialAttribute::spec_try_from(a),
                ) {
                    (Some(operation), Some(modification)) => Some(
                        LdapModifyModel { operation, modification },
                    ),
                    _ => None,
                },
                _ => None,
            },
            None => None,
        }
    }

    /// The tag of a change.
    pub open spec fn spec_to_tag(m: LdapModifyModel) -> TagModel {
        TagModel::new_constructed(
            BerClass::Universal,
            SEQUENCE,
            seq![
                integer_tag_model(ENUMERATED, m.operation.spec_code()),
                LdapPartialAttribute::spec_to_tag(m.modification),
            ],
        )
    }

    /// The changes that a list of tags holds, nothing if one of them holds none.
    pub open spec fn spec_list_from(tags: Seq<TagModel>) -> Option<Seq<LdapModifyModel>> {
        map_all(tags, |t: TagModel| LdapModify::spec_try_from(t))
    }

    /// The tags of a list of changes.
    pub open spec fn spec_list_to(list: Seq<LdapModifyModel>) -> Seq<TagModel> {
        list.map_values(|m: LdapModifyModel| LdapModify::spec_to_tag(m))
    }

    /// Reads a change.
    pub fn try_from(t: &BerTag) -> (r: Result<LdapModify, ()>)
        ensures
            decoded(r) == LdapModify::spec_try_from(t.deep_view()),
    {
        let inner = need(t.constructed_of(BerClass::Universal, SEQUENCE))?;
        let v = need(get_integer(tag_at(inner, 0), ENUMERATED))?;
        let a = need(tag_at(inner, 1))?;
        let operation = LdapModifyType::try_from(v)?;
        let modification = LdapPartialAttribute::try_from(a)?;
        Ok(LdapModify { operation, modification })
    }

    /// The tag of a change. Reading it gives the change back.
    pub fn to_tag(&self) -> (r: BerTag)
        ensures
            r.deep_view() == LdapModify::spec_to_tag(self.deep_view()),
            LdapModify::spec_try_from(r.deep_view()) == Some(self.deep_view()),
    {
        proof {
            LdapModify::lemma_round_trip(self.deep_view());
        }
        let mut inner: Vec<BerTag> = Vec::new();
        inner.push(number_tag(ENUMERATED, self.operation.code()));
        inner.push(self.modification.to_tag());
        proof {
            assert(inner.deep_view() =~= LdapModify::spec_to_tag(
                self.deep_view(),
            ).payload->Constructed_0);
        }
        BerTag::sequence(inner)
    }

    /// Reading the tag of a change gives the change back.
    pub proof fn lemma_round_trip(m: LdapModifyModel)
        ensures
            LdapModify::spec_try_from(LdapModify::spec_to_tag(m)) == Some(m),
    {
        m.operation.lemma_code_round_trip();
        crate::wire::lemma_integer_reads_back(m.operation.spec_code());
        LdapPartialAttribute::lemma_round_trip(m.modification);
    }

    /// Reading the tags of a list of changes gives the list back.
    pub proof fn lemma_list_round_trip(list: Seq<LdapModifyModel>)
        ensures
            LdapModify::spec_list_from(LdapModify::spec_list_to(list)) == Some(list),
    {
        let f = |t: TagModel| LdapModify::spec_try_from(t);
        let tags = LdapModify::spec_list_to(list);
        assert forall|i: int| 0 <= i < tags.len() implies f(#[trigger] tags[i]) == Some(
            list[i],
        ) by {
            LdapModify::lemma_round_trip(list[i]);
        }
        lemma_map_all_some(tags, f, list);
    }

    /// Reads a list of changes; an error if one of the tags holds none.
    pub fn list_from(tags: &Vec<BerTag>) -> (r: Result<Vec<LdapModify>, ()>)
        ensures
            decoded(r) == LdapModify::spec_list_from(tags.deep_view()),
    {
        let ghost f = |t: TagModel| LdapModify::spec_try_from(t);
        let mut out: Vec<LdapModify> = Vec::new();
        let mut i: usize = 0;
        while i < tags.len()
            invariant
                i <= tags.len(),
                out.len() == i,
                f == |t: TagModel| LdapModify::spec_try_from(t),
                forall|j: int|
                    0 <= j < i ==> f(tag_model(tags@[j])) == Some((#[trigger] out@[j]).deep_view()),
            decreases tags.len() - i,
        {
            match LdapModify::try_from(&tags[i]) {
                Ok(a) => out.push(a),
                Err(_) => {
                    proof {
                        lemma_map_all_none(tags.deep_view(), f, i as int);
                    }
                    return Err(());
                },
            }
            i += 1;
        }
        proof {
            lemma_map_all_some(tags.deep_view(), f, out.deep_view());
        }
        Ok(out)
    }

    /// The tags of a list of changes. Reading them gives the list back.
    pub fn list_to(list: &Vec<LdapModify>) -> (r: Vec<BerTag>)
        ensures
            r.deep_view() == LdapModify::spec_list_to(list.deep_view()),
            LdapModify::spec_list_from(r.deep_view()) == Some(list.deep_view()),
    {
        let mut out: Vec<BerTag> = Vec::new();
        let mut i: usize = 0;
        while i < list.len()
            invariant
                i <= list.len(),
                out.len() == i,
                forall|j: int|
                    0 <= j < i ==> tag_model(#[trigger] out@[j]) == LdapModify::spec_to_tag(
                        list@[j].deep_view(),
                    ),
            decreases list.len() - i,
        {
            out.push(list[i].to_tag());
            i += 1;
        }
        proof {
            assert(out.deep_view() =~= LdapModify::spec_list_to(list.deep_view()));
            LdapModify::lemma_list_round_trip(list.deep_view());
        }
        out
    }
}

impl LdapModifyRequest {
    /// The modify request that a sequence of tags holds: the DN, then a SEQUENCE of changes.
    pub open spec fn spec_try_from(tags: Seq<TagModel>) -> Option<LdapModifyRequestModel> {
        match (
            text_field(at(tags, 0)),
            constructed_field(at(tags, 1), BerClass::Universal, SEQUENCE),
        ) {
            (Some(dn), Some(list)) => match LdapModify::spec_list_from(list) {
                Some(changes) => Some(LdapModifyRequestModel { dn, changes }),
                None => None,
            },
            _ => None,
        }
    }

    /// The tags of a modify request.
    pub open spec fn spec_to_tags(m: LdapModifyRequestModel) -> Seq<TagModel> {
        seq![
            text_tag_model(m.dn),
            TagModel::new_constructed(
                BerClass::Universal,
                SEQUENCE,
                LdapModify::spec_list_to(m.changes),
            ),
        ]
    }

    /// Reads a modify request.
    pub fn try_from(tags: &Vec<BerTag>) -> (r: Result<LdapModifyRequest, ()>)
        ensures
            decoded(r) == LdapModifyRequest::spec_try_from(tags.deep_view()),
    {
        let dn = need(get_text(tag_at(tags, 0)))?;
        let list = need(get_constructed(tag_at(tags, 1), BerClass::Universal, SEQUENCE))?;
        let changes = LdapModify::list_from(list)?;
        Ok(LdapModifyRequest { dn, changes })
    }

    /// The tags of a modify request. Reading them gives the request back.
    pub fn to_tags(&self) -> (r: Vec<BerTag>)
        ensures
            r.deep_view() == LdapModifyRequest::spec_to_tags(self.deep_view()),
            LdapModifyRequest::spec_try_from(r.deep_view()) == Some(self.deep_view()),
    {
        let mut out: Vec<BerTag> = Vec::new();
        out.push(text_tag(self.dn.as_str()));
        out.push(BerTag::sequence(LdapModify::list_to(&self.changes)));
        proof {
            assert(out.deep_view() =~= LdapModifyRequest::spec_to_tags(self.deep_view()));
            LdapModifyRequest::lemma_round_trip(self.deep_view());
        }
        out
    }

    /// Reading the tags of a modify request gives the request back.
    pub proof fn lemma_round_trip(m: LdapModifyRequestModel)
        ensures
            LdapModifyRequest::spec_try_from(LdapModifyRequest::spec_to_tags(m)) == Some(m),
    {
        crate::prim::lemma_text_round_trip(m.dn);
        LdapModify::lemma_list_round_trip(m.changes);
    }
}

} // verus!
