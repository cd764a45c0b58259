//! Search requests.

use crate::ber::{at, tag_at, BerClass, BerTag, TagModel, ENUMERATED, INTEGER, SEQUENCE};
use crate::codes::need;
use crate::extended::{optional_octets};
use crate::field::{
    bool_field, bool_tag, bool_tag_model, constructed_field, get_bool, get_constructed,
    get_integer, get_text, get_texts, integer_field, integer_tag_model, number_tag, text_field,
    text_tag, text_tag_model, text_tags, texts_of,
};
use crate::proto::{
    decoded, LdapDerefAliases, LdapFilter, LdapSearchRequest, LdapSearchRequestModel,
    LdapSearchScope,
};
use crate::prim::{integer_of, integer_value};
use vstd::prelude::*;

verus! {

broadcast use crate::prim::lemma_octets_deep_view;

impl LdapSearchRequestModel {
    /// Whether reading the tags of this request gives all of it back: its
    /// limits are not negative.
    pub open spec fn canonical(self) -> bool {
        self.sizelimit >= 0 && self.timelimit >= 0
    }
}

impl LdapSearchRequest {
    /// The number of the scope in a tag. A strict reader wants a universal
    /// ENUMERATED; a lenient one takes the number of any primitive tag.
    pub open spec fn spec_scope_number(t: Option<TagModel>, strict: bool) -> Option<i64> {
        if strict {
            integer_field(t, ENUMERATED)
        } else {
            match optional_octets(t) {
                Some(b) => integer_value(b),
                None => None,
            }
        }
    }

    /// The attribute names in a tag: a universal SEQUENCE of OCTET STRINGs with
    /// text. Where the tag is missing or is no such sequence, a strict reader has
    /// nothing and a lenient one has the empty list.
    pub open spec fn spec_attrs(t: Option<TagModel>, strict: bool) -> Option<Seq<Seq<char>>> {
        let listed = match constructed_field(t, BerClass::Universal, SEQUENCE) {
            Some(list) => texts_of(list),
            None => None,
        };
        if strict || listed is Some {
            listed
        } else {
            Some(Seq::empty())
        }
    }

    /// The search request that a sequence of tags holds: base DN, scope, alias
    /// policy, size limit, time limit, types-only flag, filter, attribute names.
    /// The limits are cut to 32 bits.
    pub open spec fn spec_try_from(tags: Seq<TagModel>, strict: bool) -> Option<
        LdapSearchRequestModel,
    > {
        match (
            text_field(at(tags, 0)),
            LdapSearchRequest::spec_scope_number(at(tags, 1), strict),
            integer_field(at(tags, 2), ENUMERATED),
            integer_field(at(tags, 3), INTEGER),
            integer_field(at(tags, 4), INTEGER),
            bool_field(at(tags, 5)),
            at(tags, 6),
            LdapSearchRequest::spec_attrs(at(tags, 7), strict),
        ) {
            (
                Some(base),
                Some(scope),
                Some(aliases),
                Some(sizelimit),
                Some(timelimit),
                Some(typesonly),
                Some(filter),
                Some(attrs),
            ) => match (
                LdapSearchScope::spec_try_from(scope),
                LdapDerefAliases::spec_try_from(aliases),
                LdapFilter::spec_try_from(filter),
            ) {
                (Some(scope), Some(aliases), Some(filter)) => Some(
                    LdapSearchRequestModel {
                        base,
                        scope,
                        aliases,
                        sizelimit: sizelimit as i32,
                        timelimit: timelimit as i32,
                        typesonly,
                        filter,
                        attrs,
                    },
                ),
                _ => None,
            },
            _ => None,
        }
    }

    /// The tags of a search request.
    pub open spec fn spec_to_tags(m: LdapSearchRequestModel) -> Seq<TagModel> {
        seq![
            text_tag_model(m.base),
            integer_tag_model(ENUMERATED, m.scope.spec_code()),
            integer_tag_model(ENUMERATED, m.aliases.spec_code()),
            integer_tag_model(INTEGER, m.sizelimit as i64),
            integer_tag_model(INTEGER, m.timelimit as i64),
            bool_tag_model(m.typesonly),
            LdapFilter::spec_to_tag(m.filter),
            TagModel::new_constructed(
                BerClass::Universal,
                SEQUENCE,
                m.attrs.map_values(|s: Seq<char>| text_tag_model(s)),
            ),
        ]
    }

    /// Reads the number of the scope.
    fn scope_number(t: Option<&BerTag>, strict: bool) -> (r: Option<i64>)
        ensures
            r == LdapSearchRequest::spec_scope_number(t.deep_view(), strict),
    {
        if strict {
            get_integer(t, ENUMERATED)
        } else {
            match t {
                Some(t) => match t.expect_primitive() {
                    Some(b) => integer_of(b.as_slice()),
                    None => None,
                },
                None => None,
            }
        }
    }

    /// Reads the attribute names.
    fn attrs_from(t: Option<&BerTag>, strict: bool) -> (r: Option<Vec<String>>)
        ensures
            r.deep_view() == LdapSearchRequest::spec_attrs(t.deep_view(), strict),
    {
        let listed = match get_constructed(t, BerClass::Universal, SEQUENCE) {
            Some(list) => get_texts(list),
            None => None,
        };
        if strict || listed.is_some() {
            listed
        } else {
            let none: Vec<String> = Vec::new();
            proof {
                assert(none.deep_view() =~= Seq::<Seq<char>>::empty());
            }
            Some(none)
        }
    }

    /// Reads a search request, strictly or leniently.
    pub fn try_from(tags: &Vec<BerTag>, strict: bool) -> (r: Result<LdapSearchRequest, ()>)
        ensures
            decoded(r) == LdapSearchRequest::spec_try_from(tags.deep_view(), strict),
    {
        let base = need(get_text(tag_at(tags, 0)))?;
        let scope = need(LdapSearchRequest::scope_number(tag_at(tags, 1), strict))?;
        let aliases = need(get_integer(tag_at(tags, 2), ENUMERATED))?;
        let sizelimit = need(get_integer(tag_at(tags, 3), INTEGER))?;
        let timelimit = need(get_integer(tag_at(tags, 4), INTEGER))?;
        let typesonly = need(get_bool(tag_at(tags, 5)))?;
        let filter_tag = need(tag_at(tags, 6))?;
        let attrs = need(LdapSearchRequest::attrs_from(tag_at(tags, 7), strict))?;
        let scope = LdapSearchScope::try_from(scope)?;
        let aliases = LdapDerefAliases::try_from(aliases)?;
        let filter = LdapFilter::try_from(filter_tag)?;
        Ok(
            LdapSearchRequest {
                base,
                scope,
                aliases,
                sizelimit: #[verifier::truncate]
                (sizelimit as i32),
                timelimit: #[verifier::truncate]
                (timelimit as i32),
                typesonly,
                filter,
                attrs,
            },
        )
    }

    /// The tags of a search request. Reading them, strictly or leniently, gives
    /// the request back where its limits are not negative.
    pub fn to_tags(&self) -> (r: Vec<BerTag>)
        ensures
            r.deep_view() == LdapSearchRequest::spec_to_tags(self.deep_view()),
            forall|strict: bool|
                self.deep_view().canonical() ==> #[trigger] LdapSearchRequest::spec_try_from(
                    r.deep_view(),
                    strict,
                ) == Some(self.deep_view()),
    {
        let mut out: Vec<BerTag> = Vec::new();
        out.push(text_tag(self.base.as_str()));
        out.push(number_tag(ENUMERATED, self.scope.code()));
        out.push(number_tag(ENUMERATED, self.aliases.code()));
        out.push(number_tag(INTEGER, self.sizelimit as i64));
        out.push(number_tag(INTEGER, self.timelimit as i64));
        out.push(bool_tag(self.typesonly));
        out.push(self.filter.to_tag());
        out.push(BerTag::sequence(text_tags(&self.attrs)));
        proof {
            let m = self.deep_view();
            assert(out.deep_view() =~= LdapSearchRequest::spec_to_tags(m));
            assert forall|strict: bool|
                m.canonical() implies #[trigger] LdapSearchRequest::spec_try_from(
                LdapSearchRequest::spec_to_tags(m),
                strict,
            ) == Some(m) by {
                LdapSearchRequest::lemma_round_trip(m, strict);
            }
        }
        out
    }

    /// Reading the tags of a canonical search request, strictly or leniently,
    /// gives the request back.
    pub proof fn lemma_round_trip(m: LdapSearchRequestModel, strict: bool)
        requires
            m.canonical(),
        ensures
            LdapSearchRequest::spec_try_from(LdapSearchRequest::spec_to_tags(m), strict) == Some(m),
    {
        m.scope.lemma_code_round_trip();
        m.aliases.lemma_code_round_trip();
        crate::wire::lemma_integer_reads_back(m.scope.spec_code());
        crate::wire::lemma_integer_reads_back(m.aliases.spec_code());
        crate::wire::lemma_integer_reads_back(m.sizelimit as i64);
        crate::wire::lemma_integer_reads_back(m.timelimit as i64);
        crate::prim::lemma_text_round_trip(m.base);
        crate::field::lemma_texts_round_trip(m.attrs);
        crate::prim::lemma_bool_round_trip(m.typesonly);
        LdapFilter::lemma_round_trip(m.filter);
    }
}

} // verus!
