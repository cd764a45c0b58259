//! Search filters on the wire.
//!
//! A filter is a context tag whose number says its kind: 0 and 1 hold the
//! filters of a conjunction and of a disjunction, 2 wraps the negated filter, 3
//! holds attribute and value of an equality test, 4 an attribute and the parts of
//! a substring test, 7 the attribute of a presence test.

use crate::ber::{
    at, tag_at, tag_model, BerClass, BerPayload, BerTag, PayloadModel, TagModel, SEQUENCE,
};
use crate::codes::need;
use crate::field::{
    constructed_field, get_constructed, get_text, text_field, text_tag, text_tag_model,
    text_tag_of,
};
use crate::extended::{get_optional_text, optional_text};
use crate::proto::{
    decoded, filter_model, LdapFilter, LdapFilterModel, LdapSubstringFilter,
    LdapSubstringFilterModel,
};

use vstd::prelude::*;
use vstd::utf8::encode_utf8;

verus! {

broadcast use crate::prim::lemma_octets_deep_view;

/// Tag number of a conjunction.
pub const AND: u64 = 0;

/// Tag number of a disjunction.
pub const OR: u64 = 1;

/// Tag number of a negation.
pub const NOT: u64 = 2;

/// Tag number of an equality test.
pub const EQUALITY: u64 = 3;

/// Tag number of a substring test.
pub const SUBSTRING: u64 = 4;

/// Tag number of a presence test.
pub const PRESENT: u64 = 7;

/// Tag number of the part that a value must begin with.
pub const INITIAL: u64 = 0;

/// Tag number of a part that a value must contain.
pub const ANY: u64 = 1;

/// Tag number of the part that a value must end with.
pub const FINAL: u64 = 2;

impl LdapSubstringFilter {
    /// Whether the parts begin with an initial part.
    pub open spec fn has_initial(parts: Seq<TagModel>) -> bool {
        parts.len() > 0 && parts[0].id == INITIAL
    }

    /// Whether the parts end with a final part.
    pub open spec fn has_final(parts: Seq<TagModel>) -> bool {
        parts.len() > 0 && parts.last().id == FINAL
    }

    /// Where the middle parts begin.
    pub open spec fn middle_start(parts: Seq<TagModel>) -> int {
        if LdapSubstringFilter::has_initial(parts) {
            1
        } else {
            0
        }
    }

    /// Where the middle parts end.
    pub open spec fn middle_end(parts: Seq<TagModel>) -> int {
        if LdapSubstringFilter::has_final(parts) {
            parts.len() - 1
        } else {
            parts.len() as int
        }
    }

    /// The substrings that a sequence of parts holds. Every part is primitive and
    /// holds text; an initial part may stand first and a final part last, and every
    /// other part is an `any` part. The class of a part is not looked at, and a part
    /// may be empty.
    pub open spec fn spec_try_from(parts: Seq<TagModel>) -> Option<LdapSubstringFilterModel> {
        let lo = LdapSubstringFilter::middle_start(parts);
        let hi = LdapSubstringFilter::middle_end(parts);
        if (forall|i: int| 0 <= i < parts.len() ==> optional_text(Some(#[trigger] parts[i])) is Some)
            && (forall|i: int| lo <= i < hi ==> (#[trigger] parts[i]).id == ANY) {
            Some(
                LdapSubstringFilterModel {
                    initial: if LdapSubstringFilter::has_initial(parts) {
                        optional_text(Some(parts[0]))
                    } else {
                        None
                    },
                    any: Seq::new((hi - lo) as nat, |k: int| optional_text(Some(parts[lo + k]))->0),
                    final_: if LdapSubstringFilter::has_final(parts) {
                        optional_text(Some(parts.last()))
                    } else {
                        None
                    },
                },
            )
        } else {
            None
        }
    }

    /// One part: a primitive context tag with text.
    pub open spec fn part(id: u64, text: Seq<char>) -> TagModel {
        TagModel::new_primitive(BerClass::Context, id, encode_utf8(text))
    }

    /// The parts of a substring test: the initial part, the `any` parts, the final part.
    pub open spec fn spec_to_tags(m: LdapSubstringFilterModel) -> Seq<TagModel> {
        let initial = match m.initial {
            Some(s) => seq![LdapSubstringFilter::part(INITIAL, s)],
            None => seq![],
        };
        let final_ = match m.final_ {
            Some(s) => seq![LdapSubstringFilter::part(FINAL, s)],
            None => seq![],
        };
        initial + m.any.map_values(|s: Seq<char>| LdapSubstringFilter::part(ANY, s)) + final_
    }

    /// Reads the parts of a substring test.
    pub fn try_from(parts: &Vec<BerTag>) -> (r: Result<LdapSubstringFilter, ()>)
        ensures
            decoded(r) == LdapSubstringFilter::spec_try_from(parts.deep_view()),
    {
        let n = parts.len();
        let ghost m = parts.deep_view();
        let ghost lo = LdapSubstringFilter::middle_start(m);
        let ghost hi = LdapSubstringFilter::middle_end(m);
        let mut initial: Option<String> = None;
        let mut final_: Option<String> = None;
        let mut any: Vec<String> = Vec::new();
        let mut i: usize = 0;
        while i < n
            invariant
                i <= n,
                n == parts.len(),
                m == parts.deep_view(),
                lo == LdapSubstringFilter::middle_start(m),
                hi == LdapSubstringFilter::middle_end(m),
                forall|j: int| 0 <= j < i ==> optional_text(Some(#[trigger] m[j])) is Some,
                forall|j: int| lo <= j < hi && j < i ==> (#[trigger] m[j]).id == ANY,
                initial.deep_view() == if i > 0 && LdapSubstringFilter::has_initial(m) {
                    optional_text(Some(m[0]))
                } else {
                    None
                },
                final_.deep_view() == if i == n && LdapSubstringFilter::has_final(m) {
                    optional_text(Some(m.last()))
                } else {
                    None
                },
                any.len() == if i <= lo {
                    0
                } else if i <= hi {
                    i - lo
                } else {
                    hi - lo
                },
                forall|k: int|
                    0 <= k < any.len() ==> Some((#[trigger] any@[k])@) == optional_text(
                        Some(m[lo + k]),
                    ),
            decreases n - i,
        {
            let p = &parts[i];
            let text = match get_optional_text(Some(p)) {
                Some(s) => s,
                None => {
                    return Err(());
                },
            };
            if p.id == INITIAL {
                if i == 0 {
                    initial = Some(text);
                } else {
                    proof {
                        assert(m[i as int].id != ANY);
                    }
                    return Err(());
                }
            } else if p.id == ANY {
                any.push(text);
            } else if p.id == FINAL {
                if i == n - 1 {
                    final_ = Some(text);
                } else {
                    proof {
                        assert(m[i as int].id != ANY);
                    }
                    return Err(());
                }
            } else {
                proof {
                    assert(m[i as int].id != ANY);
                }
                return Err(());
            }
            i += 1;
        }
        let r = LdapSubstringFilter { initial, any, final_ };
        proof {
            let want = LdapSubstringFilter::spec_try_from(m);
            assert(want is Some);
            assert(r.any.deep_view() =~= want->0.any);
        }
        Ok(r)
    }

    /// The parts of a substring test. Reading them gives the substrings back.
    pub fn to_tags(&self) -> (r: Vec<BerTag>)
        ensures
            r.deep_view() == LdapSubstringFilter::spec_to_tags(self.deep_view()),
            LdapSubstringFilter::spec_try_from(r.deep_view()) == Some(self.deep_view()),
    {
        let mut out: Vec<BerTag> = Vec::new();
        match &self.initial {
            Some(s) => {
                out.push(text_tag_of(BerClass::Context, INITIAL, s.as_str()));
            },
            None => {},
        }
        let ghost head = out.deep_view();
        let mut i: usize = 0;
        while i < self.any.len()
            invariant
                i <= self.any.len(),
                out.len() == head.len() + i,
                forall|j: int| 0 <= j < head.len() ==> tag_model(#[trigger] out@[j]) == head[j],
                forall|j: int|
                    0 <= j < i ==> tag_model(#[trigger] out@[head.len() + j])
                        == LdapSubstringFilter::part(ANY, self.any@[j]@),
            decreases self.any.len() - i,
        {
            out.push(text_tag_of(BerClass::Context, ANY, self.any[i].as_str()));
            i += 1;
        }
        match &self.final_ {
            Some(s) => {
                out.push(text_tag_of(BerClass::Context, FINAL, s.as_str()));
            },
            None => {},
        }
        proof {
            let want = LdapSubstringFilter::spec_to_tags(self.deep_view());
            let mid = self.any.deep_view().map_values(
                |s: Seq<char>| LdapSubstringFilter::part(ANY, s),
            );
            assert(out.len() == want.len());
            assert forall|j: int| 0 <= j < out.len() implies out.deep_view()[j] == want[j] by {
                if j < head.len() {
                    assert(tag_model(out@[j]) == head[j]);
                } else if j < head.len() + mid.len() {
                    let k = j - head.len();
                    assert(tag_model(out@[head.len() + k]) == LdapSubstringFilter::part(
                        ANY,
                        self.any@[k]@,
                    ));
                    assert(want[j] == mid[k]);
                }
            }
            assert(out.deep_view() =~= want);
            LdapSubstringFilter::lemma_round_trip(self.deep_view());
        }
        out
    }

    /// Reading the parts of a substring test gives the substrings back.
    pub proof fn lemma_round_trip(m: LdapSubstringFilterModel)
        ensures
            LdapSubstringFilter::spec_try_from(LdapSubstringFilter::spec_to_tags(m)) == Some(m),
    {
        let parts = LdapSubstringFilter::spec_to_tags(m);
        let a: int = if m.initial is Some {
            1
        } else {
            0
        };
        let n = m.any.len() as int;
        if m.initial is Some {
            crate::prim::lemma_text_round_trip(m.initial->0);
            assert(parts[0] == LdapSubstringFilter::part(INITIAL, m.initial->0));
        }
        if m.final_ is Some {
            crate::prim::lemma_text_round_trip(m.final_->0);
            assert(parts[a + n] == LdapSubstringFilter::part(FINAL, m.final_->0));
        }
        assert forall|k: int| 0 <= k < n implies #[trigger] parts[a + k]
            == LdapSubstringFilter::part(ANY, m.any[k]) by {}
        assert forall|k: int| 0 <= k < n implies optional_text(Some(#[trigger] parts[a + k]))
            == Some(m.any[k]) by {
            crate::prim::lemma_text_round_trip(m.any[k]);
        }
        if n > 0 {
            assert(parts[a] == LdapSubstringFilter::part(ANY, m.any[0]));
            assert(parts[a + n - 1] == LdapSubstringFilter::part(ANY, m.any[n - 1]));
        }
        let lo = LdapSubstringFilter::middle_start(parts);
        let hi = LdapSubstringFilter::middle_end(parts);
        assert(lo == a);
        assert(hi == a + n);
        assert forall|i: int| 0 <= i < parts.len() implies optional_text(
            Some(#[trigger] parts[i]),
        ) is Some by {
            if a <= i < a + n {
                assert(parts[a + (i - a)] == parts[i]);
            }
        }
        assert forall|i: int| lo <= i < hi implies (#[trigger] parts[i]).id == ANY by {
            assert(parts[a + (i - a)] == parts[i]);
        }
        let got = LdapSubstringFilter::spec_try_from(parts);
        assert(got is Some);
        assert(got->0.any =~= m.any);
    }
}

impl LdapFilter {
    /// The filters that a list of tags holds, nothing if one of them holds none.
    pub open spec fn spec_list_from(tags: Seq<TagModel>) -> Option<Seq<LdapFilterModel>>
        decreases tags,
    {
        if tags.len() == 0 {
            Some(Seq::empty())
        } else {
            match (
                LdapFilter::spec_list_from(tags.drop_last()),
                LdapFilter::spec_try_from(tags.last()),
            ) {
                (Some(init), Some(f)) => Some(init.push(f)),
                _ => None,
            }
        }
    }

    /// The filter that a tag holds.
    pub open spec fn spec_try_from(t: TagModel) -> Option<LdapFilterModel>
        decreases t,
    {
        if t.class != BerClass::Context {
            None
        } else if t.id == AND || t.id == OR {
            match t.payload {
                PayloadModel::Constructed(inner) => match LdapFilter::spec_list_from(inner) {
                    Some(list) => if t.id == AND {
                        Some(LdapFilterModel::And(list))
                    } else {
                        Some(LdapFilterModel::Or(list))
                    },
                    None => None,
                },
                PayloadModel::Primitive(_) => None,
            }
        } else if t.id == NOT {
            match t.payload {
                PayloadModel::Constructed(inner) => {
                    if inner.len() > 0 {
                        match LdapFilter::spec_try_from(inner.last()) {
                            Some(f) => Some(LdapFilterModel::Not(Box::new(f))),
                            None => None,
                        }
                    } else {
                        None
                    }
                },
                PayloadModel::Primitive(_) => None,
            }
        } else if t.id == EQUALITY {
            match t.constructed() {
                Some(inner) => match (text_field(at(inner, 0)), text_field(at(inner, 1))) {
                    (Some(a), Some(v)) => Some(LdapFilterModel::Equality(a, v)),
                    _ => None,
                },
                None => None,
            }
        } else if t.id == SUBSTRING {
            match t.constructed() {
                Some(inner) => match (
                    text_field(at(inner, 0)),
                    constructed_field(at(inner, 1), BerClass::Universal, SEQUENCE),
                ) {
                    (Some(a), Some(parts)) => match LdapSubstringFilter::spec_try_from(parts) {
                        Some(s) => Some(LdapFilterModel::Substring(a, s)),
                        None => None,
                    },
                    _ => None,
                },
                None => None,
            }
        } else if t.id == PRESENT {
            match optional_text(Some(t)) {
                Some(a) => Some(LdapFilterModel::Present(a)),
                None => None,
            }
        } else {
            None
        }
    }

    /// The tag of a filter.
    pub open spec fn spec_to_tag(m: LdapFilterModel) -> TagModel
        decreases m,
    {
        match m {
            LdapFilterModel::And(v) => TagModel::new_constructed(
                BerClass::Context,
                AND,
                Seq::new(
                    v.len(),
                    |i: int|
                        if 0 <= i < v.len() {
                            LdapFilter::spec_to_tag(v[i])
                        } else {
                            arbitrary()
                        },
                ),
            ),
            LdapFilterModel::Or(v) => TagModel::new_constructed(
                BerClass::Context,
                OR,
                Seq::new(
                    v.len(),
                    |i: int|
                        if 0 <= i < v.len() {
                            LdapFilter::spec_to_tag(v[i])
                        } else {
                            arbitrary()
                        },
                ),
            ),
            LdapFilterModel::Not(f) => TagModel::new_constructed(
                BerClass::Context,
                NOT,
                seq![LdapFilter::spec_to_tag(*f)],
            ),
            LdapFilterModel::Equality(a, v) => TagModel::new_constructed(
                BerClass::Context,
                EQUALITY,
                seq![text_tag_model(a), text_tag_model(v)],
            ),
            LdapFilterModel::Substring(a, s) => TagModel::new_constructed(
                BerClass::Context,
                SUBSTRING,
                seq![
                    text_tag_model(a),
                    TagModel::new_constructed(
                        BerClass::Universal,
                        SEQUENCE,
                        LdapSubstringFilter::spec_to_tags(s),
                    ),
                ],
            ),
            LdapFilterModel::Present(a) => TagModel::new_primitive(
                BerClass::Context,
                PRESENT,
                encode_utf8(a),
            ),
        }
    }

    /// Reads the filters of a conjunction or disjunction.
    fn list_from(t: &BerTag, inner: &Vec<BerTag>) -> (r: Result<Vec<LdapFilter>, ()>)
        requires
            t.payload == BerPayload::Constructed(*inner),
        ensures
            decoded(r) == LdapFilter::spec_list_from(inner.deep_view()),
        decreases t, 0nat,
    {
        let ghost m = inner.deep_view();
        let mut out: Vec<LdapFilter> = Vec::new();
        let mut i: usize = 0;
        proof {
            assert(m.take(0) =~= Seq::<TagModel>::empty());
            assert(out.deep_view() =~= Seq::<LdapFilterModel>::empty());
        }
        while i < inner.len()
            invariant
                i <= inner.len(),
                m == inner.deep_view(),
                t.payload == BerPayload::Constructed(*inner),
                LdapFilter::spec_list_from(m.take(i as int)) == Some(out.deep_view()),
            decreases inner.len() - i,
        {
            proof {
                vstd::std_specs::vec::axiom_vec_index_decreases(*inner, i as int);
                assert(decreases_to!(t.payload => t.payload->Constructed_0));
                assert(m.take(i + 1).drop_last() =~= m.take(i as int));
                assert(m.take(i + 1).last() == tag_model(inner@[i as int]));
            }
            let ghost before = out.deep_view();
            match LdapFilter::try_from(&inner[i]) {
                Ok(f) => {
                    out.push(f);
                    proof {
                        assert(out.deep_view() =~= before.push(filter_model(f)));
                    }
                },
                Err(_) => {
                    proof {
                        LdapFilter::lemma_list_prefix_none(m, i + 1);
                    }
                    return Err(());
                },
            }
            i += 1;
        }
        proof {
            assert(m.take(inner.len() as int) =~= m);
        }
        Ok(out)
    }

    /// Where a prefix of a list holds no filters, the list holds none.
    pub proof fn lemma_list_prefix_none(tags: Seq<TagModel>, n: int)
        requires
            0 <= n <= tags.len(),
            LdapFilter::spec_list_from(tags.take(n)) is None,
        ensures
            LdapFilter::spec_list_from(tags) is None,
        decreases tags.len() - n,
    {
        if n < tags.len() {
            assert(tags.take(n + 1).drop_last() =~= tags.take(n));
            LdapFilter::lemma_list_prefix_none(tags, n + 1);
        } else {
            assert(tags.take(n) =~= tags);
        }
    }

    /// Reading a list of tags of which each reads back as its filter gives the filters.
    pub proof fn lemma_list_is(tags: Seq<TagModel>, list: Seq<LdapFilterModel>)
        requires
            tags.len() == list.len(),
            forall|i: int|
                0 <= i < tags.len() ==> LdapFilter::spec_try_from(#[trigger] tags[i]) == Some(
                    list[i],
                ),
        ensures
            LdapFilter::spec_list_from(tags) == Some(list),
        decreases tags.len(),
    {
        if tags.len() > 0 {
            LdapFilter::lemma_list_is(tags.drop_last(), list.drop_last());
            assert(LdapFilter::spec_try_from(tags[tags.len() - 1]) == Some(list.last()));
            assert(list.drop_last().push(list.last()) =~= list);
        } else {
            assert(list =~= Seq::<LdapFilterModel>::empty());
        }
    }

    /// Reads a filter.
    pub fn try_from(t: &BerTag) -> (r: Result<LdapFilter, ()>)
        ensures
            decoded(r) == LdapFilter::spec_try_from(t.deep_view()),
        decreases t, 1nat,
    {
        if t.class != BerClass::Context {
            return Err(());
        }
        if t.id == AND || t.id == OR {
            let inner = need(t.expect_constructed())?;
            let list = LdapFilter::list_from(t, inner)?;
            let r = if t.id == AND {
                LdapFilter::And(list)
            } else {
                LdapFilter::Or(list)
            };
            proof {
                if t.id == AND {
                    assert(filter_model(r)->And_0 =~= list.deep_view());
                } else {
                    assert(filter_model(r)->Or_0 =~= list.deep_view());
                }
            }
            Ok(r)
        } else if t.id == NOT {
            let inner = need(t.expect_constructed())?;
            if inner.len() == 0 {
                return Err(());
            }
            let last = &inner[inner.len() - 1];
            proof {
                vstd::std_specs::vec::axiom_vec_index_decreases(*inner, inner.len() - 1);
                assert(decreases_to!(t.payload => t.payload->Constructed_0));
                assert(inner.deep_view().last() == tag_model(*last));
            }
            let f = LdapFilter::try_from(last)?;
            Ok(LdapFilter::Not(Box::new(f)))
        } else if t.id == EQUALITY {
            let inner = need(t.expect_constructed())?;
            let a = need(get_text(tag_at(inner, 0)))?;
            let v = need(get_text(tag_at(inner, 1)))?;
            Ok(LdapFilter::Equality(a, v))
        } else if t.id == SUBSTRING {
            let inner = need(t.expect_constructed())?;
            let a = need(get_text(tag_at(inner, 0)))?;
            let parts = need(get_constructed(tag_at(inner, 1), BerClass::Universal, SEQUENCE))?;
            let s = LdapSubstringFilter::try_from(parts)?;
            Ok(LdapFilter::Substring(a, s))
        } else if t.id == PRESENT {
            let a = need(get_optional_text(Some(t)))?;
            Ok(LdapFilter::Present(a))
        } else {
            Err(())
        }
    }

    /// The tags of the filters of a conjunction or disjunction.
    fn list_to(f: &LdapFilter, list: &Vec<LdapFilter>) -> (r: Vec<BerTag>)
        requires
            *f == LdapFilter::And(*list) || *f == LdapFilter::Or(*list),
        ensures
            r.len() == list.len(),
            forall|i: int|
                0 <= i < r.len() ==> tag_model(#[trigger] r@[i]) == LdapFilter::spec_to_tag(
                    filter_model(list@[i]),
                ),
        decreases f, 0nat,
    {
        let mut out: Vec<BerTag> = Vec::new();
        let mut i: usize = 0;
        while i < list.len()
            invariant
                i <= list.len(),
                out.len() == i,
                *f == LdapFilter::And(*list) || *f == LdapFilter::Or(*list),
                forall|j: int|
                    0 <= j < i ==> tag_model(#[trigger] out@[j]) == LdapFilter::spec_to_tag(
                        filter_model(list@[j]),
                    ),
            decreases list.len() - i,
        {
            proof {
                vstd::std_specs::vec::axiom_vec_index_decreases(*list, i as int);
                if *f is And {
                    assert(decreases_to!(*f => f->And_0));
                } else {
                    assert(decreases_to!(*f => f->Or_0));
                }
            }
            out.push(list[i].to_tag());
            i += 1;
        }
        out
    }

    /// The tag of a filter. Reading it gives the filter back.
    pub fn to_tag(&self) -> (r: BerTag)
        ensures
            r.deep_view() == LdapFilter::spec_to_tag(self.deep_view()),
            LdapFilter::spec_try_from(r.deep_view()) == Some(self.deep_view()),
        decreases self, 1nat,
    {
        let r = match self {
            LdapFilter::And(v) => {
                let inner = LdapFilter::list_to(self, v);
                proof {
                    assert(inner.deep_view() =~= LdapFilter::spec_to_tag(
                        self.deep_view(),
                    ).payload->Constructed_0);
                }
                BerTag::constructed(BerClass::Context, AND, inner)
            },
            LdapFilter::Or(v) => {
                let inner = LdapFilter::list_to(self, v);
                proof {
                    assert(inner.deep_view() =~= LdapFilter::spec_to_tag(
                        self.deep_view(),
                    ).payload->Constructed_0);
                }
                BerTag::constructed(BerClass::Context, OR, inner)
            },
            LdapFilter::Not(f) => {
                let mut inner: Vec<BerTag> = Vec::new();
                inner.push((&**f).to_tag());
                proof {
                    assert(inner.deep_view() =~= LdapFilter::spec_to_tag(
                        self.deep_view(),
                    ).payload->Constructed_0);
                }
                BerTag::constructed(BerClass::Context, NOT, inner)
            },
            LdapFilter::Equality(a, v) => {
                let mut inner: Vec<BerTag> = Vec::new();
                inner.push(text_tag(a.as_str()));
                inner.push(text_tag(v.as_str()));
                proof {
                    assert(inner.deep_view() =~= LdapFilter::spec_to_tag(
                        self.deep_view(),
                    ).payload->Constructed_0);
                }
                BerTag::constructed(BerClass::Context, EQUALITY, inner)
            },
            LdapFilter::Substring(a, s) => {
                let mut inner: Vec<BerTag> = Vec::new();
                inner.push(text_tag(a.as_str()));
                inner.push(BerTag::sequence(s.to_tags()));
                proof {
                    assert(inner.deep_view() =~= LdapFilter::spec_to_tag(
                        self.deep_view(),
                    ).payload->Constructed_0);
                }
                BerTag::constructed(BerClass::Context, SUBSTRING, inner)
            },
            LdapFilter::Present(a) => text_tag_of(BerClass::Context, PRESENT, a.as_str()),
        };
        proof {
            LdapFilter::lemma_round_trip(self.deep_view());
        }
        r
    }

    /// Reading the tag of a filter gives the filter back.
    pub proof fn lemma_round_trip(m: LdapFilterModel)
        ensures
            LdapFilter::spec_try_from(LdapFilter::spec_to_tag(m)) == Some(m),
        decreases m,
    {
        let t = LdapFilter::spec_to_tag(m);
        match m {
            LdapFilterModel::And(v) => {
                let inner = t.payload->Constructed_0;
                assert forall|i: int| 0 <= i < inner.len() implies LdapFilter::spec_try_from(
                    #[trigger] inner[i],
                ) == Some(v[i]) by {
                    LdapFilter::lemma_round_trip(v[i]);
                }
                LdapFilter::lemma_list_is(inner, v);
            },
            LdapFilterModel::Or(v) => {
                let inner = t.payload->Constructed_0;
                assert forall|i: int| 0 <= i < inner.len() implies LdapFilter::spec_try_from(
                    #[trigger] inner[i],
                ) == Some(v[i]) by {
                    LdapFilter::lemma_round_trip(v[i]);
                }
                LdapFilter::lemma_list_is(inner, v);
            },
            LdapFilterModel::Not(f) => {
                LdapFilter::lemma_round_trip(*f);
                assert(t.payload->Constructed_0.last() == LdapFilter::spec_to_tag(*f));
            },
            LdapFilterModel::Equality(a, v) => {
                crate::prim::lemma_text_round_trip(a);
                crate::prim::lemma_text_round_trip(v);
            },
            LdapFilterModel::Substring(a, s) => {
                crate::prim::lemma_text_round_trip(a);
                LdapSubstringFilter::lemma_round_trip(s);
            },
            LdapFilterModel::Present(a) => {
                crate::prim::lemma_text_round_trip(a);
            },
        }
    }
}

} // verus!
