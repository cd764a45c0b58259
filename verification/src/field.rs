//! Reading and writing the fields of a structure: a tag of a given class and
//! number with a primitive content of a given kind.

use crate::ber::{tag_model, BerClass, BerTag, TagModel, BOOLEAN, OCTET_STRING};
use crate::prim::{
    bool_content, bool_of, bool_octets, bool_value, integer_of, integer_value, text_content,
    text_of, text_value,
};
use crate::wire::{integer_content, integer_tag};
use vstd::prelude::*;
use vstd::utf8::encode_utf8;

verus! {

broadcast use crate::prim::lemma_octets_deep_view;

/// Applies `f` to every element; nothing if `f` gives nothing for one of them.
pub open spec fn map_all<A, B>(s: Seq<A>, f: spec_fn(A) -> Option<B>) -> Option<Seq<B>> {
    if forall|i: int| 0 <= i < s.len() ==> (#[trigger] f(s[i])) is Some {
        Some(Seq::new(s.len(), |i: int| f(s[i])->0))
    } else {
        None
    }
}

/// Mapping every element by `g` and back by `f` gives the sequence back, where
/// `f` undoes `g` on each element.
pub proof fn lemma_map_all_inverse<A, B>(
    s: Seq<A>,
    g: spec_fn(A) -> B,
    f: spec_fn(B) -> Option<A>,
)
    requires
        forall|i: int| 0 <= i < s.len() ==> f(g(#[trigger] s[i])) == Some(s[i]),
    ensures
        map_all(s.map_values(g), f) == Some(s),
{
    let t = s.map_values(g);
    assert forall|i: int| 0 <= i < t.len() implies (#[trigger] f(t[i])) is Some by {
        assert(f(g(s[i])) == Some(s[i]));
    }
    assert forall|i: int| 0 <= i < t.len() implies (#[trigger] f(t[i]))->0 == s[i] by {
        assert(f(g(s[i])) == Some(s[i]));
    }
    assert(Seq::new(t.len(), |i: int| f(t[i])->0) =~= s);
}

/// `map_all` gives `r` where `f` gives the elements of `r` one by one.
pub proof fn lemma_map_all_some<A, B>(s: Seq<A>, f: spec_fn(A) -> Option<B>, r: Seq<B>)
    requires
        s.len() == r.len(),
        forall|i: int| 0 <= i < s.len() ==> f(#[trigger] s[i]) == Some(r[i]),
    ensures
        map_all(s, f) == Some(r),
{
    assert forall|i: int| 0 <= i < s.len() implies (#[trigger] f(s[i])) is Some by {
        assert(f(s[i]) == Some(r[i]));
    }
    assert forall|i: int| 0 <= i < s.len() implies (#[trigger] f(s[i]))->0 == r[i] by {
        assert(f(s[i]) == Some(r[i]));
    }
    assert(Seq::new(s.len(), |i: int| f(s[i])->0) =~= r);
}

/// `map_all` gives nothing where `f` gives nothing for one element.
pub proof fn lemma_map_all_none<A, B>(s: Seq<A>, f: spec_fn(A) -> Option<B>, i: int)
    requires
        0 <= i < s.len(),
        f(s[i]) is None,
    ensures
        map_all(s, f) is None,
{
}

/// The octets of a primitive field of the given class and tag number.
pub open spec fn primitive_field(t: Option<TagModel>, class: BerClass, id: u64) -> Option<
    Seq<u8>,
> {
    match t {
        Some(t) => t.primitive_of(class, id),
        None => None,
    }
}

/// The nested values of a constructed field of the given class and tag number.
pub open spec fn constructed_field(t: Option<TagModel>, class: BerClass, id: u64) -> Option<
    Seq<TagModel>,
> {
    match t {
        Some(t) => t.constructed_of(class, id),
        None => None,
    }
}

/// The octets of a universal OCTET STRING field.
pub open spec fn octets_field(t: Option<TagModel>) -> Option<Seq<u8>> {
    primitive_field(t, BerClass::Universal, OCTET_STRING)
}

/// The text of a primitive field of the given class and tag number.
pub open spec fn text_field_of(t: Option<TagModel>, class: BerClass, id: u64) -> Option<
    Seq<char>,
> {
    match primitive_field(t, class, id) {
        Some(b) => text_value(b),
        None => None,
    }
}

/// The text of a universal OCTET STRING field.
pub open spec fn text_field(t: Option<TagModel>) -> Option<Seq<char>> {
    text_field_of(t, BerClass::Universal, OCTET_STRING)
}

/// The number in a universal field with the given tag number, INTEGER or ENUMERATED.
pub open spec fn integer_field(t: Option<TagModel>, id: u64) -> Option<i64> {
    match primitive_field(t, BerClass::Universal, id) {
        Some(b) => integer_value(b),
        None => None,
    }
}

/// The truth value in a universal BOOLEAN field.
pub open spec fn bool_field(t: Option<TagModel>) -> Option<bool> {
    match primitive_field(t, BerClass::Universal, BOOLEAN) {
        Some(b) => bool_value(b),
        None => None,
    }
}

/// The texts of a list of universal OCTET STRING values.
pub open spec fn texts_of(tags: Seq<TagModel>) -> Option<Seq<Seq<char>>> {
    map_all(tags, |t: TagModel| text_field(Some(t)))
}

/// The octets of a list of universal OCTET STRING values.
pub open spec fn octets_of(tags: Seq<TagModel>) -> Option<Seq<Seq<u8>>> {
    map_all(tags, |t: TagModel| octets_field(Some(t)))
}

/// A universal OCTET STRING holding a text.
pub open spec fn text_tag_model(text: Seq<char>) -> TagModel {
    TagModel::new_primitive(BerClass::Universal, OCTET_STRING, encode_utf8(text))
}

/// A universal OCTET STRING holding octets.
pub open spec fn octets_tag_model(octets: Seq<u8>) -> TagModel {
    TagModel::new_primitive(BerClass::Universal, OCTET_STRING, octets)
}

/// A universal BOOLEAN.
pub open spec fn bool_tag_model(value: bool) -> TagModel {
    TagModel::new_primitive(BerClass::Universal, BOOLEAN, bool_octets(value))
}

/// A universal INTEGER or ENUMERATED, by its tag number.
pub open spec fn integer_tag_model(id: u64, value: i64) -> TagModel {
    TagModel::new_primitive(BerClass::Universal, id, integer_content(value))
}

/// The octets of a primitive field of the given class and tag number.
pub fn get_primitive(t: Option<&BerTag>, class: BerClass, id: u64) -> (r: Option<&Vec<u8>>)
    ensures
        r.deep_view() == primitive_field(t.deep_view(), class, id),
{
    match t {
        Some(t) => t.primitive_of(class, id),
        None => None,
    }
}

/// The nested values of a constructed field of the given class and tag number.
pub fn get_constructed(t: Option<&BerTag>, class: BerClass, id: u64) -> (r: Option<&Vec<BerTag>>)
    ensures
        r.deep_view() == constructed_field(t.deep_view(), class, id),
        r matches Some(v) ==> t matches Some(t) && t.payload == crate::ber::BerPayload::Constructed(
            *v,
        ),
{
    match t {
        Some(t) => t.constructed_of(class, id),
        None => None,
    }
}

/// The octets of a universal OCTET STRING field.
pub fn get_octets(t: Option<&BerTag>) -> (r: Option<Vec<u8>>)
    ensures
        r.deep_view() == octets_field(t.deep_view()),
{
    match get_primitive(t, BerClass::Universal, OCTET_STRING) {
        Some(b) => Some(b.clone()),
        None => None,
    }
}

/// The text of a primitive field of the given class and tag number.
pub fn get_text_of(t: Option<&BerTag>, class: BerClass, id: u64) -> (r: Option<String>)
    ensures
        r.deep_view() == text_field_of(t.deep_view(), class, id),
{
    match get_primitive(t, class, id) {
        Some(b) => text_of(b),
        None => None,
    }
}

/// The text of a universal OCTET STRING field.
pub fn get_text(t: Option<&BerTag>) -> (r: Option<String>)
    ensures
        r.deep_view() == text_field(t.deep_view()),
{
    get_text_of(t, BerClass::Universal, OCTET_STRING)
}

/// The number in a universal field with the given tag number.
pub fn get_integer(t: Option<&BerTag>, id: u64) -> (r: Option<i64>)
    ensures
        r == integer_field(t.deep_view(), id),
{
    match get_primitive(t, BerClass::Universal, id) {
        Some(b) => integer_of(b.as_slice()),
        None => None,
    }
}

/// The truth value in a universal BOOLEAN field.
pub fn get_bool(t: Option<&BerTag>) -> (r: Option<bool>)
    ensures
        r == bool_field(t.deep_view()),
{
    match get_primitive(t, BerClass::Universal, BOOLEAN) {
        Some(b) => bool_of(b.as_slice()),
        None => None,
    }
}

/// The texts of a list of universal OCTET STRING values; nothing if one of them
/// is no such value or holds no UTF-8.
pub fn get_texts(tags: &Vec<BerTag>) -> (r: Option<Vec<String>>)
    ensures
        r.deep_view() == texts_of(tags.deep_view()),
{
    let ghost f = |t: TagModel| text_field(Some(t));
    let mut out: Vec<String> = Vec::new();
    let mut i: usize = 0;
    while i < tags.len()
        invariant
            i <= tags.len(),
            out.len() == i,
            f == |t: TagModel| text_field(Some(t)),
            forall|j: int| 0 <= j < i ==> f(tag_model(tags@[j])) == Some((#[trigger] out@[j])@),
        decreases tags.len() - i,
    {
        match get_text(Some(&tags[i])) {
            Some(s) => out.push(s),
            None => {
                proof {
                    assert(f(tags.deep_view()[i as int]) is None);
                }
                return None;
            },
        }
        i += 1;
    }
    proof {
        let m = tags.deep_view();
        assert forall|j: int| 0 <= j < m.len() implies (#[trigger] f(m[j])) is Some by {
            assert(f(tag_model(tags@[j])) == Some(out@[j]@));
        }
        assert(out.deep_view() =~= Seq::new(m.len(), |j: int| f(m[j])->0)) by {
            assert forall|j: int| 0 <= j < m.len() implies out.deep_view()[j] == f(m[j])->0 by {
                assert(f(tag_model(tags@[j])) == Some(out@[j]@));
            }
        }
    }
    Some(out)
}

/// The octets of a list of universal OCTET STRING values; nothing if one of them
/// is no such value.
pub fn get_octets_list(tags: &Vec<BerTag>) -> (r: Option<Vec<Vec<u8>>>)
    ensures
        r.deep_view() == octets_of(tags.deep_view()),
{
    let ghost f = |t: TagModel| octets_field(Some(t));
    let mut out: Vec<Vec<u8>> = Vec::new();
    let mut i: usize = 0;
    while i < tags.len()
        invariant
            i <= tags.len(),
            out.len() == i,
            f == |t: TagModel| octets_field(Some(t)),
            forall|j: int| 0 <= j < i ==> f(tag_model(tags@[j])) == Some((#[trigger] out@[j])@),
        decreases tags.len() - i,
    {
        match get_octets(Some(&tags[i])) {
            Some(s) => out.push(s),
            None => {
                proof {
                    assert(f(tags.deep_view()[i as int]) is None);
                }
                return None;
            },
        }
        i += 1;
    }
    proof {
        let m = tags.deep_view();
        assert forall|j: int| 0 <= j < m.len() implies (#[trigger] f(m[j])) is Some by {
            assert(f(tag_model(tags@[j])) == Some(out@[j]@));
        }
        assert(out.deep_view() =~= Seq::new(m.len(), |j: int| f(m[j])->0)) by {
            assert forall|j: int| 0 <= j < m.len() implies out.deep_view()[j] == f(m[j])->0 by {
                assert(f(tag_model(tags@[j])) == Some(out@[j]@));
            }
        }
    }
    Some(out)
}

/// A universal OCTET STRING holding a text.
pub fn text_tag(text: &str) -> (r: BerTag)
    ensures
        r.deep_view() == text_tag_model(text@),
{
    BerTag::octet_string(text_content(text))
}

/// A primitive value of the given class and tag number holding a text.
pub fn text_tag_of(class: BerClass, id: u64, text: &str) -> (r: BerTag)
    ensures
        r.deep_view() == TagModel::new_primitive(class, id, encode_utf8(text@)),
{
    BerTag::primitive(class, id, text_content(text))
}

/// A universal OCTET STRING holding octets.
pub fn octets_tag(octets: &Vec<u8>) -> (r: BerTag)
    ensures
        r.deep_view() == octets_tag_model(octets@),
{
    BerTag::octet_string(octets.clone())
}

/// A universal BOOLEAN.
pub fn bool_tag(value: bool) -> (r: BerTag)
    ensures
        r.deep_view() == bool_tag_model(value),
{
    BerTag::primitive(BerClass::Universal, BOOLEAN, bool_content(value))
}

/// A universal INTEGER or ENUMERATED, by its tag number.
pub fn number_tag(id: u64, value: i64) -> (r: BerTag)
    ensures
        r.deep_view() == integer_tag_model(id, value),
{
    integer_tag(BerClass::Universal, id, value)
}

/// Universal OCTET STRINGs holding the texts of a list.
pub fn text_tags(texts: &Vec<String>) -> (r: Vec<BerTag>)
    ensures
        r.deep_view() == texts.deep_view().map_values(|s: Seq<char>| text_tag_model(s)),
{
    let mut out: Vec<BerTag> = Vec::new();
    let mut i: usize = 0;
    while i < texts.len()
        invariant
            i <= texts.len(),
            out.len() == i,
            forall|j: int| 0 <= j < i ==> tag_model(#[trigger] out@[j]) == text_tag_model(texts@[j]@),
        decreases texts.len() - i,
    {
        out.push(text_tag(texts[i].as_str()));
        i += 1;
    }
    proof {
        assert(out.deep_view() =~= texts.deep_view().map_values(|s: Seq<char>| text_tag_model(s)));
    }
    out
}

/// Universal OCTET STRINGs holding the octet strings of a list.
pub fn octets_tags(list: &Vec<Vec<u8>>) -> (r: Vec<BerTag>)
    ensures
        r.deep_view() == list.deep_view().map_values(|s: Seq<u8>| octets_tag_model(s)),
{
    let mut out: Vec<BerTag> = Vec::new();
    let mut i: usize = 0;
    while i < list.len()
        invariant
            i <= list.len(),
            out.len() == i,
            forall|j: int| 0 <= j < i ==> tag_model(#[trigger] out@[j]) == octets_tag_model(list@[j]@),
        decreases list.len() - i,
    {
        out.push(octets_tag(&list[i]));
        i += 1;
    }
    proof {
        assert(out.deep_view() =~= list.deep_view().map_values(|s: Seq<u8>| octets_tag_model(s)));
    }
    out
}

/// Reading the tags of a list of texts gives the texts back.
pub proof fn lemma_texts_round_trip(texts: Seq<Seq<char>>)
    ensures
        texts_of(texts.map_values(|s: Seq<char>| text_tag_model(s))) == Some(texts),
{
    assert forall|i: int| 0 <= i < texts.len() implies text_field(
        Some(text_tag_model(#[trigger] texts[i])),
    ) == Some(texts[i]) by {
        crate::prim::lemma_text_round_trip(texts[i]);
    }
    lemma_map_all_inverse(
        texts,
        |s: Seq<char>| text_tag_model(s),
        |t: TagModel| text_field(Some(t)),
    );
}

/// Reading the tags of a list of octet strings gives the octet strings back.
pub proof fn lemma_octets_round_trip(list: Seq<Seq<u8>>)
    ensures
        octets_of(list.map_values(|s: Seq<u8>| octets_tag_model(s))) == Some(list),
{
    lemma_map_all_inverse(
        list,
        |s: Seq<u8>| octets_tag_model(s),
        |t: TagModel| octets_field(Some(t)),
    );
}

} // verus!
