//! The tagged-value tree that BER encodes, and its mathematical model.
//!
//! Every LDAP structure is first mapped to a tree of [`BerTag`] values and only then
//! written as octets, and the other way round when reading. The contracts of the
//! library speak of [`TagModel`], the model of such a tree over `Seq`.

use vstd::prelude::*;

verus! {

/// The class bits of a BER identifier octet.
#[derive(Clone, Copy, Debug, PartialEq, Eq, Structural)]
pub enum BerClass {
    Universal,
    Application,
    Context,
    Private,
}

/// The content of a tagged value: raw octets, or a sequence of nested values.
#[derive(Debug, PartialEq, Eq)]
pub enum BerPayload {
    Primitive(Vec<u8>),
    Constructed(Vec<BerTag>),
}

/// One tagged value.
#[derive(Debug, PartialEq, Eq)]
pub struct BerTag {
    pub class: BerClass,
    pub id: u64,
    pub payload: BerPayload,
}

/// Model of [`BerPayload`].
pub enum PayloadModel {
    Primitive(Seq<u8>),
    Constructed(Seq<TagModel>),
}

/// Model of [`BerTag`].
pub struct TagModel {
    pub class: BerClass,
    pub id: u64,
    pub payload: PayloadModel,
}

/// Universal tag number of BOOLEAN.
pub const BOOLEAN: u64 = 1;

/// Universal tag number of INTEGER.
pub const INTEGER: u64 = 2;

/// Universal tag number of OCTET STRING.
pub const OCTET_STRING: u64 = 4;

/// Universal tag number of ENUMERATED.
pub const ENUMERATED: u64 = 10;

/// Universal tag number of SEQUENCE.
pub const SEQUENCE: u64 = 16;

/// Universal tag number of SET.
pub const SET: u64 = 17;

/// The model of a tag tree.
pub open spec fn tag_model(t: BerTag) -> TagModel
    decreases t,
{
    TagModel {
        class: t.class,
        id: t.id,
        payload: match t.payload {
            BerPayload::Primitive(b) => PayloadModel::Primitive(b@),
            BerPayload::Constructed(v) => PayloadModel::Constructed(
                Seq::new(
                    v@.len(),
                    |i: int|
                        if 0 <= i < v@.len() {
                            tag_model(v@[i])
                        } else {
                            arbitrary()
                        },
                ),
            ),
        },
    }
}

impl DeepView for BerTag {
    type V = TagModel;

    open spec fn deep_view(&self) -> TagModel {
        tag_model(*self)
    }
}

impl TagModel {
    /// The octets of a primitive value.
    pub open spec fn primitive(self) -> Option<Seq<u8>> {
        match self.payload {
            PayloadModel::Primitive(b) => Some(b),
            PayloadModel::Constructed(_) => None,
        }
    }

    /// The nested values of a constructed value.
    pub open spec fn constructed(self) -> Option<Seq<TagModel>> {
        match self.payload {
            PayloadModel::Primitive(_) => None,
            PayloadModel::Constructed(v) => Some(v),
        }
    }

    /// Whether the value carries the given class and tag number.
    pub open spec fn is(self, class: BerClass, id: u64) -> bool {
        self.class == class && self.id == id
    }

    /// The octets of a primitive value of the given class and tag number.
    pub open spec fn primitive_of(self, class: BerClass, id: u64) -> Option<Seq<u8>> {
        if self.is(class, id) {
            self.primitive()
        } else {
            None
        }
    }

    /// The nested values of a constructed value of the given class and tag number.
    pub open spec fn constructed_of(self, class: BerClass, id: u64) -> Option<Seq<TagModel>> {
        if self.is(class, id) {
            self.constructed()
        } else {
            None
        }
    }

    /// A primitive value.
    pub open spec fn new_primitive(class: BerClass, id: u64, octets: Seq<u8>) -> TagModel {
        TagModel { class, id, payload: PayloadModel::Primitive(octets) }
    }

    /// A constructed value.
    pub open spec fn new_constructed(class: BerClass, id: u64, inner: Seq<TagModel>) -> TagModel {
        TagModel { class, id, payload: PayloadModel::Constructed(inner) }
    }
}

/// The element at position `i`, if there is one.
pub open spec fn at(tags: Seq<TagModel>, i: int) -> Option<TagModel> {
    if 0 <= i < tags.len() {
        Some(tags[i])
    } else {
        None
    }
}

impl Clone for BerTag {
    fn clone(&self) -> (r: Self)
        ensures
            r.deep_view() == self.deep_view(),
        decreases self,
    {
        let payload = match &self.payload {
            BerPayload::Primitive(b) => BerPayload::Primitive(b.clone()),
            BerPayload::Constructed(v) => {
                let mut out: Vec<BerTag> = Vec::new();
                let mut i: usize = 0;
                while i < v.len()
                    invariant
                        i <= v.len(),
                        self.payload == BerPayload::Constructed(*v),
                        out.len() == i,
                        forall|j: int|
                            0 <= j < i ==> tag_model(#[trigger] out@[j]) == tag_model(v@[j]),
                    decreases v.len() - i,
                {
                    proof {
                        vstd::std_specs::vec::axiom_vec_index_decreases(*v, i as int);
                        assert(decreases_to!(self.payload => self.payload->Constructed_0));
                    }
                    let c = v[i].clone();
                    out.push(c);
                    i += 1;
                }
                BerPayload::Constructed(out)
            },
        };
        let r = BerTag { class: self.class, id: self.id, payload };
        proof {
            if self.payload is Constructed {
                assert(tag_model(*self).payload->Constructed_0 =~= tag_model(
                    r,
                ).payload->Constructed_0);
            }
        }
        r
    }
}

impl BerTag {
    /// Whether two trees are the same: class, tag number and content of every node.
    pub fn same(&self, other: &BerTag) -> (r: bool)
        ensures
            r == (self.deep_view() == other.deep_view()),
        decreases self,
    {
        if self.class != other.class || self.id != other.id {
            return false;
        }
        match (&self.payload, &other.payload) {
            (BerPayload::Primitive(a), BerPayload::Primitive(b)) => crate::prim::same_octets(
                a.as_slice(),
                b.as_slice(),
            ),
            (BerPayload::Constructed(a), BerPayload::Constructed(b)) => {
                if a.len() != b.len() {
                    proof {
                        assert(tag_model(*self).payload->Constructed_0.len() == a.len());
                        assert(tag_model(*other).payload->Constructed_0.len() == b.len());
                    }
                    return false;
                }
                let mut i: usize = 0;
                while i < a.len()
                    invariant
                        i <= a.len(),
                        a.len() == b.len(),
                        self.payload == BerPayload::Constructed(*a),
                        other.payload == BerPayload::Constructed(*b),
                        forall|j: int| 0 <= j < i ==> tag_model(a@[j]) == tag_model(b@[j]),
                    decreases a.len() - i,
                {
                    proof {
                        vstd::std_specs::vec::axiom_vec_index_decreases(*a, i as int);
                        assert(decreases_to!(self.payload => self.payload->Constructed_0));
                    }
                    if !a[i].same(&b[i]) {
                        proof {
                            let x = tag_model(*self).payload->Constructed_0;
                            let y = tag_model(*other).payload->Constructed_0;
                            assert(x[i as int] == tag_model(a@[i as int]));
                            assert(y[i as int] == tag_model(b@[i as int]));
                        }
                        return false;
                    }
                    i += 1;
                }
                proof {
                    assert(tag_model(*self).payload->Constructed_0 =~= tag_model(
                        *other,
                    ).payload->Constructed_0);
                }
                true
            },
            _ => false,
        }
    }

    /// A primitive value with the given octets.
    pub fn primitive(class: BerClass, id: u64, octets: Vec<u8>) -> (r: BerTag)
        ensures
            r.deep_view() == TagModel::new_primitive(class, id, octets@),
    {
        BerTag { class, id, payload: BerPayload::Primitive(octets) }
    }

    /// A constructed value with the given nested values.
    pub fn constructed(class: BerClass, id: u64, inner: Vec<BerTag>) -> (r: BerTag)
        ensures
            r.deep_view() == TagModel::new_constructed(class, id, inner.deep_view()),
    {
        let r = BerTag { class, id, payload: BerPayload::Constructed(inner) };
        proof {
            assert(tag_model(r).payload->Constructed_0 =~= inner.deep_view());
        }
        r
    }

    /// A universal OCTET STRING.
    pub fn octet_string(octets: Vec<u8>) -> (r: BerTag)
        ensures
            r.deep_view() == TagModel::new_primitive(BerClass::Universal, OCTET_STRING, octets@),
    {
        BerTag::primitive(BerClass::Universal, OCTET_STRING, octets)
    }

    /// A universal SEQUENCE.
    pub fn sequence(inner: Vec<BerTag>) -> (r: BerTag)
        ensures
            r.deep_view() == TagModel::new_constructed(
                BerClass::Universal,
                SEQUENCE,
                inner.deep_view(),
            ),
    {
        BerTag::constructed(BerClass::Universal, SEQUENCE, inner)
    }

    /// A universal SET.
    pub fn set(inner: Vec<BerTag>) -> (r: BerTag)
        ensures
            r.deep_view() == TagModel::new_constructed(BerClass::Universal, SET, inner.deep_view()),
    {
        BerTag::constructed(BerClass::Universal, SET, inner)
    }

    /// Whether the value carries the given class and tag number.
    pub fn is(&self, class: BerClass, id: u64) -> (r: bool)
        ensures
            r == self.deep_view().is(class, id),
    {
        self.class == class && self.id == id
    }

    /// The octets of a primitive value; `None` for a constructed one.
    pub fn expect_primitive(&self) -> (r: Option<&Vec<u8>>)
        ensures
            r.deep_view() == self.deep_view().primitive(),
    {
        match &self.payload {
            BerPayload::Primitive(b) => Some(b),
            BerPayload::Constructed(_) => None,
        }
    }

    /// The nested values of a constructed value; `None` for a primitive one.
    pub fn expect_constructed(&self) -> (r: Option<&Vec<BerTag>>)
        ensures
            r.deep_view() == self.deep_view().constructed(),
            r matches Some(v) ==> self.payload == BerPayload::Constructed(*v),
    {
        match &self.payload {
            BerPayload::Primitive(_) => None,
            BerPayload::Constructed(v) => {
                proof {
                    assert(v.deep_view() =~= self.deep_view().payload->Constructed_0);
                }
                Some(v)
            },
        }
    }

    /// The octets of a primitive value of the given class and tag number.
    pub fn primitive_of(&self, class: BerClass, id: u64) -> (r: Option<&Vec<u8>>)
        ensures
            r.deep_view() == self.deep_view().primitive_of(class, id),
    {
        if self.is(class, id) {
            self.expect_primitive()
        } else {
            None
        }
    }

    /// The nested values of a constructed value of the given class and tag number.
    pub fn constructed_of(&self, class: BerClass, id: u64) -> (r: Option<&Vec<BerTag>>)
        ensures
            r.deep_view() == self.deep_view().constructed_of(class, id),
            r matches Some(v) ==> self.payload == BerPayload::Constructed(*v),
    {
        if self.is(class, id) {
            self.expect_constructed()
        } else {
            None
        }
    }
}

/// The element at position `i`, if there is one.
pub fn tag_at(tags: &Vec<BerTag>, i: usize) -> (r: Option<&BerTag>)
    ensures
        r.deep_view() == at(tags.deep_view(), i as int),
        r matches Some(t) ==> i < tags@.len() && *t == tags@[i as int],
{
    if i < tags.len() {
        Some(&tags[i])
    } else {
        None
    }
}

} // verus!
