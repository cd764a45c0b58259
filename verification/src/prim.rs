//! Primitive BER contents: integers, booleans and UTF-8 text.

use vstd::prelude::*;
use vstd::slice::slice_to_vec;
use vstd::utf8::{decode_utf8, encode_utf8, valid_utf8};

verus! {

/// The number that the octets spell, most significant octet first.
pub open spec fn be_value(octets: Seq<u8>) -> nat
    decreases octets.len(),
{
    if octets.len() == 0 {
        0
    } else {
        be_value(octets.drop_last()) * 256 + octets.last() as nat
    }
}

/// 256 to the power `n`.
pub open spec fn pow256(n: nat) -> nat
    decreases n,
{
    if n == 0 {
        1
    } else {
        256 * pow256((n - 1) as nat)
    }
}

/// `n` octets spell a number below 256 to the `n`.
pub proof fn lemma_be_value_bound(octets: Seq<u8>)
    ensures
        be_value(octets) < pow256(octets.len()),
    decreases octets.len(),
{
    if octets.len() > 0 {
        lemma_be_value_bound(octets.drop_last());
    }
}

/// The value of a BER integer as this library reads it: at most eight octets,
/// right-aligned in eight octets that are zero on the left, and those eight read as
/// a signed 64-bit number, most significant octet first. More than eight octets
/// have no value.
pub open spec fn integer_value(octets: Seq<u8>) -> Option<i64> {
    if octets.len() > 8 {
        None
    } else if be_value(octets) < 0x8000_0000_0000_0000 {
        Some(be_value(octets) as i64)
    } else {
        Some((be_value(octets) - 0x1_0000_0000_0000_0000) as i64)
    }
}

/// The value of a BER boolean: false for a first octet of zero, true for any
/// other, none where there is no octet.
pub open spec fn bool_value(octets: Seq<u8>) -> Option<bool> {
    if octets.len() == 0 {
        None
    } else {
        Some(octets[0] != 0)
    }
}

/// The text that the octets hold in UTF-8, none where they are not UTF-8.
pub open spec fn text_value(octets: Seq<u8>) -> Option<Seq<char>> {
    if valid_utf8(octets) {
        Some(decode_utf8(octets))
    } else {
        None
    }
}

/// The deep view of an octet string is its view.
pub broadcast proof fn lemma_octets_deep_view(v: Vec<u8>)
    ensures
        #[trigger] v.deep_view() == v@,
{
    assert(v.deep_view() =~= v@);
}

/// The content octets of a BER boolean.
pub open spec fn bool_octets(value: bool) -> Seq<u8> {
    if value {
        seq![0xffu8]
    } else {
        seq![0x00u8]
    }
}

/// Reading the octets of a text gives the text back.
pub proof fn lemma_text_round_trip(text: Seq<char>)
    ensures
        text_value(encode_utf8(text)) == Some(text),
{
    vstd::utf8::encode_utf8_valid_utf8(text);
    vstd::utf8::encode_utf8_decode_utf8(text);
}

/// Reading the octets of a boolean gives the boolean back.
pub proof fn lemma_bool_round_trip(value: bool)
    ensures
        bool_value(bool_octets(value)) == Some(value),
{
}

/// The octets that spell a number, most significant first, with no zero octet in
/// front; zero is one zero octet.
pub open spec fn be_octets(v: nat) -> Seq<u8>
    decreases v,
{
    if v < 256 {
        seq![v as u8]
    } else {
        be_octets(v / 256).push((v % 256) as u8)
    }
}

/// The content octets of a BER integer that is not negative: the octets that
/// spell it, behind one zero octet where the first of them has its top bit set.
pub open spec fn unsigned_octets(v: nat) -> Seq<u8> {
    if be_octets(v)[0] >= 128 {
        seq![0u8] + be_octets(v)
    } else {
        be_octets(v)
    }
}

/// The octets of a number spell it, and their first, set in its place, is no
/// more than the number.
pub proof fn lemma_be_octets(v: nat)
    ensures
        be_octets(v).len() >= 1,
        be_value(be_octets(v)) == v,
        be_octets(v)[0] as nat * pow256((be_octets(v).len() - 1) as nat) <= v,
    decreases v,
{
    let b = be_octets(v);
    if v < 256 {
        assert(b.drop_last() =~= Seq::<u8>::empty());
        assert(be_value(b.drop_last()) == 0);
        assert(pow256(0) == 1);
    } else {
        let q = v / 256;
        lemma_be_octets(q);
        let a = be_octets(q);
        assert(b.drop_last() =~= a);
        assert(b.last() == (v % 256) as u8);
        assert(b[0] == a[0]);
        let n = (a.len() - 1) as nat;
        assert(pow256((b.len() - 1) as nat) == 256 * pow256(n));
        assert(a[0] as nat * (256 * pow256(n)) == 256 * (a[0] as nat * pow256(n)))
            by (nonlinear_arith);
    }
}

/// A number below 256 to the `k` has at most `k` octets.
pub proof fn lemma_be_octets_len(v: nat, k: nat)
    requires
        k >= 1,
        v < pow256(k),
    ensures
        be_octets(v).len() <= k,
    decreases v,
{
    if v >= 256 {
        assert(pow256(1) == 256) by {
            reveal_with_fuel(pow256, 2);
        }
        if k == 1 {
            assert(false);
        }
        assert(pow256(k) == 256 * pow256((k - 1) as nat));
        lemma_be_octets_len(v / 256, (k - 1) as nat);
    }
}

/// A zero octet in front does not change the number that octets spell.
pub proof fn lemma_leading_zero(octets: Seq<u8>)
    ensures
        be_value(seq![0u8] + octets) == be_value(octets),
    decreases octets.len(),
{
    let z = seq![0u8] + octets;
    if octets.len() == 0 {
        assert(z.drop_last() =~= Seq::<u8>::empty());
        assert(be_value(z.drop_last()) == 0);
    } else {
        assert(z.drop_last() =~= seq![0u8] + octets.drop_last());
        lemma_leading_zero(octets.drop_last());
    }
}

/// The content octets of a number that is not negative are at most eight, and
/// read back as the number.
pub proof fn lemma_unsigned_octets(v: i64)
    requires
        v >= 0,
    ensures
        1 <= unsigned_octets(v as nat).len() <= 8,
        be_value(unsigned_octets(v as nat)) == v,
        integer_value(unsigned_octets(v as nat)) == Some(v),
{
    let n = v as nat;
    let b = be_octets(n);
    lemma_be_octets(n);
    reveal_with_fuel(pow256, 10);
    lemma_be_octets_len(n, 8);
    lemma_leading_zero(b);
    if b[0] >= 128 {
        if b.len() == 8 {
            assert(b[0] as nat * pow256(7) >= 128 * pow256(7)) by (nonlinear_arith)
                requires
                    b[0] >= 128,
            ;
            assert(false);
        }
    }
}

/// Reads a BER integer. See [`integer_value`].
pub fn ber_integer_to_i64(bv: Vec<u8>) -> (r: Option<i64>)
    ensures
        r == integer_value(bv@),
{
    integer_of(bv.as_slice())
}

/// Reads a BER integer from borrowed octets. See [`integer_value`].
pub fn integer_of(octets: &[u8]) -> (r: Option<i64>)
    ensures
        r == integer_value(octets@),
{
    let n = octets.len();
    if n > 8 {
        return None;
    }
    let mut acc: u64 = 0;
    let mut i: usize = 0;
    proof {
        assert(octets@.take(0) =~= Seq::<u8>::empty());
        reveal_with_fuel(pow256, 10);
    }
    while i < n
        invariant
            i <= n,
            n == octets@.len(),
            n <= 8,
            acc == be_value(octets@.take(i as int)),
        decreases n - i,
    {
        proof {
            let next = octets@.take(i + 1);
            assert(next.drop_last() =~= octets@.take(i as int));
            assert(next.last() == octets@[i as int]);
            lemma_be_value_bound(octets@.take(i as int));
            lemma_be_value_bound(next);
            reveal_with_fuel(pow256, 10);
        }
        acc = acc * 256 + octets[i] as u64;
        i += 1;
    }
    proof {
        assert(octets@.take(n as int) =~= octets@);
    }
    if acc < 0x8000_0000_0000_0000 {
        Some(acc as i64)
    } else {
        let low: u64 = acc - 0x8000_0000_0000_0000;
        Some(low as i64 + i64::MIN)
    }
}

/// Reads a BER boolean. See [`bool_value`].
pub fn ber_bool_to_bool(bv: Vec<u8>) -> (r: Option<bool>)
    ensures
        r == bool_value(bv@),
{
    bool_of(bv.as_slice())
}

/// Reads a BER boolean from borrowed octets. See [`bool_value`].
pub fn bool_of(octets: &[u8]) -> (r: Option<bool>)
    ensures
        r == bool_value(octets@),
{
    if octets.len() == 0 {
        None
    } else {
        Some(octets[0] != 0)
    }
}

/// The content octets of a BER boolean: `0xff` for true, `0x00` for false.
pub fn bool_content(value: bool) -> (r: Vec<u8>)
    ensures
        r@ == bool_octets(value),
{
    let mut out: Vec<u8> = Vec::new();
    if value {
        out.push(0xffu8);
    } else {
        out.push(0x00u8);
    }
    proof {
        assert(out@ =~= bool_octets(value));
    }
    out
}

/// `String::from_utf8`, as an `Option`: the text where the octets are UTF-8,
/// nothing where they are not. Nothing here is proved; the claim is the one that
/// the standard library documents, stated over vstd's definition of UTF-8.
#[verifier::external_body]
fn string_from_utf8(octets: Vec<u8>) -> (r: Option<String>)
    ensures
        r.deep_view() == text_value(octets@),
{
    String::from_utf8(octets).ok()
}

/// The text that the octets hold in UTF-8, if they are UTF-8.
pub fn text_of(octets: &Vec<u8>) -> (r: Option<String>)
    ensures
        r.deep_view() == text_value(octets@),
{
    string_from_utf8(octets.clone())
}

/// The UTF-8 octets of a text.
pub fn text_content(text: &str) -> (r: Vec<u8>)
    ensures
        r@ == encode_utf8(text@),
{
    slice_to_vec(text.as_bytes())
}

/// Whether two texts are the same.
pub fn same_text(a: &str, b: &str) -> (r: bool)
    ensures
        r == (a@ == b@),
{
    let x = a.as_bytes();
    let y = b.as_bytes();
    proof {
        vstd::utf8::encode_utf8_decode_utf8(a@);
        vstd::utf8::encode_utf8_decode_utf8(b@);
    }
    same_octets(x, y)
}

/// Whether two octet strings are the same.
pub fn same_octets(a: &[u8], b: &[u8]) -> (r: bool)
    ensures
        r == (a@ == b@),
{
    if a.len() != b.len() {
        return false;
    }
    let mut i: usize = 0;
    while i < a.len()
        invariant
            i <= a@.len(),
            a@.len() == b@.len(),
            forall|j: int| 0 <= j < i ==> a@[j] == b@[j],
        decreases a.len() - i,
    {
        if a[i] != b[i] {
            return false;
        }
        i += 1;
    }
    proof {
        assert(a@ =~= b@);
    }
    true
}

} // verus!
