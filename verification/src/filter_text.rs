//! Search filters as text.
//!
//! The text form puts every filter in parentheses. `&` and `|` are followed by
//! one or more filters and `!` by one; anything else is an attribute, `=`, and a
//! value. In a value `*` separates the pieces of a substring test, and `\` with
//! two hexadecimal digits stands for one octet, so that `\2a` is an asterisk that
//! separates nothing. A value that is `*` alone tests for presence.

use crate::field::{lemma_map_all_none, lemma_map_all_some, map_all};
use crate::proto::{
    filter_model, LdapFilter, LdapFilterModel, LdapSubstringFilter, LdapSubstringFilterModel,
};
use crate::prim::{text_of, text_value};
use vstd::prelude::*;
use vstd::slice::{slice_subrange, slice_to_vec};
use vstd::utf8::encode_utf8;

verus! {

broadcast use crate::prim::lemma_octets_deep_view;

/// Why a text is no filter.
#[derive(Debug, Clone, Copy, PartialEq, Eq, Structural)]
pub enum LdapFilterError {
    /// A parenthesis is missing where one must stand, or the text ends too early.
    Unbalanced,
    /// `&` or `|` is followed by no filter.
    EmptyGroup,
    /// The text goes on after the filter.
    TrailingGarbage,
    /// `\` is not followed by two hexadecimal digits.
    InvalidEscape,
    /// The operator is one of `>=`, `<=`, `~=` and `:=`.
    Unsupported,
    /// The attribute is empty, or a parenthesis stands where none may.
    Malformed,
    /// An attribute or a value is no UTF-8 once its escapes are resolved.
    InvalidUtf8,
}

/// `(`
pub const OPEN: u8 = 0x28;

/// `)`
pub const CLOSE: u8 = 0x29;

/// `*`
pub const STAR: u8 = 0x2a;

/// `\`
pub const BACKSLASH: u8 = 0x5c;

/// `=`
pub const EQUALS: u8 = 0x3d;

/// `&`
pub const AMPERSAND: u8 = 0x26;

/// `|`
pub const PIPE: u8 = 0x7c;

/// `!`
pub const BANG: u8 = 0x21;

/// Whether an octet ends an attribute: a parenthesis, or the first character
/// of an operator.
pub open spec fn is_delimiter(c: u8) -> bool {
    c == OPEN || c == CLOSE || c == EQUALS || c == 0x7e || c == 0x3c || c == 0x3e || c == 0x3a
}

/// The value of a hexadecimal digit.
pub open spec fn hex_value(c: u8) -> Option<u8> {
    if 0x30 <= c <= 0x39 {
        Some((c - 0x30) as u8)
    } else if 0x61 <= c <= 0x66 {
        Some((c - 0x61 + 10) as u8)
    } else if 0x41 <= c <= 0x46 {
        Some((c - 0x41 + 10) as u8)
    } else {
        None
    }
}

/// Where the attribute that begins at `pos` ends: at the first delimiter, or
/// at the end of the text.
pub open spec fn attr_end(s: Seq<u8>, pos: int) -> int
    decreases s.len() - pos,
{
    if pos < 0 || pos >= s.len() {
        s.len() as int
    } else if is_delimiter(s[pos]) {
        pos
    } else {
        attr_end(s, pos + 1)
    }
}

/// Reads a value from `pos` to the parenthesis that closes the filter. `done`
/// holds the pieces that an asterisk has ended and `cur` the piece that is being
/// read. Gives all the pieces and the place of the closing parenthesis.
pub open spec fn value_scan(s: Seq<u8>, pos: int, done: Seq<Seq<u8>>, cur: Seq<u8>) -> Result<
    (Seq<Seq<u8>>, int),
    LdapFilterError,
>
    decreases s.len() - pos,
{
    if pos < 0 || pos >= s.len() {
        Err(LdapFilterError::Unbalanced)
    } else if s[pos] == CLOSE {
        Ok((done.push(cur), pos))
    } else if s[pos] == OPEN {
        Err(LdapFilterError::Malformed)
    } else if s[pos] == STAR {
        value_scan(s, pos + 1, done.push(cur), Seq::empty())
    } else if s[pos] == BACKSLASH {
        if pos + 2 < s.len() {
            match (hex_value(s[pos + 1]), hex_value(s[pos + 2])) {
                (Some(hi), Some(lo)) => value_scan(
                    s,
                    pos + 3,
                    done,
                    cur.push((hi * 16 + lo) as u8),
                ),
                _ => Err(LdapFilterError::InvalidEscape),
            }
        } else {
            Err(LdapFilterError::InvalidEscape)
        }
    } else {
        value_scan(s, pos + 1, done, cur.push(s[pos]))
    }
}

/// A text, or nothing where it is empty.
pub open spec fn non_empty(text: Seq<char>) -> Option<Seq<char>> {
    if text.len() == 0 {
        None
    } else {
        Some(text)
    }
}

/// The test that an attribute and the pieces of its value make. One piece is
/// an equality test. Two empty pieces, a value of one asterisk, are a presence
/// test. Otherwise the first piece is the initial part and the last the final
/// part, each left out where it is empty, and the pieces between are the `any`
/// parts.
pub open spec fn item(attr: Seq<u8>, pieces: Seq<Seq<u8>>) -> Result<
    LdapFilterModel,
    LdapFilterError,
> {
    match (text_value(attr), map_all(pieces, |p: Seq<u8>| text_value(p))) {
        (Some(a), Some(texts)) => Ok(
            if texts.len() == 1 {
                LdapFilterModel::Equality(a, texts[0])
            } else if texts.len() == 2 && texts[0].len() == 0 && texts[1].len() == 0 {
                LdapFilterModel::Present(a)
            } else {
                LdapFilterModel::Substring(
                    a,
                    LdapSubstringFilterModel {
                        initial: non_empty(texts[0]),
                        any: texts.subrange(1, texts.len() - 1),
                        final_: non_empty(texts.last()),
                    },
                )
            },
        ),
        _ => Err(LdapFilterError::InvalidUtf8),
    }
}

/// Reads the test that begins at `pos`, behind the opening parenthesis. Gives
/// the test and the place of the closing parenthesis.
pub open spec fn item_at(s: Seq<u8>, pos: int) -> Result<(LdapFilterModel, int), LdapFilterError> {
    let end = attr_end(s, pos);
    if end >= s.len() {
        Err(LdapFilterError::Unbalanced)
    } else if end == pos || s[end] == OPEN || s[end] == CLOSE {
        Err(LdapFilterError::Malformed)
    } else if s[end] != EQUALS {
        Err(LdapFilterError::Unsupported)
    } else {
        match value_scan(s, end + 1, Seq::empty(), Seq::empty()) {
            Ok((pieces, close)) => match item(s.subrange(pos, end), pieces) {
                Ok(f) => Ok((f, close)),
                Err(e) => Err(e),
            },
            Err(e) => Err(e),
        }
    }
}

/// The place behind the closing parenthesis that must stand at `pos`.
pub open spec fn closed(s: Seq<u8>, f: LdapFilterModel, pos: int) -> Result<
    (LdapFilterModel, int),
    LdapFilterError,
> {
    if 0 <= pos < s.len() && s[pos] == CLOSE {
        Ok((f, pos + 1))
    } else {
        Err(LdapFilterError::Unbalanced)
    }
}

/// Reads the filter that begins at `pos`. Gives the filter and the place
/// behind its closing parenthesis.
pub open spec fn filter_at(s: Seq<u8>, pos: int) -> Result<(LdapFilterModel, int), LdapFilterError>
    decreases s.len() - pos, 0nat,
{
    if pos < 0 || pos + 1 >= s.len() || s[pos] != OPEN {
        Err(LdapFilterError::Unbalanced)
    } else if s[pos + 1] == AMPERSAND || s[pos + 1] == PIPE {
        if pos + 2 < s.len() && s[pos + 2] == OPEN {
            match filters_at(s, pos + 2, Seq::empty()) {
                Ok((list, end)) => closed(
                    s,
                    if s[pos + 1] == AMPERSAND {
                        LdapFilterModel::And(list)
                    } else {
                        LdapFilterModel::Or(list)
                    },
                    end,
                ),
                Err(e) => Err(e),
            }
        } else {
            Err(LdapFilterError::EmptyGroup)
        }
    } else if s[pos + 1] == BANG {
        match filter_at(s, pos + 2) {
            Ok((f, end)) => closed(s, LdapFilterModel::Not(Box::new(f)), end),
            Err(e) => Err(e),
        }
    } else {
        match item_at(s, pos + 1) {
            Ok((f, close)) => closed(s, f, close),
            Err(e) => Err(e),
        }
    }
}

/// Reads filters from `pos` for as long as one begins there, behind those in
/// `done`. Gives them all and the place where none begins.
pub open spec fn filters_at(s: Seq<u8>, pos: int, done: Seq<LdapFilterModel>) -> Result<
    (Seq<LdapFilterModel>, int),
    LdapFilterError,
>
    decreases s.len() - pos, 1nat,
{
    if 0 <= pos < s.len() && s[pos] == OPEN {
        match filter_at(s, pos) {
            Ok((f, end)) => if pos < end <= s.len() {
                filters_at(s, end, done.push(f))
            } else {
                Err(LdapFilterError::Unbalanced)
            },
            Err(e) => Err(e),
        }
    } else {
        Ok((done, pos))
    }
}

/// The filter that a text spells: one filter, and nothing behind it.
pub open spec fn parse_filter(s: Seq<u8>) -> Result<LdapFilterModel, LdapFilterError> {
    match filter_at(s, 0) {
        Ok((f, end)) => if end == s.len() {
            Ok(f)
        } else {
            Err(LdapFilterError::TrailingGarbage)
        },
        Err(e) => Err(e),
    }
}

/// The model of what reading one filter returns.
pub open spec fn read_model(r: Result<(LdapFilter, usize), LdapFilterError>) -> Result<
    (LdapFilterModel, int),
    LdapFilterError,
> {
    match r {
        Ok((f, end)) => Ok((f.deep_view(), end as int)),
        Err(e) => Err(e),
    }
}

/// The model of what parsing returns.
pub open spec fn parsed_model(r: Result<LdapFilter, LdapFilterError>) -> Result<
    LdapFilterModel,
    LdapFilterError,
> {
    match r {
        Ok(f) => Ok(f.deep_view()),
        Err(e) => Err(e),
    }
}

/// Whether an octet ends an attribute.
fn delimiter(c: u8) -> (r: bool)
    ensures
        r == is_delimiter(c),
{
    c == OPEN || c == CLOSE || c == EQUALS || c == 0x7e || c == 0x3c || c == 0x3e || c == 0x3a
}

/// The value of a hexadecimal digit.
fn hex(c: u8) -> (r: Option<u8>)
    ensures
        r == hex_value(c),
        r matches Some(v) ==> v < 16,
{
    if 0x30 <= c && c <= 0x39 {
        Some(c - 0x30)
    } else if 0x61 <= c && c <= 0x66 {
        Some(c - 0x61 + 10)
    } else if 0x41 <= c && c <= 0x46 {
        Some(c - 0x41 + 10)
    } else {
        None
    }
}

/// Finds where the attribute that begins at `pos` ends.
fn find_attr_end(s: &[u8], pos: usize) -> (r: usize)
    requires
        pos <= s@.len(),
    ensures
        r == attr_end(s@, pos as int),
        pos <= r <= s@.len(),
{
    let mut i: usize = pos;
    while i < s.len() && !delimiter(s[i])
        invariant
            pos <= i <= s@.len(),
            attr_end(s@, pos as int) == attr_end(s@, i as int),
        decreases s.len() - i,
    {
        i += 1;
    }
    i
}

/// Reads a value from `pos` to the closing parenthesis.
fn scan_value(s: &[u8], pos: usize) -> (r: Result<(Vec<Vec<u8>>, usize), LdapFilterError>)
    requires
        pos <= s@.len(),
    ensures
        match r {
            Ok((pieces, close)) => value_scan(s@, pos as int, Seq::empty(), Seq::empty()) == Ok::<
                (Seq<Seq<u8>>, int),
                LdapFilterError,
            >((pieces.deep_view(), close as int)) && pos <= close < s@.len() && s@[close as int]
                == CLOSE,
            Err(e) => value_scan(s@, pos as int, Seq::empty(), Seq::empty()) == Err::<
                (Seq<Seq<u8>>, int),
                LdapFilterError,
            >(e),
        },
{
    let mut done: Vec<Vec<u8>> = Vec::new();
    let mut cur: Vec<u8> = Vec::new();
    let mut i: usize = pos;
    let ghost goal = value_scan(s@, pos as int, Seq::empty(), Seq::empty());
    proof {
        assert(done.deep_view() =~= Seq::<Seq<u8>>::empty());
    }
    while i < s.len()
        invariant
            pos <= i <= s@.len(),
            goal == value_scan(s@, pos as int, Seq::empty(), Seq::empty()),
            goal == value_scan(s@, i as int, done.deep_view(), cur@),
        decreases s.len() - i,
    {
        let c = s[i];
        let ghost before = done.deep_view();
        if c == CLOSE {
            done.push(cur);
            proof {
                assert(done.deep_view() =~= before.push(cur@));
            }
            return Ok((done, i));
        } else if c == OPEN {
            return Err(LdapFilterError::Malformed);
        } else if c == STAR {
            done.push(cur);
            proof {
                assert(done.deep_view() =~= before.push(cur@));
            }
            cur = Vec::new();
            i += 1;
        } else if c == BACKSLASH {
            if s.len() - i <= 2 {
                return Err(LdapFilterError::InvalidEscape);
            }
            match (hex(s[i + 1]), hex(s[i + 2])) {
                (Some(hi), Some(lo)) => {
                    cur.push(hi * 16 + lo);
                    i += 3;
                },
                _ => {
                    return Err(LdapFilterError::InvalidEscape);
                },
            }
        } else {
            cur.push(c);
            i += 1;
        }
    }
    Err(LdapFilterError::Unbalanced)
}

/// The texts of the pieces of a value; nothing where one is no UTF-8.
fn piece_texts(pieces: &Vec<Vec<u8>>) -> (r: Option<Vec<String>>)
    ensures
        r.deep_view() == map_all(pieces.deep_view(), |p: Seq<u8>| text_value(p)),
{
    let ghost f = |p: Seq<u8>| text_value(p);
    let mut out: Vec<String> = Vec::new();
    let mut i: usize = 0;
    while i < pieces.len()
        invariant
            i <= pieces.len(),
            out.len() == i,
            f == |p: Seq<u8>| text_value(p),
            forall|j: int| 0 <= j < i ==> f(pieces@[j]@) == Some((#[trigger] out@[j])@),
        decreases pieces.len() - i,
    {
        match text_of(&pieces[i]) {
            Some(t) => out.push(t),
            None => {
                proof {
                    lemma_map_all_none(pieces.deep_view(), f, i as int);
                }
                return None;
            },
        }
        i += 1;
    }
    proof {
        lemma_map_all_some(pieces.deep_view(), f, out.deep_view());
    }
    Some(out)
}

/// A copy of the text at `i`.
fn text_at(texts: &Vec<String>, i: usize) -> (r: String)
    requires
        i < texts.len(),
    ensures
        r@ == texts@[i as int]@,
{
    texts[i].clone()
}

/// A copy of the text at `i`, or nothing where it is empty.
fn non_empty_at(texts: &Vec<String>, i: usize) -> (r: Option<String>)
    requires
        i < texts.len(),
    ensures
        r.deep_view() == non_empty(texts@[i as int]@),
{
    if texts[i].as_str().unicode_len() == 0 {
        None
    } else {
        Some(texts[i].clone())
    }
}

/// Makes the test of an attribute and the pieces of its value.
fn make_item(attr: &[u8], pieces: &Vec<Vec<u8>>) -> (r: Result<LdapFilter, LdapFilterError>)
    requires
        pieces.len() >= 1,
    ensures
        parsed_model(r) == item(attr@, pieces.deep_view()),
{
    let a = match text_of(&slice_to_vec(attr)) {
        Some(a) => a,
        None => {
            return Err(LdapFilterError::InvalidUtf8);
        },
    };
    let texts = match piece_texts(pieces) {
        Some(t) => t,
        None => {
            return Err(LdapFilterError::InvalidUtf8);
        },
    };
    let n = texts.len();
    if n == 1 {
        Ok(LdapFilter::Equality(a, text_at(&texts, 0)))
    } else if n == 2 && texts[0].as_str().unicode_len() == 0 && texts[1].as_str().unicode_len()
        == 0 {
        Ok(LdapFilter::Present(a))
    } else {
        let initial = non_empty_at(&texts, 0);
        let final_ = non_empty_at(&texts, n - 1);
        let mut any: Vec<String> = Vec::new();
        let mut i: usize = 1;
        while i < n - 1
            invariant
                1 <= i <= n - 1,
                n == texts.len(),
                any.len() == i - 1,
                forall|j: int| 0 <= j < any.len() ==> (#[trigger] any@[j])@ == texts@[j + 1]@,
            decreases n - i,
        {
            any.push(text_at(&texts, i));
            i += 1;
        }
        proof {
            assert(any.deep_view() =~= texts.deep_view().subrange(1, n - 1));
        }
        Ok(LdapFilter::Substring(a, LdapSubstringFilter { initial, any, final_ }))
    }
}

/// Reads the test that begins at `pos`.
fn read_item(s: &[u8], pos: usize) -> (r: Result<(LdapFilter, usize), LdapFilterError>)
    requires
        pos <= s@.len(),
    ensures
        read_model(r) == item_at(s@, pos as int),
        r matches Ok((_, close)) ==> pos < close < s@.len(),
{
    let end = find_attr_end(s, pos);
    if end >= s.len() {
        return Err(LdapFilterError::Unbalanced);
    }
    if end == pos || s[end] == OPEN || s[end] == CLOSE {
        return Err(LdapFilterError::Malformed);
    }
    if s[end] != EQUALS {
        return Err(LdapFilterError::Unsupported);
    }
    let (pieces, close) = scan_value(s, end + 1)?;
    proof {
        lemma_value_scan_pieces(s@, end + 1, Seq::empty(), Seq::empty());
    }
    let f = make_item(slice_subrange(s, pos, end), &pieces)?;
    Ok((f, close))
}

/// A value has at least one piece.
pub proof fn lemma_value_scan_pieces(s: Seq<u8>, pos: int, done: Seq<Seq<u8>>, cur: Seq<u8>)
    ensures
        value_scan(s, pos, done, cur) matches Ok((pieces, _)) ==> pieces.len() > done.len(),
    decreases s.len() - pos,
{
    if pos < 0 || pos >= s.len() {
    } else if s[pos] == CLOSE {
    } else if s[pos] == OPEN {
    } else if s[pos] == STAR {
        lemma_value_scan_pieces(s, pos + 1, done.push(cur), Seq::empty());
    } else if s[pos] == BACKSLASH {
        if pos + 2 < s.len() {
            match (hex_value(s[pos + 1]), hex_value(s[pos + 2])) {
                (Some(hi), Some(lo)) => {
                    lemma_value_scan_pieces(s, pos + 3, done, cur.push((hi * 16 + lo) as u8));
                },
                _ => {},
            }
        }
    } else {
        lemma_value_scan_pieces(s, pos + 1, done, cur.push(s[pos]));
    }
}

/// Steps over the closing parenthesis that must stand at `pos`.
fn close_filter(s: &[u8], f: LdapFilter, pos: usize) -> (r: Result<
    (LdapFilter, usize),
    LdapFilterError,
>)
    ensures
        read_model(r) == closed(s@, f.deep_view(), pos as int),
        r matches Ok((_, end)) ==> pos < end <= s@.len(),
{
    if pos < s.len() && s[pos] == CLOSE {
        Ok((f, pos + 1))
    } else {
        Err(LdapFilterError::Unbalanced)
    }
}

/// Reads the filters of a group, of which the first begins at `pos`.
fn read_filters(s: &[u8], pos: usize) -> (r: Result<(Vec<LdapFilter>, usize), LdapFilterError>)
    requires
        pos <= s@.len(),
    ensures
        match r {
            Ok((list, end)) => filters_at(s@, pos as int, Seq::empty()) == Ok::<
                (Seq<LdapFilterModel>, int),
                LdapFilterError,
            >((list.deep_view(), end as int)) && pos <= end <= s@.len(),
            Err(e) => filters_at(s@, pos as int, Seq::empty()) == Err::<
                (Seq<LdapFilterModel>, int),
                LdapFilterError,
            >(e),
        },
    decreases s@.len() - pos, 1nat,
{
    let mut out: Vec<LdapFilter> = Vec::new();
    let mut i: usize = pos;
    let ghost goal = filters_at(s@, pos as int, Seq::empty());
    proof {
        assert(out.deep_view() =~= Seq::<LdapFilterModel>::empty());
    }
    while i < s.len() && s[i] == OPEN
        invariant
            pos <= i <= s@.len(),
            goal == filters_at(s@, pos as int, Seq::empty()),
            goal == filters_at(s@, i as int, out.deep_view()),
        decreases s@.len() - i,
    {
        let ghost before = out.deep_view();
        let (f, end) = read_filter(s, i)?;
        out.push(f);
        proof {
            assert(out.deep_view() =~= before.push(f.deep_view()));
        }
        i = end;
    }
    Ok((out, i))
}

/// Reads the filter that begins at `pos`.
fn read_filter(s: &[u8], pos: usize) -> (r: Result<(LdapFilter, usize), LdapFilterError>)
    requires
        pos <= s@.len(),
    ensures
        read_model(r) == filter_at(s@, pos as int),
        r matches Ok((_, end)) ==> pos < end <= s@.len(),
    decreases s@.len() - pos, 0nat,
{
    if s.len() - pos <= 1 || s[pos] != OPEN {
        return Err(LdapFilterError::Unbalanced);
    }
    let kind = s[pos + 1];
    if kind == AMPERSAND || kind == PIPE {
        if s.len() - pos <= 2 || s[pos + 2] != OPEN {
            return Err(LdapFilterError::EmptyGroup);
        }
        let (list, end) = read_filters(s, pos + 2)?;
        let f = if kind == AMPERSAND {
            LdapFilter::And(list)
        } else {
            LdapFilter::Or(list)
        };
        proof {
            if kind == AMPERSAND {
                assert(filter_model(f)->And_0 =~= list.deep_view());
            } else {
                assert(filter_model(f)->Or_0 =~= list.deep_view());
            }
        }
        close_filter(s, f, end)
    } else if kind == BANG {
        let (f, end) = read_filter(s, pos + 2)?;
        close_filter(s, LdapFilter::Not(Box::new(f)), end)
    } else {
        let (f, close) = read_item(s, pos + 1)?;
        close_filter(s, f, close)
    }
}

/// Parses a filter from the octets of its text.
pub fn parse_filter_octets(s: &[u8]) -> (r: Result<LdapFilter, LdapFilterError>)
    ensures
        parsed_model(r) == parse_filter(s@),
{
    let (f, end) = read_filter(s, 0)?;
    if end == s.len() {
        Ok(f)
    } else {
        Err(LdapFilterError::TrailingGarbage)
    }
}

/// Parses a filter from its text.
pub fn parse_ldap_filter_str(f: &str) -> (r: Result<LdapFilter, LdapFilterError>)
    ensures
        parsed_model(r) == parse_filter(encode_utf8(f@)),
{
    parse_filter_octets(f.as_bytes())
}

} // verus!
