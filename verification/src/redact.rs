//! Renderings for logs that keep secrets out.
//!
//! The types that hold a password, or a value that may be one, have no `Debug`.
//! Each has `debug_string` instead, whose result is stated as a function of what
//! is not secret: a password, the values of a `userPassword` attribute and the
//! value of an extended request never reach the text.

use crate::proto::{
    LdapAddRequest, LdapAddRequestModel, LdapBindCred, LdapBindRequest, LdapBindRequestModel,
    LdapExtendedRequest, LdapExtendedRequestModel, LdapModify, LdapModifyModel,
    LdapModifyRequest, LdapModifyRequestModel, LdapModifyType, LdapMsg, LdapMsgModel, LdapOp,
    LdapOpModel, LdapPartialAttribute, LdapPartialAttributeModel, LdapPasswordModifyRequest,
    LdapPasswordModifyRequestModel, LdapSearchResultEntry, LdapSearchResultEntryModel,
};
use crate::prim::same_text;
use vstd::prelude::*;
use vstd::string::StringExecFns;

verus! {

/// The attribute type whose values are passwords.
pub const USER_PASSWORD: &'static str = "userPassword";

/// How the standard library renders a text for debugging: in quotes, with escapes.
pub uninterp spec fn debug_text(text: Seq<char>) -> Seq<char>;

/// How the standard library renders a list of octet strings for debugging.
pub uninterp spec fn debug_values(vals: Seq<Seq<u8>>) -> Seq<char>;

/// The `Debug` rendering of a `str` by the standard library, through
/// `format!("{:?}", ..)`. Claimed without proof: it depends on the text alone.
#[verifier::external_body]
fn format_text(text: &str) -> (r: String)
    ensures
        r@ == debug_text(text@),
{
    format!("{:?}", text)
}

/// The `Debug` rendering of a `Vec<Vec<u8>>` by the standard library, through
/// `format!("{:?}", ..)`. Claimed without proof: it depends on the octets alone.
#[verifier::external_body]
fn format_values(vals: &Vec<Vec<u8>>) -> (r: String)
    ensures
        r@ == debug_values(vals.deep_view()),
{
    format!("{:?}", vals)
}

/// How the standard library writes a number in decimal.
pub uninterp spec fn debug_number(value: i64) -> Seq<char>;

/// The decimal rendering of an `i64` by the standard library, through
/// `format!("{}", ..)`. Claimed without proof: it depends on the number alone.
#[verifier::external_body]
fn format_number(value: i64) -> (r: String)
    ensures
        r@ == debug_number(value),
{
    format!("{}", value)
}

/// Renderings set one behind the other, with a comma and a blank between two.
pub open spec fn joined(items: Seq<Seq<char>>) -> Seq<char>
    decreases items.len(),
{
    if items.len() == 0 {
        Seq::empty()
    } else if items.len() == 1 {
        items[0]
    } else {
        joined(items.drop_last()) + ", "@ + items.last()
    }
}

/// How a list of renderings is rendered: in square brackets, with commas.
pub open spec fn debug_list(items: Seq<Seq<char>>) -> Seq<char> {
    "["@ + joined(items) + "]"@
}

/// Renders a list of renderings.
pub fn bracketed(items: &Vec<String>) -> (r: String)
    ensures
        r@ == debug_list(items.deep_view()),
{
    let ghost m = items.deep_view();
    let mut out = String::from_str("[");
    let mut i: usize = 0;
    proof {
        assert(m.take(0) =~= Seq::<Seq<char>>::empty());
        assert(out@ =~= "["@ + joined(m.take(0)));
    }
    while i < items.len()
        invariant
            i <= items.len(),
            m == items.deep_view(),
            out@ == "["@ + joined(m.take(i as int)),
        decreases items.len() - i,
    {
        let ghost before = out@;
        proof {
            assert(m.take(i + 1).drop_last() =~= m.take(i as int));
            assert(m.take(i + 1).last() == items@[i as int]@);
        }
        if i > 0 {
            out.append(", ");
        }
        out.append(items[i].as_str());
        proof {
            let part = joined(m.take(i as int));
            if i == 0 {
                assert(part =~= Seq::<char>::empty());
                assert(out@ =~= "["@ + joined(m.take(i + 1)));
            } else {
                assert(out@ =~= "["@ + (part + ", "@ + items@[i as int]@));
            }
        }
        i += 1;
    }
    proof {
        assert(m.take(items.len() as int) =~= m);
    }
    out.append("]");
    out
}

/// How an optional text is rendered.
pub open spec fn debug_optional_text(text: Option<Seq<char>>) -> Seq<char> {
    match text {
        Some(s) => "Some("@ + debug_text(s) + ")"@,
        None => "None"@,
    }
}

/// How an optional password is rendered: whether it is there, and no more.
pub open spec fn debug_hidden(there: bool) -> Seq<char> {
    if there {
        "Some(\"********\")"@
    } else {
        "None"@
    }
}

impl LdapBindCred {
    /// The rendering of a credential. It is the same for every password.
    pub open spec fn spec_debug_string() -> Seq<char> {
        "Simple(\"********\")"@
    }

    /// Renders the credential without its password.
    pub fn debug_string(&self) -> (r: String)
        ensures
            r@ == LdapBindCred::spec_debug_string(),
    {
        String::from_str("Simple(\"********\")")
    }
}

impl LdapPartialAttribute {
    /// The rendering of an attribute. The values of `userPassword` are left out.
    pub open spec fn spec_debug_string(m: LdapPartialAttributeModel) -> Seq<char> {
        "LdapPartialAttribute { atype: "@ + debug_text(m.atype) + ", vals: "@ + (if m.atype
            == USER_PASSWORD@ {
            "[\"********\"]"@
        } else {
            debug_values(m.vals)
        }) + " }"@
    }

    /// Renders the attribute, without its values where it is `userPassword`.
    pub fn debug_string(&self) -> (r: String)
        ensures
            r@ == LdapPartialAttribute::spec_debug_string(self.deep_view()),
    {
        let mut out = String::from_str("LdapPartialAttribute { atype: ");
        out.append(format_text(self.atype.as_str()).as_str());
        out.append(", vals: ");
        if same_text(self.atype.as_str(), USER_PASSWORD) {
            out.append("[\"********\"]");
        } else {
            out.append(format_values(&self.vals).as_str());
        }
        out.append(" }");
        out
    }
}

impl LdapExtendedRequest {
    /// The rendering of an extended request. Of the value it says only
    /// whether there is one.
    pub open spec fn spec_debug_string(m: LdapExtendedRequestModel) -> Seq<char> {
        "LdapExtendedRequest { name: "@ + debug_text(m.name) + ", value: "@ + (if m.value is Some {
            "Some(\"vec![...]\")"@
        } else {
            "None"@
        }) + " }"@
    }

    /// Renders the request without the content of its value.
    pub fn debug_string(&self) -> (r: String)
        ensures
            r@ == LdapExtendedRequest::spec_debug_string(self.deep_view()),
    {
        let mut out = String::from_str("LdapExtendedRequest { name: ");
        out.append(format_text(self.name.as_str()).as_str());
        out.append(", value: ");
        if self.value.is_some() {
            out.append("Some(\"vec![...]\")");
        } else {
            out.append("None");
        }
        out.append(" }");
        out
    }
}

impl LdapPasswordModifyRequest {
    /// The rendering of a password modify request. Of each password it says
    /// only whether there is one.
    pub open spec fn spec_debug_string(m: LdapPasswordModifyRequestModel) -> Seq<char> {
        "LdapPasswordModifyRequest { user_identity: "@ + debug_optional_text(m.user_identity)
            + ", old_password: "@ + debug_hidden(m.old_password is Some) + ", new_password: "@
            + debug_hidden(m.new_password is Some) + " }"@
    }

    /// Renders the request without its passwords.
    pub fn debug_string(&self) -> (r: String)
        ensures
            r@ == LdapPasswordModifyRequest::spec_debug_string(self.deep_view()),
    {
        let mut out = String::from_str("LdapPasswordModifyRequest { user_identity: ");
        match &self.user_identity {
            Some(s) => {
                out.append("Some(");
                out.append(format_text(s.as_str()).as_str());
                out.append(")");
            },
            None => {
                out.append("None");
            },
        }
        out.append(", old_password: ");
        if self.old_password.is_some() {
            out.append("Some(\"********\")");
        } else {
            out.append("None");
        }
        out.append(", new_password: ");
        if self.new_password.is_some() {
            out.append("Some(\"********\")");
        } else {
            out.append("None");
        }
        out.append(" }");
        out
    }
}

impl LdapPartialAttribute {
    /// The renderings of a list of attributes.
    pub open spec fn spec_debug_list(list: Seq<LdapPartialAttributeModel>) -> Seq<char> {
        debug_list(
            list.map_values(
                |a: LdapPartialAttributeModel| LdapPartialAttribute::spec_debug_string(a),
            ),
        )
    }

    /// Renders a list of attributes, each without the values of `userPassword`.
    pub fn debug_list_string(list: &Vec<LdapPartialAttribute>) -> (r: String)
        ensures
            r@ == LdapPartialAttribute::spec_debug_list(list.deep_view()),
    {
        let mut items: Vec<String> = Vec::new();
        let mut i: usize = 0;
        while i < list.len()
            invariant
                i <= list.len(),
                items.len() == i,
                forall|j: int|
                    0 <= j < i ==> (#[trigger] items@[j])@
                        == LdapPartialAttribute::spec_debug_string(list@[j].deep_view()),
            decreases list.len() - i,
        {
            items.push(list[i].debug_string());
            i += 1;
        }
        proof {
            assert(items.deep_view() =~= list.deep_view().map_values(
                |a: LdapPartialAttributeModel| LdapPartialAttribute::spec_debug_string(a),
            ));
        }
        bracketed(&items)
    }
}

impl LdapBindRequest {
    /// The rendering of a bind request. The password is left out.
    pub open spec fn spec_debug_string(m: LdapBindRequestModel) -> Seq<char> {
        "LdapBindRequest { dn: "@ + debug_text(m.dn) + ", cred: "@
            + LdapBindCred::spec_debug_string() + " }"@
    }

    /// Renders the bind request without its password.
    pub fn debug_string(&self) -> (r: String)
        ensures
            r@ == LdapBindRequest::spec_debug_string(self.deep_view()),
    {
        let mut out = String::from_str("LdapBindRequest { dn: ");
        out.append(format_text(self.dn.as_str()).as_str());
        out.append(", cred: ");
        out.append(self.cred.debug_string().as_str());
        out.append(" }");
        out
    }
}

impl LdapSearchResultEntry {
    /// The rendering of a search result entry. The values of `userPassword`
    /// are left out.
    pub open spec fn spec_debug_string(m: LdapSearchResultEntryModel) -> Seq<char> {
        "LdapSearchResultEntry { dn: "@ + debug_text(m.dn) + ", attributes: "@
            + LdapPartialAttribute::spec_debug_list(m.attributes) + " }"@
    }

    /// Renders the entry without the values of `userPassword`.
    pub fn debug_string(&self) -> (r: String)
        ensures
            r@ == LdapSearchResultEntry::spec_debug_string(self.deep_view()),
    {
        let mut out = String::from_str("LdapSearchResultEntry { dn: ");
        out.append(format_text(self.dn.as_str()).as_str());
        out.append(", attributes: ");
        out.append(LdapPartialAttribute::debug_list_string(&self.attributes).as_str());
        out.append(" }");
        out
    }
}

impl LdapAddRequest {
    /// The rendering of an add request. The values of `userPassword` are left out.
    pub open spec fn spec_debug_string(m: LdapAddRequestModel) -> Seq<char> {
        "LdapAddRequest { dn: "@ + debug_text(m.dn) + ", attributes: "@
            + LdapPartialAttribute::spec_debug_list(m.attributes) + " }"@
    }

    /// Renders the add request without the values of `userPassword`.
    pub fn debug_string(&self) -> (r: String)
        ensures
            r@ == LdapAddRequest::spec_debug_string(self.deep_view()),
    {
        let mut out = String::from_str("LdapAddRequest { dn: ");
        out.append(format_text(self.dn.as_str()).as_str());
        out.append(", attributes: ");
        out.append(LdapPartialAttribute::debug_list_string(&self.attributes).as_str());
        out.append(" }");
        out
    }
}

impl LdapModifyType {
    /// The name of a kind of change.
    pub open spec fn spec_name(self) -> Seq<char> {
        match self {
            LdapModifyType::Add => "Add"@,
            LdapModifyType::Delete => "Delete"@,
            LdapModifyType::Replace => "Replace"@,
        }
    }

    /// The name of a kind of change.
    pub fn name(self) -> (r: &'static str)
        ensures
            r@ == self.spec_name(),
    {
        match self {
            LdapModifyType::Add => "Add",
            LdapModifyType::Delete => "Delete",
            LdapModifyType::Replace => "Replace",
        }
    }
}

impl LdapModify {
    /// The rendering of a change. The values of `userPassword` are left out.
    pub open spec fn spec_debug_string(m: LdapModifyModel) -> Seq<char> {
        "LdapModify { operation: "@ + m.operation.spec_name() + ", modification: "@
            + LdapPartialAttribute::spec_debug_string(m.modification) + " }"@
    }

    /// The renderings of a list of changes.
    pub open spec fn spec_debug_list(list: Seq<LdapModifyModel>) -> Seq<char> {
        debug_list(list.map_values(|c: LdapModifyModel| LdapModify::spec_debug_string(c)))
    }

    /// Renders the change without the values of `userPassword`.
    pub fn debug_string(&self) -> (r: String)
        ensures
            r@ == LdapModify::spec_debug_string(self.deep_view()),
    {
        let mut out = String::from_str("LdapModify { operation: ");
        out.append(self.operation.name());
        out.append(", modification: ");
        out.append(self.modification.debug_string().as_str());
        out.append(" }");
        out
    }

    /// Renders a list of changes, each without the values of `userPassword`.
    pub fn debug_list_string(list: &Vec<LdapModify>) -> (r: String)
        ensures
            r@ == LdapModify::spec_debug_list(list.deep_view()),
    {
        let mut items: Vec<String> = Vec::new();
        let mut i: usize = 0;
        while i < list.len()
            invariant
                i <= list.len(),
                items.len() == i,
                forall|j: int|
                    0 <= j < i ==> (#[trigger] items@[j])@ == LdapModify::spec_debug_string(
                        list@[j].deep_view(),
                    ),
            decreases list.len() - i,
        {
            items.push(list[i].debug_string());
            i += 1;
        }
        proof {
            assert(items.deep_view() =~= list.deep_view().map_values(
                |c: LdapModifyModel| LdapModify::spec_debug_string(c),
            ));
        }
        bracketed(&items)
    }
}

impl LdapModifyRequest {
    /// The rendering of a modify request. The values of `userPassword` are left out.
    pub open spec fn spec_debug_string(m: LdapModifyRequestModel) -> Seq<char> {
        "LdapModifyRequest { dn: "@ + debug_text(m.dn) + ", changes: "@
            + LdapModify::spec_debug_list(m.changes) + " }"@
    }

    /// Renders the modify request without the values of `userPassword`.
    pub fn debug_string(&self) -> (r: String)
        ensures
            r@ == LdapModifyRequest::spec_debug_string(self.deep_view()),
    {
        let mut out = String::from_str("LdapModifyRequest { dn: ");
        out.append(format_text(self.dn.as_str()).as_str());
        out.append(", changes: ");
        out.append(LdapModify::debug_list_string(&self.changes).as_str());
        out.append(" }");
        out
    }
}

impl LdapOp {
    /// The rendering of an operation. An operation that can hold a secret is
    /// rendered in full, with the secret left out, and so are a delete and an
    /// abandon request. Of any other operation only the name is given, with two
    /// dots in place of what it holds: each of them has a `Debug` of its own.
    pub open spec fn spec_debug_string(m: LdapOpModel) -> Seq<char> {
        match m {
            LdapOpModel::BindRequest(x) => "BindRequest("@ + LdapBindRequest::spec_debug_string(x)
                + ")"@,
            LdapOpModel::BindResponse(_) => "BindResponse(..)"@,
            LdapOpModel::UnbindRequest => "UnbindRequest"@,
            LdapOpModel::SearchRequest(_) => "SearchRequest(..)"@,
            LdapOpModel::SearchResultEntry(x) => "SearchResultEntry("@
                + LdapSearchResultEntry::spec_debug_string(x) + ")"@,
            LdapOpModel::SearchResultDone(_) => "SearchResultDone(..)"@,
            LdapOpModel::ModifyRequest(x) => "ModifyRequest("@
                + LdapModifyRequest::spec_debug_string(x) + ")"@,
            LdapOpModel::ModifyResponse(_) => "ModifyResponse(..)"@,
            LdapOpModel::AddRequest(x) => "AddRequest("@ + LdapAddRequest::spec_debug_string(x)
                + ")"@,
            LdapOpModel::AddResponse(_) => "AddResponse(..)"@,
            LdapOpModel::DelRequest(dn) => "DelRequest("@ + debug_text(dn) + ")"@,
            LdapOpModel::DelResponse(_) => "DelResponse(..)"@,
            LdapOpModel::AbandonRequest(id) => "AbandonRequest("@ + debug_number(id as i64)
                + ")"@,
            LdapOpModel::ExtendedRequest(x) => "ExtendedRequest("@
                + LdapExtendedRequest::spec_debug_string(x) + ")"@,
            LdapOpModel::ExtendedResponse(_) => "ExtendedResponse(..)"@,
            LdapOpModel::IntermediateResponse(_) => "IntermediateResponse(..)"@,
        }
    }

    /// Renders the operation without its secrets.
    pub fn debug_string(&self) -> (r: String)
        ensures
            r@ == LdapOp::spec_debug_string(self.deep_view()),
    {
        match self {
            LdapOp::BindRequest(x) => wrapped("BindRequest(", x.debug_string()),
            LdapOp::BindResponse(_) => String::from_str("BindResponse(..)"),
            LdapOp::UnbindRequest => String::from_str("UnbindRequest"),
            LdapOp::SearchRequest(_) => String::from_str("SearchRequest(..)"),
            LdapOp::SearchResultEntry(x) => wrapped("SearchResultEntry(", x.debug_string()),
            LdapOp::SearchResultDone(_) => String::from_str("SearchResultDone(..)"),
            LdapOp::ModifyRequest(x) => wrapped("ModifyRequest(", x.debug_string()),
            LdapOp::ModifyResponse(_) => String::from_str("ModifyResponse(..)"),
            LdapOp::AddRequest(x) => wrapped("AddRequest(", x.debug_string()),
            LdapOp::AddResponse(_) => String::from_str("AddResponse(..)"),
            LdapOp::DelRequest(dn) => wrapped("DelRequest(", format_text(dn.as_str())),
            LdapOp::DelResponse(_) => String::from_str("DelResponse(..)"),
            LdapOp::AbandonRequest(id) => wrapped("AbandonRequest(", format_number(*id as i64)),
            LdapOp::ExtendedRequest(x) => wrapped("ExtendedRequest(", x.debug_string()),
            LdapOp::ExtendedResponse(_) => String::from_str("ExtendedResponse(..)"),
            LdapOp::IntermediateResponse(_) => String::from_str("IntermediateResponse(..)"),
        }
    }
}

/// A rendering behind a name and an opening bracket, with the closing bracket.
fn wrapped(head: &str, inner: String) -> (r: String)
    ensures
        r@ == head@ + inner@ + ")"@,
{
    let mut out = String::from_str(head);
    out.append(inner.as_str());
    out.append(")");
    out
}

impl LdapMsg {
    /// The rendering of a message: its id, its operation as
    /// [`LdapOp::spec_debug_string`] gives it, and whether it has controls.
    pub open spec fn spec_debug_string(m: LdapMsgModel) -> Seq<char> {
        "LdapMsg { msgid: "@ + debug_number(m.msgid as i64) + ", op: "@ + LdapOp::spec_debug_string(
            m.op,
        ) + ", ctrl: "@ + (if m.ctrl.len() == 0 {
            "[]"@
        } else {
            "[..]"@
        }) + " }"@
    }

    /// Renders the message without its secrets.
    pub fn debug_string(&self) -> (r: String)
        ensures
            r@ == LdapMsg::spec_debug_string(self.deep_view()),
    {
        let mut out = String::from_str("LdapMsg { msgid: ");
        out.append(format_number(self.msgid as i64).as_str());
        out.append(", op: ");
        out.append(self.op.debug_string().as_str());
        out.append(", ctrl: ");
        if self.ctrl.len() == 0 {
            out.append("[]");
        } else {
            out.append("[..]");
        }
        out.append(" }");
        out
    }
}

/// Two bind requests for one DN render alike, whatever their passwords.
pub proof fn law_bind_request_password_hidden(a: LdapBindRequestModel, b: LdapBindRequestModel)
    requires
        a.dn == b.dn,
    ensures
        LdapBindRequest::spec_debug_string(a) == LdapBindRequest::spec_debug_string(b),
{
}

/// Two `userPassword` attributes render alike, whatever their values.
pub proof fn law_user_password_hidden(a: LdapPartialAttributeModel, b: LdapPartialAttributeModel)
    requires
        a.atype == USER_PASSWORD@,
        b.atype == USER_PASSWORD@,
    ensures
        LdapPartialAttribute::spec_debug_string(a) == LdapPartialAttribute::spec_debug_string(b),
{
}

/// Two extended requests with one name render alike where both have a value,
/// whatever the values hold.
pub proof fn law_extended_value_hidden(a: LdapExtendedRequestModel, b: LdapExtendedRequestModel)
    requires
        a.name == b.name,
        a.value is Some,
        b.value is Some,
    ensures
        LdapExtendedRequest::spec_debug_string(a) == LdapExtendedRequest::spec_debug_string(b),
{
}

/// Two password modify requests for one user render alike where they have
/// the same passwords present, whatever the passwords are.
pub proof fn law_modify_passwords_hidden(
    a: LdapPasswordModifyRequestModel,
    b: LdapPasswordModifyRequestModel,
)
    requires
        a.user_identity == b.user_identity,
        a.old_password is Some <==> b.old_password is Some,
        a.new_password is Some <==> b.new_password is Some,
    ensures
        LdapPasswordModifyRequest::spec_debug_string(a)
            == LdapPasswordModifyRequest::spec_debug_string(b),
{
}

} // verus!
