use ldap3_proto::proto::{
    LdapAddRequest, LdapBindCred, LdapBindRequest, LdapBindResponse, LdapControl,
    LdapExtendedRequest, LdapModify, LdapModifyRequest, LdapModifyType, LdapMsg, LdapOp,
    LdapPartialAttribute, LdapPasswordModifyRequest, LdapSearchResultEntry,
};

#[test]
fn bind_password_is_hidden() {
    let cred = LdapBindCred::Simple("hunter2".to_string());
    let text = cred.debug_string();
    assert_eq!(text, "Simple(\"********\")");
    assert!(!text.contains("hunter2"));
}

#[test]
fn user_password_values_are_hidden() {
    let one = LdapPartialAttribute {
        atype: "userPassword".to_string(),
        vals: vec![b"hunter2".to_vec()],
    };
    assert_eq!(
        one.debug_string(),
        "LdapPartialAttribute { atype: \"userPassword\", vals: [\"********\"] }"
    );
    let two = LdapPartialAttribute {
        atype: "userPassword".to_string(),
        vals: vec![vec![104, 105], vec![106]],
    };
    assert_eq!(two.debug_string(), one.debug_string());
    assert!(!two.debug_string().contains("104"));
}

#[test]
fn other_attributes_are_shown() {
    let a = LdapPartialAttribute {
        atype: "cn".to_string(),
        vals: vec![vec![100, 101], vec![]],
    };
    assert_eq!(
        a.debug_string(),
        "LdapPartialAttribute { atype: \"cn\", vals: [[100, 101], []] }"
    );
}

#[test]
fn extended_request_value_is_hidden() {
    let with = LdapExtendedRequest {
        name: "1.2.3".to_string(),
        value: Some(vec![115, 101, 99, 114, 101, 116]),
    };
    assert_eq!(
        with.debug_string(),
        "LdapExtendedRequest { name: \"1.2.3\", value: Some(\"vec![...]\") }"
    );
    assert!(!with.debug_string().contains("115"));
    let without = LdapExtendedRequest {
        name: "1.2.3".to_string(),
        value: None,
    };
    assert_eq!(
        without.debug_string(),
        "LdapExtendedRequest { name: \"1.2.3\", value: None }"
    );
}

#[test]
fn modify_passwords_are_hidden() {
    let r = LdapPasswordModifyRequest {
        user_identity: Some("william".to_string()),
        old_password: Some("abcd".to_string()),
        new_password: None,
    };
    let text = r.debug_string();
    assert_eq!(
        text,
        "LdapPasswordModifyRequest { user_identity: Some(\"william\"), old_password: Some(\"********\"), new_password: None }"
    );
    assert!(!text.contains("abcd"));
    let r = LdapPasswordModifyRequest {
        user_identity: None,
        old_password: None,
        new_password: Some("dcba".to_string()),
    };
    let text = r.debug_string();
    assert_eq!(
        text,
        "LdapPasswordModifyRequest { user_identity: None, old_password: None, new_password: Some(\"********\") }"
    );
    assert!(!text.contains("dcba"));
}

fn password() -> LdapPartialAttribute {
    LdapPartialAttribute {
        atype: "userPassword".to_string(),
        vals: vec![b"hunter2".to_vec()],
    }
}

fn name() -> LdapPartialAttribute {
    LdapPartialAttribute {
        atype: "cn".to_string(),
        vals: vec![vec![104]],
    }
}

#[test]
fn bind_request_hides_its_password() {
    let r = LdapBindRequest {
        dn: "cn=admin".to_string(),
        cred: LdapBindCred::Simple("hunter2".to_string()),
    };
    assert_eq!(
        r.debug_string(),
        "LdapBindRequest { dn: \"cn=admin\", cred: Simple(\"********\") }"
    );
    let msg = LdapMsg::new(7, LdapOp::BindRequest(r));
    assert_eq!(
        msg.debug_string(),
        "LdapMsg { msgid: 7, op: BindRequest(LdapBindRequest { dn: \"cn=admin\", cred: Simple(\"********\") }), ctrl: [] }"
    );
    assert!(!msg.debug_string().contains("hunter2"));
}

#[test]
fn entries_and_add_requests_hide_password_values() {
    let e = LdapSearchResultEntry {
        dn: "cn=x".to_string(),
        attributes: vec![name(), password()],
    };
    assert_eq!(
        e.debug_string(),
        "LdapSearchResultEntry { dn: \"cn=x\", attributes: [LdapPartialAttribute { atype: \"cn\", vals: [[104]] }, LdapPartialAttribute { atype: \"userPassword\", vals: [\"********\"] }] }"
    );
    let a = LdapAddRequest {
        dn: "cn=x".to_string(),
        attributes: vec![password()],
    };
    assert_eq!(
        a.debug_string(),
        "LdapAddRequest { dn: \"cn=x\", attributes: [LdapPartialAttribute { atype: \"userPassword\", vals: [\"********\"] }] }"
    );
    let none = LdapAddRequest {
        dn: "".to_string(),
        attributes: vec![],
    };
    assert_eq!(none.debug_string(), "LdapAddRequest { dn: \"\", attributes: [] }");
    assert!(!LdapOp::SearchResultEntry(e).debug_string().contains("104, 117"));
    assert!(!LdapOp::AddRequest(a).debug_string().contains("104, 117"));
}

#[test]
fn modify_requests_hide_password_values() {
    let change = |operation, modification| LdapModify {
        operation,
        modification,
    };
    let r = LdapModifyRequest {
        dn: "cn=x".to_string(),
        changes: vec![
            change(LdapModifyType::Replace, password()),
            change(LdapModifyType::Add, name()),
            change(LdapModifyType::Delete, name()),
        ],
    };
    assert_eq!(
        r.debug_string(),
        "LdapModifyRequest { dn: \"cn=x\", changes: [LdapModify { operation: Replace, modification: LdapPartialAttribute { atype: \"userPassword\", vals: [\"********\"] } }, LdapModify { operation: Add, modification: LdapPartialAttribute { atype: \"cn\", vals: [[104]] } }, LdapModify { operation: Delete, modification: LdapPartialAttribute { atype: \"cn\", vals: [[104]] } }] }"
    );
    let op = LdapOp::ModifyRequest(r);
    assert!(op.debug_string().starts_with("ModifyRequest(LdapModifyRequest { dn"));
    assert!(!op.debug_string().contains("104, 117"));
}

#[test]
fn operations_render_by_name() {
    assert_eq!(LdapOp::UnbindRequest.debug_string(), "UnbindRequest");
    assert_eq!(
        LdapOp::DelRequest("cn=x".to_string()).debug_string(),
        "DelRequest(\"cn=x\")"
    );
    assert_eq!(LdapOp::AbandonRequest(-5).debug_string(), "AbandonRequest(-5)");
    assert_eq!(
        LdapOp::BindResponse(LdapBindResponse::new_success("ok")).debug_string(),
        "BindResponse(..)"
    );
    let ext = LdapOp::ExtendedRequest(LdapExtendedRequest {
        name: "1.2".to_string(),
        value: Some(vec![115]),
    });
    assert_eq!(
        ext.debug_string(),
        "ExtendedRequest(LdapExtendedRequest { name: \"1.2\", value: Some(\"vec![...]\") })"
    );
    let msg = LdapMsg::new_with_ctrls(
        2147483647,
        LdapOp::UnbindRequest,
        vec![LdapControl::SyncDone {
            cookie: None,
            refresh_deletes: false,
        }],
    );
    assert_eq!(
        msg.debug_string(),
        "LdapMsg { msgid: 2147483647, op: UnbindRequest, ctrl: [..] }"
    );
}
