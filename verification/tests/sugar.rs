use ldap3_proto::proto::{
    LdapExtendedRequest, LdapExtendedResponse, LdapPasswordModifyRequest,
    LdapPasswordModifyResponse, LdapResult, LdapResultCode, LdapWhoamiRequest,
    LdapWhoamiResponse,
};

#[test]
fn test_ldapserver_password_extop() {
    let mrq = LdapPasswordModifyRequest {
        user_identity: Some("william".to_string()),
        old_password: Some("abcd".to_string()),
        new_password: Some("dcba".to_string()),
    };

    let ler: LdapExtendedRequest = LdapExtendedRequest::from_password_modify(mrq.clone());
    let mrq_dec: LdapPasswordModifyRequest = LdapPasswordModifyRequest::try_from(&ler).unwrap();
    assert!(mrq == mrq_dec);

    let mrs = LdapPasswordModifyResponse {
        res: LdapResult {
            code: LdapResultCode::Success,
            matcheddn: "uid=william,dc=exmaple,dc=com".to_string(),
            message: "msg".to_string(),
            referral: vec![],
        },
        gen_password: Some("abcd".to_string()),
    };

    let ler: LdapExtendedResponse = LdapExtendedResponse::from_password_modify(mrs.clone());
    let mrs_dec: LdapPasswordModifyResponse = LdapPasswordModifyResponse::try_from(&ler).unwrap();
    assert!(mrs == mrs_dec);
}

#[test]
fn password_modify_request_with_fields_left_out() {
    let mrq = LdapPasswordModifyRequest {
        user_identity: None,
        old_password: None,
        new_password: Some("dcba".to_string()),
    };
    let ler = LdapExtendedRequest::from_password_modify(mrq.clone());
    assert_eq!(ler.name, "1.3.6.1.4.1.4203.1.11.1");
    assert_eq!(ler.value, Some(vec![0x30, 6, 0x82, 4, b'd', b'c', b'b', b'a']));
    assert!(LdapPasswordModifyRequest::try_from(&ler).unwrap() == mrq);
}

#[test]
fn password_modify_request_wants_its_oid_and_a_value() {
    let other = LdapExtendedRequest {
        name: "1.3.6.1.4.1.4203.1.11.3".to_string(),
        value: Some(vec![0x30, 0]),
    };
    assert!(LdapPasswordModifyRequest::try_from(&other).is_err());
    let empty = LdapExtendedRequest {
        name: "1.3.6.1.4.1.4203.1.11.1".to_string(),
        value: None,
    };
    assert!(LdapPasswordModifyRequest::try_from(&empty).is_err());
    let unknown_field = LdapExtendedRequest {
        name: "1.3.6.1.4.1.4203.1.11.1".to_string(),
        value: Some(vec![0x30, 3, 0x83, 1, b'x']),
    };
    assert!(LdapPasswordModifyRequest::try_from(&unknown_field).is_err());
}

#[test]
fn password_modify_response_without_generated_password() {
    let mrs = LdapPasswordModifyResponse {
        res: LdapResult {
            code: LdapResultCode::Success,
            matcheddn: "".to_string(),
            message: "".to_string(),
            referral: vec![],
        },
        gen_password: None,
    };
    let ler = LdapExtendedResponse::from_password_modify(mrs.clone());
    assert_eq!(ler.value, Some(vec![0x30, 0]));
    assert!(LdapPasswordModifyResponse::try_from(&ler).unwrap() == mrs);
}

#[test]
fn whoami_request_and_response() {
    let req = LdapExtendedRequest::from_whoami(LdapWhoamiRequest {});
    assert_eq!(req.name, "1.3.6.1.4.1.4203.1.11.3");
    assert_eq!(req.value, None);

    let resp = LdapExtendedResponse::new_success(None, Some("dn: cn=admin"));
    let who = LdapWhoamiResponse::try_from(&resp).unwrap();
    assert_eq!(who.dn, Some("dn: cn=admin".to_string()));

    let named = LdapExtendedResponse::new_success(Some("1.3.6.1.4.1.4203.1.11.3"), None);
    assert!(LdapWhoamiResponse::try_from(&named).is_err());

    let not_text = LdapExtendedResponse {
        value: Some(vec![0xff, 0xfe]),
        ..LdapExtendedResponse::new_success(None, None)
    };
    assert_eq!(LdapWhoamiResponse::try_from(&not_text).unwrap().dn, None);
}
