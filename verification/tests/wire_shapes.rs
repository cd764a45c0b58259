use ldap3_proto::ber::{BerClass, BerPayload, BerTag};
use ldap3_proto::codec::LdapCodec;
use ldap3_proto::proto::{
    LdapBindRequest, LdapBindResponse, LdapDerefAliases, LdapExtendedResponse, LdapFilter,
    LdapModifyType, LdapMsg, LdapOp, LdapResult, LdapResultCode, LdapSearchRequest,
    LdapSearchScope, LdapSubstringFilter, SyncRequestMode, SyncStateValue,
};
use ldap3_proto::wire::{encode, parse, Advance, ParseStep};

fn octets(s: &str) -> BerTag {
    BerTag::octet_string(s.as_bytes().to_vec())
}

fn number(id: u64, v: u8) -> BerTag {
    BerTag::primitive(BerClass::Universal, id, vec![v])
}

fn part(id: u64, s: &str) -> BerTag {
    BerTag::primitive(BerClass::Context, id, s.as_bytes().to_vec())
}

fn substring(parts: Vec<BerTag>) -> BerTag {
    BerTag::constructed(
        BerClass::Context,
        4,
        vec![octets("cn"), BerTag::sequence(parts)],
    )
}

#[test]
fn result_codes_have_their_numbers() {
    let table: [(i64, LdapResultCode); 40] = [
        (0, LdapResultCode::Success),
        (1, LdapResultCode::OperationsError),
        (2, LdapResultCode::ProtocolError),
        (3, LdapResultCode::TimeLimitExceeded),
        (4, LdapResultCode::SizeLimitExceeded),
        (5, LdapResultCode::CompareFalse),
        (6, LdapResultCode::CompareTrue),
        (7, LdapResultCode::AuthMethodNotSupported),
        (8, LdapResultCode::StrongerAuthRequired),
        (10, LdapResultCode::Referral),
        (11, LdapResultCode::AdminLimitExceeded),
        (12, LdapResultCode::UnavailableCriticalExtension),
        (13, LdapResultCode::ConfidentialityRequired),
        (14, LdapResultCode::SaslBindInProgress),
        (16, LdapResultCode::NoSuchAttribute),
        (17, LdapResultCode::UndefinedAttributeType),
        (18, LdapResultCode::InappropriateMatching),
        (19, LdapResultCode::ConstraintViolation),
        (20, LdapResultCode::AttributeOrValueExists),
        (21, LdapResultCode::InvalidAttributeSyntax),
        (32, LdapResultCode::NoSuchObject),
        (33, LdapResultCode::AliasProblem),
        (34, LdapResultCode::InvalidDNSyntax),
        (36, LdapResultCode::AliasDereferencingProblem),
        (48, LdapResultCode::InappropriateAuthentication),
        (49, LdapResultCode::InvalidCredentials),
        (50, LdapResultCode::InsufficentAccessRights),
        (51, LdapResultCode::Busy),
        (52, LdapResultCode::Unavailable),
        (53, LdapResultCode::UnwillingToPerform),
        (54, LdapResultCode::LoopDetect),
        (64, LdapResultCode::NamingViolation),
        (65, LdapResultCode::ObjectClassViolation),
        (66, LdapResultCode::NotAllowedOnNonLeaf),
        (67, LdapResultCode::NotALlowedOnRDN),
        (68, LdapResultCode::EntryAlreadyExists),
        (69, LdapResultCode::ObjectClassModsProhibited),
        (71, LdapResultCode::AffectsMultipleDSAs),
        (80, LdapResultCode::Other),
        (4096, LdapResultCode::EsyncRefreshRequired),
    ];
    for (n, c) in table {
        assert_eq!(c.code(), n);
        assert_eq!(LdapResultCode::try_from(n), Ok(c));
    }
    for n in [-1, 9, 15, 22, 31, 35, 37, 47, 55, 63, 70, 72, 79, 81, 4095, 4097] {
        assert_eq!(LdapResultCode::try_from(n), Err(()));
    }
}

#[test]
fn small_enumerations_have_their_numbers() {
    assert_eq!(LdapSearchScope::try_from(0), Ok(LdapSearchScope::Base));
    assert_eq!(LdapSearchScope::try_from(1), Ok(LdapSearchScope::OneLevel));
    assert_eq!(LdapSearchScope::try_from(2), Ok(LdapSearchScope::Subtree));
    assert_eq!(LdapSearchScope::try_from(3), Err(()));
    assert_eq!(LdapDerefAliases::try_from(3), Ok(LdapDerefAliases::Always));
    assert_eq!(LdapDerefAliases::try_from(4), Err(()));
    assert_eq!(LdapDerefAliases::FindingBaseObj.code(), 2);
    assert_eq!(LdapDerefAliases::InSearching.code(), 1);
    assert_eq!(LdapModifyType::try_from(0), Ok(LdapModifyType::Add));
    assert_eq!(LdapModifyType::try_from(1), Ok(LdapModifyType::Delete));
    assert_eq!(LdapModifyType::try_from(2), Ok(LdapModifyType::Replace));
    assert_eq!(LdapModifyType::try_from(3), Err(()));
    assert_eq!(SyncRequestMode::RefreshOnly.code(), 1);
    assert_eq!(SyncRequestMode::RefreshAndPersist.code(), 3);
    assert_eq!(SyncRequestMode::try_from(2), Err(()));
    assert_eq!(SyncStateValue::try_from(3), Ok(SyncStateValue::Delete));
    assert_eq!(SyncStateValue::try_from(-1), Err(()));
}

#[test]
fn referrals_are_written_and_not_read() {
    let res = LdapResult {
        code: LdapResultCode::Referral,
        matcheddn: "".to_string(),
        message: "".to_string(),
        referral: vec!["ldap://a".to_string(), "ldap://b".to_string()],
    };
    let tags = res.to_tags();
    assert_eq!(tags.len(), 4);
    assert_eq!(
        tags[3],
        BerTag::constructed(BerClass::Context, 3, vec![octets("ldap://a"), octets("ldap://b")])
    );
    let back = LdapResult::try_from_tag(&tags).unwrap();
    assert_eq!(back.code, LdapResultCode::Referral);
    assert!(back.referral.is_empty());
}

#[test]
fn result_wants_code_dn_and_message() {
    let good = vec![number(10, 49), octets("cn=x"), octets("no")];
    assert_eq!(
        LdapResult::try_from_tag(&good),
        Ok(LdapResult {
            code: LdapResultCode::InvalidCredentials,
            matcheddn: "cn=x".to_string(),
            message: "no".to_string(),
            referral: vec![],
        })
    );
    // the code as an INTEGER
    assert!(LdapResult::try_from_tag(&vec![number(2, 49), octets(""), octets("")]).is_err());
    // an unknown code
    assert!(LdapResult::try_from_tag(&vec![number(10, 9), octets(""), octets("")]).is_err());
    // no message
    assert!(LdapResult::try_from_tag(&vec![number(10, 0), octets("")]).is_err());
    // a DN that is no UTF-8
    assert!(LdapResult::try_from_tag(&vec![
        number(10, 0),
        BerTag::octet_string(vec![0xff]),
        octets("")
    ])
    .is_err());
}

#[test]
fn constructors_fill_the_result() {
    let ok = LdapBindResponse::new_success("welcome");
    assert_eq!(ok.res.code, LdapResultCode::Success);
    assert_eq!(ok.res.matcheddn, "");
    assert_eq!(ok.res.message, "welcome");
    assert!(ok.res.referral.is_empty());
    assert_eq!(ok.saslcreds, None);

    let bad = LdapBindResponse::new_invalidcredentials("cn=x", "nope");
    assert_eq!(bad.res.code, LdapResultCode::InvalidCredentials);
    assert_eq!(bad.res.matcheddn, "cn=x");
    assert_eq!(bad.res.message, "nope");
    assert_eq!(bad.saslcreds, None);

    let ext = LdapExtendedResponse::new_success(Some("1.2.3"), Some("value"));
    assert_eq!(ext.res.code, LdapResultCode::Success);
    assert_eq!(ext.res.message, "");
    assert_eq!(ext.name, Some("1.2.3".to_string()));
    assert_eq!(ext.value, Some(b"value".to_vec()));

    let err = LdapExtendedResponse::new_operationserror("broken");
    assert_eq!(err.res.code, LdapResultCode::OperationsError);
    assert_eq!(err.res.message, "broken");
    assert_eq!(err.name, None);
    assert_eq!(err.value, None);
}

#[test]
fn sasl_credentials_are_written_and_not_read() {
    let resp = LdapBindResponse {
        saslcreds: Some("token".to_string()),
        ..LdapBindResponse::new_success("")
    };
    let tags = resp.to_tags();
    assert_eq!(tags.len(), 4);
    assert_eq!(tags[3], octets("token"));
    assert_eq!(LdapBindResponse::try_from(&tags).unwrap().saslcreds, None);
}

#[test]
fn bind_request_wants_version_three() {
    let tags = |v: u8| vec![number(2, v), octets("cn=x"), part(0, "pw")];
    assert!(LdapBindRequest::try_from(&tags(3)).is_ok());
    assert!(LdapBindRequest::try_from(&tags(2)).is_err());
    assert!(LdapBindRequest::try_from(&tags(4)).is_err());
    // a SASL credential
    assert!(LdapBindRequest::try_from(&vec![
        number(2, 3),
        octets("cn=x"),
        BerTag::constructed(BerClass::Context, 3, vec![])
    ])
    .is_err());
}

#[test]
fn substring_parts_keep_their_order() {
    let sub = |initial: Option<&str>, any: Vec<&str>, final_: Option<&str>| {
        LdapFilter::Substring(
            "cn".to_string(),
            LdapSubstringFilter {
                initial: initial.map(|s| s.to_string()),
                any: any.into_iter().map(|s| s.to_string()).collect(),
                final_: final_.map(|s| s.to_string()),
            },
        )
    };
    assert_eq!(
        LdapFilter::try_from(&substring(vec![part(0, "a"), part(1, "b"), part(2, "c")])),
        Ok(sub(Some("a"), vec!["b"], Some("c")))
    );
    assert_eq!(
        LdapFilter::try_from(&substring(vec![part(2, "c")])),
        Ok(sub(None, vec![], Some("c")))
    );
    assert_eq!(
        LdapFilter::try_from(&substring(vec![part(0, "")])),
        Ok(sub(Some(""), vec![], None))
    );
    assert_eq!(
        LdapFilter::try_from(&substring(vec![])),
        Ok(sub(None, vec![], None))
    );
    // the initial part second
    assert!(LdapFilter::try_from(&substring(vec![part(1, "b"), part(0, "a")])).is_err());
    // the final part first of two
    assert!(LdapFilter::try_from(&substring(vec![part(2, "c"), part(1, "b")])).is_err());
    // two initial parts
    assert!(LdapFilter::try_from(&substring(vec![part(0, "a"), part(0, "a")])).is_err());
    // an unknown part
    assert!(LdapFilter::try_from(&substring(vec![part(3, "a")])).is_err());
    // a part that is no UTF-8
    assert!(LdapFilter::try_from(&substring(vec![BerTag::primitive(
        BerClass::Context,
        1,
        vec![0xff]
    )]))
    .is_err());
}

#[test]
fn substring_parts_are_written_as_context_tags() {
    let f = LdapFilter::Substring(
        "cn".to_string(),
        LdapSubstringFilter {
            initial: Some("a".to_string()),
            any: vec!["b".to_string(), "".to_string()],
            final_: Some("c".to_string()),
        },
    );
    assert_eq!(
        f.to_tag(),
        substring(vec![part(0, "a"), part(1, "b"), part(1, ""), part(2, "c")])
    );
    assert_eq!(
        encode(&f.to_tag()),
        vec![0xa4, 17, 4, 2, b'c', b'n', 0x30, 11, 0x80, 1, b'a', 0x81, 1, b'b', 0x81, 0, 0x82, 1, b'c']
    );
}

#[test]
fn filters_of_other_kinds_are_errors() {
    for id in [5u64, 6, 8, 9, 10] {
        let t = BerTag::constructed(BerClass::Context, id, vec![octets("a"), octets("b")]);
        assert!(LdapFilter::try_from(&t).is_err());
    }
    // not a context tag
    assert!(LdapFilter::try_from(&BerTag::primitive(BerClass::Universal, 7, b"cn".to_vec()))
        .is_err());
    // a negation of nothing
    assert!(LdapFilter::try_from(&BerTag::constructed(BerClass::Context, 2, vec![])).is_err());
    // a conjunction with a bad member
    assert!(LdapFilter::try_from(&BerTag::constructed(
        BerClass::Context,
        0,
        vec![part(7, "cn"), part(9, "x")]
    ))
    .is_err());
    assert_eq!(
        LdapFilter::try_from(&BerTag::constructed(BerClass::Context, 0, vec![])),
        Ok(LdapFilter::And(vec![]))
    );
}

fn search_tags(scope: BerTag, attrs: Option<BerTag>) -> Vec<BerTag> {
    let mut tags = vec![
        octets("dc=example"),
        scope,
        number(10, 3),
        number(2, 100),
        number(2, 30),
        number(1, 0xff),
        part(7, "objectClass"),
    ];
    if let Some(a) = attrs {
        tags.push(a);
    }
    tags
}

#[test]
fn search_request_is_read_field_by_field() {
    let tags = search_tags(number(10, 1), Some(BerTag::sequence(vec![octets("cn"), octets("sn")])));
    for strict in [true, false] {
        assert_eq!(
            LdapSearchRequest::try_from(&tags, strict),
            Ok(LdapSearchRequest {
                base: "dc=example".to_string(),
                scope: LdapSearchScope::OneLevel,
                aliases: LdapDerefAliases::Always,
                sizelimit: 100,
                timelimit: 30,
                typesonly: true,
                filter: LdapFilter::Present("objectClass".to_string()),
                attrs: vec!["cn".to_string(), "sn".to_string()],
            })
        );
    }
}

#[test]
fn lenient_search_request_takes_a_scope_of_any_tag() {
    let tags = search_tags(number(2, 2), Some(BerTag::sequence(vec![])));
    assert!(LdapSearchRequest::try_from(&tags, true).is_err());
    assert_eq!(
        LdapSearchRequest::try_from(&tags, false).unwrap().scope,
        LdapSearchScope::Subtree
    );
    let tags = search_tags(part(0, "\u{1}"), Some(BerTag::sequence(vec![])));
    assert!(LdapSearchRequest::try_from(&tags, true).is_err());
    assert_eq!(
        LdapSearchRequest::try_from(&tags, false).unwrap().scope,
        LdapSearchScope::OneLevel
    );
    // a scope out of range stays an error
    let tags = search_tags(number(10, 3), Some(BerTag::sequence(vec![])));
    assert!(LdapSearchRequest::try_from(&tags, true).is_err());
    assert!(LdapSearchRequest::try_from(&tags, false).is_err());
}

#[test]
fn lenient_search_request_takes_missing_attributes_as_none() {
    let missing = search_tags(number(10, 0), None);
    assert!(LdapSearchRequest::try_from(&missing, true).is_err());
    assert!(LdapSearchRequest::try_from(&missing, false).unwrap().attrs.is_empty());

    let not_a_list = search_tags(number(10, 0), Some(octets("cn")));
    assert!(LdapSearchRequest::try_from(&not_a_list, true).is_err());
    assert!(LdapSearchRequest::try_from(&not_a_list, false).unwrap().attrs.is_empty());

    let bad_member = search_tags(number(10, 0), Some(BerTag::sequence(vec![octets("cn"), number(2, 1)])));
    assert!(LdapSearchRequest::try_from(&bad_member, true).is_err());
    assert!(LdapSearchRequest::try_from(&bad_member, false).unwrap().attrs.is_empty());
}

#[test]
fn message_wants_two_or_three_fields() {
    let id = || number(2, 5);
    let op = || BerTag::primitive(BerClass::Application, 2, vec![]);
    let ctrl = || BerTag::constructed(BerClass::Context, 0, vec![]);
    assert!(LdapMsg::try_from(&BerTag::sequence(vec![id()]), false).is_err());
    assert!(LdapMsg::try_from(&BerTag::sequence(vec![id(), op()]), false).is_ok());
    assert!(LdapMsg::try_from(&BerTag::sequence(vec![id(), op(), ctrl()]), false).is_ok());
    assert!(LdapMsg::try_from(&BerTag::sequence(vec![id(), op(), ctrl(), ctrl()]), false).is_err());
    // a third field that holds no controls counts for none
    let odd = LdapMsg::try_from(&BerTag::sequence(vec![id(), op(), octets("x")]), false).unwrap();
    assert!(odd.ctrl.is_empty());
    // the id as an OCTET STRING
    assert!(LdapMsg::try_from(&BerTag::sequence(vec![octets("5"), op()]), false).is_err());
    // a primitive message
    assert!(LdapMsg::try_from(&BerTag::primitive(BerClass::Universal, 16, vec![]), false).is_err());
    // a SET
    assert!(LdapMsg::try_from(&BerTag::set(vec![id(), op()]), false).is_err());
}

#[test]
fn operation_is_picked_by_its_application_tag() {
    let unbind = BerTag::constructed(BerClass::Application, 2, vec![octets("anything")]);
    assert!(LdapOp::try_from(&unbind, false) == Ok(LdapOp::UnbindRequest));
    // not of class application
    let t = BerTag::primitive(BerClass::Context, 2, vec![]);
    assert!(LdapOp::try_from(&t, false).is_err());
    // numbers that are no operation here
    for id in [12u64, 13, 14, 15, 17, 19, 22, 26] {
        let t = BerTag::constructed(BerClass::Application, id, vec![]);
        assert!(LdapOp::try_from(&t, false).is_err());
    }
    // a delete request must be primitive, a delete response constructed
    let t = BerTag::constructed(BerClass::Application, 10, vec![]);
    assert!(LdapOp::try_from(&t, false).is_err());
    let t = BerTag::primitive(BerClass::Application, 11, vec![]);
    assert!(LdapOp::try_from(&t, false).is_err());
    let t = BerTag::primitive(BerClass::Application, 10, b"cn=x".to_vec());
    assert!(LdapOp::try_from(&t, false) == Ok(LdapOp::DelRequest("cn=x".to_string())));
    let t = BerTag::primitive(BerClass::Application, 16, vec![1, 0]);
    assert!(LdapOp::try_from(&t, false) == Ok(LdapOp::AbandonRequest(256)));
}

#[test]
fn ids_are_cut_to_thirty_two_bits() {
    let msg = BerTag::sequence(vec![
        BerTag::primitive(BerClass::Universal, 2, vec![1, 0, 0, 0, 5]),
        BerTag::primitive(BerClass::Application, 16, vec![0, 0, 0, 1, 0, 0, 0, 7]),
    ]);
    let got = LdapMsg::try_from(&msg, false).unwrap();
    assert_eq!(got.msgid, 5);
    assert!(got.op == LdapOp::AbandonRequest(7));
    let msg = BerTag::sequence(vec![
        BerTag::primitive(BerClass::Universal, 2, vec![0xff, 0xff, 0xff, 0xff]),
        BerTag::primitive(BerClass::Application, 2, vec![]),
    ]);
    assert_eq!(LdapMsg::try_from(&msg, false).unwrap().msgid, -1);
    // more than eight octets are no number
    let msg = BerTag::sequence(vec![
        BerTag::primitive(BerClass::Universal, 2, vec![0; 9]),
        BerTag::primitive(BerClass::Application, 2, vec![]),
    ]);
    assert!(LdapMsg::try_from(&msg, false).is_err());
}

#[test]
fn strict_codec_round_trips_too() {
    let mut codec = LdapCodec { strict: true };
    let mut buf: Vec<u8> = Vec::new();
    let msg = LdapMsg::new(
        4,
        LdapOp::SearchRequest(LdapSearchRequest {
            base: "".to_string(),
            scope: LdapSearchScope::OneLevel,
            aliases: LdapDerefAliases::InSearching,
            sizelimit: i32::MAX,
            timelimit: 255,
            typesonly: true,
            filter: LdapFilter::Equality("a".to_string(), "b".to_string()),
            attrs: vec!["*".to_string()],
        }),
    );
    codec.encode(msg.clone(), &mut buf).unwrap();
    assert!(codec.decode(&mut buf) == Ok(Some(msg)));
    assert!(!LdapCodec::new().strict);
    assert!(!LdapCodec::default().strict);
}

#[test]
fn memory_dump_is_read_tag_by_tag() {
    // id 2, an unbind request, and a context tag 0
    let dump = [2, 1, 2, 0x42, 0, 0xa0, 0];
    let got = LdapMsg::try_from_openldap_mem_dump(&dump).unwrap();
    assert!(got == LdapMsg::new(2, LdapOp::UnbindRequest));
    // without the third tag
    let got = LdapMsg::try_from_openldap_mem_dump(&dump[..5]).unwrap();
    assert!(got == LdapMsg::new(2, LdapOp::UnbindRequest));
    // a third tag that is cut short
    assert!(LdapMsg::try_from_openldap_mem_dump(&dump[..6]).is_err());
    // no operation
    assert!(LdapMsg::try_from_openldap_mem_dump(&dump[..3]).is_err());
    assert!(LdapMsg::try_from_openldap_mem_dump(&[]).is_err());
    // an id that is no INTEGER
    assert!(LdapMsg::try_from_openldap_mem_dump(&[4, 1, 2, 0x42, 0]).is_err());
}

#[test]
fn tags_are_written_and_parsed_alike() {
    let tree = BerTag::sequence(vec![
        BerTag::primitive(BerClass::Private, 30, vec![0; 200]),
        BerTag::constructed(BerClass::Application, 25, vec![octets("x")]),
    ]);
    let bytes = encode(&tree);
    assert_eq!(&bytes[..4], &[0x30, 0x81, 208, 0xde]);
    match parse(&bytes) {
        ParseStep::Done(Advance::Consume(n), t) => {
            assert_eq!(n, bytes.len());
            assert_eq!(t, tree);
            assert_eq!(t.clone(), tree);
        }
        _ => panic!(),
    }
    match &tree.payload {
        BerPayload::Constructed(v) => assert_eq!(v.len(), 2),
        BerPayload::Primitive(_) => panic!(),
    }
}
