use ldap3_proto::ber::{BerClass, BerTag};
use ldap3_proto::codec::{CodecError, LdapCodec};
use ldap3_proto::proto::{
    LdapAddRequest, LdapBindCred, LdapBindRequest, LdapBindResponse, LdapControl,
    LdapDerefAliases, LdapExtendedRequest, LdapExtendedResponse, LdapFilter, LdapModify,
    LdapModifyRequest, LdapModifyType, LdapMsg, LdapOp, LdapPartialAttribute, LdapResult,
    LdapResultCode, LdapSearchRequest, LdapSearchResultEntry, LdapSearchScope,
    LdapSubstringFilter, SyncRequestMode,
};
use ldap3_proto::wire::{frames_whole, parse, Advance, ParseStep};

fn round_trip(req: LdapMsg) {
    let mut buf: Vec<u8> = Vec::new();
    let mut server_codec = LdapCodec::new();
    assert!(frames_whole(&req.to_tag()));
    assert!(server_codec.encode(req.clone(), &mut buf).is_ok());
    let res = server_codec.decode(&mut buf).expect("failed to decode");
    let msg = res.expect("None found?");
    assert!(req == msg);
    assert!(buf.is_empty());
}

fn success(matcheddn: &str, message: &str) -> LdapResult {
    LdapResult {
        code: LdapResultCode::Success,
        matcheddn: matcheddn.to_string(),
        message: message.to_string(),
        referral: vec![],
    }
}

#[test]
fn test_ldapserver_codec_simplebind() {
    round_trip(LdapMsg {
        msgid: 1,
        op: LdapOp::BindRequest(LdapBindRequest {
            dn: "".to_string(),
            cred: LdapBindCred::Simple("".to_string()),
        }),
        ctrl: vec![],
    });
}

#[test]
fn test_ldapserver_codec_unbind() {
    round_trip(LdapMsg {
        msgid: 65536,
        op: LdapOp::UnbindRequest,
        ctrl: vec![],
    });
}

#[test]
fn test_ldapserver_codec_bindresponse() {
    round_trip(LdapMsg {
        msgid: 999999,
        op: LdapOp::BindResponse(LdapBindResponse {
            res: success("cn=Directory Manager", "It works!"),
            saslcreds: None,
        }),
        ctrl: vec![],
    });
}

#[test]
fn test_ldapserver_codec_searchrequest() {
    round_trip(LdapMsg {
        msgid: 2_147_483_646,
        op: LdapOp::SearchRequest(LdapSearchRequest {
            base: "dc=example,dc=comaaaaaaaaaaaaaaaaaaaaaaaaaaaaaaaaaaaaaaaaaaaaaaaaaaaaaaaaaaaaaaaaaaaaaaaaaaaaaaaaaaaaaaaaaaaaaaaaaaaaaaaaaaaaaaaaaaaaaaaaaaaaaaaaaaaaaaaaaaaaaaaaaaaaaaaaaaaaaaaaaaaaaaaaaaaaaaaaaaaaaaaaaaaaaaaaaaaaaaaaaaaaaaaaaaaaaaaaaaaaaaaaaaaaaaaaaaaaaaaaaaaaaaaaaaaaaaaaaaaaaaaaaaaaaaaaaaaaaaaaaaaaaaaaaaaaaaaaaaaaaaaaaaaaaaaaaaaaaaaaaaaaaaaaaaaaaaaaaaaaaaaaaaaaaaaaaaaaaaaaaaaaaaaaaaaaaaaaaaaaaaaaaaaaaaaaaaaaaaaaaaaaaaaaaaaaaaaaaaaaaaaaaaa".to_string(),
            scope: LdapSearchScope::Base,
            aliases: LdapDerefAliases::Never,
            sizelimit: 0,
            timelimit: 0,
            typesonly: false,
            filter: LdapFilter::Or(vec![
                LdapFilter::Present("cn".to_string()),
                LdapFilter::Equality("cn".to_string(), "name".to_string()),
                LdapFilter::Not(Box::new(LdapFilter::And(vec![LdapFilter::Present(
                    "cursed".to_string(),
                )]))),
                LdapFilter::Substring(
                    "cn".to_string(),
                    LdapSubstringFilter {
                        initial: Some("abc".to_string()),
                        any: vec!["def".to_string(), "ghi".to_string()],
                        final_: Some("jkl".to_string()),
                    },
                ),
                LdapFilter::Substring(
                    "cn".to_string(),
                    LdapSubstringFilter {
                        initial: None,
                        any: vec![],
                        final_: None,
                    },
                ),
            ]),
            attrs: vec!["cn".to_string(), "objectClass".to_string()],
        }),
        ctrl: vec![],
    });
}

#[test]
fn test_ldapserver_codec_searchresultentry() {
    round_trip(LdapMsg {
        msgid: 2_147_483_646,
        op: LdapOp::SearchResultEntry(LdapSearchResultEntry {
            dn: "cn=demo,dc=example,dc=com".to_string(),
            attributes: vec![
                LdapPartialAttribute {
                    atype: "cn".to_string(),
                    vals: vec!["demo".as_bytes().to_vec()],
                },
                LdapPartialAttribute {
                    atype: "dn".to_string(),
                    vals: vec!["cn=demo,dc=example,dc=com".as_bytes().to_vec()],
                },
                LdapPartialAttribute {
                    atype: "objectClass".to_string(),
                    vals: vec!["cursed".as_bytes().to_vec()],
                },
            ],
        }),
        ctrl: vec![],
    });
}

#[test]
fn test_ldapserver_codec_searchresultdone() {
    round_trip(LdapMsg {
        msgid: 28799790,
        op: LdapOp::SearchResultDone(success("", "Whargarble")),
        ctrl: vec![],
    });
}

#[test]
fn test_ldapserver_codec_extendedrequest() {
    round_trip(LdapMsg {
        msgid: 256,
        op: LdapOp::ExtendedRequest(LdapExtendedRequest {
            name: "1.3.6.1.4.1.4203.1.11.3".to_string(),
            value: None,
        }),
        ctrl: vec![],
    });
}

#[test]
fn test_ldapserver_codec_extendedresponse() {
    round_trip(LdapMsg {
        msgid: 257,
        op: LdapOp::ExtendedResponse(LdapExtendedResponse {
            res: success("", ""),
            name: Some("1.3.6.1.4.1.4203.1.11.3".to_string()),
            value: None,
        }),
        ctrl: vec![],
    });

    round_trip(LdapMsg {
        msgid: 257,
        op: LdapOp::ExtendedResponse(LdapExtendedResponse {
            res: success("", ""),
            name: None,
            value: Some(Vec::from("hello")),
        }),
        ctrl: vec![],
    });
}

#[test]
fn test_ldapserver_codec_addrequest() {
    round_trip(LdapMsg {
        msgid: 233,
        op: LdapOp::AddRequest(LdapAddRequest {
            dn: "dc=example,dc=com".to_string(),
            attributes: vec![LdapPartialAttribute {
                atype: "objectClass".to_string(),
                vals: vec![
                    "top".as_bytes().to_vec(),
                    "posixAccount".as_bytes().to_vec(),
                ],
            }],
        }),
        ctrl: vec![],
    });
}

#[test]
fn test_ldapserver_codec_addresponse() {
    round_trip(LdapMsg {
        msgid: 23333,
        op: LdapOp::AddResponse(success("dc=exmaple,dc=com", "msg")),
        ctrl: vec![],
    });
}

#[test]
fn test_ldapserver_codec_delrequest() {
    round_trip(LdapMsg {
        msgid: 233,
        op: LdapOp::DelRequest("dc=example, dc=com".to_string()),
        ctrl: vec![],
    });
}

#[test]
fn test_ldapserver_codec_delresponse() {
    round_trip(LdapMsg {
        msgid: 23333,
        op: LdapOp::DelResponse(success("dc=exmaple,dc=com", "msg")),
        ctrl: vec![],
    });
}

#[test]
fn test_ldapserver_codec_abandonrequest() {
    round_trip(LdapMsg {
        msgid: 23333,
        op: LdapOp::AbandonRequest(233),
        ctrl: vec![],
    });
}

#[test]
fn test_ldapserver_codec_modify_request() {
    round_trip(LdapMsg {
        msgid: 1,
        op: LdapOp::ModifyRequest(LdapModifyRequest {
            dn: "cn=bob,ou=people,dc=example,dc=com".to_string(),
            changes: vec![LdapModify {
                operation: LdapModifyType::Replace,
                modification: LdapPartialAttribute {
                    atype: "userPassword".to_string(),
                    vals: vec!["password".as_bytes().to_vec()],
                },
            }],
        }),
        ctrl: vec![],
    });
}

#[test]
fn test_ldapserver_codec_modify_response() {
    round_trip(LdapMsg {
        msgid: 1,
        op: LdapOp::ModifyResponse(success("cn=Directory Manager", "It works!")),
        ctrl: vec![],
    });
}

#[test]
fn test_modify_from_raw() {
    let input: [u8; 71] = [
        48, 69, 2, 1, 2, 102, 64, 4, 39, 117, 105, 100, 61, 98, 106, 101, 110, 115, 101, 110, 44,
        111, 117, 61, 80, 101, 111, 112, 108, 101, 44, 100, 99, 61, 101, 120, 97, 109, 112, 108,
        101, 44, 100, 99, 61, 99, 111, 109, 48, 21, 48, 19, 10, 1, 2, 48, 14, 4, 2, 115, 110, 49,
        8, 4, 6, 77, 111, 114, 114, 105, 115,
    ];
    let msg = match parse(&input) {
        ParseStep::Done(_size, msg) => msg,
        _ => panic!(),
    };
    let op = LdapMsg::try_from(&msg, false).expect("failed to decode");
    let want = LdapMsg {
        msgid: 2,
        op: LdapOp::ModifyRequest(LdapModifyRequest {
            dn: "uid=bjensen,ou=People,dc=example,dc=com".to_string(),
            changes: vec![LdapModify {
                operation: LdapModifyType::Replace,
                modification: LdapPartialAttribute {
                    atype: "sn".to_string(),
                    vals: vec![b"Morris".to_vec()],
                },
            }],
        }),
        ctrl: vec![],
    };
    assert!(op == want);
}

#[test]
fn test_syncrepl_result_from_raw() {
    let input: [u8; 37] = [
        48, 35, 2, 1, 2, 101, 30, 10, 2, 16, 0, 4, 0, 4, 22, 73, 110, 118, 97, 108, 105, 100, 32,
        115, 101, 115, 115, 105, 111, 110, 32, 99, 111, 111, 107, 105, 101,
    ];
    let msg = match parse(&input) {
        ParseStep::Done(_size, msg) => msg,
        _ => panic!(),
    };
    let op = LdapMsg::try_from(&msg, false).expect("failed to decode");
    let want = LdapMsg {
        msgid: 2,
        op: LdapOp::SearchResultDone(LdapResult {
            code: LdapResultCode::EsyncRefreshRequired,
            matcheddn: "".to_string(),
            message: "Invalid session cookie".to_string(),
            referral: vec![],
        }),
        ctrl: vec![],
    };
    assert!(op == want);
}

#[test]
fn test_ldapserver_search_with_syncrepl_request() {
    round_trip(LdapMsg {
        msgid: 1,
        op: LdapOp::SearchRequest(LdapSearchRequest {
            base: "dc=example,dc=com".to_string(),
            scope: LdapSearchScope::Subtree,
            aliases: LdapDerefAliases::Never,
            sizelimit: 0,
            timelimit: 0,
            typesonly: false,
            filter: LdapFilter::Present("objectClass".to_string()),
            attrs: vec![],
        }),
        ctrl: vec![LdapControl::SyncRequest {
            criticality: false,
            mode: SyncRequestMode::RefreshOnly,
            cookie: None,
            reload_hint: false,
        }],
    });
}

#[test]
fn decode_waits_for_a_whole_frame() {
    let mut codec = LdapCodec::new();
    let mut whole: Vec<u8> = Vec::new();
    let msg = LdapMsg::new(7, LdapOp::DelRequest("dc=example,dc=com".to_string()));
    codec.encode(msg.clone(), &mut whole).unwrap();
    for cut in 0..whole.len() {
        let mut buf = whole[..cut].to_vec();
        assert!(codec.decode(&mut buf) == Ok(None));
        assert_eq!(buf, whole[..cut].to_vec());
        buf.extend_from_slice(&whole[cut..]);
        assert!(codec.decode(&mut buf) == Ok(Some(msg.clone())));
        assert!(buf.is_empty());
    }
}

#[test]
fn decode_takes_frames_in_order() {
    let mut codec = LdapCodec::new();
    let mut buf: Vec<u8> = Vec::new();
    let first = LdapMsg::new(1, LdapOp::UnbindRequest);
    let second = LdapMsg::new(2, LdapOp::AbandonRequest(1));
    codec.encode(first.clone(), &mut buf).unwrap();
    let first_len = buf.len();
    codec.encode(second.clone(), &mut buf).unwrap();
    assert!(buf.len() > first_len);
    assert!(codec.decode(&mut buf) == Ok(Some(first)));
    assert!(codec.decode(&mut buf) == Ok(Some(second)));
    assert_eq!(buf.len(), 0);
    assert!(codec.decode(&mut buf) == Ok(None));
}

#[test]
fn decode_reports_what_is_no_message() {
    let mut codec = LdapCodec::new();
    // a whole BER value that is no LDAP message: an INTEGER
    let mut buf: Vec<u8> = vec![2, 1, 5, 99];
    assert!(codec.decode(&mut buf) == Err(CodecError::Message));
    assert_eq!(buf, vec![99]);
}

#[test]
fn encode_writes_the_known_octets() {
    let mut codec = LdapCodec::new();
    let mut buf: Vec<u8> = vec![0xaa];
    let msg = LdapMsg::new(
        1,
        LdapOp::BindRequest(LdapBindRequest {
            dn: "cn=root,dc=plabs".to_string(),
            cred: LdapBindCred::Simple("asdf".to_string()),
        }),
    );
    codec.encode(msg, &mut buf).unwrap();
    let expected: Vec<u8> = vec![
        0xaa, 0x30, 0x20, 0x02, 0x01, 0x01, 0x60, 0x1B, 0x02, 0x01, 0x03, 0x04, 0x10, 0x63, 0x6e,
        0x3d, 0x72, 0x6f, 0x6f, 0x74, 0x2c, 0x64, 0x63, 0x3d, 0x70, 0x6c, 0x61, 0x62, 0x73, 0x80,
        0x04, 0x61, 0x73, 0x64, 0x66,
    ];
    assert_eq!(buf, expected);
}

#[test]
fn parse_reports_consumed_octets() {
    match parse(&[4, 1, 65, 4, 1, 66]) {
        ParseStep::Done(Advance::Consume(n), _) => assert_eq!(n, 3),
        _ => panic!(),
    }
    assert!(parse(&[4, 5, 65]) == ParseStep::Continue);
    assert!(parse(&[]) == ParseStep::Continue);
}

#[test]
fn decode_step_follows_the_parser() {
    let codec = LdapCodec::new();
    let unbind = || {
        BerTag::sequence(vec![
            BerTag::primitive(BerClass::Universal, 2, vec![1]),
            BerTag::primitive(BerClass::Application, 2, vec![]),
        ])
    };
    let start: Vec<u8> = vec![1, 2, 3, 4, 5];

    let mut buf = start.clone();
    assert!(codec.decode_step(&ParseStep::Continue, &mut buf) == Ok(None));
    assert_eq!(buf, start);

    let mut buf = start.clone();
    assert!(codec.decode_step(&ParseStep::Error, &mut buf) == Err(CodecError::Parser));
    assert_eq!(buf, start);

    let mut buf = start.clone();
    let step = ParseStep::Done(Advance::Await, unbind());
    assert!(codec.decode_step(&step, &mut buf) == Ok(None));
    assert_eq!(buf, start);

    let mut buf = start.clone();
    let step = ParseStep::Done(Advance::Seek, unbind());
    assert!(codec.decode_step(&step, &mut buf) == Err(CodecError::Seek));
    assert_eq!(buf, start);

    let mut buf = start.clone();
    let step = ParseStep::Done(Advance::Consume(3), unbind());
    assert!(codec.decode_step(&step, &mut buf) == Ok(Some(LdapMsg::new(1, LdapOp::UnbindRequest))));
    assert_eq!(buf, vec![4, 5]);

    let mut buf = start.clone();
    let step = ParseStep::Done(Advance::Consume(5), BerTag::octet_string(vec![]));
    assert!(codec.decode_step(&step, &mut buf) == Err(CodecError::Message));
    assert!(buf.is_empty());
}
