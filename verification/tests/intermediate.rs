use ldap3_proto::ber::{BerClass, BerTag};
use ldap3_proto::codec::LdapCodec;
use ldap3_proto::proto::{LdapIntermediateResponse, LdapMsg, LdapOp, SyncUuid};

fn through_codec(r: LdapIntermediateResponse) -> LdapIntermediateResponse {
    let mut codec = LdapCodec::new();
    let mut buf: Vec<u8> = Vec::new();
    let msg = LdapMsg::new(12, LdapOp::IntermediateResponse(r));
    codec.encode(msg, &mut buf).unwrap();
    let back = codec.decode(&mut buf).unwrap().unwrap();
    assert!(buf.is_empty());
    match back.op {
        LdapOp::IntermediateResponse(r) => r,
        _ => panic!(),
    }
}

#[test]
fn new_cookie_round_trips() {
    let r = LdapIntermediateResponse::SyncInfoNewCookie {
        cookie: vec![1, 2, 3],
    };
    assert_eq!(through_codec(r.clone()), r);
}

#[test]
fn refresh_delete_round_trips() {
    for cookie in [None, Some(vec![]), Some(vec![4, 5])] {
        for done in [true, false] {
            let r = LdapIntermediateResponse::SyncInfoRefreshDelete {
                cookie: cookie.clone(),
                done,
            };
            assert_eq!(through_codec(r.clone()), r);
        }
    }
}

#[test]
fn refresh_present_round_trips() {
    for cookie in [None, Some(vec![]), Some(vec![102, 111, 111])] {
        for done in [true, false] {
            let r = LdapIntermediateResponse::SyncInfoRefreshPresent {
                cookie: cookie.clone(),
                done,
            };
            assert_eq!(through_codec(r.clone()), r);
        }
    }
}

#[test]
fn id_set_round_trips() {
    let ids = vec![SyncUuid { octets: [1; 16] }, SyncUuid { octets: [2; 16] }];
    for cookie in [None, Some(vec![]), Some(vec![3])] {
        for refresh_deletes in [true, false] {
            for syncuuids in [vec![], ids.clone()] {
                let r = LdapIntermediateResponse::SyncInfoIdSet {
                    cookie: cookie.clone(),
                    refresh_deletes,
                    syncuuids,
                };
                assert_eq!(through_codec(r.clone()), r);
            }
        }
    }
}

#[test]
fn sync_info_fields_are_found_by_kind() {
    let tags = |value: Vec<u8>| {
        vec![
            BerTag::primitive(BerClass::Context, 0, b"1.3.6.1.4.1.4203.1.9.1.4".to_vec()),
            BerTag::primitive(BerClass::Context, 1, value),
        ]
    };
    // the end of a refresh by presence: a cookie alone, a flag alone
    assert_eq!(
        LdapIntermediateResponse::try_from(&tags(vec![0xa2, 3, 4, 1, 9])),
        Ok(LdapIntermediateResponse::SyncInfoRefreshPresent {
            cookie: Some(vec![9]),
            done: true
        })
    );
    assert_eq!(
        LdapIntermediateResponse::try_from(&tags(vec![0xa2, 3, 1, 1, 0])),
        Ok(LdapIntermediateResponse::SyncInfoRefreshPresent {
            cookie: None,
            done: false
        })
    );
    // a set of ids behind a cookie and no flag
    assert_eq!(
        LdapIntermediateResponse::try_from(&tags(vec![0xa3, 5, 4, 1, 9, 0x31, 0])),
        Ok(LdapIntermediateResponse::SyncInfoIdSet {
            cookie: Some(vec![9]),
            refresh_deletes: false,
            syncuuids: vec![],
        })
    );
}

#[test]
fn other_responses_are_handed_on() {
    let all = vec![
        LdapIntermediateResponse::Raw {
            name: None,
            value: None,
        },
        LdapIntermediateResponse::Raw {
            name: Some("1.2.3".to_string()),
            value: Some(vec![1, 2, 3]),
        },
        LdapIntermediateResponse::Raw {
            name: Some("1.3.6.1.4.1.4203.1.9.1.4".to_string()),
            value: None,
        },
        LdapIntermediateResponse::Raw {
            name: None,
            value: Some(vec![0xa0, 0]),
        },
    ];
    for r in all {
        assert_eq!(through_codec(r.clone()), r);
    }
}

#[test]
fn sync_info_with_a_bad_value_is_an_error() {
    let tags = |value: Vec<u8>| {
        vec![
            BerTag::primitive(BerClass::Context, 0, b"1.3.6.1.4.1.4203.1.9.1.4".to_vec()),
            BerTag::primitive(BerClass::Context, 1, value),
        ]
    };
    // no BER
    assert!(LdapIntermediateResponse::try_from(&tags(vec![0xa0])).is_err());
    // not of class context
    assert!(LdapIntermediateResponse::try_from(&tags(vec![0x30, 0])).is_err());
    // primitive
    assert!(LdapIntermediateResponse::try_from(&tags(vec![0x80, 0])).is_err());
    // unknown number
    assert!(LdapIntermediateResponse::try_from(&tags(vec![0xa4, 0])).is_err());
    // a new cookie without a cookie
    assert!(LdapIntermediateResponse::try_from(&tags(vec![0xa0, 0])).is_err());
    // a refresh by deletions whose flag has no value
    assert!(LdapIntermediateResponse::try_from(&tags(vec![0xa1, 2, 1, 0])).is_err());
    // a set of ids without a set
    assert!(LdapIntermediateResponse::try_from(&tags(vec![0xa3, 0])).is_err());
    // a set with an id of three octets
    assert!(
        LdapIntermediateResponse::try_from(&tags(vec![0xa3, 7, 0x31, 5, 4, 3, 1, 2, 3])).is_err()
    );
    assert_eq!(
        LdapIntermediateResponse::try_from(&tags(vec![0xa1, 0])),
        Ok(LdapIntermediateResponse::SyncInfoRefreshDelete {
            cookie: None,
            done: true
        })
    );
}

#[test]
fn the_last_name_and_value_count() {
    let tags = vec![
        BerTag::primitive(BerClass::Context, 0, b"first".to_vec()),
        BerTag::primitive(BerClass::Context, 1, vec![1]),
        BerTag::primitive(BerClass::Context, 0, b"second".to_vec()),
        BerTag::primitive(BerClass::Universal, 1, vec![2]),
    ];
    assert_eq!(
        LdapIntermediateResponse::try_from(&tags),
        Ok(LdapIntermediateResponse::Raw {
            name: Some("second".to_string()),
            value: Some(vec![1]),
        })
    );
}
