use ldap3_proto::ber::{BerClass, BerTag};
use ldap3_proto::codec::LdapCodec;
use ldap3_proto::proto::{
    LdapControl, LdapMsg, LdapOp, SyncRequestMode, SyncStateValue, SyncUuid,
};
use ldap3_proto::wire::{parse, ParseStep};

fn through_codec(ctrl: Vec<LdapControl>) -> Vec<LdapControl> {
    let mut codec = LdapCodec::new();
    let mut buf: Vec<u8> = Vec::new();
    let msg = LdapMsg::new_with_ctrls(3, LdapOp::UnbindRequest, ctrl);
    codec.encode(msg, &mut buf).unwrap();
    let back = codec.decode(&mut buf).unwrap().unwrap();
    assert!(buf.is_empty());
    assert_eq!(back.msgid, 3);
    back.ctrl
}

fn uuid() -> SyncUuid {
    SyncUuid::from_slice(&[1, 2, 3, 4, 5, 6, 7, 8, 9, 10, 11, 12, 13, 14, 15, 16]).unwrap()
}

#[test]
fn sync_request_round_trips() {
    let all = vec![
        LdapControl::SyncRequest {
            criticality: true,
            mode: SyncRequestMode::RefreshAndPersist,
            cookie: Some(vec![1, 2, 3]),
            reload_hint: true,
        },
        LdapControl::SyncRequest {
            criticality: false,
            mode: SyncRequestMode::RefreshOnly,
            cookie: Some(vec![]),
            reload_hint: false,
        },
        LdapControl::SyncRequest {
            criticality: true,
            mode: SyncRequestMode::RefreshOnly,
            cookie: None,
            reload_hint: false,
        },
    ];
    assert_eq!(through_codec(all.clone()), all);
}

#[test]
fn sync_request_hint_without_cookie_round_trips() {
    let sent = LdapControl::SyncRequest {
        criticality: false,
        mode: SyncRequestMode::RefreshOnly,
        cookie: None,
        reload_hint: true,
    };
    assert_eq!(
        ldap3_proto::wire::encode(&sent.body()),
        vec![0x30, 6, 10, 1, 1, 1, 1, 0xff]
    );
    assert_eq!(through_codec(vec![sent.clone()]), vec![sent]);
}

#[test]
fn sync_request_fields_are_found_by_kind() {
    let tag = |body: Vec<u8>| {
        BerTag::sequence(vec![
            BerTag::octet_string(b"1.3.6.1.4.1.4203.1.9.1.1".to_vec()),
            BerTag::octet_string(body),
        ])
    };
    let read = |body: Vec<u8>| LdapControl::try_from(&tag(body)).unwrap();
    let want = |cookie: Option<Vec<u8>>, reload_hint: bool| LdapControl::SyncRequest {
        criticality: false,
        mode: SyncRequestMode::RefreshAndPersist,
        cookie,
        reload_hint,
    };
    assert_eq!(read(vec![0x30, 3, 10, 1, 3]), want(None, false));
    assert_eq!(read(vec![0x30, 6, 10, 1, 3, 4, 1, 7]), want(Some(vec![7]), false));
    assert_eq!(read(vec![0x30, 6, 10, 1, 3, 1, 1, 1]), want(None, true));
    assert_eq!(read(vec![0x30, 6, 10, 1, 3, 1, 1, 0]), want(None, false));
    assert_eq!(
        read(vec![0x30, 9, 10, 1, 3, 4, 1, 7, 1, 1, 0xff]),
        want(Some(vec![7]), true)
    );
    // the first of each kind counts
    assert_eq!(
        read(vec![0x30, 12, 10, 1, 3, 4, 1, 7, 4, 1, 8, 1, 1, 0]),
        want(Some(vec![7]), false)
    );
    // a flag without a value counts as left out
    assert_eq!(read(vec![0x30, 5, 10, 1, 3, 1, 0]), want(None, false));
}

#[test]
fn sync_state_round_trips() {
    let all = vec![
        LdapControl::SyncState {
            state: SyncStateValue::Present,
            entry_uuid: uuid(),
            cookie: None,
        },
        LdapControl::SyncState {
            state: SyncStateValue::Add,
            entry_uuid: uuid(),
            cookie: Some(vec![9]),
        },
        LdapControl::SyncState {
            state: SyncStateValue::Modify,
            entry_uuid: uuid(),
            cookie: None,
        },
        LdapControl::SyncState {
            state: SyncStateValue::Delete,
            entry_uuid: uuid(),
            cookie: Some(vec![]),
        },
    ];
    assert_eq!(through_codec(all.clone()), all);
}

#[test]
fn sync_done_round_trips() {
    let all = vec![
        LdapControl::SyncDone {
            cookie: Some(vec![7, 7]),
            refresh_deletes: true,
        },
        LdapControl::SyncDone {
            cookie: Some(vec![7, 7]),
            refresh_deletes: false,
        },
        LdapControl::SyncDone {
            cookie: None,
            refresh_deletes: false,
        },
        LdapControl::SyncDone {
            cookie: None,
            refresh_deletes: true,
        },
    ];
    assert_eq!(through_codec(all.clone()), all);
}

#[test]
fn ad_dirsync_round_trips() {
    let all = vec![
        LdapControl::AdDirsync {
            flags: 0,
            max_bytes: 1_000_000,
            cookie: Some(vec![1]),
        },
        LdapControl::AdDirsync {
            flags: i64::MAX,
            max_bytes: 255,
            cookie: Some(vec![]),
        },
    ];
    assert_eq!(through_codec(all.clone()), all);
}

#[test]
fn ad_dirsync_without_cookie_reads_an_empty_one() {
    let got = through_codec(vec![LdapControl::AdDirsync {
        flags: 1,
        max_bytes: 2,
        cookie: None,
    }]);
    assert_eq!(
        got,
        vec![LdapControl::AdDirsync {
            flags: 1,
            max_bytes: 2,
            cookie: Some(vec![]),
        }]
    );
}

#[test]
fn ad_dirsync_is_written_critical() {
    let tag = LdapControl::AdDirsync {
        flags: 1,
        max_bytes: 2,
        cookie: None,
    }
    .to_tag();
    let expected = BerTag::sequence(vec![
        BerTag::octet_string(b"1.2.840.113556.1.4.841".to_vec()),
        BerTag::primitive(BerClass::Universal, 1, vec![0xff]),
        BerTag::octet_string(vec![0x30, 8, 2, 1, 1, 2, 1, 2, 4, 0]),
    ]);
    assert_eq!(tag, expected);
}

#[test]
fn smallest_number_is_written_in_eight_octets() {
    let c = LdapControl::AdDirsync {
        flags: i64::MIN,
        max_bytes: i64::MIN,
        cookie: Some(vec![]),
    };
    assert_eq!(
        ldap3_proto::wire::encode(&c.body()),
        vec![0x30, 22, 2, 8, 0x80, 0, 0, 0, 0, 0, 0, 0, 2, 8, 0x80, 0, 0, 0, 0, 0, 0, 0, 4, 0]
    );
    assert_eq!(through_codec(vec![c.clone()]), vec![c]);
}

#[test]
fn control_with_unknown_oid_is_an_error() {
    let tag = BerTag::sequence(vec![
        BerTag::octet_string(b"1.2.3.4".to_vec()),
        BerTag::octet_string(vec![0x30, 0]),
    ]);
    assert!(LdapControl::try_from(&tag).is_err());
}

#[test]
fn control_needs_one_to_three_fields_and_a_value() {
    let oid = || BerTag::octet_string(b"1.3.6.1.4.1.4203.1.9.1.3".to_vec());
    let value = || BerTag::octet_string(vec![0x30, 0]);
    let crit = || BerTag::primitive(BerClass::Universal, 1, vec![0xff]);
    assert!(LdapControl::try_from(&BerTag::sequence(vec![])).is_err());
    assert!(LdapControl::try_from(&BerTag::sequence(vec![oid()])).is_err());
    assert_eq!(
        LdapControl::try_from(&BerTag::sequence(vec![oid(), value()])),
        Ok(LdapControl::SyncDone {
            cookie: None,
            refresh_deletes: false
        })
    );
    assert_eq!(
        LdapControl::try_from(&BerTag::sequence(vec![oid(), crit(), value()])),
        Ok(LdapControl::SyncDone {
            cookie: None,
            refresh_deletes: false
        })
    );
    assert!(
        LdapControl::try_from(&BerTag::sequence(vec![oid(), crit(), value(), value()])).is_err()
    );
    // a value that is no BER
    assert!(LdapControl::try_from(&BerTag::sequence(vec![
        oid(),
        BerTag::octet_string(vec![0x30, 5, 1])
    ]))
    .is_err());
    // a primitive where the fields must be
    assert!(LdapControl::try_from(&BerTag::octet_string(vec![])).is_err());
}

#[test]
fn sync_state_wants_sixteen_octets() {
    let tag = |id: Vec<u8>| {
        let mut body = vec![0x30, (5 + id.len()) as u8, 10, 1, 1, 4, id.len() as u8];
        body.extend_from_slice(&id);
        BerTag::sequence(vec![
            BerTag::octet_string(b"1.3.6.1.4.1.4203.1.9.1.2".to_vec()),
            BerTag::octet_string(body),
        ])
    };
    assert!(LdapControl::try_from(&tag(vec![0; 15])).is_err());
    assert!(LdapControl::try_from(&tag(vec![0; 17])).is_err());
    assert_eq!(
        LdapControl::try_from(&tag(vec![5; 16])),
        Ok(LdapControl::SyncState {
            state: SyncStateValue::Add,
            entry_uuid: SyncUuid { octets: [5; 16] },
            cookie: None,
        })
    );
}

#[test]
fn sync_request_mode_must_be_known() {
    let tag = |mode: u8| {
        BerTag::sequence(vec![
            BerTag::octet_string(b"1.3.6.1.4.1.4203.1.9.1.1".to_vec()),
            BerTag::octet_string(vec![0x30, 3, 10, 1, mode]),
        ])
    };
    assert!(LdapControl::try_from(&tag(0)).is_err());
    assert!(LdapControl::try_from(&tag(2)).is_err());
    assert!(LdapControl::try_from(&tag(1)).is_ok());
    assert!(LdapControl::try_from(&tag(3)).is_ok());
}

#[test]
fn message_passes_over_controls_it_cannot_read() {
    let good = LdapControl::SyncDone {
        cookie: Some(vec![1]),
        refresh_deletes: true,
    };
    let msg = BerTag::sequence(vec![
        BerTag::primitive(BerClass::Universal, 2, vec![9]),
        BerTag::primitive(BerClass::Application, 2, vec![]),
        BerTag::constructed(
            BerClass::Context,
            0,
            vec![
                BerTag::sequence(vec![BerTag::octet_string(b"9.9.9".to_vec())]),
                good.to_tag(),
                BerTag::octet_string(vec![]),
            ],
        ),
    ]);
    let got = LdapMsg::try_from(&msg, false).unwrap();
    assert_eq!(got.msgid, 9);
    assert_eq!(got.ctrl, vec![good.clone()]);

    let (got, skipped) = LdapMsg::try_from_counting(&msg, false).unwrap();
    assert_eq!(got.ctrl, vec![good.clone()]);
    assert_eq!(skipped, 2);
    let (read, skipped) = LdapMsg::controls_counting(&vec![good.to_tag(), good.to_tag()]);
    assert_eq!(read.len(), 2);
    assert_eq!(skipped, 0);

    let mut codec = LdapCodec::new();
    let mut buf = ldap3_proto::wire::encode(&msg);
    buf.push(0x30);
    match codec.decode_counting(&mut buf) {
        Ok(Some((m, skipped))) => {
            assert_eq!(m.ctrl, vec![good]);
            assert_eq!(skipped, 2);
        }
        _ => panic!(),
    }
    assert_eq!(buf, vec![0x30]);
    assert!(codec.decode_counting(&mut buf) == Ok(None));
}

#[test]
fn uuid_from_slice_checks_the_length() {
    assert!(SyncUuid::from_slice(&[]).is_none());
    assert!(SyncUuid::from_slice(&[0; 15]).is_none());
    assert!(SyncUuid::from_slice(&[0; 17]).is_none());
    let id = uuid();
    assert_eq!(id.octets[15], 16);
    assert_eq!(id.as_bytes(), (1..=16).collect::<Vec<u8>>());
}

#[test]
fn control_body_parses_back() {
    let c = LdapControl::SyncRequest {
        criticality: false,
        mode: SyncRequestMode::RefreshAndPersist,
        cookie: Some(b"foo".to_vec()),
        reload_hint: false,
    };
    let body = c.body();
    let octets = ldap3_proto::wire::encode(&body);
    assert_eq!(octets, vec![48, 8, 10, 1, 3, 4, 3, 102, 111, 111]);
    match parse(&octets) {
        ParseStep::Done(_, t) => assert_eq!(t, body),
        _ => panic!(),
    }
    assert!(ldap3_proto::wire::parses_back(&body));
}
