use ldap3_proto::ber::{BerClass, BerPayload, BerTag};
use ldap3_proto::prim::ber_integer_to_i64;
use ldap3_proto::wire::{encode, frames_whole, integer_tag, parse, parses_back, Advance, ParseStep};

fn content(t: &BerTag) -> Vec<u8> {
    match &t.payload {
        BerPayload::Primitive(b) => b.clone(),
        BerPayload::Constructed(_) => panic!(),
    }
}

fn shortest(v: i64) -> Vec<u8> {
    let all = v.to_be_bytes();
    let mut start = 0;
    while start < 7 && all[start] == 0 {
        start += 1;
    }
    let mut out = Vec::new();
    if all[start] >= 128 {
        out.push(0);
    }
    out.extend_from_slice(&all[start..]);
    out
}

#[test]
fn integers_that_are_not_negative_read_back() {
    let mut values: Vec<i64> = vec![0, 1, 127, 128, 255, 256, 1616, 65535, 65536, i64::MAX];
    for k in 0..63 {
        let p = 1i64 << k;
        values.push(p);
        values.push(p - 1);
        values.push(p + 1);
    }
    for v in values {
        let t = integer_tag(BerClass::Universal, 2, v);
        assert_eq!(t.class, BerClass::Universal);
        assert_eq!(t.id, 2);
        let octets = content(&t);
        assert!(1 <= octets.len() && octets.len() <= 8);
        assert_eq!(octets, shortest(v));
        assert_eq!(ber_integer_to_i64(octets), Some(v));
    }
}

#[test]
fn integers_have_the_known_octets() {
    assert_eq!(content(&integer_tag(BerClass::Universal, 2, 127)), vec![127]);
    assert_eq!(content(&integer_tag(BerClass::Universal, 2, 128)), vec![0, 128]);
    assert_eq!(content(&integer_tag(BerClass::Universal, 10, 1616)), vec![6, 0x50]);
    assert_eq!(content(&integer_tag(BerClass::Application, 16, 0)), vec![0]);
    assert_eq!(content(&integer_tag(BerClass::Universal, 2, -1)), vec![0xff]);
}

#[test]
fn negative_integers_are_written() {
    for k in 0..63 {
        let p = -(1i64 << k);
        for v in [p, p - 1, p + 1] {
            let octets = content(&integer_tag(BerClass::Universal, 2, v));
            assert!(1 <= octets.len() && octets.len() <= 8);
        }
    }
    let octets = content(&integer_tag(BerClass::Universal, 2, i64::MIN + 1));
    assert_eq!(octets.len(), 8);
    let octets = content(&integer_tag(BerClass::Universal, 2, i64::MIN));
    assert_eq!(octets, vec![0x80, 0, 0, 0, 0, 0, 0, 0]);
    assert_eq!(ber_integer_to_i64(octets), Some(i64::MIN));
}

#[test]
fn parser_answers_every_short_input() {
    for a in 0..=255u8 {
        assert!(parse(&[a]) == ParseStep::Continue);
        for b in 0..=255u8 {
            match parse(&[a, b]) {
                ParseStep::Done(Advance::Consume(n), _) => assert_eq!(n, 2),
                ParseStep::Done(_, _) => panic!(),
                ParseStep::Continue | ParseStep::Error => {}
            }
            for c in [0u8, 1, 0x7f, 0x80, 0x81, 0xff] {
                for d in [0u8, 2, 0x80, 0xff] {
                    match parse(&[a, b, c, d, 0, 0]) {
                        ParseStep::Done(Advance::Consume(n), _) => assert!(n <= 6),
                        ParseStep::Done(_, _) => panic!(),
                        ParseStep::Continue | ParseStep::Error => {}
                    }
                }
            }
        }
    }
}

#[test]
fn parser_answers_long_lengths() {
    for count in 1..=127u8 {
        for fill in [0u8, 1, 0x7f, 0xff] {
            for head in [0x04u8, 0x30, 0xa0, 0x5f] {
                let mut input = vec![head, 0x80 | count];
                input.extend(std::iter::repeat(fill).take(count as usize));
                input.extend_from_slice(&[1, 2, 3]);
                match parse(&input) {
                    ParseStep::Done(Advance::Consume(n), _) => assert!(n <= input.len()),
                    ParseStep::Done(_, _) => panic!(),
                    ParseStep::Continue | ParseStep::Error => {}
                }
            }
        }
    }
}

#[test]
fn writer_and_parser_agree_on_nested_trees() {
    let mut tree = BerTag::primitive(BerClass::Context, 7, b"cn".to_vec());
    for depth in 0..40u64 {
        tree = BerTag::constructed(
            BerClass::Context,
            depth % 3,
            vec![tree, BerTag::octet_string(vec![depth as u8; depth as usize * 7])],
        );
    }
    let octets = encode(&tree);
    match parse(&octets) {
        ParseStep::Done(Advance::Consume(n), t) => {
            assert_eq!(n, octets.len());
            assert!(t == tree);
        }
        _ => panic!(),
    }
    for cut in [0usize, 1, 2, 3, octets.len() / 2, octets.len() - 1] {
        assert!(parse(&octets[..cut]) == ParseStep::Continue);
    }
}

#[test]
fn trees_with_short_tag_numbers_parse_back() {
    for id in 0..=30u64 {
        for class in [
            BerClass::Universal,
            BerClass::Application,
            BerClass::Context,
            BerClass::Private,
        ] {
            let leaf = BerTag::primitive(class, id, vec![id as u8; 3]);
            assert!(parses_back(&leaf));
            assert!(frames_whole(&leaf));
            let node = BerTag::constructed(class, id, vec![leaf, BerTag::sequence(vec![])]);
            assert!(parses_back(&node));
            assert!(frames_whole(&node));
        }
    }
    let long = BerTag::octet_string(vec![7; 70_000]);
    assert!(frames_whole(&long));
}

#[test]
fn a_tag_number_above_thirty_does_not_parse_back() {
    let t = BerTag::primitive(BerClass::Context, 31, vec![1]);
    assert!(!parses_back(&t));
    assert!(!frames_whole(&t));
}

#[test]
fn same_tells_trees_apart() {
    let a = BerTag::sequence(vec![BerTag::octet_string(vec![1]), BerTag::set(vec![])]);
    assert!(a.same(&a.clone()));
    assert!(!a.same(&BerTag::sequence(vec![BerTag::octet_string(vec![1])])));
    assert!(!a.same(&BerTag::sequence(vec![BerTag::octet_string(vec![2]), BerTag::set(vec![])])));
    assert!(!a.same(&BerTag::set(vec![BerTag::octet_string(vec![1]), BerTag::set(vec![])])));
    assert!(!a.same(&BerTag::octet_string(vec![])));
    assert!(!BerTag::octet_string(vec![]).same(&BerTag::primitive(BerClass::Context, 4, vec![])));
}
