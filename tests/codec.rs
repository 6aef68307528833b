use libafl::{decode, encode, Error, Event, MAX_EVENT_OVERHEAD};

fn same(a: &Event, b: &Event) -> bool {
    format!("{:?}", a) == format!("{:?}", b)
}

fn all_variants() -> Vec<Event> {
    vec![
        Event::NewTestcase {
            input: vec![0x01, 0x02],
            client_config: "fuzzer".to_string(),
            corpus_size: 1,
            observers_buf: vec![9, 9, 9],
            time: 1_000_000,
            executions: 1,
        },
        Event::UpdateStats { time: 5, executions: 42 },
        Event::Objective { objective_size: 3 },
        Event::Log { severity_level: 2, message: "hello".to_string() },
    ]
}

#[test]
fn codec_round_trip_every_variant() {
    for e in all_variants() {
        let bytes = encode(&e);
        let back = decode(&bytes).unwrap();
        assert!(same(&e, &back));
    }
}

#[test]
fn codec_round_trip_extremes() {
    let e = Event::NewTestcase {
        input: vec![],
        client_config: String::new(),
        corpus_size: u64::MAX,
        observers_buf: vec![0xFF; 300],
        time: u64::MAX,
        executions: 0,
    };
    let bytes = encode(&e);
    assert!(same(&e, &decode(&bytes).unwrap()));
}

#[test]
fn codec_size_is_bounded() {
    let e = Event::UpdateStats { time: u64::MAX, executions: u64::MAX };
    let bytes = encode(&e);
    assert_eq!(bytes.len(), 21);
    assert!(bytes.len() as u64 <= MAX_EVENT_OVERHEAD);
    let t = Event::NewTestcase {
        input: vec![1; 10],
        client_config: "ab".to_string(),
        corpus_size: u64::MAX,
        observers_buf: vec![2; 5],
        time: u64::MAX,
        executions: u64::MAX,
    };
    let payload = 10 + 3 + 5;
    assert!(encode(&t).len() as u64 <= MAX_EVENT_OVERHEAD + payload);
}

#[test]
fn codec_exact_bytes() {
    assert_eq!(encode(&Event::UpdateStats { time: 1, executions: 42 }), vec![1, 1, 42]);
    assert_eq!(encode(&Event::Objective { objective_size: 300 }), vec![2, 0xAC, 0x02]);
    assert_eq!(
        encode(&Event::Log { severity_level: 0, message: "Hi!".to_string() }),
        vec![3, 0, 3, b'H', b'i', b'!']
    );
    assert_eq!(
        encode(&Event::NewTestcase {
            input: vec![0x01, 0x02],
            client_config: "c".to_string(),
            corpus_size: 1,
            observers_buf: vec![7],
            time: 2,
            executions: 1,
        }),
        vec![0, 2, 1, 2, 1, b'c', 1, 1, 7, 2, 1]
    );
}

#[test]
fn codec_decodes_known_bytes() {
    let e = decode(&[2, 0xAC, 0x02]).unwrap();
    assert!(same(&e, &Event::Objective { objective_size: 300 }));
    let trailing = decode(&[1, 1, 42, 0xEE]).unwrap();
    assert!(same(&trailing, &Event::UpdateStats { time: 1, executions: 42 }));
}

#[test]
fn codec_unknown_variant() {
    assert!(matches!(decode(&[4, 0, 0]), Err(Error::UnknownVariant)));
    assert!(matches!(decode(&[0x80, 0x01]), Err(Error::UnknownVariant)));
}

#[test]
fn codec_malformed_frames() {
    assert!(matches!(decode(&[]), Err(Error::MalformedFrame)));
    assert!(matches!(decode(&[1, 5]), Err(Error::MalformedFrame)));
    assert!(matches!(decode(&[0, 9, 1, 2]), Err(Error::MalformedFrame)));
    assert!(matches!(decode(&[3, 0, 2, 0xFF, 0xFE]), Err(Error::MalformedFrame)));
}

#[test]
fn event_names() {
    let names: Vec<&str> = all_variants().iter().map(|e| e.name()).collect();
    assert_eq!(names, vec!["New Testcase", "Stats", "Objective", "Log"]);
}

#[test]
fn codec_fields_past_the_end() {
    for tag in 0u8..4 {
        assert!(matches!(decode(&[tag]), Err(Error::MalformedFrame)));
    }
    assert!(matches!(decode(&[0, 5, 1, 2]), Err(Error::MalformedFrame)));
}
