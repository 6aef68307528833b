use libafl::events::{LLMP_TAG_EVENT_TO_BOTH, LLMP_TAG_EVENT_TO_CLIENT};
use libafl::{
    encode, handle_in_broker, on_broker_message, BrokerEventResult, ClientStats, Error, Event,
    LlmpClientDescription, LlmpEventManager, LlmpMsgHookResult, PortOutcome, Stats,
};

fn desc(id: u32) -> LlmpClientDescription {
    LlmpClientDescription { client_id: id, sender_map_id: 100 + id as u64, receiver_map_id: 200 }
}

#[test]
fn solo_broker_ping() {
    let mut broker = LlmpEventManager::new_on_port(Stats::new(), 1337, PortOutcome::Bound);
    let mut client = LlmpEventManager::new_on_port(Stats::new(), 1337, PortOutcome::Connected(desc(1)));
    assert!(broker.is_broker());
    assert!(!client.is_broker());
    client.fire(&Event::UpdateStats { executions: 42, time: 7 }).unwrap();
    let sent = client.take_outgoing();
    assert_eq!(sent.len(), 1);
    assert_eq!(sent[0].tag, LLMP_TAG_EVENT_TO_BOTH);
    assert_eq!(sent[0].sender, 1);
    let verdict = broker.broker_on_message(&sent[0]).unwrap();
    assert_eq!(verdict, LlmpMsgHookResult::Handled);
    let record = broker.client_stats_for(1).unwrap();
    assert_eq!(record.executions, 42);
    assert_eq!(record.last_update_time, 7);
}

#[test]
fn broker_objective() {
    let mut broker = LlmpEventManager::new_on_port(Stats::new(), 1337, PortOutcome::Bound);
    let mut client = LlmpEventManager::existing_client_from_description(&desc(5));
    client.fire(&Event::Objective { objective_size: 3 }).unwrap();
    let sent = client.take_outgoing();
    assert_eq!(broker.broker_on_message(&sent[0]), Ok(LlmpMsgHookResult::Handled));
    assert_eq!(broker.client_stats_for(5).unwrap().objective_size, 3);
}

#[test]
fn broker_classification_table() {
    let mut stats = Stats::new();
    let t = Event::NewTestcase {
        input: vec![1],
        client_config: "x".to_string(),
        corpus_size: 4,
        observers_buf: vec![],
        time: 9,
        executions: 11,
    };
    assert_eq!(handle_in_broker(&mut stats, 2, &t), BrokerEventResult::Forward);
    assert_eq!(
        stats.client_stats_for(2),
        ClientStats { corpus_size: 4, objective_size: 0, executions: 11, last_update_time: 9 }
    );
    let u = Event::UpdateStats { time: 10, executions: 20 };
    assert_eq!(handle_in_broker(&mut stats, 2, &u), BrokerEventResult::Handled);
    let o = Event::Objective { objective_size: 1 };
    assert_eq!(handle_in_broker(&mut stats, 2, &o), BrokerEventResult::Handled);
    assert_eq!(
        stats.client_stats_for(2),
        ClientStats { corpus_size: 4, objective_size: 1, executions: 20, last_update_time: 10 }
    );
    let l = Event::Log { severity_level: 1, message: "m".to_string() };
    assert_eq!(handle_in_broker(&mut stats, 3, &l), BrokerEventResult::Handled);
    assert!(!stats.contains(3));
    assert_eq!(stats.client_count(), 1);
}

#[test]
fn broker_stats_monotone_under_growing_reports() {
    let mut stats = Stats::new();
    let mut last = 0u64;
    for (i, execs) in [1u64, 5, 5, 9].iter().enumerate() {
        handle_in_broker(&mut stats, 1, &Event::UpdateStats { time: i as u64, executions: *execs });
        let now = stats.client_stats_for(1).executions;
        assert!(now >= last);
        last = now;
    }
    assert_eq!(last, 9);
}

#[test]
fn broker_forwards_other_tags_untouched() {
    let mut stats = Stats::new();
    let r = on_broker_message(&mut stats, 1, LLMP_TAG_EVENT_TO_CLIENT, &[0xFF, 0xFF]);
    assert_eq!(r, Ok(LlmpMsgHookResult::ForwardToClients));
    assert_eq!(stats.client_count(), 0);
}

#[test]
fn broker_forwards_testcases_and_skips_bad_frames() {
    let mut stats = Stats::new();
    let t = Event::NewTestcase {
        input: vec![1, 2],
        client_config: String::new(),
        corpus_size: 1,
        observers_buf: vec![],
        time: 0,
        executions: 1,
    };
    let r = on_broker_message(&mut stats, 4, LLMP_TAG_EVENT_TO_BOTH, &encode(&t));
    assert_eq!(r, Ok(LlmpMsgHookResult::ForwardToClients));
    assert_eq!(stats.client_stats_for(4).corpus_size, 1);
    assert_eq!(on_broker_message(&mut stats, 4, LLMP_TAG_EVENT_TO_BOTH, &[9]), Err(Error::UnknownVariant));
    assert_eq!(on_broker_message(&mut stats, 4, LLMP_TAG_EVENT_TO_BOTH, &[]), Err(Error::MalformedFrame));
}

#[test]
fn broker_loop_refused_on_client() {
    let mut client = LlmpEventManager::existing_client_from_description(&desc(1));
    client.fire(&Event::Objective { objective_size: 1 }).unwrap();
    let sent = client.take_outgoing();
    assert_eq!(client.broker_on_message(&sent[0]), Err(Error::IllegalState));
}

#[test]
fn role_is_fixed() {
    let mut broker = LlmpEventManager::new_on_port_std(Stats::new(), 1, PortOutcome::Bound);
    broker.fire(&Event::Objective { objective_size: 1 }).unwrap();
    let _ = broker.take_outgoing();
    assert!(broker.is_broker());
    assert_eq!(broker.describe(), Err(Error::IllegalState));
    assert_eq!(broker.to_env(), Err(Error::IllegalState));
    let client = LlmpEventManager::existing_client_from_env_std(Some(desc(3))).unwrap();
    assert!(!client.is_broker());
    assert_eq!(client.describe(), Ok(desc(3)));
    assert_eq!(client.to_env(), Ok(desc(3)));
    assert!(LlmpEventManager::existing_client_from_env(None).is_err());
}
