use libafl::events::LLMP_TAG_RESTART;
use libafl::{
    deserialize_state_mgr, respawn_after_exit, resume_worker, serialize_state_mgr, Error,
    LlmpClientDescription, LlmpEventManager, LlmpRestartingEventManager, LlmpSender,
    PortOutcome, Stats,
};

fn desc() -> LlmpClientDescription {
    LlmpClientDescription { client_id: 3, sender_map_id: 1000, receiver_map_id: 300 }
}

#[test]
fn restart_cycle() {
    // First generation: nothing on the page.
    let page = LlmpSender::new(0, 55);
    let (state, mut worker) = resume_worker(page.recv_buf(), &desc(), page).unwrap();
    assert!(state.is_none());
    assert_eq!(worker.llmp_mgr().describe(), Ok(desc()));
    // The worker leaves its state {count: 7} and exits.
    worker.on_restart(&vec![7]).unwrap();
    assert_eq!(worker.sender().size_used(), 1);
    let next = respawn_after_exit(worker.sender().size_used(), 0).unwrap();
    assert_eq!(next, 1);
    // Second generation.
    let received = worker.sender().recv_buf();
    assert_eq!(received.as_ref().unwrap().tag, LLMP_TAG_RESTART);
    let page = LlmpSender::new(0, 55);
    let (state, worker2) = resume_worker(received, &desc(), page).unwrap();
    assert_eq!(state, Some(vec![7]));
    assert_eq!(worker2.llmp_mgr().describe(), Ok(desc()));
    assert_eq!(worker2.sender().size_used(), 0);
}

#[test]
fn restart_keeps_only_last_snapshot() {
    let mgr = LlmpEventManager::existing_client_from_description(&desc());
    let mut worker = LlmpRestartingEventManager::new(mgr, LlmpSender::new(0, 1));
    worker.on_restart(&vec![1, 1]).unwrap();
    worker.on_restart(&vec![2, 2, 2]).unwrap();
    assert_eq!(worker.sender().size_used(), 1);
    let (state, _) = resume_worker(worker.sender().recv_buf(), &desc(), LlmpSender::new(0, 1)).unwrap();
    assert_eq!(state, Some(vec![2, 2, 2]));
}

#[test]
fn lost_snapshot() {
    let page = LlmpSender::new(0, 9);
    assert_eq!(respawn_after_exit(page.size_used(), 4), Err(Error::SnapshotMissing));
}

#[test]
fn generation_counter_wraps() {
    assert_eq!(respawn_after_exit(1, u64::MAX), Ok(0));
}

#[test]
fn broker_cannot_snapshot() {
    let broker = LlmpEventManager::new_on_port(Stats::new(), 1, PortOutcome::Bound);
    assert_eq!(serialize_state_mgr(&vec![1], &broker).err(), Some(Error::IllegalState));
    let mut worker = LlmpRestartingEventManager::new(broker, LlmpSender::new(0, 1));
    worker.sender_mut().send_buf(LLMP_TAG_RESTART, vec![1]);
    assert_eq!(worker.on_restart(&vec![1]), Err(Error::IllegalState));
    assert_eq!(worker.sender().size_used(), 0);
}

#[test]
fn snapshot_bytes_and_round_trip() {
    let mgr = LlmpEventManager::existing_client_from_description(&desc());
    let bytes = serialize_state_mgr(&vec![0xAA, 0xBB], &mgr).unwrap();
    assert_eq!(bytes, vec![2, 0xAA, 0xBB, 3, 0xE8, 0x07, 0xAC, 0x02]);
    let (state, back) = deserialize_state_mgr(&bytes).unwrap();
    assert_eq!(state, vec![0xAA, 0xBB]);
    assert_eq!(back.describe(), Ok(desc()));
    assert_eq!(deserialize_state_mgr(&bytes[..4]).err(), Some(Error::MalformedFrame));
}

#[test]
fn client_id_out_of_range_is_malformed() {
    let bytes = vec![0, 0x80, 0x80, 0x80, 0x80, 0x10, 0, 0];
    assert_eq!(deserialize_state_mgr(&bytes).err(), Some(Error::MalformedFrame));
}

#[test]
fn broker_loop_end_is_shutting_down() {
    assert_eq!(libafl::broker_loop_ended(Ok(())), Error::ShuttingDown);
    assert_eq!(libafl::broker_loop_ended(Err(Error::TransportFailure)), Error::TransportFailure);
}

#[test]
fn snapshot_empty_bytes_are_malformed() {
    assert_eq!(deserialize_state_mgr(&[]).err(), Some(Error::MalformedFrame));
    assert_eq!(deserialize_state_mgr(&[5, 1, 2]).err(), Some(Error::MalformedFrame));
}
