use caligula::external::SendLog;
use caligula::rpc::{begin_request, handle_rx_next, RequestMap, RxEvent, RxOutcome};
use std::collections::HashMap;

#[test]
fn request_ids_double_plus_one_and_stop_at_max() {
    let mut map: RequestMap<u32> = RequestMap::new(HashMap::new());
    let ids: Vec<u64> = (0..5).map(|_| map.allocate_request_slot().0).collect();
    assert_eq!(ids, vec![0, 1, 3, 7, 15]);
    let mut last = 0;
    for _ in 0..70 {
        last = map.allocate_request_slot().0;
    }
    assert_eq!(last, u64::MAX);
    assert_eq!(map.allocate_request_slot().0, u64::MAX);
}

#[test]
fn response_reaches_its_request() {
    let mut sent = SendLog::new();
    let mut map = Some(RequestMap::<u32>::new(HashMap::new()));
    let (id0, mut rx0) = begin_request(&mut map).unwrap();
    let (id1, mut rx1) = begin_request(&mut map).unwrap();
    assert_eq!((id0, id1), (0, 1));
    let out = handle_rx_next(&mut map, RxEvent::Response { request_id: 1, value: 42 }, &mut sent);
    assert_eq!(out, RxOutcome::Delivered);
    assert_eq!(rx1.try_recv().unwrap(), 42);
    assert!(rx0.try_recv().is_err());
    assert!(map.is_some());
}

#[test]
fn unknown_and_undecodable_messages_are_dropped() {
    let mut sent = SendLog::new();
    let mut map = Some(RequestMap::<u32>::new(HashMap::new()));
    let (_, mut rx) = begin_request(&mut map).unwrap();
    assert_eq!(
        handle_rx_next(&mut map, RxEvent::Response { request_id: 99, value: 1 }, &mut sent),
        RxOutcome::UnknownRequest(99)
    );
    assert_eq!(handle_rx_next(&mut map, RxEvent::Undecodable, &mut sent), RxOutcome::Undecodable);
    assert!(map.is_some());
    assert!(rx.try_recv().is_err());
}

#[test]
fn failure_is_broadcast_and_disconnects() {
    let mut sent = SendLog::new();
    let mut map = Some(RequestMap::<Result<u32, String>>::new(HashMap::new()));
    let (_, mut rx0) = begin_request(&mut map).unwrap();
    let (_, mut rx1) = begin_request(&mut map).unwrap();
    let out = handle_rx_next(&mut map, RxEvent::Failure(Err("broken pipe".to_string())), &mut sent);
    assert_eq!(out, RxOutcome::FailureBroadcast);
    assert_eq!(rx0.try_recv().unwrap(), Err("broken pipe".to_string()));
    assert_eq!(rx1.try_recv().unwrap(), Err("broken pipe".to_string()));
    assert!(map.is_none());
    assert!(begin_request(&mut map).is_none());
}

#[test]
fn closing_disconnects_waiting_requests() {
    let mut sent = SendLog::new();
    let mut map = Some(RequestMap::<u32>::new(HashMap::new()));
    let (_, mut rx) = begin_request(&mut map).unwrap();
    assert_eq!(handle_rx_next(&mut map, RxEvent::Closed, &mut sent), RxOutcome::Disconnected);
    assert!(map.is_none());
    assert!(matches!(
        rx.try_recv(),
        Err(tokio::sync::oneshot::error::TryRecvError::Closed)
    ));
    assert_eq!(handle_rx_next(&mut map, RxEvent::Closed, &mut sent), RxOutcome::AlreadyDisconnected);
    assert!(begin_request(&mut map).is_none());
}

#[test]
fn closing_the_map_directly_answers_every_request() {
    let mut sent = SendLog::new();
    let mut map: RequestMap<u8> = RequestMap::new(HashMap::new());
    let (_, mut rx0) = map.allocate_request_slot();
    let (_, mut rx1) = map.allocate_request_slot();
    map.close_with_global_result(7, &mut sent);
    assert_eq!(rx0.try_recv().unwrap(), 7);
    assert_eq!(rx1.try_recv().unwrap(), 7);
}

#[test]
fn each_request_gets_its_own_channel() {
    let mut sent = SendLog::new();
    let mut map = Some(RequestMap::<u32>::new(HashMap::new()));
    let (id0, mut rx0) = begin_request(&mut map).unwrap();
    let (id1, mut rx1) = begin_request(&mut map).unwrap();
    let (id3, mut rx3) = begin_request(&mut map).unwrap();
    assert_eq!((id0, id1, id3), (0, 1, 3));
    handle_rx_next(&mut map, RxEvent::Response { request_id: 3, value: 30 }, &mut sent);
    handle_rx_next(&mut map, RxEvent::Response { request_id: 0, value: 10 }, &mut sent);
    assert_eq!(rx3.try_recv().unwrap(), 30);
    assert_eq!(rx0.try_recv().unwrap(), 10);
    assert!(rx1.try_recv().is_err());
}
