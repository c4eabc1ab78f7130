use web3_gateway::bytes::{bytes_equal, copy_bytes};
use web3_gateway::metrics::{Metrics, Operation, OperationMetrics};
use web3_gateway::registry::{CallRegistry, Outcome, Subscription};
use web3_gateway::service::{
    call_contract_reply, delivery_reply, is_valid_call_id, subscription_reply, StatusCode,
    Web3Service, CANCELED_DESCRIPTION, EXPIRED_DESCRIPTION,
};
use web3_gateway::CALL_ID_LENGTH;

fn output_of(o: &Outcome) -> Vec<u8> {
    match o {
        Outcome::Output(b) => b.clone(),
        Outcome::Failure(d) => panic!("unexpected failure: {}", d),
    }
}

#[test]
fn ping_yields_pong() {
    let reply = call_contract_reply(Some(Ok(b"pong".to_vec())));
    assert_eq!(reply.ok(), Some(b"pong".to_vec()));
}

#[test]
fn call_contract_returns_output_unchanged() {
    let mut service = Web3Service::new();
    let output = vec![0u8, 255, 7, 7, 1];
    let (reply, deliveries) = service.call_contract(None, Some(Ok(output.clone())), 0);
    assert_eq!(reply.ok(), Some(output));
    assert!(deliveries.is_empty());
    assert_eq!(service.record_count(), 0);
}

#[test]
fn call_contract_execution_error_is_internal() {
    let reply = call_contract_reply(Some(Err("out of gas".to_string())));
    let status = reply.err().unwrap();
    assert_eq!(status.code, StatusCode::Internal);
    assert_eq!(status.message, Some("out of gas".to_string()));
}

#[test]
fn call_contract_dropped_channel_is_internal() {
    let status = call_contract_reply(None).err().unwrap();
    assert_eq!(status.code, StatusCode::Internal);
    assert_eq!(status.message, Some(CANCELED_DESCRIPTION.to_string()));
}

#[test]
fn short_id_is_invalid_argument_without_record() {
    let mut service = Web3Service::new();
    let id = vec![0u8; 31];
    let status = service.wait_contract_call(&id, 1, 0).err().unwrap();
    assert_eq!(status.code, StatusCode::InvalidArgument);
    assert_eq!(status.message, None);
    assert!(!service.has_record(&id));
    assert_eq!(service.record_count(), 0);
}

#[test]
fn long_and_empty_ids_are_invalid_arguments() {
    let mut service = Web3Service::new();
    for len in [0usize, 33, 64] {
        let id = vec![9u8; len];
        let status = service.wait_contract_call(&id, 1, 0).err().unwrap();
        assert_eq!(status.code, StatusCode::InvalidArgument);
    }
    assert_eq!(service.record_count(), 0);
    let unrelated = vec![1u8; 32];
    let deliveries = service.publish(&vec![0u8; 31], Outcome::Output(b"x".to_vec()));
    assert!(deliveries.is_empty());
    assert!(!service.has_record(&unrelated));
}

#[test]
fn two_waiters_then_publish_both_get_result() {
    let mut service = Web3Service::new();
    let id = vec![0x42u8; CALL_ID_LENGTH];
    let a = service.wait_contract_call(&id, 1, 0).ok().unwrap();
    let b = service.wait_contract_call(&id, 2, 0).ok().unwrap();
    assert!(matches!(a, Subscription::Waiting(1)));
    assert!(matches!(b, Subscription::Waiting(2)));
    assert_eq!(service.record_count(), 1);
    let deliveries = service.publish(&id, Outcome::Output(b"result".to_vec()));
    assert_eq!(deliveries.len(), 2);
    assert_eq!(deliveries[0].subscriber, 1);
    assert_eq!(deliveries[1].subscriber, 2);
    for d in deliveries {
        let reply = delivery_reply(Some(d.outcome));
        assert_eq!(reply.ok(), Some(b"result".to_vec()));
    }
}

#[test]
fn first_publish_wins() {
    let mut service = Web3Service::new();
    let id = vec![3u8; 32];
    assert!(matches!(service.wait_contract_call(&id, 10, 0).ok().unwrap(), Subscription::Waiting(10)));
    let first = service.publish(&id, Outcome::Output(b"one".to_vec()));
    assert_eq!(first.len(), 1);
    assert_eq!(output_of(&first[0].outcome), b"one".to_vec());
    let second = service.publish(&id, Outcome::Output(b"two".to_vec()));
    assert!(second.is_empty());
    match service.wait_contract_call(&id, 11, 0).ok().unwrap() {
        Subscription::Ready(o) => assert_eq!(output_of(&o), b"one".to_vec()),
        _ => panic!("expected a ready outcome"),
    }
}

#[test]
fn publish_before_subscribe_answers_at_once() {
    let mut registry = CallRegistry::new();
    let id = vec![5u8; 32];
    assert!(registry.publish(&id, Outcome::Output(b"early".to_vec())).is_empty());
    match registry.subscribe(&id, 4) {
        Subscription::Ready(o) => assert_eq!(output_of(&o), b"early".to_vec()),
        _ => panic!("expected a ready outcome"),
    }
    assert_eq!(registry.len(), 1);
}

#[test]
fn failed_call_reaches_waiters_as_internal() {
    let mut service = Web3Service::new();
    let id = vec![6u8; 32];
    service.wait_contract_call(&id, 1, 0).ok().unwrap();
    let (reply, deliveries) = service.call_contract(Some(id.clone()), Some(Err("trap".to_string())), 0);
    let status = reply.err().unwrap();
    assert_eq!(status.code, StatusCode::Internal);
    assert_eq!(status.message, Some("trap".to_string()));
    assert_eq!(deliveries.len(), 1);
    let waiter = delivery_reply(Some(deliveries.into_iter().next().unwrap().outcome));
    assert_eq!(waiter.err().unwrap().message, Some("trap".to_string()));
}

#[test]
fn successful_call_with_id_publishes_output() {
    let mut service = Web3Service::new();
    let id = vec![8u8; 32];
    service.wait_contract_call(&id, 3, 0).ok().unwrap();
    let (reply, deliveries) = service.call_contract(Some(id.clone()), Some(Ok(b"out".to_vec())), 0);
    assert_eq!(reply.ok(), Some(b"out".to_vec()));
    assert_eq!(deliveries.len(), 1);
    assert_eq!(deliveries[0].subscriber, 3);
    assert_eq!(output_of(&deliveries[0].outcome), b"out".to_vec());
}

#[test]
fn dropped_execution_publishes_failure() {
    let mut service = Web3Service::new();
    let id = vec![2u8; 32];
    service.wait_contract_call(&id, 1, 0).ok().unwrap();
    let (_, deliveries) = service.call_contract(Some(id), None, 0);
    assert_eq!(deliveries.len(), 1);
    let waiter = delivery_reply(Some(deliveries.into_iter().next().unwrap().outcome));
    assert_eq!(waiter.err().unwrap().message, Some(CANCELED_DESCRIPTION.to_string()));
}

#[test]
fn dropped_delivery_is_internal() {
    let status = delivery_reply(None).err().unwrap();
    assert_eq!(status.code, StatusCode::Internal);
    assert_eq!(status.message, Some(CANCELED_DESCRIPTION.to_string()));
}

#[test]
fn evicted_call_reports_expired() {
    let mut service = Web3Service::new();
    let id = vec![1u8; 32];
    assert!(!service.evict(&id));
    service.publish(&id, Outcome::Output(b"done".to_vec()));
    assert!(service.evict(&id));
    assert!(!service.evict(&id));
    let sub = service.wait_contract_call(&id, 9, 0).ok().unwrap();
    assert!(matches!(sub, Subscription::Expired));
    let status = subscription_reply(sub).unwrap().err().unwrap();
    assert_eq!(status.code, StatusCode::Internal);
    assert_eq!(status.message, Some(EXPIRED_DESCRIPTION.to_string()));
    assert!(service.publish(&id, Outcome::Output(b"late".to_vec())).is_empty());
}

#[test]
fn pending_call_is_not_evicted() {
    let mut service = Web3Service::new();
    let id = vec![4u8; 32];
    service.wait_contract_call(&id, 1, 0).ok().unwrap();
    assert!(!service.evict(&id));
    assert_eq!(service.publish(&id, Outcome::Output(b"r".to_vec())).len(), 1);
}

#[test]
fn waiting_subscription_has_no_reply_yet() {
    assert!(subscription_reply(Subscription::Waiting(1)).is_none());
    let ready = subscription_reply(Subscription::Ready(Outcome::Output(b"v".to_vec())));
    assert_eq!(ready.unwrap().ok(), Some(b"v".to_vec()));
}

#[test]
fn distinct_ids_are_independent() {
    let mut service = Web3Service::new();
    let x = vec![1u8; 32];
    let mut y = vec![1u8; 32];
    y[31] = 2;
    service.wait_contract_call(&x, 1, 0).ok().unwrap();
    service.wait_contract_call(&y, 2, 0).ok().unwrap();
    assert_eq!(service.record_count(), 2);
    let dx = service.publish(&x, Outcome::Output(b"x".to_vec()));
    assert_eq!(dx.len(), 1);
    assert_eq!(dx[0].subscriber, 1);
    let dy = service.publish(&y, Outcome::Output(b"y".to_vec()));
    assert_eq!(dy.len(), 1);
    assert_eq!(dy[0].subscriber, 2);
}

#[test]
fn metrics_count_each_invocation_once() {
    let mut service = Web3Service::new();
    let zero = service.metrics();
    assert_eq!(zero.call_contract, OperationMetrics { calls: 0, latency_total: 0, latency_max: 0 });
    service.call_contract(None, Some(Ok(b"a".to_vec())), 120);
    service.call_contract(None, Some(Err("e".to_string())), 30);
    let _ = service.wait_contract_call(&vec![0u8; 3], 1, 0);
    let m = service.metrics();
    assert_eq!(m.call_contract, OperationMetrics { calls: 2, latency_total: 150, latency_max: 120 });
    assert_eq!(m.wait_contract_call, OperationMetrics { calls: 1, latency_total: 0, latency_max: 0 });
    assert_eq!(m.get(Operation::WaitContractCall).calls, 1);
}

#[test]
fn metrics_count_waits_on_every_path() {
    let mut service = Web3Service::new();
    let id = vec![7u8; 32];
    let _ = service.wait_contract_call(&vec![7u8; 5], 1, 4);
    let _ = service.wait_contract_call(&id, 2, 9);
    service.publish(&id, Outcome::Failure("agreement failed".to_string()));
    let _ = service.wait_contract_call(&id, 3, 2);
    service.call_contract(None, None, 11);
    let m = service.metrics();
    assert_eq!(m.wait_contract_call, OperationMetrics { calls: 3, latency_total: 15, latency_max: 9 });
    assert_eq!(m.call_contract, OperationMetrics { calls: 1, latency_total: 11, latency_max: 11 });
}

#[test]
fn repeated_token_is_delivered_once() {
    let mut registry = CallRegistry::new();
    let id = vec![9u8; 32];
    assert!(matches!(registry.subscribe(&id, 5), Subscription::Waiting(5)));
    assert!(matches!(registry.subscribe(&id, 5), Subscription::Waiting(5)));
    assert!(matches!(registry.subscribe(&id, 6), Subscription::Waiting(6)));
    let deliveries = registry.publish(&id, Outcome::Output(b"once".to_vec()));
    assert_eq!(deliveries.len(), 2);
    assert_eq!(deliveries[0].subscriber, 5);
    assert_eq!(deliveries[1].subscriber, 6);
}

#[test]
fn metrics_saturate_at_the_largest_value() {
    let mut m = Metrics::new();
    m.call_contract = OperationMetrics { calls: u64::MAX, latency_total: u64::MAX - 1, latency_max: 5 };
    m.record(Operation::CallContract, 10);
    assert_eq!(m.call_contract, OperationMetrics { calls: u64::MAX, latency_total: u64::MAX, latency_max: 10 });
}

#[test]
fn call_id_length_is_enforced() {
    assert!(is_valid_call_id(&vec![0u8; 32]));
    assert!(!is_valid_call_id(&vec![0u8; 31]));
    assert!(!is_valid_call_id(&vec![0u8; 33]));
}

#[test]
fn byte_helpers() {
    let v = vec![1u8, 2, 3];
    assert_eq!(copy_bytes(&v), v);
    assert!(bytes_equal(&v, &vec![1, 2, 3]));
    assert!(!bytes_equal(&v, &vec![1, 2, 4]));
    assert!(!bytes_equal(&v, &vec![1, 2]));
}
