use server_knocker::proxy::tcp::{
    classify, relay, relay_step, DialDecision, DialFailure, FailureClass, NextStep, RelayStep,
    TCPProxy, BUFFER_SIZE,
};
use server_knocker::proxy::udp::Endpoint;
use server_knocker::proxy::ProxyEvent;

fn addr(port: u16) -> Endpoint {
    Endpoint { v6: false, ip: 0x7f00_0001, port, flowinfo: 0, scope_id: 0 }
}

#[test]
fn transient_failures_mean_unavailable() {
    assert_eq!(classify(DialFailure::ConnectionRefused), FailureClass::Unavailable);
    assert_eq!(classify(DialFailure::ConnectionReset), FailureClass::Unavailable);
    assert_eq!(classify(DialFailure::ConnectionAborted), FailureClass::Unavailable);
    assert_eq!(classify(DialFailure::BrokenPipe), FailureClass::Unavailable);
    assert_eq!(classify(DialFailure::TimedOut), FailureClass::Unavailable);
}

#[test]
fn any_other_failure_is_unexpected() {
    assert_eq!(classify(DialFailure::Other), FailureClass::Unexpected);
}

#[test]
fn refused_dial_reports_the_destination_and_keeps_accepting() {
    let p = TCPProxy::new(addr(9000), addr(8000));
    assert_eq!(
        p.on_dial(Err(DialFailure::ConnectionRefused)),
        DialDecision {
            event: Some(ProxyEvent::DestinationNotResponding),
            next: NextStep::Abandon,
        }
    );
}

#[test]
fn refused_dial_with_a_gate_waits_for_readiness() {
    let mut p = TCPProxy::new(addr(9000), addr(8000));
    assert_eq!(p.start(true), addr(8000));
    assert_eq!(
        p.on_dial(Err(DialFailure::TimedOut)),
        DialDecision {
            event: Some(ProxyEvent::DestinationNotResponding),
            next: NextStep::AwaitReadiness,
        }
    );
}

#[test]
fn unexpected_dial_failure_is_fatal() {
    let mut p = TCPProxy::new(addr(9000), addr(8000));
    let fatal = DialDecision { event: Some(ProxyEvent::UnknownError), next: NextStep::Fail };
    assert_eq!(p.on_dial(Err(DialFailure::Other)), fatal);
    p.start(true);
    assert_eq!(p.on_dial(Err(DialFailure::Other)), fatal);
}

#[test]
fn successful_dial_starts_piping() {
    let p = TCPProxy::new(addr(9000), addr(8000));
    assert_eq!(p.on_dial(Ok(())), DialDecision { event: None, next: NextStep::Pipe });
}

#[test]
fn start_without_a_gate_holds_nothing() {
    let mut p = TCPProxy::new(addr(9000), addr(8000));
    assert_eq!(p.start(false), addr(8000));
    assert_eq!(p, TCPProxy { destination: addr(9000), listen_addr: addr(8000), hold: false });
}

#[test]
fn read_decides_the_next_step() {
    assert_eq!(relay_step(Ok(0)), RelayStep::Finish);
    assert_eq!(relay_step(Ok(1)), RelayStep::Forward { len: 1, event: ProxyEvent::GotPacket });
    assert_eq!(relay_step(Ok(BUFFER_SIZE)), RelayStep::Forward { len: 1536, event: ProxyEvent::GotPacket });
    assert_eq!(relay_step(Err(())), RelayStep::Fail);
}

#[test]
fn bytes_arrive_in_order_whatever_the_chunking() {
    let bytes: Vec<u8> = (0..=255u8).chain(0..=255u8).collect();
    let whole = vec![bytes.clone()];
    let halves = vec![bytes[..256].to_vec(), bytes[256..].to_vec()];
    let singles: Vec<Vec<u8>> = bytes.iter().map(|b| vec![*b]).collect();
    assert_eq!(relay(&whole), (bytes.clone(), 1));
    assert_eq!(relay(&halves), (bytes.clone(), 2));
    assert_eq!(relay(&singles), (bytes.clone(), 512));
}

#[test]
fn relay_ends_at_the_peers_close() {
    let reads = vec![vec![1u8, 2], vec![3u8], Vec::new(), vec![4u8, 5]];
    assert_eq!(relay(&reads), (vec![1u8, 2, 3], 2));
    assert_eq!(relay(&Vec::new()), (Vec::new(), 0));
    assert_eq!(relay(&vec![Vec::new()]), (Vec::new(), 0));
}
