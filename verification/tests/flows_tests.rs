use rust_tcp_vpn::flows::{
    handle_flow, handle_local2remote_pkt, handle_remote2local_pkt, send_exit_pkt, Descriptor,
    FlowAction, FlowError, FlowEvent, FlowLoop, FlowState, Outcome, Stage, Status,
};
use rust_tcp_vpn::wire::{encode_data_frame, WireError};

fn data_frame(payload: &[u8], counter: u64) -> Vec<u8> {
    let mut out = Vec::new();
    encode_data_frame(&mut out, payload, counter).unwrap();
    out
}

fn ready(shutdown: bool, tcp: bool, tun: bool) -> FlowEvent {
    FlowEvent::Ready {
        count: shutdown as i32 + tcp as i32 + tun as i32,
        shutdown: Some(shutdown),
        tcp: Some(tcp),
        tun: Some(tun),
    }
}

fn received(bytes: &[u8], drained: bool) -> FlowEvent {
    FlowEvent::Received {
        bytes: bytes.to_vec(),
        drained,
    }
}

fn step(flow: &mut FlowLoop, event: FlowEvent) -> Result<FlowAction, FlowError> {
    assert!(flow.counter() < u64::MAX);
    handle_flow(flow, event)
}

#[test]
fn send_exit_pkt_appends_the_exit_frame() {
    let mut stream = vec![0xAB];
    send_exit_pkt(&mut stream, 0);
    assert_eq!(stream, vec![0xAB, 0, 0, 0, 2, 0, 0, 0, 0]);
    let mut stream = Vec::new();
    send_exit_pkt(&mut stream, 0x0102_0304);
    assert_eq!(stream, vec![0, 0, 0, 2, 1, 2, 3, 4]);
}

#[test]
fn local_packet_is_counted_and_framed() {
    let mut stream = Vec::new();
    let mut counter = 41u64;
    let packet = [0x45u8, 0, 0, 20];
    assert_eq!(
        handle_local2remote_pkt(&packet, &mut stream, &mut counter),
        Ok(Status::Continue)
    );
    assert_eq!(counter, 42);
    assert_eq!(
        stream,
        vec![0, 0, 0, 1, 0, 0, 0, 4, 0, 0, 0, 0, 0, 0, 0, 42, 0x45, 0, 0, 20]
    );
    assert_eq!(
        handle_local2remote_pkt(&packet, &mut stream, &mut counter),
        Ok(Status::Continue)
    );
    assert_eq!(counter, 43);
    assert_eq!(stream.len(), 40);
    assert_eq!(stream[35], 43);
}

#[test]
fn empty_local_packet_is_an_error() {
    let mut stream = vec![1u8];
    let mut counter = 5u64;
    assert_eq!(
        handle_local2remote_pkt(&[], &mut stream, &mut counter),
        Err(FlowError::EmptyPacket)
    );
    assert_eq!(counter, 5);
    assert_eq!(stream, vec![1u8]);
}

#[test]
fn oversized_local_packet_is_an_error() {
    let mut stream = Vec::new();
    let mut counter = 5u64;
    assert_eq!(
        handle_local2remote_pkt(&[0u8; 4097], &mut stream, &mut counter),
        Err(FlowError::Wire(WireError::Oversized(4097)))
    );
    assert_eq!(counter, 5);
    assert!(stream.is_empty());
    assert_eq!(
        handle_local2remote_pkt(&[0u8; 4096], &mut stream, &mut counter),
        Ok(Status::Continue)
    );
    assert_eq!(stream.len(), 16 + 4096);
}

#[test]
fn remote_data_frame_goes_to_the_device() {
    let mut tun = vec![9u8];
    let frame = data_frame(&[1, 2, 3], 7);
    assert_eq!(
        handle_remote2local_pkt(&frame, &mut tun),
        Ok(Status::Continue)
    );
    assert_eq!(tun, vec![9, 1, 2, 3]);
}

#[test]
fn remote_counter_has_no_effect() {
    let mut one = Vec::new();
    let mut other = Vec::new();
    handle_remote2local_pkt(&data_frame(&[1, 2, 3], 0), &mut one).unwrap();
    handle_remote2local_pkt(&data_frame(&[1, 2, 3], u64::MAX), &mut other).unwrap();
    assert_eq!(one, other);
    assert_eq!(one, vec![1, 2, 3]);
}

#[test]
fn remote_exit_frame_ends_the_session() {
    let mut tun = Vec::new();
    assert_eq!(
        handle_remote2local_pkt(&[0, 0, 0, 2, 0, 0, 0, 0], &mut tun),
        Ok(Status::ExitOk)
    );
    assert!(tun.is_empty());
}

#[test]
fn remote_frame_errors() {
    let mut tun = Vec::new();
    assert_eq!(
        handle_remote2local_pkt(&[0, 0, 0, 2, 0, 0, 0, 1], &mut tun),
        Err(FlowError::Wire(WireError::UnknownExitReason(1)))
    );
    assert_eq!(
        handle_remote2local_pkt(&[0, 0, 0, 7], &mut tun),
        Err(FlowError::Wire(WireError::UnknownFrameType(7)))
    );
    assert_eq!(
        handle_remote2local_pkt(
            &[0, 0, 0, 1, 0, 0, 0x10, 1, 0, 0, 0, 0, 0, 0, 0, 0],
            &mut tun
        ),
        Err(FlowError::Wire(WireError::Oversized(4097)))
    );
    assert!(tun.is_empty());
}

#[test]
fn remote_partial_frame_asks_for_more() {
    let mut tun = Vec::new();
    assert_eq!(
        handle_remote2local_pkt(&[], &mut tun),
        Ok(Status::NeedMore(4))
    );
    assert_eq!(
        handle_remote2local_pkt(&[0, 0, 0, 1], &mut tun),
        Ok(Status::NeedMore(12))
    );
    assert!(tun.is_empty());
}

#[test]
fn a_new_engine_waits_for_readiness() {
    let flow = FlowLoop::new();
    assert_eq!(flow.stage(), Stage::Polling);
    assert_eq!(flow.state(), FlowState::Running);
    assert_eq!(flow.counter(), 0);
}

#[test]
fn shutdown_has_priority() {
    for (tcp, tun) in [(false, false), (true, false), (false, true), (true, true)] {
        let mut flow = FlowLoop::new();
        assert_eq!(step(&mut flow, ready(true, tcp, tun)), Ok(FlowAction::ConsumeSignal));
        assert_eq!(flow.state(), FlowState::LocalShutdown);
        assert_eq!(
            step(&mut flow, FlowEvent::Done),
            Ok(FlowAction::Send(vec![0, 0, 0, 2, 0, 0, 0, 0]))
        );
        assert_eq!(flow.state(), FlowState::LocalShutdown);
        assert_eq!(
            step(&mut flow, FlowEvent::Done),
            Ok(FlowAction::Finish(Outcome::LocalExit))
        );
        assert_eq!(flow.state(), FlowState::Closed);
        assert_eq!(flow.counter(), 0);
    }
}

#[test]
fn shutdown_is_seen_before_unreadable_flags() {
    let mut flow = FlowLoop::new();
    let event = FlowEvent::Ready {
        count: 1,
        shutdown: Some(true),
        tcp: None,
        tun: None,
    };
    assert_eq!(step(&mut flow, event), Ok(FlowAction::ConsumeSignal));
}

#[test]
fn non_positive_poll_is_an_error() {
    for count in [0, -1, i32::MIN] {
        let mut flow = FlowLoop::new();
        let event = FlowEvent::Ready {
            count,
            shutdown: Some(true),
            tcp: Some(true),
            tun: Some(true),
        };
        assert_eq!(step(&mut flow, event), Err(FlowError::NonPositivePoll(count)));
        assert_eq!(flow.state(), FlowState::Closed);
    }
}

#[test]
fn unreadable_flags_are_errors() {
    let mut flow = FlowLoop::new();
    let event = FlowEvent::Ready {
        count: 1,
        shutdown: None,
        tcp: Some(true),
        tun: Some(true),
    };
    assert_eq!(
        step(&mut flow, event),
        Err(FlowError::UnknownReadiness(Descriptor::Shutdown))
    );
    let mut flow = FlowLoop::new();
    let event = FlowEvent::Ready {
        count: 1,
        shutdown: Some(false),
        tcp: None,
        tun: None,
    };
    assert_eq!(
        step(&mut flow, event),
        Err(FlowError::UnknownReadiness(Descriptor::Tun))
    );
    let mut flow = FlowLoop::new();
    let event = FlowEvent::Ready {
        count: 1,
        shutdown: Some(false),
        tcp: None,
        tun: Some(true),
    };
    assert_eq!(
        step(&mut flow, event),
        Err(FlowError::UnknownReadiness(Descriptor::Tcp))
    );
    assert_eq!(flow.state(), FlowState::Closed);
}

#[test]
fn nothing_ready_waits_again() {
    let mut flow = FlowLoop::new();
    let event = FlowEvent::Ready {
        count: 1,
        shutdown: Some(false),
        tcp: Some(false),
        tun: Some(false),
    };
    assert_eq!(step(&mut flow, event), Ok(FlowAction::Poll));
    assert_eq!(flow.stage(), Stage::Polling);
}

#[test]
fn device_alone_is_served() {
    let mut flow = FlowLoop::new();
    assert_eq!(step(&mut flow, ready(false, false, true)), Ok(FlowAction::Fetch));
    let packet = vec![0x45u8; 20];
    assert_eq!(
        step(&mut flow, FlowEvent::Packet { bytes: packet.clone() }),
        Ok(FlowAction::Send(data_frame(&packet, 1)))
    );
    assert_eq!(flow.counter(), 1);
    assert_eq!(step(&mut flow, FlowEvent::Done), Ok(FlowAction::Poll));
    assert_eq!(flow.stage(), Stage::Polling);
}

#[test]
fn counter_grows_by_one_per_packet() {
    let mut flow = FlowLoop::new();
    for n in 1..=5u64 {
        assert_eq!(step(&mut flow, ready(false, false, true)), Ok(FlowAction::Fetch));
        let packet = vec![n as u8; 3];
        assert_eq!(
            step(&mut flow, FlowEvent::Packet { bytes: packet.clone() }),
            Ok(FlowAction::Send(data_frame(&packet, n)))
        );
        assert_eq!(flow.counter(), n);
        assert_eq!(step(&mut flow, FlowEvent::Done), Ok(FlowAction::Poll));
    }
}

#[test]
fn empty_device_packet_is_fatal() {
    let mut flow = FlowLoop::new();
    assert_eq!(step(&mut flow, ready(false, false, true)), Ok(FlowAction::Fetch));
    assert_eq!(
        step(&mut flow, FlowEvent::Packet { bytes: vec![] }),
        Err(FlowError::EmptyPacket)
    );
    assert_eq!(flow.state(), FlowState::Closed);
    assert_eq!(flow.counter(), 0);
}

#[test]
fn inbound_frame_is_read_in_three_steps() {
    let mut flow = FlowLoop::new();
    let frame = data_frame(&[7, 8, 9], 1);
    assert_eq!(step(&mut flow, ready(false, true, false)), Ok(FlowAction::Receive(4)));
    assert_eq!(
        step(&mut flow, received(&frame[..4], false)),
        Ok(FlowAction::Receive(12))
    );
    assert_eq!(flow.stage(), Stage::Receiving { need: 12 });
    assert_eq!(
        step(&mut flow, received(&frame[4..16], false)),
        Ok(FlowAction::Receive(3))
    );
    assert_eq!(
        step(&mut flow, received(&frame[16..], true)),
        Ok(FlowAction::Deliver(vec![7, 8, 9]))
    );
    assert_eq!(flow.stage(), Stage::Delivering { drained: true });
    assert_eq!(step(&mut flow, FlowEvent::Done), Ok(FlowAction::Poll));
    assert_eq!(flow.counter(), 0);
}

#[test]
fn inbound_frame_without_payload() {
    let mut flow = FlowLoop::new();
    let frame = data_frame(&[], 1);
    assert_eq!(step(&mut flow, ready(false, true, false)), Ok(FlowAction::Receive(4)));
    assert_eq!(
        step(&mut flow, received(&frame[..4], false)),
        Ok(FlowAction::Receive(12))
    );
    assert_eq!(
        step(&mut flow, received(&frame[4..], true)),
        Ok(FlowAction::Deliver(vec![]))
    );
    assert_eq!(step(&mut flow, FlowEvent::Done), Ok(FlowAction::Poll));
}

#[test]
fn burst_is_drained_before_the_device_is_served() {
    let mut flow = FlowLoop::new();
    let payloads: [&[u8]; 4] = [&[1], &[2, 2], &[], &[4, 4, 4, 4]];
    let mut actions = Vec::new();
    actions.push(step(&mut flow, ready(false, true, true)).unwrap());
    for (i, payload) in payloads.iter().enumerate() {
        let last = i + 1 == payloads.len();
        let frame = data_frame(payload, 100 + i as u64);
        actions.push(step(&mut flow, received(&frame[..4], false)).unwrap());
        actions.push(
            step(
                &mut flow,
                received(&frame[4..16], last && payload.is_empty()),
            )
            .unwrap(),
        );
        if !payload.is_empty() {
            actions.push(step(&mut flow, received(&frame[16..], last)).unwrap());
        }
        actions.push(step(&mut flow, FlowEvent::Done).unwrap());
    }
    let packet = vec![0xEEu8; 20];
    actions.push(step(&mut flow, FlowEvent::Packet { bytes: packet.clone() }).unwrap());
    actions.push(step(&mut flow, FlowEvent::Done).unwrap());
    assert_eq!(
        actions,
        vec![
            FlowAction::Receive(4),
            FlowAction::Receive(12),
            FlowAction::Receive(1),
            FlowAction::Deliver(vec![1]),
            FlowAction::Receive(4),
            FlowAction::Receive(12),
            FlowAction::Receive(2),
            FlowAction::Deliver(vec![2, 2]),
            FlowAction::Receive(4),
            FlowAction::Receive(12),
            FlowAction::Deliver(vec![]),
            FlowAction::Receive(4),
            FlowAction::Receive(12),
            FlowAction::Receive(4),
            FlowAction::Deliver(vec![4, 4, 4, 4]),
            FlowAction::Fetch,
            FlowAction::Send(data_frame(&packet, 1)),
            FlowAction::Poll,
        ]
    );
    assert_eq!(flow.counter(), 1);
}

#[test]
fn drained_connection_without_device_waits_again() {
    let mut flow = FlowLoop::new();
    let frame = data_frame(&[5], 1);
    step(&mut flow, ready(false, true, false)).unwrap();
    step(&mut flow, received(&frame[..4], false)).unwrap();
    step(&mut flow, received(&frame[4..16], false)).unwrap();
    step(&mut flow, received(&frame[16..], true)).unwrap();
    assert_eq!(step(&mut flow, FlowEvent::Done), Ok(FlowAction::Poll));
}

#[test]
fn readiness_of_the_device_is_not_carried_over() {
    let mut flow = FlowLoop::new();
    assert_eq!(step(&mut flow, ready(false, false, true)), Ok(FlowAction::Fetch));
    step(&mut flow, FlowEvent::Packet { bytes: vec![1] }).unwrap();
    step(&mut flow, FlowEvent::Done).unwrap();
    let frame = data_frame(&[5], 1);
    step(&mut flow, ready(false, true, false)).unwrap();
    step(&mut flow, received(&frame[..4], false)).unwrap();
    step(&mut flow, received(&frame[4..16], false)).unwrap();
    step(&mut flow, received(&frame[16..], true)).unwrap();
    assert_eq!(step(&mut flow, FlowEvent::Done), Ok(FlowAction::Poll));
}

#[test]
fn remote_exit_is_reported() {
    let mut flow = FlowLoop::new();
    assert_eq!(step(&mut flow, ready(false, true, true)), Ok(FlowAction::Receive(4)));
    assert_eq!(
        step(&mut flow, received(&[0, 0, 0, 2], false)),
        Ok(FlowAction::Receive(4))
    );
    assert_eq!(flow.state(), FlowState::RemoteShutdown);
    assert_eq!(
        step(&mut flow, received(&[0, 0, 0, 0], true)),
        Ok(FlowAction::Finish(Outcome::RemoteExit))
    );
    assert_eq!(flow.state(), FlowState::Closed);
}

#[test]
fn unknown_exit_reason_ends_the_session() {
    let mut flow = FlowLoop::new();
    step(&mut flow, ready(false, true, false)).unwrap();
    step(&mut flow, received(&[0, 0, 0, 2], false)).unwrap();
    assert_eq!(
        step(&mut flow, received(&[0, 0, 0, 5], true)),
        Err(FlowError::Wire(WireError::UnknownExitReason(5)))
    );
    assert_eq!(flow.state(), FlowState::Closed);
}

#[test]
fn unknown_frame_type_ends_the_session() {
    let mut flow = FlowLoop::new();
    step(&mut flow, ready(false, true, false)).unwrap();
    assert_eq!(
        step(&mut flow, received(&[0, 0, 0, 9], false)),
        Err(FlowError::Wire(WireError::UnknownFrameType(9)))
    );
    assert_eq!(flow.state(), FlowState::Closed);
}

#[test]
fn oversized_inbound_frame_is_fatal() {
    let mut flow = FlowLoop::new();
    step(&mut flow, ready(false, true, false)).unwrap();
    step(&mut flow, received(&[0, 0, 0, 1], false)).unwrap();
    assert_eq!(
        step(
            &mut flow,
            received(&[0, 0, 0x10, 1, 0, 0, 0, 0, 0, 0, 0, 0], false)
        ),
        Err(FlowError::Wire(WireError::Oversized(4097)))
    );
    assert_eq!(flow.state(), FlowState::Closed);
}

#[test]
fn reports_out_of_turn_are_fatal() {
    let mut flow = FlowLoop::new();
    assert_eq!(step(&mut flow, FlowEvent::Done), Err(FlowError::UnexpectedEvent));
    assert_eq!(flow.state(), FlowState::Closed);

    let mut flow = FlowLoop::new();
    step(&mut flow, ready(false, true, false)).unwrap();
    assert_eq!(
        step(&mut flow, received(&[0, 0, 0], false)),
        Err(FlowError::UnexpectedEvent)
    );

    let mut flow = FlowLoop::new();
    step(&mut flow, ready(false, false, true)).unwrap();
    assert_eq!(
        step(&mut flow, ready(false, false, true)),
        Err(FlowError::UnexpectedEvent)
    );
}

#[test]
fn nothing_moves_after_the_end() {
    let mut flow = FlowLoop::new();
    step(&mut flow, ready(true, true, true)).unwrap();
    step(&mut flow, FlowEvent::Done).unwrap();
    step(&mut flow, FlowEvent::Done).unwrap();
    assert_eq!(flow.state(), FlowState::Closed);
    assert_eq!(
        step(&mut flow, ready(false, true, true)),
        Err(FlowError::UnexpectedEvent)
    );
    assert_eq!(
        step(&mut flow, FlowEvent::Packet { bytes: vec![1] }),
        Err(FlowError::UnexpectedEvent)
    );
    assert_eq!(flow.state(), FlowState::Closed);
    assert_eq!(flow.counter(), 0);
}
