use drone::LockheedRustin;
use drone::control::Action;
use drone::control::DroneEvent;
use drone::packet::FloodRequest;
use drone::packet::NodeType;
use drone::packet::Packet;
use drone::packet::PacketType;
use drone::packet::SourceRoutingHeader;

fn flood_packet(flood_id: u64, initiator_id: u8, path_trace: Vec<(u8, NodeType)>) -> Packet {
    Packet {
        routing_header: SourceRoutingHeader {
            hop_index: 0,
            hops: vec![],
        },
        session_id: 9,
        pack_type: PacketType::FloodRequest(FloodRequest {
            flood_id,
            initiator_id,
            path_trace,
        }),
    }
}

#[test]
fn terminal_branch_synthesizes_response() {
    let mut d = LockheedRustin::new(5, 0, vec![4]);
    d.start();
    let actions = d.handle_packet(flood_packet(
        42,
        1,
        vec![(1, NodeType::Client), (4, NodeType::Drone)],
    ));
    assert_eq!(actions.len(), 1);
    match &actions[0] {
        Action::Forward(dest, p) => {
            assert_eq!(*dest, 4);
            assert_eq!(p.routing_header.hops, vec![5, 4, 1]);
            assert_eq!(p.routing_header.hop_index, 1);
            assert_eq!(p.session_id, 9);
            match &p.pack_type {
                PacketType::FloodResponse(r) => {
                    assert_eq!(r.flood_id, 42);
                    assert_eq!(
                        r.path_trace,
                        vec![
                            (1, NodeType::Client),
                            (4, NodeType::Drone),
                            (5, NodeType::Drone)
                        ]
                    );
                }
                other => panic!("expected a flood response, got {:?}", other),
            }
        }
        other => panic!("expected a forward, got {:?}", other),
    }
    assert!(d.flood_seen(1, 42));
}

#[test]
fn terminal_branch_appends_missing_initiator() {
    let mut d = LockheedRustin::new(5, 0, vec![1]);
    d.start();
    // the request comes straight from the initiator, with an empty trace
    let actions = d.handle_packet(flood_packet(42, 1, vec![]));
    assert_eq!(actions.len(), 1);
    match &actions[0] {
        Action::Forward(dest, p) => {
            assert_eq!(*dest, 1);
            assert_eq!(p.routing_header.hops, vec![5, 1]);
            assert_eq!(p.routing_header.hop_index, 1);
            assert!(matches!(p.pack_type, PacketType::FloodResponse(_)));
        }
        other => panic!("expected a forward, got {:?}", other),
    }
}

#[test]
fn response_path_collapses_cycle() {
    let mut d = LockheedRustin::new(5, 0, vec![6]);
    d.start();
    // the flood left through this drone and came back through 6
    let actions = d.handle_packet(flood_packet(
        42,
        1,
        vec![(1, NodeType::Client), (5, NodeType::Drone), (6, NodeType::Drone)],
    ));
    assert_eq!(actions.len(), 1);
    match &actions[0] {
        Action::Event(DroneEvent::ControllerShortcut(p)) => {
            // reversed ids [5, 6, 5, 1], simplified to the suffix at the
            // last occurrence of 5; hop 1 is the initiator, no neighbor
            assert_eq!(p.routing_header.hops, vec![5, 1]);
            assert_eq!(p.routing_header.hop_index, 0);
            assert!(matches!(p.pack_type, PacketType::FloodResponse(_)));
        }
        other => panic!("expected a controller shortcut, got {:?}", other),
    }
}

#[test]
fn novel_flood_broadcast_skips_sender() {
    let mut d = LockheedRustin::new(5, 0, vec![4, 6, 7]);
    d.start();
    let actions = d.handle_packet(flood_packet(
        42,
        1,
        vec![(1, NodeType::Client), (4, NodeType::Drone)],
    ));
    // re-broadcast to every neighbor but 4, the sender
    assert_eq!(actions.len(), 2);
    let expected_trace = vec![
        (1, NodeType::Client),
        (4, NodeType::Drone),
        (5, NodeType::Drone),
    ];
    let mut dests = Vec::new();
    for action in &actions {
        match action {
            Action::Flood(dest, p) => {
                dests.push(*dest);
                assert!(p.routing_header.hops.is_empty());
                assert_eq!(p.routing_header.hop_index, 0);
                match &p.pack_type {
                    PacketType::FloodRequest(r) => {
                        assert_eq!(r.flood_id, 42);
                        assert_eq!(r.initiator_id, 1);
                        assert_eq!(r.path_trace, expected_trace);
                    }
                    other => panic!("expected a flood request, got {:?}", other),
                }
            }
            other => panic!("expected a broadcast send, got {:?}", other),
        }
    }
    assert_eq!(dests, vec![6, 7]);
}

#[test]
fn empty_trace_broadcast_skips_initiator() {
    let mut d = LockheedRustin::new(5, 0, vec![1, 6]);
    d.start();
    let actions = d.handle_packet(flood_packet(42, 1, vec![]));
    assert_eq!(actions.len(), 1);
    match &actions[0] {
        Action::Flood(dest, p) => {
            assert_eq!(*dest, 6);
            match &p.pack_type {
                PacketType::FloodRequest(r) => {
                    assert_eq!(r.path_trace, vec![(5, NodeType::Drone)]);
                }
                other => panic!("expected a flood request, got {:?}", other),
            }
        }
        other => panic!("expected a broadcast send, got {:?}", other),
    }
}

#[test]
fn duplicate_flood_answered_not_rebroadcast() {
    let mut d = LockheedRustin::new(5, 0, vec![4, 6, 7]);
    d.start();
    let trace = vec![(1, NodeType::Client), (4, NodeType::Drone)];
    let first = d.handle_packet(flood_packet(42, 1, trace.clone()));
    assert_eq!(first.len(), 2);
    assert!(d.flood_seen(1, 42));

    let second = d.handle_packet(flood_packet(42, 1, trace.clone()));
    assert_eq!(second.len(), 1);
    match &second[0] {
        Action::Forward(dest, p) => {
            assert_eq!(*dest, 4);
            assert!(matches!(p.pack_type, PacketType::FloodResponse(_)));
        }
        other => panic!("expected a forward, got {:?}", other),
    }

    // duplicate delivery is idempotent: a third copy behaves as the second
    let third = d.handle_packet(flood_packet(42, 1, trace));
    assert_eq!(third, second);
    assert!(d.flood_seen(1, 42));
}

#[test]
fn distinct_floods_are_tracked_separately() {
    let mut d = LockheedRustin::new(5, 0, vec![4, 6]);
    d.start();
    let trace = vec![(1, NodeType::Client), (4, NodeType::Drone)];
    d.handle_packet(flood_packet(42, 1, trace.clone()));
    assert!(d.flood_seen(1, 42));
    assert!(!d.flood_seen(1, 43));
    assert!(!d.flood_seen(2, 42));
    // a different flood id from the same initiator is novel again
    let actions = d.handle_packet(flood_packet(43, 1, trace));
    assert_eq!(actions.len(), 1);
    assert!(matches!(&actions[0], Action::Flood(6, _)));
}
