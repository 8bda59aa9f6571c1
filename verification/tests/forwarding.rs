use drone::LockheedRustin;
use drone::control::Action;
use drone::control::DroneCommand;
use drone::control::DroneEvent;
use drone::control::PDR_UNIT;
use drone::packet::Ack;
use drone::packet::Fragment;
use drone::packet::NackType;
use drone::packet::Packet;
use drone::packet::PacketType;
use drone::packet::SourceRoutingHeader;

fn fragment_packet(hops: Vec<u8>, hop_index: usize) -> Packet {
    Packet {
        routing_header: SourceRoutingHeader { hop_index, hops },
        session_id: 7,
        pack_type: PacketType::MsgFragment(Fragment {
            fragment_index: 11,
            total_n_fragments: 1,
            length: 0,
            data: vec![],
        }),
    }
}

fn ack_packet(hops: Vec<u8>, hop_index: usize) -> Packet {
    Packet {
        routing_header: SourceRoutingHeader { hop_index, hops },
        session_id: 7,
        pack_type: PacketType::Ack(Ack { fragment_index: 4 }),
    }
}

fn expect_nack(action: &Action, dest: u8, hops: Vec<u8>, nack_type: NackType) {
    match action {
        Action::Forward(d, p) => {
            assert_eq!(*d, dest);
            assert_eq!(p.routing_header.hops, hops);
            // built with the cursor at the start, advanced once by the forwarder
            assert_eq!(p.routing_header.hop_index, 1);
            assert_eq!(p.session_id, 7);
            match &p.pack_type {
                PacketType::Nack(n) => {
                    assert_eq!(n.fragment_index, 11);
                    assert_eq!(n.nack_type, nack_type);
                }
                other => panic!("expected a negative acknowledgment, got {:?}", other),
            }
        }
        other => panic!("expected a forward, got {:?}", other),
    }
}

#[test]
fn fragment_forwarded_on_valid_route() {
    let mut d = LockheedRustin::new(2, 0, vec![3]);
    d.start();
    let actions = d.handle_packet(fragment_packet(vec![1, 2, 3], 1));
    assert_eq!(actions.len(), 1);
    match &actions[0] {
        Action::Forward(dest, p) => {
            assert_eq!(*dest, 3);
            assert_eq!(p.routing_header.hop_index, 2);
            assert_eq!(p.routing_header.hops, vec![1, 2, 3]);
            assert!(matches!(p.pack_type, PacketType::MsgFragment(_)));
        }
        other => panic!("expected a forward, got {:?}", other),
    }
}

#[test]
fn forced_drop_builds_reverse_nack() {
    let mut d = LockheedRustin::new(2, PDR_UNIT, vec![3, 1]);
    d.start();
    let actions = d.handle_packet(fragment_packet(vec![1, 2, 3], 1));
    assert_eq!(actions.len(), 2);
    match &actions[0] {
        Action::Event(DroneEvent::PacketDropped(p)) => {
            assert_eq!(p.routing_header.hop_index, 1);
            assert_eq!(p.routing_header.hops, vec![1, 2, 3]);
            assert!(matches!(p.pack_type, PacketType::MsgFragment(_)));
        }
        other => panic!("expected a drop report, got {:?}", other),
    }
    expect_nack(&actions[1], 1, vec![2, 1], NackType::Dropped);
}

#[test]
fn forced_drop_without_reverse_neighbor_escalates() {
    let mut d = LockheedRustin::new(2, PDR_UNIT, vec![3]);
    d.start();
    let actions = d.handle_packet(fragment_packet(vec![1, 2, 3], 1));
    assert_eq!(actions.len(), 2);
    assert!(matches!(
        &actions[0],
        Action::Event(DroneEvent::PacketDropped(_))
    ));
    match &actions[1] {
        Action::Event(DroneEvent::ControllerShortcut(p)) => {
            assert_eq!(p.routing_header.hops, vec![2, 1]);
            assert_eq!(p.routing_header.hop_index, 0);
            match &p.pack_type {
                PacketType::Nack(n) => assert_eq!(n.nack_type, NackType::Dropped),
                other => panic!("expected a negative acknowledgment, got {:?}", other),
            }
        }
        other => panic!("expected a controller shortcut, got {:?}", other),
    }
}

#[test]
fn unknown_next_hop_escalates_nack() {
    let mut d = LockheedRustin::new(2, 0, vec![3]);
    d.start();
    let actions = d.handle_packet(fragment_packet(vec![1, 2, 9], 1));
    // no drop report: the cause is a routing error, not the drop lottery
    assert_eq!(actions.len(), 1);
    match &actions[0] {
        Action::Event(DroneEvent::ControllerShortcut(p)) => {
            assert_eq!(p.routing_header.hops, vec![2, 1]);
            assert_eq!(p.routing_header.hop_index, 0);
            match &p.pack_type {
                PacketType::Nack(n) => {
                    assert_eq!(n.fragment_index, 11);
                    assert_eq!(n.nack_type, NackType::ErrorInRouting(9));
                }
                other => panic!("expected a negative acknowledgment, got {:?}", other),
            }
        }
        other => panic!("expected a controller shortcut, got {:?}", other),
    }
}

#[test]
fn unknown_next_hop_nack_forwarded_when_reverse_neighbor_exists() {
    let mut d = LockheedRustin::new(2, 0, vec![1, 3]);
    d.start();
    let actions = d.handle_packet(fragment_packet(vec![1, 2, 9], 1));
    assert_eq!(actions.len(), 1);
    expect_nack(&actions[0], 1, vec![2, 1], NackType::ErrorInRouting(9));
}

#[test]
fn unexpected_recipient_repairs_nack_path() {
    let mut d = LockheedRustin::new(2, 0, vec![1, 3]);
    d.start();
    let actions = d.handle_packet(fragment_packet(vec![1, 7, 3], 1));
    assert_eq!(actions.len(), 1);
    // reversed prefix [7, 1] with entry 0 overwritten by this drone's id
    expect_nack(&actions[0], 1, vec![2, 1], NackType::UnexpectedRecipient(2));
}

#[test]
fn drop_draw_decides_fragment_fate() {
    let mut d = LockheedRustin::new(2, 500_000, vec![3, 1]);
    d.start();
    let dropped = d.handle_packet_with_draw(fragment_packet(vec![1, 2, 3], 1), 499_999);
    assert!(matches!(
        &dropped[0],
        Action::Event(DroneEvent::PacketDropped(_))
    ));
    let spared = d.handle_packet_with_draw(fragment_packet(vec![1, 2, 3], 1), 500_000);
    assert!(matches!(&spared[0], Action::Forward(3, _)));
}

#[test]
fn fragment_without_reverse_path_is_discarded() {
    let mut d = LockheedRustin::new(2, PDR_UNIT, vec![1]);
    d.start();
    // a single-entry route: no reverse path at all
    let actions = d.handle_packet(fragment_packet(vec![2], 0));
    assert!(actions.is_empty());
    // cursor still at the route's start: the reverse path has one entry
    let actions = d.handle_packet(fragment_packet(vec![2, 3], 0));
    assert!(actions.is_empty());
}

#[test]
fn ack_is_forwarded_and_never_dropped() {
    let mut d = LockheedRustin::new(2, PDR_UNIT, vec![3]);
    d.start();
    let actions = d.handle_packet(ack_packet(vec![1, 2, 3], 1));
    assert_eq!(actions.len(), 1);
    match &actions[0] {
        Action::Forward(dest, p) => {
            assert_eq!(*dest, 3);
            assert_eq!(p.routing_header.hop_index, 2);
            assert!(matches!(p.pack_type, PacketType::Ack(_)));
        }
        other => panic!("expected a forward, got {:?}", other),
    }
}

#[test]
fn undeliverable_ack_goes_to_controller() {
    let mut d = LockheedRustin::new(2, 0, vec![3]);
    d.start();
    let actions = d.handle_packet(ack_packet(vec![1, 2, 9], 1));
    assert_eq!(actions.len(), 1);
    match &actions[0] {
        Action::Event(DroneEvent::ControllerShortcut(p)) => {
            // the packet itself, untouched
            assert_eq!(p.routing_header.hops, vec![1, 2, 9]);
            assert_eq!(p.routing_header.hop_index, 1);
            assert!(matches!(p.pack_type, PacketType::Ack(_)));
        }
        other => panic!("expected a controller shortcut, got {:?}", other),
    }
}

#[test]
fn send_failure_turns_into_routing_error_nack() {
    let d = LockheedRustin::new(2, 0, vec![1, 3]);
    // the packet as it stood after the forwarder advanced it
    let actions = d.handle_send_failure(fragment_packet(vec![1, 2, 3], 2), 3);
    assert_eq!(actions.len(), 1);
    expect_nack(&actions[0], 1, vec![2, 1], NackType::ErrorInRouting(3));
}

#[test]
fn crash_then_fragment_gets_routing_error_nack() {
    let mut d = LockheedRustin::new(2, 0, vec![1, 3]);
    d.start();
    assert!(!d.is_crashed());
    d.handle_command(DroneCommand::Crash);
    assert!(d.is_crashed());
    let actions = d.handle_packet(fragment_packet(vec![1, 2, 3], 1));
    assert_eq!(actions.len(), 1);
    expect_nack(&actions[0], 1, vec![2, 1], NackType::ErrorInRouting(2));
}

#[test]
fn crashed_drone_nacks_misaddressed_fragment() {
    let mut d = LockheedRustin::new(2, 0, vec![1, 3]);
    d.start();
    d.handle_command(DroneCommand::Crash);
    let actions = d.handle_packet(fragment_packet(vec![1, 7, 3], 1));
    assert_eq!(actions.len(), 1);
    expect_nack(&actions[0], 1, vec![2, 1], NackType::UnexpectedRecipient(2));
}

#[test]
fn crashed_drone_shortcuts_other_packets() {
    let mut d = LockheedRustin::new(2, 0, vec![1, 3]);
    d.start();
    d.handle_command(DroneCommand::Crash);
    let actions = d.handle_packet(ack_packet(vec![1, 2, 3], 1));
    assert_eq!(actions.len(), 1);
    match &actions[0] {
        Action::Event(DroneEvent::ControllerShortcut(p)) => {
            assert!(matches!(p.pack_type, PacketType::Ack(_)));
        }
        other => panic!("expected a controller shortcut, got {:?}", other),
    }
}

#[test]
fn drop_rate_is_clamped() {
    let mut d = LockheedRustin::new(2, 5_000_000, vec![]);
    assert_eq!(d.pdr(), PDR_UNIT);
    d.handle_command(DroneCommand::SetPacketDropRate(250_000));
    assert_eq!(d.pdr(), 250_000);
    d.handle_command(DroneCommand::SetPacketDropRate(2_000_000));
    assert_eq!(d.pdr(), PDR_UNIT);
    d.handle_command(DroneCommand::SetPacketDropRate(0));
    assert_eq!(d.pdr(), 0);
}

#[test]
fn neighbor_commands_update_table() {
    let mut d = LockheedRustin::new(2, 0, vec![3]);
    assert_eq!(d.id(), 2);
    assert!(d.has_neighbor(3));
    assert!(!d.has_neighbor(4));
    d.handle_command(DroneCommand::AddSender(4));
    assert!(d.has_neighbor(4));
    d.handle_command(DroneCommand::AddSender(4));
    assert!(d.has_neighbor(4));
    d.handle_command(DroneCommand::RemoveSender(3));
    assert!(!d.has_neighbor(3));
    d.handle_command(DroneCommand::RemoveSender(9));
    assert!(d.has_neighbor(4));
}
