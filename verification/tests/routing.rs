use drone::LockheedRustin;
use drone::get_hop;
use drone::get_next_hop;
use drone::packet::NackType;
use drone::packet::SourceRoutingHeader;
use drone::simplify_hops;

fn header(hops: Vec<u8>, hop_index: usize) -> SourceRoutingHeader {
    SourceRoutingHeader { hop_index, hops }
}

#[test]
fn get_hop_reads_cursor() {
    assert_eq!(get_hop(&header(vec![1, 2, 3], 1)), Some(2));
    assert_eq!(get_hop(&header(vec![1, 2, 3], 0)), Some(1));
    assert_eq!(get_hop(&header(vec![1, 2, 3], 3)), None);
    assert_eq!(get_hop(&header(vec![], 0)), None);
}

#[test]
fn get_next_hop_reads_past_cursor() {
    assert_eq!(get_next_hop(&header(vec![1, 2, 3], 1)), Some(3));
    assert_eq!(get_next_hop(&header(vec![1, 2, 3], 2)), None);
    assert_eq!(get_next_hop(&header(vec![], 0)), None);
}

#[test]
fn simplify_hops_keeps_suffix_from_last_occurrence() {
    let mut hops: Vec<u8> = vec![5, 4, 5, 1];
    simplify_hops(&mut hops);
    assert_eq!(hops, vec![5, 1]);

    let mut longer: Vec<u8> = vec![2, 9, 2, 9, 2, 7, 1];
    simplify_hops(&mut longer);
    assert_eq!(longer, vec![2, 7, 1]);
}

#[test]
fn simplify_hops_without_repeat_is_identity() {
    let mut hops: Vec<u8> = vec![5, 4, 1];
    simplify_hops(&mut hops);
    assert_eq!(hops, vec![5, 4, 1]);

    let mut single: Vec<u8> = vec![5];
    simplify_hops(&mut single);
    assert_eq!(single, vec![5]);
}

#[test]
fn check_routing_accepts_valid_route() {
    let d = LockheedRustin::new(2, 0, vec![3]);
    assert_eq!(d.check_routing(&header(vec![1, 2, 3], 1)), Ok(3));
}

#[test]
fn check_routing_rejects_unexpected_recipient() {
    let d = LockheedRustin::new(2, 0, vec![3]);
    assert_eq!(
        d.check_routing(&header(vec![1, 7, 3], 1)),
        Err(NackType::UnexpectedRecipient(2))
    );
    assert_eq!(
        d.check_routing(&header(vec![1, 2, 3], 5)),
        Err(NackType::UnexpectedRecipient(2))
    );
}

#[test]
fn check_routing_rejects_drone_as_destination() {
    let d = LockheedRustin::new(2, 0, vec![3]);
    assert_eq!(
        d.check_routing(&header(vec![1, 2], 1)),
        Err(NackType::DestinationIsDrone)
    );
}

#[test]
fn check_routing_rejects_unknown_next_hop() {
    let d = LockheedRustin::new(2, 0, vec![3]);
    assert_eq!(
        d.check_routing(&header(vec![1, 2, 9], 1)),
        Err(NackType::ErrorInRouting(9))
    );
}
