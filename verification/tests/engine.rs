use port_sniffer::config::{Address, Configuration};
use port_sniffer::engine::Engine;

fn engine_for(start_port: u16, end_port: u16) -> Engine {
    let config = Configuration::new(Address::fallback(), start_port, end_port).unwrap();
    Engine::new(&config)
}

fn schedule_all(engine: &mut Engine) -> Vec<u16> {
    let mut handed_out = Vec::new();
    while let Some(port) = engine.next_probe() {
        handed_out.push(port);
    }
    handed_out
}

#[test]
fn ports_are_handed_out_in_ascending_order() {
    let mut engine = engine_for(22220, 22225);
    assert_eq!(engine.next_probe(), Some(22220));
    assert_eq!(engine.next_probe(), Some(22221));
    assert_eq!(engine.next_probe(), Some(22222));
    assert_eq!(engine.next_probe(), Some(22223));
    assert_eq!(engine.next_probe(), Some(22224));
    assert_eq!(engine.next_probe(), None);
    assert_eq!(engine.next_probe(), None);
}

#[test]
fn the_end_port_is_not_probed() {
    let mut engine = engine_for(59999, 60000);
    assert_eq!(schedule_all(&mut engine), vec![59999]);
}

#[test]
fn as_many_probes_as_the_range_has_ports() {
    for (start_port, end_port, count) in
        [(1u16, 2u16, 1usize), (1, 1024, 1023), (40000, 40005, 5), (65534, 65535, 1), (7, 7, 0), (9, 3, 0)]
    {
        let mut engine = engine_for(start_port, end_port);
        assert_eq!(schedule_all(&mut engine).len(), count);
    }
}

#[test]
fn a_full_scan_schedules_65534_probes() {
    let mut engine = engine_for(1, 65535);
    let handed_out = schedule_all(&mut engine);
    assert_eq!(handed_out.len(), 65534);
    assert_eq!(handed_out[0], 1);
    assert_eq!(handed_out[65533], 65534);
    assert!(!handed_out.contains(&65535));
}

#[test]
fn equal_start_and_end_schedule_nothing() {
    let mut engine = engine_for(100, 100);
    assert!(engine.all_scheduled());
    assert_eq!(engine.next_probe(), None);
    assert_eq!(engine.finish(), Some(vec![]));
}

#[test]
fn a_start_beyond_the_end_schedules_nothing() {
    let mut engine = engine_for(200, 100);
    assert!(engine.all_scheduled());
    assert_eq!(engine.next_probe(), None);
    assert!(!engine.receive(150));
    assert!(!engine.receive(200));
    assert!(!engine.receive(100));
    assert_eq!(engine.finish(), Some(vec![]));
}

#[test]
fn open_ports_are_kept_in_order_of_arrival() {
    let mut engine = engine_for(40000, 40005);
    schedule_all(&mut engine);
    assert!(engine.receive(40003));
    assert!(engine.receive(40001));
    assert_eq!(engine.finish(), Some(vec![40003, 40001]));
}

#[test]
fn a_port_is_recorded_once() {
    let mut engine = engine_for(22220, 22225);
    schedule_all(&mut engine);
    assert!(engine.receive(22222));
    assert!(!engine.receive(22222));
    assert!(engine.receive(22224));
    assert!(!engine.receive(22222));
    assert_eq!(engine.finish(), Some(vec![22222, 22224]));
}

#[test]
fn a_port_outside_the_range_is_not_recorded() {
    let mut engine = engine_for(22220, 22225);
    schedule_all(&mut engine);
    assert!(!engine.receive(22219));
    assert!(!engine.receive(22225));
    assert!(!engine.receive(0));
    assert!(!engine.receive(65535));
    assert!(engine.receive(22220));
    assert!(engine.receive(22224));
    assert_eq!(engine.finish(), Some(vec![22220, 22224]));
}

#[test]
fn a_port_not_yet_handed_out_is_not_recorded() {
    let mut engine = engine_for(10, 20);
    assert!(!engine.receive(10));
    assert_eq!(engine.next_probe(), Some(10));
    assert!(!engine.receive(11));
    assert!(engine.receive(10));
    assert_eq!(engine.next_probe(), Some(11));
    assert!(engine.receive(11));
}

#[test]
fn no_result_while_ports_are_left_out() {
    let mut engine = engine_for(10, 13);
    assert!(!engine.all_scheduled());
    assert_eq!(engine.next_probe(), Some(10));
    assert_eq!(engine.next_probe(), Some(11));
    assert!(engine.receive(10));
    assert!(!engine.all_scheduled());
    assert_eq!(engine.finish(), None);
}

#[test]
fn the_result_comes_once_the_range_is_out() {
    let mut engine = engine_for(10, 13);
    schedule_all(&mut engine);
    assert!(engine.all_scheduled());
    assert!(engine.receive(12));
    assert_eq!(engine.finish(), Some(vec![12]));
}

#[test]
fn every_port_of_the_range_can_be_open() {
    let mut engine = engine_for(1, 65535);
    let handed_out = schedule_all(&mut engine);
    for port in handed_out.iter().rev() {
        assert!(engine.receive(*port));
    }
    for port in handed_out.iter() {
        assert!(!engine.receive(*port));
    }
    let open = engine.finish().unwrap();
    assert_eq!(open.len(), 65534);
    assert_eq!(open[0], 65534);
    assert_eq!(open[65533], 1);
}
