use std::collections::VecDeque;

use zode::events::{
    push_bounded, LogFeed, NameIndex, PeerEvent, ServiceDirectory, ServiceEvent, ServiceListing,
};
use zode::peers::merge_peer_cache;
use zode::resize::{resize_cursor, resize_direction, ResizeCursor, ResizeDirection};
use zode::text::push_decimal;

#[test]
fn merge_peer_cache_skips_known_and_failed() {
    let bootstrap = vec![vec![1], vec![2]];
    let cached = vec![Some(vec![2]), None, Some(vec![3]), Some(vec![3]), Some(vec![4]), None];
    let m = merge_peer_cache(&bootstrap, &cached);
    assert_eq!(m.append, vec![2, 4]);
    assert_eq!(m.parsed, 4);
    assert_eq!(m.failed, 2);
}

#[test]
fn merge_peer_cache_twice_adds_nothing() {
    let mut bootstrap = vec![vec![9]];
    let cached = vec![Some(vec![8]), Some(vec![9]), Some(vec![7])];
    let m = merge_peer_cache(&bootstrap, &cached);
    for k in &m.append {
        bootstrap.push(cached[*k].clone().unwrap());
    }
    assert_eq!(bootstrap, vec![vec![9], vec![8], vec![7]]);
    let again = merge_peer_cache(&bootstrap, &cached);
    assert!(again.append.is_empty());
}

#[test]
fn merge_peer_cache_empty() {
    let m = merge_peer_cache(&vec![], &vec![]);
    assert!(m.append.is_empty());
    assert_eq!((m.parsed, m.failed), (0, 0));
}

#[test]
fn decimal_rendering() {
    for (n, s) in [(0u64, "0"), (7, "7"), (10, "10"), (1234, "1234"), (u64::MAX, "18446744073709551615")] {
        let mut out = String::from("#");
        push_decimal(&mut out, n);
        assert_eq!(out, format!("#{s}"));
    }
}

#[test]
fn name_index_later_insert_wins() {
    let mut idx = NameIndex::new();
    idx.insert("p1".to_string(), "A".to_string());
    idx.insert("p2".to_string(), "B".to_string());
    idx.insert("p1".to_string(), "C".to_string());
    assert_eq!(idx.get(&"p1".to_string()).map(|s| s.as_str()), Some("C"));
    assert_eq!(idx.get(&"p2".to_string()).map(|s| s.as_str()), Some("B"));
    assert_eq!(idx.get(&"p3".to_string()), None);
    assert_eq!(idx.name_or_key(&"p3".to_string()), "p3");
}

fn directory() -> ServiceDirectory {
    ServiceDirectory::from_listings(&vec![
        ServiceListing { id: "s1".to_string(), name: "ZEPHYR".to_string(), program_ids: vec!["aa".to_string(), "bb".to_string()] },
        ServiceListing { id: "s2".to_string(), name: "OTHER".to_string(), program_ids: vec!["bb".to_string()] },
    ])
}

#[test]
fn directory_indexes_programs_and_services() {
    let d = directory();
    assert_eq!(d.programs.name_or_key(&"aa".to_string()), "ZEPHYR");
    assert_eq!(d.programs.name_or_key(&"bb".to_string()), "OTHER");
    assert_eq!(d.services.name_or_key(&"s1".to_string()), "ZEPHYR");
    assert_eq!(d.services.name_or_key(&"s9".to_string()), "s9");
}

#[test]
fn push_bounded_drops_oldest() {
    let mut q: VecDeque<u32> = VecDeque::new();
    for i in 0..5 {
        push_bounded(&mut q, i, 3);
    }
    assert_eq!(q, VecDeque::from(vec![2, 3, 4]));
    let mut z: VecDeque<u32> = VecDeque::new();
    push_bounded(&mut z, 1, 0);
    assert_eq!(z.len(), 1);
}

#[test]
fn node_events_attributed_and_bounded() {
    let d = directory();
    let mut feed: LogFeed<u8> = LogFeed::new();
    feed.record_node_event("started".to_string(), 1, None, &d, Some("/ip4/1.2.3.4".to_string()), None, 2);
    feed.record_node_event("append".to_string(), 2, Some("aa".to_string()), &d, None, Some(PeerEvent::Connected("p".to_string())), 2);
    feed.record_node_event("read".to_string(), 3, Some("zz".to_string()), &d, None, None, 2);
    assert_eq!(feed.entries.len(), 2);
    assert_eq!(feed.entries[0].line, "append");
    assert_eq!(feed.entries[0].service.as_deref(), Some("ZEPHYR"));
    assert_eq!(feed.entries[1].service, None);
    assert_eq!(feed.listen_addr.as_deref(), Some("/ip4/1.2.3.4"));
    assert_eq!(feed.peer_events.len(), 1);
}

#[test]
fn lagged_line_is_unbounded() {
    let d = directory();
    let mut feed: LogFeed<u8> = LogFeed::new();
    feed.record_node_event("x".to_string(), 0, None, &d, None, None, 1);
    feed.record_lagged(42, 9);
    assert_eq!(feed.entries.len(), 2);
    assert_eq!(feed.entries[1].line, "[WARN] lagged 42 events");
    assert_eq!(feed.entries[1].level, 9);
    assert_eq!(feed.entries[1].service, None);
}

#[test]
fn service_event_lines() {
    let d = directory();
    let mut feed: LogFeed<u8> = LogFeed::new();
    feed.record_service_event(&ServiceEvent::Started { service_id: "s1".to_string() }, &d, 0, 10);
    feed.record_service_event(&ServiceEvent::Stopped { service_id: "s7".to_string() }, &d, 0, 10);
    feed.record_service_event(
        &ServiceEvent::RequestHandled { service_id: "s2".to_string(), path: "/status".to_string(), status: "200".to_string() },
        &d,
        0,
        10,
    );
    assert_eq!(feed.entries[0].line, "[SVC] ZEPHYR started");
    assert_eq!(feed.entries[0].service.as_deref(), Some("ZEPHYR"));
    assert_eq!(feed.entries[1].line, "[SVC] s7 stopped");
    assert_eq!(feed.entries[1].service.as_deref(), Some("s7"));
    assert_eq!(feed.entries[2].line, "[SVC] OTHER /status 200");
}

#[test]
fn resize_corners_and_edges() {
    assert!(resize_direction(true, false, true, false) == Some(ResizeDirection::NorthWest));
    assert!(resize_direction(false, true, true, false) == Some(ResizeDirection::NorthEast));
    assert!(resize_direction(true, false, false, true) == Some(ResizeDirection::SouthWest));
    assert!(resize_direction(false, true, false, true) == Some(ResizeDirection::SouthEast));
    assert!(resize_direction(true, false, false, false) == Some(ResizeDirection::West));
    assert!(resize_direction(false, true, false, false) == Some(ResizeDirection::East));
    assert!(resize_direction(false, false, true, false) == Some(ResizeDirection::North));
    assert!(resize_direction(false, false, false, true) == Some(ResizeDirection::South));
    assert!(resize_direction(false, false, false, false).is_none());
    assert!(resize_direction(true, true, false, false) == Some(ResizeDirection::West));
    assert!(resize_direction(false, false, true, true) == Some(ResizeDirection::North));
}

#[test]
fn resize_cursors() {
    assert!(resize_cursor(ResizeDirection::North) == ResizeCursor::Vertical);
    assert!(resize_cursor(ResizeDirection::South) == ResizeCursor::Vertical);
    assert!(resize_cursor(ResizeDirection::East) == ResizeCursor::Horizontal);
    assert!(resize_cursor(ResizeDirection::West) == ResizeCursor::Horizontal);
    assert!(resize_cursor(ResizeDirection::NorthWest) == ResizeCursor::NwSe);
    assert!(resize_cursor(ResizeDirection::SouthEast) == ResizeCursor::NwSe);
    assert!(resize_cursor(ResizeDirection::NorthEast) == ResizeCursor::NeSw);
    assert!(resize_cursor(ResizeDirection::SouthWest) == ResizeCursor::NeSw);
}
