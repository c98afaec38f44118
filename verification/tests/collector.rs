use mirakc_core::collector::{run_channel, CollectSession, UPDATE_CHUNK_SIZE};
use mirakc_core::eit::{EitDescriptor, EitEvent, EitSection, ServiceTriple};
use mirakc_core::eit_feeder::EitCollector;

fn section(nid: u16, tsid: u16, sid: u16, n: u8) -> EitSection {
    EitSection {
        original_network_id: nid,
        transport_stream_id: tsid,
        service_id: sid,
        table_id: 0x50,
        section_number: n,
        last_section_number: 0,
        segment_last_section_number: 0,
        version_number: 1,
        events: Vec::new(),
    }
}

#[test]
fn seventy_sections_make_three_updates_and_three_triples() {
    // 70 sections over 3 distinct service triples: two full update batches of
    // 32, one of 6, and a flush of exactly 3 triples.
    let mut sections: Vec<EitSection> = Vec::new();
    for i in 0..70u16 {
        let which = (i % 3) as u16;
        sections.push(section(1 + which, 10 + which, 100 + which, (i % 8) as u8));
    }
    let outcome = run_channel(sections);
    assert_eq!(outcome.num_sections, 70);
    assert_eq!(outcome.updates.len(), 3);
    assert_eq!(outcome.updates[0].len(), 32);
    assert_eq!(outcome.updates[1].len(), 32);
    assert_eq!(outcome.updates[2].len(), 6);
    assert_eq!(outcome.triples.len(), 3);
    assert_eq!(outcome.triples[0], ServiceTriple { nid: 1, tsid: 10, sid: 100 });
    assert_eq!(outcome.triples[1], ServiceTriple { nid: 2, tsid: 11, sid: 101 });
    assert_eq!(outcome.triples[2], ServiceTriple { nid: 3, tsid: 12, sid: 102 });
}

#[test]
fn updates_keep_stream_order() {
    let mut sections: Vec<EitSection> = Vec::new();
    for i in 0..40u16 {
        sections.push(section(9, 9, 9, (i % 200) as u8));
    }
    let outcome = run_channel(sections.clone());
    let mut flat: Vec<EitSection> = Vec::new();
    for batch in &outcome.updates {
        flat.extend_from_slice(batch);
    }
    assert_eq!(flat, sections);
}

#[test]
fn session_dispatches_exactly_at_the_boundary() {
    let mut session = CollectSession::new();
    for i in 0..(UPDATE_CHUNK_SIZE - 1) {
        let r = session.push_section(section(1, 2, 3, (i % 8) as u8));
        assert!(r.is_none());
    }
    let r = session.push_section(section(1, 2, 3, 7));
    let batch = r.expect("the batch is full and must be dispatched");
    assert_eq!(batch.len(), UPDATE_CHUNK_SIZE);
    // A fresh batch starts; finishing now flushes nothing extra.
    let (tail, triples) = session.finish();
    assert!(tail.is_none());
    assert_eq!(triples, vec![ServiceTriple { nid: 1, tsid: 2, sid: 3 }]);
    assert_eq!(session.num_sections, UPDATE_CHUNK_SIZE);
}

#[test]
fn finish_flushes_a_partial_batch() {
    let mut session = CollectSession::new();
    session.push_section(section(5, 6, 7, 0));
    session.push_section(section(5, 6, 8, 1));
    let (tail, triples) = session.finish();
    let batch = tail.expect("a non-empty partial batch is flushed");
    assert_eq!(batch.len(), 2);
    assert_eq!(triples.len(), 2);
}

#[test]
fn empty_channel_yields_nothing() {
    let outcome = run_channel(Vec::new());
    assert_eq!(outcome.num_sections, 0);
    assert_eq!(outcome.updates.len(), 0);
    assert_eq!(outcome.triples.len(), 0);
}

#[test]
fn section_indices_follow_the_eit_layout() {
    let mut s = section(1, 2, 3, 0);
    s.table_id = 0x50;
    assert_eq!(s.table_index(), 0);
    s.table_id = 0x6F;
    assert_eq!(s.table_index(), 0x1F);
    s.section_number = 27;
    assert_eq!(s.segment_index(), 3);
    assert_eq!(s.section_index(), 3);
    s.segment_last_section_number = 29;
    assert_eq!(s.last_section_index(), 5);
    assert_eq!(s.service_triple(), ServiceTriple { nid: 1, tsid: 2, sid: 3 });
}

#[test]
fn event_end_time_and_overnight() {
    let event = EitEvent {
        event_id: 1,
        start_time: 1_000_000,
        duration: 3_600_000,
        scrambled: false,
        descriptors: vec![EitDescriptor::ShortEvent {
            event_name: "news".to_string(),
            text: "headlines".to_string(),
        }],
    };
    assert_eq!(event.end_time(), 4_600_000);
    assert!(event.is_overnight_event(2_000_000));
    assert!(!event.is_overnight_event(999_999));
    assert!(!event.is_overnight_event(4_600_000));
}

#[test]
fn collect_schedules_walks_channels_in_order() {
    let collector = EitCollector::new("decode".to_string(), Vec::new());
    let channel_a: Vec<EitSection> = (0..33u16).map(|i| section(1, 1, 1, (i % 8) as u8)).collect();
    let channel_b: Vec<EitSection> = (0..2u16).map(|i| section(2, 2, 2, i as u8)).collect();
    let (outcomes, total) = collector.collect_schedules(vec![channel_a, channel_b]);
    assert_eq!(total, 35);
    assert_eq!(outcomes.len(), 2);
    assert_eq!(outcomes[0].num_sections, 33);
    assert_eq!(outcomes[0].updates.len(), 2);
    assert_eq!(outcomes[0].updates[0].len(), 32);
    assert_eq!(outcomes[0].updates[1].len(), 1);
    assert_eq!(outcomes[0].triples, vec![ServiceTriple { nid: 1, tsid: 1, sid: 1 }]);
    assert_eq!(outcomes[1].num_sections, 2);
    assert_eq!(outcomes[1].updates.len(), 1);
    assert_eq!(outcomes[1].triples, vec![ServiceTriple { nid: 2, tsid: 2, sid: 2 }]);
}
