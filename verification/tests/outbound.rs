use phalanx_node::persistence::outbound::{
    decode_record, encode_record, is_record_file, read_records, OutboundEntry, OutboundQueue,
    RecordFile, MAX_QUEUE_BYTES,
};

const NOW: u64 = 1_700_000_000_000;

fn empty() -> OutboundQueue {
    OutboundQueue::recover("/wal".to_string(), Vec::new())
}

fn enqueue(queue: &mut OutboundQueue, bytes: Vec<u8>) -> u64 {
    let entry = queue.enqueue("test/video".to_string(), bytes, NOW).unwrap();
    let id = entry.id.0;
    queue.enqueue_stored(entry);
    id
}

fn file_of(entry: &OutboundEntry) -> RecordFile {
    RecordFile { name: format!("{}.wal", entry.id.0), contents: encode_record(entry) }
}

#[test]
fn test_outbound_enqueue_drain_acknowledge() {
    let mut queue = empty();

    let id1 = enqueue(&mut queue, vec![0xAA; 100]);
    let id2 = enqueue(&mut queue, vec![0xBB; 200]);
    let id3 = enqueue(&mut queue, vec![0xCC; 50]);

    assert_eq!(queue.len(), 3);
    assert_eq!(queue.total_bytes(), 350);

    let batch = queue.drain_batch(2);
    assert_eq!(batch.len(), 2);
    assert_eq!(batch[0].id.0, id1);
    assert_eq!(batch[1].id.0, id2);
    assert_eq!(queue.len(), 1);
    assert_eq!(queue.total_bytes(), 50);

    let batch2 = queue.drain_batch(10);
    assert_eq!(batch2.len(), 1);
    assert_eq!(batch2[0].id.0, id3);

    assert!(queue.is_empty());
    assert_eq!(queue.total_bytes(), 0);
}

#[test]
fn test_outbound_crash_recovery() {
    let mut queue = empty();
    enqueue(&mut queue, vec![0x01; 64]);
    enqueue(&mut queue, vec![0x02; 128]);
    enqueue(&mut queue, vec![0x03; 32]);
    assert_eq!(queue.len(), 3);

    // The records come back in whatever order the directory lists them.
    let mut files: Vec<RecordFile> = queue.entries.iter().map(file_of).collect();
    files.rotate_left(1);
    files.push(RecordFile { name: "3.wal".to_string(), contents: vec![0xFF] });
    files.push(RecordFile { name: "notes.txt".to_string(), contents: files[0].contents.clone() });

    let mut recovered = OutboundQueue::recover("/wal".to_string(), read_records(&files));
    assert_eq!(recovered.len(), 3);
    assert_eq!(recovered.total_bytes(), 64 + 128 + 32);
    assert_eq!(recovered.next_id, 3);

    let batch = recovered.drain_batch(3);
    assert_eq!(batch[0].envelope_bytes.len(), 64);
    assert_eq!(batch[1].envelope_bytes.len(), 128);
    assert_eq!(batch[2].envelope_bytes.len(), 32);
}

#[test]
fn test_outbound_requeue_and_abandon() {
    let mut queue = empty();
    enqueue(&mut queue, vec![0xFF; 50]);

    let batch = queue.drain_batch(1);
    assert_eq!(batch.len(), 1);
    let mut entry = batch.into_iter().next().unwrap();

    for i in 1..=9 {
        let kept = OutboundQueue::requeue_failed(entry, NOW);
        assert!(kept.is_some(), "Attempt {i} should succeed");
        let kept = kept.unwrap();
        assert_eq!(kept.attempts, i);
        assert_eq!(kept.last_attempt, Some(NOW));
        queue.enqueue_stored(kept);
        entry = queue.drain_batch(1).into_iter().next().unwrap();
    }

    assert_eq!(entry.attempts, 9);
    let result = OutboundQueue::requeue_failed(entry, NOW);
    assert!(result.is_none(), "Should be abandoned after 10 attempts");
    assert!(queue.is_empty());
}

#[test]
fn test_backoff_delay() {
    assert_eq!(OutboundQueue::backoff_delay(0), 5);
    assert_eq!(OutboundQueue::backoff_delay(1), 10);
    assert_eq!(OutboundQueue::backoff_delay(2), 20);
    assert_eq!(OutboundQueue::backoff_delay(3), 40);
    assert_eq!(OutboundQueue::backoff_delay(5), 160);
    assert_eq!(OutboundQueue::backoff_delay(6), 300);
    assert_eq!(OutboundQueue::backoff_delay(10), 300);
    assert_eq!(OutboundQueue::backoff_delay(u32::MAX), 300);
}

#[test]
fn full_queue_refuses() {
    let mut queue = empty();
    queue.total_bytes = MAX_QUEUE_BYTES - 10;
    assert!(queue.enqueue("t".to_string(), vec![0; 10], NOW).is_ok());
    let refused = queue.enqueue("t".to_string(), vec![0; 11], NOW).unwrap_err();
    assert_eq!(refused.message(), "Outbound queue capacity exceeded");
    assert_eq!(queue.next_id, 1);
}

#[test]
fn records_have_the_documented_form() {
    let entry = OutboundEntry {
        id: phalanx_node::persistence::outbound::OutboundEntryId(300),
        topic: "ab".to_string(),
        envelope_bytes: vec![9, 8],
        captured_at: 1,
        attempts: 2,
        last_attempt: Some(200),
    };
    assert_eq!(
        encode_record(&entry),
        vec![0xAC, 0x02, 2, b'a', b'b', 2, 9, 8, 1, 2, 1, 0xC8, 0x01]
    );
    let back = decode_record(&encode_record(&entry)).unwrap();
    assert_eq!(back.id, entry.id);
    assert_eq!(back.topic, "ab");
    assert_eq!(back.envelope_bytes, vec![9, 8]);
    assert_eq!(back.captured_at, 1);
    assert_eq!(back.attempts, 2);
    assert_eq!(back.last_attempt, Some(200));
    assert!(decode_record(&[0xAC]).is_none());
}

#[test]
fn record_names_end_in_wal() {
    assert!(is_record_file("12.wal"));
    assert!(!is_record_file(".wal"));
    assert!(!is_record_file("12.log"));
    assert!(!is_record_file("wal"));
    assert_eq!(
        empty().entry_path(phalanx_node::persistence::outbound::OutboundEntryId(7)),
        "/wal/7.wal"
    );
}

#[test]
fn waiting_entries_keep_their_place() {
    let mut queue = empty();
    for n in 0..4u8 {
        enqueue(&mut queue, vec![n; 10]);
    }
    // The first two failed a moment ago, the third never, the fourth long ago.
    queue.entries[0].last_attempt = Some(NOW);
    queue.entries[1].last_attempt = Some(NOW);
    queue.entries[3].last_attempt = Some(NOW - 5_000);
    let ready = queue.take_ready(10, NOW);
    assert_eq!(ids(&ready), vec![2, 3]);
    assert_eq!(ids(&queue.entries), vec![0, 1]);
    assert_eq!(queue.total_bytes(), 20);

    let later = queue.take_ready(1, NOW + 5_000);
    assert_eq!(ids(&later), vec![0]);
    assert_eq!(ids(&queue.entries), vec![1]);
}

#[test]
fn unchanged_entry_goes_to_the_front() {
    let mut queue = empty();
    enqueue(&mut queue, vec![1]);
    enqueue(&mut queue, vec![2, 2]);
    let first = queue.drain_batch(1).into_iter().next().unwrap();
    queue.requeue_unchanged(first);
    assert_eq!(queue.entries[0].id.0, 0);
    assert_eq!(queue.entries[1].id.0, 1);
    assert_eq!(queue.total_bytes(), 3);
}

fn ids(list: &[OutboundEntry]) -> Vec<u64> {
    list.iter().map(|e| e.id.0).collect()
}

#[test]
fn failed_entry_keeps_its_place() {
    let mut queue = empty();
    for n in 0..3u64 {
        let entry = queue.enqueue("t".to_string(), vec![1], NOW + n).unwrap();
        queue.enqueue_stored(entry);
    }
    let batch = queue.drain_batch(2);
    for entry in batch {
        let kept = OutboundQueue::requeue_failed(entry, NOW + 10).unwrap();
        queue.enqueue_stored(kept);
    }
    assert_eq!(ids(&queue.entries), vec![0, 1, 2]);
    assert_eq!(queue.entries[0].attempts, 1);
    assert_eq!(queue.entries[2].attempts, 0);
    assert_eq!(queue.total_bytes(), 3);
}

#[test]
fn evidence_leaves_in_the_order_of_capture() {
    let mut queue = empty();
    for captured_at in [NOW + 5, NOW + 9, NOW + 5, NOW] {
        let entry = queue.enqueue("t".to_string(), vec![1], captured_at).unwrap();
        queue.enqueue_stored(entry);
    }
    assert_eq!(ids(&queue.entries), vec![3, 0, 2, 1]);

    let files: Vec<RecordFile> = queue.entries.iter().rev().map(file_of).collect();
    let mut recovered = OutboundQueue::recover("/wal".to_string(), read_records(&files));
    assert_eq!(recovered.next_id, 4);
    assert_eq!(ids(&recovered.drain_batch(4)), vec![3, 0, 2, 1]);
}
