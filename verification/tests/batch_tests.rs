use firetail::batch::{BatchBuffer, FlushDecision};

fn small_record(i: usize) -> String {
    format!("record-{}", i)
}

#[test]
fn nine_small_appends_keep_the_tenth_flushes() {
    let mut buffer = BatchBuffer::new();
    for i in 0..9 {
        match buffer.append(small_record(i)) {
            FlushDecision::Keep => {}
            FlushDecision::TriggerFlush(_) => panic!("flushed before the count bound"),
        }
    }
    match buffer.append(small_record(9)) {
        FlushDecision::Keep => panic!("the tenth append must flush"),
        FlushDecision::TriggerFlush(batch) => {
            assert_eq!(batch.records.len(), 10);
            for i in 0..10 {
                assert_eq!(batch.records[i], small_record(i));
            }
        }
    }
    assert_eq!(buffer.pending_count(), 0);
}

#[test]
fn crossing_the_byte_bound_flushes_before_the_count_bound() {
    // Four records of 300000 bytes cross 1 MiB at the fourth append.
    let mut buffer = BatchBuffer::new();
    let record = "a".repeat(300000);
    for _ in 0..3 {
        match buffer.append(record.clone()) {
            FlushDecision::Keep => {}
            FlushDecision::TriggerFlush(_) => panic!("flushed before the byte bound"),
        }
    }
    match buffer.append(record.clone()) {
        FlushDecision::Keep => panic!("crossing the byte bound must flush"),
        FlushDecision::TriggerFlush(batch) => {
            assert_eq!(batch.records.len(), 4);
            assert!(batch.records.iter().all(|r| r.len() == 300000));
        }
    }
}

#[test]
fn a_record_at_the_byte_bound_flushes_alone() {
    let mut buffer = BatchBuffer::new();
    let record = "b".repeat(1024 * 1024);
    match buffer.append(record) {
        FlushDecision::Keep => panic!("a record at the byte bound must flush at once"),
        FlushDecision::TriggerFlush(batch) => {
            assert_eq!(batch.records.len(), 1);
        }
    }
}

#[test]
fn byte_sizes_count_utf8_bytes_not_characters() {
    // 150000 three-byte characters weigh 450000 bytes each; the third
    // append crosses 1 MiB even though only 450000 characters are pending.
    let mut buffer = BatchBuffer::new();
    let record = "\u{20ac}".repeat(150000);
    assert!(matches!(buffer.append(record.clone()), FlushDecision::Keep));
    assert!(matches!(buffer.append(record.clone()), FlushDecision::Keep));
    assert!(matches!(buffer.append(record.clone()), FlushDecision::TriggerFlush(_)));
}

#[test]
fn every_record_lands_in_exactly_one_batch_in_order() {
    // Thirty appends in a row: three flushes of ten, together exactly the
    // appended records in order, none lost, none duplicated.
    let mut buffer = BatchBuffer::new();
    let mut flushed: Vec<String> = Vec::new();
    let mut batches = 0;
    for i in 0..30 {
        match buffer.append(small_record(i)) {
            FlushDecision::Keep => {}
            FlushDecision::TriggerFlush(batch) => {
                batches += 1;
                flushed.extend(batch.records);
            }
        }
    }
    assert_eq!(batches, 3);
    assert_eq!(buffer.pending_count(), 0);
    assert_eq!(flushed.len(), 30);
    for i in 0..30 {
        assert_eq!(flushed[i], small_record(i));
    }
}

#[test]
fn appends_after_a_flush_start_a_fresh_batch() {
    let mut buffer = BatchBuffer::new();
    for i in 0..10 {
        buffer.append(small_record(i));
    }
    assert_eq!(buffer.pending_count(), 0);
    for i in 10..13 {
        assert!(matches!(buffer.append(small_record(i)), FlushDecision::Keep));
    }
    assert_eq!(buffer.pending_count(), 3);
}
