use rust_lab::queue::{FixedQueue, ReturnCode};

#[test]
fn smoke() {
    let nr_elements: i64 = 1000 * 1600;
    let nr_reader_threads: i64 = 20;
    let nr_writer_threads: i64 = 10;

    let mut queue: FixedQueue<String> = FixedQueue::new(500);

    let per_writer = nr_elements / nr_writer_threads;
    let per_reader = nr_elements / nr_reader_threads;
    let mut written = vec![0i64; nr_writer_threads as usize];
    let mut read = vec![0i64; nr_reader_threads as usize];
    let mut writer_totals = vec![0i64; nr_writer_threads as usize];
    let mut reader_totals = vec![0i64; nr_reader_threads as usize];

    // Writers and readers take turns: each writer fills the queue as far as it
    // can, then each reader drains what it is owed.
    let mut done = false;
    while !done {
        for w in 0..nr_writer_threads as usize {
            while written[w] < per_writer {
                let n = written[w];
                if queue.enqueue(n.to_string()) != ReturnCode::Done {
                    break;
                }
                writer_totals[w] += n;
                written[w] += 1;
            }
        }
        for r in 0..nr_reader_threads as usize {
            while read[r] < per_reader {
                let mut value = String::new();
                if queue.dequeue(&mut value) != ReturnCode::Done {
                    break;
                }
                let nr = value.parse::<i64>().unwrap();
                assert!(nr <= nr_elements);
                reader_totals[r] += nr;
                read[r] += 1;
            }
        }
        done = written.iter().all(|&c| c == per_writer) && read.iter().all(|&c| c == per_reader);
    }

    let total_expected: i64 = writer_totals.iter().sum();
    let total_got: i64 = reader_totals.iter().sum();

    println!(
        "Expected total values to sum to: {}, when dequeued they summed up to: {}",
        total_got, total_expected
    );
    assert!(total_expected == total_got);
}

#[test]
fn test_async_read() {
    let mut queue = FixedQueue::new(500);
    queue.enqueue(1);
    let mut val = 0;
    queue.dequeue(&mut val);
    println!("val {:?}", val);
    assert_eq!(val, 1);
}

#[test]
fn queue_keeps_one_slot_free() {
    let mut queue = FixedQueue::new(3);
    assert!(queue.enqueue(10u32) == ReturnCode::Done);
    assert!(queue.enqueue(20u32) == ReturnCode::Done);
    assert!(queue.enqueue(30u32) == ReturnCode::Full);
    let mut out = 0u32;
    assert!(queue.dequeue(&mut out) == ReturnCode::Done);
    assert_eq!(out, 10);
    assert!(queue.dequeue(&mut out) == ReturnCode::Done);
    assert_eq!(out, 20);
    assert!(queue.dequeue(&mut out) == ReturnCode::Empty);
    assert_eq!(out, 20);
}

#[test]
fn queue_of_one_slot_is_always_full() {
    let mut queue = FixedQueue::new(1);
    assert!(queue.enqueue(7u8) == ReturnCode::Full);
    let mut out = 0u8;
    assert!(queue.dequeue(&mut out) == ReturnCode::Empty);
}

#[test]
fn queue_of_no_slot_is_always_empty() {
    let mut queue: FixedQueue<u8> = FixedQueue::new(0);
    let mut out = 5u8;
    assert!(queue.dequeue(&mut out) == ReturnCode::Empty);
    assert_eq!(out, 5);
}

#[test]
fn queue_wraps_around_in_order() {
    let mut queue = FixedQueue::new(4);
    let mut next_in = 0u64;
    let mut next_out = 0u64;
    for _round in 0..10 {
        while queue.enqueue(next_in) == ReturnCode::Done {
            next_in += 1;
        }
        let mut out = 0u64;
        for _ in 0..2 {
            assert!(queue.dequeue(&mut out) == ReturnCode::Done);
            assert_eq!(out, next_out);
            next_out += 1;
        }
    }
    assert_eq!(next_in, 3 + 2 * 9);
}

#[test]
fn read_moves_one_byte() {
    let mut queue: FixedQueue<u8> = FixedQueue::new(4);
    queue.enqueue(42);
    let mut dst = [9u8; 1];
    assert_eq!(queue.read(&mut dst), 1);
    assert_eq!(dst, [42]);
    assert_eq!(queue.read(&mut dst), 1);
    assert_eq!(dst, [0]);
}

#[test]
fn size_reports_slots() {
    let queue: FixedQueue<u8> = FixedQueue::new(7);
    assert_eq!(queue.size(), 7);
}
