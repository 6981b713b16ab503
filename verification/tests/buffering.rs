use sensor_spectrum::buffering::BufferingStage;
use sensor_spectrum::channel::ChannelEvent;
use sensor_spectrum::config::DEFAULT_RETRY_LIMIT;
use sensor_spectrum::ring::RingBuffer;
use sensor_spectrum::status::StageExit;
use std::sync::mpsc::channel;

fn filled(capacity: usize, samples: &[u64]) -> RingBuffer {
    let mut ring = RingBuffer::new(capacity).unwrap();
    for s in samples {
        assert_eq!(ring.try_push(*s), Ok(()));
    }
    ring
}

#[test]
fn reference_retry_limit_is_three() {
    assert_eq!(DEFAULT_RETRY_LIMIT, 3);
    assert_eq!(BufferingStage::new(DEFAULT_RETRY_LIMIT).retry_limit(), 3);
}

#[test]
fn new_stage_has_nothing_deferred() {
    let stage = BufferingStage::new(3);
    assert_eq!(stage.deferred_len(), 0);
    assert_eq!(stage.deferred_samples(), Vec::<u64>::new());
}

#[test]
fn offer_pushes_while_there_is_room() {
    let mut ring = RingBuffer::new(2).unwrap();
    let mut stage = BufferingStage::new(3);
    stage.offer(&mut ring, 1);
    stage.offer(&mut ring, 2);
    assert_eq!(ring.len(), 2);
    assert_eq!(stage.deferred_len(), 0);
    assert_eq!(ring.drain_exact(2), vec![1, 2]);
}

#[test]
fn offer_defers_when_ring_is_full() {
    let mut ring = filled(2, &[1, 2]);
    let mut stage = BufferingStage::new(3);
    stage.offer(&mut ring, 3);
    stage.offer(&mut ring, 4);
    stage.offer(&mut ring, 5);
    assert_eq!(ring.len(), 2);
    assert_eq!(stage.deferred_samples(), vec![3, 4, 5]);
    assert_eq!(ring.drain_exact(2), vec![1, 2]);
}

#[test]
fn retry_on_full_ring_keeps_everything() {
    let mut ring = filled(2, &[1, 2]);
    let mut stage = BufferingStage::new(3);
    stage.offer(&mut ring, 3);
    stage.offer(&mut ring, 4);
    stage.retry_deferred(&mut ring);
    assert_eq!(stage.deferred_samples(), vec![3, 4]);
    assert_eq!(ring.len(), 2);
    assert_eq!(ring.drain_exact(2), vec![1, 2]);
}

#[test]
fn retry_moves_latest_deferred_first() {
    let mut ring = filled(3, &[1, 2, 3]);
    let mut stage = BufferingStage::new(3);
    stage.offer(&mut ring, 4);
    stage.offer(&mut ring, 5);
    stage.offer(&mut ring, 6);
    assert_eq!(ring.drain_exact(2), vec![1, 2]);
    stage.retry_deferred(&mut ring);
    assert_eq!(stage.deferred_samples(), vec![4]);
    assert_eq!(ring.drain_exact(3), vec![3, 6, 5]);
}

#[test]
fn retry_empties_the_list_when_all_fit() {
    let mut ring = filled(2, &[1, 2]);
    let mut stage = BufferingStage::new(3);
    stage.offer(&mut ring, 3);
    stage.offer(&mut ring, 4);
    assert_eq!(ring.drain_exact(2), vec![1, 2]);
    stage.retry_deferred(&mut ring);
    assert_eq!(stage.deferred_len(), 0);
    assert_eq!(ring.drain_exact(2), vec![4, 3]);
}

#[test]
fn retry_limit_of_zero_retries_nothing() {
    let mut ring = filled(1, &[1]);
    let mut stage = BufferingStage::new(0);
    stage.offer(&mut ring, 2);
    assert_eq!(ring.drain_exact(1), vec![1]);
    stage.retry_deferred(&mut ring);
    assert_eq!(stage.deferred_samples(), vec![2]);
    assert_eq!(ring.len(), 0);
}

#[test]
fn retry_limit_of_one_moves_what_fits() {
    let mut ring = filled(2, &[1, 2]);
    let mut stage = BufferingStage::new(1);
    stage.offer(&mut ring, 3);
    stage.offer(&mut ring, 4);
    assert_eq!(ring.drain_exact(1), vec![1]);
    stage.retry_deferred(&mut ring);
    assert_eq!(stage.deferred_samples(), vec![3]);
    assert_eq!(ring.drain_exact(2), vec![2, 4]);
}

#[test]
fn react_to_each_event() {
    let mut ring = RingBuffer::new(1).unwrap();
    let mut stage = BufferingStage::new(3);
    assert_eq!(stage.react(&mut ring, ChannelEvent::Empty), None);
    assert_eq!(ring.len(), 0);
    assert_eq!(stage.react(&mut ring, ChannelEvent::Received(7)), None);
    assert_eq!(ring.len(), 1);
    assert_eq!(stage.react(&mut ring, ChannelEvent::Received(8)), None);
    assert_eq!(stage.deferred_samples(), vec![8]);
    assert_eq!(
        stage.react(&mut ring, ChannelEvent::Disconnected),
        Some(StageExit::Disconnected)
    );
    assert_eq!(ring.len(), 1);
    assert_eq!(stage.deferred_samples(), vec![8]);
}

#[test]
fn step_receives_in_channel_order() {
    let (tx, rx) = channel::<u64>();
    let mut ring = RingBuffer::new(4).unwrap();
    let mut stage = BufferingStage::new(3);
    tx.send(11).unwrap();
    tx.send(22).unwrap();
    assert_eq!(stage.step(&mut ring, &rx), ChannelEvent::Received(11));
    assert_eq!(stage.step(&mut ring, &rx), ChannelEvent::Received(22));
    assert_eq!(stage.step(&mut ring, &rx), ChannelEvent::Empty);
    assert_eq!(ring.drain_exact(2), vec![11, 22]);
}

#[test]
fn step_reports_disconnect_after_draining_channel() {
    let (tx, rx) = channel::<u64>();
    let mut ring = RingBuffer::new(4).unwrap();
    let mut stage = BufferingStage::new(3);
    tx.send(5).unwrap();
    drop(tx);
    assert_eq!(stage.step(&mut ring, &rx), ChannelEvent::Received(5));
    assert_eq!(stage.step(&mut ring, &rx), ChannelEvent::Disconnected);
    assert_eq!(stage.step(&mut ring, &rx), ChannelEvent::Disconnected);
    assert_eq!(ring.len(), 1);
}

#[test]
fn step_retries_before_it_receives() {
    let (tx, rx) = channel::<u64>();
    let mut ring = filled(2, &[1, 2]);
    let mut stage = BufferingStage::new(3);
    tx.send(3).unwrap();
    tx.send(4).unwrap();
    assert_eq!(stage.step(&mut ring, &rx), ChannelEvent::Received(3));
    assert_eq!(stage.deferred_samples(), vec![3]);
    assert_eq!(ring.drain_exact(1), vec![1]);
    // The deferred 3 takes the free slot first, so the new 4 is deferred.
    assert_eq!(stage.step(&mut ring, &rx), ChannelEvent::Received(4));
    assert_eq!(stage.deferred_samples(), vec![4]);
    assert_eq!(ring.drain_exact(2), vec![2, 3]);
}

#[test]
fn saturated_ring_accumulates_arrivals() {
    let (tx, rx) = channel::<u64>();
    let mut ring = filled(3, &[1, 2, 3]);
    let mut stage = BufferingStage::new(3);
    for s in 100..110u64 {
        tx.send(s).unwrap();
        assert_eq!(stage.step(&mut ring, &rx), ChannelEvent::Received(s));
        assert_eq!(ring.len(), 3);
    }
    assert_eq!(
        stage.deferred_samples(),
        vec![100, 101, 102, 103, 104, 105, 106, 107, 108, 109]
    );
    assert_eq!(ring.drain_exact(3), vec![1, 2, 3]);
}

#[test]
fn no_sample_is_lost_under_backpressure() {
    let (tx, rx) = channel::<u64>();
    let mut ring = RingBuffer::new(3).unwrap();
    let mut stage = BufferingStage::new(3);
    let mut drained: Vec<u64> = Vec::new();
    let total: u64 = 40;
    for s in 0..total {
        tx.send(s).unwrap();
        assert_eq!(stage.step(&mut ring, &rx), ChannelEvent::Received(s));
        // A slow consumer: takes two samples on every fifth arrival.
        if s % 5 == 4 && ring.len() >= 2 {
            drained.extend(ring.drain_exact(2));
        }
        let entered = s + 1;
        assert_eq!(
            (drained.len() + ring.len() + stage.deferred_len()) as u64,
            entered
        );
    }
    let held = ring.len();
    let mut all = drained;
    all.extend(ring.drain_exact(held));
    all.extend(stage.deferred_samples());
    all.sort();
    assert_eq!(all, (0..total).collect::<Vec<u64>>());
}
