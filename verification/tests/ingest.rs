use sensor_spectrum::codec::SampleType;
use sensor_spectrum::ingest::{IngestAction, IngestionStage, ReadOutcome};
use sensor_spectrum::status::StageExit;
use std::sync::mpsc::channel;

#[test]
fn record_width_follows_sample_type() {
    assert_eq!(IngestionStage::new(SampleType::Single).record_width(), 4);
    assert_eq!(IngestionStage::new(SampleType::Double).record_width(), 8);
}

#[test]
fn record_is_decoded_and_forwarded() {
    let stage = IngestionStage::new(SampleType::Single);
    let outcome = ReadOutcome::Record(vec![0x00, 0x00, 0x80, 0x3f]);
    assert_eq!(stage.on_read(&outcome), IngestAction::Forward(0x3f80_0000));
}

#[test]
fn double_record_is_decoded_and_forwarded() {
    let stage = IngestionStage::new(SampleType::Double);
    let outcome = ReadOutcome::Record(1.5f64.to_le_bytes().to_vec());
    assert_eq!(
        stage.on_read(&outcome),
        IngestAction::Forward(1.5f64.to_bits())
    );
}

#[test]
fn nan_and_infinity_records_are_accepted() {
    let stage = IngestionStage::new(SampleType::Single);
    for value in [f32::NAN, f32::INFINITY, f32::NEG_INFINITY, f32::MIN_POSITIVE / 2.0] {
        let outcome = ReadOutcome::Record(value.to_le_bytes().to_vec());
        assert_eq!(
            stage.on_read(&outcome),
            IngestAction::Forward(value.to_bits() as u64)
        );
    }
}

#[test]
fn end_of_stream_shuts_down() {
    let stage = IngestionStage::new(SampleType::Single);
    assert_eq!(stage.on_read(&ReadOutcome::EndOfStream), IngestAction::Shutdown);
}

#[test]
fn failed_read_is_skipped() {
    let stage = IngestionStage::new(SampleType::Single);
    assert_eq!(stage.on_read(&ReadOutcome::Failed), IngestAction::Skip);
}

#[test]
fn after_send_continues_or_closes() {
    assert_eq!(IngestionStage::after_send(Ok(())), None);
    assert_eq!(
        IngestionStage::after_send(Err(42)),
        Some(StageExit::ChannelClosed)
    );
}

#[test]
fn step_forwards_samples_in_order() {
    let (tx, rx) = channel::<u64>();
    let stage = IngestionStage::new(SampleType::Single);
    for value in [1.0f32, -2.0, 0.5] {
        let outcome = ReadOutcome::Record(value.to_le_bytes().to_vec());
        assert_eq!(stage.step(&outcome, &tx), None);
    }
    assert_eq!(rx.try_recv(), Ok(1.0f32.to_bits() as u64));
    assert_eq!(rx.try_recv(), Ok((-2.0f32).to_bits() as u64));
    assert_eq!(rx.try_recv(), Ok(0.5f32.to_bits() as u64));
    assert!(rx.try_recv().is_err());
}

#[test]
fn step_stops_at_end_of_stream() {
    let (tx, rx) = channel::<u64>();
    let stage = IngestionStage::new(SampleType::Single);
    assert_eq!(
        stage.step(&ReadOutcome::EndOfStream, &tx),
        Some(StageExit::EndOfStream)
    );
    assert!(rx.try_recv().is_err());
}

#[test]
fn step_goes_on_after_failed_read() {
    let (tx, rx) = channel::<u64>();
    let stage = IngestionStage::new(SampleType::Single);
    assert_eq!(stage.step(&ReadOutcome::Failed, &tx), None);
    assert!(rx.try_recv().is_err());
    let outcome = ReadOutcome::Record(vec![1, 0, 0, 0]);
    assert_eq!(stage.step(&outcome, &tx), None);
    assert_eq!(rx.try_recv(), Ok(1));
}

#[test]
fn step_stops_when_receiver_is_gone() {
    let (tx, rx) = channel::<u64>();
    drop(rx);
    let stage = IngestionStage::new(SampleType::Single);
    let outcome = ReadOutcome::Record(vec![1, 2, 3, 4]);
    assert_eq!(stage.step(&outcome, &tx), Some(StageExit::ChannelClosed));
}
