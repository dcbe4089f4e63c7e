use async_recorder::storage::BatchLog;
use async_recorder::Recorder;

#[test]
fn record_event_to_persistence_backend() {
    let record = "Hello, World!";
    let storage: Vec<&'static str> = Vec::new();

    let mut recorder = Recorder::new(storage);
    recorder.save(record);
    let storage = recorder.close();

    assert_eq!(["Hello, World!"].as_slice(), storage);
}

#[test]
fn persist_events_in_bulk() {
    // Until the worker is asked for an answer, saves only queue up, as if
    // the backend were blocked; closing unblocks persistence.
    let storage: BatchLog<&'static str> = BatchLog::new();

    let mut recorder = Recorder::new(storage);
    recorder.save("first");
    recorder.save("second");
    let spy = recorder.close();

    // Verify that there is one bulk with two entries.
    assert_eq!(1, spy.batches.len());
    assert_eq!(["first", "second"].as_slice(), spy.batches[0]);
}

#[test]
fn records_are_filtered_using_query() {
    let storage: Vec<&'static str> = Vec::new();

    let mut recorder = Recorder::new(storage);
    // We write three records
    recorder.save("first");
    recorder.save("second");
    recorder.save("third");
    // Using this query we will only see the first two
    let records = recorder.records(0..2);
    let _ = recorder.close();

    assert_eq!(["first", "second"].as_slice(), records);
}

/// When we boot up our application we may want to boot it up really fast
/// without waiting for it to have caught up with the past, by restoring all
/// the data from the persistence backend. Luckily we can accept save calls
/// while still initializing the storage backend.
#[test]
fn recorder_instantiation_does_not_need_to_wait_for_persistence_backend() {
    let mut recorder: Recorder<Vec<&'static str>> = Recorder::with_lazy_storage();
    recorder.save("second");
    // The slow backend arrives only now, already holding one record.
    recorder.storage_ready(vec!["first"]);
    let records = recorder.records(0..2);
    let _ = recorder.close();

    assert_eq!(["first", "second"].as_slice(), records)
}

#[test]
fn recorder_should_be_able_to_work_with_a_storage_decided_at_runtime() {
    let dynamic_storage: Box<Vec<&'static str>> = Box::default();

    let mut recorder = Recorder::new(dynamic_storage);
    recorder.save("Hello, World!");
    let first_record = recorder.records(0..1);

    assert_eq!(["Hello, World!"].as_slice(), first_record);
}
