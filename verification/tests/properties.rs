use async_recorder::actor::Actor;
use async_recorder::plan::{plan_burst, Step};
use async_recorder::protocol::Command;
use async_recorder::recorder::Recorder;

#[test]
fn saves_reach_storage_in_submission_order() {
    let mut recorder = Recorder::new(Vec::new());
    recorder.save("a");
    recorder.save("b");
    recorder.save("c");
    let storage = recorder.close();

    assert_eq!(["a", "b", "c"].as_slice(), storage);
}

#[test]
fn close_without_saves_returns_the_storage_supplied() {
    let supplied = vec!["kept", "as", "given"];
    let recorder = Recorder::new(supplied.clone());
    let returned = recorder.close();

    assert_eq!(supplied, returned);
}

#[test]
fn repeated_queries_without_saves_return_the_same_records() {
    let mut recorder = Recorder::new(Vec::new());
    recorder.save("a");
    recorder.save("b");
    let first = recorder.records(0..2);
    let second = recorder.records(0..2);
    let third = recorder.records(0..2);
    let _ = recorder.close();

    assert_eq!(["a", "b"].as_slice(), first);
    assert_eq!(first, second);
    assert_eq!(second, third);
}

#[test]
fn boxed_storage_behaves_as_the_plain_one() {
    let mut plain = Recorder::new(Vec::new());
    plain.save("x");
    plain.save("y");
    let from_plain = plain.records(0..2);

    let mut boxed = Recorder::new(Box::new(Vec::new()));
    boxed.save("x");
    boxed.save("y");
    let from_boxed = boxed.records(0..2);

    assert_eq!(from_plain, from_boxed);
    assert_eq!(plain.close(), *boxed.close());
}

#[test]
fn query_range_is_clamped_to_the_records_present() {
    let mut recorder = Recorder::new(Vec::new());
    recorder.save("only");
    let all = recorder.records(0..10);
    let none = recorder.records(0..0);
    let beyond = recorder.records(5..9);
    let reversed = recorder.records(1..0);
    let _ = recorder.close();

    assert_eq!(["only"].as_slice(), all);
    assert!(none.is_empty());
    assert!(beyond.is_empty());
    assert!(reversed.is_empty());
}

#[test]
fn planner_coalesces_a_burst_of_saves_into_one_flush() {
    let burst = vec![
        Command::<&str, std::ops::Range<usize>>::Save("first"),
        Command::Save("second"),
        Command::Save("third"),
    ];
    let steps = plan_burst(burst);

    assert_eq!(1, steps.len());
    match &steps[0] {
        Step::Flush(batch) => assert_eq!(["first", "second", "third"].as_slice(), *batch),
        Step::Answer(_) => panic!("a burst of saves must not plan an answer"),
    }
}

#[test]
fn planner_flushes_before_each_answer_and_never_reorders() {
    let burst = vec![
        Command::<&str, std::ops::Range<usize>>::Save("first"),
        Command::Save("second"),
        Command::Load(0..2),
        Command::Save("third"),
    ];
    let steps = plan_burst(burst);

    assert_eq!(3, steps.len());
    match &steps[0] {
        Step::Flush(batch) => assert_eq!(["first", "second"].as_slice(), *batch),
        Step::Answer(_) => panic!("the saves ahead of the query must be flushed first"),
    }
    match &steps[1] {
        Step::Answer(query) => assert_eq!(0..2, *query),
        Step::Flush(_) => panic!("the query must be answered right after the flush"),
    }
    match &steps[2] {
        Step::Flush(batch) => assert_eq!(["third"].as_slice(), *batch),
        Step::Answer(_) => panic!("the save after the query must still be flushed"),
    }
}

#[test]
fn worker_answers_queries_between_batches() {
    let actor = Actor::new(vec!["zero"]);
    let bursts = vec![
        vec![
            Command::Save("one"),
            Command::Load(0..2),
            Command::Save("two"),
        ],
        vec![Command::Load(0..3)],
    ];
    let (storage, replies) = actor.run(bursts);

    assert_eq!(["zero", "one", "two"].as_slice(), storage);
    assert_eq!(2, replies.len());
    assert_eq!(["zero", "one"].as_slice(), replies[0]);
    assert_eq!(["zero", "one", "two"].as_slice(), replies[1]);
}

#[test]
fn lazy_recorder_keeps_queueing_until_closed() {
    let mut recorder: Recorder<Vec<&'static str>> = Recorder::with_lazy_storage();
    recorder.save("a");
    recorder.save("b");
    recorder.storage_ready(Vec::new());
    let storage = recorder.into_storage();

    assert_eq!(["a", "b"].as_slice(), storage);
}
