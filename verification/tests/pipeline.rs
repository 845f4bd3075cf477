use srt_translate::pipeline::{AbortReason, Action, Event, Outcome, Phase, Pipeline, Settings};
use srt_translate::request::Request;
use srt_translate::srt::{ParseFault, SourceFault};

const SOURCE: &str = "1\n00:00:01,000 --> 00:00:02,000\nA\n\n\
2\n00:00:03,000 --> 00:00:04,500\nB\n\n\
3\n00:01:00,250 --> 00:01:02,000\nC\n\n";

fn settings(max_retries: u32) -> Settings {
    Settings { lang: String::from("zh"), max_retries, retry_delay_secs: 2 }
}

/// What a run did to the world around it.
struct World {
    checkpoint: Option<String>,
    written: Option<String>,
    requests: Vec<Request>,
    waits: Vec<u64>,
    removals: usize,
    last: Action,
    phase: Phase,
}

/// Runs the machine to its end. `translate` answers the attempts; the run is
/// cut off, as by a kill, once `stop_after` records are on disk.
fn drive(
    run: &mut Pipeline,
    source: Option<&str>,
    checkpoint: Option<String>,
    translate: &mut dyn FnMut(&Request) -> Outcome,
    stop_after: Option<usize>,
) -> World {
    let mut world = World {
        checkpoint,
        written: None,
        requests: Vec::new(),
        waits: Vec::new(),
        removals: 0,
        last: Action::ReadCheckpoint,
        phase: Phase::Init,
    };
    let mut recorded = 0;
    let mut action = run.step(Event::SourceRead(source.map(String::from)));
    loop {
        let event = match &action {
            Action::ReadCheckpoint => Event::CheckpointRead(world.checkpoint.clone()),
            Action::Translate(request) => {
                world.requests.push(clone_request(request));
                Event::Attempt(translate(request))
            }
            Action::Retry { request, delay_secs } => {
                world.waits.push(*delay_secs);
                world.requests.push(clone_request(request));
                Event::Attempt(translate(request))
            }
            Action::Record { text } => {
                let mut file = world.checkpoint.take().unwrap_or_default();
                file.push_str(text);
                world.checkpoint = Some(file);
                recorded += 1;
                if stop_after == Some(recorded) {
                    break;
                }
                Event::Recorded
            }
            Action::Write { text } => {
                world.written = Some(text.clone());
                Event::Written
            }
            Action::RemoveCheckpoint => {
                world.checkpoint = None;
                world.removals += 1;
                Event::Removed
            }
            Action::Finish { .. } | Action::Abort { .. } => break,
        };
        action = run.step(event);
    }
    world.last = action;
    world.phase = run.phase();
    world
}

fn clone_request(request: &Request) -> Request {
    Request {
        text: request.text.clone(),
        lang: request.lang.clone(),
        above: request.above.clone(),
        below: request.below.clone(),
    }
}

fn upper(request: &Request) -> Outcome {
    Outcome::Success(request.text.to_uppercase())
}

fn tagged(request: &Request) -> Outcome {
    Outcome::Success(format!("<{}>", request.text))
}

#[test]
fn example_scenario() {
    let mut run = Pipeline::new(settings(3));
    let world = drive(&mut run, Some(SOURCE), None, &mut upper, None);
    assert_eq!(world.requests.len(), 3);
    assert_eq!(world.requests[0].text, "A");
    assert_eq!(world.requests[0].above, "");
    assert_eq!(world.requests[0].below, "B");
    assert_eq!(world.requests[1].text, "B");
    assert_eq!(world.requests[1].above, "A");
    assert_eq!(world.requests[1].below, "C");
    assert_eq!(world.requests[2].text, "C");
    assert_eq!(world.requests[2].above, "B");
    assert_eq!(world.requests[2].below, "");
    assert_eq!(world.requests[0].lang, "zh");
    assert_eq!(
        world.written.as_deref(),
        Some(
            "1\n00:00:01,000 --> 00:00:02,000\nA\n\n\
2\n00:00:03,000 --> 00:00:04,500\nB\n\n\
3\n00:01:00,250 --> 00:01:02,000\nC"
        )
    );
    assert_eq!(run.finished().len(), 3);
    for i in 0..3 {
        assert_eq!(run.finished()[i].number, run.source()[i].number);
        assert_eq!(run.finished()[i].start, run.source()[i].start);
        assert_eq!(run.finished()[i].end, run.source()[i].end);
    }
    assert_eq!(world.checkpoint, None);
    assert_eq!(world.removals, 1);
    assert_eq!(world.last, Action::Finish { clean: true });
    assert_eq!(world.phase, Phase::Terminated { clean: true });
}

#[test]
fn translated_text_replaces_source_text() {
    let mut run = Pipeline::new(settings(3));
    let world = drive(&mut run, Some(SOURCE), None, &mut tagged, None);
    assert_eq!(
        world.written.as_deref(),
        Some(
            "1\n00:00:01,000 --> 00:00:02,000\n<A>\n\n\
2\n00:00:03,000 --> 00:00:04,500\n<B>\n\n\
3\n00:01:00,250 --> 00:01:02,000\n<C>"
        )
    );
    assert_eq!(run.finished()[1].text, "<B>");
    assert_eq!(run.output()[2].text, "<C>");
}

#[test]
fn resume_gives_the_same_file_for_every_cut() {
    let mut whole_run = Pipeline::new(settings(3));
    let whole = drive(&mut whole_run, Some(SOURCE), None, &mut tagged, None);
    let expected = whole.written.expect("the whole run writes a file");
    for k in 1..=3 {
        let mut first = Pipeline::new(settings(3));
        let killed = drive(&mut first, Some(SOURCE), None, &mut tagged, Some(k));
        assert_eq!(killed.written, None);
        assert!(killed.checkpoint.is_some());
        let mut second = Pipeline::new(settings(3));
        let resumed = drive(&mut second, Some(SOURCE), killed.checkpoint, &mut tagged, None);
        assert_eq!(second.resume_index(), k);
        assert_eq!(resumed.requests.len(), 3 - k);
        assert_eq!(resumed.written.as_deref(), Some(expected.as_str()));
        assert_eq!(resumed.checkpoint, None);
        assert_eq!(resumed.last, Action::Finish { clean: true });
    }
}

#[test]
fn resume_with_nothing_recorded_translates_all() {
    let mut run = Pipeline::new(settings(3));
    let world = drive(&mut run, Some(SOURCE), Some(String::new()), &mut tagged, None);
    assert_eq!(run.resume_index(), 0);
    assert_eq!(world.requests.len(), 3);
    assert_eq!(world.last, Action::Finish { clean: true });
}

#[test]
fn context_after_resume_is_the_source_text() {
    let mut first = Pipeline::new(settings(3));
    let killed = drive(&mut first, Some(SOURCE), None, &mut tagged, Some(1));
    let mut second = Pipeline::new(settings(3));
    let resumed = drive(&mut second, Some(SOURCE), killed.checkpoint, &mut tagged, None);
    assert_eq!(resumed.requests[0].text, "B");
    assert_eq!(resumed.requests[0].above, "A");
    assert_eq!(resumed.requests[0].below, "C");
    assert_eq!(resumed.requests[1].above, "B");
}

#[test]
fn records_are_appended_in_source_order() {
    let mut run = Pipeline::new(settings(3));
    let killed = drive(&mut run, Some(SOURCE), None, &mut tagged, Some(2));
    assert_eq!(
        killed.checkpoint.as_deref(),
        Some(
            "1\n00:00:01,000 --> 00:00:02,000\n<A>\n\n\
2\n00:00:03,000 --> 00:00:04,500\n<B>\n\n"
        )
    );
}

#[test]
fn record_cut_short_is_translated_again() {
    let torn = String::from(
        "1\n00:00:01,000 --> 00:00:02,000\n<A>\n\n\
2\n00:00:03,000 --> 00:00:04,500\n<B>\n\n3\n00:01:0",
    );
    let mut run = Pipeline::new(settings(3));
    let world = drive(&mut run, Some(SOURCE), Some(torn), &mut tagged, None);
    assert_eq!(run.resume_index(), 2);
    assert_eq!(world.requests.len(), 1);
    assert_eq!(world.requests[0].text, "C");
    assert_eq!(run.finished()[2].text, "<C>");
    assert_eq!(world.last, Action::Finish { clean: true });
}

#[test]
fn unreadable_checkpoint_starts_from_scratch() {
    let mut run = Pipeline::new(settings(3));
    let world =
        drive(&mut run, Some(SOURCE), Some(String::from("no subtitle\n\nat all")), &mut tagged, None);
    assert_eq!(run.resume_index(), 0);
    assert_eq!(world.requests.len(), 3);
}

#[test]
fn output_is_in_the_order_of_the_numbers() {
    let source = "3\n00:00:05,000 --> 00:00:07,200\nFoobar\n\n\
1\n00:00:00,000 --> 00:00:02,400\nHello\n\n\
2\n00:00:03,000 --> 00:00:05,000\nWorld\n\n";
    let mut run = Pipeline::new(settings(0));
    let world = drive(&mut run, Some(source), None, &mut upper, None);
    assert_eq!(world.requests[0].text, "Foobar");
    assert_eq!(world.requests[0].above, "");
    assert_eq!(world.requests[0].below, "Hello");
    let numbers: Vec<usize> = run.finished().iter().map(|e| e.number).collect();
    assert_eq!(numbers, vec![1, 2, 3]);
    let texts: Vec<&str> = run.finished().iter().map(|e| e.text.as_str()).collect();
    assert_eq!(texts, vec!["HELLO", "WORLD", "FOOBAR"]);
    assert_eq!(run.finished()[2].start, run.source()[0].start);
    assert_eq!(run.finished()[2].end, run.source()[0].end);
    assert_eq!(
        world.written.as_deref(),
        Some(
            "1\n00:00:00,000 --> 00:00:02,400\nHELLO\n\n\
2\n00:00:03,000 --> 00:00:05,000\nWORLD\n\n\
3\n00:00:05,000 --> 00:00:07,200\nFOOBAR"
        )
    );
}

#[test]
fn failing_service_is_tried_once_more_than_max_retries() {
    for r in [0u32, 1, 3, 5] {
        let mut attempts = 0u32;
        let mut fail = |_: &Request| {
            attempts += 1;
            Outcome::RetryableFailure(String::from("timeout"))
        };
        let mut run = Pipeline::new(settings(r));
        let world = drive(&mut run, Some(SOURCE), None, &mut fail, None);
        assert_eq!(world.last, Action::Abort { reason: AbortReason::RetriesExhausted });
        assert_eq!(world.phase, Phase::Aborted(AbortReason::RetriesExhausted));
        assert_eq!(world.checkpoint, None);
        assert_eq!(world.written, None);
        assert_eq!(world.waits, vec![2; r as usize]);
        assert_eq!(attempts, r + 1);
        assert_eq!(run.failures(), r);
    }
}

#[test]
fn failure_in_the_middle_keeps_what_was_recorded() {
    let mut fail_on_b = |request: &Request| {
        if request.text == "B" {
            Outcome::RetryableFailure(String::from("refused"))
        } else {
            tagged(request)
        }
    };
    let mut run = Pipeline::new(settings(2));
    let world = drive(&mut run, Some(SOURCE), None, &mut fail_on_b, None);
    assert_eq!(world.last, Action::Abort { reason: AbortReason::RetriesExhausted });
    assert_eq!(world.requests.len(), 1 + 3);
    assert_eq!(world.checkpoint.as_deref(), Some("1\n00:00:01,000 --> 00:00:02,000\n<A>\n\n"));
    assert_eq!(world.removals, 0);
    assert_eq!(run.position(), 1);
    let mut next = Pipeline::new(settings(2));
    let resumed = drive(&mut next, Some(SOURCE), world.checkpoint, &mut tagged, None);
    assert_eq!(resumed.requests[0].text, "B");
    assert_eq!(resumed.last, Action::Finish { clean: true });
}

#[test]
fn retries_are_counted_for_each_entry_anew() {
    let mut calls = 0;
    let mut flaky = |request: &Request| {
        calls += 1;
        if calls % 2 == 1 {
            Outcome::RetryableFailure(String::from("busy"))
        } else {
            tagged(request)
        }
    };
    let mut run = Pipeline::new(settings(1));
    let world = drive(&mut run, Some(SOURCE), None, &mut flaky, None);
    assert_eq!(world.last, Action::Finish { clean: true });
    assert_eq!(world.requests.len(), 6);
    assert_eq!(world.waits, vec![2, 2, 2]);
}

#[test]
fn fatal_failure_is_not_retried() {
    let mut refuse = |_: &Request| Outcome::FatalFailure(String::from("bad key"));
    let mut run = Pipeline::new(settings(5));
    let world = drive(&mut run, Some(SOURCE), None, &mut refuse, None);
    assert_eq!(world.requests.len(), 1);
    assert_eq!(world.last, Action::Abort { reason: AbortReason::ServiceRefused });
}

#[test]
fn unreadable_source_ends_the_run() {
    let mut run = Pipeline::new(settings(3));
    let world = drive(&mut run, None, None, &mut tagged, None);
    assert_eq!(world.last, Action::Abort { reason: AbortReason::SourceUnreadable });
    assert_eq!(world.requests.len(), 0);
}

#[test]
fn malformed_source_ends_the_run() {
    let mut run = Pipeline::new(settings(3));
    let world = drive(
        &mut run,
        Some("1\n00:00:01,000 --> 00:00:02,000\nA\n\nx\n00:00:03,000 --> 00:00:04,000\nB\n\n"),
        None,
        &mut tagged,
        None,
    );
    assert_eq!(
        world.last,
        Action::Abort {
            reason: AbortReason::SourceRejected(SourceFault::Malformed(ParseFault::Number))
        }
    );
    assert_eq!(world.requests.len(), 0);
}

#[test]
fn empty_source_writes_an_empty_file() {
    let mut run = Pipeline::new(settings(3));
    let world = drive(&mut run, Some(""), None, &mut tagged, None);
    assert_eq!(world.requests.len(), 0);
    assert_eq!(world.written.as_deref(), Some(""));
    assert_eq!(world.last, Action::Finish { clean: true });
}

#[test]
fn failed_record_ends_the_run() {
    let mut run = Pipeline::new(settings(3));
    assert_eq!(run.step(Event::SourceRead(Some(String::from(SOURCE)))), Action::ReadCheckpoint);
    assert_eq!(run.phase(), Phase::Resuming);
    let first = run.step(Event::CheckpointRead(None));
    assert!(matches!(first, Action::Translate(_)));
    assert_eq!(run.phase(), Phase::Translating);
    let record = run.step(Event::Attempt(Outcome::Success(String::from("a"))));
    assert_eq!(
        record,
        Action::Record { text: String::from("1\n00:00:01,000 --> 00:00:02,000\na\n\n") }
    );
    assert_eq!(run.phase(), Phase::Checkpointing);
    assert_eq!(run.position(), 0);
    assert_eq!(
        run.step(Event::RecordFailed),
        Action::Abort { reason: AbortReason::RecordFailed }
    );
    assert_eq!(run.position(), 0);
    assert_eq!(run.step(Event::Recorded), Action::Abort { reason: AbortReason::RecordFailed });
}

#[test]
fn failed_write_keeps_the_checkpoint() {
    let mut run = Pipeline::new(settings(3));
    run.step(Event::SourceRead(Some(String::from("1\n00:00:01,000 --> 00:00:02,000\nA\n\n"))));
    run.step(Event::CheckpointRead(None));
    run.step(Event::Attempt(Outcome::Success(String::from("a"))));
    let write = run.step(Event::Recorded);
    assert_eq!(write, Action::Write { text: String::from("1\n00:00:01,000 --> 00:00:02,000\na") });
    assert_eq!(run.phase(), Phase::Finalizing);
    assert_eq!(run.step(Event::WriteFailed), Action::Abort { reason: AbortReason::WriteFailed });
    assert_eq!(run.phase(), Phase::Aborted(AbortReason::WriteFailed));
}

#[test]
fn failed_removal_still_ends_in_success() {
    let mut run = Pipeline::new(settings(3));
    run.step(Event::SourceRead(Some(String::from("1\n00:00:01,000 --> 00:00:02,000\nA\n\n"))));
    run.step(Event::CheckpointRead(None));
    run.step(Event::Attempt(Outcome::Success(String::from("a"))));
    run.step(Event::Recorded);
    assert_eq!(run.step(Event::Written), Action::RemoveCheckpoint);
    assert_eq!(run.phase(), Phase::Cleanup);
    assert_eq!(run.step(Event::RemoveFailed), Action::Finish { clean: false });
    assert_eq!(run.phase(), Phase::Terminated { clean: false });
    assert_eq!(run.step(Event::Removed), Action::Finish { clean: false });
}

#[test]
fn event_out_of_turn_ends_the_run() {
    let mut run = Pipeline::new(settings(3));
    assert_eq!(run.step(Event::Recorded), Action::Abort { reason: AbortReason::OutOfTurn });
    let mut run = Pipeline::new(settings(3));
    run.step(Event::SourceRead(Some(String::from(SOURCE))));
    assert_eq!(run.step(Event::Written), Action::Abort { reason: AbortReason::OutOfTurn });
}

#[test]
fn checkpoint_longer_than_source_is_written_as_it_is() {
    let checkpoint = String::from(
        "1\n00:00:01,000 --> 00:00:02,000\nx\n\n2\n00:00:03,000 --> 00:00:04,000\ny\n\n",
    );
    let mut run = Pipeline::new(settings(3));
    let world = drive(
        &mut run,
        Some("1\n00:00:01,000 --> 00:00:02,000\nA\n\n"),
        Some(checkpoint),
        &mut tagged,
        None,
    );
    assert_eq!(world.requests.len(), 0);
    assert_eq!(run.resume_index(), 2);
    assert_eq!(run.finished().len(), 2);
    assert_eq!(world.last, Action::Finish { clean: true });
}

#[test]
fn default_settings() {
    let s = Settings::new(String::from("fr"));
    assert_eq!(s.lang, "fr");
    assert_eq!(s.max_retries, 3);
    assert_eq!(s.retry_delay_secs, 2);
}

#[test]
fn exit_code_tells_how_the_run_ended() {
    assert_eq!(Action::Finish { clean: true }.exit_code(), Some(0));
    assert_eq!(Action::Finish { clean: false }.exit_code(), Some(0));
    assert_eq!(Action::Abort { reason: AbortReason::RetriesExhausted }.exit_code(), Some(1));
    assert_eq!(Action::Abort { reason: AbortReason::WriteFailed }.exit_code(), Some(1));
    assert_eq!(Action::ReadCheckpoint.exit_code(), None);
    assert_eq!(Action::RemoveCheckpoint.exit_code(), None);
}
