use pdfbrute::config::{resolve_worker_count, worker_count};
use pdfbrute::descriptor::{EncryptionDescriptor, ExtractError};
use pdfbrute::pool::{
    classify, run_sequential, run_until_shutdown, run_with_workers, transition, Aggregator, Message,
    WorkerEvent, WorkerState,
};
use pdfbrute::search::{
    crack, crack_counted, process_document, CandidateSource, Cursor, DocumentTask, Outcome, Step,
};

fn revision_3_for_correct() -> EncryptionDescriptor {
    EncryptionDescriptor {
        revision: 3,
        key_length_bits: 128,
        owner_entry: (0..32u8).collect(),
        user_entry: vec![
            0x49, 0x9f, 0x79, 0x56, 0x30, 0xf4, 0x00, 0xe8, 0x19, 0xe2, 0xbf, 0x5c, 0x53, 0xd3,
            0xb5, 0xe1, 0x00, 0x00, 0x00, 0x00, 0x00, 0x00, 0x00, 0x00, 0x00, 0x00, 0x00, 0x00,
            0x00, 0x00, 0x00, 0x00,
        ],
        permissions: -44,
        file_id: (100..116u8).collect(),
        encrypt_metadata: true,
    }
}

fn revision_2_for_secret() -> EncryptionDescriptor {
    EncryptionDescriptor {
        revision: 2,
        key_length_bits: 40,
        owner_entry: (0..32u8).collect(),
        user_entry: vec![
            0x0b, 0x8e, 0x4d, 0x21, 0x6e, 0x87, 0x4c, 0x0c, 0x83, 0x9f, 0x7d, 0x6c, 0xf4, 0x7d,
            0xe0, 0xe3, 0xaa, 0x05, 0xf6, 0x2f, 0x53, 0xf5, 0xaf, 0x4e, 0xf7, 0x46, 0xe6, 0xf8,
            0xc2, 0x91, 0xe3, 0xd6,
        ],
        permissions: -64,
        file_id: (100..116u8).collect(),
        encrypt_metadata: true,
    }
}

fn source(lines: &[&str]) -> CandidateSource {
    let owned: Vec<String> = lines.iter().map(|s| s.to_string()).collect();
    CandidateSource::from_lines(&owned)
}

fn found(out: &Outcome) -> Option<(String, usize)> {
    match out {
        Outcome::Found { password, candidate_index } => Some((password.clone(), *candidate_index)),
        _ => None,
    }
}

#[test]
fn found_at_the_second_line() {
    let out = crack(&revision_3_for_correct(), &source(&["wrong1", "correct", "wrong2"]));
    assert_eq!(found(&out), Some(("correct".to_string(), 1)));
}

#[test]
fn found_index_is_the_line_of_the_password() {
    for k in 0..5usize {
        let mut lines = vec!["a", "b", "c", "d", "e"];
        lines[k] = "correct";
        let out = crack(&revision_3_for_correct(), &source(&lines));
        assert_eq!(found(&out), Some(("correct".to_string(), k)));
    }
}

#[test]
fn the_lowest_index_wins_when_the_password_occurs_twice() {
    let out = crack(&revision_3_for_correct(), &source(&["x", "correct", "y", "correct"]));
    assert_eq!(found(&out), Some(("correct".to_string(), 1)));
}

#[test]
fn exhausted_when_nothing_matches() {
    let out = crack(&revision_3_for_correct(), &source(&["wrong1", "wrong2", "wrong3"]));
    assert!(matches!(out, Outcome::Exhausted));
}

#[test]
fn exhausted_on_an_empty_dictionary() {
    let out = crack(&revision_3_for_correct(), &source(&[]));
    assert!(matches!(out, Outcome::Exhausted));
}

#[test]
fn running_again_gives_the_same_outcome() {
    let s = source(&["wrong1", "correct", "wrong2"]);
    let first = crack(&revision_3_for_correct(), &s);
    let second = crack(&revision_3_for_correct(), &s);
    assert_eq!(found(&first), found(&second));
    let t = source(&["nope"]);
    assert!(matches!(crack(&revision_3_for_correct(), &t), Outcome::Exhausted));
    assert!(matches!(crack(&revision_3_for_correct(), &t), Outcome::Exhausted));
}

#[test]
fn empty_lines_are_left_out_and_nothing_is_trimmed() {
    let s = source(&["", "wrong1", "", " correct", "correct", "", "correct"]);
    assert_eq!(s.len(), 4);
    assert_eq!(s.get(0), "wrong1");
    assert_eq!(s.get(1), " correct");
    assert_eq!(s.get(2), "correct");
    assert_eq!(s.get(3), "correct");
    let out = crack(&revision_3_for_correct(), &s);
    assert_eq!(found(&out), Some(("correct".to_string(), 2)));
}

#[test]
fn a_document_without_descriptor_is_reported_and_not_searched() {
    let s = source(&["correct"]);
    let out = process_document(Err(ExtractError::NotEncrypted), &s);
    assert!(matches!(out, Outcome::ExtractionFailed { reason: ExtractError::NotEncrypted }));
    let out = process_document(Err(ExtractError::UnsupportedHandler), &s);
    assert!(matches!(out, Outcome::ExtractionFailed { reason: ExtractError::UnsupportedHandler }));
    let out = process_document(Err(ExtractError::Malformed), &s);
    assert!(matches!(out, Outcome::ExtractionFailed { reason: ExtractError::Malformed }));
    let out = process_document(Ok(revision_3_for_correct()), &s);
    assert_eq!(found(&out), Some(("correct".to_string(), 0)));
}

#[test]
fn cursor_steps_through_the_dictionary() {
    let d = revision_3_for_correct();
    let s = source(&["wrong1", "correct", "wrong2"]);
    let mut c = Cursor::new();
    assert_eq!(c.next, 0);
    assert!(matches!(c.advance(&d, &s, false), Step::Continue));
    assert_eq!(c.next, 1);
    match c.advance(&d, &s, false) {
        Step::Finished(o) => assert_eq!(found(&o), Some(("correct".to_string(), 1))),
        _ => panic!("the second candidate matches"),
    }
    assert_eq!(c.next, 1);
}

#[test]
fn cursor_past_the_end_is_exhausted() {
    let d = revision_3_for_correct();
    let s = source(&["wrong1"]);
    let mut c = Cursor::new();
    assert!(matches!(c.advance(&d, &s, false), Step::Continue));
    assert!(matches!(c.advance(&d, &s, false), Step::Finished(Outcome::Exhausted)));
    assert_eq!(c.next, 1);
}

#[test]
fn a_cancelled_step_tries_nothing() {
    let d = revision_3_for_correct();
    let s = source(&["correct"]);
    let mut c = Cursor::new();
    assert!(matches!(c.advance(&d, &s, true), Step::Abandoned));
    assert_eq!(c.next, 0);
}

#[test]
fn worker_state_machine() {
    let idle = WorkerState::Idle;
    let validating = WorkerState::Validating;
    let draining = WorkerState::Draining;
    assert_eq!(transition(idle, WorkerEvent::TaskClaimed), validating);
    assert_eq!(transition(idle, WorkerEvent::QueueClosed), draining);
    assert_eq!(transition(idle, WorkerEvent::ShutdownRequested), draining);
    assert_eq!(transition(idle, WorkerEvent::TaskFinished), idle);
    assert_eq!(transition(validating, WorkerEvent::TaskFinished), idle);
    assert_eq!(transition(validating, WorkerEvent::ShutdownRequested), draining);
    assert_eq!(transition(validating, WorkerEvent::TaskClaimed), validating);
    assert_eq!(transition(validating, WorkerEvent::QueueClosed), validating);
    for e in [
        WorkerEvent::TaskClaimed,
        WorkerEvent::QueueClosed,
        WorkerEvent::TaskFinished,
        WorkerEvent::ShutdownRequested,
    ] {
        assert_eq!(transition(draining, e), draining);
    }
}

#[test]
fn received_messages_are_classified() {
    assert_eq!(classify(&None), WorkerEvent::QueueClosed);
    assert_eq!(classify(&Some(Message::Shutdown)), WorkerEvent::ShutdownRequested);
    assert_eq!(
        classify(&Some(Message::PdfPath("a.pdf".to_string()))),
        WorkerEvent::TaskClaimed
    );
}

#[test]
fn aggregator_counts_and_never_overwrites() {
    let mut agg = Aggregator::new(3);
    assert_eq!(agg.submitted(), 3);
    assert_eq!(agg.received(), 0);
    assert!(!agg.is_complete());
    assert!(agg.record(1, Outcome::Exhausted));
    assert_eq!(agg.received(), 1);
    assert!(!agg.record(
        1,
        Outcome::Found { password: "x".to_string(), candidate_index: 0 }
    ));
    assert_eq!(agg.received(), 1);
    assert!(matches!(agg.outcome(1), Some(Outcome::Exhausted)));
    assert!(agg.outcome(0).is_none());
    assert!(!agg.record(3, Outcome::Exhausted));
    assert!(agg.record(0, Outcome::Found { password: "pw".to_string(), candidate_index: 7 }));
    assert!(!agg.is_complete());
    assert!(agg.record(
        2,
        Outcome::ExtractionFailed { reason: ExtractError::Malformed }
    ));
    assert_eq!(agg.received(), 3);
    assert!(agg.is_complete());
    assert_eq!(found(agg.outcome(0).as_ref().unwrap()), Some(("pw".to_string(), 7)));
}

#[test]
fn an_aggregator_for_no_task_is_complete() {
    let agg = Aggregator::new(0);
    assert!(agg.is_complete());
    assert_eq!(agg.received(), 0);
}

fn tasks() -> Vec<DocumentTask> {
    vec![
        DocumentTask { path: "a.pdf".to_string(), descriptor: revision_3_for_correct() },
        DocumentTask { path: "b.pdf".to_string(), descriptor: revision_2_for_secret() },
        DocumentTask { path: "c.pdf".to_string(), descriptor: revision_3_for_correct() },
    ]
}

fn summary(agg: &Aggregator) -> Vec<Option<Option<(String, usize)>>> {
    (0..agg.submitted()).map(|i| agg.outcome(i).as_ref().map(found)).collect()
}

#[test]
fn sequential_run_records_every_outcome() {
    let s = source(&["wrong1", "correct", "wrong2"]);
    let agg = run_sequential(&tasks(), &s);
    assert!(agg.is_complete());
    assert_eq!(
        summary(&agg),
        vec![
            Some(Some(("correct".to_string(), 1))),
            Some(None),
            Some(Some(("correct".to_string(), 1))),
        ]
    );
    assert!(matches!(agg.outcome(1), Some(Outcome::Exhausted)));
}

#[test]
fn any_arrival_order_gives_the_same_outcomes() {
    let s = source(&["secret", "wrong1", "correct"]);
    let t = tasks();
    let reference = run_sequential(&t, &s);
    for order in [[0usize, 1, 2], [2, 1, 0], [1, 2, 0], [1, 0, 2]] {
        let mut agg = Aggregator::new(t.len());
        for i in order {
            assert!(agg.record(i, crack(&t[i].descriptor, &s)));
        }
        assert!(agg.is_complete());
        assert_eq!(summary(&agg), summary(&reference));
    }
}

#[test]
fn a_run_cut_short_holds_part_of_the_full_run() {
    let s = source(&["secret", "wrong1", "correct"]);
    let t = tasks();
    let full = run_sequential(&t, &s);
    let mut partial = Aggregator::new(t.len());
    assert!(partial.record(1, crack(&t[1].descriptor, &s)));
    assert!(!partial.is_complete());
    let (p, f) = (summary(&partial), summary(&full));
    for i in 0..t.len() {
        assert!(p[i].is_none() || p[i] == f[i]);
    }
    assert!(p[0].is_none() && p[2].is_none());
    assert_eq!(p[1], Some(Some(("secret".to_string(), 0))));
}

#[test]
fn requested_worker_count_is_taken() {
    assert_eq!(resolve_worker_count(Some(3), 8), 3);
    assert_eq!(resolve_worker_count(None, 8), 8);
    assert_eq!(resolve_worker_count(Some(0), 8), 0);
    assert_eq!(worker_count(Some(5)), 5);
}

#[test]
fn default_worker_count_is_at_least_one() {
    assert!(worker_count(None) >= 1);
}

#[test]
fn worker_counts_one_two_and_many_give_the_same_outcomes() {
    let s = source(&["secret", "wrong1", "correct"]);
    let mut t = tasks();
    t.extend(tasks());
    t.push(DocumentTask { path: "g.pdf".to_string(), descriptor: revision_2_for_secret() });
    let reference = summary(&run_sequential(&t, &s));
    assert_eq!(reference.len(), 7);
    assert_eq!(reference[0], Some(Some(("correct".to_string(), 2))));
    assert_eq!(reference[1], Some(Some(("secret".to_string(), 0))));
    for workers in [1usize, 2, 3, 4, 7, 8, 1000, usize::MAX] {
        let agg = run_with_workers(&t, &s, workers);
        assert!(agg.is_complete());
        assert_eq!(summary(&agg), reference);
    }
}

#[test]
fn a_pool_without_workers_records_nothing() {
    let s = source(&["secret", "wrong1", "correct"]);
    let agg = run_with_workers(&tasks(), &s, 0);
    assert_eq!(agg.received(), 0);
    assert!(!agg.is_complete());
    assert_eq!(summary(&agg), vec![None, None, None]);
}

#[test]
fn shutdown_leaves_the_remaining_documents_unrecorded() {
    let s = source(&["secret", "wrong1", "correct"]);
    let t = tasks();
    let full = summary(&run_sequential(&t, &s));
    for (budget, done) in [(0usize, 0usize), (1, 0), (2, 0), (3, 2), (4, 2), (5, 3), (100, 3)] {
        let (agg, recorded) = run_until_shutdown(&t, &s, budget);
        assert_eq!(recorded, done);
        assert_eq!(agg.received(), done);
        assert_eq!(agg.is_complete(), done == 3);
        let part = summary(&agg);
        for i in 0..t.len() {
            if i < done {
                assert_eq!(part[i], full[i]);
            } else {
                assert_eq!(part[i], None);
            }
        }
    }
}

#[test]
fn shutdown_never_turns_an_abandoned_search_into_exhausted() {
    let s = source(&["a", "b", "c"]);
    let t = tasks();
    let (agg, recorded) = run_until_shutdown(&t, &s, 2);
    assert_eq!(recorded, 0);
    assert!(agg.outcome(0).is_none());
    let (agg, recorded) = run_until_shutdown(&t, &s, 3);
    assert_eq!(recorded, 0);
    assert!(agg.outcome(0).is_none());
    let (agg, recorded) = run_until_shutdown(&t, &s, 4);
    assert_eq!(recorded, 1);
    assert!(matches!(agg.outcome(0), Some(Outcome::Exhausted)));
    assert!(agg.outcome(1).is_none());
}

#[test]
fn nothing_is_validated_after_the_first_match() {
    let d = revision_3_for_correct();
    let (out, count) = crack_counted(&d, &source(&["wrong1", "correct", "wrong2"]));
    assert_eq!(found(&out), Some(("correct".to_string(), 1)));
    assert_eq!(count, 2);
    let (out, count) = crack_counted(&d, &source(&["correct", "wrong1", "wrong2"]));
    assert_eq!(found(&out), Some(("correct".to_string(), 0)));
    assert_eq!(count, 1);
    let (out, count) = crack_counted(&d, &source(&["a", "b", "c"]));
    assert!(matches!(out, Outcome::Exhausted));
    assert_eq!(count, 3);
    let (out, count) = crack_counted(&d, &source(&[]));
    assert!(matches!(out, Outcome::Exhausted));
    assert_eq!(count, 0);
}
