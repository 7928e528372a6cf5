use rgain::{
    load_cache, scan_results, track_count, worker_count, write_outcome, write_wanted, AppError,
    AppResult, CacheEntry, Fault, GlobalCache, Real32, Session, SessionEvent, SessionRequest, Tally,
    TrackResult, WriteTally,
};

fn number(value: f32) -> Real32 {
    Real32 { bits: value.to_bits() }
}

fn track(mark: u8, needs_write: bool) -> TrackResult {
    TrackResult {
        path: vec![mark],
        signature: [mark; 32],
        raw_lufs: number(-f32::from(mark)),
        track_gain: number(0.0),
        peak: number(1.0),
        needs_write,
    }
}

fn remembered(mark: u8, offset: Option<f32>) -> Option<CacheEntry> {
    Some(CacheEntry {
        raw_lufs: number(-f32::from(mark)),
        peak: number(1.0),
        last_applied_offset: offset.map(number),
    })
}

#[test]
fn workers_are_counted() {
    assert_eq!(worker_count(3, Some(8)), 3);
    assert_eq!(worker_count(0, Some(8)), 8);
    assert_eq!(worker_count(0, None), 1);
    assert_eq!(worker_count(5, None), 5);
}

#[test]
fn track_counts_saturate() {
    assert_eq!(track_count(0), 0);
    assert_eq!(track_count(12345), 12345);
    assert_eq!(track_count(u32::MAX as usize), u32::MAX);
    assert_eq!(track_count(u32::MAX as usize + 1), u32::MAX);
}

#[test]
fn tallies_merge_in_order() {
    let mut first: Tally<u8> = Tally::new();
    first.record(Some(1));
    first.record(None);
    let mut second: Tally<u8> = Tally::new();
    second.record(Some(2));
    second.record(None);
    second.record(Some(3));
    let both = first.merge(second).merge(Tally::new());
    assert_eq!(both.items, [1, 2, 3]);
    assert_eq!(both.failed, 2);
}

#[test]
fn the_order_of_work_is_immaterial() {
    let outcomes = [Some(1), None, Some(2), Some(3), None, Some(2)];
    let mut forward: Tally<u8> = Tally::new();
    for outcome in outcomes {
        forward.record(outcome);
    }
    let mut backward: Tally<u8> = Tally::new();
    for outcome in outcomes.into_iter().rev() {
        backward.record(outcome);
    }
    assert_eq!(forward.items, [1, 2, 3, 2]);
    backward.items.reverse();
    assert_eq!(forward.items, backward.items);
    assert_eq!((forward.failed, backward.failed), (2, 2));
    assert_eq!(forward.items.len() + forward.failed, outcomes.len());
}

#[test]
fn tracks_that_need_no_write_count_as_written() {
    assert_eq!(write_outcome(&track(1, false), false), Some([1; 32]));
    assert_eq!(write_outcome(&track(1, false), true), Some([1; 32]));
    assert_eq!(write_outcome(&track(1, true), true), Some([1; 32]));
    assert_eq!(write_outcome(&track(1, true), false), None);
}

fn denied(text: &str) -> AppResult<()> {
    Err(AppError::Io(std::io::Error::new(std::io::ErrorKind::PermissionDenied, text)))
}

fn unparsable() -> AppResult<()> {
    Err(AppError::decode(Fault::Metadata("x".to_string())))
}

fn text(error: Option<AppError>) -> String {
    match error {
        Some(AppError::Io(error)) => error.to_string(),
        _ => panic!("not an input or output error"),
    }
}

#[test]
fn only_tracks_that_need_it_are_to_be_written() {
    assert!(write_wanted(&track(1, true)));
    assert!(!write_wanted(&track(1, false)));
}

#[test]
fn the_first_refused_write_is_kept() {
    let mut first = WriteTally::new();
    first.record(&track(1, true), Ok(()));
    first.record(&track(2, true), unparsable());
    first.record(&track(3, false), denied("not asked for"));
    assert!(first.refused.is_none());
    let mut second = WriteTally::new();
    second.record(&track(4, true), denied("four"));
    second.record(&track(5, true), denied("five"));
    let mut third = WriteTally::new();
    third.record(&track(6, true), denied("six"));
    third.record(&track(7, true), Ok(()));
    let all = first.merge(second).merge(third).merge(WriteTally::new());
    assert_eq!(all.tally.items, [[1; 32], [3; 32], [7; 32]]);
    assert_eq!(all.tally.failed, 4);
    assert_eq!(text(all.refused), "four");
}

#[test]
fn a_refused_write_fails_the_run_and_the_cache_is_stored() {
    let results = vec![track(1, true), track(2, true)];
    let mut writes = WriteTally::new();
    writes.record(&results[0], denied("read-only"));
    writes.record(&results[1], Ok(()));
    let mut session = Session::start(GlobalCache::new(), true, Some(number(1.5)));
    session.advance(SessionEvent::Scanned(&results));
    session.advance(SessionEvent::Done);
    assert_eq!(session.request(), SessionRequest::WriteTags);
    session.advance(SessionEvent::Written(&writes.tally.items, writes.refused));
    assert_eq!(session.request(), SessionRequest::CreateTemporary);
    assert_eq!(session.cache().get(&[1; 32]), remembered(1, None));
    assert_eq!(session.cache().get(&[2; 32]), remembered(2, Some(1.5)));
    session.advance(SessionEvent::Done);
    assert_eq!(session.request(), SessionRequest::FillTemporary);
    session.advance(SessionEvent::Done);
    assert_eq!(session.request(), SessionRequest::Publish);
    session.advance(SessionEvent::Done);
    assert_eq!(session.request(), SessionRequest::Stop);
    assert_eq!(text(session.outcome().unwrap().err()), "read-only");
}

#[test]
fn writing_that_fails_as_a_whole_fails_the_run_once_the_cache_is_stored() {
    let results = vec![track(1, true)];
    let mut session = Session::start(GlobalCache::new(), true, None);
    session.advance(SessionEvent::Scanned(&results));
    session.advance(SessionEvent::Done);
    session.advance(SessionEvent::Failed(denied("gone").unwrap_err()));
    assert_eq!(session.request(), SessionRequest::CreateTemporary);
    assert_eq!(session.cache().get(&[1; 32]), remembered(1, None));
    for _ in 0..3 {
        session.advance(SessionEvent::Done);
    }
    assert_eq!(text(session.outcome().unwrap().err()), "gone");
}

#[test]
fn a_scan_gives_the_tracks_that_were_measured() {
    let mut tally: Tally<TrackResult> = Tally::new();
    tally.record(Some(track(1, true)));
    tally.record(None);
    tally.record(Some(track(2, true)));
    let results = scan_results(tally, true).unwrap();
    let marks: Vec<u8> = results.iter().map(|t| t.path[0]).collect();
    assert_eq!(marks, [1, 2]);
}

#[test]
fn a_scanner_that_panicked_fails_the_scan() {
    let mut tally: Tally<TrackResult> = Tally::new();
    tally.record(Some(track(1, true)));
    match scan_results(tally, false) {
        Err(AppError::Decode(text)) => assert_eq!(text, "Scanner thread 发生系统级 Panic 崩溃"),
        _ => panic!("the panic was lost"),
    }
}

#[test]
fn a_writing_run_marks_and_stores() {
    let results = vec![track(1, true), track(2, true)];
    let mut session = Session::start(GlobalCache::new(), true, Some(number(1.5)));
    assert_eq!(session.request(), SessionRequest::Scan);
    session.advance(SessionEvent::Scanned(&results));
    assert_eq!(session.request(), SessionRequest::Report);
    assert_eq!(session.cache().get(&[1; 32]), remembered(1, None));
    session.advance(SessionEvent::Done);
    assert_eq!(session.request(), SessionRequest::WriteTags);
    session.advance(SessionEvent::Written(&vec![[2; 32]], None));
    assert_eq!(session.request(), SessionRequest::CreateTemporary);
    assert_eq!(session.cache().get(&[1; 32]), remembered(1, None));
    assert_eq!(session.cache().get(&[2; 32]), remembered(2, Some(1.5)));
    session.advance(SessionEvent::Done);
    assert_eq!(session.request(), SessionRequest::FillTemporary);
    session.advance(SessionEvent::Done);
    assert_eq!(session.request(), SessionRequest::Publish);
    session.advance(SessionEvent::Done);
    assert_eq!(session.request(), SessionRequest::Stop);
    assert!(matches!(session.outcome(), Some(Ok(()))));
}

#[test]
fn the_next_run_skips_the_tracks_that_were_written() {
    let results = vec![track(1, true), track(2, true)];
    let mut session = Session::start(GlobalCache::new(), true, Some(number(1.5)));
    session.advance(SessionEvent::Scanned(&results));
    session.advance(SessionEvent::Done);
    session.advance(SessionEvent::Written(&vec![[2; 32]], None));
    let next = Session::start(load_cache(Some(session.cache().members())), true, None);
    assert!(next.cache().needs_write(&[1; 32], Some(number(1.5))));
    assert!(!next.cache().needs_write(&[2; 32], Some(number(1.5))));
    assert!(next.cache().needs_write(&[2; 32], Some(number(1.25))));
}

#[test]
fn a_read_only_run_writes_no_tags() {
    let results = vec![track(1, true)];
    let mut session = Session::start(GlobalCache::new(), false, None);
    session.advance(SessionEvent::Scanned(&results));
    session.advance(SessionEvent::Done);
    assert_eq!(session.request(), SessionRequest::CreateTemporary);
}

#[test]
fn an_empty_scan_ends_the_run() {
    let mut session = Session::start(GlobalCache::new(), true, None);
    session.advance(SessionEvent::Scanned(&vec![]));
    assert_eq!(session.request(), SessionRequest::Stop);
    assert!(matches!(session.outcome(), Some(Ok(()))));
}

#[test]
fn a_failure_ends_the_run_with_its_error() {
    let results = vec![track(1, true)];
    for steps in 0..5 {
        let mut session = Session::start(GlobalCache::new(), false, None);
        if steps > 0 {
            session.advance(SessionEvent::Scanned(&results));
        }
        for _ in 1..steps {
            session.advance(SessionEvent::Done);
        }
        session.advance(SessionEvent::Failed(AppError::decode(Fault::ThreadPool("x".to_string()))));
        session.advance(SessionEvent::Done);
        assert_eq!(session.request(), SessionRequest::Stop);
        match session.outcome() {
            Some(Err(AppError::Decode(text))) => assert_eq!(text, "线程池初始化失败: x"),
            _ => panic!("the error was lost at step {steps}"),
        }
    }
}

#[test]
fn an_unfinished_run_has_no_outcome() {
    let session = Session::start(GlobalCache::new(), false, None);
    assert!(session.outcome().is_none());
}
