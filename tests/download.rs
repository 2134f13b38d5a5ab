use boxedmino::download::{
    DownloadAction, DownloadError, DownloadEvent, DownloadInput, DownloadSession, Phase,
};
use boxedmino::relay::{ProgressRelay, RelayOutcome};

fn chunk(n: usize, elapsed_ms: u64) -> DownloadInput {
    DownloadInput::Chunk { bytes: vec![7u8; n], elapsed_ms }
}

#[test]
fn a_complete_download_writes_every_byte() {
    let mut s = DownloadSession::new();
    let (ev, a) = s.step(DownloadInput::Responded { content_length: Some(10) });
    assert!(matches!(ev.as_slice(), [DownloadEvent::SetTotal(10), DownloadEvent::SetDeterminacy(true)]));
    assert_eq!(a, DownloadAction::CheckCancel);
    let (ev, a) = s.step(DownloadInput::CancelChecked(false));
    assert!(ev.is_empty());
    assert_eq!(a, DownloadAction::ReadChunk);
    let (ev, a) = s.step(chunk(4, 2000));
    assert_eq!(a, DownloadAction::PauseThenCheckCancel);
    match ev.as_slice() {
        [DownloadEvent::Advance { bytes_downloaded, rate_bytes_per_sec, eta }] => {
            assert_eq!(*bytes_downloaded, 4);
            assert_eq!(*rate_bytes_per_sec, 2);
            assert_eq!(eta, "3 seconds");
        }
        other => panic!("{other:?}"),
    }
    s.step(DownloadInput::CancelChecked(false));
    let (ev, _) = s.step(chunk(6, 2500));
    match ev.as_slice() {
        [DownloadEvent::Advance { bytes_downloaded, rate_bytes_per_sec, eta }] => {
            assert_eq!(*bytes_downloaded, 10);
            assert_eq!(*rate_bytes_per_sec, 4);
            assert_eq!(eta, "0 seconds");
        }
        other => panic!("{other:?}"),
    }
    s.step(DownloadInput::CancelChecked(false));
    let (ev, a) = s.step(chunk(0, 2600));
    assert!(matches!(ev.as_slice(), [DownloadEvent::SetDeterminacy(false)]));
    assert_eq!(a, DownloadAction::WriteFile);
    assert_eq!(s.data(), &vec![7u8; 10]);
    let (ev, a) = s.step(DownloadInput::Written);
    assert!(matches!(ev.as_slice(), [DownloadEvent::Finish]));
    assert_eq!(a, DownloadAction::Stop);
    assert_eq!(s.phase(), Phase::Completed);
}

#[test]
fn cancelling_never_asks_for_a_write_and_still_finishes() {
    let mut s = DownloadSession::new();
    let mut relay = ProgressRelay::new();
    let inputs = vec![
        DownloadInput::Responded { content_length: Some(100) },
        DownloadInput::CancelChecked(false),
        chunk(10, 1000),
        DownloadInput::CancelChecked(true),
        chunk(0, 1200),
        DownloadInput::Written,
    ];
    let mut actions = Vec::new();
    let mut outcome = RelayOutcome::Continue;
    for input in inputs {
        let (events, action) = s.step(input);
        actions.push(action);
        for e in events {
            if matches!(outcome, RelayOutcome::Continue) {
                outcome = relay.apply(e);
            }
        }
    }
    assert!(!actions.contains(&DownloadAction::WriteFile));
    assert_eq!(s.phase(), Phase::Cancelled);
    assert!(s.data().is_empty());
    assert!(matches!(outcome, RelayOutcome::Close));
    assert!(relay.finished);
    assert_eq!(relay.bytes_done, 10);
}

#[test]
fn unknown_size_switches_to_indeterminate_first() {
    let mut s = DownloadSession::new();
    let mut all = Vec::new();
    let inputs = vec![
        DownloadInput::Responded { content_length: None },
        DownloadInput::CancelChecked(false),
        chunk(3, 1000),
        DownloadInput::CancelChecked(false),
        chunk(0, 1000),
        DownloadInput::Written,
    ];
    for input in inputs {
        let (events, _) = s.step(input);
        all.extend(events);
    }
    assert!(matches!(all[0], DownloadEvent::SetTotal(0)));
    assert!(matches!(all[1], DownloadEvent::SetDeterminacy(false)));
    match &all[2] {
        DownloadEvent::Advance { eta, .. } => assert_eq!(eta, "unknown"),
        other => panic!("{other:?}"),
    }
    assert!(all.iter().all(|e| !matches!(e, DownloadEvent::SetTotal(t) if *t != 0)));
    assert!(matches!(all.last(), Some(DownloadEvent::Finish)));
}

#[test]
fn no_time_elapsed_gives_no_rate() {
    let mut s = DownloadSession::new();
    s.step(DownloadInput::Responded { content_length: Some(50) });
    s.step(DownloadInput::CancelChecked(false));
    let (ev, _) = s.step(chunk(5, 0));
    match ev.as_slice() {
        [DownloadEvent::Advance { rate_bytes_per_sec, eta, .. }] => {
            assert_eq!(*rate_bytes_per_sec, 0);
            assert_eq!(eta, "unknown");
        }
        other => panic!("{other:?}"),
    }
}

#[test]
fn a_failed_request_is_a_network_error() {
    let mut s = DownloadSession::new();
    let (ev, a) = s.step(DownloadInput::RequestFailed("refused".to_string()));
    assert!(matches!(ev.as_slice(), [DownloadEvent::Error(DownloadError::Network(c))] if c == "refused"));
    assert_eq!(a, DownloadAction::Stop);
    assert_eq!(s.phase(), Phase::Failed);
}

#[test]
fn a_failed_read_discards_the_data() {
    let mut s = DownloadSession::new();
    s.step(DownloadInput::Responded { content_length: Some(50) });
    s.step(DownloadInput::CancelChecked(false));
    s.step(chunk(5, 100));
    s.step(DownloadInput::CancelChecked(false));
    let (ev, a) = s.step(DownloadInput::ReadFailed("reset".to_string()));
    assert!(matches!(ev.as_slice(), [DownloadEvent::Error(DownloadError::Network(c))] if c == "reset"));
    assert_eq!(a, DownloadAction::Stop);
    assert!(s.data().is_empty());
}

#[test]
fn a_failed_write_is_a_filesystem_error() {
    let mut s = DownloadSession::new();
    s.step(DownloadInput::Responded { content_length: None });
    s.step(DownloadInput::CancelChecked(false));
    s.step(chunk(0, 100));
    let (ev, a) = s.step(DownloadInput::WriteFailed("read-only".to_string()));
    assert!(matches!(ev.as_slice(), [DownloadEvent::Error(DownloadError::Filesystem(c))] if c == "read-only"));
    assert_eq!(a, DownloadAction::Stop);
}

#[test]
fn an_input_out_of_turn_repeats_the_request() {
    let mut s = DownloadSession::new();
    let (ev, a) = s.step(DownloadInput::Written);
    assert!(ev.is_empty());
    assert_eq!(a, DownloadAction::SendRequest);
    assert_eq!(s.phase(), Phase::Requesting);
    let (ev, a) = s.step(DownloadInput::RequestFailed("x".to_string()));
    assert_eq!(ev.len(), 1);
    assert_eq!(a, DownloadAction::Stop);
    let (ev, a) = s.step(DownloadInput::CancelChecked(true));
    assert!(ev.is_empty());
    assert_eq!(a, DownloadAction::Stop);
}

#[test]
fn relay_shows_each_event() {
    let mut r = ProgressRelay::new();
    assert!(matches!(r.apply(DownloadEvent::SetTotal(99)), RelayOutcome::Continue));
    assert!(matches!(r.apply(DownloadEvent::SetDeterminacy(false)), RelayOutcome::Continue));
    assert!(r.indeterminate);
    assert!(matches!(
        r.apply(DownloadEvent::Advance { bytes_downloaded: 5, rate_bytes_per_sec: 2, eta: "47 seconds".to_string() }),
        RelayOutcome::Continue
    ));
    assert_eq!((r.bytes_done, r.rate_bytes_per_sec, r.bytes_total), (5, 2, 99));
    assert_eq!(r.eta, "47 seconds");
    assert!(matches!(
        r.apply(DownloadEvent::Error(DownloadError::Network("gone".to_string()))),
        RelayOutcome::Fail(DownloadError::Network(_))
    ));
    assert!(!r.finished);
}

#[test]
fn relay_treats_a_lost_producer_as_finished() {
    let mut r = ProgressRelay::new();
    assert!(matches!(r.disconnected(), RelayOutcome::Close));
    assert!(r.finished);
}
