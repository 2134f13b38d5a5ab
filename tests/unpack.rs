use boxedmino::download::DownloadError;
use boxedmino::resolve::{Arch, ArchiveEntry};
use boxedmino::unpack::{UnpackAction, UnpackError, UnpackInput, UnpackPhase, UnpackPlan};

fn entries() -> Vec<ArchiveEntry> {
    vec![
        ArchiveEntry { name: "cc.dll".to_string(), path: "s/x86/cc.dll".to_string() },
        ArchiveEntry { name: "cc.dll".to_string(), path: "s/x64/cc.dll".to_string() },
    ]
}

#[test]
fn a_corrupt_archive_is_downloaded_again_once() {
    let mut p = UnpackPlan::new(Arch::X86_64);
    let inputs = vec![
        UnpackInput::CacheChecked(true),
        UnpackInput::ArchiveInvalid("bad header".to_string()),
        UnpackInput::Downloaded(Ok(())),
        UnpackInput::ArchiveOpened,
        UnpackInput::Extracted,
        UnpackInput::StagingListed(entries()),
        UnpackInput::Moved,
        UnpackInput::StagingRemoved,
    ];
    let mut actions = Vec::new();
    for input in inputs {
        let a = p.step(input);
        if a == UnpackAction::MoveFiles {
            assert_eq!(p.moves(), &vec!["s/x64/cc.dll".to_string()]);
        }
        actions.push(a);
    }
    assert_eq!(
        actions,
        vec![
            UnpackAction::OpenArchive,
            UnpackAction::Download,
            UnpackAction::OpenArchive,
            UnpackAction::Extract,
            UnpackAction::ListStaging,
            UnpackAction::MoveFiles,
            UnpackAction::RemoveStaging,
            UnpackAction::Stop,
        ]
    );
    assert_eq!(actions.iter().filter(|a| **a == UnpackAction::Download).count(), 1);
    assert_eq!(p.phase(), UnpackPhase::Done);
    assert!(matches!(p.into_result(), Some(Ok(()))));
}

#[test]
fn a_second_corrupt_archive_is_fatal() {
    let mut p = UnpackPlan::new(Arch::X86_64);
    assert_eq!(p.step(UnpackInput::CacheChecked(false)), UnpackAction::Download);
    assert_eq!(p.step(UnpackInput::Downloaded(Ok(()))), UnpackAction::OpenArchive);
    assert_eq!(p.step(UnpackInput::ArchiveInvalid("one".to_string())), UnpackAction::Download);
    assert_eq!(p.step(UnpackInput::Downloaded(Ok(()))), UnpackAction::OpenArchive);
    assert_eq!(p.step(UnpackInput::ArchiveInvalid("two".to_string())), UnpackAction::Stop);
    assert_eq!(p.step(UnpackInput::Downloaded(Ok(()))), UnpackAction::Stop);
    assert!(matches!(p.into_result(), Some(Err(UnpackError::Archive(c))) if c == "two"));
}

#[test]
fn a_failed_download_ends_the_unpack() {
    let mut p = UnpackPlan::new(Arch::Arm);
    p.step(UnpackInput::CacheChecked(false));
    let a = p.step(UnpackInput::Downloaded(Err(DownloadError::Network("offline".to_string()))));
    assert_eq!(a, UnpackAction::Stop);
    assert!(matches!(p.into_result(), Some(Err(UnpackError::Download(DownloadError::Network(_))))));
}

#[test]
fn filesystem_failures_are_reported() {
    let mut p = UnpackPlan::new(Arch::X86);
    p.step(UnpackInput::CacheChecked(true));
    assert_eq!(p.step(UnpackInput::OpenFailed("denied".to_string())), UnpackAction::Stop);
    assert!(matches!(p.into_result(), Some(Err(UnpackError::Filesystem(c))) if c == "denied"));

    let mut p = UnpackPlan::new(Arch::X86);
    p.step(UnpackInput::CacheChecked(true));
    p.step(UnpackInput::ArchiveOpened);
    assert_eq!(p.step(UnpackInput::ExtractFailed("disk full".to_string())), UnpackAction::Stop);
    assert!(matches!(p.into_result(), Some(Err(UnpackError::Archive(_)))));

    let mut p = UnpackPlan::new(Arch::X86);
    p.step(UnpackInput::CacheChecked(true));
    p.step(UnpackInput::ArchiveOpened);
    p.step(UnpackInput::Extracted);
    assert_eq!(p.step(UnpackInput::PathNotUnicode("s/\u{fffd}".to_string())), UnpackAction::Stop);
    assert!(matches!(p.into_result(), Some(Err(UnpackError::PathEncoding(_)))));

    let mut p = UnpackPlan::new(Arch::X86);
    p.step(UnpackInput::CacheChecked(true));
    p.step(UnpackInput::ArchiveOpened);
    p.step(UnpackInput::Extracted);
    p.step(UnpackInput::StagingListed(entries()));
    assert_eq!(p.step(UnpackInput::MoveFailed("busy".to_string())), UnpackAction::Stop);
    assert!(p.moves().is_empty());
    assert!(matches!(p.into_result(), Some(Err(UnpackError::Filesystem(c))) if c == "busy"));

    let mut p = UnpackPlan::new(Arch::X86);
    p.step(UnpackInput::CacheChecked(true));
    p.step(UnpackInput::ArchiveOpened);
    assert_eq!(p.step(UnpackInput::Extracted), UnpackAction::ListStaging);
    assert_eq!(p.step(UnpackInput::StagingUnreadable("gone".to_string())), UnpackAction::Stop);
    assert!(matches!(p.into_result(), Some(Err(UnpackError::Filesystem(_)))));
}

#[test]
fn the_picked_files_follow_the_architecture() {
    let mut p = UnpackPlan::new(Arch::X86);
    p.step(UnpackInput::CacheChecked(true));
    p.step(UnpackInput::ArchiveOpened);
    p.step(UnpackInput::Extracted);
    assert_eq!(p.step(UnpackInput::StagingListed(entries())), UnpackAction::MoveFiles);
    assert_eq!(p.moves(), &vec!["s/x86/cc.dll".to_string()]);
    assert_eq!(p.step(UnpackInput::Moved), UnpackAction::RemoveStaging);
    assert_eq!(p.step(UnpackInput::RemoveFailed("locked".to_string())), UnpackAction::Stop);
    assert!(matches!(p.into_result(), Some(Err(UnpackError::Filesystem(_)))));
}

#[test]
fn an_unpack_input_out_of_turn_repeats_the_request() {
    let mut p = UnpackPlan::new(Arch::Other);
    assert_eq!(p.step(UnpackInput::Moved), UnpackAction::CheckCache);
    assert_eq!(p.phase(), UnpackPhase::Checking);
}

#[test]
fn an_unfinished_unpack_has_no_result() {
    let mut p = UnpackPlan::new(Arch::X86_64);
    p.step(UnpackInput::CacheChecked(true));
    assert!(p.into_result().is_none());
}
