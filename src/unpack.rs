//! The decisions of unpacking a bundle: download it when it is missing,
//! download it once more when the archive is corrupt, extract it to a
//! staging directory, flatten it into the asset directory, and remove the
//! staging tree. The caller performs each action and hands back what came
//! of it.
use crate::download::{DownloadError, DownloadErrorView};
use crate::resolve::{pick_files_to_move, winners, Arch, ArchiveEntry};
use vstd::prelude::*;

verus! {

/// Why an unpack failed.
#[derive(Debug)]
pub enum UnpackError {
    /// Downloading the bundle failed.
    Download(DownloadError),
    /// The archive could not be read, also after one fresh download.
    Archive(String),
    /// A file or directory operation failed.
    Filesystem(String),
    /// A path in the staging tree is not valid Unicode.
    PathEncoding(String),
}

pub enum UnpackErrorView {
    Download(DownloadErrorView),
    Archive(Seq<char>),
    Filesystem(Seq<char>),
    PathEncoding(Seq<char>),
}

impl View for UnpackError {
    type V = UnpackErrorView;

    open spec fn view(&self) -> UnpackErrorView {
        match self {
            UnpackError::Download(e) => UnpackErrorView::Download(e@),
            UnpackError::Archive(c) => UnpackErrorView::Archive(c@),
            UnpackError::Filesystem(c) => UnpackErrorView::Filesystem(c@),
            UnpackError::PathEncoding(c) => UnpackErrorView::PathEncoding(c@),
        }
    }
}

/// What the caller reports back.
#[derive(Debug)]
pub enum UnpackInput {
    /// Whether the cached archive exists.
    CacheChecked(bool),
    /// How the download went.
    Downloaded(Result<(), DownloadError>),
    /// The cached archive could not be opened as a file.
    OpenFailed(String),
    /// The cached archive is not a valid archive.
    ArchiveInvalid(String),
    /// The cached archive was opened.
    ArchiveOpened,
    /// The archive was extracted to the staging directory.
    Extracted,
    /// Extracting failed.
    ExtractFailed(String),
    /// Every regular file under the staging directory, in traversal order.
    StagingListed(Vec<ArchiveEntry>),
    /// The staging directory could not be read.
    StagingUnreadable(String),
    /// A path under the staging directory is not valid Unicode.
    PathNotUnicode(String),
    /// The picked files were moved into the asset directory.
    Moved,
    /// Moving a file failed.
    MoveFailed(String),
    /// The staging tree was removed.
    StagingRemoved,
    /// Removing the staging tree failed.
    RemoveFailed(String),
}

pub enum UnpackInputView {
    CacheChecked(bool),
    Downloaded(Result<(), DownloadErrorView>),
    OpenFailed(Seq<char>),
    ArchiveInvalid(Seq<char>),
    ArchiveOpened,
    Extracted,
    ExtractFailed(Seq<char>),
    StagingListed(Seq<ArchiveEntry>),
    StagingUnreadable(Seq<char>),
    PathNotUnicode(Seq<char>),
    Moved,
    MoveFailed(Seq<char>),
    StagingRemoved,
    RemoveFailed(Seq<char>),
}

impl View for UnpackInput {
    type V = UnpackInputView;

    open spec fn view(&self) -> UnpackInputView {
        match self {
            UnpackInput::CacheChecked(b) => UnpackInputView::CacheChecked(*b),
            UnpackInput::Downloaded(r) => UnpackInputView::Downloaded(
                match r {
                    Ok(()) => Ok(()),
                    Err(e) => Err(e@),
                },
            ),
            UnpackInput::OpenFailed(c) => UnpackInputView::OpenFailed(c@),
            UnpackInput::ArchiveInvalid(c) => UnpackInputView::ArchiveInvalid(c@),
            UnpackInput::ArchiveOpened => UnpackInputView::ArchiveOpened,
            UnpackInput::Extracted => UnpackInputView::Extracted,
            UnpackInput::ExtractFailed(c) => UnpackInputView::ExtractFailed(c@),
            UnpackInput::StagingListed(e) => UnpackInputView::StagingListed(e@),
            UnpackInput::StagingUnreadable(c) => UnpackInputView::StagingUnreadable(c@),
            UnpackInput::PathNotUnicode(c) => UnpackInputView::PathNotUnicode(c@),
            UnpackInput::Moved => UnpackInputView::Moved,
            UnpackInput::MoveFailed(c) => UnpackInputView::MoveFailed(c@),
            UnpackInput::StagingRemoved => UnpackInputView::StagingRemoved,
            UnpackInput::RemoveFailed(c) => UnpackInputView::RemoveFailed(c@),
        }
    }
}

/// What the caller does next.
#[derive(Clone, Copy, Debug, PartialEq, Eq, Structural)]
pub enum UnpackAction {
    /// Look whether the cached archive exists; report `CacheChecked`.
    CheckCache,
    /// Download the bundle to the cache; report `Downloaded`.
    Download,
    /// Open the cached archive; report `ArchiveOpened`, `ArchiveInvalid` or
    /// `OpenFailed`.
    OpenArchive,
    /// Extract the archive to the staging directory; report `Extracted` or
    /// `ExtractFailed`.
    Extract,
    /// List the regular files under the staging directory; report
    /// `StagingListed`, `StagingUnreadable` or `PathNotUnicode`.
    ListStaging,
    /// Move each path of `moves()` into the asset directory under its file
    /// name, overwriting; report `Moved` or `MoveFailed`.
    MoveFiles,
    /// Remove the staging tree; report `StagingRemoved` or `RemoveFailed`.
    RemoveStaging,
    /// Nothing more: the unpack is over.
    Stop,
}

/// Where an unpack stands.
#[derive(Clone, Copy, Debug, PartialEq, Eq, Structural)]
pub enum UnpackPhase {
    Checking,
    Downloading,
    Opening,
    Extracting,
    Listing,
    Moving,
    Removing,
    Done,
    Failed,
}

/// One unpack in progress.
pub struct UnpackPlan {
    phase: UnpackPhase,
    redownloaded: bool,
    arch: Arch,
    moves: Vec<String>,
    error: Option<UnpackError>,
}

pub struct UnpackView {
    pub phase: UnpackPhase,
    /// The fresh download after a corrupt archive has been asked for.
    pub redownloaded: bool,
    pub arch: Arch,
    pub moves: Seq<Seq<char>>,
    pub error: Option<UnpackErrorView>,
}

impl View for UnpackPlan {
    type V = UnpackView;

    closed spec fn view(&self) -> UnpackView {
        UnpackView {
            phase: self.phase,
            redownloaded: self.redownloaded,
            arch: self.arch,
            moves: self.moves@.map_values(|s: String| s@),
            error: match self.error {
                Some(e) => Some(e@),
                None => None,
            },
        }
    }
}

/// The paths that flattening moves, as `pick_files_to_move` gives them.
pub open spec fn picked_paths(e: Seq<ArchiveEntry>, arch: Arch) -> Seq<Seq<char>> {
    winners(e, arch).map_values(|w: int| e[w].path@)
}

/// What the caller is asked for in a phase.
pub open spec fn unpack_expected(p: UnpackPhase) -> UnpackAction {
    match p {
        UnpackPhase::Checking => UnpackAction::CheckCache,
        UnpackPhase::Downloading => UnpackAction::Download,
        UnpackPhase::Opening => UnpackAction::OpenArchive,
        UnpackPhase::Extracting => UnpackAction::Extract,
        UnpackPhase::Listing => UnpackAction::ListStaging,
        UnpackPhase::Moving => UnpackAction::MoveFiles,
        UnpackPhase::Removing => UnpackAction::RemoveStaging,
        _ => UnpackAction::Stop,
    }
}

/// The unpack as it starts.
pub open spec fn unpack_start(arch: Arch) -> UnpackView {
    UnpackView {
        phase: UnpackPhase::Checking,
        redownloaded: false,
        arch,
        moves: Seq::empty(),
        error: None,
    }
}

/// One step of an unpack: the next state and what the caller does next.
/// An input that does not fit the phase changes nothing and repeats the
/// request.
pub open spec fn unpack_step(s: UnpackView, i: UnpackInputView) -> (UnpackView, UnpackAction) {
    let unchanged = (s, unpack_expected(s.phase));
    let goto = |p: UnpackPhase| (UnpackView { phase: p, ..s }, unpack_expected(p));
    let fail = |e: UnpackErrorView|
        (
            UnpackView { phase: UnpackPhase::Failed, moves: Seq::empty(), error: Some(e), ..s },
            UnpackAction::Stop,
        );
    match (s.phase, i) {
        (UnpackPhase::Checking, UnpackInputView::CacheChecked(exists)) => if exists {
            goto(UnpackPhase::Opening)
        } else {
            goto(UnpackPhase::Downloading)
        },
        (UnpackPhase::Downloading, UnpackInputView::Downloaded(r)) => match r {
            Ok(()) => goto(UnpackPhase::Opening),
            Err(e) => fail(UnpackErrorView::Download(e)),
        },
        (UnpackPhase::Opening, UnpackInputView::ArchiveOpened) => goto(UnpackPhase::Extracting),
        (UnpackPhase::Opening, UnpackInputView::ArchiveInvalid(c)) => if s.redownloaded {
            fail(UnpackErrorView::Archive(c))
        } else {
            (
                UnpackView { phase: UnpackPhase::Downloading, redownloaded: true, ..s },
                UnpackAction::Download,
            )
        },
        (UnpackPhase::Opening, UnpackInputView::OpenFailed(c)) => fail(UnpackErrorView::Filesystem(c)),
        (UnpackPhase::Extracting, UnpackInputView::Extracted) => goto(UnpackPhase::Listing),
        (UnpackPhase::Extracting, UnpackInputView::ExtractFailed(c)) => fail(
            UnpackErrorView::Archive(c),
        ),
        (UnpackPhase::Listing, UnpackInputView::StagingListed(e)) => (
            UnpackView { phase: UnpackPhase::Moving, moves: picked_paths(e, s.arch), ..s },
            UnpackAction::MoveFiles,
        ),
        (UnpackPhase::Listing, UnpackInputView::StagingUnreadable(c)) => fail(
            UnpackErrorView::Filesystem(c),
        ),
        (UnpackPhase::Listing, UnpackInputView::PathNotUnicode(c)) => fail(
            UnpackErrorView::PathEncoding(c),
        ),
        (UnpackPhase::Moving, UnpackInputView::Moved) => goto(UnpackPhase::Removing),
        (UnpackPhase::Moving, UnpackInputView::MoveFailed(c)) => fail(UnpackErrorView::Filesystem(c)),
        (UnpackPhase::Removing, UnpackInputView::StagingRemoved) => (
            UnpackView { phase: UnpackPhase::Done, moves: Seq::empty(), ..s },
            UnpackAction::Stop,
        ),
        (UnpackPhase::Removing, UnpackInputView::RemoveFailed(c)) => fail(
            UnpackErrorView::Filesystem(c),
        ),
        _ => unchanged,
    }
}

/// An unpack fed `inputs` in order: the last state and every action asked
/// for.
pub open spec fn unpack_run(s: UnpackView, inputs: Seq<UnpackInputView>) -> (
    UnpackView,
    Seq<UnpackAction>,
)
    decreases inputs.len(),
{
    if inputs.len() == 0 {
        (s, Seq::empty())
    } else {
        let (s1, a) = unpack_step(s, inputs[0]);
        let (sf, acts) = unpack_run(s1, inputs.drop_first());
        (sf, seq![a] + acts)
    }
}

/// How far an unpack is along, on a scale from 0 to 9.
pub open spec fn progress(s: UnpackView) -> int {
    match s.phase {
        UnpackPhase::Checking => 0,
        UnpackPhase::Downloading => if s.redownloaded {
            3
        } else {
            1
        },
        UnpackPhase::Opening => if s.redownloaded {
            4
        } else {
            2
        },
        UnpackPhase::Extracting => 5,
        UnpackPhase::Listing => 6,
        UnpackPhase::Moving => 7,
        UnpackPhase::Removing => 8,
        _ => 9,
    }
}

/// An unpack cannot loop: every step either changes nothing or moves it
/// strictly forward on a bounded scale, and a corrupt archive after the one
/// fresh download ends it with an archive error.
pub proof fn lemma_unpack_moves_forward(s: UnpackView, i: UnpackInputView)
    ensures
        0 <= progress(s) <= 9,
        unpack_step(s, i).0 == s || progress(unpack_step(s, i).0) > progress(s),
        s.phase == UnpackPhase::Opening && s.redownloaded ==> match i {
            UnpackInputView::ArchiveInvalid(c) => unpack_step(s, i) == (
                UnpackView {
                    phase: UnpackPhase::Failed,
                    moves: Seq::empty(),
                    error: Some(UnpackErrorView::Archive(c)),
                    ..s
                },
                UnpackAction::Stop,
            ),
            _ => true,
        },
{
}

/// A corrupt cached archive followed by a good fresh download: the unpack
/// succeeds, asking for exactly one download.
pub proof fn lemma_one_redownload_recovers(arch: Arch, why: Seq<char>, entries: Seq<ArchiveEntry>)
    ensures
        ({
            let inputs = seq![
                UnpackInputView::CacheChecked(true),
                UnpackInputView::ArchiveInvalid(why),
                UnpackInputView::Downloaded(Ok(())),
                UnpackInputView::ArchiveOpened,
                UnpackInputView::Extracted,
                UnpackInputView::StagingListed(entries),
                UnpackInputView::Moved,
                UnpackInputView::StagingRemoved,
            ];
            let (sf, acts) = unpack_run(unpack_start(arch), inputs);
            &&& sf.phase == UnpackPhase::Done
            &&& sf.error is None
            &&& acts == seq![
                UnpackAction::OpenArchive,
                UnpackAction::Download,
                UnpackAction::OpenArchive,
                UnpackAction::Extract,
                UnpackAction::ListStaging,
                UnpackAction::MoveFiles,
                UnpackAction::RemoveStaging,
                UnpackAction::Stop,
            ]
        }),
{
    let inputs = seq![
        UnpackInputView::CacheChecked(true),
        UnpackInputView::ArchiveInvalid(why),
        UnpackInputView::Downloaded(Ok(())),
        UnpackInputView::ArchiveOpened,
        UnpackInputView::Extracted,
        UnpackInputView::StagingListed(entries),
        UnpackInputView::Moved,
        UnpackInputView::StagingRemoved,
    ];
    assert(inputs.drop_first() =~= inputs.subrange(1, 8));
    assert(inputs.subrange(1, 8).drop_first() =~= inputs.subrange(2, 8));
    assert(inputs.subrange(2, 8).drop_first() =~= inputs.subrange(3, 8));
    assert(inputs.subrange(3, 8).drop_first() =~= inputs.subrange(4, 8));
    assert(inputs.subrange(4, 8).drop_first() =~= inputs.subrange(5, 8));
    assert(inputs.subrange(5, 8).drop_first() =~= inputs.subrange(6, 8));
    assert(inputs.subrange(6, 8).drop_first() =~= inputs.subrange(7, 8));
    assert(inputs.subrange(7, 8).drop_first() =~= inputs.subrange(8, 8));
    reveal_with_fuel(unpack_run, 9);
    assert(unpack_run(unpack_start(arch), inputs).1 =~= seq![
        UnpackAction::OpenArchive,
        UnpackAction::Download,
        UnpackAction::OpenArchive,
        UnpackAction::Extract,
        UnpackAction::ListStaging,
        UnpackAction::MoveFiles,
        UnpackAction::RemoveStaging,
        UnpackAction::Stop,
    ]);
}

impl UnpackPlan {
    /// An unpack holds an error exactly when it has failed.
    #[verifier::type_invariant]
    spec fn failed_with_error(&self) -> bool {
        (self.phase == UnpackPhase::Failed) == (self.error is Some)
    }

    /// An unpack for the given architecture, about to look for the cache.
    pub fn new(arch: Arch) -> (r: UnpackPlan)
        ensures
            r@ == unpack_start(arch),
    {
        let r = UnpackPlan {
            phase: UnpackPhase::Checking,
            redownloaded: false,
            arch,
            moves: Vec::new(),
            error: None,
        };
        assert(r@.moves =~= Seq::<Seq<char>>::empty());
        r
    }

    /// The phase the unpack is in.
    pub fn phase(&self) -> (r: UnpackPhase)
        ensures
            r == self@.phase,
    {
        self.phase
    }

    /// The paths to move, in the `Moving` phase.
    pub fn moves(&self) -> (r: &Vec<String>)
        ensures
            r@.map_values(|s: String| s@) == self@.moves,
    {
        &self.moves
    }

    /// How the unpack ended: `Ok` once done, the error once failed, and
    /// nothing while it is still under way.
    pub fn into_result(self) -> (r: Option<Result<(), UnpackError>>)
        ensures
            self@.phase == UnpackPhase::Done ==> r == Some(Ok::<(), UnpackError>(())),
            self@.phase == UnpackPhase::Failed ==> (r matches Some(Err(x)) && self@.error == Some(x@)),
            self@.phase != UnpackPhase::Done && self@.phase != UnpackPhase::Failed ==> r is None,
    {
        proof {
            use_type_invariant(&self);
        }
        if self.phase == UnpackPhase::Failed {
            match self.error {
                Some(e) => Some(Err(e)),
                None => None,
            }
        } else if self.phase == UnpackPhase::Done {
            Some(Ok(()))
        } else {
            None
        }
    }

    fn fail(&mut self, e: UnpackError)
        ensures
            final(self)@ == (UnpackView {
                phase: UnpackPhase::Failed,
                moves: Seq::empty(),
                error: Some(e@),
                ..old(self)@
            }),
    {
        *self = UnpackPlan {
            phase: UnpackPhase::Failed,
            redownloaded: self.redownloaded,
            arch: self.arch,
            moves: Vec::new(),
            error: Some(e),
        };
        assert(self@.moves =~= Seq::<Seq<char>>::empty());
    }

    fn goto(&mut self, p: UnpackPhase) -> (r: UnpackAction)
        requires
            (p == UnpackPhase::Failed) == (old(self)@.error is Some),
        ensures
            final(self)@ == (UnpackView { phase: p, ..old(self)@ }),
            r == unpack_expected(p),
    {
        self.phase = p;
        match p {
            UnpackPhase::Checking => UnpackAction::CheckCache,
            UnpackPhase::Downloading => UnpackAction::Download,
            UnpackPhase::Opening => UnpackAction::OpenArchive,
            UnpackPhase::Extracting => UnpackAction::Extract,
            UnpackPhase::Listing => UnpackAction::ListStaging,
            UnpackPhase::Moving => UnpackAction::MoveFiles,
            UnpackPhase::Removing => UnpackAction::RemoveStaging,
            _ => UnpackAction::Stop,
        }
    }

    /// Takes one input and says what follows, as `unpack_step` does.
    pub fn step(&mut self, input: UnpackInput) -> (r: UnpackAction)
        ensures
            (final(self)@, r) == unpack_step(old(self)@, input@),
    {
        proof {
            use_type_invariant(&*self);
        }
        let p = self.phase;
        match (p, input) {
            (UnpackPhase::Checking, UnpackInput::CacheChecked(exists)) => {
                if exists {
                    self.goto(UnpackPhase::Opening)
                } else {
                    self.goto(UnpackPhase::Downloading)
                }
            },
            (UnpackPhase::Downloading, UnpackInput::Downloaded(r)) => match r {
                Ok(()) => self.goto(UnpackPhase::Opening),
                Err(e) => {
                    self.fail(UnpackError::Download(e));
                    UnpackAction::Stop
                },
            },
            (UnpackPhase::Opening, UnpackInput::ArchiveOpened) => self.goto(UnpackPhase::Extracting),
            (UnpackPhase::Opening, UnpackInput::ArchiveInvalid(c)) => {
                if self.redownloaded {
                    self.fail(UnpackError::Archive(c));
                    UnpackAction::Stop
                } else {
                    self.redownloaded = true;
                    self.goto(UnpackPhase::Downloading)
                }
            },
            (UnpackPhase::Opening, UnpackInput::OpenFailed(c)) => {
                self.fail(UnpackError::Filesystem(c));
                UnpackAction::Stop
            },
            (UnpackPhase::Extracting, UnpackInput::Extracted) => self.goto(UnpackPhase::Listing),
            (UnpackPhase::Extracting, UnpackInput::ExtractFailed(c)) => {
                self.fail(UnpackError::Archive(c));
                UnpackAction::Stop
            },
            (UnpackPhase::Listing, UnpackInput::StagingListed(entries)) => {
                let moves = pick_files_to_move(&entries, self.arch);
                assert(moves@.map_values(|s: String| s@) =~= picked_paths(entries@, self.arch));
                self.moves = moves;
                self.goto(UnpackPhase::Moving)
            },
            (UnpackPhase::Listing, UnpackInput::StagingUnreadable(c)) => {
                self.fail(UnpackError::Filesystem(c));
                UnpackAction::Stop
            },
            (UnpackPhase::Listing, UnpackInput::PathNotUnicode(c)) => {
                self.fail(UnpackError::PathEncoding(c));
                UnpackAction::Stop
            },
            (UnpackPhase::Moving, UnpackInput::Moved) => self.goto(UnpackPhase::Removing),
            (UnpackPhase::Moving, UnpackInput::MoveFailed(c)) => {
                self.fail(UnpackError::Filesystem(c));
                UnpackAction::Stop
            },
            (UnpackPhase::Removing, UnpackInput::StagingRemoved) => {
                self.moves = Vec::new();
                assert(self@.moves =~= Seq::<Seq<char>>::empty());
                self.goto(UnpackPhase::Done)
            },
            (UnpackPhase::Removing, UnpackInput::RemoveFailed(c)) => {
                self.fail(UnpackError::Filesystem(c));
                UnpackAction::Stop
            },
            _ => self.goto(p),
        }
    }
}

} // verus!
