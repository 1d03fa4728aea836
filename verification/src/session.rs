//! A project on disk: how it is opened, and how its log is compacted.
//!
//! A project is a directory with a snapshot of the scene, an append-only log of
//! the operations since, the project's metadata, its blobs, and a lock file
//! that is held while the project is open. The caller reads, writes and locks
//! files; here it is settled what it does next.

use vstd::prelude::*;

use crate::ordered;
use crate::persistence;
use crate::persistence::{DecodeError, Format, RecordKind};
use crate::scene::{PageId, ProjectMeta, ProjectStyle, Scene, Timestamp};
use crate::text;

verus! {

/// The ceiling for a snapshot: 3 GiB. One `WriteFile` on Windows takes at most
/// `u32::MAX` bytes; this stays below that with room to spare.
pub const MAX_SNAPSHOT_BYTES: usize = 3_221_225_472;

/// The size above which a page is worth a line in the log: 1 MB.
pub const NOTEWORTHY_PAGE_BYTES: usize = 1_000_000;

/// How a project is opened.
#[derive(Clone, Copy, Debug, PartialEq, Eq, Structural)]
pub enum OpenMode {
    /// The project is there.
    Open,
    /// The project is made at a path where nothing is yet.
    Create,
}

/// What the caller does next to open a project.
#[derive(Clone, Copy, Debug, PartialEq, Eq, Structural)]
pub enum OpenStep {
    /// See whether the project's path is a directory.
    CheckDirectory,
    /// See whether there is something at the project's path already.
    CheckExists,
    /// Create the project's directory, where it is not there.
    CreateDirectory { existed: bool },
    /// See whether the project's directory is empty.
    CheckEmpty { existed: bool },
    /// Write the project's metadata.
    SeedMetadata,
    /// Create the directories for blobs and for the cache.
    CreateSubdirectories,
    /// Open the lock file, creating it where there is none.
    OpenLockFile,
    /// Take the exclusive lock on the lock file.
    Lock,
    /// Open the blob store.
    OpenBlobs,
    /// Load the snapshot, or make the first scene.
    LoadSnapshot,
    /// Replay the log's frames past this epoch.
    ReplayLog { past: u64 },
    /// Open the history at this epoch.
    OpenHistory { epoch: u64 },
    /// The project is open at this epoch.
    Ready { epoch: u64 },
}

/// What came of a step. `E` is the caller's own error.
#[derive(Debug)]
pub enum OpenEvent<E> {
    Answer(bool),
    Done,
    AtEpoch(u64),
    Failed(E),
}

/// Why a project was not opened.
#[derive(Debug)]
pub enum OpenError<E> {
    NotADirectory,
    NotEmpty,
    AlreadyExists,
    AlreadyOpen(E),
    Other(E),
}

/// Where the first scene of a session comes from.
#[derive(Clone, Copy, Debug, PartialEq, Eq, Structural)]
pub enum SceneOrigin {
    /// The snapshot file.
    Snapshot,
    /// A new scene with the metadata file's metadata.
    Metadata,
    /// A new scene without a name.
    Blank,
}

/// Why there is no first scene.
#[derive(Clone, Copy, Debug, PartialEq, Eq, Structural)]
pub enum LoadError {
    MissingMetadata,
}

/// The contents of the metadata file.
#[derive(Debug)]
pub struct ProjectTomlFile {
    pub name: String,
    pub created_at: Timestamp,
    pub updated_at: Timestamp,
}

/// What the caller does next to compact the log. No two compactions of one
/// project run at the same time.
#[derive(Clone, Copy, Debug, PartialEq, Eq, Structural)]
pub enum CompactStep {
    /// Put the new snapshot in the place of the old one, atomically.
    WriteSnapshot,
    /// Lock the history and see which epoch it has come to.
    CheckLog,
    /// Empty the log, with the history still locked.
    TruncateLog,
    /// The compaction is over.
    Finished,
}

/// What came of a step of compaction. `E` is the caller's own error.
#[derive(Debug)]
pub enum CompactEvent<E> {
    Done,
    AtEpoch(u64),
    Failed(E),
}

/// Why the log was not compacted.
#[derive(Debug)]
pub enum CompactError<E> {
    TooLarge { bytes: usize },
    Write(E),
    Truncate(E),
}

/// The first step to open a project.
pub open spec fn first_step(mode: OpenMode) -> OpenStep {
    match mode {
        OpenMode::Open => OpenStep::CheckDirectory,
        OpenMode::Create => OpenStep::CheckExists,
    }
}

/// `event` is an outcome that `step` can have.
pub open spec fn fits<E>(step: OpenStep, event: OpenEvent<E>) -> bool {
    match event {
        OpenEvent::Failed(_) => !(step is Ready),
        OpenEvent::Answer(_) => step is CheckDirectory || step is CheckExists || step is CheckEmpty,
        OpenEvent::AtEpoch(_) => step is LoadSnapshot || step is ReplayLog,
        OpenEvent::Done => step is CreateDirectory || step is SeedMetadata
            || step is CreateSubdirectories || step is OpenLockFile || step is Lock
            || step is OpenBlobs || step is OpenHistory,
    }
}

/// The step after `step` when that came to `event`.
pub open spec fn step_after<E>(step: OpenStep, event: OpenEvent<E>) -> Result<
    OpenStep,
    OpenError<E>,
> {
    match event {
        OpenEvent::Failed(error) => if step is Lock {
            Err(OpenError::AlreadyOpen(error))
        } else {
            Err(OpenError::Other(error))
        },
        OpenEvent::Answer(yes) => match step {
            OpenStep::CheckDirectory => if yes {
                Ok(OpenStep::CreateSubdirectories)
            } else {
                Err(OpenError::NotADirectory)
            },
            OpenStep::CheckExists => Ok(OpenStep::CreateDirectory { existed: yes }),
            OpenStep::CheckEmpty { existed } => if !yes {
                Err(OpenError::NotEmpty)
            } else if existed {
                Err(OpenError::AlreadyExists)
            } else {
                Ok(OpenStep::SeedMetadata)
            },
            _ => Ok(step),
        },
        OpenEvent::AtEpoch(epoch) => match step {
            OpenStep::LoadSnapshot => Ok(OpenStep::ReplayLog { past: epoch }),
            _ => Ok(OpenStep::OpenHistory { epoch }),
        },
        OpenEvent::Done => match step {
            OpenStep::CreateDirectory { existed } => Ok(OpenStep::CheckEmpty { existed }),
            OpenStep::SeedMetadata => Ok(OpenStep::CreateSubdirectories),
            OpenStep::CreateSubdirectories => Ok(OpenStep::OpenLockFile),
            OpenStep::OpenLockFile => Ok(OpenStep::Lock),
            OpenStep::Lock => Ok(OpenStep::OpenBlobs),
            OpenStep::OpenBlobs => Ok(OpenStep::LoadSnapshot),
            OpenStep::OpenHistory { epoch } => Ok(OpenStep::Ready { epoch }),
            _ => Ok(step),
        },
    }
}

/// The first step to open a project.
pub fn open_first(mode: OpenMode) -> (step: OpenStep)
    ensures
        step == first_step(mode),
{
    match mode {
        OpenMode::Open => OpenStep::CheckDirectory,
        OpenMode::Create => OpenStep::CheckExists,
    }
}

/// The next step to open a project, given what came of the one before.
pub fn open_next<E>(step: OpenStep, event: OpenEvent<E>) -> (result: Result<OpenStep, OpenError<E>>)
    requires
        fits(step, event),
    ensures
        result == step_after(step, event),
{
    match event {
        OpenEvent::Failed(error) => match step {
            OpenStep::Lock => Err(OpenError::AlreadyOpen(error)),
            _ => Err(OpenError::Other(error)),
        },
        OpenEvent::Answer(yes) => match step {
            OpenStep::CheckDirectory => if yes {
                Ok(OpenStep::CreateSubdirectories)
            } else {
                Err(OpenError::NotADirectory)
            },
            OpenStep::CheckExists => Ok(OpenStep::CreateDirectory { existed: yes }),
            OpenStep::CheckEmpty { existed } => if !yes {
                Err(OpenError::NotEmpty)
            } else if existed {
                Err(OpenError::AlreadyExists)
            } else {
                Ok(OpenStep::SeedMetadata)
            },
            _ => Ok(step),
        },
        OpenEvent::AtEpoch(epoch) => match step {
            OpenStep::LoadSnapshot => Ok(OpenStep::ReplayLog { past: epoch }),
            _ => Ok(OpenStep::OpenHistory { epoch }),
        },
        OpenEvent::Done => match step {
            OpenStep::CreateDirectory { existed } => Ok(OpenStep::CheckEmpty { existed }),
            OpenStep::SeedMetadata => Ok(OpenStep::CreateSubdirectories),
            OpenStep::CreateSubdirectories => Ok(OpenStep::OpenLockFile),
            OpenStep::OpenLockFile => Ok(OpenStep::Lock),
            OpenStep::Lock => Ok(OpenStep::OpenBlobs),
            OpenStep::OpenBlobs => Ok(OpenStep::LoadSnapshot),
            OpenStep::OpenHistory { epoch } => Ok(OpenStep::Ready { epoch }),
            _ => Ok(step),
        },
    }
}

/// Where the first scene comes from: the snapshot where there is one, else the
/// metadata where it is there, else, only for a project that is being created, a
/// blank one.
pub fn load_snapshot(has_snapshot: bool, has_metadata: bool, creating: bool) -> (result: Result<
    SceneOrigin,
    LoadError,
>)
    ensures
        result == if has_snapshot {
            Ok::<_, LoadError>(SceneOrigin::Snapshot)
        } else if has_metadata {
            Ok(SceneOrigin::Metadata)
        } else if creating {
            Ok(SceneOrigin::Blank)
        } else {
            Err(LoadError::MissingMetadata)
        },
{
    if has_snapshot {
        Ok(SceneOrigin::Snapshot)
    } else if has_metadata {
        Ok(SceneOrigin::Metadata)
    } else if creating {
        Ok(SceneOrigin::Blank)
    } else {
        Err(LoadError::MissingMetadata)
    }
}

/// The metadata of a project without a name.
pub fn blank_metadata(created_at: Timestamp, updated_at: Timestamp) -> (meta: ProjectTomlFile)
    ensures
        meta.name@ == Seq::<char>::empty(),
        meta.created_at == created_at,
        meta.updated_at == updated_at,
{
    ProjectTomlFile { name: String::new(), created_at, updated_at }
}

/// A new scene with the given metadata: no pages, no style, at epoch 0.
pub fn new_scene(meta: ProjectTomlFile) -> (result: (Scene, u64))
    ensures
        result.0.project == (ProjectMeta {
            name: meta.name,
            created_at: meta.created_at,
            updated_at: meta.updated_at,
            style: ProjectStyle { default_font: None },
        }),
        ordered::page_entries(result.0.pages).len() == 0,
        result.1 == 0,
{
    let scene = Scene {
        project: ProjectMeta {
            name: meta.name,
            created_at: meta.created_at,
            updated_at: meta.updated_at,
            style: ProjectStyle { default_font: None },
        },
        pages: ordered::pages_from_entries(Vec::new()),
    };
    (scene, 0)
}

/// The first step to compact the log, for a snapshot of that many bytes: one over
/// the ceiling is not written.
pub open spec fn compact_start<E>(bytes: usize) -> Result<CompactStep, CompactError<E>> {
    if bytes > MAX_SNAPSHOT_BYTES {
        Err(CompactError::TooLarge { bytes })
    } else {
        Ok(CompactStep::WriteSnapshot)
    }
}

/// The first step to compact the log, given the size of the encoded snapshot.
pub fn compact_first<E>(bytes: usize) -> (result: Result<CompactStep, CompactError<E>>)
    ensures
        result == compact_start::<E>(bytes),
{
    if bytes > MAX_SNAPSHOT_BYTES {
        Err(CompactError::TooLarge { bytes })
    } else {
        Ok(CompactStep::WriteSnapshot)
    }
}

/// `event` is an outcome that `step` can have.
pub open spec fn compact_fits<E>(step: CompactStep, event: CompactEvent<E>) -> bool {
    match step {
        CompactStep::WriteSnapshot | CompactStep::TruncateLog => !(event is AtEpoch),
        CompactStep::CheckLog => event is AtEpoch,
        CompactStep::Finished => false,
    }
}

/// The step after `step` when that came to `event`, in a compaction to a snapshot
/// of the given epoch.
pub open spec fn compact_after<E>(
    snapshot_epoch: u64,
    step: CompactStep,
    event: CompactEvent<E>,
) -> Result<CompactStep, CompactError<E>> {
    match (step, event) {
        (CompactStep::WriteSnapshot, CompactEvent::Done) => Ok(CompactStep::CheckLog),
        (CompactStep::WriteSnapshot, CompactEvent::Failed(error)) => Err(CompactError::Write(error)),
        (CompactStep::CheckLog, CompactEvent::AtEpoch(current_epoch)) => if current_epoch
            <= snapshot_epoch {
            Ok(CompactStep::TruncateLog)
        } else {
            Ok(CompactStep::Finished)
        },
        (CompactStep::TruncateLog, CompactEvent::Done) => Ok(CompactStep::Finished),
        (CompactStep::TruncateLog, CompactEvent::Failed(error)) => Err(
            CompactError::Truncate(error),
        ),
        _ => Ok(step),
    }
}

/// Whether a snapshot of one epoch takes in all of a log whose history has come
/// to another: it does where nothing was logged since.
pub fn log_is_taken_in(snapshot_epoch: u64, current_epoch: u64) -> (yes: bool)
    ensures
        yes == (current_epoch <= snapshot_epoch),
{
    current_epoch <= snapshot_epoch
}

/// The next step to compact the log to a snapshot of the given epoch, given what
/// came of the step before. The log is emptied only once the snapshot is on disk,
/// and only if the snapshot takes in all of it.
pub fn compact<E>(snapshot_epoch: u64, step: CompactStep, event: CompactEvent<E>) -> (result: Result<
    CompactStep,
    CompactError<E>,
>)
    requires
        compact_fits(step, event),
    ensures
        result == compact_after(snapshot_epoch, step, event),
{
    match (step, event) {
        (CompactStep::WriteSnapshot, CompactEvent::Done) => Ok(CompactStep::CheckLog),
        (CompactStep::WriteSnapshot, CompactEvent::Failed(error)) => Err(CompactError::Write(error)),
        (CompactStep::CheckLog, CompactEvent::AtEpoch(current_epoch)) => {
            if log_is_taken_in(snapshot_epoch, current_epoch) {
                Ok(CompactStep::TruncateLog)
            } else {
                Ok(CompactStep::Finished)
            }
        },
        (CompactStep::TruncateLog, CompactEvent::Done) => Ok(CompactStep::Finished),
        (CompactStep::TruncateLog, CompactEvent::Failed(error)) => Err(
            CompactError::Truncate(error),
        ),
        _ => Ok(step),
    }
}

/// The pages that are worth a line in the log, with their sizes, given the
/// encoded size of each page, or `None` where it could not be encoded.
pub open spec fn large_pages(sizes: Seq<(PageId, Option<usize>)>) -> Seq<(PageId, usize)>
    decreases sizes.len(),
{
    if sizes.len() == 0 {
        seq![]
    } else {
        let before = large_pages(sizes.drop_last());
        match sizes.last() {
            (page, Some(bytes)) if bytes > NOTEWORTHY_PAGE_BYTES => before.push((page, bytes)),
            _ => before,
        }
    }
}

/// The pages that are worth a line in the log when a snapshot is too large, in
/// their order.
pub fn oversized_pages(sizes: &[(PageId, Option<usize>)]) -> (pages: Vec<(PageId, usize)>)
    ensures
        pages@ == large_pages(sizes@),
{
    let mut pages: Vec<(PageId, usize)> = Vec::new();
    let mut i: usize = 0;
    while i < sizes.len()
        invariant
            i <= sizes@.len(),
            pages@ == large_pages(sizes@.take(i as int)),
        decreases sizes@.len() - i,
    {
        proof {
            let next = sizes@.take(i + 1);
            assert(next.drop_last() =~= sizes@.take(i as int));
            assert(next.last() == sizes@[i as int]);
        }
        let (page, size): (PageId, Option<usize>) = sizes[i];
        if let Some(bytes) = size {
            if bytes > NOTEWORTHY_PAGE_BYTES {
                pages.push((page, bytes));
            }
        }
        i += 1;
    }
    assert(sizes@.take(i as int) =~= sizes@);
    pages
}

/// The message for a snapshot over the ceiling.
pub open spec fn too_large_message(bytes: nat) -> Seq<char> {
    "scene snapshot is "@ + text::decimal(bytes) + " bytes (limit "@ + text::decimal(
        MAX_SNAPSHOT_BYTES as nat,
    )
        + " bytes) — refusing to write to avoid a hard crash; see the `oversized page` error(s) logged just above for which page(s) to investigate"@
}

/// The message for a snapshot of that many bytes, over the ceiling.
pub fn snapshot_too_large(bytes: usize) -> (message: String)
    ensures
        message@ == too_large_message(bytes as nat),
{
    let mut message = "scene snapshot is ".to_owned();
    text::append_decimal(&mut message, bytes as u64);
    message.append(" bytes (limit ");
    text::append_decimal(&mut message, MAX_SNAPSHOT_BYTES as u64);
    message.append(
        " bytes) — refusing to write to avoid a hard crash; see the `oversized page` error(s) logged just above for which page(s) to investigate",
    );
    message
}

/// The message for a path that is no project.
pub fn not_a_directory(dir: &str) -> (message: String)
    ensures
        message@ == "not a project directory: "@ + dir@,
{
    let mut message = "not a project directory: ".to_owned();
    message.append(dir);
    message
}

/// The message for a directory that is not empty.
pub fn not_empty(dir: &str) -> (message: String)
    ensures
        message@ == "project directory not empty: "@ + dir@,
{
    let mut message = "project directory not empty: ".to_owned();
    message.append(dir);
    message
}

/// The message for a directory that is there already.
pub fn already_exists(dir: &str) -> (message: String)
    ensures
        message@ == "project directory already exists: "@ + dir@,
{
    let mut message = "project directory already exists: ".to_owned();
    message.append(dir);
    message
}

/// The message for a project whose lock is taken.
pub fn already_open() -> (message: &'static str)
    ensures
        message@ == "project is already open elsewhere"@,
{
    "project is already open elsewhere"
}

/// The message for a project without a snapshot and without metadata.
pub fn missing_metadata(path: &str) -> (message: String)
    ensures
        message@ == "missing project.toml at "@ + path@,
{
    let mut message = "missing project.toml at ".to_owned();
    message.append(path);
    message
}

/// The step reads or writes the project's contents, which takes the lock.
pub open spec fn needs_lock(step: OpenStep) -> bool {
    step is OpenBlobs || step is LoadSnapshot || step is ReplayLog || step is OpenHistory
        || step is Ready
}

/// The steps of opening a project, while the events come to them; the last one
/// is where the events end.
pub open spec fn open_steps<E>(mode: OpenMode, events: Seq<OpenEvent<E>>) -> Seq<OpenStep>
    decreases events.len(),
{
    if events.len() == 0 {
        seq![first_step(mode)]
    } else {
        let before = open_steps(mode, events.drop_last());
        match step_after(before.last(), events.last()) {
            Ok(step) => before.push(step),
            Err(_) => before,
        }
    }
}

/// The events come to a project that is being opened: each is an outcome of the
/// step before it, and none of them ended the opening.
pub open spec fn is_opening<E>(mode: OpenMode, events: Seq<OpenEvent<E>>) -> bool
    decreases events.len(),
{
    events.len() == 0 || {
        let step = open_steps(mode, events.drop_last()).last();
        &&& is_opening(mode, events.drop_last())
        &&& fits(step, events.last())
        &&& step_after(step, events.last()) is Ok
    }
}

proof fn lemma_open_steps<E>(mode: OpenMode, events: Seq<OpenEvent<E>>)
    requires
        is_opening(mode, events),
    ensures
        open_steps(mode, events).len() == events.len() + 1,
        needs_lock(open_steps(mode, events).last()) ==> exists|k: int|
            0 <= k < events.len() && open_steps(mode, events)[k] == OpenStep::Lock
                && #[trigger] events[k] is Done,
    decreases events.len(),
{
    if events.len() > 0 {
        let before = open_steps(mode, events.drop_last());
        let after = open_steps(mode, events);
        lemma_open_steps(mode, events.drop_last());
        if needs_lock(after.last()) {
            if before.last() == OpenStep::Lock {
                assert(after[events.len() - 1] == before.last());
                assert(events[events.len() - 1] is Done);
            } else {
                let k = choose|k: int|
                    0 <= k < events.drop_last().len() && before[k] == OpenStep::Lock
                        && #[trigger] events.drop_last()[k] is Done;
                assert(after[k] == before[k]);
                assert(events[k] is Done);
            }
        }
    }
}

/// One opener at a time: nothing of a project is read, and no project is ready,
/// before the exclusive lock was taken.
pub proof fn law_lock_comes_first<E>(mode: OpenMode, events: Seq<OpenEvent<E>>)
    requires
        is_opening(mode, events),
        needs_lock(open_steps(mode, events).last()),
    ensures
        exists|k: int|
            0 <= k < events.len() && open_steps(mode, events)[k] == OpenStep::Lock
                && #[trigger] events[k] is Done,
{
    lemma_open_steps(mode, events);
}

/// A second opener is refused: when the lock cannot be taken the opening is over.
pub proof fn law_second_opener_is_refused<E>(error: E)
    ensures
        step_after(OpenStep::Lock, OpenEvent::Failed(error)) == Err::<OpenStep, _>(
            OpenError::AlreadyOpen(error),
        ),
{
}

/// A project is created only where nothing was before: where something is at its
/// path already, nothing is written there, the lock is not touched, and the
/// opening ends with an error as soon as the directory was looked into.
pub proof fn law_existing_path_is_refused<E>(events: Seq<OpenEvent<E>>)
    requires
        is_opening(OpenMode::Create, events),
        events.len() > 0,
        events[0] == OpenEvent::<E>::Answer(true),
    ensures
        ({
            let step = open_steps(OpenMode::Create, events).last();
            &&& step == (OpenStep::CreateDirectory { existed: true }) || step == (
            OpenStep::CheckEmpty { existed: true })
            &&& forall|event: OpenEvent<E>|
                step is CheckEmpty && fits(step, event) ==> #[trigger] step_after(step, event) is Err
        }),
    decreases events.len(),
{
    if events.len() > 1 {
        assert(events.drop_last()[0] == events[0]);
        law_existing_path_is_refused(events.drop_last());
    } else {
        assert(events.drop_last() =~= seq![]);
    }
}

/// How many steps of opening a project are still to come after `step`.
pub open spec fn steps_to_go(step: OpenStep) -> nat {
    match step {
        OpenStep::CheckExists => 11,
        OpenStep::CreateDirectory { .. } => 10,
        OpenStep::CheckEmpty { .. } => 9,
        OpenStep::SeedMetadata => 8,
        OpenStep::CheckDirectory => 8,
        OpenStep::CreateSubdirectories => 7,
        OpenStep::OpenLockFile => 6,
        OpenStep::Lock => 5,
        OpenStep::OpenBlobs => 4,
        OpenStep::LoadSnapshot => 3,
        OpenStep::ReplayLog { .. } => 2,
        OpenStep::OpenHistory { .. } => 1,
        OpenStep::Ready { .. } => 0,
    }
}

/// Opening a project comes to an end: an existing one is ready after eight steps
/// that went well, a new one after eleven.
pub proof fn law_opening_ends<E>(mode: OpenMode, events: Seq<OpenEvent<E>>)
    requires
        is_opening(mode, events),
    ensures
        events.len() + steps_to_go(open_steps(mode, events).last()) == match mode {
            OpenMode::Open => 8nat,
            OpenMode::Create => 11nat,
        },
    decreases events.len(),
{
    if events.len() > 0 {
        law_opening_ends(mode, events.drop_last());
    }
}

/// A project is ready at the epoch that replaying its log came to, and the log
/// was replayed from the epoch of the snapshot on.
pub proof fn law_epoch_comes_from_the_log<E>(mode: OpenMode, events: Seq<OpenEvent<E>>)
    requires
        is_opening(mode, events),
    ensures
        match open_steps(mode, events).last() {
            OpenStep::Ready { epoch } => events.len() >= 2 && events[events.len() - 2]
                == OpenEvent::<E>::AtEpoch(epoch),
            OpenStep::OpenHistory { epoch } => events.len() >= 1 && events.last() == OpenEvent::<
                E,
            >::AtEpoch(epoch),
            OpenStep::ReplayLog { past } => events.len() >= 1 && events.last() == OpenEvent::<
                E,
            >::AtEpoch(past),
            _ => true,
        },
    decreases events.len(),
{
    if events.len() > 0 {
        law_epoch_comes_from_the_log(mode, events.drop_last());
    }
}

/// What a project's directory holds of its scene: the snapshot, where there is
/// one, and the frames of the log.
pub struct Disk {
    pub snapshot: Option<Seq<u8>>,
    pub log: Seq<Seq<u8>>,
}

/// A snapshot of that epoch takes in what the frame did.
pub open spec fn is_taken_in(frame: Seq<u8>, epoch: u64) -> bool {
    match persistence::record_parts(RecordKind::LogFrame, frame) {
        Ok((_, at, _)) => at <= epoch,
        Err(_) => false,
    }
}

/// The frames of a log that lie past an epoch: those that are replayed on a
/// snapshot of that epoch.
pub open spec fn frames_past(log: Seq<Seq<u8>>, epoch: u64) -> Seq<Seq<u8>>
    decreases log.len(),
{
    if log.len() == 0 {
        seq![]
    } else {
        let before = frames_past(log.drop_last(), epoch);
        if is_taken_in(log.last(), epoch) {
            before
        } else {
            before.push(log.last())
        }
    }
}

/// What opening a project with this disk starts from: the parts of its snapshot,
/// and the frames that are replayed on it.
pub open spec fn opens_as(disk: Disk) -> (
    Result<(Format, u64, Seq<u8>), DecodeError>,
    Seq<Seq<u8>>,
)
    recommends
        disk.snapshot is Some,
{
    let parts = persistence::record_parts(RecordKind::Snapshot, disk.snapshot->0);
    (parts, frames_past(disk.log, parts->Ok_0.1))
}

proof fn lemma_nothing_past(log: Seq<Seq<u8>>, epoch: u64)
    requires
        forall|i: int| 0 <= i < log.len() ==> is_taken_in(#[trigger] log[i], epoch),
    ensures
        frames_past(log, epoch) == Seq::<Seq<u8>>::empty(),
    decreases log.len(),
{
    if log.len() > 0 {
        let rest = log.drop_last();
        assert forall|i: int| 0 <= i < rest.len() implies is_taken_in(#[trigger] rest[i], epoch) by {
            assert(rest[i] == log[i]);
        }
        lemma_nothing_past(rest, epoch);
        assert(log[log.len() - 1] == log.last());
    }
}

proof fn lemma_frames_past_joined(log: Seq<Seq<u8>>, added: Seq<Seq<u8>>, epoch: u64)
    ensures
        frames_past(log + added, epoch) == frames_past(log, epoch) + frames_past(added, epoch),
    decreases added.len(),
{
    if added.len() == 0 {
        assert(log + added =~= log);
    } else {
        lemma_frames_past_joined(log, added.drop_last(), epoch);
        assert((log + added).drop_last() =~= log + added.drop_last());
        assert((log + added).last() == added.last());
    }
}

proof fn lemma_all_past(added: Seq<Seq<u8>>, epoch: u64)
    requires
        forall|i: int| 0 <= i < added.len() ==> !is_taken_in(#[trigger] added[i], epoch),
    ensures
        frames_past(added, epoch) == added,
    decreases added.len(),
{
    if added.len() > 0 {
        let rest = added.drop_last();
        assert forall|i: int| 0 <= i < rest.len() implies !is_taken_in(#[trigger] rest[i], epoch) by {
            assert(rest[i] == added[i]);
        }
        lemma_all_past(rest, epoch);
        assert(added[added.len() - 1] == added.last());
        assert(rest.push(added.last()) =~= added);
    }
}

/// What is replayed on a snapshot is exactly what was logged after it: where it
/// takes in all of `log` and none of `added`, the frames of `added`, in their
/// order.
pub proof fn law_later_frames_are_replayed(log: Seq<Seq<u8>>, added: Seq<Seq<u8>>, epoch: u64)
    requires
        forall|i: int| 0 <= i < log.len() ==> is_taken_in(#[trigger] log[i], epoch),
        forall|i: int| 0 <= i < added.len() ==> !is_taken_in(#[trigger] added[i], epoch),
    ensures
        frames_past(log + added, epoch) == added,
{
    lemma_frames_past_joined(log, added, epoch);
    lemma_nothing_past(log, epoch);
    lemma_all_past(added, epoch);
    assert(Seq::<Seq<u8>>::empty() + added =~= added);
}

/// Emptying a log that the snapshot takes in loses no frame that would be
/// replayed on it. `current_epoch` is what the history has come to: no frame of
/// its log lies past it.
pub proof fn law_emptying_loses_no_frame(
    log: Seq<Seq<u8>>,
    snapshot_epoch: u64,
    current_epoch: u64,
)
    requires
        forall|i: int| 0 <= i < log.len() ==> is_taken_in(#[trigger] log[i], current_epoch),
        current_epoch <= snapshot_epoch,
    ensures
        frames_past(log, snapshot_epoch) == Seq::<Seq<u8>>::empty(),
{
    lemma_nothing_past(log, snapshot_epoch);
}

/// The disk after a compaction's step went through.
pub open spec fn disk_after(disk: Disk, step: CompactStep, new_snapshot: Seq<u8>) -> Disk {
    match step {
        CompactStep::WriteSnapshot => Disk { snapshot: Some(new_snapshot), ..disk },
        CompactStep::TruncateLog => Disk { log: seq![], ..disk },
        CompactStep::CheckLog | CompactStep::Finished => disk,
    }
}

/// What happens while a compaction runs.
pub enum CompactMoment<E> {
    /// One of its steps came to this.
    Came(CompactEvent<E>),
    /// An operation was applied meanwhile, and logged in this frame.
    Logged(Seq<u8>),
}

/// The frames that were logged meanwhile.
pub open spec fn logged<E>(moments: Seq<CompactMoment<E>>) -> Seq<Seq<u8>>
    decreases moments.len(),
{
    if moments.len() == 0 {
        seq![]
    } else {
        let before = logged(moments.drop_last());
        match moments.last() {
            CompactMoment::Logged(frame) => before.push(frame),
            CompactMoment::Came(_) => before,
        }
    }
}

/// A compaction to `new_snapshot`, the snapshot of `epoch`, up to some moment: how
/// it stands, and what the disk holds. A step that fails leaves the disk as it
/// was.
pub open spec fn compaction<E>(
    disk: Disk,
    epoch: u64,
    new_snapshot: Seq<u8>,
    moments: Seq<CompactMoment<E>>,
) -> (Result<CompactStep, CompactError<E>>, Disk)
    decreases moments.len(),
{
    if moments.len() == 0 {
        (compact_start(new_snapshot.len() as usize), disk)
    } else {
        let (stands, now) = compaction(disk, epoch, new_snapshot, moments.drop_last());
        match moments.last() {
            CompactMoment::Logged(frame) => (stands, Disk { log: now.log.push(frame), ..now }),
            CompactMoment::Came(event) => match stands {
                Ok(step) => (
                    compact_after(epoch, step, event),
                    if event is Failed {
                        now
                    } else {
                        disk_after(now, step, new_snapshot)
                    },
                ),
                Err(_) => (stands, now),
            },
        }
    }
}

/// The moments are those of one compaction: each event is an outcome of the step
/// before it; the epoch that the history has come to is that of its newest frame
/// or later; and from then on, until the log is emptied, nothing is logged, since
/// the history is locked.
pub open spec fn is_compaction<E>(
    disk: Disk,
    epoch: u64,
    new_snapshot: Seq<u8>,
    moments: Seq<CompactMoment<E>>,
) -> bool
    decreases moments.len(),
{
    moments.len() == 0 || {
        let (stands, now) = compaction(disk, epoch, new_snapshot, moments.drop_last());
        &&& is_compaction(disk, epoch, new_snapshot, moments.drop_last())
        &&& match moments.last() {
            CompactMoment::Logged(_) => stands != Ok::<CompactStep, CompactError<E>>(
                CompactStep::TruncateLog,
            ),
            CompactMoment::Came(event) => {
                &&& stands is Ok
                &&& compact_fits(stands->Ok_0, event)
                &&& event is AtEpoch ==> forall|i: int|
                    0 <= i < now.log.len() ==> is_taken_in(
                        #[trigger] now.log[i],
                        event->AtEpoch_0,
                    )
            },
        }
    }
}

/// Compaction is safe against a crash at any time, and safe to run at any time:
/// at every moment the disk holds the old snapshot and the whole log, or the new
/// snapshot and every frame that is to be replayed on it, those that were logged
/// meanwhile included. The log is emptied only after the new snapshot is in place.
/// A snapshot over the ceiling is never written.
pub proof fn law_compaction_is_crash_safe<E>(
    disk: Disk,
    epoch: u64,
    new_snapshot: Seq<u8>,
    moments: Seq<CompactMoment<E>>,
)
    requires
        new_snapshot.len() <= usize::MAX,
        is_compaction(disk, epoch, new_snapshot, moments),
    ensures
        ({
            let (stands, now) = compaction(disk, epoch, new_snapshot, moments);
            let log = disk.log + logged(moments);
            &&& match stands {
                Ok(CompactStep::WriteSnapshot)
                | Err(CompactError::TooLarge { .. })
                | Err(CompactError::Write(_)) => now == (Disk { snapshot: disk.snapshot, log }),
                Ok(CompactStep::CheckLog) | Err(CompactError::Truncate(_)) => now == (Disk {
                    snapshot: Some(new_snapshot),
                    log,
                }),
                Ok(CompactStep::TruncateLog) => now == (Disk { snapshot: Some(new_snapshot), log })
                    && forall|i: int| 0 <= i < log.len() ==> is_taken_in(#[trigger] log[i], epoch),
                Ok(CompactStep::Finished) => now.snapshot == Some(new_snapshot) && frames_past(
                    now.log,
                    epoch,
                ) == frames_past(log, epoch),
            }
            &&& new_snapshot.len() > MAX_SNAPSHOT_BYTES ==> stands == Err::<
                CompactStep,
                CompactError<E>,
            >(CompactError::TooLarge { bytes: new_snapshot.len() as usize })
        }),
    decreases moments.len(),
{
    let log = disk.log + logged(moments);
    if moments.len() == 0 {
        assert(log =~= disk.log);
    } else {
        law_compaction_is_crash_safe(disk, epoch, new_snapshot, moments.drop_last());
        let (stands, now) = compaction(disk, epoch, new_snapshot, moments.drop_last());
        let before = disk.log + logged(moments.drop_last());
        match moments.last() {
            CompactMoment::Logged(frame) => {
                assert(log =~= before.push(frame));
                assert(now.log.push(frame) =~= now.log + seq![frame]);
                assert(before.push(frame) =~= before + seq![frame]);
                lemma_frames_past_joined(now.log, seq![frame], epoch);
                lemma_frames_past_joined(before, seq![frame], epoch);
            },
            CompactMoment::Came(event) => {
                assert(log == before);
                if stands->Ok_0 == CompactStep::TruncateLog && event is Done {
                    lemma_nothing_past(log, epoch);
                }
            },
        }
    }
}

/// At every moment of a compaction the disk holds the old snapshot and the whole
/// log, or the project opens as the new snapshot with exactly those frames
/// replayed on it that it does not take in, whether the log was emptied or not.
pub proof fn law_compacted_project_opens_as_its_snapshot<E>(
    disk: Disk,
    epoch: u64,
    scene: Seq<u8>,
    moments: Seq<CompactMoment<E>>,
)
    requires
        ({
            let new_snapshot = persistence::record_bytes(RecordKind::Snapshot, epoch, scene);
            &&& new_snapshot.len() <= usize::MAX
            &&& is_compaction(disk, epoch, new_snapshot, moments)
        }),
    ensures
        ({
            let new_snapshot = persistence::record_bytes(RecordKind::Snapshot, epoch, scene);
            let now = compaction(disk, epoch, new_snapshot, moments).1;
            let log = disk.log + logged(moments);
            now == (Disk { snapshot: disk.snapshot, log }) || opens_as(now) == (
                Ok::<_, DecodeError>((Format::V2, epoch, scene)),
                frames_past(log, epoch),
            )
        }),
{
    let new_snapshot = persistence::record_bytes(RecordKind::Snapshot, epoch, scene);
    law_compaction_is_crash_safe(disk, epoch, new_snapshot, moments);
    persistence::law_record_reads_back(RecordKind::Snapshot, epoch, scene);
}

/// How scenes of type `S` are encoded and decoded, and what the operation in a
/// frame does to one.
#[verifier::reject_recursive_types(S)]
pub struct Codec<S> {
    pub encode: spec_fn(S) -> Seq<u8>,
    pub decode: spec_fn(Format, Seq<u8>) -> S,
    pub apply: spec_fn(S, Seq<u8>) -> S,
}

/// A compaction that runs: the epoch and the scene that it writes, and its step.
pub struct Compacting<S> {
    pub epoch: u64,
    pub scene: S,
    pub step: CompactStep,
}

/// An open project: its scene and epoch, what its directory holds, and the
/// compaction that runs, if one does.
pub struct Live<S> {
    pub scene: S,
    pub epoch: u64,
    pub disk: Disk,
    pub compacting: Option<Compacting<S>>,
}

/// What happens to an open project.
pub enum Act<E> {
    /// An operation is applied, and logged in this frame.
    Logged(Seq<u8>),
    /// A compaction takes the scene and its epoch.
    CompactionStarts,
    /// A step of the compaction came to this.
    CompactionCame(CompactEvent<E>),
}

/// The epoch of a frame.
pub open spec fn frame_epoch(frame: Seq<u8>) -> u64 {
    persistence::record_parts(RecordKind::LogFrame, frame)->Ok_0.1
}

impl<S> Codec<S> {
    /// Every scene that is encoded is decoded again.
    pub open spec fn reads_back(self) -> bool {
        forall|scene: S|
            (self.decode)(Format::V2, #[trigger] (self.encode)(scene)) == scene
    }

    /// The snapshot of a scene at an epoch.
    pub open spec fn snapshot(self, epoch: u64, scene: S) -> Seq<u8> {
        persistence::record_bytes(RecordKind::Snapshot, epoch, (self.encode)(scene))
    }

    /// The scene after the operations of some frames.
    pub open spec fn replayed(self, scene: S, frames: Seq<Seq<u8>>) -> S
        decreases frames.len(),
    {
        if frames.len() == 0 {
            scene
        } else {
            (self.apply)(self.replayed(scene, frames.drop_last()), frames.last())
        }
    }

    /// What opening starts from: the snapshot's scene and epoch, or `first` at
    /// epoch 0 where there is no snapshot.
    pub open spec fn base(self, first: S, disk: Disk) -> (S, u64) {
        match disk.snapshot {
            None => (first, 0),
            Some(bytes) => {
                let (format, epoch, payload) = persistence::record_parts(
                    RecordKind::Snapshot,
                    bytes,
                )->Ok_0;
                ((self.decode)(format, payload), epoch)
            },
        }
    }

    /// The scene and the epoch that `log` leads to from those of `base`, when its
    /// frames past that epoch are replayed.
    pub open spec fn caught_up(self, base: (S, u64), log: Seq<Seq<u8>>) -> (S, u64) {
        let frames = frames_past(log, base.1);
        (
            self.replayed(base.0, frames),
            if frames.len() == 0 {
                base.1
            } else {
                frame_epoch(frames.last())
            },
        )
    }

    /// The scene and the epoch that a project with this disk opens with. `first`
    /// is the scene of its metadata.
    pub open spec fn reopened(self, first: S, disk: Disk) -> (S, u64) {
        self.caught_up(self.base(first, disk), disk.log)
    }

    /// A project that was just created.
    pub open spec fn created(self, first: S) -> Live<S> {
        Live {
            scene: first,
            epoch: 0,
            disk: Disk { snapshot: None, log: seq![] },
            compacting: None,
        }
    }

    /// The project after `act`.
    pub open spec fn after<E>(self, live: Live<S>, act: Act<E>) -> Live<S> {
        match act {
            Act::Logged(frame) => Live {
                scene: (self.apply)(live.scene, frame),
                epoch: frame_epoch(frame),
                disk: Disk { log: live.disk.log.push(frame), ..live.disk },
                ..live
            },
            Act::CompactionStarts => {
                let bytes = self.snapshot(live.epoch, live.scene).len() as usize;
                Live {
                    compacting: match compact_start::<E>(bytes) {
                        Ok(step) => Some(
                            Compacting { epoch: live.epoch, scene: live.scene, step },
                        ),
                        Err(_) => None,
                    },
                    ..live
                }
            },
            Act::CompactionCame(event) => {
                let running = live.compacting->0;
                Live {
                    disk: if event is Failed {
                        live.disk
                    } else {
                        disk_after(
                            live.disk,
                            running.step,
                            self.snapshot(running.epoch, running.scene),
                        )
                    },
                    compacting: match compact_after(running.epoch, running.step, event) {
                        Ok(step) if step != CompactStep::Finished => Some(
                            Compacting { step, ..running },
                        ),
                        _ => None,
                    },
                    ..live
                }
            },
        }
    }

    /// `act` can happen to the project. A frame that is logged is of a later epoch
    /// than the project's, and none is logged while the history is locked to
    /// empty the log; one compaction runs at a time; and its events are outcomes
    /// of its steps.
    pub open spec fn can_happen<E>(self, live: Live<S>, act: Act<E>) -> bool {
        match act {
            Act::Logged(frame) => {
                &&& persistence::record_parts(RecordKind::LogFrame, frame) is Ok
                &&& frame_epoch(frame) > live.epoch
                &&& live.compacting is Some ==> live.compacting->0.step != CompactStep::TruncateLog
            },
            Act::CompactionStarts => live.compacting is None && self.snapshot(
                live.epoch,
                live.scene,
            ).len() <= usize::MAX,
            Act::CompactionCame(event) => {
                &&& live.compacting is Some
                &&& compact_fits(live.compacting->0.step, event)
                &&& event is AtEpoch ==> event->AtEpoch_0 == live.epoch
            },
        }
    }

    /// The project after all of `acts`.
    pub open spec fn after_all<E>(self, live: Live<S>, acts: Seq<Act<E>>) -> Live<S>
        decreases acts.len(),
    {
        if acts.len() == 0 {
            live
        } else {
            self.after(self.after_all(live, acts.drop_last()), acts.last())
        }
    }

    /// Each of `acts` can happen when it does.
    pub open spec fn can_all_happen<E>(self, live: Live<S>, acts: Seq<Act<E>>) -> bool
        decreases acts.len(),
    {
        acts.len() == 0 || {
            &&& self.can_all_happen(live, acts.drop_last())
            &&& self.can_happen(self.after_all(live, acts.drop_last()), acts.last())
        }
    }

    /// The disk is in step with the project: opened now, it would give the
    /// project's scene and epoch; so it would once the compaction that runs has
    /// put its snapshot in place.
    pub open spec fn in_step(self, first: S, live: Live<S>) -> bool {
        &&& self.base(first, live.disk).1 <= live.epoch
        &&& self.reopened(first, live.disk) == (live.scene, live.epoch)
        &&& forall|i: int|
            0 <= i < live.disk.log.len() ==> is_taken_in(#[trigger] live.disk.log[i], live.epoch)
        &&& live.compacting matches Some(running) ==> {
            &&& running.epoch <= live.epoch
            &&& self.caught_up((running.scene, running.epoch), live.disk.log) == (
                live.scene,
                live.epoch,
            )
            &&& running.step != CompactStep::WriteSnapshot ==> live.disk.snapshot == Some(
                self.snapshot(running.epoch, running.scene),
            )
            &&& running.step == CompactStep::TruncateLog ==> live.epoch <= running.epoch
            &&& running.step != CompactStep::Finished
        }
    }
}

proof fn lemma_caught_up_push<S>(
    codec: Codec<S>,
    base: (S, u64),
    log: Seq<Seq<u8>>,
    frame: Seq<u8>,
)
    requires
        persistence::record_parts(RecordKind::LogFrame, frame) is Ok,
        base.1 < frame_epoch(frame),
    ensures
        codec.caught_up(base, log.push(frame)) == (
            (codec.apply)(codec.caught_up(base, log).0, frame),
            frame_epoch(frame),
        ),
{
    let before = frames_past(log, base.1);
    assert(log.push(frame).drop_last() =~= log);
    assert(frames_past(log.push(frame), base.1) == before.push(frame));
    assert(before.push(frame).drop_last() =~= before);
}

/// Whatever happens to an open project, its disk stays in step with it.
pub proof fn law_disk_stays_in_step<S, E>(codec: Codec<S>, first: S, live: Live<S>, act: Act<E>)
    requires
        codec.reads_back(),
        codec.in_step(first, live),
        codec.can_happen(live, act),
    ensures
        codec.in_step(first, codec.after(live, act)),
{
    let next = codec.after(live, act);
    let log = live.disk.log;
    match act {
        Act::Logged(frame) => {
            lemma_caught_up_push(codec, codec.base(first, live.disk), log, frame);
            if let Some(running) = live.compacting {
                lemma_caught_up_push(codec, (running.scene, running.epoch), log, frame);
            }
            assert forall|i: int| 0 <= i < next.disk.log.len() implies is_taken_in(
                #[trigger] next.disk.log[i],
                next.epoch,
            ) by {
                if i < log.len() {
                    assert(is_taken_in(log[i], live.epoch));
                }
            }
        },
        Act::CompactionStarts => {
            lemma_nothing_past(log, live.epoch);
        },
        Act::CompactionCame(event) => {
            let running = live.compacting->0;
            let bytes = codec.snapshot(running.epoch, running.scene);
            persistence::law_record_reads_back(
                RecordKind::Snapshot,
                running.epoch,
                (codec.encode)(running.scene),
            );
            assert((codec.decode)(Format::V2, (codec.encode)(running.scene)) == running.scene);
            if running.step == CompactStep::TruncateLog {
                law_emptying_loses_no_frame(log, running.epoch, live.epoch);
            }
        },
    }
}

/// A project reopens as it was left: however operations were applied and the log
/// was compacted, one during the other included, and wherever it ended, crashes
/// in the middle of a compaction included, opening the directory gives the last
/// scene and the last epoch back. No operation is lost and none is applied twice.
/// This holds of a project that was created, and of one that was reopened before.
pub proof fn law_project_reopens_as_it_was<S, E>(
    codec: Codec<S>,
    first: S,
    live: Live<S>,
    acts: Seq<Act<E>>,
)
    requires
        codec.reads_back(),
        live == codec.created(first) || codec.in_step(first, live),
        codec.can_all_happen(live, acts),
    ensures
        ({
            let left = codec.after_all(live, acts);
            &&& codec.reopened(first, left.disk) == (left.scene, left.epoch)
            &&& codec.in_step(first, left)
            &&& codec.in_step(first, Live { compacting: None, ..left })
        }),
    decreases acts.len(),
{
    if acts.len() > 0 {
        law_project_reopens_as_it_was(codec, first, live, acts.drop_last());
        law_disk_stays_in_step(codec, first, codec.after_all(live, acts.drop_last()), acts.last());
    }
}

/// An existing project is opened by seeing that its path is a directory; a new one
/// is created only after it was asked whether something is there already.
pub proof fn law_opening_begins_with_the_path(mode: OpenMode, step: OpenStep)
    requires
        call_ensures(open_first, (mode,), step),
    ensures
        mode == OpenMode::Open ==> step == OpenStep::CheckDirectory,
        mode == OpenMode::Create ==> step == OpenStep::CheckExists,
        step == first_step(mode),
{
}

/// An opening goes on exactly unless a step failed, the path of an existing project
/// is no directory, or the directory of a new one was there or is not empty. The
/// error says which: a lock that cannot be taken means that the project is open
/// elsewhere, and any other failure is passed on.
pub proof fn law_opening_is_refused_for_a_reason<E>(
    step: OpenStep,
    event: OpenEvent<E>,
    result: Result<OpenStep, OpenError<E>>,
)
    requires
        fits(step, event),
        call_ensures(open_next::<E>, (step, event), result),
    ensures
        result == step_after(step, event),
        result is Err <==> {
            ||| event is Failed
            ||| step is CheckDirectory && event == OpenEvent::<E>::Answer(false)
            ||| step is CheckEmpty && event == OpenEvent::<E>::Answer(false)
            ||| step == (OpenStep::CheckEmpty { existed: true })
        },
        event matches OpenEvent::Failed(error) ==> result->Err_0 == if step == OpenStep::Lock {
            OpenError::AlreadyOpen(error)
        } else {
            OpenError::Other(error)
        },
        step is CheckDirectory && event is Answer && result is Err
            ==> result->Err_0 is NotADirectory,
        step is CheckEmpty && event is Answer && result is Err ==> (
        result->Err_0 is NotEmpty <==> event == OpenEvent::<E>::Answer(false)),
        step is CheckEmpty && event is Answer && result is Err ==> (
        result->Err_0 is AlreadyExists <==> event == OpenEvent::<E>::Answer(true)),
{
}

/// Which outcomes the steps of an opening have: those that look at something answer
/// yes or no, those that load or replay come to an epoch, the others are done; and
/// each but the last can fail.
pub proof fn law_every_outcome_of_a_step_is_taken<E>(step: OpenStep, event: OpenEvent<E>)
    requires
        !(step is Ready),
        event is Answer ==> step is CheckDirectory || step is CheckExists || step is CheckEmpty,
        event is AtEpoch ==> step is LoadSnapshot || step is ReplayLog,
        event is Done ==> !(step is CheckDirectory || step is CheckExists || step is CheckEmpty
            || step is LoadSnapshot || step is ReplayLog),
    ensures
        call_requires(open_next::<E>, (step, event)),
{
}

/// The steps of opening an existing project that went well, to the end: its
/// directory is seen and completed, the lock is taken, blobs are opened, the
/// snapshot is loaded, the log past the snapshot's epoch is replayed, and the
/// history is opened at the epoch that came to.
pub proof fn law_existing_project_is_opened_in_order<E>(events: Seq<OpenEvent<E>>)
    requires
        is_opening(OpenMode::Open, events),
        events.len() == 8,
    ensures
        events[5] is AtEpoch,
        events[6] is AtEpoch,
        open_steps(OpenMode::Open, events) == seq![
            OpenStep::CheckDirectory,
            OpenStep::CreateSubdirectories,
            OpenStep::OpenLockFile,
            OpenStep::Lock,
            OpenStep::OpenBlobs,
            OpenStep::LoadSnapshot,
            OpenStep::ReplayLog { past: events[5]->AtEpoch_0 },
            OpenStep::OpenHistory { epoch: events[6]->AtEpoch_0 },
            OpenStep::Ready { epoch: events[6]->AtEpoch_0 },
        ],
{
    reveal_with_fuel(open_steps, 9);
    reveal_with_fuel(is_opening, 9);
    let e7 = events.drop_last();
    let e6 = e7.drop_last();
    let e5 = e6.drop_last();
    let e4 = e5.drop_last();
    let e3 = e4.drop_last();
    let e2 = e3.drop_last();
    let e1 = e2.drop_last();
    let e0 = e1.drop_last();
    assert(open_steps(OpenMode::Open, e0) =~= seq![OpenStep::CheckDirectory]);
    assert(open_steps(OpenMode::Open, e1).last() == OpenStep::CreateSubdirectories);
    assert(open_steps(OpenMode::Open, e2).last() == OpenStep::OpenLockFile);
    assert(open_steps(OpenMode::Open, e3).last() == OpenStep::Lock);
    assert(open_steps(OpenMode::Open, e4).last() == OpenStep::OpenBlobs);
    assert(open_steps(OpenMode::Open, e5).last() == OpenStep::LoadSnapshot);
    assert(e6.last() == events[5]);
    assert(e7.last() == events[6]);
    assert(open_steps(OpenMode::Open, e6).last() == (OpenStep::ReplayLog {
        past: events[5]->AtEpoch_0,
    }));
    assert(open_steps(OpenMode::Open, e7).last() == (OpenStep::OpenHistory {
        epoch: events[6]->AtEpoch_0,
    }));
    assert(open_steps(OpenMode::Open, events) =~= seq![
        OpenStep::CheckDirectory,
        OpenStep::CreateSubdirectories,
        OpenStep::OpenLockFile,
        OpenStep::Lock,
        OpenStep::OpenBlobs,
        OpenStep::LoadSnapshot,
        OpenStep::ReplayLog { past: events[5]->AtEpoch_0 },
        OpenStep::OpenHistory { epoch: events[6]->AtEpoch_0 },
        OpenStep::Ready { epoch: events[6]->AtEpoch_0 },
    ]);
}

/// The steps of creating a project that went well, to the end: it is seen that
/// nothing is there, the directory is created, seen to be empty and seeded with the
/// metadata, and then all goes on as with an existing project.
pub proof fn law_new_project_is_created_in_order<E>(events: Seq<OpenEvent<E>>)
    requires
        is_opening(OpenMode::Create, events),
        events.len() == 11,
    ensures
        events[0] == OpenEvent::<E>::Answer(false),
        events[8] is AtEpoch,
        events[9] is AtEpoch,
        open_steps(OpenMode::Create, events) == seq![
            OpenStep::CheckExists,
            OpenStep::CreateDirectory { existed: false },
            OpenStep::CheckEmpty { existed: false },
            OpenStep::SeedMetadata,
            OpenStep::CreateSubdirectories,
            OpenStep::OpenLockFile,
            OpenStep::Lock,
            OpenStep::OpenBlobs,
            OpenStep::LoadSnapshot,
            OpenStep::ReplayLog { past: events[8]->AtEpoch_0 },
            OpenStep::OpenHistory { epoch: events[9]->AtEpoch_0 },
            OpenStep::Ready { epoch: events[9]->AtEpoch_0 },
        ],
{
    reveal_with_fuel(open_steps, 12);
    reveal_with_fuel(is_opening, 12);
    let e10 = events.drop_last();
    let e9 = e10.drop_last();
    let e8 = e9.drop_last();
    let e7 = e8.drop_last();
    let e6 = e7.drop_last();
    let e5 = e6.drop_last();
    let e4 = e5.drop_last();
    let e3 = e4.drop_last();
    let e2 = e3.drop_last();
    let e1 = e2.drop_last();
    let e0 = e1.drop_last();
    assert(open_steps(OpenMode::Create, e0) =~= seq![OpenStep::CheckExists]);
    assert(e1.last() == events[0]);
    assert(open_steps(OpenMode::Create, e1).last() is CreateDirectory);
    assert(open_steps(OpenMode::Create, e2).last() is CheckEmpty);
    assert(open_steps(OpenMode::Create, e3).last() == OpenStep::SeedMetadata);
    assert(open_steps(OpenMode::Create, e4).last() == OpenStep::CreateSubdirectories);
    assert(open_steps(OpenMode::Create, e5).last() == OpenStep::OpenLockFile);
    assert(open_steps(OpenMode::Create, e6).last() == OpenStep::Lock);
    assert(open_steps(OpenMode::Create, e7).last() == OpenStep::OpenBlobs);
    assert(open_steps(OpenMode::Create, e8).last() == OpenStep::LoadSnapshot);
    assert(e9.last() == events[8]);
    assert(e10.last() == events[9]);
    assert(open_steps(OpenMode::Create, e9).last() == (OpenStep::ReplayLog {
        past: events[8]->AtEpoch_0,
    }));
    assert(open_steps(OpenMode::Create, e10).last() == (OpenStep::OpenHistory {
        epoch: events[9]->AtEpoch_0,
    }));
    assert(open_steps(OpenMode::Create, events) =~= seq![
        OpenStep::CheckExists,
        OpenStep::CreateDirectory { existed: false },
        OpenStep::CheckEmpty { existed: false },
        OpenStep::SeedMetadata,
        OpenStep::CreateSubdirectories,
        OpenStep::OpenLockFile,
        OpenStep::Lock,
        OpenStep::OpenBlobs,
        OpenStep::LoadSnapshot,
        OpenStep::ReplayLog { past: events[8]->AtEpoch_0 },
        OpenStep::OpenHistory { epoch: events[9]->AtEpoch_0 },
        OpenStep::Ready { epoch: events[9]->AtEpoch_0 },
    ]);
}

/// A snapshot that is there is always the one to start from, and the metadata is
/// where there is no snapshot. Only a project that is being created can start from
/// nothing.
pub proof fn law_first_scene_comes_from_disk_if_it_can(
    has_snapshot: bool,
    has_metadata: bool,
    creating: bool,
    result: Result<SceneOrigin, LoadError>,
)
    requires
        call_ensures(load_snapshot, (has_snapshot, has_metadata, creating), result),
    ensures
        result == Ok::<_, LoadError>(SceneOrigin::Snapshot) <==> has_snapshot,
        result == Ok::<_, LoadError>(SceneOrigin::Metadata) <==> has_metadata && !has_snapshot,
        result == Ok::<_, LoadError>(SceneOrigin::Blank) <==> creating && !has_metadata
            && !has_snapshot,
        result is Err <==> !creating && !has_metadata && !has_snapshot,
{
}

/// A new scene has the name and the times of its metadata, no page, no style, and
/// starts at epoch 0; the metadata of a project without a name has the times that it
/// was made with.
pub proof fn law_new_scene_has_its_metadata(
    meta: ProjectTomlFile,
    result: (Scene, u64),
    created_at: Timestamp,
    updated_at: Timestamp,
    blank: ProjectTomlFile,
)
    requires
        call_ensures(new_scene, (meta,), result),
        call_ensures(blank_metadata, (created_at, updated_at), blank),
    ensures
        result.0.project.name == meta.name,
        result.0.project.created_at == meta.created_at,
        result.0.project.updated_at == meta.updated_at,
        result.0.project.style.default_font is None,
        ordered::page_entries(result.0.pages).len() == 0,
        result.1 == 0,
        blank.name@.len() == 0,
        blank.created_at == created_at,
        blank.updated_at == updated_at,
{
}

/// A snapshot is refused as too large exactly when it has more than three gibibytes,
/// by its size; any other is written first of all.
pub proof fn law_only_oversized_snapshots_are_refused<E>(
    bytes: usize,
    result: Result<CompactStep, CompactError<E>>,
)
    requires
        call_ensures(compact_first::<E>, (bytes,), result),
    ensures
        result is Err <==> bytes > 3 * 1024 * 1024 * 1024,
        result is Err ==> result->Err_0 == (CompactError::<E>::TooLarge { bytes }),
        result is Ok ==> result->Ok_0 == CompactStep::WriteSnapshot,
        result == compact_start::<E>(bytes),
{
}

/// A compaction goes on unless writing or emptying failed, and the error says which.
/// The log is emptied only after the snapshot was written and seen to take in all
/// that was logged; where it does not, the compaction is over and the log stays.
pub proof fn law_compaction_goes_on_or_says_why<E>(
    snapshot_epoch: u64,
    step: CompactStep,
    event: CompactEvent<E>,
    result: Result<CompactStep, CompactError<E>>,
)
    requires
        compact_fits(step, event),
        call_ensures(compact::<E>, (snapshot_epoch, step, event), result),
    ensures
        result == compact_after(snapshot_epoch, step, event),
        result is Err <==> event is Failed,
        event matches CompactEvent::Failed(error) ==> result->Err_0 == if step
            == CompactStep::WriteSnapshot {
            CompactError::Write(error)
        } else {
            CompactError::Truncate(error)
        },
        result == Ok::<_, CompactError<E>>(CompactStep::CheckLog) <==> step
            == CompactStep::WriteSnapshot && event is Done,
        result == Ok::<_, CompactError<E>>(CompactStep::TruncateLog) <==> step
            == CompactStep::CheckLog && event is AtEpoch && event->AtEpoch_0 <= snapshot_epoch,
        result == Ok::<_, CompactError<E>>(CompactStep::Finished) <==> (step
            == CompactStep::TruncateLog && event is Done) || (step == CompactStep::CheckLog
            && event is AtEpoch && event->AtEpoch_0 > snapshot_epoch),
{
}

/// Which outcomes the steps of a compaction have: writing and emptying are done or
/// fail, and the history has an epoch.
pub proof fn law_every_outcome_of_a_compaction_is_taken<E>(
    snapshot_epoch: u64,
    step: CompactStep,
    event: CompactEvent<E>,
)
    requires
        step != CompactStep::Finished,
        step == CompactStep::CheckLog <==> event is AtEpoch,
    ensures
        call_requires(compact::<E>, (snapshot_epoch, step, event)),
{
}

/// A snapshot takes in a log exactly when the history has not gone past it.
pub proof fn law_log_is_taken_in_up_to_the_snapshot(
    snapshot_epoch: u64,
    current_epoch: u64,
    yes: bool,
)
    requires
        call_ensures(log_is_taken_in, (snapshot_epoch, current_epoch), yes),
    ensures
        !yes <==> current_epoch > snapshot_epoch,
{
}

/// A compaction whose steps all go well, with nothing logged meanwhile, ends with the
/// new snapshot in place and an empty log, for every snapshot that is not oversized.
pub proof fn law_undisturbed_compaction_empties_the_log<E>(
    disk: Disk,
    epoch: u64,
    new_snapshot: Seq<u8>,
)
    requires
        new_snapshot.len() <= 3 * 1024 * 1024 * 1024,
        forall|i: int| 0 <= i < disk.log.len() ==> is_taken_in(#[trigger] disk.log[i], epoch),
    ensures
        ({
            let moments = seq![
                CompactMoment::Came(CompactEvent::<E>::Done),
                CompactMoment::Came(CompactEvent::AtEpoch(epoch)),
                CompactMoment::Came(CompactEvent::Done),
            ];
            let (stands, now) = compaction(disk, epoch, new_snapshot, moments);
            &&& is_compaction(disk, epoch, new_snapshot, moments)
            &&& stands == Ok::<_, CompactError<E>>(CompactStep::Finished)
            &&& now.snapshot == Some(new_snapshot)
            &&& now.log.len() == 0
        }),
{
    let first = CompactMoment::Came(CompactEvent::<E>::Done);
    let second = CompactMoment::Came(CompactEvent::<E>::AtEpoch(epoch));
    let m0 = Seq::<CompactMoment<E>>::empty();
    let m1 = seq![first];
    let m2 = seq![first, second];
    let m3 = seq![first, second, first];
    assert(m1.drop_last() =~= m0);
    assert(m2.drop_last() =~= m1);
    assert(m3.drop_last() =~= m2);
    let written = Disk { snapshot: Some(new_snapshot), ..disk };
    assert(compaction(disk, epoch, new_snapshot, m0) == (
        Ok::<_, CompactError<E>>(CompactStep::WriteSnapshot),
        disk,
    ));
    assert(compaction(disk, epoch, new_snapshot, m1) == (
        Ok::<_, CompactError<E>>(CompactStep::CheckLog),
        written,
    ));
    assert(compaction(disk, epoch, new_snapshot, m2) == (
        Ok::<_, CompactError<E>>(CompactStep::TruncateLog),
        written,
    ));
    assert(is_compaction(disk, epoch, new_snapshot, m0));
    assert(is_compaction(disk, epoch, new_snapshot, m1));
    assert(is_compaction(disk, epoch, new_snapshot, m2));
}

/// The pages that are logged for a snapshot that is too large are exactly those of
/// more than a million bytes, with their sizes, in the order of the pages.
pub proof fn law_large_pages_are_logged(
    sizes: &[(PageId, Option<usize>)],
    pages: Vec<(PageId, usize)>,
)
    requires
        call_ensures(oversized_pages, (sizes,), pages),
    ensures
        ({
            let large = sizes@.filter(
                |entry: (PageId, Option<usize>)| entry.1 is Some && entry.1->0 > 1_000_000,
            );
            &&& pages@.len() == large.len()
            &&& forall|k: int|
                0 <= k < pages@.len() ==> (#[trigger] pages@[k]).0 == large[k].0
                    && Some(pages@[k].1) == large[k].1
        }),
{
    lemma_large_pages_are_filtered(sizes@);
}

proof fn lemma_large_pages_are_filtered(sizes: Seq<(PageId, Option<usize>)>)
    ensures
        ({
            let large = sizes.filter(
                |entry: (PageId, Option<usize>)| entry.1 is Some && entry.1->0 > 1_000_000,
            );
            let pages = large_pages(sizes);
            &&& pages.len() == large.len()
            &&& forall|k: int|
                0 <= k < pages.len() ==> (#[trigger] pages[k]).0 == large[k].0
                    && Some(pages[k].1) == large[k].1
        }),
    decreases sizes.len(),
{
    reveal(Seq::filter);
    if sizes.len() > 0 {
        lemma_large_pages_are_filtered(sizes.drop_last());
    }
}

/// The message for an oversized snapshot names its size and the ceiling, the others
/// what they are about.
pub proof fn law_messages_name_what_they_are_about(
    bytes: usize,
    path: &str,
    too_large: String,
    no_directory: String,
    full: String,
    there: String,
    no_metadata: String,
    taken: &'static str,
)
    requires
        call_ensures(snapshot_too_large, (bytes,), too_large),
        call_ensures(not_a_directory, (path,), no_directory),
        call_ensures(not_empty, (path,), full),
        call_ensures(already_exists, (path,), there),
        call_ensures(missing_metadata, (path,), no_metadata),
        call_ensures(already_open, (), taken),
    ensures
        too_large@ == "scene snapshot is "@ + text::decimal(bytes as nat) + " bytes (limit "@
            + text::decimal(3_221_225_472)
            + " bytes) — refusing to write to avoid a hard crash; see the `oversized page` error(s) logged just above for which page(s) to investigate"@,
        no_directory@ == "not a project directory: "@ + path@,
        full@ == "project directory not empty: "@ + path@,
        there@ == "project directory already exists: "@ + path@,
        no_metadata@ == "missing project.toml at "@ + path@,
        taken@ == "project is already open elsewhere"@,
{
}

} // verus!
