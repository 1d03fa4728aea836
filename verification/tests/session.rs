use koharu::scene::Timestamp;
use koharu::session::{
    already_exists, already_open, blank_metadata, compact, compact_first, load_snapshot,
    log_is_taken_in, missing_metadata, new_scene, not_a_directory, not_empty, open_first,
    open_next, oversized_pages, snapshot_too_large, CompactError, CompactEvent, CompactStep,
    LoadError, OpenError, OpenEvent, OpenMode, OpenStep, ProjectTomlFile, SceneOrigin,
    MAX_SNAPSHOT_BYTES,
};

type Events = Vec<OpenEvent<&'static str>>;

fn run(mode: OpenMode, events: Events) -> Result<Vec<OpenStep>, OpenError<&'static str>> {
    let mut steps = vec![open_first(mode)];
    for event in events {
        steps.push(open_next(steps[steps.len() - 1], event)?);
    }
    Ok(steps)
}

#[test]
fn existing_project_is_locked_loaded_and_replayed() {
    let steps = run(
        OpenMode::Open,
        vec![
            OpenEvent::Answer(true),
            OpenEvent::Done,
            OpenEvent::Done,
            OpenEvent::Done,
            OpenEvent::Done,
            OpenEvent::AtEpoch(7),
            OpenEvent::AtEpoch(8),
            OpenEvent::Done,
        ],
    )
    .unwrap();
    assert_eq!(
        steps,
        vec![
            OpenStep::CheckDirectory,
            OpenStep::CreateSubdirectories,
            OpenStep::OpenLockFile,
            OpenStep::Lock,
            OpenStep::OpenBlobs,
            OpenStep::LoadSnapshot,
            OpenStep::ReplayLog { past: 7 },
            OpenStep::OpenHistory { epoch: 8 },
            OpenStep::Ready { epoch: 8 },
        ]
    );
}

#[test]
fn new_project_is_seeded_first() {
    let steps = run(
        OpenMode::Create,
        vec![
            OpenEvent::Answer(false),
            OpenEvent::Done,
            OpenEvent::Answer(true),
            OpenEvent::Done,
            OpenEvent::Done,
        ],
    )
    .unwrap();
    assert_eq!(
        steps,
        vec![
            OpenStep::CheckExists,
            OpenStep::CreateDirectory { existed: false },
            OpenStep::CheckEmpty { existed: false },
            OpenStep::SeedMetadata,
            OpenStep::CreateSubdirectories,
            OpenStep::OpenLockFile,
        ]
    );
}

#[test]
fn what_is_no_directory_is_refused() {
    let error = run(OpenMode::Open, vec![OpenEvent::Answer(false)]).unwrap_err();
    assert!(matches!(error, OpenError::NotADirectory));
    assert_eq!(not_a_directory("/x"), "not a project directory: /x");
}

#[test]
fn full_directory_is_refused() {
    for existed in [false, true] {
        let events =
            vec![OpenEvent::Answer(existed), OpenEvent::Done, OpenEvent::Answer(false)];
        assert!(matches!(run(OpenMode::Create, events), Err(OpenError::NotEmpty)));
    }
    assert_eq!(not_empty("/x"), "project directory not empty: /x");
}

#[test]
fn existing_directory_is_refused_though_empty() {
    let events = vec![OpenEvent::Answer(true), OpenEvent::Done, OpenEvent::Answer(true)];
    assert!(matches!(run(OpenMode::Create, events), Err(OpenError::AlreadyExists)));
    assert_eq!(already_exists("/x"), "project directory already exists: /x");
}

#[test]
fn second_opener_is_refused() {
    let events = vec![
        OpenEvent::Answer(true),
        OpenEvent::Done,
        OpenEvent::Done,
        OpenEvent::Failed("would block"),
    ];
    assert!(matches!(run(OpenMode::Open, events), Err(OpenError::AlreadyOpen("would block"))));
    assert!(already_open().contains("already open"));
}

#[test]
fn other_failures_end_the_opening() {
    let events = vec![OpenEvent::Answer(true), OpenEvent::Done, OpenEvent::Failed("denied")];
    assert!(matches!(run(OpenMode::Open, events), Err(OpenError::Other("denied"))));
    let events = vec![OpenEvent::Answer(false), OpenEvent::Failed("no space")];
    assert!(matches!(run(OpenMode::Create, events), Err(OpenError::Other("no space"))));
}

#[test]
fn first_scene_comes_from_the_snapshot_before_the_metadata() {
    assert_eq!(load_snapshot(true, true, false), Ok(SceneOrigin::Snapshot));
    assert_eq!(load_snapshot(true, false, true), Ok(SceneOrigin::Snapshot));
    assert_eq!(load_snapshot(false, true, true), Ok(SceneOrigin::Metadata));
    assert_eq!(load_snapshot(false, true, false), Ok(SceneOrigin::Metadata));
    assert_eq!(load_snapshot(false, false, true), Ok(SceneOrigin::Blank));
    assert_eq!(load_snapshot(false, false, false), Err(LoadError::MissingMetadata));
    assert_eq!(missing_metadata("/p/project.toml"), "missing project.toml at /p/project.toml");
}

#[test]
fn new_scene_has_the_metadata_and_no_pages() {
    let created_at = Timestamp { secs: 1, nanos: 2 };
    let updated_at = Timestamp { secs: 3, nanos: 4 };
    let meta = ProjectTomlFile { name: "v2-project".to_string(), created_at, updated_at };
    let (scene, epoch) = new_scene(meta);
    assert_eq!(epoch, 0);
    assert_eq!(scene.project.name, "v2-project");
    assert_eq!((scene.project.created_at, scene.project.updated_at), (created_at, updated_at));
    assert_eq!(scene.project.style.default_font, None);
    assert!(scene.pages.is_empty());
    assert_eq!(blank_metadata(created_at, updated_at).name, "");
}

#[test]
fn log_is_emptied_only_after_the_snapshot_is_written() {
    let step = compact_first::<&str>(MAX_SNAPSHOT_BYTES).unwrap();
    assert_eq!(step, CompactStep::WriteSnapshot);
    assert!(matches!(
        compact(5, step, CompactEvent::Failed("disk full")),
        Err(CompactError::Write("disk full"))
    ));
    let step = compact::<&str>(5, step, CompactEvent::Done).unwrap();
    assert_eq!(step, CompactStep::CheckLog);
    let step = compact::<&str>(5, step, CompactEvent::AtEpoch(5)).unwrap();
    assert_eq!(step, CompactStep::TruncateLog);
    assert!(matches!(
        compact(5, step, CompactEvent::Failed("busy")),
        Err(CompactError::Truncate("busy"))
    ));
    assert_eq!(compact::<&str>(5, step, CompactEvent::Done).unwrap(), CompactStep::Finished);
}

#[test]
fn log_with_a_later_operation_is_kept() {
    let step = compact::<&str>(5, CompactStep::CheckLog, CompactEvent::AtEpoch(6)).unwrap();
    assert_eq!(step, CompactStep::Finished);
    assert!(log_is_taken_in(5, 5));
    assert!(log_is_taken_in(5, 4));
    assert!(!log_is_taken_in(5, 6));
}

#[test]
fn oversized_snapshot_is_not_written() {
    let bytes = MAX_SNAPSHOT_BYTES + 1;
    assert_eq!(MAX_SNAPSHOT_BYTES, 3 * 1024 * 1024 * 1024);
    assert!(matches!(
        compact_first::<&str>(bytes),
        Err(CompactError::TooLarge { bytes: 3_221_225_473 })
    ));
    assert_eq!(
        snapshot_too_large(bytes),
        "scene snapshot is 3221225473 bytes (limit 3221225472 bytes) — refusing to write to avoid \
         a hard crash; see the `oversized page` error(s) logged just above for which page(s) to \
         investigate"
    );
    let sizes = [(1u128, Some(1_000_000)), (2, None), (3, Some(1_000_001)), (4, Some(5_000_000))];
    assert_eq!(oversized_pages(&sizes), vec![(3, 1_000_001), (4, 5_000_000)]);
}
