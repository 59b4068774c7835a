//! The small pieces that the registry is made of.

use bilibili_tasks::active_key::{
    active_key_for_task, normalize_danmaku_format_keys, normalize_subtitle_ai_policy_key,
};
use bilibili_tasks::decimal::decimal;
use bilibili_tasks::hls::{
    completed_library_item_id, playback_hls_session_ids, result_item_hls_session_ids,
    result_item_has_online_playback_after_cache_fill_failure, session_id_from_library_item_id,
};
use bilibili_tasks::id_set::IdSet;
use bilibili_tasks::identifiers::new_id;
use bilibili_tasks::messages::{
    CANCELLED_AFTER_RESTART_MESSAGE, CANCELLED_BY_REQUEST_MESSAGE,
    PREPARING_INTERRUPTED_AFTER_RESTART_MESSAGE, REQUEUED_AFTER_RESTART_MESSAGE,
    is_known_safe_cancellation_message,
};
use bilibili_tasks::model::basics::{Progress, TaskKind, TaskState, Timestamp};
use bilibili_tasks::model::key::ActiveBilibiliTaskKey;
use bilibili_tasks::model::options::{
    BilibiliDownloadOptions, BilibiliPlaybackOptions, BilibiliSubtitleAiPolicy,
};
use bilibili_tasks::model::output::{
    CacheResourceRef, TaskOutputRecord, TaskOutputSummary, TaskResourceRecord,
};
use bilibili_tasks::model::playback::{BilibiliPlaybackSession, PlaybackSource};
use bilibili_tasks::model::record::PersistedTaskRecord;
use bilibili_tasks::model::state::{RegistryInner, RegistryMutationCheckpoint};
use bilibili_tasks::model::task::{BilibiliTaskResultItem, Task};
use bilibili_tasks::plain::Plain;
use bilibili_tasks::registry::BilibiliTaskRegistry;
use bilibili_tasks::registry::commit::{
    CommitStart, CommitTerms, Guarantee, PersistenceCommitOutcome, Step,
};
use bilibili_tasks::registry::creation::DownloadCreation;
use bilibili_tasks::registry::restore::{
    RegistrySetting, RestoredOutput, restore_persisted_record,
};
use bilibili_tasks::registry::watching::{Delivery, watch_after, watch_end};
use bilibili_tasks::requests::normalize_required_id;
use bilibili_tasks::results::result_items_progress;
use bilibili_tasks::states::{is_active, is_terminal};
use bilibili_tasks::status::Code;
use bilibili_tasks::text::{lowercase_text, normalize, normalize_option_string};
use bilibili_tasks::timing::{
    Duration, TaskRetentionPolicy, current_timestamp, duration_nanos, terminal_task_age_exceeds,
    terminal_task_retention_timestamp, timestamp_after_epoch, timestamp_age_nanos,
    timestamp_by_clock, timestamp_nanos, timestamp_sort_key,
};

fn named(id: &str, kind: TaskKind, state: TaskState) -> Task {
    Task {
        id: id.to_owned(),
        kind,
        state,
        source: "BV1source".to_owned(),
        ..Default::default()
    }
}

fn at(seconds: i64) -> Timestamp {
    Timestamp { seconds, nanos: 0 }
}

#[test]
fn every_white_space_character_is_trimmed() {
    for c in '\0'..='\u{ffff}' {
        let text = format!("{c}x{c}");
        assert_eq!(text.trim(), normalize(&text), "{c:?}");
    }
}

#[test]
fn texts_are_trimmed_and_lowered() {
    assert_eq!("BV1xx", normalize("\u{2003} BV1xx\t\n"));
    assert_eq!("a \u{2003} b", normalize(" a \u{2003} b "));
    assert_eq!("", normalize(" \u{a0}\u{85} "));
    assert_eq!("abc-\u{c4}", lowercase_text("AbC-\u{c4}"));
    assert_eq!(
        "abcdefghijklmnopqrstuvwxyz",
        lowercase_text("ABCDEFGHIJKLMNOPQRSTUVWXYZ")
    );
    assert_eq!("@[`{\u{10400}z", lowercase_text("@[`{\u{10400}Z"));
    assert_eq!("", lowercase_text(""));
    assert_eq!("720p hdr", normalize_option_string("  720P HDR "));
}

#[test]
fn identifiers_are_required() {
    assert_eq!(Ok("task".to_owned()), normalize_required_id("  task "));
    let status = normalize_required_id(" \t").unwrap_err();
    assert_eq!(Code::InvalidArgument, status.code());
}

#[test]
fn new_identifiers_are_random_and_carry_their_prefix() {
    let first = new_id("bilibili-");
    let second = new_id("bilibili-");
    assert_ne!(first, second);
    let random = first.strip_prefix("bilibili-").expect("the prefix comes first");
    assert_eq!(32, random.len());
    assert!(random.chars().all(|c| c.is_ascii_digit() || ('a'..='f').contains(&c)));
    assert_eq!(Some('4'), random.chars().nth(12));
}

#[test]
fn numbers_are_written_in_decimal() {
    assert_eq!("0", decimal(0));
    assert_eq!("7", decimal(7));
    assert_eq!("10", decimal(10));
    assert_eq!("134217728", decimal(134_217_728));
    assert_eq!(usize::MAX.to_string(), decimal(usize::MAX));
}

#[test]
fn points_in_time_are_counted_in_nanoseconds() {
    assert_eq!(at(7), timestamp_after_epoch((7, 0)));
    assert_eq!(at(i64::MAX), timestamp_after_epoch((u64::MAX, 0)));
    assert_eq!(Timestamp { seconds: 7, nanos: 9 }, timestamp_by_clock(Some((7, 9))));
    assert_eq!(at(0), timestamp_by_clock(None));
    let now = current_timestamp();
    assert!(now.seconds > 1_600_000_000);
    assert!((0..1_000_000_000).contains(&now.nanos));
    let later = Timestamp { seconds: 3, nanos: 4 };
    assert_eq!(3_000_000_004, timestamp_nanos(&later));
    assert_eq!(Some(2_000_000_004), timestamp_age_nanos(&later, &at(1)));
    assert_eq!(2_000_000_000, duration_nanos(Duration::from_secs(2)));
    assert_eq!((3, 4), timestamp_sort_key(Some(later)));
    assert_eq!((0, 0), timestamp_sort_key(None));
}

#[test]
fn retention_goes_by_the_end_of_a_task() {
    let default = TaskRetentionPolicy::default();
    assert_eq!(Some(200), default.max_terminal_tasks);
    assert_eq!(Some(Duration::from_secs(30 * 24 * 60 * 60)), default.max_terminal_task_age);

    let mut task = named("task", TaskKind::BilibiliDownload, TaskState::Failed);
    assert_eq!(None, terminal_task_retention_timestamp(&task));
    assert!(!terminal_task_age_exceeds(&task, &at(1_000), Duration::from_secs(0)));
    task.created_at = Some(at(10));
    assert_eq!(Some(at(10)), terminal_task_retention_timestamp(&task));
    task.updated_at = Some(at(20));
    assert_eq!(Some(at(20)), terminal_task_retention_timestamp(&task));
    task.finished_at = Some(at(30));
    assert_eq!(Some(at(30)), terminal_task_retention_timestamp(&task));
    assert!(terminal_task_age_exceeds(&task, &at(40), Duration::from_secs(10)));
    assert!(!terminal_task_age_exceeds(&task, &at(39), Duration::from_secs(10)));
}

#[test]
fn states_are_active_terminal_or_served() {
    for state in [
        TaskState::Queued,
        TaskState::Running,
        TaskState::CancelRequested,
        TaskState::Planned,
        TaskState::Preparing,
    ] {
        assert!(is_active(state) && !is_terminal(state));
    }
    for state in
        [TaskState::Succeeded, TaskState::Failed, TaskState::Cancelled, TaskState::Completed]
    {
        assert!(is_terminal(state) && !is_active(state));
    }
    assert!(!is_active(TaskState::Playable) && !is_terminal(TaskState::Playable));
    let strange = named("task", TaskKind::Unrecognized(99), TaskState::Unrecognized(77));
    assert_eq!(TaskState::Unspecified, strange.state());
    assert_eq!(TaskKind::Unspecified, strange.kind());
}

#[test]
fn known_cancellation_messages_are_safe() {
    assert!(is_known_safe_cancellation_message(CANCELLED_BY_REQUEST_MESSAGE));
    assert!(is_known_safe_cancellation_message("Cancelled after BBDown muxing completed."));
    assert!(!is_known_safe_cancellation_message("Cancelled by /home/user."));
}

#[test]
fn requests_that_ask_for_the_same_have_the_same_key() {
    let options = |quality: &str, formats: Vec<i32>, policy: BilibiliSubtitleAiPolicy| {
        Some(BilibiliDownloadOptions {
            quality_preference: quality.to_owned(),
            danmaku_formats: formats,
            subtitle_ai_policy: policy,
            ..Default::default()
        })
    };
    let unspecified = BilibiliSubtitleAiPolicy::Unspecified;
    let key = |source: &str, options: &Option<BilibiliDownloadOptions>| {
        ActiveBilibiliTaskKey::download(source, options)
    };
    let first = key("BV1", &options(" 720P ", vec![2, 0, 1, 2], unspecified));
    assert_eq!(vec![1, 2], first.danmaku_formats);
    let second = key(" BV1 ", &options("720p", vec![1, 2], BilibiliSubtitleAiPolicy::Include));
    assert!(first.same_as(&second));
    assert!(!first.same_as(&key("BV1", &options("1080p", vec![1, 2], unspecified))));
    let avoiding = options("720p", vec![1, 2], BilibiliSubtitleAiPolicy::PreferNonAi);
    assert!(!first.same_as(&key("BV1", &avoiding)));

    assert_eq!(vec![-1, 3, 5], normalize_danmaku_format_keys(&vec![5, 3, 0, -1, 3]));
    assert_eq!(
        BilibiliSubtitleAiPolicy::Unspecified,
        normalize_subtitle_ai_policy_key(BilibiliSubtitleAiPolicy::Include)
    );

    let playback = Some(BilibiliPlaybackOptions {
        quality_preference: "720P".to_owned(),
        ..Default::default()
    });
    let task = named("task", TaskKind::BilibiliProgressivePlayback, TaskState::Preparing);
    let key = active_key_for_task(&task, &None, &playback);
    assert!(key.same_as(&ActiveBilibiliTaskKey::playback("BV1source", &playback)));
    assert_eq!(TaskKind::BilibiliProgressivePlayback, key.kind);
    assert_eq!("720p", key.quality_preference);
}

#[test]
fn sessions_are_named_directly_or_by_their_library_entry() {
    assert_eq!("bilibili.hls.session", completed_library_item_id("session"));
    assert_eq!(
        Some("session".to_owned()),
        session_id_from_library_item_id("bilibili.hls.session")
    );
    assert_eq!(None, session_id_from_library_item_id("bilibili.hls."));
    assert_eq!(None, session_id_from_library_item_id("session"));

    let item = BilibiliTaskResultItem {
        id: "zulu".to_owned(),
        playback_source: Some(PlaybackSource {
            item_id: "bilibili.hls.mike".to_owned(),
            ..Default::default()
        }),
        playback_session: Some(BilibiliPlaybackSession {
            id: "alpha".to_owned(),
            ..Default::default()
        }),
        ..Default::default()
    };
    assert_eq!(vec!["alpha", "mike", "zulu"], result_item_hls_session_ids(&item));
    let silent = BilibiliTaskResultItem { id: "silent".to_owned(), ..Default::default() };
    assert!(result_item_hls_session_ids(&silent).is_empty());
    let mut task =
        named("task", TaskKind::BilibiliProgressivePlayback, TaskState::Playable);
    task.result_items = vec![item, silent];
    assert_eq!(vec!["alpha", "mike", "zulu"], playback_hls_session_ids(&task));
}

#[test]
fn failed_cache_fill_leaves_a_result_playable_online() {
    let mut item = BilibiliTaskResultItem {
        state: TaskState::Failed,
        message: "Playable online; offline cache fill failed: upstream failed".to_owned(),
        playback_source: Some(PlaybackSource::default()),
        playback_session: Some(BilibiliPlaybackSession::default()),
        ..Default::default()
    };
    assert!(result_item_has_online_playback_after_cache_fill_failure(&item));
    item.message = "Playable online; the cache is full".to_owned();
    assert!(!result_item_has_online_playback_after_cache_fill_failure(&item));
}

#[test]
fn progress_is_the_share_of_results_that_are_done() {
    let item = |state: TaskState| BilibiliTaskResultItem { state, ..Default::default() };
    assert_eq!(Progress::default(), result_items_progress(&Vec::new()));
    assert_eq!(
        Progress::Exact { done: 3, total: 4 },
        result_items_progress(&vec![
            item(TaskState::Playable),
            item(TaskState::Preparing),
            item(TaskState::Failed),
            item(TaskState::Completed),
        ])
    );
}

#[test]
fn reports_are_brought_into_bounds() {
    let mut registry = BilibiliTaskRegistry::volatile(10);
    let draft = match registry.create_bilibili_task_as("work".to_owned(), "BV1", None, at(1)) {
        Ok(DownloadCreation::Draft(draft)) => draft,
        _ => panic!("there is no such task yet"),
    };
    commit(&mut registry, |registry| {
        registry.admit_bilibili_task(
            draft,
            TaskOutputRecord::default(),
            TaskOutputSummary::default(),
        )
    });
    commit(&mut registry, |registry| registry.try_claim_next_bilibili_task(at(2)));
    let mut report = |progress: f64| {
        let receipt = registry.update_task_progress(
            "work",
            bilibili_tasks::changes::BilibiliTaskProgress {
                progress_bits: Some(progress.to_bits()),
                downloaded_bytes: Some(-5),
                total_bytes: Some(9),
                message: None,
            },
            at(3),
        );
        assert!(receipt.accepted);
        registry.get_task("work").expect("the task is known")
    };
    let bits = |task: &Task| match task.progress {
        Progress::Measured { bits } => f64::from_bits(bits),
        Progress::Exact { .. } => panic!("the progress was measured"),
    };
    let task = report(0.25);
    assert_eq!(0.25, bits(&task));
    assert_eq!((0, 9), (task.downloaded_bytes, task.total_bytes));
    assert_eq!(1.0, bits(&report(1.5)));
    assert_eq!(1.0, bits(&report(f64::NAN)));
    assert_eq!(1.0, bits(&report(f64::INFINITY)));
    assert_eq!(0.0, bits(&report(-3.0)));
    assert_eq!(0.5, bits(&report(0.5)));
}

/// Commits a change of a registry that keeps nothing on disk.
fn commit<T>(
    registry: &mut BilibiliTaskRegistry,
    change: impl FnOnce(&mut BilibiliTaskRegistry) -> Step<T>,
) -> T {
    let (answer, terms) = match change(registry) {
        Step::Commit(answer, terms) => (answer, terms),
        Step::Done(answer) => return answer,
        Step::Flush(_) => panic!("nothing waits to be written down"),
    };
    let outcome = match registry.begin_commit(Vec::new(), true, terms.durability_required, at(5)) {
        CommitStart::Settled(outcome) => outcome,
        CommitStart::Save(_) => panic!("there is nowhere to save it"),
    };
    assert_eq!(PersistenceCommitOutcome::Volatile, outcome);
    registry.finish_commit(None, outcome, terms);
    answer
}

#[test]
fn terms_say_what_a_request_needs() {
    let refused = "It could not be written down.";
    let outcomes = [
        PersistenceCommitOutcome::Durable,
        PersistenceCommitOutcome::InstalledButNotDurable,
        PersistenceCommitOutcome::Volatile,
        PersistenceCommitOutcome::Rejected,
        PersistenceCommitOutcome::Superseded,
    ];
    for (needed, met) in [
        (Guarantee::Nothing, [true, true, true, true, true]),
        (Guarantee::Committed, [true, true, true, false, false]),
        (Guarantee::Durable, [true, false, false, false, false]),
    ] {
        let terms = CommitTerms::catching_up(needed, refused);
        for (outcome, met) in outcomes.into_iter().zip(met) {
            match terms.settle(outcome) {
                Ok(()) => assert!(met),
                Err(status) => {
                    assert!(!met);
                    assert_eq!(Code::Unavailable, status.code());
                    assert_eq!(refused, status.message);
                }
            }
        }
    }
}

#[test]
fn empty_sources_and_unknown_tasks_are_refused() {
    let mut registry = BilibiliTaskRegistry::volatile(10);
    let status = match registry.create_bilibili_task("  ", None, at(1)) {
        Err(status) => status,
        Ok(_) => panic!("a source is required"),
    };
    assert_eq!(Code::InvalidArgument, status.code());
    assert_eq!("Bilibili URL or id is required.", status.message);
    assert!(registry.create_bilibili_playback_task("", None, None, at(1)).is_err());
    assert_eq!(Code::NotFound, registry.get_task("unknown").unwrap_err().code());
    let status = match registry.cancel_task("unknown", false, at(1)) {
        Err(status) => status,
        Ok(_) => panic!("the task is not known"),
    };
    assert_eq!(Code::NotFound, status.code());
    assert!(!registry.is_cancel_requested("unknown"));
}

#[test]
fn watchers_that_fall_behind_are_told_so() {
    let kept = watch_after(Delivery::Accepted);
    assert!(kept.kept && !kept.lagged);
    let full = watch_after(Delivery::Full);
    assert!(!full.kept && full.lagged);
    let closed = watch_after(Delivery::Closed);
    assert!(!closed.kept && !closed.lagged);
    assert_eq!(Code::ResourceExhausted, watch_end(true).code());
    assert_eq!(Code::Unavailable, watch_end(false).code());
}

#[test]
fn rolling_back_at_once_changes_nothing() {
    let mut inner = RegistryInner::new();
    let task = named("task", TaskKind::BilibiliDownload, TaskState::Queued);
    inner.tasks_by_id.insert("task".to_owned(), task.clone());
    inner.queued_task_ids.push("task".to_owned());
    RegistryMutationCheckpoint::capture(&inner).restore(&mut inner);
    assert_eq!(Some(&task), inner.tasks_by_id.get(&"task".to_owned()));
    assert_eq!(vec!["task"], inner.queued_task_ids);
}

#[test]
fn claimed_resources_are_released_as_often_as_they_were_claimed() {
    let mut inner = RegistryInner::new();
    let mut ids = IdSet::new();
    ids.insert("resource".to_owned());
    inner.claim_staged_resource_owners(&ids);
    inner.claim_staged_resource_owners(&ids);
    assert_eq!(Some(&2), inner.staged_resource_owner_counts.get(&"resource".to_owned()));
    inner.release_staged_resource_owners(&ids);
    assert_eq!(Some(&1), inner.staged_resource_owner_counts.get(&"resource".to_owned()));
    assert!(inner.resource_body_owner_ids(&at(1)).contains(&"resource".to_owned()));
    inner.release_staged_resource_owners(&ids);
    assert!(inner.staged_resource_owner_counts.is_empty());
    assert!(inner.resource_body_owner_ids(&at(1)).is_empty());
}

fn record(task: Task) -> PersistedTaskRecord {
    PersistedTaskRecord { task, ..Default::default() }
}

#[test]
fn tasks_that_make_no_sense_are_not_taken_up_again() {
    let download = TaskKind::BilibiliDownload;
    let playback = TaskKind::BilibiliProgressivePlayback;
    let mut nameless = named("  ", download, TaskState::Queued);
    let restore = |task: &Task| restore_persisted_record(record(task.clone()), at(9));
    assert!(restore(&nameless).is_none());
    nameless.id = " named ".to_owned();
    assert_eq!("named", restore(&nameless).expect("it has a name now").task.id);
    assert!(restore(&named("a", TaskKind::LibraryRescan, TaskState::Queued)).is_none());
    assert!(restore(&named("a", download, TaskState::Unspecified)).is_none());
    assert!(restore(&named("a", download, TaskState::Unrecognized(99))).is_none());
    assert!(restore(&named("a", playback, TaskState::Planned)).is_none());
    assert!(restore(&named("a", playback, TaskState::Playable)).is_none());
    assert!(restore(&named("a", playback, TaskState::Completed)).is_none());
    assert!(restore(&named("a", download, TaskState::Completed)).is_some());
    let mut sourceless = named("a", download, TaskState::Queued);
    sourceless.source = "\t".to_owned();
    assert!(restore(&sourceless).is_none());
}

#[test]
fn nobody_works_on_a_task_after_a_restart() {
    let download = TaskKind::BilibiliDownload;
    let playback = TaskKind::BilibiliProgressivePlayback;
    for (kind, before, after, message) in [
        (download, TaskState::Running, TaskState::Queued, REQUEUED_AFTER_RESTART_MESSAGE),
        (
            download,
            TaskState::CancelRequested,
            TaskState::Cancelled,
            CANCELLED_AFTER_RESTART_MESSAGE,
        ),
        (
            playback,
            TaskState::CancelRequested,
            TaskState::Cancelled,
            CANCELLED_AFTER_RESTART_MESSAGE,
        ),
        (
            playback,
            TaskState::Preparing,
            TaskState::Failed,
            PREPARING_INTERRUPTED_AFTER_RESTART_MESSAGE,
        ),
        (
            playback,
            TaskState::Running,
            TaskState::Failed,
            PREPARING_INTERRUPTED_AFTER_RESTART_MESSAGE,
        ),
    ] {
        let restored = restore_persisted_record(record(named("a", kind, before)), at(9))
            .expect("the task is taken up again");
        assert_eq!(after, restored.task.state);
        assert_eq!(message, restored.task.message);
        assert_eq!(Some(at(9)), restored.task.updated_at);
        let again = restore_persisted_record(restored.clone(), at(10));
        assert_eq!(Some(restored), again);
    }
    let ended = record(named("a", download, TaskState::Succeeded));
    assert_eq!(Some(ended.clone()), restore_persisted_record(ended, at(9)));
}

#[test]
fn completed_playback_comes_back_under_its_library_entry() {
    let mut task =
        named("a", TaskKind::BilibiliProgressivePlayback, TaskState::Completed);
    task.library_item_id = "bilibili.hls.a".to_owned();
    task.playback_source = Some(PlaybackSource {
        item_id: "a".to_owned(),
        expires_at: Some(at(3)),
        ..Default::default()
    });
    let source = restore_persisted_record(record(task), at(9))
        .and_then(|record| record.task.playback_source)
        .expect("the source is kept");
    assert_eq!("bilibili.hls.a", source.item_id);
    assert_eq!(None, source.expires_at);
}

#[test]
fn only_one_download_for_a_request_is_taken_up_again() {
    let written = |id: &str| {
        let mut record = record(named(id, TaskKind::BilibiliDownload, TaskState::Queued));
        record.output.snapshot_id = format!("snapshot-{id}");
        record
    };
    let derived = |output: bool| RestoredOutput {
        output: output.then(TaskOutputRecord::default),
        summary: TaskOutputSummary { revision: 4, ..Default::default() },
    };
    let registry = match BilibiliTaskRegistry::from_persisted_records(
        &vec![written("broken"), written("first"), written("second")],
        &vec![derived(false), derived(true), derived(true)],
        RegistrySetting {
            persistent: true,
            persistence_configured: true,
            retention_policy: TaskRetentionPolicy::default(),
            resource_root_configured: true,
            max_registered_resources: 10,
        },
        at(1),
    ) {
        Ok(registry) => registry,
        Err(_) => panic!("the records do not collide"),
    };
    assert!(registry.get_task("broken").is_err());
    assert!(registry.get_task("second").is_err());
    let first = registry.get_task("first").expect("the first one is taken up");
    assert_eq!(Some(4), first.output_summary.map(|summary| summary.revision));
    assert_eq!(vec!["first"], registry.inner.queued_task_ids);
    assert!(registry.persistence_available());
    assert!(registry.persistence_recovery_supported());
    assert!(registry.orphan_resource_scan_pending);
    assert!(!registry.task_output_v2_available());
    match registry.create_bilibili_task_as("third".to_owned(), " BV1source ", None, at(1)) {
        Ok(DownloadCreation::Existing(task)) => assert_eq!("first", task.id),
        _ => panic!("the request is under way already"),
    }
}

#[test]
fn resources_are_registered_up_to_the_limit() {
    let mut registry = BilibiliTaskRegistry::volatile(2);
    let draft = match registry.create_bilibili_task_as("owner".to_owned(), "BV1", None, at(1)) {
        Ok(DownloadCreation::Draft(draft)) => draft,
        _ => panic!("there is no such task yet"),
    };
    commit(&mut registry, |registry| {
        registry.admit_bilibili_task(
            draft,
            TaskOutputRecord::default(),
            TaskOutputSummary::default(),
        )
    });
    let resource = |id: &str| TaskResourceRecord {
        resource: CacheResourceRef { id: id.to_owned(), ..Default::default() },
    };
    let status = match registry.stage_task_output_replacement(
        "owner",
        vec![resource("a"), resource("b"), resource("c")],
        0,
    ) {
        Err(status) => status,
        Ok(_) => panic!("three resources are one too many"),
    };
    assert_eq!(Code::ResourceExhausted, status.code());
    let staged = registry
        .stage_task_output_replacement("owner", vec![resource("a"), resource("b")], 0)
        .expect("two resources are allowed");
    assert_eq!(2, staged.resources_requiring_body_creation().len());
    let status = match registry.stage_task_output_replacement("owner", vec![resource("a")], 0) {
        Err(status) => status,
        Ok(_) => panic!("the resource is claimed already"),
    };
    assert_eq!(Code::AlreadyExists, status.code());
}
