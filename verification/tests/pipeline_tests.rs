use s3sync::agent::{Agent, AgentWatcher, Plan, PostAction, UploadOutcome};
use s3sync::errors::SyncError;
use s3sync::manager::{event_actionable, ChangeEvent, EventKind, Manager};
use s3sync::path_model::{AbsPath, PathComp};
use s3sync::settings::PathSettings;

fn text_path(parts: &[&str]) -> AbsPath {
    AbsPath { comps: parts.iter().map(|p| PathComp::Text((*p).to_string())).collect() }
}

fn agent(root: &[&str], bucket: &str) -> Agent {
    Agent {
        watcher: AgentWatcher {
            local_path: text_path(root),
            settings: PathSettings { recursive: None, window: None },
        },
        pattern: None,
        bucket_name: bucket.to_string(),
        key_prefix: None,
        profile_name: None,
        region_name: None,
        delete: None,
    }
}

#[test]
fn delivered_upload_with_delete_flag_removes_local_copy() {
    let mut a = agent(&["data"], "b");
    a.delete = Some(true);
    let act = a.post_upload_action(UploadOutcome::Delivered);
    assert!(matches!(act, PostAction::RemoveLocal));
}

#[test]
fn delivered_upload_without_delete_flag_keeps_local_copy() {
    let a = agent(&["data"], "b");
    let act = a.post_upload_action(UploadOutcome::Delivered);
    assert!(matches!(act, PostAction::KeepLocal));
}

#[test]
fn failed_upload_never_removes_local_copy() {
    let mut a = agent(&["data"], "b");
    a.delete = Some(true);
    let act = a.post_upload_action(UploadOutcome::Rejected("503".to_string()));
    match act {
        PostAction::Report(SyncError::UploadRejected(msg)) => assert_eq!(msg, "503"),
        other => panic!("expected a reported rejection, got {other:?}"),
    }
}

#[test]
fn unavailable_file_is_reported_not_deleted() {
    let mut a = agent(&["data"], "b");
    a.delete = Some(true);
    let act = a.post_upload_action(UploadOutcome::FileUnavailable);
    assert!(matches!(act, PostAction::Report(SyncError::FileUnavailable)));
}

#[test]
fn fanout_tries_every_agent_and_isolates_failures() {
    let mut a1 = agent(&["data"], "bucket-one");
    a1.delete = Some(true);
    let a2 = agent(&["data"], "bucket-two");
    let m = Manager { agents: vec![a1, a2] };
    let plans = m.plans_for_event(&text_path(&["data", "f.txt"]));
    assert_eq!(plans.len(), 2);
    for (plan, bucket) in plans.iter().zip(["bucket-one", "bucket-two"]) {
        match plan {
            Plan::Upload(req) => {
                assert_eq!(req.bucket, bucket);
                assert_eq!(req.key, "f.txt");
            }
            Plan::Skip(e) => panic!("expected an upload, got skip: {e:?}"),
        }
    }
    // Agent one's transfer fails; agent two's succeeds. Each post-upload
    // decision depends on that agent alone.
    let act1 = m.agents[0].post_upload_action(UploadOutcome::Rejected("boom".to_string()));
    let act2 = m.agents[1].post_upload_action(UploadOutcome::Delivered);
    assert!(matches!(act1, PostAction::Report(SyncError::UploadRejected(_))));
    assert!(matches!(act2, PostAction::KeepLocal));
}

#[test]
fn agents_with_different_roots_see_the_same_event_independently() {
    let a1 = agent(&["data"], "b1");
    let a2 = agent(&["elsewhere"], "b2");
    let m = Manager { agents: vec![a1, a2] };
    let plans = m.plans_for_event(&text_path(&["data", "f.txt"]));
    assert!(matches!(plans[0], Plan::Upload(_)));
    assert!(matches!(&plans[1], Plan::Skip(SyncError::PathOutsideRoot)));
}

#[test]
fn continuous_events_are_never_dispatched() {
    for present in [false, true] {
        for is_file in [false, true] {
            assert!(!event_actionable(EventKind::AnyContinuous, present, is_file));
        }
    }
}

#[test]
fn settled_events_need_an_existing_regular_file() {
    assert!(event_actionable(EventKind::Any, true, true));
    assert!(!event_actionable(EventKind::Any, false, true));
    assert!(!event_actionable(EventKind::Any, true, false));
    assert!(!event_actionable(EventKind::Any, false, false));
}

#[test]
fn manager_dispatches_only_settled_events_on_regular_files() {
    let m = Manager { agents: vec![agent(&["data"], "b")] };
    let in_progress =
        ChangeEvent { path: text_path(&["data", "f"]), kind: EventKind::AnyContinuous };
    assert!(m.process_event(&in_progress, true, true).is_none());
    let settled = ChangeEvent { path: text_path(&["data", "f"]), kind: EventKind::Any };
    assert!(m.process_event(&settled, false, true).is_none());
    assert!(m.process_event(&settled, true, false).is_none());
    let plans = m.process_event(&settled, true, true).unwrap();
    assert_eq!(plans.len(), 1);
    assert!(matches!(&plans[0], Plan::Upload(_)));
}

#[test]
fn manager_rejects_out_of_bounds_window() {
    let mut a = agent(&["data"], "b");
    a.watcher.settings.window = Some(0);
    let r = Manager::new(vec![a]);
    assert!(matches!(r, Err(SyncError::ConfigurationError(_))));
}

#[test]
fn manager_accepts_valid_windows() {
    let mut a = agent(&["data"], "b");
    a.watcher.settings.window = Some(3600);
    let m = Manager::new(vec![a]).unwrap();
    assert_eq!(m.agents.len(), 1);
}
