use s3sync::agent::{Agent, AgentWatcher, Plan};
use s3sync::errors::SyncError;
use s3sync::path_model::{AbsPath, PathComp};
use s3sync::pattern::PatternMatcher;
use s3sync::settings::PathSettings;

fn text_path(parts: &[&str]) -> AbsPath {
    AbsPath { comps: parts.iter().map(|p| PathComp::Text((*p).to_string())).collect() }
}

fn agent(root: &[&str]) -> Agent {
    Agent {
        watcher: AgentWatcher {
            local_path: text_path(root),
            settings: PathSettings { recursive: None, window: None },
        },
        pattern: None,
        bucket_name: "bucket".to_string(),
        key_prefix: None,
        profile_name: None,
        region_name: None,
        delete: None,
    }
}

#[test]
fn round_trip_without_prefix() {
    let a = agent(&["data"]);
    let key = a.object_key(&text_path(&["data", "sub", "file.txt"])).unwrap();
    assert_eq!(key, "sub/file.txt");
}

#[test]
fn round_trip_with_prefix() {
    let mut a = agent(&["data"]);
    a.key_prefix = Some("uploads/".to_string());
    let key = a.object_key(&text_path(&["data", "sub", "file.txt"])).unwrap();
    assert_eq!(key, "uploads/sub/file.txt");
}

#[test]
fn event_path_equal_to_root_gives_empty_key() {
    let a = agent(&["data"]);
    let key = a.object_key(&text_path(&["data"])).unwrap();
    assert_eq!(key, "");
}

#[test]
fn path_outside_root_is_rejected() {
    let a = agent(&["data"]);
    let r = a.object_key(&text_path(&["other", "file.txt"]));
    assert!(matches!(r, Err(SyncError::PathOutsideRoot)));
}

#[test]
fn path_shorter_than_root_is_rejected() {
    let a = agent(&["data", "deep"]);
    let r = a.object_key(&text_path(&["data"]));
    assert!(matches!(r, Err(SyncError::PathOutsideRoot)));
}

#[test]
fn outside_root_plan_never_uploads() {
    let a = agent(&["data"]);
    let plan = a.plan_for(&text_path(&["other", "file.txt"]));
    assert!(matches!(plan, Plan::Skip(SyncError::PathOutsideRoot)));
}

#[test]
fn non_text_component_is_rejected() {
    let a = agent(&["data"]);
    let mut p = text_path(&["data"]);
    p.comps.push(PathComp::Raw(vec![0xff, 0xfe]));
    let r = a.object_key(&p);
    assert!(matches!(r, Err(SyncError::NonTextPath)));
}

#[test]
fn non_text_root_matches_non_text_event_component() {
    let mut a = agent(&[]);
    a.watcher.local_path.comps.push(PathComp::Raw(vec![0xff]));
    let mut p = AbsPath { comps: vec![PathComp::Raw(vec![0xff])] };
    p.comps.push(PathComp::Text("file.txt".to_string()));
    let key = a.object_key(&p).unwrap();
    assert_eq!(key, "file.txt");
}

#[test]
fn csv_pattern_accepts_matching_key() {
    let mut a = agent(&["data"]);
    a.pattern = Some(PatternMatcher::compile(r"\.csv$").unwrap());
    let plan = a.plan_for(&text_path(&["data", "a", "b.csv"]));
    match plan {
        Plan::Upload(req) => {
            assert_eq!(req.key, "a/b.csv");
            assert_eq!(req.bucket, "bucket");
            assert_eq!(req.profile, "default");
            assert_eq!(req.region, None);
        }
        Plan::Skip(e) => panic!("expected an upload, got skip: {e:?}"),
    }
}

#[test]
fn csv_pattern_skips_other_keys_silently() {
    let mut a = agent(&["data"]);
    a.pattern = Some(PatternMatcher::compile(r"\.csv$").unwrap());
    let plan = a.plan_for(&text_path(&["data", "a", "b.txt"]));
    assert!(matches!(plan, Plan::Skip(SyncError::PatternMismatch)));
}

#[test]
fn pattern_matches_against_relative_key_not_absolute_path() {
    let mut a = agent(&["data"]);
    // Anchored at the start of the relative key: "data" itself is stripped.
    a.pattern = Some(PatternMatcher::compile(r"^sub/").unwrap());
    let hit = a.object_key(&text_path(&["data", "sub", "f"]));
    assert!(hit.is_ok());
    let miss = a.object_key(&text_path(&["data", "other", "f"]));
    assert!(matches!(miss, Err(SyncError::PatternMismatch)));
}

#[test]
fn malformed_pattern_is_a_configuration_error() {
    let r = PatternMatcher::compile("[");
    assert!(matches!(r, Err(SyncError::ConfigurationError(_))));
}

#[test]
fn profile_and_region_overrides_reach_the_request() {
    let mut a = agent(&["data"]);
    a.profile_name = Some("ops".to_string());
    a.region_name = Some("eu-central-1".to_string());
    let plan = a.plan_for(&text_path(&["data", "f"]));
    match plan {
        Plan::Upload(req) => {
            assert_eq!(req.profile, "ops");
            assert_eq!(req.region.as_deref(), Some("eu-central-1"));
        }
        Plan::Skip(e) => panic!("expected an upload, got skip: {e:?}"),
    }
}
