use gitcomet::message::{ConflictAutosolveMode, ConflictAutosolveStats};
use gitcomet::trace::{enabled, trace_target, TraceTargetKind};

#[test]
fn autosolve_modes_have_stable_names() {
    assert_eq!(ConflictAutosolveMode::Safe.as_str(), "safe");
    assert_eq!(ConflictAutosolveMode::Regex.as_str(), "regex");
    assert_eq!(ConflictAutosolveMode::History.as_str(), "history");
}

#[test]
fn autosolve_total_sums_every_pass() {
    let stats = ConflictAutosolveStats {
        pass1: 1,
        pass2_split: 2,
        pass1_after_split: 3,
        regex: 4,
        history: 5,
    };
    assert_eq!(stats.total_resolved(), 15);
    assert_eq!(ConflictAutosolveStats::default().total_resolved(), 0);
}

#[test]
fn trace_target_prefers_an_opened_file_then_stderr() {
    assert_eq!(trace_target(Some("/tmp/t"), true, Some("1")), TraceTargetKind::File);
    assert_eq!(trace_target(Some("/tmp/t"), false, Some("1")), TraceTargetKind::Stderr);
    assert_eq!(trace_target(Some(""), true, None), TraceTargetKind::Disabled);
    assert_eq!(trace_target(None, false, Some("0")), TraceTargetKind::Disabled);
    assert_eq!(trace_target(None, false, Some("")), TraceTargetKind::Disabled);
    assert!(enabled(TraceTargetKind::Stderr));
    assert!(!enabled(TraceTargetKind::Disabled));
}
