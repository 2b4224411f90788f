use rufa::names::NameMap;
use rufa::runner::supervisor::WatchSpec;
use rufa::watch::{
    matched_targets, should_ignore_path, watch_root, Change, ChangeKind, WatchManager, WatchStep,
};

fn services() -> NameMap<Vec<String>> {
    let mut services: NameMap<Vec<String>> = NameMap::new();
    services.insert("web".to_string(), vec!["/w/web".to_string(), "/w/shared".to_string()]);
    services.insert("api".to_string(), vec!["/w/api".to_string(), "/w/shared".to_string()]);
    services
}

fn change(kind: ChangeKind, paths: &[&str]) -> Change {
    Change {
        kind,
        paths: paths.iter().map(|path| path.to_string()).collect(),
    }
}

#[test]
fn own_files_are_ignored() {
    for path in [
        "/w/.git/HEAD",
        "/w/Target/debug/x",
        "/w/.rufa/logs/web.1.log",
        "/w/rufa.log",
        "/w/RUFA.LOG.1",
        "/w/src/main.rs~",
        "/w/src/.main.rs.swp",
        "/w/src/x.tmp",
    ] {
        assert!(should_ignore_path(path), "{path}");
    }
    assert!(!should_ignore_path("/w/src/main.rs"));
    assert!(!should_ignore_path("/w/targets/x.rs"));
}

#[test]
fn changes_concern_services_below_whose_directories_they_lie() {
    let services = services();
    assert_eq!(
        matched_targets(&change(ChangeKind::Modify, &["/w/web/a.ts"]), &services),
        vec!["web".to_string()]
    );
    assert_eq!(
        matched_targets(&change(ChangeKind::Create, &["/w/shared/a.ts"]), &services),
        vec!["api".to_string(), "web".to_string()]
    );
    assert!(matched_targets(&change(ChangeKind::Modify, &["/w/website/a.ts"]), &services).is_empty());
    assert!(matched_targets(&change(ChangeKind::Access, &["/w/web/a.ts"]), &services).is_empty());
    assert!(matched_targets(&change(ChangeKind::Remove, &["/w/web/.git/x"]), &services).is_empty());
    assert_eq!(matched_targets(&change(ChangeKind::Any, &[]), &services).len(), 2);
    assert!(matched_targets(&change(ChangeKind::Other, &[]), &services).is_empty());
}

#[test]
fn changes_are_gathered_until_the_timer_runs_out() {
    let mut manager = WatchManager::new();
    assert!(manager.enable_watch(WatchSpec {
        services: services(),
        stability: 2,
    }));
    let session = manager.session.as_mut().unwrap();
    assert_eq!(
        session.on_change(&change(ChangeKind::Modify, &["/elsewhere"])),
        WatchStep::Ignored
    );
    assert_eq!(
        session.on_change(&change(ChangeKind::Modify, &["/w/web/a"])),
        WatchStep::StartTimer { seconds: 2 }
    );
    assert_eq!(
        session.on_change(&change(ChangeKind::Modify, &["/w/api/a", "/w/web/b"])),
        WatchStep::Coalesced
    );
    assert_eq!(
        session.take_pending(),
        vec!["api".to_string(), "web".to_string()]
    );
    assert!(session.take_pending().is_empty());
    session.settle();
    assert_eq!(
        session.on_change(&change(ChangeKind::Modify, &["/w/web/a"])),
        WatchStep::StartTimer { seconds: 2 }
    );
}

#[test]
fn nothing_to_watch_turns_watching_off() {
    let mut manager = WatchManager::new();
    assert!(!manager.disable());
    manager.enable_watch(WatchSpec {
        services: services(),
        stability: 2,
    });
    assert!(!manager.enable_watch(WatchSpec {
        services: NameMap::new(),
        stability: 2,
    }));
    assert!(manager.session.is_none());
}

#[test]
fn directory_of_the_configuration_is_watched() {
    assert_eq!(watch_root("/w/rufa.toml"), "/w");
    assert_eq!(watch_root("/"), ".");
}
