use dirsync::config::ReceivePathRec;
use dirsync::config::RemoteConfigRecord;
use dirsync::config::SessionConfig;
use dirsync::debounce::Debouncer;
use dirsync::events::ChangeEvent;
use dirsync::events::FileEvent;
use dirsync::events::filter_event;
use dirsync::events::map_event;
use dirsync::syncpass::exclude_args;
use dirsync::syncpass::plan_sync_pass;
use dirsync::syncpass::session_start_hook;
use dirsync::syncpass::sync_finished_hook;

fn session_config(
    ignore_gitignore: bool,
    receive_paths: Option<Vec<&str>>,
) -> SessionConfig {
    SessionConfig {
        local_root: String::from("/home/me/project"),
        remote: RemoteConfigRecord {
            root: String::from("/srv/project"),
            host: String::from("example.com"),
            user: String::from("me"),
            receive_paths: receive_paths.map(|ps| {
                ps.into_iter().map(|p| ReceivePathRec { path: String::from(p) }).collect()
            }),
        },
        ignore_gitignore,
    }
}

#[test]
fn filter_discards_exactly_the_advisory_variants() {
    assert!(filter_event(ChangeEvent::NoticeWrite(String::from("a"))).is_none());
    assert!(filter_event(ChangeEvent::NoticeRemove(String::from("a"))).is_none());
    assert!(filter_event(ChangeEvent::Rescan).is_none());
    assert!(filter_event(ChangeEvent::Error(String::from("oops"), None)).is_none());
}

#[test]
fn filter_passes_significant_events_through_unchanged() {
    match filter_event(ChangeEvent::Create(String::from("a.txt"))) {
        Some(ChangeEvent::Create(p)) => assert_eq!(p, "a.txt"),
        _ => panic!("create must pass through"),
    }
    match filter_event(ChangeEvent::Write(String::from("b.txt"))) {
        Some(ChangeEvent::Write(p)) => assert_eq!(p, "b.txt"),
        _ => panic!("write must pass through"),
    }
    match filter_event(ChangeEvent::Chmod(String::from("c.txt"))) {
        Some(ChangeEvent::Chmod(p)) => assert_eq!(p, "c.txt"),
        _ => panic!("chmod must pass through"),
    }
    match filter_event(ChangeEvent::Remove(String::from("d.txt"))) {
        Some(ChangeEvent::Remove(p)) => assert_eq!(p, "d.txt"),
        _ => panic!("remove must pass through"),
    }
    match filter_event(ChangeEvent::Rename(String::from("d"), String::from("e"))) {
        Some(ChangeEvent::Rename(from, to)) => {
            assert_eq!(from, "d");
            assert_eq!(to, "e");
        }
        _ => panic!("rename must pass through"),
    }
}

#[test]
fn map_event_reports_significant_events_and_drops_advisory_ones() {
    assert!(map_event(ChangeEvent::Rescan).is_none());
    assert!(map_event(ChangeEvent::NoticeWrite(String::from("x"))).is_none());
    match map_event(ChangeEvent::Create(String::from("x"))) {
        Some(FileEvent::Create(p)) => assert_eq!(p, "x"),
        _ => panic!("create maps to create"),
    }
    match map_event(ChangeEvent::Rename(String::from("x"), String::from("y"))) {
        Some(FileEvent::Rename(from, to)) => {
            assert_eq!(from, "x");
            assert_eq!(to, "y");
        }
        _ => panic!("rename maps to rename"),
    }
}

#[test]
fn one_window_of_events_yields_exactly_one_pass_with_all_events() {
    let mut debouncer = Debouncer::new();
    assert!(debouncer.handle_event(ChangeEvent::Write(String::from("a.txt"))));
    assert!(!debouncer.handle_event(ChangeEvent::NoticeWrite(String::from("a.txt"))));
    assert!(debouncer.handle_event(ChangeEvent::Write(String::from("b.txt"))));
    assert!(debouncer.handle_event(ChangeEvent::Remove(String::from("c.txt"))));
    let pass = debouncer.flush().expect("a nonempty pending set starts a pass");
    assert_eq!(pass.len(), 3);
    assert!(matches!(&pass[0], ChangeEvent::Write(p) if p == "a.txt"));
    assert!(matches!(&pass[1], ChangeEvent::Write(p) if p == "b.txt"));
    assert!(matches!(&pass[2], ChangeEvent::Remove(p) if p == "c.txt"));
    assert!(debouncer.flush().is_none(), "a redundant flush signal is a no-op");
    assert!(debouncer.flush().is_none());
}

#[test]
fn events_during_a_pass_belong_to_the_next_flush() {
    let mut debouncer = Debouncer::new();
    debouncer.handle_event(ChangeEvent::Write(String::from("a.txt")));
    let first = debouncer.flush().expect("first pass");
    assert_eq!(first.len(), 1);
    debouncer.handle_event(ChangeEvent::Write(String::from("b.txt")));
    let second = debouncer.flush().expect("second pass");
    assert_eq!(second.len(), 1);
    assert!(matches!(&second[0], ChangeEvent::Write(p) if p == "b.txt"));
}

#[test]
fn exclude_rules_include_gitignore_only_when_enabled_and_present() {
    let config = session_config(true, None);
    let args = exclude_args(&config, true, false);
    assert_eq!(args, vec![String::from("--exclude-from=.gitignore")]);

    let args = exclude_args(&config, false, false);
    assert!(args.is_empty());

    let disabled = session_config(false, None);
    let args = exclude_args(&disabled, true, false);
    assert!(args.is_empty());
}

#[test]
fn exclude_rules_include_the_dedicated_exclude_file_only_when_present() {
    let config = session_config(true, None);
    let args = exclude_args(&config, false, true);
    assert_eq!(args, vec![String::from("--exclude-from=/home/me/project/.dirsync/ignore")]);
}

#[test]
fn exclude_rules_cover_each_receive_path() {
    let config = session_config(true, Some(vec!["logs", "cache"]));
    let args = exclude_args(&config, true, true);
    assert_eq!(
        args,
        vec![
            String::from("--exclude-from=.gitignore"),
            String::from("--exclude-from=/home/me/project/.dirsync/ignore"),
            String::from("--exclude=logs"),
            String::from("--exclude=cache"),
        ]
    );
}

#[test]
fn two_quick_writes_trigger_one_pass_of_control_dir_then_tree() {
    let mut debouncer = Debouncer::new();
    debouncer.handle_event(ChangeEvent::Write(String::from("b.txt")));
    debouncer.handle_event(ChangeEvent::Write(String::from("b.txt")));
    let pass = debouncer.flush().expect("one pass for the window");
    assert_eq!(pass.len(), 2);
    assert!(debouncer.flush().is_none(), "no second transfer for the same window");

    let config = session_config(true, None);
    let plan = plan_sync_pass(&config, false, false);
    assert_eq!(plan.len(), 2, "exactly one control transfer and one tree transfer");
    assert_eq!(plan[0].source, "/home/me/project/.dirsync");
    assert_eq!(plan[0].destination, "me@example.com:/srv/project");
    assert!(plan[0].args.is_empty());
    assert_eq!(plan[1].source, "/home/me/project");
    assert_eq!(plan[1].destination, "me@example.com:/srv/project");
}

#[test]
fn hook_names_match_the_control_directory_layout() {
    assert_eq!(sync_finished_hook(), "onSyncDidFinish");
    assert_eq!(session_start_hook(), "onSessionDidStart");
}

#[test]
fn a_window_of_only_advisory_events_triggers_no_pass() {
    let mut debouncer = Debouncer::new();
    assert!(!debouncer.handle_event(ChangeEvent::NoticeWrite(String::from("a"))));
    assert!(!debouncer.handle_event(ChangeEvent::Rescan));
    assert!(debouncer.flush().is_none());
}
