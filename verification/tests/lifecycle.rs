use lxc::{Container, CreateFlags, Error};

fn demo_args() -> Vec<String> {
    vec![
        "-d".to_string(),
        "alpine".to_string(),
        "-r".to_string(),
        "3.14".to_string(),
        "-a".to_string(),
        "amd64".to_string(),
    ]
}

#[test]
fn construct_then_release_is_one_release_and_no_error_read() {
    let c = Container::new("demo", None).unwrap();
    let report = c.put();
    assert_eq!(report.releases, 1);
    assert_eq!(report.error_reads, 0);
    assert_eq!(report.refs_left, 0);
}

#[test]
fn create_scenario() {
    let mut c = Container::new("demo", None).unwrap();
    assert!(!c.is_defined());
    c.create(Some("download"), None, None, CreateFlags::quiet(), &demo_args()).unwrap();
    assert!(c.is_defined());
    c.destroy().unwrap();
    assert!(!c.is_defined());
}

#[test]
fn construction_rejects_bad_names() {
    assert_eq!(Container::new("", None).unwrap_err(), Error::Construction);
    assert_eq!(Container::new("a/b", None).unwrap_err(), Error::Construction);
    assert_eq!(Container::new("de\0mo", None).unwrap_err(), Error::Encoding);
    assert_eq!(Container::new("demo", Some("p\0ath")).unwrap_err(), Error::Encoding);
    assert_eq!(Container::new("demo", Some("")).unwrap_err(), Error::Construction);
}

#[test]
fn construction_defaults() {
    let c = Container::new("demo", None).unwrap();
    assert_eq!(c.config_path(), "/var/lib/lxc");
    assert_eq!(c.config_file_name(), "/var/lib/lxc/demo/config");
    assert!(!c.is_running());
    assert!(!c.daemonize());
    assert_eq!(c.state(), "STOPPED");
    assert_eq!(c.init_pid(), -1);
    assert_eq!(c.error_num(), 0);
    assert_eq!(c.error_string(), "");
}

#[test]
fn construction_with_explicit_path() {
    let c = Container::new("demo", Some("/srv/lxc")).unwrap();
    assert_eq!(c.config_path(), "/srv/lxc");
    assert_eq!(c.config_file_name(), "/srv/lxc/demo/config");
}

#[test]
fn failing_call_then_last_error_is_not_success() {
    let mut c = Container::new("demo", None).unwrap();
    let err = c.freeze().unwrap_err();
    match err {
        Error::Foreign(rec) => {
            assert_ne!(rec.num, 0);
            assert_eq!(rec.message, "the container is not running");
            let again = c.last_error();
            assert_eq!(again.num, rec.num);
            assert_eq!(again.message, rec.message);
        },
        other => panic!("expected a foreign error, got {:?}", other),
    }
}

#[test]
fn succeeding_call_needs_no_error_read() {
    let mut c = Container::new("demo", None).unwrap();
    c.want_daemonize(true).unwrap();
    assert!(c.daemonize());
    c.want_close_all_fds(true).unwrap();
    // Success left the error fields alone.
    assert_eq!(c.error_num(), 0);
    let report = c.put();
    assert_eq!(report.error_reads, 0);
}

#[test]
fn start_stop_freeze_cycle() {
    let mut c = Container::new("demo", None).unwrap();
    c.create(Some("download"), None, None, CreateFlags::quiet(), &demo_args()).unwrap();
    let no_args: Vec<String> = Vec::new();
    c.start(false, &no_args).unwrap();
    assert!(c.is_running());
    assert_eq!(c.state(), "RUNNING");
    assert_eq!(c.init_pid(), 1);
    c.freeze().unwrap();
    assert_eq!(c.state(), "FROZEN");
    c.unfreeze().unwrap();
    assert_eq!(c.state(), "RUNNING");
    c.stop().unwrap();
    assert!(!c.is_running());
    assert_eq!(c.state(), "STOPPED");
    assert_eq!(c.init_pid(), -1);
}

#[test]
fn start_needs_a_created_container() {
    let mut c = Container::new("demo", None).unwrap();
    let no_args: Vec<String> = Vec::new();
    match c.start(false, &no_args).unwrap_err() {
        Error::Foreign(rec) => assert_eq!(rec.num, 2),
        other => panic!("expected a foreign error, got {:?}", other),
    }
}

#[test]
fn create_twice_reports_exists() {
    let mut c = Container::new("demo", None).unwrap();
    let args: Vec<String> = Vec::new();
    c.create(None, None, None, CreateFlags::empty(), &args).unwrap();
    match c.create(None, None, None, CreateFlags::empty(), &args).unwrap_err() {
        Error::Foreign(rec) => {
            assert_eq!(rec.num, 17);
            assert_eq!(rec.message, "the container already exists");
        },
        other => panic!("expected a foreign error, got {:?}", other),
    }
}

#[test]
fn destroy_running_container_is_refused() {
    let mut c = Container::new("demo", None).unwrap();
    let args: Vec<String> = Vec::new();
    c.create(None, None, None, CreateFlags::empty(), &args).unwrap();
    c.start(false, &args).unwrap();
    match c.destroy().unwrap_err() {
        Error::Foreign(rec) => assert_eq!(rec.num, 16),
        other => panic!("expected a foreign error, got {:?}", other),
    }
}

#[test]
fn wait_matches_only_current_state() {
    let mut c = Container::new("demo", None).unwrap();
    c.wait("STOPPED", 5).unwrap();
    match c.wait("RUNNING", 5).unwrap_err() {
        Error::Foreign(rec) => assert_eq!(rec.num, 62),
        other => panic!("expected a foreign error, got {:?}", other),
    }
}

#[test]
fn shutdown_and_reboot() {
    let mut c = Container::new("demo", None).unwrap();
    let args: Vec<String> = Vec::new();
    c.create(None, None, None, CreateFlags::empty(), &args).unwrap();
    c.start(false, &args).unwrap();
    c.reboot().unwrap();
    assert!(c.is_running());
    c.reboot2(10).unwrap();
    c.shutdown(10).unwrap();
    assert!(!c.is_running());
    assert!(c.reboot().is_err());
}

#[test]
fn rename_works_only_stopped_and_renames_config_file() {
    let mut c = Container::new("demo", None).unwrap();
    let args: Vec<String> = Vec::new();
    c.create(None, None, None, CreateFlags::empty(), &args).unwrap();
    c.rename("fresh").unwrap();
    assert_eq!(c.config_file_name(), "/var/lib/lxc/fresh/config");
    match c.rename("bad/name").unwrap_err() {
        Error::Foreign(rec) => assert_eq!(rec.num, 22),
        other => panic!("expected a foreign error, got {:?}", other),
    }
}

#[test]
fn load_and_save_config() {
    let mut c = Container::new("demo", None).unwrap();
    c.load_config("/etc/lxc/alt.conf").unwrap();
    assert_eq!(c.config_file_name(), "/etc/lxc/alt.conf");
    c.save_config("/tmp/out.conf").unwrap();
    assert_eq!(c.save_config("bad\0path").unwrap_err(), Error::Encoding);
}

#[test]
fn reference_counting() {
    let mut c = Container::new("demo", None).unwrap();
    c.get().unwrap();
    c.get().unwrap();
    let report = c.put();
    assert_eq!(report.refs_left, 2);
    assert_eq!(report.releases, 1);
}

#[test]
fn set_timeout_accepts_minus_one() {
    let mut c = Container::new("demo", None).unwrap();
    c.set_timeout(-1).unwrap();
    c.set_timeout(30).unwrap();
    assert!(c.set_timeout(-2).is_err());
}

#[test]
fn may_control_holds_for_the_owner() {
    let c = Container::new("demo", None).unwrap();
    assert!(c.may_control());
}

#[test]
fn error_describe_texts() {
    assert_eq!(
        Error::Encoding.describe(),
        "text is not representable at the foreign boundary"
    );
    assert_eq!(
        Error::Construction.describe(),
        "the native factory returned an invalid handle"
    );
    let mut c = Container::new("demo", None).unwrap();
    let err = c.stop().unwrap_err();
    assert_eq!(err.describe(), "the container is not running");
}
