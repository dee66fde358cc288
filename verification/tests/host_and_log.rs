use lxc::log::{Level, Log};
use lxc::{
    get_global_config_item, get_lxc_path, list_active_containers, list_all_containers,
    list_defined_containers, version, wait_states, AttchFlags, CloneFlags, CreateFlags, Error,
    Host,
};

fn sample_host() -> Host {
    let mut h = Host::new("5.0.3").unwrap();
    h.set_global_config_item("lxc.lxcpath", "/var/lib/lxc").unwrap();
    h.register("alpha", "/var/lib/lxc", true, true).unwrap();
    h.register("beta", "/var/lib/lxc", true, false).unwrap();
    h.register("gamma", "/srv/lxc", true, true).unwrap();
    h.register("ghost", "/var/lib/lxc", false, true).unwrap();
    h
}

#[test]
fn version_string_round_trips() {
    let h = Host::new("5.0.3").unwrap();
    assert_eq!(version(&h), "5.0.3");
    assert_eq!(Host::new("5\0.0").unwrap_err(), Error::Encoding);
}

#[test]
fn global_config_lookup() {
    let h = sample_host();
    assert_eq!(
        get_global_config_item(&h, "lxc.lxcpath"),
        Some("/var/lib/lxc".to_string())
    );
    assert_eq!(get_global_config_item(&h, "lxc.unknown"), None);
    assert_eq!(get_global_config_item(&h, "lxc\0path"), None);
}

#[test]
fn lxc_path_is_the_global_key() {
    let h = sample_host();
    assert_eq!(get_lxc_path(&h), Some("/var/lib/lxc".to_string()));
    let empty = Host::new("5.0.3").unwrap();
    assert_eq!(get_lxc_path(&empty), None);
}

#[test]
fn wait_states_lists_the_documented_names() {
    let states = wait_states();
    assert_eq!(
        states,
        vec![
            "STOPPED", "STARTING", "RUNNING", "STOPPING", "ABORTING", "FREEZING", "FROZEN",
            "THAWED"
        ]
    );
}

#[test]
fn listings_select_by_path_and_state() {
    let h = sample_host();
    assert_eq!(
        list_all_containers(&h, "/var/lib/lxc").unwrap(),
        vec!["alpha".to_string(), "beta".to_string(), "ghost".to_string()]
    );
    assert_eq!(
        list_active_containers(&h, "/var/lib/lxc").unwrap(),
        vec!["alpha".to_string(), "ghost".to_string()]
    );
    assert_eq!(
        list_defined_containers(&h, "/var/lib/lxc").unwrap(),
        vec!["alpha".to_string(), "beta".to_string()]
    );
    assert_eq!(list_all_containers(&h, "/srv/lxc").unwrap(), vec!["gamma".to_string()]);
    assert!(list_all_containers(&h, "/elsewhere").unwrap().is_empty());
    assert_eq!(list_all_containers(&h, "/bad\0path").unwrap_err(), Error::Encoding);
}

#[test]
fn log_levels_have_their_native_names() {
    assert_eq!(Level::Trace.as_str(), "TRACE");
    assert_eq!(Level::Debug.as_str(), "DEBUG");
    assert_eq!(Level::Info.as_str(), "INFO");
    assert_eq!(Level::Notice.as_str(), "NOTICE");
    assert_eq!(Level::Warn.as_str(), "WARN");
    assert_eq!(Level::Error.as_str(), "ERROR");
    assert_eq!(Level::Crit.as_str(), "CRIT");
    assert_eq!(Level::Alert.as_str(), "ALERT");
    assert_eq!(Level::Fatal.as_str(), "FATAL");
    assert_eq!(Level::Notset.as_str(), "NOTSET");
}

#[test]
fn log_init_checks_every_string_member() {
    let ok = Log {
        name: "demo".to_string(),
        lxcpath: "/var/lib/lxc".to_string(),
        file: "/var/log/lxc/demo.log".to_string(),
        level: Level::Info,
        prefix: "demo".to_string(),
        quiet: false,
    };
    assert!(ok.init().is_ok());
    let bad = Log {
        name: "de\0mo".to_string(),
        lxcpath: "/var/lib/lxc".to_string(),
        file: "/var/log/lxc/demo.log".to_string(),
        level: Level::Info,
        prefix: "demo".to_string(),
        quiet: true,
    };
    match bad.init().unwrap_err() {
        Error::Foreign(rec) => {
            assert_eq!(rec.num, -1);
            assert_eq!(rec.message, "failed to initialize the log");
        },
        other => panic!("expected a foreign error, got {:?}", other),
    }
}

#[test]
fn flag_words_carry_the_native_bits() {
    assert_eq!(CreateFlags::quiet().bits(), 1);
    assert_eq!(CreateFlags::maxflags().bits(), 2);
    assert_eq!(CreateFlags::quiet().union(CreateFlags::maxflags()).bits(), 3);
    assert_eq!(CloneFlags::keepname().bits(), 1);
    assert_eq!(CloneFlags::keepmacaddr().bits(), 2);
    assert_eq!(CloneFlags::snapshot().bits(), 4);
    assert_eq!(CloneFlags::keepbdevtype().bits(), 8);
    assert_eq!(CloneFlags::maybe_snapshot().bits(), 16);
    assert_eq!(CloneFlags::maxflags().bits(), 32);
    assert_eq!(AttchFlags::move_to_cgroup().bits(), 0x1);
    assert_eq!(AttchFlags::drop_capabilities().bits(), 0x2);
    assert_eq!(AttchFlags::set_personality().bits(), 0x4);
    assert_eq!(AttchFlags::lsm_exec().bits(), 0x8);
    assert_eq!(AttchFlags::remount_proc_sys().bits(), 0x10000);
    assert_eq!(AttchFlags::lsm_now().bits(), 0x20000);
    assert_eq!(AttchFlags::no_new_privs().bits(), 0x40000);
    assert_eq!(AttchFlags::terminal().bits(), 0x80000);
    assert_eq!(AttchFlags::default_mask().bits(), 0xFFFF);
}

#[test]
fn attach_options_defaults_match_the_native_header() {
    let o = lxc::attach::Options::default();
    assert_eq!(o.attach_flags, 0xFFFF);
    assert_eq!(o.namespaces, -1);
    assert_eq!(o.personality, -1);
    assert_eq!(o.uid, u32::MAX);
    assert_eq!(o.gid, u32::MAX);
    assert_eq!(o.env_policy, lxc::attach::EnvPolicy::keep_env());
    assert_eq!(o.stdout_fd, 0);
    assert_eq!(o.stdin_fd, 1);
    assert_eq!(o.stderr_fd, 2);
    assert_eq!(o.log_fd, -9);
    assert!(o.initial_cwd.is_none());
    assert!(o.lsm_label.is_none());
    assert!(o.extra_env_vars.is_empty());
    assert!(o.extra_keep_env.is_empty());
    assert!(o.groups.is_empty());
}
