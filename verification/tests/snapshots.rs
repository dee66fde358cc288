use lxc::{Container, CreateFlags, Error, Mount};

fn created() -> Container {
    let mut c = Container::new("demo", None).unwrap();
    let args: Vec<String> = Vec::new();
    c.create(None, None, None, CreateFlags::empty(), &args).unwrap();
    c
}

fn running() -> Container {
    let mut c = created();
    let args: Vec<String> = Vec::new();
    c.start(false, &args).unwrap();
    c
}

#[test]
fn snapshots_are_numbered_in_creation_order() {
    let mut c = created();
    c.snapshot("/tmp/comment0").unwrap();
    c.snapshot("/tmp/comment1").unwrap();
    let list = c.snapshot_list();
    assert_eq!(list.len(), 2);
    assert_eq!(list[0].name(), "snap0");
    assert_eq!(list[1].name(), "snap1");
    assert_eq!(list[0].timestamp(), "0");
    assert_eq!(list[1].timestamp(), "1");
    assert_eq!(list[0].comment_pathname(), Some("/tmp/comment0".to_string()));
    assert_eq!(list[0].lxcpath(), "/var/lib/lxc");
}

#[test]
fn snapshot_numbering_survives_destruction() {
    let mut c = created();
    c.snapshot("/tmp/c0").unwrap();
    c.snapshot_destroy("snap0").unwrap();
    c.snapshot("/tmp/c1").unwrap();
    let list = c.snapshot_list();
    assert_eq!(list.len(), 1);
    assert_eq!(list[0].name(), "snap1");
}

#[test]
fn snapshot_needs_a_stopped_created_container() {
    let mut c = Container::new("demo", None).unwrap();
    match c.snapshot("/tmp/c").unwrap_err() {
        Error::Foreign(rec) => assert_eq!(rec.num, 2),
        other => panic!("expected a foreign error, got {:?}", other),
    }
    let mut r = running();
    match r.snapshot("/tmp/c").unwrap_err() {
        Error::Foreign(rec) => assert_eq!(rec.num, 16),
        other => panic!("expected a foreign error, got {:?}", other),
    }
}

#[test]
fn snapshot_restore_and_destroy() {
    let mut c = created();
    c.snapshot("/tmp/c0").unwrap();
    c.snapshot_restore("snap0", "demo-copy").unwrap();
    assert!(c.snapshot_restore("snap9", "demo-copy").is_err());
    c.snapshot_destroy("snap0").unwrap();
    assert!(c.snapshot_destroy("snap0").is_err());
    assert!(c.snapshot_list().is_empty());
}

#[test]
fn destroy_with_snapshots_clears_both() {
    let mut c = created();
    c.snapshot("/tmp/c0").unwrap();
    c.snapshot("/tmp/c1").unwrap();
    c.destroy_with_snapshots().unwrap();
    assert!(!c.is_defined());
    assert!(c.snapshot_list().is_empty());
}

#[test]
fn snapshot_destroy_all_clears_the_list() {
    let mut c = created();
    c.snapshot("/tmp/c0").unwrap();
    c.snapshot("/tmp/c1").unwrap();
    c.snapshot_destroy_all().unwrap();
    assert!(c.snapshot_list().is_empty());
    assert!(c.is_defined());
}

#[test]
fn clone_copies_name_path_and_configuration() {
    let mut c = created();
    c.set_config_item("lxc.arch", "amd64").unwrap();
    let hookargs: Vec<String> = Vec::new();
    let mut copy = c
        .clone("demo-copy", "/srv/lxc", 0, "dir", "", 0, &hookargs)
        .unwrap();
    assert!(copy.is_defined());
    assert!(!copy.is_running());
    assert_eq!(copy.config_path(), "/srv/lxc");
    assert_eq!(copy.config_file_name(), "/srv/lxc/demo-copy/config");
    assert_eq!(copy.get_config_item("lxc.arch").unwrap(), Some("amd64".to_string()));
    copy.destroy().unwrap();
}

#[test]
fn clone_needs_a_stopped_created_container() {
    let mut c = running();
    let hookargs: Vec<String> = Vec::new();
    match c.clone("copy", "/srv/lxc", 0, "dir", "", 0, &hookargs).unwrap_err() {
        Error::Foreign(rec) => assert_eq!(rec.num, 16),
        other => panic!("expected a foreign error, got {:?}", other),
    }
}

#[test]
fn console_calls_need_a_running_container() {
    let mut c = created();
    let mut ttynum = -1;
    let mut ptxfd = -1;
    assert!(c.console_getfd(&mut ttynum, &mut ptxfd).is_err());
    assert_eq!(ttynum, -1);
    let args: Vec<String> = Vec::new();
    c.start(false, &args).unwrap();
    c.console_getfd(&mut ttynum, &mut ptxfd).unwrap();
    assert_eq!(ttynum, 1);
    assert_eq!(ptxfd, 3);
    c.console(ttynum, 0, 1, 2, 1).unwrap();
}

#[test]
fn attach_run_wait_reports_the_exit_status() {
    let mut c = running();
    let opts = lxc::attach::Options::default();
    let argv = vec!["uname".to_string(), "-a".to_string()];
    let status = c.attach_run_wait(&opts, "/bin/uname", &argv).unwrap();
    assert_eq!(status, 0);
    c.stop().unwrap();
    assert!(c.attach_run_wait(&opts, "/bin/uname", &argv).is_err());
}

#[test]
fn device_nodes_need_a_running_container() {
    let mut c = running();
    c.add_device_node("/dev/fuse", None).unwrap();
    c.add_device_node("/dev/net/tun", Some("/dev/tun")).unwrap();
    c.remove_device_node("/dev/fuse", None).unwrap();
    c.stop().unwrap();
    assert!(c.add_device_node("/dev/fuse", None).is_err());
}

#[test]
fn checkpoint_and_restore() {
    let mut c = running();
    c.checkpoint("/tmp/ckpt", true, false).unwrap();
    assert!(!c.is_running());
    c.restore("/tmp/ckpt", false).unwrap();
    assert!(c.is_running());
    c.checkpoint("/tmp/ckpt2", false, true).unwrap();
    assert!(c.is_running());
}

#[test]
fn migrate_commands() {
    let mut c = running();
    let opts = lxc::migrate::Opts {
        directory: "/tmp/migrate".to_string(),
        verbose: false,
        stop: false,
        predump_dir: None,
        pageserver_address: None,
        pageserver_port: None,
        preserves_inodes: false,
        action_script: None,
        disable_skip_in_flight: false,
        ghost_limit: 0,
        features_to_check: 0,
    };
    c.migrate(3, &opts).unwrap();
    c.migrate(0, &opts).unwrap();
    c.migrate(1, &opts).unwrap();
    assert!(c.migrate(2, &opts).is_err());
    c.stop().unwrap();
    c.migrate(2, &opts).unwrap();
    assert!(c.is_running());
    assert!(c.migrate(9, &opts).is_err());
}

#[test]
fn console_log_reads_empty_model_buffer() {
    let mut c = running();
    let mut log = lxc::console::Log { clear: false, read: true, read_max: 0, data: "x".to_string() };
    c.console_log(&mut log).unwrap();
    assert_eq!(log.data, "");
    c.stop().unwrap();
    assert!(c.console_log(&mut log).is_err());
}

#[test]
fn mount_needs_a_running_container_and_clean_paths() {
    let mut c = running();
    let mut mnt = Mount::new(0);
    c.mount("/srv/data", "/mnt/data", "ext4", 0, None, &mut mnt).unwrap();
    c.mount("/srv/data", "/mnt/data", "ext4", 0, Some("ro"), &mut mnt).unwrap();
    assert_eq!(
        c.mount("/srv/\0data", "/mnt/data", "ext4", 0, None, &mut mnt).unwrap_err(),
        Error::Encoding
    );
    c.stop().unwrap();
    assert!(c.mount("/srv/data", "/mnt/data", "ext4", 0, None, &mut mnt).is_err());
}

#[test]
fn umount_needs_a_running_container() {
    let mut c = running();
    let mut mnt = Mount::new(0);
    c.umount("/mnt/data", 0, &mut mnt).unwrap();
    assert_eq!(mnt.version(), 0);
    c.stop().unwrap();
    assert!(c.umount("/mnt/data", 0, &mut mnt).is_err());
}

#[test]
fn descriptor_queries_follow_the_running_state() {
    let mut c = created();
    assert_eq!(c.seccomp_notify_fd(), -1);
    assert_eq!(c.init_pidfd(), -1);
    assert_eq!(c.devpts_fd(), -1);
    let args: Vec<String> = Vec::new();
    c.start(false, &args).unwrap();
    assert_eq!(c.seccomp_notify_fd(), 5);
    assert_eq!(c.seccomp_notify_fd_active(), 5);
    assert_eq!(c.init_pidfd(), 6);
    assert_eq!(c.devpts_fd(), 7);
}
