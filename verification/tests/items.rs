use lxc::{to_foreign, Container, CreateFlags, Error, NativeContainer};

fn created() -> Container {
    let mut c = Container::new("demo", None).unwrap();
    let args: Vec<String> = Vec::new();
    c.create(None, None, None, CreateFlags::empty(), &args).unwrap();
    c
}

fn running() -> Container {
    let mut c = created();
    let args: Vec<String> = Vec::new();
    c.start(false, &args).unwrap();
    c
}

#[test]
fn two_call_size_query_missing_key_is_minus_one() {
    let name = to_foreign("demo").unwrap();
    let native = NativeContainer::new(&name, None).unwrap();
    let key = to_foreign("lxc.unset").unwrap();
    let (size, bytes) = native.get_config_item(&key, 0);
    assert_eq!(size, -1);
    assert!(bytes.is_empty());
}

#[test]
fn two_call_size_query_present_key() {
    let name = to_foreign("demo").unwrap();
    let mut native = NativeContainer::new(&name, None).unwrap();
    let key = to_foreign("lxc.arch").unwrap();
    let value = to_foreign("amd64").unwrap();
    assert!(native.set_config_item(&key, &value));
    // First call, no buffer: the size of the value, terminator excluded.
    let (size, probe) = native.get_config_item(&key, 0);
    assert_eq!(size, 5);
    assert!(probe.is_empty());
    // Second call, capacity size + 1: the value's bytes plus terminator.
    let (size2, bytes) = native.get_config_item(&key, (size as usize) + 1);
    assert_eq!(size2, 5);
    assert_eq!(bytes, vec![b'a', b'm', b'd', b'6', b'4', 0]);
    // A buffer without room for the terminator receives nothing.
    let (size3, short) = native.get_config_item(&key, size as usize);
    assert_eq!(size3, 5);
    assert!(short.is_empty());
}

#[test]
fn config_items_set_get_clear() {
    let mut c = created();
    assert_eq!(c.get_config_item("lxc.arch").unwrap(), None);
    c.set_config_item("lxc.arch", "amd64").unwrap();
    c.set_config_item("lxc.uts.name", "demo").unwrap();
    assert_eq!(c.get_config_item("lxc.arch").unwrap(), Some("amd64".to_string()));
    c.set_config_item("lxc.arch", "arm64").unwrap();
    assert_eq!(c.get_config_item("lxc.arch").unwrap(), Some("arm64".to_string()));
    c.clear_config_item("lxc.arch").unwrap();
    assert_eq!(c.get_config_item("lxc.arch").unwrap(), None);
    assert_eq!(c.get_config_item("lxc.uts.name").unwrap(), Some("demo".to_string()));
    match c.clear_config_item("lxc.arch").unwrap_err() {
        Error::Foreign(rec) => assert_eq!(rec.num, 2),
        other => panic!("expected a foreign error, got {:?}", other),
    }
    assert_eq!(c.get_config_item("lxc\0arch").unwrap_err(), Error::Encoding);
    assert_eq!(c.set_config_item("k", "v\0").unwrap_err(), Error::Encoding);
}

#[test]
fn config_values_round_trip_multibyte_text() {
    let mut c = created();
    let value = "caf\u{00e9} \u{2603}";
    c.set_config_item("lxc.uts.name", value).unwrap();
    assert_eq!(c.get_config_item("lxc.uts.name").unwrap(), Some(value.to_string()));
    // The stored byte length is the UTF-8 length, not the character count.
    let name = to_foreign("demo").unwrap();
    let mut native = NativeContainer::new(&name, None).unwrap();
    let key = to_foreign("k").unwrap();
    let val = to_foreign(value).unwrap();
    assert!(native.set_config_item(&key, &val));
    let (size, _) = native.get_config_item(&key, 0);
    assert_eq!(size, value.len() as i32);
    assert_eq!(value.len(), 9);
}

#[test]
fn clear_config_drops_everything() {
    let mut c = created();
    c.set_config_item("lxc.arch", "amd64").unwrap();
    c.set_config_item("lxc.uts.name", "demo").unwrap();
    c.clear_config();
    assert_eq!(c.get_config_item("lxc.arch").unwrap(), None);
    assert_eq!(c.get_config_item("lxc.uts.name").unwrap(), None);
}

#[test]
fn get_keys_lists_by_prefix_in_order() {
    let mut c = created();
    c.set_config_item("lxc.net.0.type", "veth").unwrap();
    c.set_config_item("lxc.arch", "amd64").unwrap();
    c.set_config_item("lxc.net.0.link", "br0").unwrap();
    let keys = c.get_keys("lxc.net.").unwrap();
    assert_eq!(keys, "lxc.net.0.type\nlxc.net.0.link\n");
    let all = c.get_keys("").unwrap();
    assert_eq!(all, "lxc.net.0.type\nlxc.arch\nlxc.net.0.link\n");
    let none = c.get_keys("lxc.cgroup").unwrap();
    assert_eq!(none, "");
}

#[test]
fn running_config_item_needs_a_running_container() {
    let mut c = created();
    c.set_config_item("lxc.arch", "amd64").unwrap();
    match c.get_running_config_item("lxc.arch").unwrap_err() {
        Error::Foreign(rec) => assert_eq!(rec.num, 3),
        other => panic!("expected a foreign error, got {:?}", other),
    }
    let args: Vec<String> = Vec::new();
    c.start(false, &args).unwrap();
    assert_eq!(c.get_running_config_item("lxc.arch").unwrap(), "amd64");
    match c.get_running_config_item("lxc.other").unwrap_err() {
        Error::Foreign(rec) => assert_eq!(rec.num, 2),
        other => panic!("expected a foreign error, got {:?}", other),
    }
}

#[test]
fn cgroup_items_exist_only_while_running() {
    let mut c = created();
    assert!(c.set_cgroup_item("memory.max", "1G").is_err());
    let args: Vec<String> = Vec::new();
    c.start(false, &args).unwrap();
    c.set_cgroup_item("memory.max", "1G").unwrap();
    assert_eq!(c.get_cgroup_item("memory.max").unwrap(), Some("1G".to_string()));
    assert_eq!(c.get_cgroup_item("cpu.max").unwrap(), None);
    c.stop().unwrap();
    // The cgroup is gone with the processes.
    assert_eq!(c.get_cgroup_item("memory.max").unwrap(), None);
}

#[test]
fn config_path_can_move() {
    let mut c = created();
    assert_eq!(c.get_config_path(), "/var/lib/lxc");
    c.set_config_path("/srv/lxc").unwrap();
    assert_eq!(c.get_config_path(), "/srv/lxc");
    assert_eq!(c.set_config_path("a\0b").unwrap_err(), Error::Encoding);
}

#[test]
fn interfaces_follow_attach_and_detach() {
    let mut c = running();
    assert!(c.get_interfaces().is_empty());
    c.attach_interface("eth7", "eth0").unwrap();
    c.attach_interface("eth8", "eth1").unwrap();
    assert_eq!(c.get_interfaces(), vec!["eth0".to_string(), "eth1".to_string()]);
    c.detach_interface("eth0", "eth7").unwrap();
    assert_eq!(c.get_interfaces(), vec!["eth1".to_string()]);
    match c.detach_interface("eth0", "eth7").unwrap_err() {
        Error::Foreign(rec) => assert_eq!(rec.num, 2),
        other => panic!("expected a foreign error, got {:?}", other),
    }
}

#[test]
fn interfaces_on_stopped_container_are_empty() {
    let mut c = created();
    assert!(c.get_interfaces().is_empty());
    assert_ne!(c.error_num(), 0);
}
