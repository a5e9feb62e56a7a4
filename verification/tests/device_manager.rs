use device_hub::device::{DeviceSpec, FileSystem};
use device_hub::device_manager::DeviceManager;

fn spec(ip: &str, os: &str, version: &str, port: &str) -> DeviceSpec {
    DeviceSpec {
        ip: ip.to_string(),
        os: os.to_string(),
        os_version: version.to_string(),
        listen_port: port.to_string(),
    }
}

#[test]
fn new_manager_is_empty() {
    let dm = DeviceManager::new();
    assert!(dm.get_device_spec(1).is_none());
    assert!(dm.get_device_fs(1).is_none());
    assert!(dm.spec_ids().is_empty());
    assert!(dm.fs_ids().is_empty());
}

#[test]
fn spec_read_after_write() {
    let mut dm = DeviceManager::new();
    dm.add_device_spec(7, spec("10.0.0.2", "Linux", "22.04", "8080"));
    let got = dm.get_device_spec(7).unwrap();
    assert_eq!(got.ip, "10.0.0.2");
    assert_eq!(got.os, "Linux");
    assert_eq!(got.os_version, "22.04");
    assert_eq!(got.listen_port, "8080");
    assert!(dm.get_device_spec(8).is_none());
    assert!(dm.get_device_fs(7).is_none());
}

#[test]
fn spec_last_write_wins() {
    let mut dm = DeviceManager::new();
    dm.add_device_spec(7, spec("a", "b", "c", "1"));
    dm.add_device_spec(7, spec("x", "y", "z", "2"));
    assert_eq!(dm.get_device_spec(7).unwrap().ip, "x");
    assert_eq!(dm.spec_ids(), vec![7]);
}

#[test]
fn fs_read_after_write() {
    let mut dm = DeviceManager::new();
    let mut fs = FileSystem::new("/home/u/public".to_string());
    fs.entries.push("/home/u/public/a.txt".to_string());
    dm.add_device_fs(3, fs);
    let got = dm.get_device_fs(3).unwrap();
    assert_eq!(got.root, "/home/u/public");
    assert_eq!(got.entries, vec!["/home/u/public/a.txt".to_string()]);
    assert!(dm.get_device_spec(3).is_none());
}

#[test]
fn delete_reports_presence() {
    let mut dm = DeviceManager::new();
    assert!(!dm.delete_device_spec(5));
    assert!(!dm.delete_device_fs(5));
    dm.add_device_spec(5, spec("a", "b", "c", "1"));
    dm.add_device_fs(5, FileSystem::new("/r".to_string()));
    assert!(dm.delete_device_spec(5));
    assert!(dm.get_device_spec(5).is_none());
    assert!(dm.get_device_fs(5).is_some());
    assert!(!dm.delete_device_spec(5));
    assert!(dm.delete_device_fs(5));
    assert!(dm.get_device_fs(5).is_none());
}

#[test]
fn ids_listed_smallest_first() {
    let mut dm = DeviceManager::new();
    for id in [u128::MAX, 40, 3, 1 << 100, 0] {
        dm.add_device_spec(id, spec("ip", "os", "v", "1"));
    }
    dm.add_device_fs(9, FileSystem::new("/a".to_string()));
    dm.add_device_fs(2, FileSystem::new("/b".to_string()));
    assert_eq!(dm.spec_ids(), vec![0, 3, 40, 1 << 100, u128::MAX]);
    assert_eq!(dm.fs_ids(), vec![2, 9]);
}

#[test]
fn nth_selects_by_id_order() {
    let mut dm = DeviceManager::new();
    dm.add_device_spec(30, spec("c", "os", "v", "1"));
    dm.add_device_spec(10, spec("a", "os", "v", "1"));
    dm.add_device_spec(20, spec("b", "os", "v", "1"));
    dm.add_device_fs(99, FileSystem::new("/z".to_string()));
    dm.add_device_fs(11, FileSystem::new("/y".to_string()));
    assert_eq!(dm.spec_count(), 3);
    assert_eq!(dm.fs_count(), 2);
    assert_eq!(dm.nth_device_spec(0).ip, "a");
    assert_eq!(dm.nth_device_spec(1).ip, "b");
    assert_eq!(dm.nth_device_spec(2).ip, "c");
    assert_eq!(dm.nth_device_fs(0).root, "/y");
    assert_eq!(dm.nth_device_fs(1).root, "/z");
}

#[test]
fn device_spec_local_leaves_ip_empty() {
    let s = DeviceSpec::local("Darwin".to_string(), "14.1".to_string(), 7070);
    assert_eq!(s.ip, "");
    assert_eq!(s.os, "Darwin");
    assert_eq!(s.os_version, "14.1");
    assert_eq!(s.listen_port, "7070");
    assert_eq!(DeviceSpec::local(String::new(), String::new(), 0).listen_port, "0");
    assert_eq!(DeviceSpec::local(String::new(), String::new(), u16::MAX).listen_port, "65535");
}

#[test]
fn file_system_new_has_no_entries() {
    let fs = FileSystem::new("/data".to_string());
    assert_eq!(fs.root, "/data");
    assert!(fs.entries.is_empty());
}

#[test]
fn paired_registration_keeps_key_sets_equal() {
    let mut dm = DeviceManager::new();
    for id in [4u128, 1, 9] {
        dm.add_device_spec(id, spec("ip", "os", "v", "1"));
        dm.add_device_fs(id, FileSystem::new("/r".to_string()));
        assert_eq!(dm.spec_ids(), dm.fs_ids());
    }
    assert!(dm.delete_device_spec(1));
    assert!(dm.delete_device_fs(1));
    assert_eq!(dm.spec_ids(), vec![4, 9]);
    assert_eq!(dm.spec_ids(), dm.fs_ids());
}
