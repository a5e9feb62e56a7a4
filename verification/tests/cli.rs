use device_hub::cli::{
    action_number, action_of, device_list, menu_actions, Action, device_number, group_choice, left_group, indented, needs_refresh, peer_address, requested_file_name,
    selected_index, Cli, GroupChoice, SyncEvent,
};
use device_hub::device::DeviceSpec;
use device_hub::device_manager::DeviceManager;
use uuid::Uuid;

fn spec(ip: &str, os: &str, version: &str, port: &str) -> DeviceSpec {
    DeviceSpec {
        ip: ip.to_string(),
        os: os.to_string(),
        os_version: version.to_string(),
        listen_port: port.to_string(),
    }
}

#[test]
fn group_choice_answers() {
    assert_eq!(group_choice("y\n"), GroupChoice::Join);
    assert_eq!(group_choice("  Y \r\n"), GroupChoice::Join);
    assert_eq!(group_choice("n\n"), GroupChoice::Create);
    assert_eq!(group_choice("N"), GroupChoice::Create);
    assert_eq!(group_choice("yes\n"), GroupChoice::Retry);
    assert_eq!(group_choice("\n"), GroupChoice::Retry);
    assert_eq!(group_choice("x"), GroupChoice::Retry);
}

#[test]
fn group_choice_agrees_with_lowercase() {
    for u in 0u32..=0x10FFFF {
        if let Some(c) = char::from_u32(u) {
            let s = c.to_string();
            let lower = s.trim().to_lowercase();
            let expected = if lower == "n" {
                GroupChoice::Create
            } else if lower == "y" {
                GroupChoice::Join
            } else {
                GroupChoice::Retry
            };
            assert_eq!(group_choice(&s), expected, "{:#x}", u);
        }
    }
}

#[test]
fn new_cli_has_nil_group_and_v4_id() {
    let c = Cli::new("http://127.0.0.1:3000".to_string(), 9000, "/tmp".to_string());
    assert_eq!(c.device_manager_id(), 0);
    assert_eq!(c.network().listen_port, 9000);
    assert_eq!(c.master_addr(), "http://127.0.0.1:3000");
    let id = Uuid::from_u128(c.device_uuid());
    assert_eq!(id.get_version_num(), 4);
    assert_eq!(id.get_variant(), uuid::Variant::RFC4122);
}

#[test]
fn join_group_reads_uuid() {
    let mut c = Cli::with_device_id("http://m".to_string(), 1, "/s".to_string(), 5);
    let text = "550e8400-e29b-41d4-a716-446655440000";
    let got = c.join_group(&format!("  {}\n", text));
    let expected = Uuid::parse_str(text).unwrap().as_u128();
    assert_eq!(got, expected);
    assert_eq!(c.device_manager_id(), expected);
    assert_eq!(c.device_uuid(), 5);
}

#[test]
fn join_group_rejects_bad_uuid() {
    let mut c = Cli::with_device_id("http://m".to_string(), 1, "/s".to_string(), 5);
    c.enter(77);
    assert_eq!(c.try_join_group("not-a-uuid\n"), None);
    assert_eq!(c.device_manager_id(), 77);
    let braced = "{a1a2a3a4-b1b2-c1c2-d1d2-d3d4d5d6d7d8}";
    assert_eq!(c.try_join_group(braced), Some(0xa1a2a3a4b1b2c1c2d1d2d3d4d5d6d7d8));
    assert_eq!(c.device_manager_id(), 0xa1a2a3a4b1b2c1c2d1d2d3d4d5d6d7d8);
}

#[test]
fn websocket_url_from_http_address() {
    let mut c = Cli::with_device_id("http://10.1.2.3:8000".to_string(), 1, "/s".to_string(), 5);
    let group = Uuid::parse_str("a1a2a3a4-b1b2-c1c2-d1d2-d3d4d5d6d7d8").unwrap().as_u128();
    c.enter(group);
    let spec_id = 0x0123456789abcdef0011223344556677u128;
    let expected = "ws://10.1.2.3:8000/ws/a1a2a3a4-b1b2-c1c2-d1d2-d3d4d5d6d7d8/01234567-89ab-cdef-0011-223344556677";
    assert_eq!(c.websocket_url(spec_id), expected);
    assert_eq!(c.checked_websocket_url(spec_id).unwrap(), expected);
}

#[test]
fn websocket_url_is_normalized_by_url_crate() {
    let c = Cli::with_device_id("http://Host:80".to_string(), 1, "/s".to_string(), 5);
    let text = format!("ws://Host:80/ws/{}/{}", Uuid::nil(), Uuid::from_u128(9));
    let parsed = url::Url::parse(&text).unwrap().to_string();
    assert_eq!(c.websocket_url(9), parsed);
    assert_eq!(parsed, format!("ws://host/ws/{}/{}", Uuid::nil(), Uuid::from_u128(9)));
}

#[test]
fn websocket_url_needs_http_prefix_and_valid_url() {
    for addr in ["https://x", "10.0.0.1:80", "http:/", "", "HTTP://x", "http://[bad"] {
        let c = Cli::with_device_id(addr.to_string(), 1, "/s".to_string(), 5);
        assert!(c.checked_websocket_url(1).is_none(), "{:?}", addr);
    }
}

#[test]
fn device_list_numbers_in_id_order() {
    let mut dm = DeviceManager::new();
    dm.add_device_spec(20, spec("10.0.0.2", "Linux", "6.1", "9000"));
    dm.add_device_spec(10, spec("10.0.0.1", "Darwin", "14.0", "9001"));
    let lines = device_list(&dm);
    assert_eq!(lines, vec!["0> Darwin(14.0)_10.0.0.1".to_string(), "1> Linux(6.1)_10.0.0.2".to_string()]);
    assert!(device_list(&DeviceManager::new()).is_empty());
}

#[test]
fn peer_address_joins_ip_and_port() {
    assert_eq!(peer_address(&spec("192.168.0.5", "os", "v", "7000")), "192.168.0.5:7000");
    assert_eq!(peer_address(&spec("", "os", "v", "")), ":");
}

#[test]
fn device_number_reads_trimmed_number() {
    assert_eq!(device_number("2\n"), 2);
    assert_eq!(device_number(" +10 "), 10);
}

#[test]
fn left_group_only_when_both_removed() {
    assert!(left_group(true, true));
    assert!(!left_group(true, false));
    assert!(!left_group(false, true));
    assert!(!left_group(false, false));
}

#[test]
fn selected_index_parses_trimmed_number() {
    assert_eq!(selected_index("2\n"), Some(2));
    assert_eq!(selected_index("  +0 "), Some(0));
    assert_eq!(selected_index("-1\n"), None);
    assert_eq!(selected_index("one\n"), None);
    assert_eq!(selected_index("\n"), None);
}

#[test]
fn requested_file_name_trims_end_only() {
    assert_eq!(requested_file_name("  /tmp/a b.txt \n"), "  /tmp/a b.txt");
    assert_eq!(requested_file_name("\n"), "");
}

#[test]
fn indented_prefixes_four_spaces_per_level() {
    assert_eq!(indented(0, "menu"), "menu");
    assert_eq!(indented(2, "x"), "        x");
    assert_eq!(indented(1, ""), "    ");
}

#[test]
fn refresh_only_on_text() {
    assert!(needs_refresh(SyncEvent::Text));
    assert!(!needs_refresh(SyncEvent::OtherMessage));
    assert!(!needs_refresh(SyncEvent::Error));
}

#[test]
fn action_number_parses_trimmed_signed_number() {
    assert_eq!(action_number("3\n"), Some(3));
    assert_eq!(action_number(" -1 \n"), Some(-1));
    assert_eq!(action_number("exit\n"), None);
    assert_eq!(action_number("99999999999\n"), None);
}

#[test]
fn shown_group_id_joins_same_group() {
    let mut creator = Cli::with_device_id("http://m".to_string(), 1, "/s".to_string(), 1);
    let group = 0xfeedface_0000_4abc_8def_0123456789abu128;
    creator.enter(group);
    let shown = creator.group_id_text();
    assert_eq!(shown, Uuid::from_u128(group).to_string());
    let mut joiner = Cli::with_device_id("http://m".to_string(), 2, "/t".to_string(), 2);
    assert_eq!(joiner.join_group(&format!("{}\n", shown)), group);
    assert_eq!(joiner.device_manager_id(), group);
    let fresh = Cli::with_device_id("http://m".to_string(), 1, "/s".to_string(), 1);
    assert_eq!(fresh.group_id_text(), "00000000-0000-0000-0000-000000000000");
}

#[test]
fn menu_numbers_select_listed_actions() {
    let menu = menu_actions();
    assert_eq!(menu, vec![Action::DeviceList, Action::FileSystem, Action::FileTransfer, Action::Exit]);
    for (i, a) in menu.iter().enumerate() {
        assert_eq!(action_of(i as i32), *a);
    }
    assert_eq!(action_of(4), Action::Undefined);
    assert_eq!(action_of(-1), Action::Undefined);
    assert_eq!(action_of(i32::MAX), Action::Undefined);
}

#[test]
fn uuid_forms_agree_with_uuid_crate() {
    let h = "67e55044-10b1-426f-9247-bb680e5fe0c8";
    let cases = vec![
        h.to_string(),
        h.to_uppercase(),
        h.replace('-', ""),
        format!("{{{}}}", h),
        format!("urn:uuid:{}", h),
        format!("URN:UUID:{}", h.to_uppercase()),
        format!("UrN:uUiD:{}", h),
        format!("[{}]", h),
        format!("urn:uuix:{}", h),
        h.replace('-', "_"),
        h[1..].to_string(),
        format!("{}0", h),
        "67e5504410b1426f9247bb680e5fe0cg".to_string(),
        "67e55044-10b1-426f-9247-bb680e5fe0cé".to_string(),
        "é7e55044-10b1-426f-9247-bb680e5fe0c".to_string(),
        String::new(),
    ];
    for text in cases {
        let mut c = Cli::with_device_id("http://m".to_string(), 1, "/s".to_string(), 5);
        let expected = Uuid::parse_str(&text).ok().map(|u| u.as_u128());
        assert_eq!(c.try_join_group(&text), expected, "{:?}", text);
    }
}
