use device_hub::network::{
    file_request, has_file_name, is_readable_request, reply_payload, requested_path, TcpNetwork, TRANSFER_BUFFER_LEN,
};
use std::path::Path;

fn std_save_path(storage: &str, file_name: &str) -> Option<String> {
    Path::new(file_name)
        .file_name()
        .map(|n| format!("{}/{}", storage, n.to_str().unwrap()))
}

#[test]
fn tcp_network_new_keeps_port() {
    let n = TcpNetwork::new(8081, "/tmp/store".to_string());
    assert_eq!(n.listen_port, 8081);
    assert_eq!(n.save_path("a"), "/tmp/store/a");
}

#[test]
fn listen_address_binds_all_interfaces() {
    assert_eq!(TcpNetwork::new(8081, String::new()).listen_address(), "0.0.0.0:8081");
    assert_eq!(TcpNetwork::new(0, String::new()).listen_address(), "0.0.0.0:0");
    assert_eq!(TcpNetwork::new(65535, String::new()).listen_address(), "0.0.0.0:65535");
}

#[test]
fn save_path_takes_final_component() {
    let n = TcpNetwork::new(1, "/srv/files".to_string());
    assert_eq!(n.save_path("/home/user/doc.txt"), "/srv/files/doc.txt");
    assert_eq!(n.save_path("doc.txt"), "/srv/files/doc.txt");
    assert_eq!(n.save_path("/a/b/"), "/srv/files/b");
    assert_eq!(n.save_path("/a/b/."), "/srv/files/b");
    assert_eq!(n.save_path("../x"), "/srv/files/x");
    assert_eq!(n.save_path("a//b//"), "/srv/files/b");
    assert_eq!(n.save_path("/héllo/wörld ü"), "/srv/files/wörld ü");
}

#[test]
fn save_path_none_without_file_name() {
    let n = TcpNetwork::new(1, "/srv".to_string());
    for p in ["", "/", "//", ".", "./", "..", "/a/..", "a/../", "/./."] {
        assert!(!has_file_name(p), "{:?}", p);
    }
    assert!(has_file_name("a/b"));
    let _ = n;
}

#[test]
fn save_path_agrees_with_std_path() {
    let n = TcpNetwork::new(1, "/st".to_string());
    let parts = ["", "/", ".", "..", "a", "b.c", "...", ".x", "x."];
    for a in parts {
        for b in parts {
            for c in parts {
                let p = format!("{}{}{}", a, b, c);
                let ours = if has_file_name(&p) { Some(n.save_path(&p)) } else { None };
                assert_eq!(ours, std_save_path("/st", &p), "{:?}", p);
            }
        }
    }
}

#[test]
fn request_round_trip() {
    let name = "/home/user/사진/photo.jpg";
    let req = file_request(name);
    assert_eq!(req, name.as_bytes().to_vec());
    assert!(req.len() <= TRANSFER_BUFFER_LEN);
    assert!(is_readable_request(&req));
    assert_eq!(requested_path(&req), name);
}

#[test]
fn request_invalid_utf8_is_rejected() {
    assert!(!is_readable_request(&[0x66, 0xff, 0x6f]));
    // a request cut in the middle of a character
    let bytes = "é".as_bytes();
    assert!(!is_readable_request(&bytes[..1]));
    assert!(is_readable_request(&[]));
    assert_eq!(requested_path(&[]), "");
}

#[test]
fn reply_is_the_file() {
    assert_eq!(reply_payload(&[]), Vec::<u8>::new());
    assert_eq!(reply_payload(&[7]), vec![7]);
    assert_eq!(reply_payload(&[1, 2, 3, 4]), vec![1, 2, 3, 4]);
    let big: Vec<u8> = (0..2000u32).map(|i| (i % 251) as u8).collect();
    assert_eq!(reply_payload(&big), big);
}
