use http_registry::downloads::Downloads;
use http_registry::path::IndexPath;
use http_registry::path_map::PathMap;
use http_registry::response::{StatusCode, Transfer};

#[test]
fn a_path_map_keeps_one_value_per_path() {
    let mut map: PathMap<u32> = PathMap::new();
    for i in 0..5u32 {
        let key = format!("k{i}");
        assert!(!map.contains_key(&key));
        map.insert(key, i);
    }
    assert_eq!(map.remove("k1"), Some(1));
    assert_eq!(map.remove("k1"), None);
    assert!(!map.contains_key("k1"));
    assert_eq!(map.remove("k4"), Some(4));
    assert_eq!(map.remove("k0"), Some(0));
    map.insert("k1".to_string(), 11);
    assert_eq!(map.remove("k3"), Some(3));
    assert_eq!(map.remove("k2"), Some(2));
    assert_eq!(map.remove("k1"), Some(11));
    assert_eq!(map.remove("nothing"), None);
}

#[test]
fn downloads_end_as_their_transfers_do() {
    let mut downloads = Downloads::new();
    let path = IndexPath::new("1/a");
    let token = downloads.take_token();
    assert_eq!(token, 0);
    assert!(!downloads.is_path_pending(&path));
    downloads.add_pending(token, &path);
    assert!(downloads.is_path_pending(&path));
    downloads.receive_header(token, b"etag: x\r\n");
    downloads.receive_data(token, b"data");
    let found = Transfer::Responded { code: 200, effective_url: Ok(None) };
    assert_eq!(downloads.judge(token, "u", &found).unwrap(), StatusCode::Success);
    assert!(!downloads.finish_transfer(token, "u", &found, true));
    assert!(!downloads.is_path_pending(&path));
    assert!(!downloads.is_pending(token));
    assert_eq!(downloads.finished(), 1);
    let completed = downloads.take_result(&path).unwrap().unwrap();
    assert_eq!(completed.data, b"data");
    assert_eq!(completed.header_map.etag.as_deref(), Some("x"));
    assert!(downloads.take_result(&path).is_none());
    downloads.count_blocking();
    assert_eq!(downloads.blocking(), 1);
    assert_eq!(downloads.tick().message, " 1 complete; 0 pending");
}
