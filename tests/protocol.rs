use memory_broker::protocol::{delete_command, delete_succeeded, parse_cursor, parse_scan, scan_command};
use memory_broker::resp::{Array, BulkStr, Resp};

fn bulk(b: &[u8]) -> Resp {
    Resp::Bulk(BulkStr::Str(b.to_vec()))
}

#[test]
fn scan_request_bytes() {
    assert_eq!(
        scan_command(0, 10),
        vec![b"SCAN".to_vec(), b"0".to_vec(), b"COUNT".to_vec(), b"10".to_vec()]
    );
    assert_eq!(
        scan_command(123456, u64::MAX),
        vec![b"SCAN".to_vec(), b"123456".to_vec(), b"COUNT".to_vec(), b"18446744073709551615".to_vec()]
    );
}

#[test]
fn delete_request_bytes() {
    let keys = vec![b"a".to_vec(), b"bc".to_vec()];
    assert_eq!(delete_command(&keys), vec![b"DEL".to_vec(), b"a".to_vec(), b"bc".to_vec()]);
    assert_eq!(delete_command(&vec![]), vec![b"DEL".to_vec()]);
}

#[test]
fn cursor_parsing() {
    assert_eq!(parse_cursor(&b"0".to_vec()), Some(0));
    assert_eq!(parse_cursor(&b"007".to_vec()), Some(7));
    assert_eq!(parse_cursor(&b"18446744073709551615".to_vec()), Some(u64::MAX));
    assert_eq!(parse_cursor(&b"18446744073709551616".to_vec()), None);
    assert_eq!(parse_cursor(&b"".to_vec()), None);
    assert_eq!(parse_cursor(&b"12a".to_vec()), None);
    assert_eq!(parse_cursor(&b"-1".to_vec()), None);
}

#[test]
fn scan_reply_parsing() {
    let reply = Resp::Arr(Array::Arr(vec![
        bulk(b"17"),
        Resp::Arr(Array::Arr(vec![bulk(b"k1"), bulk(b"k2")])),
    ]));
    assert_eq!(parse_scan(&reply), Some((17, vec![b"k1".to_vec(), b"k2".to_vec()])));
    let empty = Resp::Arr(Array::Arr(vec![bulk(b"0"), Resp::Arr(Array::Arr(vec![]))]));
    assert_eq!(parse_scan(&empty), Some((0, vec![])));
    let bad_cursor = Resp::Arr(Array::Arr(vec![bulk(b"x"), Resp::Arr(Array::Arr(vec![]))]));
    assert_eq!(parse_scan(&bad_cursor), None);
    let bad_key = Resp::Arr(Array::Arr(vec![
        bulk(b"1"),
        Resp::Arr(Array::Arr(vec![Resp::Integer(b"3".to_vec())])),
    ]));
    assert_eq!(parse_scan(&bad_key), None);
    let short = Resp::Arr(Array::Arr(vec![bulk(b"1")]));
    assert_eq!(parse_scan(&short), None);
    assert_eq!(parse_scan(&Resp::Error(b"ERR".to_vec())), None);
}

#[test]
fn delete_reply_status() {
    assert!(delete_succeeded(&Resp::Integer(b"2".to_vec())));
    assert!(!delete_succeeded(&Resp::Error(b"ERR wrong".to_vec())));
}
