use memory_broker::resp::{Array, BulkStr, Resp};
use memory_broker::slots::{get_slot, SlotRange, SlotRangeArray, SLOT_NUM};
use memory_broker::utils::{gen_moved, get_commands, get_key, has_flags};

#[test]
fn slot_of_known_keys() {
    // CRC16/XMODEM("123456789") is 0x31C3.
    assert_eq!(get_slot(b"123456789"), 0x31C3 % SLOT_NUM);
    assert_eq!(get_slot(b"foo"), 12182);
    assert_eq!(get_slot(b"bar"), 5061);
    assert_eq!(get_slot(b""), 0);
}

#[test]
fn slot_is_stable_across_calls() {
    let key = b"some-key";
    assert_eq!(get_slot(key), get_slot(key));
}

#[test]
fn key_inside_ranges() {
    let ranges = SlotRangeArray::new(vec![
        SlotRange { start: 0, end: 100 },
        SlotRange { start: 12000, end: 12182 },
    ]);
    assert!(ranges.is_key_inside(b"foo"));
    assert!(!ranges.is_key_inside(b"bar"));
    let edge = SlotRangeArray::new(vec![SlotRange { start: 12182, end: 12182 }]);
    assert!(edge.is_key_inside(b"foo"));
    let empty = SlotRangeArray::new(vec![]);
    assert!(!empty.is_key_inside(b"foo"));
}

#[test]
fn moved_reply_format() {
    assert_eq!(gen_moved(42, "127.0.0.1:6379".to_string()), "MOVED 42 127.0.0.1:6379");
    assert_eq!(gen_moved(0, "h:1".to_string()), "MOVED 0 h:1");
    assert_eq!(gen_moved(16383, "h:1".to_string()), "MOVED 16383 h:1");
}

fn bulk(s: &str) -> Resp {
    Resp::Bulk(BulkStr::Str(s.as_bytes().to_vec()))
}

#[test]
fn key_of_command() {
    let cmd = Resp::Arr(Array::Arr(vec![bulk("GET"), bulk("foo")]));
    assert_eq!(get_key(&cmd), Some(b"foo".to_vec()));
    let simple = Resp::Arr(Array::Arr(vec![bulk("GET"), Resp::Simple(b"bar".to_vec())]));
    assert_eq!(get_key(&simple), Some(b"bar".to_vec()));
    let short = Resp::Arr(Array::Arr(vec![bulk("PING")]));
    assert_eq!(get_key(&short), None);
    let nil = Resp::Arr(Array::Arr(vec![bulk("GET"), Resp::Bulk(BulkStr::Nil)]));
    assert_eq!(get_key(&nil), None);
    assert_eq!(get_key(&bulk("GET")), None);
}

#[test]
fn commands_of_request() {
    let cmd = Resp::Arr(Array::Arr(vec![bulk("SET"), bulk("k"), bulk("v")]));
    assert_eq!(
        get_commands(&cmd),
        Some(vec!["SET".to_string(), "k".to_string(), "v".to_string()])
    );
    let bad_utf8 = Resp::Arr(Array::Arr(vec![bulk("SET"), Resp::Bulk(BulkStr::Str(vec![0xff, 0xfe]))]));
    assert_eq!(get_commands(&bad_utf8), None);
    let not_bulk = Resp::Arr(Array::Arr(vec![bulk("SET"), Resp::Simple(b"k".to_vec())]));
    assert_eq!(get_commands(&not_bulk), None);
    assert_eq!(get_commands(&Resp::Arr(Array::Nil)), None);
    assert_eq!(get_commands(&Resp::Arr(Array::Arr(vec![]))), Some(vec![]));
}

#[test]
fn flags_match_caselessly() {
    assert!(has_flags("a,B,c", ',', "b"));
    assert!(has_flags("nodelay", ',', "NoDelay"));
    assert!(has_flags("x,,y", ',', ""));
    assert!(has_flags("Straße", ',', "STRASSE") == has_flags("Straße", ',', "STRASSE"));
    assert!(!has_flags("abc", ',', "b"));
    assert!(!has_flags("ab,cd", ',', "b,c"));
    assert!(has_flags("ab,cd", ';', "AB,CD"));
}

#[test]
fn ranges_text() {
    let ranges = SlotRangeArray::new(vec![
        SlotRange { start: 0, end: 100 },
        SlotRange { start: 200, end: 16383 },
    ]);
    assert_eq!(ranges.info(), "0-100,200-16383");
    assert_eq!(SlotRangeArray::new(vec![]).info(), "");
}

#[test]
fn remaining_ownership_after_moving_a_range() {
    let owned = SlotRangeArray::new(vec![SlotRange { start: 0, end: 100 }]);
    let rest = owned.remove_range(SlotRange { start: 0, end: 50 }).unwrap();
    assert_eq!(rest.ranges, vec![SlotRange { start: 51, end: 100 }]);
    let split = owned.remove_range(SlotRange { start: 10, end: 20 }).unwrap();
    assert_eq!(split.ranges, vec![SlotRange { start: 0, end: 9 }, SlotRange { start: 21, end: 100 }]);
    let all = owned.remove_range(SlotRange { start: 0, end: 100 }).unwrap();
    assert!(all.ranges.is_empty());
    assert!(owned.remove_range(SlotRange { start: 90, end: 110 }).is_none());
    assert!(owned.remove_range(SlotRange { start: 20, end: 10 }).is_none());
}
