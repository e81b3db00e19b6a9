use vstd::prelude::*;
use crate::resp::{Array, BinSafeStr, BulkStr, Resp};

verus! {

/// The ASCII decimal notation of a number, without leading zeros.
pub open spec fn decimal_bytes(n: nat) -> Seq<u8>
    decreases n,
{
    if n < 10 {
        seq![(48 + n) as u8]
    } else {
        decimal_bytes(n / 10).push((48 + n % 10) as u8)
    }
}

/// Appends the ASCII decimal notation of `n`.
pub fn push_decimal_bytes(v: &mut Vec<u8>, n: u64)
    ensures
        final(v)@ == old(v)@ + decimal_bytes(n as nat),
    decreases n,
{
    if n >= 10 {
        push_decimal_bytes(v, n / 10);
    }
    v.push((48 + n % 10) as u8);
}

/// The byte strings that a list of byte vectors holds.
pub open spec fn byte_views(v: Seq<Vec<u8>>) -> Seq<Seq<u8>> {
    v.map_values(|b: Vec<u8>| b@)
}

/// `SCAN <cursor> COUNT <count>`.
pub open spec fn scan_command_spec(cursor: u64, count: u64) -> Seq<Seq<u8>> {
    seq!["SCAN"@.map_values(|c: char| c as u8), decimal_bytes(cursor as nat),
        "COUNT"@.map_values(|c: char| c as u8), decimal_bytes(count as nat)]
}

fn ascii_bytes(s: &str) -> (r: Vec<u8>)
    requires
        s.is_ascii(),
    ensures
        r@ == s@.map_values(|c: char| c as u8),
{
    let v = s.as_bytes_vec();
    proof {
        vstd::string::is_ascii_spec_bytes(s);
    }
    v
}

/// Builds the incremental scan request.
pub fn scan_command(cursor: u64, count: u64) -> (r: Vec<BinSafeStr>)
    ensures
        byte_views(r@) == scan_command_spec(cursor, count),
{
    let mut c: Vec<u8> = Vec::new();
    push_decimal_bytes(&mut c, cursor);
    let mut n: Vec<u8> = Vec::new();
    push_decimal_bytes(&mut n, count);
    proof {
        reveal_strlit("SCAN");
        reveal_strlit("COUNT");
    }
    let cmd = vec![ascii_bytes("SCAN"), c, ascii_bytes("COUNT"), n];
    assert(byte_views(cmd@) =~= scan_command_spec(cursor, count));
    cmd
}

/// Builds `DEL <key> ...` for the keys, in their order.
pub fn delete_command(keys: &Vec<BinSafeStr>) -> (r: Vec<BinSafeStr>)
    ensures
        byte_views(r@) == seq!["DEL"@.map_values(|c: char| c as u8)] + byte_views(keys@),
{
    proof {
        reveal_strlit("DEL");
    }
    let mut cmd = vec![ascii_bytes("DEL")];
    let ghost head = seq!["DEL"@.map_values(|c: char| c as u8)];
    let mut i: usize = 0;
    while i < keys.len()
        invariant
            0 <= i <= keys@.len(),
            byte_views(cmd@) == head + byte_views(keys@.take(i as int)),
        decreases keys@.len() - i,
    {
        let ghost before = byte_views(cmd@);
        let k = keys[i].clone();
        cmd.push(k);
        assert(byte_views(cmd@) == before.push(keys@[i as int]@));
        assert(byte_views(keys@.take(i + 1)) =~= byte_views(keys@.take(i as int)).push(keys@[i as int]@));
        assert(byte_views(cmd@) =~= head + byte_views(keys@.take(i + 1)));
        i += 1;
    }
    assert(keys@.take(keys@.len() as int) == keys@);
    cmd
}

/// Whether a byte is an ASCII digit.
pub open spec fn is_digit(b: u8) -> bool {
    48 <= b <= 57
}

/// The number that a string of ASCII digits denotes.
pub open spec fn digits_value(s: Seq<u8>) -> nat
    decreases s.len(),
{
    if s.len() == 0 {
        0
    } else {
        digits_value(s.drop_last()) * 10 + (s.last() - 48) as nat
    }
}

/// The number a cursor string denotes: one or more ASCII digits whose value fits in a `u64`.
pub open spec fn cursor_value(s: Seq<u8>) -> Option<u64> {
    if s.len() > 0 && (forall|i: int| 0 <= i < s.len() ==> is_digit(#[trigger] s[i]))
        && digits_value(s) <= u64::MAX {
        Some(digits_value(s) as u64)
    } else {
        None
    }
}

proof fn lemma_digits_value_grows(s: Seq<u8>, i: int)
    requires
        0 <= i <= s.len(),
        forall|k: int| 0 <= k < s.len() ==> is_digit(#[trigger] s[k]),
    ensures
        digits_value(s.take(i)) <= digits_value(s),
    decreases s.len() - i,
{
    if i < s.len() {
        lemma_digits_value_grows(s, i + 1);
        assert(s.take(i + 1).drop_last() == s.take(i));
    } else {
        assert(s.take(i) == s);
    }
}

/// Reads a cursor written in ASCII decimal.
pub fn parse_cursor(s: &BinSafeStr) -> (r: Option<u64>)
    ensures
        r == cursor_value(s@),
{
    if s.len() == 0 {
        return None;
    }
    let mut value: u64 = 0;
    let mut i: usize = 0;
    while i < s.len()
        invariant
            0 <= i <= s@.len(),
            s@.len() > 0,
            value as nat == digits_value(s@.take(i as int)),
            forall|k: int| 0 <= k < i ==> is_digit(#[trigger] s@[k]),
        decreases s@.len() - i,
    {
        let b = s[i];
        assert(s@.take(i + 1).drop_last() == s@.take(i as int));
        if b < 48 || b > 57 {
            assert(!is_digit(s@[i as int]));
            return None;
        }
        let d = (b - 48) as u64;
        if value > (u64::MAX - d) / 10 {
            proof {
                assert(digits_value(s@.take(i + 1)) == value as nat * 10 + d as nat);
                assert(value as nat * 10 + d as nat > u64::MAX) by (nonlinear_arith)
                    requires
                        value > (u64::MAX - d) / 10,
                        d <= 9,
                ;
                if forall|k: int| 0 <= k < s@.len() ==> is_digit(#[trigger] s@[k]) {
                    lemma_digits_value_grows(s@, i + 1);
                }
            }
            return None;
        }
        proof {
            assert(value * 10 + d <= u64::MAX) by (nonlinear_arith)
                requires
                    value <= (u64::MAX - d) / 10,
                    d <= 9,
            ;
        }
        value = value * 10 + d;
        i += 1;
    }
    assert(s@.take(s@.len() as int) == s@);
    Some(value)
}

/// What a scan reply says: a two-element array of a cursor string and an array of
/// bulk-string keys. Anything else is malformed.
pub open spec fn scan_reply(resp: Resp) -> Option<(u64, Seq<Seq<u8>>)> {
    match resp {
        Resp::Arr(Array::Arr(items)) => {
            if items@.len() == 2 {
                match (items@[0], items@[1]) {
                    (Resp::Bulk(BulkStr::Str(c)), Resp::Arr(Array::Arr(keys))) => {
                        if cursor_value(c@).is_some() && all_bulk(keys@) {
                            Some((cursor_value(c@).unwrap(), bulk_views(keys@)))
                        } else {
                            None
                        }
                    },
                    _ => None,
                }
            } else {
                None
            }
        },
        _ => None,
    }
}

/// Whether every element is a bulk string.
pub open spec fn all_bulk(items: Seq<Resp>) -> bool {
    forall|i: int| 0 <= i < items.len() ==> (#[trigger] items[i]) is Bulk && items[i]->Bulk_0 is Str
}

/// The byte strings of a list of bulk strings.
pub open spec fn bulk_views(items: Seq<Resp>) -> Seq<Seq<u8>> {
    items.map_values(|r: Resp| match r {
        Resp::Bulk(BulkStr::Str(s)) => s@,
        _ => Seq::empty(),
    })
}

fn collect_keys(items: &Vec<Resp>) -> (r: Option<Vec<BinSafeStr>>)
    ensures
        r.is_some() == all_bulk(items@),
        r.is_some() ==> byte_views(r.unwrap()@) == bulk_views(items@),
{
    let mut keys: Vec<BinSafeStr> = Vec::new();
    let mut i: usize = 0;
    while i < items.len()
        invariant
            0 <= i <= items@.len(),
            forall|k: int| 0 <= k < i ==> (#[trigger] items@[k]) is Bulk && items@[k]->Bulk_0 is Str,
            byte_views(keys@) == bulk_views(items@.take(i as int)),
        decreases items@.len() - i,
    {
        match &items[i] {
            Resp::Bulk(BulkStr::Str(s)) => {
                let ghost before = byte_views(keys@);
                let k = s.clone();
                keys.push(k);
                assert(byte_views(keys@) == before.push(s@));
                assert(bulk_views(items@.take(i + 1)) =~= bulk_views(items@.take(i as int)).push(s@));
                assert(byte_views(keys@) =~= bulk_views(items@.take(i + 1)));
            },
            _ => {
                assert(!all_bulk(items@)) by {
                    let bad = items@[i as int];
                }
                return None;
            },
        }
        i += 1;
    }
    assert(items@.take(items@.len() as int) == items@);
    Some(keys)
}

/// Parses a scan reply into the next cursor and the keys of the batch.
pub fn parse_scan(resp: &Resp) -> (r: Option<(u64, Vec<BinSafeStr>)>)
    ensures
        r.is_some() == scan_reply(*resp).is_some(),
        r.is_some() ==> r.unwrap().0 == scan_reply(*resp).unwrap().0
            && byte_views(r.unwrap().1@) == scan_reply(*resp).unwrap().1,
{
    match resp {
        Resp::Arr(Array::Arr(items)) => {
            if items.len() != 2 {
                return None;
            }
            match (&items[0], &items[1]) {
                (Resp::Bulk(BulkStr::Str(c)), Resp::Arr(Array::Arr(keys))) => {
                    let cursor = match parse_cursor(c) {
                        Some(v) => v,
                        None => return None,
                    };
                    match collect_keys(keys) {
                        Some(ks) => Some((cursor, ks)),
                        None => None,
                    }
                },
                _ => None,
            }
        },
        _ => None,
    }
}

/// Whether a delete reply reports success: any reply but an error.
pub fn delete_succeeded(resp: &Resp) -> (r: bool)
    ensures
        r == !(*resp is Error),
{
    match resp {
        Resp::Error(_) => false,
        _ => true,
    }
}

} // verus!
