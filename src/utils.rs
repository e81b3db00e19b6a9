use vstd::prelude::*;
use crate::resp::{Array, BinSafeStr, BulkStr, Resp};

verus! {

/// A type that may be shared between threads for the program's whole life.
pub trait ThreadSafe: Send + Sync + 'static {}

/// A request could not be read as a command.
#[derive(Debug)]
pub struct CmdParseError {}

/// Reply sent to old clients whose epoch is behind.
pub const OLD_EPOCH_REPLY: &'static str = "old_epoch";
/// Tag of a slot range that is moving away from a node.
pub const MIGRATING_TAG: &'static str = "MIGRATING";
/// Tag of a slot range that is moving onto a node.
pub const IMPORTING_TAG: &'static str = "IMPORTING";

/// Whether two texts match under canonical caseless matching (Unicode default case
/// folding with canonical decomposition).
pub uninterp spec fn caseless_eq(a: Seq<char>, b: Seq<char>) -> bool;

/// Relies on caseless::canonical_caseless_match_str, which compares the two texts
/// and nothing else.
#[verifier::external_body]
fn caseless_match(a: &str, b: &str) -> (r: bool)
    ensures
        r == caseless_eq(a@, b@),
{
    caseless::canonical_caseless_match_str(a, b)
}

/// Whether `s[i..j]` is one of the pieces that cutting `s` at each `d` gives.
pub open spec fn is_piece(s: Seq<char>, d: char, i: int, j: int) -> bool {
    &&& 0 <= i <= j <= s.len()
    &&& (i == 0 || s[i - 1] == d)
    &&& (j == s.len() || s[j] == d)
    &&& forall|k: int| i <= k < j ==> s[k] != d
}

/// Whether some piece of `s` cut at `d` matches `flag` caselessly.
pub open spec fn has_flag(s: Seq<char>, d: char, flag: Seq<char>) -> bool {
    exists|i: int, j: int| is_piece(s, d, i, j) && caseless_eq(#[trigger] s.subrange(i, j), flag)
}

proof fn lemma_piece_start(s: Seq<char>, d: char, a: int, a2: int, b: int)
    requires
        is_piece(s, d, a, b),
        is_piece(s, d, a2, b),
    ensures
        a == a2,
{
    if a < a2 {
        assert(s[a2 - 1] == d);
    } else if a2 < a {
        assert(s[a - 1] == d);
    }
}

/// Whether one of the `delimiter`-separated pieces of `s` matches `flag` caselessly.
pub fn has_flags(s: &str, delimiter: char, flag: &'static str) -> (r: bool)
    ensures
        r == has_flag(s@, delimiter, flag@),
{
    let n = s.unicode_len();
    let mut start: usize = 0;
    let mut i: usize = 0;
    while i < n
        invariant
            n == s@.len(),
            start <= i <= n,
            start == 0 || s@[start - 1] == delimiter,
            forall|k: int| start <= k < i ==> s@[k] != delimiter,
            forall|a: int, b: int| is_piece(s@, delimiter, a, b) && b < i
                ==> !caseless_eq(#[trigger] s@.subrange(a, b), flag@),
        decreases n - i,
    {
        if s.get_char(i) == delimiter {
            let piece = s.substring_char(start, i);
            assert(is_piece(s@, delimiter, start as int, i as int));
            if caseless_match(piece, flag) {
                return true;
            }
            assert forall|a: int, b: int| is_piece(s@, delimiter, a, b) && b < i + 1
                implies !caseless_eq(#[trigger] s@.subrange(a, b), flag@) by {
                if b == i {
                    lemma_piece_start(s@, delimiter, a, start as int, b);
                }
            }
            start = i + 1;
        }
        i += 1;
    }
    let last = s.substring_char(start, n);
    assert(is_piece(s@, delimiter, start as int, n as int));
    let found = caseless_match(last, flag);
    proof {
        if !found {
            assert forall|a: int, b: int| is_piece(s@, delimiter, a, b)
                implies !caseless_eq(#[trigger] s@.subrange(a, b), flag@) by {
                if b == n {
                    lemma_piece_start(s@, delimiter, a, start as int, b);
                }
            }
        }
    }
    found
}

/// The key of a command: its second element, when that is a bulk or simple string.
pub open spec fn key_of(resp: Resp) -> Option<Seq<u8>> {
    match resp {
        Resp::Arr(Array::Arr(resps)) => {
            if resps@.len() > 1 {
                match resps@[1] {
                    Resp::Bulk(BulkStr::Str(s)) => Some(s@),
                    Resp::Simple(s) => Some(s@),
                    _ => None,
                }
            } else {
                None
            }
        },
        _ => None,
    }
}

/// Extracts the key of a command.
pub fn get_key(resp: &Resp) -> (r: Option<BinSafeStr>)
    ensures
        r.is_some() == key_of(*resp).is_some(),
        r.is_some() ==> r.unwrap()@ == key_of(*resp).unwrap(),
{
    match resp {
        Resp::Arr(Array::Arr(resps)) => {
            if resps.len() > 1 {
                match &resps[1] {
                    Resp::Bulk(BulkStr::Str(s)) => Some(s.clone()),
                    Resp::Simple(s) => Some(s.clone()),
                    _ => None,
                }
            } else {
                None
            }
        },
        _ => None,
    }
}

/// The text that UTF-8 decoding gives of a byte string, if it is valid UTF-8.
pub uninterp spec fn utf8_text(b: Seq<u8>) -> Option<Seq<char>>;

/// Relies on std::str::from_utf8: `Some` exactly for valid UTF-8, with its text.
#[verifier::external_body]
fn decode_utf8(b: &BinSafeStr) -> (r: Option<String>)
    ensures
        r.is_some() == utf8_text(b@).is_some(),
        r.is_some() ==> r.unwrap()@ == utf8_text(b@).unwrap(),
{
    std::str::from_utf8(b.as_slice()).ok().map(|s| s.to_string())
}

/// Whether every element of a command is a bulk string of valid UTF-8.
pub open spec fn all_text(resps: Seq<Resp>) -> bool {
    forall|i: int| 0 <= i < resps.len() ==> match #[trigger] resps[i] {
        Resp::Bulk(BulkStr::Str(s)) => utf8_text(s@).is_some(),
        _ => false,
    }
}

/// The text of element `i` of a command, given that it is a bulk string.
pub open spec fn text_at(resps: Seq<Resp>, i: int) -> Seq<char> {
    match resps[i] {
        Resp::Bulk(BulkStr::Str(s)) => utf8_text(s@).unwrap(),
        _ => Seq::empty(),
    }
}

/// Reads a command as a list of strings: `Some` exactly when it is an array whose
/// elements are all bulk strings of valid UTF-8, and then their texts in order.
pub fn get_commands(resp: &Resp) -> (r: Option<Vec<String>>)
    ensures
        r.is_some() == (match *resp {
            Resp::Arr(Array::Arr(resps)) => all_text(resps@),
            _ => false,
        }),
        r.is_some() ==> (match *resp {
            Resp::Arr(Array::Arr(resps)) => r.unwrap()@.len() == resps@.len() && (forall|i: int|
                0 <= i < resps@.len() ==> (#[trigger] r.unwrap()@[i])@ == text_at(resps@, i)),
            _ => false,
        }),
{
    match resp {
        Resp::Arr(Array::Arr(resps)) => {
            let mut commands: Vec<String> = Vec::new();
            let mut i: usize = 0;
            while i < resps.len()
                invariant
                    *resp matches Resp::Arr(Array::Arr(rs)) && rs@ == resps@,
                    0 <= i <= resps@.len(),
                    commands@.len() == i,
                    forall|j: int| 0 <= j < i ==> match #[trigger] resps@[j] {
                        Resp::Bulk(BulkStr::Str(s)) => utf8_text(s@).is_some(),
                        _ => false,
                    },
                    forall|j: int| 0 <= j < i ==> (#[trigger] commands@[j])@ == text_at(resps@, j),
                decreases resps@.len() - i,
            {
                match &resps[i] {
                    Resp::Bulk(BulkStr::Str(s)) => {
                        match decode_utf8(s) {
                            Some(text) => commands.push(text),
                            None => {
                                assert(!all_text(resps@)) by {
                                    let bad = resps@[i as int];
                                }
                                return None;
                            },
                        }
                    },
                    _ => {
                        assert(!all_text(resps@)) by {
                            let bad = resps@[i as int];
                        }
                        return None;
                    },
                }
                i += 1;
            }
            Some(commands)
        },
        _ => None,
    }
}

/// The character of a decimal digit.
pub open spec fn digit_char(d: nat) -> char {
    if d == 0 { '0' } else if d == 1 { '1' } else if d == 2 { '2' } else if d == 3 { '3' }
    else if d == 4 { '4' } else if d == 5 { '5' } else if d == 6 { '6' } else if d == 7 { '7' }
    else if d == 8 { '8' } else { '9' }
}

/// The decimal notation of a number, without leading zeros.
pub open spec fn decimal(n: nat) -> Seq<char>
    decreases n,
{
    if n < 10 {
        seq![digit_char(n)]
    } else {
        decimal(n / 10).push(digit_char(n % 10))
    }
}

fn digit_str(d: usize) -> (r: &'static str)
    requires
        d < 10,
    ensures
        r@ == seq![digit_char(d as nat)],
{
    proof {
        reveal_strlit("0");
        reveal_strlit("1");
        reveal_strlit("2");
        reveal_strlit("3");
        reveal_strlit("4");
        reveal_strlit("5");
        reveal_strlit("6");
        reveal_strlit("7");
        reveal_strlit("8");
        reveal_strlit("9");
    }
    if d == 0 { "0" } else if d == 1 { "1" } else if d == 2 { "2" } else if d == 3 { "3" }
    else if d == 4 { "4" } else if d == 5 { "5" } else if d == 6 { "6" } else if d == 7 { "7" }
    else if d == 8 { "8" } else { "9" }
}

/// Appends the decimal notation of `n` to `s`.
pub fn push_decimal(s: &mut String, n: u64)
    ensures
        final(s)@ == old(s)@ + decimal(n as nat),
    decreases n,
{
    if n >= 10 {
        push_decimal(s, n / 10);
    }
    s.append(digit_str((n % 10) as usize));
}

/// The redirection reply for a slot that another node serves.
pub open spec fn moved_reply(slot: nat, addr: Seq<char>) -> Seq<char> {
    "MOVED "@ + decimal(slot) + " "@ + addr
}

/// Builds `MOVED <slot> <addr>`.
pub fn gen_moved(slot: usize, addr: String) -> (r: String)
    ensures
        r@ == moved_reply(slot as nat, addr@),
{
    let mut s = String::from_str("MOVED ");
    push_decimal(&mut s, slot as u64);
    s.append(" ");
    s.append(addr.as_str());
    s
}

} // verus!

verus! {

/// The pieces written one after another, with `sep` between two neighbours.
pub open spec fn join(pieces: Seq<Seq<char>>, sep: Seq<char>) -> Seq<char>
    decreases pieces.len(),
{
    if pieces.len() == 0 {
        Seq::empty()
    } else if pieces.len() == 1 {
        pieces[0]
    } else {
        join(pieces.drop_last(), sep) + sep + pieces.last()
    }
}

/// Joins the texts with `sep` between neighbours.
pub fn join_strings(pieces: &Vec<String>, sep: &str) -> (r: String)
    ensures
        r@ == join(pieces@.map_values(|p: String| p@), sep@),
{
    let ghost views = pieces@.map_values(|p: String| p@);
    let mut out = String::new();
    let mut i: usize = 0;
    while i < pieces.len()
        invariant
            0 <= i <= pieces@.len(),
            views == pieces@.map_values(|p: String| p@),
            out@ == join(views.take(i as int), sep@),
        decreases pieces@.len() - i,
    {
        assert(views.take(i + 1).drop_last() == views.take(i as int));
        assert(views.take(i + 1).last() == pieces@[i as int]@);
        if i > 0 {
            out.append(sep);
        }
        out.append(pieces[i].as_str());
        i += 1;
    }
    assert(views.take(pieces@.len() as int) == views);
    out
}

} // verus!
