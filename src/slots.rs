use vstd::prelude::*;
use crc16::{State, XMODEM};
use crate::utils::{decimal, join, join_strings, push_decimal};

verus! {

/// Number of hash slots the keyspace is split into.
pub const SLOT_NUM: usize = 16384;

/// The CRC16/XMODEM checksum of a byte string.
pub uninterp spec fn crc16_xmodem(msg: Seq<u8>) -> u16;

/// Relies on crc16::State::<XMODEM>::calculate: the checksum of the bytes, and nothing else.
#[verifier::external_body]
fn crc16_of(msg: &[u8]) -> (r: u16)
    ensures
        r == crc16_xmodem(msg@),
{
    State::<XMODEM>::calculate(msg)
}

/// The slot a key hashes to (hash tags are not taken into account).
pub open spec fn slot_of(key: Seq<u8>) -> nat {
    (crc16_xmodem(key) as nat) % (SLOT_NUM as nat)
}

/// Computes the slot of a key.
pub fn get_slot(key: &[u8]) -> (r: usize)
    ensures
        r as nat == slot_of(key@),
        r < SLOT_NUM,
{
    let c = crc16_of(key);
    (c as usize) % SLOT_NUM
}

/// An inclusive range of slots.
#[derive(Clone, Copy, Debug, PartialEq, Eq, Structural)]
pub struct SlotRange {
    pub start: usize,
    pub end: usize,
}

impl SlotRange {
    pub open spec fn contains(self, slot: nat) -> bool {
        self.start <= slot && slot <= self.end
    }
}

/// A set of slot ranges, checked one by one.
#[derive(Clone, Debug)]
pub struct SlotRangeArray {
    pub ranges: Vec<SlotRange>,
}

/// How a range is written: `start-end`.
pub open spec fn range_text(r: SlotRange) -> Seq<char> {
    decimal(r.start as nat) + "-"@ + decimal(r.end as nat)
}

impl SlotRange {
    pub fn info(&self) -> (r: String)
        ensures
            r@ == range_text(*self),
    {
        let mut s = String::new();
        push_decimal(&mut s, self.start as u64);
        s.append("-");
        push_decimal(&mut s, self.end as u64);
        s
    }
}

impl SlotRangeArray {
    /// How the array is written: its ranges separated by commas.
    pub open spec fn text(&self) -> Seq<char> {
        join(self.ranges@.map_values(|r: SlotRange| range_text(r)), ","@)
    }

    pub fn info(&self) -> (r: String)
        ensures
            r@ == self.text(),
    {
        let mut texts: Vec<String> = Vec::new();
        let mut i: usize = 0;
        while i < self.ranges.len()
            invariant
                0 <= i <= self.ranges@.len(),
                texts@.len() == i,
                forall|j: int| 0 <= j < i ==> (#[trigger] texts@[j])@ == range_text(self.ranges@[j]),
            decreases self.ranges@.len() - i,
        {
            texts.push(self.ranges[i].info());
            i += 1;
        }
        let r = join_strings(&texts, ",");
        assert(texts@.map_values(|p: String| p@) =~= self.ranges@.map_values(|r: SlotRange| range_text(r)));
        r
    }

    /// Whether some range of the array holds the slot.
    pub open spec fn contains_slot(&self, slot: nat) -> bool {
        exists|i: int| 0 <= i < self.ranges@.len() && (#[trigger] self.ranges@[i]).contains(slot)
    }

    /// Whether some range of the array holds the key's slot.
    pub open spec fn holds_key(&self, key: Seq<u8>) -> bool {
        self.contains_slot(slot_of(key))
    }

    pub fn new(ranges: Vec<SlotRange>) -> (r: Self)
        ensures
            r.ranges@ == ranges@,
    {
        SlotRangeArray { ranges }
    }

    pub fn contains_slot_exec(&self, slot: usize) -> (r: bool)
        ensures
            r == self.contains_slot(slot as nat),
    {
        let mut i: usize = 0;
        while i < self.ranges.len()
            invariant
                0 <= i <= self.ranges@.len(),
                forall|j: int| 0 <= j < i ==> !(#[trigger] self.ranges@[j]).contains(slot as nat),
            decreases self.ranges@.len() - i,
        {
            let r = self.ranges[i];
            if r.start <= slot && slot <= r.end {
                assert(self.ranges@[i as int].contains(slot as nat));
                return true;
            }
            i += 1;
        }
        false
    }

    /// Whether the key's slot falls inside one of the ranges.
    pub fn is_key_inside(&self, key: &[u8]) -> (r: bool)
        ensures
            r == self.holds_key(key@),
    {
        let slot = get_slot(key);
        self.contains_slot_exec(slot)
    }
}

/// Whether some range of `rs[..n]` holds the slot.
pub open spec fn owns_in(rs: Seq<SlotRange>, n: int, slot: nat) -> bool {
    exists|i: int| 0 <= i < n && (#[trigger] rs[i]).contains(slot)
}

/// Whether `gone` is well-formed and one range of `rs` covers all of it.
pub open spec fn covers_in(rs: Seq<SlotRange>, gone: SlotRange) -> bool {
    &&& gone.start <= gone.end
    &&& exists|i: int| 0 <= i < rs.len() && (#[trigger] rs[i]).start <= gone.start && gone.end <= rs[i].end
}

/// Whether every range is well-formed.
pub open spec fn ranges_wf(rs: Seq<SlotRange>) -> bool {
    forall|i: int| 0 <= i < rs.len() ==> (#[trigger] rs[i]).start <= rs[i].end
}

impl SlotRangeArray {
    /// Whether one range of the array covers all of `gone`.
    pub open spec fn covers(&self, gone: SlotRange) -> bool {
        covers_in(self.ranges@, gone)
    }

    /// Gives up the slots of `gone`, which one owned range must cover: `None` if none
    /// does. The result holds exactly the slots held before that are not in `gone`,
    /// in well-formed ranges.
    pub fn remove_range(&self, gone: SlotRange) -> (r: Option<SlotRangeArray>)
        ensures
            r.is_some() == self.covers(gone),
            r.is_some() ==> ranges_wf(r.unwrap().ranges@),
            r.is_some() ==> forall|slot: nat| #[trigger] r.unwrap().contains_slot(slot)
                == (self.contains_slot(slot) && !gone.contains(slot)),
    {
        if gone.start > gone.end {
            return None;
        }
        let mut found = false;
        let mut i: usize = 0;
        while i < self.ranges.len()
            invariant
                0 <= i <= self.ranges@.len(),
                gone.start <= gone.end,
                found == exists|k: int| 0 <= k < i && (#[trigger] self.ranges@[k]).start <= gone.start
                    && gone.end <= self.ranges@[k].end,
            decreases self.ranges@.len() - i,
        {
            let rg = self.ranges[i];
            if rg.start <= gone.start && gone.end <= rg.end {
                found = true;
            }
            i += 1;
        }
        if !found {
            return None;
        }
        let mut out: Vec<SlotRange> = Vec::new();
        let mut j: usize = 0;
        while j < self.ranges.len()
            invariant
                0 <= j <= self.ranges@.len(),
                ranges_wf(out@),
                forall|slot: nat| #[trigger] owns_in(out@, out@.len() as int, slot)
                    == (owns_in(self.ranges@, j as int, slot) && !gone.contains(slot)),
            decreases self.ranges@.len() - j,
        {
            let rg = self.ranges[j];
            let ghost before = out@;
            assert(forall|slot: nat| #[trigger] owns_in(before, before.len() as int, slot)
                == (owns_in(self.ranges@, j as int, slot) && !gone.contains(slot)));
            if rg.start < gone.start && rg.start <= rg.end {
                let hi = if rg.end < gone.start - 1 { rg.end } else { gone.start - 1 };
                out.push(SlotRange { start: rg.start, end: hi });
            }
            let ghost mid = out@;
            if gone.end < rg.end && rg.start <= rg.end {
                let lo = if rg.start > gone.end + 1 { rg.start } else { gone.end + 1 };
                out.push(SlotRange { start: lo, end: rg.end });
            }
            assert(forall|v: int| 0 <= v < before.len() ==> out@[v] == before[v]);
            assert forall|slot: nat| #[trigger] owns_in(out@, out@.len() as int, slot)
                == (owns_in(self.ranges@, j + 1, slot) && !gone.contains(slot)) by {
                if owns_in(out@, out@.len() as int, slot) {
                    let w = choose|w: int| 0 <= w < out@.len() && (#[trigger] out@[w]).contains(slot);
                    if w < before.len() {
                        assert(owns_in(before, before.len() as int, slot));
                    } else {
                        assert(self.ranges@[j as int].contains(slot));
                    }
                }
                if owns_in(self.ranges@, j + 1, slot) && !gone.contains(slot) {
                    let w = choose|w: int| 0 <= w < j + 1 && (#[trigger] self.ranges@[w]).contains(slot);
                    if w < j {
                        assert(owns_in(self.ranges@, j as int, slot));
                        assert(owns_in(before, before.len() as int, slot));
                        let v = choose|v: int| 0 <= v < before.len() && (#[trigger] before[v]).contains(slot);
                        assert(out@[v] == before[v]);
                    } else if slot < gone.start {
                        assert(out@[before.len() as int].contains(slot));
                    } else {
                        assert(out@[out@.len() - 1].contains(slot));
                    }
                }
            }
            j += 1;
        }
        let r = SlotRangeArray { ranges: out };
        assert forall|slot: nat| #[trigger] r.contains_slot(slot)
            == (self.contains_slot(slot) && !gone.contains(slot)) by {
            assert(r.contains_slot(slot) == owns_in(r.ranges@, r.ranges@.len() as int, slot));
            assert(self.contains_slot(slot) == owns_in(self.ranges@, self.ranges@.len() as int, slot));
        }
        Some(r)
    }
}

/// Membership of a key in a slot range array depends only on the key's slot,
/// and the slot of a key is the same on every computation.
pub proof fn lemma_key_inside_by_slot(ranges: SlotRangeArray, k1: Seq<u8>, k2: Seq<u8>)
    ensures
        ranges.holds_key(k1) <==> (exists|i: int|
            0 <= i < ranges.ranges@.len() && (#[trigger] ranges.ranges@[i]).contains(slot_of(k1))),
        k1 == k2 ==> slot_of(k1) == slot_of(k2) && ranges.holds_key(k1) == ranges.holds_key(k2),
        slot_of(k1) < SLOT_NUM,
{
}

} // verus!
