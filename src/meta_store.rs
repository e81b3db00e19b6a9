use vstd::prelude::*;
use crate::delete_keys::DBName;
use crate::slots::{covers_in, owns_in, SlotRange, SlotRangeArray};

verus! {

/// The slot ranges one node serves for one database.
pub struct NodeSlots {
    pub db: DBName,
    pub address: String,
    pub ranges: Vec<SlotRange>,
}

/// Why an update was refused.
#[derive(Clone, Copy, Debug, PartialEq, Eq, Structural)]
pub enum MetaStoreError {
    /// The caller's epoch is not the current one: it must fetch again and retry.
    StaleEpoch,
    /// The change does not fit the current metadata: the source does not own the
    /// slots, or source and destination are the same node.
    InvalidTransition,
    /// The epoch counter cannot grow any further.
    EpochOverflow,
}

/// The cluster metadata: who serves which slots, at which epoch.
pub struct MetaStore {
    pub epoch: u64,
    pub nodes: Vec<NodeSlots>,
}

impl MetaStore {
    pub fn new() -> (r: Self)
        ensures
            r.epoch == 0,
            r.nodes@.len() == 0,
    {
        MetaStore { epoch: 0, nodes: Vec::new() }
    }

    pub fn get_epoch(&self) -> (r: u64)
        ensures
            r == self.epoch,
    {
        self.epoch
    }

    /// Replaces the metadata if the caller saw the current epoch, which then grows by
    /// one; otherwise nothing changes.
    pub fn update(&mut self, expected_epoch: u64, nodes: Vec<NodeSlots>) -> (r: Result<u64, MetaStoreError>)
        ensures
            r == update_result(old(self).epoch, expected_epoch),
            r.is_ok() ==> final(self).epoch == old(self).epoch + 1 && final(self).nodes@ == nodes@,
            r.is_err() ==> final(self).epoch == old(self).epoch && final(self).nodes@ == old(self).nodes@,
    {
        if expected_epoch != self.epoch {
            return Err(MetaStoreError::StaleEpoch);
        }
        if self.epoch == u64::MAX {
            return Err(MetaStoreError::EpochOverflow);
        }
        self.epoch = self.epoch + 1;
        self.nodes = nodes;
        Ok(self.epoch)
    }
}

/// The index of the first entry for the pair, or -1.
pub open spec fn first_of(nodes: Seq<NodeSlots>, db: Seq<char>, address: Seq<char>) -> int
    decreases nodes.len(),
{
    if nodes.len() == 0 {
        -1
    } else {
        let f = first_of(nodes.drop_last(), db, address);
        if f >= 0 {
            f
        } else if nodes.last().db@ == db && nodes.last().address@ == address {
            nodes.len() - 1
        } else {
            -1
        }
    }
}

proof fn lemma_first_of_bounds(nodes: Seq<NodeSlots>, db: Seq<char>, address: Seq<char>)
    ensures
        -1 <= first_of(nodes, db, address) < nodes.len(),
        first_of(nodes, db, address) >= 0 ==> nodes[first_of(nodes, db, address)].db@ == db
            && nodes[first_of(nodes, db, address)].address@ == address,
    decreases nodes.len(),
{
    if nodes.len() > 0 {
        lemma_first_of_bounds(nodes.drop_last(), db, address);
    }
}

fn find_node(nodes: &Vec<NodeSlots>, db: &String, address: &String) -> (r: Option<usize>)
    ensures
        r.is_none() == (first_of(nodes@, db@, address@) == -1),
        r.is_some() ==> r.unwrap() as int == first_of(nodes@, db@, address@),
{
    let mut i: usize = 0;
    while i < nodes.len()
        invariant
            0 <= i <= nodes@.len(),
            first_of(nodes@.take(i as int), db@, address@) == -1,
        decreases nodes@.len() - i,
    {
        assert(nodes@.take(i + 1).drop_last() == nodes@.take(i as int));
        if nodes[i].db.eq(db) && nodes[i].address.eq(address) {
            proof {
                lemma_prefix_first(nodes@, db@, address@, i + 1);
            }
            return Some(i);
        }
        i += 1;
    }
    assert(nodes@.take(nodes@.len() as int) == nodes@);
    None
}

/// Once a prefix holds an entry for the pair, the whole sequence has its first entry there.
proof fn lemma_prefix_first(nodes: Seq<NodeSlots>, db: Seq<char>, address: Seq<char>, n: int)
    requires
        0 <= n <= nodes.len(),
        first_of(nodes.take(n), db, address) >= 0,
    ensures
        first_of(nodes, db, address) == first_of(nodes.take(n), db, address),
    decreases nodes.len() - n,
{
    if n < nodes.len() {
        assert(nodes.take(n + 1).drop_last() == nodes.take(n));
        lemma_prefix_first(nodes, db, address, n + 1);
    } else {
        assert(nodes.take(n) == nodes);
    }
}

/// Whether moving `range` of `db` from `src` to `dst` fits the metadata: the nodes
/// differ and the source's entry has one range covering all of `range`.
pub open spec fn valid_move(nodes: Seq<NodeSlots>, db: Seq<char>, src: Seq<char>, dst: Seq<char>, range: SlotRange) -> bool {
    let s = first_of(nodes, db, src);
    &&& src != dst
    &&& s >= 0
    &&& covers_in(nodes[s].ranges@, range)
}

/// Whether `after` is `before` with `range` of `db` moved from `src` to `dst`: the
/// source keeps exactly its other slots, the destination gets the range appended
/// (in a new entry at the end if it had none), and every other entry is as it was.
pub open spec fn moved(
    before: Seq<NodeSlots>,
    after: Seq<NodeSlots>,
    db: Seq<char>,
    src: Seq<char>,
    dst: Seq<char>,
    range: SlotRange,
) -> bool {
    let s = first_of(before, db, src);
    let d = first_of(before, db, dst);
    &&& after.len() == if d >= 0 { before.len() } else { before.len() + 1 }
    &&& after[s].db@ == db && after[s].address@ == src
    &&& forall|slot: nat| #[trigger] owns_in(after[s].ranges@, after[s].ranges@.len() as int, slot)
        == (owns_in(before[s].ranges@, before[s].ranges@.len() as int, slot) && !range.contains(slot))
    &&& d >= 0 ==> after[d].db@ == db && after[d].address@ == dst
        && after[d].ranges@ == before[d].ranges@.push(range)
    &&& d < 0 ==> after.last().db@ == db && after.last().address@ == dst && after.last().ranges@ == seq![range]
    &&& forall|k: int| 0 <= k < before.len() && k != s && k != d ==> #[trigger] after[k] == before[k]
}

impl MetaStore {
    /// Moves the slots of `range` in `db` from node `src` to node `dst`, if the caller
    /// saw the current epoch and the move fits the metadata; the epoch then grows by
    /// one. A refused move changes nothing.
    pub fn move_range(
        &mut self,
        expected_epoch: u64,
        db: &String,
        src: &String,
        dst: &String,
        range: SlotRange,
    ) -> (r: Result<u64, MetaStoreError>)
        ensures
            expected_epoch != old(self).epoch ==> r == Err::<u64, MetaStoreError>(MetaStoreError::StaleEpoch),
            expected_epoch == old(self).epoch && !valid_move(old(self).nodes@, db@, src@, dst@, range)
                ==> r == Err::<u64, MetaStoreError>(MetaStoreError::InvalidTransition),
            expected_epoch == old(self).epoch && valid_move(old(self).nodes@, db@, src@, dst@, range)
                ==> r == update_result(old(self).epoch, expected_epoch),
            r.is_ok() ==> final(self).epoch == old(self).epoch + 1
                && moved(old(self).nodes@, final(self).nodes@, db@, src@, dst@, range),
            r.is_err() ==> final(self).epoch == old(self).epoch && final(self).nodes@ == old(self).nodes@,
    {
        if expected_epoch != self.epoch {
            return Err(MetaStoreError::StaleEpoch);
        }
        if src.eq(dst) {
            return Err(MetaStoreError::InvalidTransition);
        }
        let s = match find_node(&self.nodes, db, src) {
            Some(s) => s,
            None => return Err(MetaStoreError::InvalidTransition),
        };
        proof {
            lemma_first_of_bounds(self.nodes@, db@, src@);
            lemma_first_of_bounds(self.nodes@, db@, dst@);
        }
        let owned = SlotRangeArray::new(self.nodes[s].ranges.clone());
        assert(owned.ranges@ == self.nodes@[s as int].ranges@);
        let remaining = match owned.remove_range(range) {
            Some(rest) => rest,
            None => return Err(MetaStoreError::InvalidTransition),
        };
        if self.epoch == u64::MAX {
            return Err(MetaStoreError::EpochOverflow);
        }
        let ghost before = self.nodes@;
        let d = find_node(&self.nodes, db, dst);
        let src_entry = NodeSlots {
            db: self.nodes[s].db.clone(),
            address: self.nodes[s].address.clone(),
            ranges: remaining.ranges,
        };
        self.nodes.set(s, src_entry);
        match d {
            Some(d) => {
                let mut ranges = self.nodes[d].ranges.clone();
                assert(ranges@ == before[d as int].ranges@);
                ranges.push(range);
                let dst_entry = NodeSlots {
                    db: self.nodes[d].db.clone(),
                    address: self.nodes[d].address.clone(),
                    ranges,
                };
                self.nodes.set(d, dst_entry);
            },
            None => {
                self.nodes.push(NodeSlots { db: db.clone(), address: dst.clone(), ranges: vec![range] });
            },
        }
        proof {
            let sr = self.nodes@[s as int].ranges@;
            let br = before[s as int].ranges@;
            assert(sr == remaining.ranges@);
            assert forall|slot: nat| #[trigger] owns_in(sr, sr.len() as int, slot)
                == (owns_in(br, br.len() as int, slot) && !range.contains(slot)) by {
                assert(owns_in(sr, sr.len() as int, slot) == remaining.contains_slot(slot));
                assert(owns_in(br, br.len() as int, slot) == owned.contains_slot(slot));
            }
            let after = self.nodes@;
            let fs = first_of(before, db@, src@);
            let fd = first_of(before, db@, dst@);
            assert(fs == s);
            assert(after.len() == if fd >= 0 { before.len() } else { before.len() + 1 });
            assert(after[fs].db@ == db@ && after[fs].address@ == src@);
            assert(fd >= 0 ==> after[fd].db@ == db@ && after[fd].address@ == dst@
                && after[fd].ranges@ == before[fd].ranges@.push(range));
            assert(fd < 0 ==> after.last().db@ == db@ && after.last().address@ == dst@ && after.last().ranges@ == seq![range]);
            assert(forall|k: int| 0 <= k < before.len() && k != fs && k != fd ==> #[trigger] after[k] == before[k]);
        }
        self.epoch = self.epoch + 1;
        Ok(self.epoch)
    }
}

/// The outcome of an update made with `expected` while the store is at `epoch`.
pub open spec fn update_result(epoch: u64, expected: u64) -> Result<u64, MetaStoreError> {
    if expected != epoch {
        Err(MetaStoreError::StaleEpoch)
    } else if epoch == u64::MAX {
        Err(MetaStoreError::EpochOverflow)
    } else {
        Ok((epoch + 1) as u64)
    }
}

/// An update made at the current epoch `e` is accepted and leads to epoch `e + 1`;
/// the same update made again with `e`, now stale, is refused (and a refused update
/// leaves the store as it was).
pub proof fn lemma_update_epoch(e: u64)
    requires
        e < u64::MAX,
    ensures
        update_result(e, e) == Ok::<u64, MetaStoreError>((e + 1) as u64),
        update_result((e + 1) as u64, e) == Err::<u64, MetaStoreError>(MetaStoreError::StaleEpoch),
{
}

} // verus!
