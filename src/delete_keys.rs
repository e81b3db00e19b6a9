use vstd::prelude::*;
use std::sync::Arc;
use crate::scan::ScanState;
use crate::slots::{SlotRange, SlotRangeArray};
use crate::utils::{join, join_strings};

verus! {

/// Name of a logical database.
pub type DBName = String;

/// The (database, node address) pairs that the local node view holds after a change.
pub struct HostDBMap {
    pub nodes: Vec<(DBName, String)>,
}

impl HostDBMap {
    /// Whether the view holds the pair.
    pub open spec fn has(&self, db: Seq<char>, address: Seq<char>) -> bool {
        exists|i: int| 0 <= i < self.nodes@.len()
            && (#[trigger] self.nodes@[i]).0@ == db && self.nodes@[i].1@ == address
    }

    pub fn new(nodes: Vec<(DBName, String)>) -> (r: Self)
        ensures
            r.nodes@ == nodes@,
    {
        HostDBMap { nodes }
    }

    /// Looks the pair up.
    pub fn contains(&self, db: &DBName, address: &String) -> (r: bool)
        ensures
            r == self.has(db@, address@),
    {
        let mut i: usize = 0;
        while i < self.nodes.len()
            invariant
                0 <= i <= self.nodes@.len(),
                forall|j: int| 0 <= j < i ==> !((#[trigger] self.nodes@[j]).0@ == db@
                    && self.nodes@[j].1@ == address@),
            decreases self.nodes@.len() - i,
        {
            let (d, a) = &self.nodes[i];
            if d.eq(db) && a.eq(address) {
                return true;
            }
            i += 1;
        }
        false
    }
}

/// The slot ranges that one node of one database keeps after a change.
pub struct LeftSlots {
    pub db: DBName,
    pub address: String,
    pub slots: Vec<SlotRange>,
}

/// One scan-and-delete job against one node: it removes the keys that lie outside
/// the ranges the node keeps. The job is handed out once.
pub struct DeleteKeysTask {
    pub address: String,
    pub slot_ranges: SlotRangeArray,
    pub job: Option<ScanState>,
}

/// What `start` gives and the task it leaves.
pub open spec fn start_result(task: DeleteKeysTask) -> (Option<ScanState>, DeleteKeysTask) {
    (task.job, DeleteKeysTask { job: None, ..task })
}

impl DeleteKeysTask {
    /// A task that has not started: its loop will scan from cursor 0.
    pub fn new(address: String, slot_ranges: Vec<SlotRange>) -> (r: Self)
        ensures
            r.address@ == address@,
            r.slot_ranges.ranges@ == slot_ranges@,
            r.job == Some(ScanState::Scanning { cursor: 0 }),
    {
        DeleteKeysTask {
            address,
            slot_ranges: SlotRangeArray::new(slot_ranges),
            job: Some(ScanState::Scanning { cursor: 0 }),
        }
    }

    /// Takes the job: the first call gets it, every later call gets `None`.
    pub fn start(&mut self) -> (r: Option<ScanState>)
        ensures
            (r, *final(self)) == start_result(*old(self)),
    {
        self.job.take()
    }

    pub fn get_address(&self) -> (r: String)
        ensures
            r@ == self.address@,
    {
        self.address.clone()
    }
}

/// The second of two `start` calls on one task gives nothing, and the first gives
/// the job the task was made with.
pub proof fn lemma_start_once(task: DeleteKeysTask)
    ensures
        start_result(task).0 == task.job,
        start_result(start_result(task).1).0 is None,
{
}

/// A task of the map, under its database and node address.
pub struct TaskEntry {
    pub db: DBName,
    pub address: String,
    pub task: Arc<DeleteKeysTask>,
}

/// What an entry says: its database, its address and its task.
pub open spec fn entry_view(e: TaskEntry) -> (Seq<char>, Seq<char>, Arc<DeleteKeysTask>) {
    (e.db@, e.address@, e.task)
}

pub open spec fn entry_views(es: Seq<TaskEntry>) -> Seq<(Seq<char>, Seq<char>, Arc<DeleteKeysTask>)> {
    es.map_values(|e: TaskEntry| entry_view(e))
}

/// Whether the change leaves slots for the pair, so that it gets a new task.
pub open spec fn left_has(left: Seq<LeftSlots>, db: Seq<char>, address: Seq<char>) -> bool {
    exists|i: int| 0 <= i < left.len() && (#[trigger] left[i]).db@ == db && left[i].address@ == address
}

/// The old entries that a rebuild carries over, in their order: those whose pair the
/// new view still holds and that get no new task.
pub open spec fn carried(
    old: Seq<(Seq<char>, Seq<char>, Arc<DeleteKeysTask>)>,
    local: HostDBMap,
    left: Seq<LeftSlots>,
) -> Seq<(Seq<char>, Seq<char>, Arc<DeleteKeysTask>)>
    decreases old.len(),
{
    if old.len() == 0 {
        Seq::empty()
    } else {
        let rest = carried(old.drop_last(), local, left);
        let e = old.last();
        if local.has(e.0, e.1) && !left_has(left, e.0, e.1) {
            rest.push(e)
        } else {
            rest
        }
    }
}

/// Whether `task` is the new task made for `l`.
pub open spec fn fresh_task(task: DeleteKeysTask, l: LeftSlots) -> bool {
    &&& task.address@ == l.address@
    &&& task.slot_ranges.ranges@ == l.slots@
    &&& task.job == Some(ScanState::Scanning { cursor: 0 })
}

/// The tasks by database and node address.
pub struct DeleteKeysTaskMap {
    pub entries: Vec<TaskEntry>,
}

/// Whether `new_map` and `new_tasks` are the rebuild of `old_map` for a change whose
/// new view is `local` and that leaves the slots `left`: the carried entries first,
/// by the same task, then one new task for each element of `left`, in its order.
pub open spec fn rebuilt(
    old_map: DeleteKeysTaskMap,
    local: HostDBMap,
    left: Seq<LeftSlots>,
    new_map: DeleteKeysTaskMap,
    new_tasks: Seq<Arc<DeleteKeysTask>>,
) -> bool {
    let kept = carried(entry_views(old_map.entries@), local, left);
    &&& new_map.entries@.len() == kept.len() + left.len()
    &&& new_tasks.len() == left.len()
    &&& forall|i: int| 0 <= i < kept.len() ==> entry_view(#[trigger] new_map.entries@[i]) == kept[i]
    &&& forall|j: int| 0 <= j < left.len() ==> {
        let e = #[trigger] new_map.entries@[kept.len() + j];
        &&& e.db@ == left[j].db@
        &&& e.address@ == left[j].address@
        &&& e.task == new_tasks[j]
        &&& fresh_task(*e.task, left[j])
    }
}

/// How an entry is written: `db-address-(ranges)`.
pub open spec fn entry_text(e: TaskEntry) -> Seq<char> {
    e.db@ + "-"@ + e.address@ + "-("@ + e.task.slot_ranges.text() + ")"@
}

impl TaskEntry {
    pub fn info(&self) -> (r: String)
        ensures
            r@ == entry_text(*self),
    {
        let mut s = self.db.clone();
        s.append("-");
        s.append(self.address.as_str());
        s.append("-(");
        let ranges = self.task.slot_ranges.info();
        s.append(ranges.as_str());
        s.append(")");
        s
    }
}

impl DeleteKeysTaskMap {
    /// How the map is written: `deleting_tasks:` and then its entries separated by commas.
    pub open spec fn text(&self) -> Seq<char> {
        "deleting_tasks:"@ + join(self.entries@.map_values(|e: TaskEntry| entry_text(e)), ","@)
    }

    pub fn info(&self) -> (r: String)
        ensures
            r@ == self.text(),
    {
        let mut texts: Vec<String> = Vec::new();
        let mut i: usize = 0;
        while i < self.entries.len()
            invariant
                0 <= i <= self.entries@.len(),
                texts@.len() == i,
                forall|j: int| 0 <= j < i ==> (#[trigger] texts@[j])@ == entry_text(self.entries@[j]),
            decreases self.entries@.len() - i,
        {
            texts.push(self.entries[i].info());
            i += 1;
        }
        let body = join_strings(&texts, ",");
        assert(texts@.map_values(|p: String| p@) =~= self.entries@.map_values(|e: TaskEntry| entry_text(e)));
        let mut s = String::from_str("deleting_tasks:");
        s.append(body.as_str());
        s
    }

    pub fn new() -> (r: Self)
        ensures
            r.entries@.len() == 0,
    {
        DeleteKeysTaskMap { entries: Vec::new() }
    }

    /// Rebuilds the map after a change: keeps the tasks whose pair is still in the new
    /// view (the same tasks, so their scans go on) unless the change leaves new slots
    /// for the pair, and makes a task for each element of `left_slots_after_change`.
    /// The new tasks are also returned, for the caller to start.
    pub fn update_from_old_task_map(
        &self,
        local_db_map: &HostDBMap,
        left_slots_after_change: Vec<LeftSlots>,
    ) -> (r: (Self, Vec<Arc<DeleteKeysTask>>))
        ensures
            rebuilt(*self, *local_db_map, left_slots_after_change@, r.0, r.1@),
    {
        let ghost left = left_slots_after_change@;
        let ghost olds = entry_views(self.entries@);
        let mut entries: Vec<TaskEntry> = Vec::new();
        let mut i: usize = 0;
        while i < self.entries.len()
            invariant
                0 <= i <= self.entries@.len(),
                left == left_slots_after_change@,
                olds == entry_views(self.entries@),
                entry_views(entries@) == carried(olds.take(i as int), *local_db_map, left),
            decreases self.entries@.len() - i,
        {
            let ghost before = entry_views(entries@);
            let e = &self.entries[i];
            assert(olds.take(i + 1).drop_last() == olds.take(i as int));
            assert(olds.take(i + 1).last() == entry_view(self.entries@[i as int]));
            let in_view = local_db_map.contains(&e.db, &e.address);
            let renewed = Self::left_contains(&left_slots_after_change, &e.db, &e.address);
            let keep = in_view && !renewed;
            assert(olds[i as int] == entry_view(self.entries@[i as int]));
            assert(carried(olds.take(i + 1), *local_db_map, left) == if keep {
                before.push(olds[i as int])
            } else {
                before
            });
            if keep {
                let task = Arc::clone(&e.task);
                entries.push(TaskEntry { db: e.db.clone(), address: e.address.clone(), task });
                assert(entry_views(entries@) == before.push(olds[i as int]));
            } else {
                assert(entry_views(entries@) == before);
            }
            i += 1;
        }
        assert(olds.take(olds.len() as int) == olds);
        let ghost kept = entry_views(entries@);
        assert(forall|k: int| 0 <= k < kept.len() ==> entry_view(#[trigger] entries@[k]) == kept[k]);
        let mut new_tasks: Vec<Arc<DeleteKeysTask>> = Vec::new();
        let mut j: usize = 0;
        while j < left_slots_after_change.len()
            invariant
                left == left_slots_after_change@,
                0 <= j <= left.len(),
                entries@.len() == kept.len() + j,
                new_tasks@.len() == j,
                forall|q: int| 0 <= q < kept.len() ==> entry_view(#[trigger] entries@[q]) == kept[q],
                forall|q: int| 0 <= q < j ==> {
                    let e = #[trigger] entries@[kept.len() + q];
                    &&& e.db@ == left[q].db@
                    &&& e.address@ == left[q].address@
                    &&& e.task == new_tasks@[q]
                    &&& fresh_task(*e.task, left[q])
                },
            decreases left.len() - j,
        {
            let l = &left_slots_after_change[j];
            let task = Arc::new(DeleteKeysTask::new(l.address.clone(), l.slots.clone()));
            new_tasks.push(Arc::clone(&task));
            entries.push(TaskEntry { db: l.db.clone(), address: l.address.clone(), task });
            j += 1;
        }
        (DeleteKeysTaskMap { entries }, new_tasks)
    }

    fn left_contains(left: &Vec<LeftSlots>, db: &DBName, address: &String) -> (r: bool)
        ensures
            r == left_has(left@, db@, address@),
    {
        let mut i: usize = 0;
        while i < left.len()
            invariant
                0 <= i <= left@.len(),
                forall|j: int| 0 <= j < i ==> !((#[trigger] left@[j]).db@ == db@
                    && left@[j].address@ == address@),
            decreases left@.len() - i,
        {
            if left[i].db.eq(db) && left[i].address.eq(address) {
                return true;
            }
            i += 1;
        }
        false
    }
}

/// Rebuilding twice from the same map and the same change gives the same task for
/// every carried pair, and exactly one new task for each element of the change in
/// each rebuild.
pub proof fn lemma_rebuild_shares_tasks(
    old_map: DeleteKeysTaskMap,
    local: HostDBMap,
    left: Seq<LeftSlots>,
    m1: DeleteKeysTaskMap,
    t1: Seq<Arc<DeleteKeysTask>>,
    m2: DeleteKeysTaskMap,
    t2: Seq<Arc<DeleteKeysTask>>,
)
    requires
        rebuilt(old_map, local, left, m1, t1),
        rebuilt(old_map, local, left, m2, t2),
    ensures
        m1.entries@.len() == m2.entries@.len(),
        t1.len() == left.len() && t2.len() == left.len(),
        forall|i: int| 0 <= i < carried(entry_views(old_map.entries@), local, left).len() ==>
            (#[trigger] m1.entries@[i]).task == m2.entries@[i].task
            && m1.entries@[i].db@ == m2.entries@[i].db@
            && m1.entries@[i].address@ == m2.entries@[i].address@,
{
    let kept = carried(entry_views(old_map.entries@), local, left);
    assert forall|i: int| 0 <= i < kept.len() implies (#[trigger] m1.entries@[i]).task
        == m2.entries@[i].task && m1.entries@[i].db@ == m2.entries@[i].db@
        && m1.entries@[i].address@ == m2.entries@[i].address@ by {
        assert(entry_view(m1.entries@[i]) == kept[i]);
        assert(entry_view(m2.entries@[i]) == kept[i]);
    }
}

} // verus!
