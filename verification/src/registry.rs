//! The task registry: the queue, the running set and every lifecycle transition.
use vstd::prelude::*;
use std::collections::VecDeque;
use crate::settings::AppSettings;
use crate::status::{is_active_status, is_terminal_status, spec_is_active, spec_is_terminal, TaskStatus};
use crate::task::{spec_metadata, spec_metadata_of_record, spec_snapshot, PersistedTaskMetadata, PersistedTaskRecord, TaskRecord, TaskSnapshot};
use crate::status::{spec_status_stage, status_stage};
use crate::settings::concurrent_task_limit;
use crate::text::{clone_opt, lines, str_eq, views};
use crate::task::{
    append_lines, spec_restored, spec_sort_group, spec_sort_time, task_from_metadata,
    task_snapshot_sort_group, task_snapshot_sort_time, TaskHistorySnapshot,
};
use crate::order::{is_ordered, is_permutation, key_before, lemma_not_before_is_ordered, sorted_order};
use crate::text::seq_lt;
use crate::text::{chars_of, join, parse_u64, parse_u64_spec, starts_with, starts_with_chars, slice_chars};

verus! {

/// The queue without any occurrence of `id`.
pub open spec fn remove_all(q: Seq<String>, id: Seq<char>) -> Seq<String>
    decreases q.len(),
{
    if q.len() == 0 {
        q
    } else {
        let r = remove_all(q.drop_last(), id);
        if q.last()@ == id {
            r
        } else {
            r.push(q.last())
        }
    }
}

/// Whether some entry of `q` is `id`.
pub open spec fn holds_id(q: Seq<String>, id: Seq<char>) -> bool {
    exists|k: int| 0 <= k < q.len() && (#[trigger] q[k])@ == id
}

pub proof fn lemma_remove_all(q: Seq<String>, id: Seq<char>)
    ensures
        !holds_id(remove_all(q, id), id),
        forall|k: int|
            0 <= k < remove_all(q, id).len() ==> holds_id(q, (#[trigger] remove_all(q, id)[k])@),
        remove_all(q, id).len() <= q.len(),
        !holds_id(q, id) ==> remove_all(q, id) == q,
        forall|x: Seq<char>| x != id ==> (holds_id(q, x) <==> holds_id(remove_all(q, id), x)),
        (forall|a: int, b: int| 0 <= a < b < q.len() ==> q[a]@ != q[b]@) ==> (forall|a: int, b: int|
            0 <= a < b < remove_all(q, id).len() ==> remove_all(q, id)[a]@ != remove_all(
                q,
                id,
            )[b]@),
    decreases q.len(),
{
    if q.len() > 0 {
        let p = q.drop_last();
        lemma_remove_all(p, id);
        let r = remove_all(p, id);
        assert forall|x: Seq<char>| holds_id(p, x) implies holds_id(q, x) by {
            let k = choose|k: int| 0 <= k < p.len() && (#[trigger] p[k])@ == x;
            assert(q[k] == p[k]);
        }
        if holds_id(q, id) && !holds_id(p, id) {
            assert(q.last()@ == id) by {
                let k = choose|k: int| 0 <= k < q.len() && (#[trigger] q[k])@ == id;
                if k < p.len() {
                    assert(p[k] == q[k]);
                }
            }
        }
        assert forall|x: Seq<char>| x != id implies (holds_id(q, x) <==> holds_id(remove_all(q, id), x)) by {
            if holds_id(q, x) {
                let k = choose|k: int| 0 <= k < q.len() && (#[trigger] q[k])@ == x;
                if k < p.len() {
                    assert(p[k] == q[k]);
                    assert(holds_id(p, x));
                    let j = choose|j: int| 0 <= j < r.len() && (#[trigger] r[j])@ == x;
                    if q.last()@ != id {
                        assert(r.push(q.last())[j] == r[j]);
                    }
                } else {
                    assert(q.last()@ == x);
                    assert(r.push(q.last())[r.len() as int] == q.last());
                }
            }
            if holds_id(remove_all(q, id), x) {
                let j = choose|j: int| 0 <= j < remove_all(q, id).len() && (#[trigger] remove_all(q, id)[j])@ == x;
                if j < r.len() {
                    if q.last()@ != id {
                        assert(r.push(q.last())[j] == r[j]);
                    }
                    assert(holds_id(r, x));
                } else {
                    assert(q[q.len() - 1]@ == x);
                }
            }
        }
        if !holds_id(q, id) {
            assert(!holds_id(p, id));
            assert(q.last()@ != id) by {
                if q.last()@ == id {
                    assert(q[q.len() - 1]@ == id);
                }
            }
            assert(r.push(q.last()) =~= q);
        }
        assert(!holds_id(remove_all(q, id), id)) by {
            if holds_id(remove_all(q, id), id) {
                let j = choose|j: int| 0 <= j < remove_all(q, id).len() && (#[trigger] remove_all(q, id)[j])@ == id;
                if j < r.len() {
                    if q.last()@ != id {
                        assert(r.push(q.last())[j] == r[j]);
                    }
                    assert(holds_id(r, id));
                }
            }
        }
        assert forall|k: int| 0 <= k < remove_all(q, id).len() implies holds_id(q, (#[trigger] remove_all(q, id)[k])@) by {
            if k < r.len() {
                if q.last()@ != id {
                    assert(r.push(q.last())[k] == r[k]);
                }
                assert(holds_id(p, r[k]@));
            } else {
                assert(q[q.len() - 1] == q.last());
            }
        }
        if forall|a: int, b: int| 0 <= a < b < q.len() ==> q[a]@ != q[b]@ {
            assert(forall|a: int, b: int| 0 <= a < b < p.len() ==> p[a]@ != p[b]@) by {
                assert forall|a: int, b: int| 0 <= a < b < p.len() implies p[a]@ != p[b]@ by {
                    assert(p[a] == q[a] && p[b] == q[b]);
                }
            }
            if q.last()@ != id {
                assert forall|a: int, b: int| 0 <= a < b < r.push(q.last()).len() implies r.push(q.last())[a]@ != r.push(q.last())[b]@ by {
                    if b == r.len() {
                        assert(r.push(q.last())[a] == r[a]);
                        assert(holds_id(p, r[a]@));
                        let k = choose|k: int| 0 <= k < p.len() && (#[trigger] p[k])@ == r[a]@;
                        assert(q[k] == p[k]);
                        assert(q[q.len() - 1] == q.last());
                    } else {
                        assert(r.push(q.last())[a] == r[a]);
                        assert(r.push(q.last())[b] == r[b]);
                    }
                }
            }
        }
    }
}

/// Entries of `v` other than `id`, in order.
pub fn without_id(v: &Vec<String>, id: &str) -> (r: Vec<String>)
    ensures
        r@ == remove_all(v@, id@),
{
    let mut r: Vec<String> = Vec::new();
    let mut i: usize = 0;
    while i < v.len()
        invariant
            i <= v.len(),
            r@ == remove_all(v@.take(i as int), id@),
        decreases v.len() - i,
    {
        proof {
            assert(v@.take(i + 1).drop_last() =~= v@.take(i as int));
            assert(v@.take(i + 1).last() == v@[i as int]);
        }
        if !str_eq(v[i].as_str(), id) {
            r.push(v[i].clone());
        }
        i = i + 1;
    }
    assert(v@.take(v.len() as int) =~= v@);
    r
}

/// Entries of `q` other than `id`, in order.
pub fn queue_without_id(q: &VecDeque<String>, id: &str) -> (r: VecDeque<String>)
    ensures
        r@ == remove_all(q@, id@),
{
    let mut r: VecDeque<String> = VecDeque::new();
    let mut i: usize = 0;
    while i < q.len()
        invariant
            i <= q@.len(),
            r@ == remove_all(q@.take(i as int), id@),
        decreases q@.len() - i,
    {
        proof {
            assert(q@.take(i + 1).drop_last() =~= q@.take(i as int));
            assert(q@.take(i + 1).last() == q@[i as int]);
        }
        if !str_eq(q[i].as_str(), id) {
            r.push_back(q[i].clone());
        }
        i = i + 1;
    }
    assert(q@.take(q@.len() as int) =~= q@);
    r
}

/// Whether the vector holds `id`.
pub fn has_id(v: &Vec<String>, id: &str) -> (r: bool)
    ensures
        r == holds_id(v@, id@),
{
    let mut i: usize = 0;
    while i < v.len()
        invariant
            i <= v.len(),
            forall|k: int| 0 <= k < i ==> v@[k]@ != id@,
        decreases v.len() - i,
    {
        if str_eq(v[i].as_str(), id) {
            return true;
        }
        i = i + 1;
    }
    false
}

/// Whether the queue holds `id`.
pub fn queue_has_id(q: &VecDeque<String>, id: &str) -> (r: bool)
    ensures
        r == holds_id(q@, id@),
{
    let mut i: usize = 0;
    while i < q.len()
        invariant
            i <= q@.len(),
            forall|k: int| 0 <= k < i ==> q@[k]@ != id@,
        decreases q@.len() - i,
    {
        if str_eq(q[i].as_str(), id) {
            return true;
        }
        i = i + 1;
    }
    false
}

/// A listing in which no entry is ordered before its predecessor has its groups in
/// non-decreasing order, and within one group the later listing time first.
proof fn lemma_listing_order(r: Seq<TaskHistorySnapshot>)
    requires
        forall|k: int|
            0 <= k < r.len() - 1 ==> !key_before(
                spec_sort_group(r[k + 1].snapshot.status),
                spec_sort_time(r[k + 1].snapshot),
                spec_sort_group((#[trigger] r[k]).snapshot.status),
                spec_sort_time(r[k].snapshot),
                true,
            ),
    ensures
        forall|k: int|
            0 <= k < r.len() - 1 ==> spec_sort_group((#[trigger] r[k]).snapshot.status) <= spec_sort_group(
                r[k + 1].snapshot.status,
            ),
        forall|k: int|
            0 <= k < r.len() - 1 && spec_sort_group((#[trigger] r[k]).snapshot.status) == spec_sort_group(
                r[k + 1].snapshot.status,
            ) ==> !seq_lt(spec_sort_time(r[k].snapshot), spec_sort_time(r[k + 1].snapshot)),
{
    assert forall|k: int| 0 <= k < r.len() - 1 implies spec_sort_group(
        (#[trigger] r[k]).snapshot.status,
    ) <= spec_sort_group(r[k + 1].snapshot.status) && (spec_sort_group(r[k].snapshot.status)
        == spec_sort_group(r[k + 1].snapshot.status) ==> !seq_lt(
        spec_sort_time(r[k].snapshot),
        spec_sort_time(r[k + 1].snapshot),
    )) by {
        lemma_not_before_is_ordered(
            spec_sort_group(r[k].snapshot.status),
            spec_sort_time(r[k].snapshot),
            spec_sort_group(r[k + 1].snapshot.status),
            spec_sort_time(r[k + 1].snapshot),
            true,
        );
    }
}

/// All tasks, the queue of task ids waiting for a slot, and the ids of running tasks.
pub struct TaskRegistry {
    pub tasks: Vec<TaskRecord>,
    pub queue: VecDeque<String>,
    pub running: Vec<String>,
}

/// The ids of a sequence of tasks.
pub open spec fn task_ids(tasks: Seq<TaskRecord>) -> Seq<Seq<char>> {
    tasks.map_values(|t: TaskRecord| t.id@)
}

impl TaskRegistry {
    /// Whether some task has id `id`.
    pub open spec fn has_task(self, id: Seq<char>) -> bool {
        exists|i: int| 0 <= i < self.tasks@.len() && (#[trigger] self.tasks@[i]).id@ == id
    }

    /// Task ids are unique; every queued or running id names a task; no id runs twice.
    pub open spec fn wf(self) -> bool {
        &&& forall|i: int, j: int|
            0 <= i < j < self.tasks@.len() ==> (#[trigger] self.tasks@[i]).id@ != (
            #[trigger] self.tasks@[j]).id@
        &&& forall|k: int| 0 <= k < self.queue@.len() ==> self.has_task((#[trigger] self.queue@[k])@)
        &&& forall|k: int|
            0 <= k < self.running@.len() ==> self.has_task((#[trigger] self.running@[k])@)
        &&& forall|a: int, b: int|
            0 <= a < b < self.running@.len() ==> (#[trigger] self.running@[a])@ != (
            #[trigger] self.running@[b])@
    }

    /// The index of the task with id `id`.
    pub open spec fn index_of(self, id: Seq<char>) -> int {
        choose|i: int| 0 <= i < self.tasks@.len() && (#[trigger] self.tasks@[i]).id@ == id
    }

    /// The task with id `id`.
    pub open spec fn task(self, id: Seq<char>) -> TaskRecord {
        self.tasks@[self.index_of(id)]
    }

    /// An empty registry.
    pub fn new() -> (r: Self)
        ensures
            r.wf(),
            r.tasks@.len() == 0,
            r.queue@.len() == 0,
            r.running@.len() == 0,
    {
        TaskRegistry { tasks: Vec::new(), queue: VecDeque::new(), running: Vec::new() }
    }

    /// The index of the task with id `id`, if there is one.
    pub fn find(&self, id: &str) -> (r: Option<usize>)
        requires
            self.wf(),
        ensures
            match r {
                Some(i) => i < self.tasks@.len() && self.tasks@[i as int].id@ == id@ && self.index_of(id@) == i,
                None => !self.has_task(id@),
            },
    {
        let mut i: usize = 0;
        while i < self.tasks.len()
            invariant
                self.wf(),
                i <= self.tasks@.len(),
                forall|k: int| 0 <= k < i ==> self.tasks@[k].id@ != id@,
            decreases self.tasks@.len() - i,
        {
            if str_eq(self.tasks[i].id.as_str(), id) {
                proof {
                    assert(self.tasks@[i as int].id@ == id@);
                    assert(self.has_task(id@));
                    let j = self.index_of(id@);
                    assert(0 <= j < self.tasks@.len() && self.tasks@[j].id@ == id@);
                    if j != i {
                        if j < i {
                            assert(self.tasks@[j].id@ != self.tasks@[i as int].id@);
                        } else {
                            assert(self.tasks@[i as int].id@ != self.tasks@[j].id@);
                        }
                    }
                }
                return Some(i);
            }
            i = i + 1;
        }
        None
    }
}

} // verus!

verus! {

/// Everything a worker needs to start downloading a task.
pub struct TaskLaunch {
    pub task_id: String,
    pub input_url: String,
    pub output_directory: Option<String>,
    pub output_file_name: Option<String>,
    pub settings: AppSettings,
}

/// A task that the scheduler moved into the running set: a fresh start carries a launch,
/// a resumed task (whose worker is still alive) does not.
pub struct ScheduledStart {
    pub snapshot: TaskSnapshot,
    pub launch: Option<TaskLaunch>,
}

/// The outcome of offering one queue entry to the scheduler.
pub enum ScheduleStep {
    /// No slot is free or the queue is empty; nothing changed.
    Idle,
    /// The front entry was dropped: already running, unknown or finished.
    Skipped,
    /// The front entry was started.
    Started(ScheduledStart),
}

/// What a finished worker reports.
pub struct DownloadResult {
    pub task_id: String,
    pub output_path: String,
    pub working_directory: String,
    pub duration_text: String,
    pub size_text: String,
    pub video_codec: String,
    pub audio_codec: String,
    pub width: u32,
    pub height: u32,
}

/// A failure notice for the user interface.
pub struct ErrorPayload {
    pub task_id: String,
    pub message: String,
}

/// The event announced when a task finishes.
pub enum FinishEvent {
    Completed(DownloadResult),
    Failed(ErrorPayload),
}

/// `n` is task `t` paused at `now`: it remembers the status it was in.
pub open spec fn spec_paused(t: TaskRecord, n: TaskRecord, now: Seq<char>) -> bool {
    &&& n.status == TaskStatus::Paused
    &&& n.previous_status == t.status
    &&& n.stage@ == "已暂停"@
    &&& n.updated_at@ == now
    &&& changed_meta(t, n, PersistedTaskMetadata {
        status: n.status,
        previous_status: n.previous_status,
        stage: n.stage,
        updated_at: n.updated_at,
        ..spec_metadata(t)
    })
}

/// `n` is paused task `t` queued again at `now` to wait for a slot.
pub open spec fn spec_resumed(t: TaskRecord, n: TaskRecord, now: Seq<char>) -> bool {
    &&& n.status == TaskStatus::Queued
    &&& n.stage@ == "等待继续槽位"@
    &&& n.updated_at@ == now
    &&& changed_meta(t, n, PersistedTaskMetadata {
        status: n.status,
        stage: n.stage,
        updated_at: n.updated_at,
        ..spec_metadata(t)
    })
}

/// `n` is task `t`, whose worker is alive, given a slot again: back in the status it
/// was paused in, with that status's stage text.
pub open spec fn spec_continued(t: TaskRecord, n: TaskRecord) -> bool {
    &&& n.status == t.previous_status
    &&& n.stage@ == spec_status_stage(t.previous_status)
    &&& spec_metadata(n) == (PersistedTaskMetadata {
        status: n.status,
        stage: n.stage,
        updated_at: n.updated_at,
        ..spec_metadata(t)
    })
}

/// Pausing an active task, resuming it, and giving it a slot again (its worker still
/// alive) brings it back to the status it was paused in, with that status's stage text;
/// of what is stored of the task only the stage text, the update time and the
/// remembered status (now the current one) differ.
pub proof fn lemma_pause_resume_continue(
    t: TaskRecord,
    paused: TaskRecord,
    resumed: TaskRecord,
    continued: TaskRecord,
    paused_at: Seq<char>,
    resumed_at: Seq<char>,
)
    requires
        spec_is_active(t.status),
        spec_paused(t, paused, paused_at),
        spec_resumed(paused, resumed, resumed_at),
        spec_continued(resumed, continued),
    ensures
        continued.status == t.status,
        continued.stage@ == spec_status_stage(t.status),
        spec_metadata(continued) == (PersistedTaskMetadata {
            previous_status: t.status,
            stage: continued.stage,
            updated_at: continued.updated_at,
            ..spec_metadata(t)
        }),
        resumed.worker_started == t.worker_started,
        resumed.logs@ == t.logs@,
{
}

/// `s` announces that task `t` got a slot: its snapshot, and for a fresh start the
/// launch of a worker with the task's address, output choice and settings, the task
/// being in its first stage.
pub open spec fn start_of(s: ScheduledStart, t: TaskRecord) -> bool {
    &&& s.snapshot == spec_snapshot(t)
    &&& t.worker_started
    &&& match s.launch {
        Some(l) => {
            &&& l.task_id == t.id
            &&& l.input_url == t.input_url
            &&& l.output_directory == t.output_directory
            &&& l.output_file_name == t.output_file_name
            &&& l.settings == t.settings
            &&& t.status == TaskStatus::Parsing
        },
        None => true,
    }
}


/// A queued id can be given a slot: it is not running and names a task that is not
/// finished.
pub open spec fn startable(reg: TaskRegistry, id: Seq<char>) -> bool {
    &&& !holds_id(reg.running@, id)
    &&& reg.has_task(id)
    &&& !spec_is_terminal(reg.task(id).status)
}

/// The ids a scheduling pass starts while it takes the first `p` entries of the queue
/// `q` of registry `reg` (as the registry was before the pass): each entry that is
/// startable and was not started earlier in the pass, in queue order; every other
/// entry is dropped.
pub open spec fn scheduled_ids(reg: TaskRegistry, q: Seq<String>, p: int) -> Seq<Seq<char>>
    decreases p,
{
    if p <= 0 {
        seq![]
    } else {
        let s = scheduled_ids(reg, q, p - 1);
        let x = q[p - 1]@;
        if startable(reg, x) && !s.contains(x) {
            s.push(x)
        } else {
            s
        }
    }
}

/// `n` is task `t` given a slot at `now`: a task whose worker is alive goes back to the
/// status it was paused in (`spec_continued`); any other task starts in its first stage
/// and is marked started.
pub open spec fn started_from(t: TaskRecord, n: TaskRecord, now: Seq<char>) -> bool {
    &&& n.updated_at@ == now
    &&& n.worker_started
    &&& n.logs == t.logs
    &&& if t.worker_started {
        spec_continued(t, n)
    } else {
        &&& n.status == TaskStatus::Parsing
        &&& n.previous_status == TaskStatus::Parsing
        &&& n.stage@ == "正在解析网页"@
        &&& spec_metadata(n) == (PersistedTaskMetadata {
            status: n.status,
            previous_status: n.previous_status,
            stage: n.stage,
            updated_at: n.updated_at,
            ..spec_metadata(t)
        })
    }
}

/// A scheduling pass from `old` to `new` under `limit` slots, announcing `r`: entries
/// are taken from the front of the queue only while a slot is free, and until none is
/// free or the queue is empty; the ids of `scheduled_ids` join the running set in
/// order and their tasks are started as `started_from` says, each with its
/// announcement (a launch exactly for tasks whose worker never ran); every other task is
/// unchanged.
pub open spec fn schedule_holds(old: TaskRegistry, new: TaskRegistry, r: Seq<ScheduledStart>, limit: int, now: Seq<char>) -> bool {
    let k = old.queue@.len() - new.queue@.len();
    let s = scheduled_ids(old, old.queue@, k);
    &&& 0 <= k
    &&& new.queue@ == old.queue@.skip(k)
    &&& forall|p: int| 0 <= p < k ==> old.running@.len() + (#[trigger] scheduled_ids(old, old.queue@, p)).len() < limit
    &&& new.running@.len() < limit ==> new.queue@.len() == 0
    &&& views(new.running@) == views(old.running@) + s
    &&& r.len() == s.len()
    &&& forall|j: int| 0 <= j < r.len() ==> {
        &&& (#[trigger] r[j]).snapshot.task_id@ == s[j]
        &&& new.has_task(s[j])
        &&& start_of(r[j], new.task(s[j]))
        &&& started_from(old.task(s[j]), new.task(s[j]), now)
        &&& (r[j].launch is None <==> old.task(s[j]).worker_started)
    }
    &&& new.tasks@.len() == old.tasks@.len()
    &&& forall|i: int| 0 <= i < old.tasks@.len() && !s.contains(old.tasks@[i].id@) ==> new.tasks@[i] == old.tasks@[i]
}

pub proof fn lemma_holds_id_views(q: Seq<String>, id: Seq<char>)
    ensures
        holds_id(q, id) <==> views(q).contains(id),
{
    if holds_id(q, id) {
        let k = choose|k: int| 0 <= k < q.len() && (#[trigger] q[k])@ == id;
        assert(views(q)[k] == id);
    }
    if views(q).contains(id) {
        let k = choose|k: int| 0 <= k < views(q).len() && views(q)[k] == id;
        assert(q[k]@ == id);
    }
}

pub proof fn lemma_concat_contains(a: Seq<Seq<char>>, b: Seq<Seq<char>>, x: Seq<char>)
    ensures
        (a + b).contains(x) <==> a.contains(x) || b.contains(x),
{
    let c = a + b;
    if c.contains(x) {
        let k = choose|k: int| 0 <= k < c.len() && c[k] == x;
        if k < a.len() {
            assert(a[k] == x);
        } else {
            assert(b[k - a.len()] == x);
        }
    }
    if a.contains(x) {
        let k = choose|k: int| 0 <= k < a.len() && a[k] == x;
        assert(c[k] == x);
    }
    if b.contains(x) {
        let k = choose|k: int| 0 <= k < b.len() && b[k] == x;
        assert(c[k + a.len()] == x);
    }
}

/// The ids started over a longer stretch of the queue begin with those started over a
/// shorter one.
pub proof fn lemma_scheduled_prefix(reg: TaskRegistry, q: Seq<String>, p: int, p2: int)
    requires
        0 <= p <= p2,
    ensures
        scheduled_ids(reg, q, p).len() <= scheduled_ids(reg, q, p2).len(),
        forall|j: int|
            0 <= j < scheduled_ids(reg, q, p).len() ==> scheduled_ids(reg, q, p2)[j] == scheduled_ids(reg, q, p)[j],
    decreases p2 - p,
{
    if p < p2 {
        lemma_scheduled_prefix(reg, q, p, p2 - 1);
    }
}

/// With a free slot, a scheduling pass starts the task at the front of the queue when
/// it is startable: it joins the running set and is started as `started_from` says; a
/// paused-then-resumed task (its worker alive) is back in the status it had.
pub proof fn lemma_free_slot_starts_front(
    old: TaskRegistry,
    new: TaskRegistry,
    r: Seq<ScheduledStart>,
    limit: int,
    now: Seq<char>,
)
    requires
        schedule_holds(old, new, r, limit, now),
        old.running@.len() < limit,
        old.queue@.len() > 0,
        startable(old, old.queue@[0]@),
    ensures
        r.len() >= 1,
        r[0].snapshot.task_id@ == old.queue@[0]@,
        holds_id(new.running@, old.queue@[0]@),
        new.has_task(old.queue@[0]@),
        started_from(old.task(old.queue@[0]@), new.task(old.queue@[0]@), now),
        old.task(old.queue@[0]@).worker_started ==> r[0].launch is None && new.task(old.queue@[0]@).status
            == old.task(old.queue@[0]@).previous_status,
        !old.task(old.queue@[0]@).worker_started ==> r[0].launch is Some && new.task(old.queue@[0]@).status
            == TaskStatus::Parsing,
{
    let x = old.queue@[0]@;
    let k = old.queue@.len() - new.queue@.len();
    if k == 0 {
        assert(scheduled_ids(old, old.queue@, 0) =~= Seq::<Seq<char>>::empty());
        assert(views(new.running@).len() == views(old.running@).len());
        assert(new.queue@.len() > 0);
    }
    assert(scheduled_ids(old, old.queue@, 0) =~= Seq::<Seq<char>>::empty());
    assert(scheduled_ids(old, old.queue@, 1) =~= seq![x]);
    lemma_scheduled_prefix(old, old.queue@, 1, k);
    let s = scheduled_ids(old, old.queue@, k);
    assert(s[0] == x);
    assert(r[0].snapshot.task_id@ == s[0]);
    lemma_holds_id_views(new.running@, x);
    assert(views(new.running@)[views(old.running@).len() as int] == x);
}

/// `new` equals `old` but at index `i`.
pub open spec fn same_except(old: Seq<TaskRecord>, new: Seq<TaskRecord>, i: int) -> bool {
    &&& new.len() == old.len()
    &&& forall|j: int| 0 <= j < old.len() && j != i ==> new[j] == old[j]
}

/// Exists-a-task-with-this-id over a sequence of tasks.
pub open spec fn tasks_have(tasks: Seq<TaskRecord>, id: Seq<char>) -> bool {
    exists|i: int| 0 <= i < tasks.len() && (#[trigger] tasks[i]).id@ == id
}

pub proof fn lemma_same_ids(old: Seq<TaskRecord>, new: Seq<TaskRecord>)
    requires
        old.len() == new.len(),
        forall|j: int| 0 <= j < old.len() ==> (#[trigger] new[j]).id@ == old[j].id@,
    ensures
        forall|id: Seq<char>| tasks_have(old, id) <==> tasks_have(new, id),
{
    assert forall|id: Seq<char>| tasks_have(old, id) <==> tasks_have(new, id) by {
        if tasks_have(old, id) {
            let i = choose|i: int| 0 <= i < old.len() && (#[trigger] old[i]).id@ == id;
            assert(new[i].id@ == id);
        }
        if tasks_have(new, id) {
            let i = choose|i: int| 0 <= i < new.len() && (#[trigger] new[i]).id@ == id;
            assert(old[i].id@ == new[i].id@);
        }
    }
}

impl TaskRegistry {
    /// After changing one task (keeping its id) the registry is still well formed
    /// if queue and running only hold task ids.
    proof fn lemma_wf_after_update(old: Self, new: Self, i: int)
        requires
            old.wf(),
            0 <= i < old.tasks@.len(),
            same_except(old.tasks@, new.tasks@, i),
            new.tasks@[i].id@ == old.tasks@[i].id@,
            forall|k: int| 0 <= k < new.queue@.len() ==> old.has_task((#[trigger] new.queue@[k])@),
            forall|k: int|
                0 <= k < new.running@.len() ==> old.has_task((#[trigger] new.running@[k])@),
            forall|a: int, b: int|
                0 <= a < b < new.running@.len() ==> (#[trigger] new.running@[a])@ != (
                #[trigger] new.running@[b])@,
        ensures
            new.wf(),
            forall|id: Seq<char>| old.has_task(id) <==> new.has_task(id),
    {
        assert forall|j: int| 0 <= j < old.tasks@.len() implies (#[trigger] new.tasks@[j]).id@
            == old.tasks@[j].id@ by {
            if j != i {
                assert(new.tasks@[j] == old.tasks@[j]);
            }
        }
        lemma_same_ids(old.tasks@, new.tasks@);
        assert forall|a: int, b: int| 0 <= a < b < new.tasks@.len() implies (
        #[trigger] new.tasks@[a]).id@ != (#[trigger] new.tasks@[b]).id@ by {
            assert(new.tasks@[a].id@ == old.tasks@[a].id@);
            assert(new.tasks@[b].id@ == old.tasks@[b].id@);
        }
    }

    /// Adds a new task at the back of the queue; a task with the same id is replaced.
    pub fn add_task(&mut self, record: TaskRecord)
        requires
            old(self).wf(),
        ensures
            final(self).wf(),
            final(self).queue@ == old(self).queue@.push(record.id),
            final(self).running@ == old(self).running@,
            old(self).has_task(record.id@) ==> final(self).tasks@ == old(self).tasks@.update(
                old(self).index_of(record.id@),
                record,
            ),
            !old(self).has_task(record.id@) ==> final(self).tasks@ == old(self).tasks@.push(record),
    {
        let ghost old_self = *self;
        let ghost rid = record.id@;
        let found = self.find(record.id.as_str());
        self.queue.push_back(record.id.clone());
        match found {
            Some(i) => {
                self.tasks.set(i, record);
                proof {
                    Self::lemma_wf_after_update(old_self, *self, i as int);
                    let n = self.queue@.len() - 1;
                    assert(old_self.has_task(rid)) by {
                        assert(old_self.tasks@[i as int].id@ == rid);
                    }
                    assert forall|k: int| 0 <= k < self.queue@.len() implies old_self.has_task(
                        (#[trigger] self.queue@[k])@,
                    ) by {
                        if k < n {
                            assert(self.queue@[k] == old_self.queue@[k]);
                        }
                    }
                    Self::lemma_wf_after_update(old_self, *self, i as int);
                }
            },
            None => {
                self.tasks.push(record);
                proof {
                    let n = old_self.tasks@.len() as int;
                    assert forall|id: Seq<char>| old_self.has_task(id) implies self.has_task(id) by {
                        let j = choose|j: int| 0 <= j < n && (#[trigger] old_self.tasks@[j]).id@ == id;
                        assert(self.tasks@[j] == old_self.tasks@[j]);
                    }
                    assert(self.tasks@[n].id@ == rid);
                    assert(self.has_task(rid));
                    assert forall|a: int, b: int| 0 <= a < b < self.tasks@.len() implies (
                    #[trigger] self.tasks@[a]).id@ != (#[trigger] self.tasks@[b]).id@ by {
                        if b == n {
                            assert(self.tasks@[a] == old_self.tasks@[a]);
                            if self.tasks@[a].id@ == rid {
                                assert(old_self.has_task(rid));
                            }
                        } else {
                            assert(self.tasks@[a] == old_self.tasks@[a]);
                            assert(self.tasks@[b] == old_self.tasks@[b]);
                        }
                    }
                    assert forall|k: int| 0 <= k < self.queue@.len() implies self.has_task(
                        (#[trigger] self.queue@[k])@,
                    ) by {
                        if k < old_self.queue@.len() {
                            assert(self.queue@[k] == old_self.queue@[k]);
                            assert(old_self.has_task(self.queue@[k]@));
                        }
                    }
                    assert forall|k: int| 0 <= k < self.running@.len() implies self.has_task(
                        (#[trigger] self.running@[k])@,
                    ) by {
                        assert(old_self.has_task(self.running@[k]@));
                    }
                }
            },
        }
    }
}

} // verus!

verus! {

/// `n` is `t` with the listed metadata changes, the same log and the same worker flag.
pub open spec fn changed_meta(t: TaskRecord, n: TaskRecord, m: PersistedTaskMetadata) -> bool {
    &&& spec_metadata(n) == m
    &&& n.logs@ == t.logs@
    &&& n.worker_started == t.worker_started
}

impl TaskRegistry {
    proof fn lemma_queue_subset_after_remove(old: Self, id: Seq<char>, q: Seq<String>)
        requires
            old.wf(),
            q == remove_all(old.queue@, id),
        ensures
            forall|k: int| 0 <= k < q.len() ==> old.has_task((#[trigger] q[k])@),
    {
        lemma_remove_all(old.queue@, id);
        assert forall|k: int| 0 <= k < q.len() implies old.has_task((#[trigger] q[k])@) by {
            assert(holds_id(old.queue@, q[k]@));
            let j = choose|j: int| 0 <= j < old.queue@.len() && (#[trigger] old.queue@[j])@ == q[k]@;
            assert(old.has_task(old.queue@[j]@));
        }
    }

    proof fn lemma_running_after_remove(old: Self, id: Seq<char>, q: Seq<String>)
        requires
            old.wf(),
            q == remove_all(old.running@, id),
        ensures
            forall|k: int| 0 <= k < q.len() ==> old.has_task((#[trigger] q[k])@),
            forall|a: int, b: int| 0 <= a < b < q.len() ==> (#[trigger] q[a])@ != (#[trigger] q[b])@,
    {
        lemma_remove_all(old.running@, id);
        assert forall|k: int| 0 <= k < q.len() implies old.has_task((#[trigger] q[k])@) by {
            assert(holds_id(old.running@, q[k]@));
            let j = choose|j: int| 0 <= j < old.running@.len() && (#[trigger] old.running@[j])@ == q[k]@;
            assert(old.has_task(old.running@[j]@));
        }
    }

    /// Cancels a task: it leaves the queue, and a queued task whose worker never started
    /// becomes cancelled at once (a started worker stops on its own).
    pub fn cancel(&mut self, id: &str, now: &str) -> (r: Result<TaskSnapshot, String>)
        requires
            old(self).wf(),
        ensures
            final(self).wf(),
            final(self).queue@ == remove_all(old(self).queue@, id@),
            final(self).running@ == old(self).running@,
            !old(self).has_task(id@) ==> (r matches Err(e) && e@ == "任务不存在。"@
                && final(self).tasks@ == old(self).tasks@),
            old(self).has_task(id@) ==> {
                let i = old(self).index_of(id@);
                let t = old(self).tasks@[i];
                let n = final(self).tasks@[i];
                &&& same_except(old(self).tasks@, final(self).tasks@, i)
                &&& r == Ok::<TaskSnapshot, String>(spec_snapshot(n))
                &&& if t.status == TaskStatus::Queued && !t.worker_started {
                    &&& n.status == TaskStatus::Cancelled
                    &&& n.stage@ == "已取消"@
                    &&& n.error_summary matches Some(e) && e@ == "下载已取消。"@
                    &&& n.updated_at@ == now@
                    &&& changed_meta(t, n, PersistedTaskMetadata {
                        status: n.status,
                        stage: n.stage,
                        error_summary: n.error_summary,
                        updated_at: n.updated_at,
                        ..spec_metadata(t)
                    })
                } else {
                    n == t
                }
            },
    {
        let ghost old_self = *self;
        let found = self.find(id);
        self.queue = queue_without_id(&self.queue, id);
        proof {
            Self::lemma_queue_subset_after_remove(old_self, id@, self.queue@);
        }
        match found {
            None => Err(String::from_str("任务不存在。")),
            Some(i) => {
                if self.tasks[i].status == TaskStatus::Queued && !self.tasks[i].worker_started {
                    self.tasks[i].status = TaskStatus::Cancelled;
                    self.tasks[i].stage = String::from_str("已取消");
                    self.tasks[i].error_summary = Some(String::from_str("下载已取消。"));
                    self.tasks[i].updated_at = String::from_str(now);
                }
                proof {
                    Self::lemma_wf_after_update(old_self, *self, i as int);
                }
                Ok(self.tasks[i].snapshot())
            },
        }
    }

    /// Pauses an active task: it leaves the running set and remembers its stage.
    pub fn pause(&mut self, id: &str, now: &str) -> (r: Result<TaskSnapshot, String>)
        requires
            old(self).wf(),
        ensures
            final(self).wf(),
            final(self).queue@ == old(self).queue@,
            !old(self).has_task(id@) ==> (r matches Err(e) && e@ == "任务不存在。"@
                && *final(self) == *old(self)),
            old(self).has_task(id@) && !spec_is_active(old(self).task(id@).status) ==> (r matches Err(e)
                && e@ == "只有运行中的任务可以暂停。"@ && *final(self) == *old(self)),
            old(self).has_task(id@) && spec_is_active(old(self).task(id@).status) ==> {
                let i = old(self).index_of(id@);
                let t = old(self).tasks@[i];
                let n = final(self).tasks@[i];
                &&& same_except(old(self).tasks@, final(self).tasks@, i)
                &&& final(self).running@ == remove_all(old(self).running@, id@)
                &&& r == Ok::<TaskSnapshot, String>(spec_snapshot(n))
                &&& spec_paused(t, n, now@)
            },
    {
        let ghost old_self = *self;
        match self.find(id) {
            None => Err(String::from_str("任务不存在。")),
            Some(i) => {
                if !is_active_status(&self.tasks[i].status) {
                    return Err(String::from_str("只有运行中的任务可以暂停。"));
                }
                let current = self.tasks[i].status;
                self.tasks[i].previous_status = current;
                self.tasks[i].status = TaskStatus::Paused;
                self.tasks[i].stage = String::from_str("已暂停");
                self.tasks[i].updated_at = String::from_str(now);
                let snapshot = self.tasks[i].snapshot();
                self.running = without_id(&self.running, id);
                proof {
                    Self::lemma_running_after_remove(old_self, id@, self.running@);
                    Self::lemma_wf_after_update(old_self, *self, i as int);
                }
                Ok(snapshot)
            },
        }
    }

    /// Resumes a paused task by queueing it again (once).
    pub fn resume(&mut self, id: &str, now: &str) -> (r: Result<TaskSnapshot, String>)
        requires
            old(self).wf(),
        ensures
            final(self).wf(),
            final(self).running@ == old(self).running@,
            !old(self).has_task(id@) ==> (r matches Err(e) && e@ == "任务不存在。"@
                && *final(self) == *old(self)),
            old(self).has_task(id@) && old(self).task(id@).status != TaskStatus::Paused ==> (r matches Err(e)
                && e@ == "只有暂停中的任务可以继续。"@ && *final(self) == *old(self)),
            old(self).has_task(id@) && old(self).task(id@).status == TaskStatus::Paused ==> {
                let i = old(self).index_of(id@);
                let t = old(self).tasks@[i];
                let n = final(self).tasks@[i];
                &&& same_except(old(self).tasks@, final(self).tasks@, i)
                &&& final(self).queue@ == if holds_id(old(self).queue@, id@) {
                    old(self).queue@
                } else {
                    old(self).queue@.push(t.id)
                }
                &&& r == Ok::<TaskSnapshot, String>(spec_snapshot(n))
                &&& spec_resumed(t, n, now@)
            },
    {
        let ghost old_self = *self;
        match self.find(id) {
            None => Err(String::from_str("任务不存在。")),
            Some(i) => {
                if self.tasks[i].status != TaskStatus::Paused {
                    return Err(String::from_str("只有暂停中的任务可以继续。"));
                }
                self.tasks[i].status = TaskStatus::Queued;
                self.tasks[i].stage = String::from_str("等待继续槽位");
                self.tasks[i].updated_at = String::from_str(now);
                let snapshot = self.tasks[i].snapshot();
                if !queue_has_id(&self.queue, id) {
                    let tid = self.tasks[i].id.clone();
                    self.queue.push_back(tid);
                }
                proof {
                    assert forall|k: int| 0 <= k < self.queue@.len() implies old_self.has_task(
                        (#[trigger] self.queue@[k])@,
                    ) by {
                        if k < old_self.queue@.len() {
                            assert(self.queue@[k] == old_self.queue@[k]);
                        } else {
                            assert(old_self.tasks@[i as int].id@ == id@);
                        }
                    }
                    Self::lemma_wf_after_update(old_self, *self, i as int);
                }
                Ok(snapshot)
            },
        }
    }

    /// Puts a failed or cancelled task back in the queue with a clean slate.
    pub fn retry(&mut self, id: &str, settings: Option<AppSettings>, now: &str) -> (r: Result<
        TaskSnapshot,
        String,
    >)
        requires
            old(self).wf(),
        ensures
            final(self).wf(),
            final(self).running@ == old(self).running@,
            !old(self).has_task(id@) ==> (r matches Err(e) && e@ == "任务不存在。"@
                && final(self).tasks@ == old(self).tasks@
                && final(self).queue@ == remove_all(old(self).queue@, id@)),
            old(self).has_task(id@) && !(old(self).task(id@).status == TaskStatus::Failed
                || old(self).task(id@).status == TaskStatus::Cancelled) ==> (r matches Err(e) && e@
                == "只有失败或已取消的任务可以重试。"@ && final(self).tasks@ == old(self).tasks@
                && final(self).queue@ == remove_all(old(self).queue@, id@)),
            old(self).has_task(id@) && (old(self).task(id@).status == TaskStatus::Failed
                || old(self).task(id@).status == TaskStatus::Cancelled) ==> {
                let i = old(self).index_of(id@);
                let t = old(self).tasks@[i];
                let n = final(self).tasks@[i];
                &&& same_except(old(self).tasks@, final(self).tasks@, i)
                &&& final(self).queue@ == remove_all(old(self).queue@, id@).push(t.id)
                &&& r == Ok::<TaskSnapshot, String>(spec_snapshot(n))
                &&& n.id == t.id
                &&& n.input_url == t.input_url
                &&& n.output_directory == t.output_directory
                &&& n.output_file_name == t.output_file_name
                &&& n.created_at == t.created_at
                &&& n.status == TaskStatus::Queued
                &&& n.previous_status == TaskStatus::Queued
                &&& n.stage@ == "队列中"@
                &&& n.progress_completed == 0
                &&& n.progress_total == 0
                &&& n.error_summary is None
                &&& n.output_path is None
                &&& n.working_directory is None
                &&& n.completed_at is None
                &&& n.logs@.len() == 0
                &&& !n.worker_started
                &&& n.settings == match settings {
                    Some(s) => s,
                    None => t.settings,
                }
                &&& n.updated_at@ == now@
            },
    {
        let ghost old_self = *self;
        let found = self.find(id);
        self.queue = queue_without_id(&self.queue, id);
        proof {
            Self::lemma_queue_subset_after_remove(old_self, id@, self.queue@);
        }
        match found {
            None => Err(String::from_str("任务不存在。")),
            Some(i) => {
                let st = self.tasks[i].status;
                if !(st == TaskStatus::Failed || st == TaskStatus::Cancelled) {
                    return Err(String::from_str("只有失败或已取消的任务可以重试。"));
                }
                self.tasks[i].status = TaskStatus::Queued;
                self.tasks[i].previous_status = TaskStatus::Queued;
                self.tasks[i].stage = String::from_str("队列中");
                self.tasks[i].progress_completed = 0;
                self.tasks[i].progress_total = 0;
                self.tasks[i].error_summary = None;
                self.tasks[i].output_path = None;
                self.tasks[i].working_directory = None;
                self.tasks[i].completed_at = None;
                self.tasks[i].logs.clear();
                self.tasks[i].worker_started = false;
                if let Some(s) = settings {
                    self.tasks[i].settings = s;
                }
                self.tasks[i].updated_at = String::from_str(now);
                let snapshot = self.tasks[i].snapshot();
                let tid = self.tasks[i].id.clone();
                let ghost before_push = self.queue@;
                self.queue.push_back(tid);
                proof {
                    assert forall|k: int| 0 <= k < self.queue@.len() implies old_self.has_task(
                        (#[trigger] self.queue@[k])@,
                    ) by {
                        if k < before_push.len() {
                            assert(self.queue@[k] == before_push[k]);
                        } else {
                            assert(old_self.tasks@[i as int].id@ == id@);
                        }
                    }
                    Self::lemma_wf_after_update(old_self, *self, i as int);
                }
                Ok(snapshot)
            },
        }
    }
}

} // verus!

verus! {

impl TaskRegistry {
    /// Checks that a task may be deleted (only finished tasks may) and hands back its
    /// working directory, which must be cleaned before `remove_task`.
    pub fn deletable(&self, id: &str) -> (r: Result<Option<String>, String>)
        requires
            self.wf(),
        ensures
            !self.has_task(id@) ==> (r matches Err(e) && e@ == "任务不存在。"@),
            self.has_task(id@) && !spec_is_terminal(self.task(id@).status) ==> (r matches Err(e)
                && e@ == "只能删除已完成、失败或已取消的任务记录。"@),
            self.has_task(id@) && spec_is_terminal(self.task(id@).status) ==> r == Ok::<
                Option<String>,
                String,
            >(self.task(id@).working_directory),
    {
        match self.find(id) {
            None => Err(String::from_str("任务不存在。")),
            Some(i) => {
                if !is_terminal_status(&self.tasks[i].status) {
                    return Err(String::from_str("只能删除已完成、失败或已取消的任务记录。"));
                }
                Ok(clone_opt(&self.tasks[i].working_directory))
            },
        }
    }

    /// Forgets a task: its record, its queue entries and its running entry.
    pub fn remove_task(&mut self, id: &str)
        requires
            old(self).wf(),
        ensures
            final(self).wf(),
            !final(self).has_task(id@),
            forall|x: Seq<char>| x != id@ ==> (old(self).has_task(x) <==> final(self).has_task(x)),
            final(self).queue@ == remove_all(old(self).queue@, id@),
            final(self).running@ == remove_all(old(self).running@, id@),
            old(self).has_task(id@) ==> final(self).tasks@ == old(self).tasks@.remove(
                old(self).index_of(id@),
            ),
            !old(self).has_task(id@) ==> final(self).tasks@ == old(self).tasks@,
    {
        let ghost old_self = *self;
        let found = self.find(id);
        self.queue = queue_without_id(&self.queue, id);
        self.running = without_id(&self.running, id);
        proof {
            Self::lemma_queue_subset_after_remove(old_self, id@, self.queue@);
            Self::lemma_running_after_remove(old_self, id@, self.running@);
            lemma_remove_all(old_self.queue@, id@);
            lemma_remove_all(old_self.running@, id@);
        }
        if let Some(i) = found {
            self.tasks.remove(i);
            proof {
                let o = old_self.tasks@;
                let n = self.tasks@;
                assert forall|j: int| 0 <= j < n.len() implies (#[trigger] n[j]) == (if j < i {
                    o[j]
                } else {
                    o[j + 1]
                }) by {}
                assert forall|x: Seq<char>| x != id@ implies (old_self.has_task(x) <==> self.has_task(x)) by {
                    if old_self.has_task(x) {
                        let j = choose|j: int| 0 <= j < o.len() && (#[trigger] o[j]).id@ == x;
                        if j < i {
                            assert(n[j] == o[j]);
                        } else if j > i {
                            assert(n[j - 1] == o[j]);
                        }
                    }
                    if self.has_task(x) {
                        let j = choose|j: int| 0 <= j < n.len() && (#[trigger] n[j]).id@ == x;
                        if j < i {
                            assert(n[j] == o[j]);
                        } else {
                            assert(n[j] == o[j + 1]);
                        }
                    }
                }
                assert(!self.has_task(id@)) by {
                    if self.has_task(id@) {
                        let j = choose|j: int| 0 <= j < n.len() && (#[trigger] n[j]).id@ == id@;
                        if j < i {
                            assert(n[j] == o[j]);
                            assert(o[j].id@ != o[i as int].id@);
                        } else {
                            assert(n[j] == o[j + 1]);
                            assert(o[i as int].id@ != o[j + 1].id@);
                        }
                    }
                }
                assert forall|a: int, b: int| 0 <= a < b < n.len() implies (#[trigger] n[a]).id@ != (
                #[trigger] n[b]).id@ by {
                    let oa = if a < i { a } else { a + 1 };
                    let ob = if b < i { b } else { b + 1 };
                    assert(n[a] == o[oa]);
                    assert(n[b] == o[ob]);
                    assert(o[oa].id@ != o[ob].id@);
                }
                assert forall|k: int| 0 <= k < self.queue@.len() implies self.has_task(
                    (#[trigger] self.queue@[k])@,
                ) by {
                    assert(old_self.has_task(self.queue@[k]@));
                    if self.queue@[k]@ == id@ {
                        assert(holds_id(self.queue@, id@));
                    }
                }
                assert forall|k: int| 0 <= k < self.running@.len() implies self.has_task(
                    (#[trigger] self.running@[k])@,
                ) by {
                    assert(old_self.has_task(self.running@[k]@));
                    if self.running@[k]@ == id@ {
                        assert(holds_id(self.running@, id@));
                    }
                }
            }
        } else {
            proof {
                assert forall|k: int| 0 <= k < self.queue@.len() implies self.has_task(
                    (#[trigger] self.queue@[k])@,
                ) by {
                    assert(old_self.has_task(self.queue@[k]@));
                }
                assert forall|k: int| 0 <= k < self.running@.len() implies self.has_task(
                    (#[trigger] self.running@[k])@,
                ) by {
                    assert(old_self.has_task(self.running@[k]@));
                }
            }
        }
    }
}

} // verus!

verus! {

impl TaskRegistry {
    /// Offers the front of the queue one free slot.
    ///
    /// A task whose worker already runs (it was paused) gets its previous stage back and
    /// needs no launch; any other task is marked started and comes with a launch.
    pub fn schedule_one(&mut self, limit: usize, now: &str) -> (r: ScheduleStep)
        requires
            old(self).wf(),
        ensures
            final(self).wf(),
            old(self).running@.len() >= limit || old(self).queue@.len() == 0 ==> (r is Idle
                && *final(self) == *old(self)),
            old(self).running@.len() < limit && old(self).queue@.len() > 0 ==> {
                let id = old(self).queue@[0]@;
                &&& final(self).queue@ == old(self).queue@.drop_first()
                &&& if holds_id(old(self).running@, id) || !old(self).has_task(id)
                    || spec_is_terminal(old(self).task(id).status) {
                    &&& r is Skipped
                    &&& final(self).tasks@ == old(self).tasks@
                    &&& final(self).running@ == old(self).running@
                } else {
                    let i = old(self).index_of(id);
                    let t = old(self).tasks@[i];
                    let n = final(self).tasks@[i];
                    &&& same_except(old(self).tasks@, final(self).tasks@, i)
                    &&& final(self).running@.len() == old(self).running@.len() + 1
                    &&& final(self).running@.drop_last() == old(self).running@
                    &&& final(self).running@.last()@ == id
                    &&& n.updated_at@ == now@
                    &&& n.worker_started
                    &&& n.logs == t.logs
                    &&& r matches ScheduleStep::Started(s) && s.snapshot == spec_snapshot(n) && if t.worker_started {
                        &&& s.launch is None
                        &&& spec_continued(t, n)
                    } else {
                        &&& n.status == TaskStatus::Parsing
                        &&& n.previous_status == TaskStatus::Parsing
                        &&& n.stage@ == "正在解析网页"@
                        &&& spec_metadata(n) == (PersistedTaskMetadata {
                            status: n.status,
                            previous_status: n.previous_status,
                            stage: n.stage,
                            updated_at: n.updated_at,
                            ..spec_metadata(t)
                        })
                        &&& s.launch matches Some(l) && l.task_id == t.id && l.input_url
                            == t.input_url && l.output_directory == t.output_directory
                            && l.output_file_name == t.output_file_name && l.settings
                            == t.settings
                    }
                }
            },
    {
        let ghost old_self = *self;
        if self.running.len() >= limit || self.queue.len() == 0 {
            return ScheduleStep::Idle;
        }
        let front = self.queue.pop_front();
        let id = match front {
            None => {
                return ScheduleStep::Idle;
            },
            Some(id) => id,
        };
        proof {
            assert forall|k: int| 0 <= k < self.queue@.len() implies old_self.has_task(
                (#[trigger] self.queue@[k])@,
            ) by {
                assert(self.queue@[k] == old_self.queue@[k + 1]);
            }
            Self::lemma_wf_after_update(old_self, *self, 0);
        }
        if has_id(&self.running, id.as_str()) {
            return ScheduleStep::Skipped;
        }
        let i = match self.find(id.as_str()) {
            None => {
                return ScheduleStep::Skipped;
            },
            Some(i) => i,
        };
        if is_terminal_status(&self.tasks[i].status) {
            return ScheduleStep::Skipped;
        }
        let ghost mid = *self;
        let launch = if self.tasks[i].worker_started {
            let previous = self.tasks[i].previous_status;
            self.tasks[i].status = previous;
            self.tasks[i].stage = String::from_str(status_stage(&previous));
            self.tasks[i].updated_at = String::from_str(now);
            None
        } else {
            self.tasks[i].worker_started = true;
            self.tasks[i].status = TaskStatus::Parsing;
            self.tasks[i].previous_status = TaskStatus::Parsing;
            self.tasks[i].stage = String::from_str("正在解析网页");
            self.tasks[i].updated_at = String::from_str(now);
            Some(
                TaskLaunch {
                    task_id: self.tasks[i].id.clone(),
                    input_url: self.tasks[i].input_url.clone(),
                    output_directory: clone_opt(&self.tasks[i].output_directory),
                    output_file_name: clone_opt(&self.tasks[i].output_file_name),
                    settings: self.tasks[i].settings.clone(),
                },
            )
        };
        let snapshot = self.tasks[i].snapshot();
        self.running.push(id);
        proof {
            assert(mid.has_task(id@));
            assert forall|k: int| 0 <= k < self.running@.len() implies mid.has_task(
                (#[trigger] self.running@[k])@,
            ) by {
                if k < mid.running@.len() {
                    assert(self.running@[k] == mid.running@[k]);
                }
            }
            assert forall|a: int, b: int| 0 <= a < b < self.running@.len() implies (
            #[trigger] self.running@[a])@ != (#[trigger] self.running@[b])@ by {
                if b == mid.running@.len() {
                    assert(self.running@[a] == mid.running@[a]);
                    if self.running@[a]@ == id@ {
                        assert(holds_id(mid.running@, id@));
                    }
                } else {
                    assert(self.running@[a] == mid.running@[a]);
                    assert(self.running@[b] == mid.running@[b]);
                }
            }
            Self::lemma_wf_after_update(mid, *self, i as int);
            assert(self.running@.drop_last() =~= mid.running@);
        }
        ScheduleStep::Started(ScheduledStart { snapshot, launch })
    }

    /// In a well-formed registry the task at index `m` is the task of its id.
    proof fn lemma_index_of_unique(self, m: int)
        requires
            self.wf(),
            0 <= m < self.tasks@.len(),
        ensures
            self.has_task(self.tasks@[m].id@),
            self.index_of(self.tasks@[m].id@) == m,
    {
        let id = self.tasks@[m].id@;
        assert(self.tasks@[m].id@ == id);
        assert(self.has_task(id));
        let j = self.index_of(id);
        if j < m {
            assert(self.tasks@[j].id@ != self.tasks@[m].id@);
        } else if j > m {
            assert(self.tasks@[m].id@ != self.tasks@[j].id@);
        }
    }

    /// Midway through a pass that started the ids `s` from `before`, an id not among
    /// them is running exactly when it was, and its task is as it was.
    proof fn lemma_pass_midway(before: Self, cur: Self, s: Seq<Seq<char>>, x: Seq<char>)
        requires
            before.wf(),
            cur.wf(),
            views(cur.running@) == views(before.running@) + s,
            cur.tasks@.len() == before.tasks@.len(),
            forall|m: int| 0 <= m < cur.tasks@.len() ==> (#[trigger] cur.tasks@[m]).id@ == before.tasks@[m].id@,
            forall|m: int|
                0 <= m < cur.tasks@.len() && !s.contains(before.tasks@[m].id@) ==> cur.tasks@[m] == before.tasks@[m],
            forall|id: Seq<char>| before.has_task(id) <==> cur.has_task(id),
        ensures
            holds_id(cur.running@, x) <==> holds_id(before.running@, x) || s.contains(x),
            !s.contains(x) && cur.has_task(x) ==> cur.task(x) == before.task(x),
    {
        lemma_holds_id_views(cur.running@, x);
        lemma_holds_id_views(before.running@, x);
        lemma_concat_contains(views(before.running@), s, x);
        if !s.contains(x) && cur.has_task(x) {
            let m = cur.index_of(x);
            assert(cur.tasks@[m].id@ == x);
            assert(before.tasks@[m].id@ == x);
            assert(cur.tasks@[m] == before.tasks@[m]);
            before.lemma_index_of_unique(m);
        }
    }

    /// Starts queued tasks while fewer than the configured number are running.
    pub fn schedule(&mut self, max_concurrent: u64, now: &str) -> (r: Vec<ScheduledStart>)
        requires
            old(self).wf(),
        ensures
            final(self).wf(),
            forall|id: Seq<char>| old(self).has_task(id) <==> final(self).has_task(id),
            final(self).running@.len() <= old(self).running@.len() || final(self).running@.len()
                <= concurrent_limit_of(max_concurrent),
            schedule_holds(*old(self), *final(self), r@, concurrent_limit_of(max_concurrent), now@),
    {
        let limit = concurrent_task_limit(max_concurrent);
        let mut starts: Vec<ScheduledStart> = Vec::new();
        let ghost q0 = self.queue@;
        let ghost r0 = self.running@.len();
        let ghost ids0 = *self;
        let ghost mut k: int = 0;
        proof {
            assert(self.queue@ =~= q0.skip(0));
            assert(views(self.running@) =~= views(ids0.running@) + scheduled_ids(ids0, q0, 0));
        }
        loop
            invariant
                self.wf(),
                ids0.wf(),
                ids0.queue@ == q0,
                limit == concurrent_limit_of(max_concurrent),
                self.running@.len() <= r0 || self.running@.len() <= limit,
                r0 == ids0.running@.len(),
                self.tasks@.len() == ids0.tasks@.len(),
                forall|id: Seq<char>| ids0.has_task(id) <==> self.has_task(id),
                0 <= k <= q0.len(),
                self.queue@ == q0.skip(k),
                views(self.running@) == views(ids0.running@) + scheduled_ids(ids0, q0, k),
                forall|p: int| 0 <= p < k ==> r0 + (#[trigger] scheduled_ids(ids0, q0, p)).len() < limit,
                starts@.len() == scheduled_ids(ids0, q0, k).len(),
                forall|j: int| 0 <= j < starts@.len() ==> {
                    let sid = scheduled_ids(ids0, q0, k)[j];
                    &&& (#[trigger] starts@[j]).snapshot.task_id@ == sid
                    &&& self.has_task(sid)
                    &&& start_of(starts@[j], self.task(sid))
                    &&& started_from(ids0.task(sid), self.task(sid), now@)
                    &&& (starts@[j].launch is None <==> ids0.task(sid).worker_started)
                },
                forall|m: int| 0 <= m < self.tasks@.len() ==> (#[trigger] self.tasks@[m]).id@ == ids0.tasks@[m].id@,
                forall|m: int|
                    0 <= m < self.tasks@.len() && !scheduled_ids(ids0, q0, k).contains(ids0.tasks@[m].id@)
                        ==> self.tasks@[m] == ids0.tasks@[m],
            ensures
                self.running@.len() >= limit || self.queue@.len() == 0,
            decreases self.queue@.len(),
        {
            let ghost before = *self;
            let ghost sk = scheduled_ids(ids0, q0, k);
            let step = self.schedule_one(limit, now);
            match step {
                ScheduleStep::Idle => {
                    break;
                },
                ScheduleStep::Skipped => {
                    proof {
                        let x = q0[k]@;
                        assert(before.queue@[0] == q0[k]);
                        Self::lemma_pass_midway(ids0, before, sk, x);
                        assert(scheduled_ids(ids0, q0, k + 1) == sk);
                        assert(views(before.running@).len() == before.running@.len());
                        assert(r0 + sk.len() < limit);
                        k = k + 1;
                        assert(self.queue@ =~= q0.skip(k));
                    }
                },
                ScheduleStep::Started(s) => {
                    proof {
                        let x = q0[k]@;
                        assert(before.queue@[0] == q0[k]);
                        Self::lemma_pass_midway(ids0, before, sk, x);
                        let i = before.index_of(x);
                        assert(before.tasks@[i].id@ == x);
                        assert(!sk.contains(x));
                        assert(startable(ids0, x));
                        assert(scheduled_ids(ids0, q0, k + 1) == sk.push(x));
                        assert(views(before.running@).len() == before.running@.len());
                        assert(r0 + sk.len() < limit);
                        assert forall|m: int| 0 <= m < before.tasks@.len() implies (#[trigger] self.tasks@[m]).id@
                            == ids0.tasks@[m].id@ by {
                            if m != i {
                                assert(self.tasks@[m] == before.tasks@[m]);
                            }
                        }
                        self.lemma_index_of_unique(i);
                        assert(self.running@ =~= before.running@.push(self.running@.last()));
                        assert(views(self.running@) =~= views(before.running@).push(x));
                        assert(views(self.running@) =~= views(ids0.running@) + sk.push(x));
                        assert forall|j: int| 0 <= j < starts@.len() implies self.has_task(sk[j]) && self.task(sk[j])
                            == before.task(sk[j]) by {
                            let y = sk[j];
                            assert(starts@[j].snapshot.task_id@ == y);
                            let m = before.index_of(y);
                            assert(before.tasks@[m].id@ == y);
                            if m == i {
                                assert(sk[j] == x);
                                assert(false);
                            }
                            assert(self.tasks@[m] == before.tasks@[m]);
                            self.lemma_index_of_unique(m);
                        }
                        assert forall|m: int|
                            0 <= m < self.tasks@.len() && !sk.push(x).contains(ids0.tasks@[m].id@) implies self.tasks@[m]
                                == ids0.tasks@[m] by {
                            assert(sk.push(x)[sk.len() as int] == x);
                            if m == i {
                                assert(sk.push(x).contains(x));
                            }
                            if sk.contains(ids0.tasks@[m].id@) {
                                let q = choose|q: int| 0 <= q < sk.len() && sk[q] == ids0.tasks@[m].id@;
                                assert(sk.push(x)[q] == sk[q]);
                            }
                            assert(self.tasks@[m] == before.tasks@[m]);
                        }
                        assert forall|p: int| 0 <= p < k + 1 implies r0 + (#[trigger] scheduled_ids(ids0, q0, p)).len()
                            < limit by {
                        }
                        k = k + 1;
                        assert(self.queue@ =~= q0.skip(k));
                    }
                    let ghost old_starts = starts@;
                    starts.push(s);
                    proof {
                        let sk1 = scheduled_ids(ids0, q0, k);
                        assert forall|j: int| 0 <= j < starts@.len() implies {
                            let sid = sk1[j];
                            &&& (#[trigger] starts@[j]).snapshot.task_id@ == sid
                            &&& self.has_task(sid)
                            &&& start_of(starts@[j], self.task(sid))
                            &&& started_from(ids0.task(sid), self.task(sid), now@)
                            &&& (starts@[j].launch is None <==> ids0.task(sid).worker_started)
                        } by {
                            if j < old_starts.len() {
                                assert(starts@[j] == old_starts[j]);
                                assert(sk1[j] == sk[j]);
                            } else {
                                assert(sk1[j] == q0[k - 1]@);
                            }
                        }
                    }
                },
            }
        }
        proof {
            assert(q0.len() - self.queue@.len() == k);
        }
        starts
    }
}

/// The number of running slots for a stored concurrency value.
pub open spec fn concurrent_limit_of(stored: u64) -> int {
    if stored < 1 {
        1
    } else if stored > 8 {
        8
    } else {
        stored as int
    }
}

} // verus!

verus! {

impl TaskRegistry {
    proof fn lemma_wf_same_sets(old: Self, new: Self, i: int)
        requires
            old.wf(),
            0 <= i < old.tasks@.len(),
            same_except(old.tasks@, new.tasks@, i),
            new.tasks@[i].id@ == old.tasks@[i].id@,
            new.queue@ == old.queue@,
            new.running@ == old.running@,
        ensures
            new.wf(),
            forall|id: Seq<char>| old.has_task(id) <==> new.has_task(id),
    {
        Self::lemma_wf_after_update(old, new, i);
    }

    /// Records how a task's worker ended. The task leaves the running set and becomes
    /// completed, cancelled (the user asked for it) or failed.
    pub fn finish(
        &mut self,
        id: &str,
        result: Result<DownloadResult, String>,
        cancel_requested: bool,
        now: &str,
    ) -> (r: Option<(TaskSnapshot, FinishEvent)>)
        requires
            old(self).wf(),
        ensures
            final(self).wf(),
            final(self).queue@ == old(self).queue@,
            final(self).running@ == remove_all(old(self).running@, id@),
            !old(self).has_task(id@) ==> r is None && final(self).tasks@ == old(self).tasks@,
            old(self).has_task(id@) ==> {
                let i = old(self).index_of(id@);
                let t = old(self).tasks@[i];
                let n = final(self).tasks@[i];
                &&& same_except(old(self).tasks@, final(self).tasks@, i)
                &&& n.updated_at@ == now@
                &&& n.logs == t.logs
                &&& n.worker_started == t.worker_started
                &&& r matches Some((snap, event)) && snap == spec_snapshot(n) && match result {
                    Ok(res) => {
                        &&& n.status == TaskStatus::Completed
                        &&& n.stage@ == "下载完成"@
                        &&& n.output_path == Some(res.output_path)
                        &&& n.working_directory == (if res.working_directory@.len() == 0 {
                            None
                        } else {
                            Some(res.working_directory)
                        })
                        &&& n.error_summary is None
                        &&& n.completed_at matches Some(c) && c@ == now@
                        &&& spec_metadata(n) == (PersistedTaskMetadata {
                            status: n.status,
                            stage: n.stage,
                            output_path: n.output_path,
                            working_directory: n.working_directory,
                            error_summary: n.error_summary,
                            completed_at: n.completed_at,
                            updated_at: n.updated_at,
                            ..spec_metadata(t)
                        })
                        &&& event matches FinishEvent::Completed(d) && d.task_id@ == id@
                            && d.output_path == res.output_path && d.working_directory
                            == res.working_directory && d.duration_text == res.duration_text
                            && d.size_text == res.size_text && d.video_codec == res.video_codec
                            && d.audio_codec == res.audio_codec && d.width == res.width
                            && d.height == res.height
                    },
                    Err(message) => {
                        &&& n.completed_at is None
                        &&& spec_metadata(n) == (PersistedTaskMetadata {
                            status: n.status,
                            stage: n.stage,
                            error_summary: n.error_summary,
                            completed_at: n.completed_at,
                            updated_at: n.updated_at,
                            ..spec_metadata(t)
                        })
                        &&& if cancel_requested {
                            &&& n.status == TaskStatus::Cancelled
                            &&& n.stage@ == "已取消"@
                            &&& n.error_summary matches Some(e) && e@ == "下载已取消。"@
                            &&& event matches FinishEvent::Failed(p) && p.task_id@ == id@
                                && p.message@ == "下载已取消。"@
                        } else {
                            &&& n.status == TaskStatus::Failed
                            &&& n.stage@ == "下载失败"@
                            &&& n.error_summary == Some(message)
                            &&& event matches FinishEvent::Failed(p) && p.task_id@ == id@
                                && p.message == message
                        }
                    },
                }
            },
    {
        let ghost old_self = *self;
        let found = self.find(id);
        self.running = without_id(&self.running, id);
        proof {
            Self::lemma_running_after_remove(old_self, id@, self.running@);
        }
        let i = match found {
            None => {
                proof {
                    assert forall|k: int| 0 <= k < self.running@.len() implies self.has_task(
                        (#[trigger] self.running@[k])@,
                    ) by {
                        assert(old_self.has_task(self.running@[k]@));
                    }
                }
                return None;
            },
            Some(i) => i,
        };
        let event = match result {
            Ok(res) => {
                self.tasks[i].status = TaskStatus::Completed;
                self.tasks[i].stage = String::from_str("下载完成");
                self.tasks[i].output_path = Some(res.output_path.clone());
                self.tasks[i].working_directory = if res.working_directory.as_str().is_empty() {
                    None
                } else {
                    Some(res.working_directory.clone())
                };
                self.tasks[i].error_summary = None;
                self.tasks[i].completed_at = Some(String::from_str(now));
                FinishEvent::Completed(DownloadResult { task_id: String::from_str(id), ..res })
            },
            Err(message) => {
                if cancel_requested {
                    self.tasks[i].status = TaskStatus::Cancelled;
                    self.tasks[i].stage = String::from_str("已取消");
                    self.tasks[i].error_summary = Some(String::from_str("下载已取消。"));
                    self.tasks[i].completed_at = None;
                    FinishEvent::Failed(
                        ErrorPayload {
                            task_id: String::from_str(id),
                            message: String::from_str("下载已取消。"),
                        },
                    )
                } else {
                    self.tasks[i].status = TaskStatus::Failed;
                    self.tasks[i].stage = String::from_str("下载失败");
                    self.tasks[i].error_summary = Some(message.clone());
                    self.tasks[i].completed_at = None;
                    FinishEvent::Failed(ErrorPayload { task_id: String::from_str(id), message })
                }
            },
        };
        self.tasks[i].updated_at = String::from_str(now);
        proof {
            Self::lemma_wf_after_update(old_self, *self, i as int);
        }
        Some((self.tasks[i].snapshot(), event))
    }

    /// Appends a log message to the task `id`; false if there is no such task.
    pub fn append_log(&mut self, id: &str, message: &str, now: &str) -> (r: bool)
        requires
            old(self).wf(),
        ensures
            final(self).wf(),
            final(self).queue@ == old(self).queue@,
            final(self).running@ == old(self).running@,
            r == old(self).has_task(id@),
            !r ==> final(self).tasks@ == old(self).tasks@,
            r ==> {
                let i = old(self).index_of(id@);
                let t = old(self).tasks@[i];
                let n = final(self).tasks@[i];
                &&& same_except(old(self).tasks@, final(self).tasks@, i)
                &&& views(n.logs@) == append_lines(views(t.logs@), lines(message@))
                &&& n.updated_at@ == now@
                &&& spec_metadata(n) == (PersistedTaskMetadata {
                    updated_at: n.updated_at,
                    ..spec_metadata(t)
                })
                &&& n.worker_started == t.worker_started
            },
    {
        let ghost old_self = *self;
        match self.find(id) {
            None => false,
            Some(i) => {
                self.tasks[i].append_log(message, now);
                proof {
                    Self::lemma_wf_same_sets(old_self, *self, i as int);
                }
                true
            },
        }
    }

    /// Moves the task `id` to a pipeline stage (a paused task keeps its status).
    pub fn set_stage(&mut self, id: &str, status: TaskStatus, stage: &str, now: &str) -> (r:
        Option<TaskSnapshot>)
        requires
            old(self).wf(),
        ensures
            final(self).wf(),
            final(self).queue@ == old(self).queue@,
            final(self).running@ == old(self).running@,
            !old(self).has_task(id@) ==> r is None && final(self).tasks@ == old(self).tasks@,
            old(self).has_task(id@) ==> {
                let i = old(self).index_of(id@);
                let t = old(self).tasks@[i];
                let n = final(self).tasks@[i];
                &&& same_except(old(self).tasks@, final(self).tasks@, i)
                &&& r == Some(spec_snapshot(n))
                &&& (t.status != TaskStatus::Paused ==> n.status == status && n.previous_status
                    == status)
                &&& (t.status == TaskStatus::Paused ==> n.status == t.status && n.previous_status
                    == t.previous_status)
                &&& n.stage@ == stage@
                &&& n.updated_at@ == now@
                &&& changed_meta(t, n, PersistedTaskMetadata {
                    status: n.status,
                    previous_status: n.previous_status,
                    stage: n.stage,
                    updated_at: n.updated_at,
                    ..spec_metadata(t)
                })
            },
    {
        let ghost old_self = *self;
        match self.find(id) {
            None => None,
            Some(i) => {
                self.tasks[i].set_stage(status, stage, now);
                proof {
                    Self::lemma_wf_same_sets(old_self, *self, i as int);
                }
                Some(self.tasks[i].snapshot())
            },
        }
    }

    /// Records download progress of the task `id`; false if there is no such task.
    pub fn set_progress(&mut self, id: &str, completed: usize, total: usize, now: &str) -> (r:
        bool)
        requires
            old(self).wf(),
        ensures
            final(self).wf(),
            final(self).queue@ == old(self).queue@,
            final(self).running@ == old(self).running@,
            r == old(self).has_task(id@),
            !r ==> final(self).tasks@ == old(self).tasks@,
            r ==> {
                let i = old(self).index_of(id@);
                let t = old(self).tasks@[i];
                let n = final(self).tasks@[i];
                &&& same_except(old(self).tasks@, final(self).tasks@, i)
                &&& n.updated_at@ == now@
                &&& changed_meta(t, n, PersistedTaskMetadata {
                    progress_completed: completed,
                    progress_total: total,
                    updated_at: n.updated_at,
                    ..spec_metadata(t)
                })
            },
    {
        let ghost old_self = *self;
        match self.find(id) {
            None => false,
            Some(i) => {
                self.tasks[i].set_progress(completed, total, now);
                proof {
                    Self::lemma_wf_same_sets(old_self, *self, i as int);
                }
                true
            },
        }
    }

    /// Records the working directory and/or output path of the task `id`.
    pub fn set_paths(
        &mut self,
        id: &str,
        working_dir: Option<&str>,
        output_path: Option<&str>,
        now: &str,
    ) -> (r: Option<TaskSnapshot>)
        requires
            old(self).wf(),
        ensures
            final(self).wf(),
            final(self).queue@ == old(self).queue@,
            final(self).running@ == old(self).running@,
            !old(self).has_task(id@) ==> r is None && final(self).tasks@ == old(self).tasks@,
            old(self).has_task(id@) ==> {
                let i = old(self).index_of(id@);
                let t = old(self).tasks@[i];
                let n = final(self).tasks@[i];
                &&& same_except(old(self).tasks@, final(self).tasks@, i)
                &&& r == Some(spec_snapshot(n))
                &&& match working_dir {
                    Some(w) => n.working_directory matches Some(x) && x@ == w@,
                    None => n.working_directory == t.working_directory,
                }
                &&& match output_path {
                    Some(o) => n.output_path matches Some(x) && x@ == o@,
                    None => n.output_path == t.output_path,
                }
                &&& n.updated_at@ == now@
                &&& changed_meta(t, n, PersistedTaskMetadata {
                    working_directory: n.working_directory,
                    output_path: n.output_path,
                    updated_at: n.updated_at,
                    ..spec_metadata(t)
                })
            },
    {
        let ghost old_self = *self;
        match self.find(id) {
            None => None,
            Some(i) => {
                self.tasks[i].set_paths(working_dir, output_path, now);
                proof {
                    Self::lemma_wf_same_sets(old_self, *self, i as int);
                }
                Some(self.tasks[i].snapshot())
            },
        }
    }

    /// Offers the task `id` a name taken from the page title.
    pub fn suggest_name(&mut self, id: &str, suggested_name: &str, now: &str) -> (r: Option<
        TaskSnapshot,
    >)
        requires
            old(self).wf(),
        ensures
            final(self).wf(),
            final(self).queue@ == old(self).queue@,
            final(self).running@ == old(self).running@,
            !old(self).has_task(id@) ==> r is None && final(self).tasks@ == old(self).tasks@,
            old(self).has_task(id@) ==> {
                let i = old(self).index_of(id@);
                let t = old(self).tasks@[i];
                let n = final(self).tasks@[i];
                let blank = match t.output_file_name {
                    Some(x) => crate::text::trim(x@).len() == 0,
                    None => true,
                };
                &&& same_except(old(self).tasks@, final(self).tasks@, i)
                &&& r == Some(spec_snapshot(n))
                &&& n.logs@ == t.logs@
                &&& n.worker_started == t.worker_started
                &&& (blank ==> (n.output_file_name matches Some(x) && x@ == suggested_name@)
                    && n.updated_at@ == now@ && spec_metadata(n) == (PersistedTaskMetadata {
                    output_file_name: n.output_file_name,
                    updated_at: n.updated_at,
                    ..spec_metadata(t)
                }))
                &&& (!blank ==> spec_metadata(n) == spec_metadata(t))
            },
    {
        let ghost old_self = *self;
        match self.find(id) {
            None => None,
            Some(i) => {
                self.tasks[i].suggest_name(suggested_name, now);
                proof {
                    Self::lemma_wf_same_sets(old_self, *self, i as int);
                }
                Some(self.tasks[i].snapshot())
            },
        }
    }
}

} // verus!

verus! {

/// The listing key of a task: its group and its listing time.
pub open spec fn group_of(t: TaskRecord) -> u8 {
    spec_sort_group(t.status)
}

pub open spec fn time_of(t: TaskRecord) -> Seq<char> {
    spec_sort_time(spec_snapshot(t))
}

/// `h` is the history entry of task `t`.
pub open spec fn is_history_of(h: TaskHistorySnapshot, t: TaskRecord) -> bool {
    h.snapshot == spec_snapshot(t) && h.logs@ == join(views(t.logs@), "\n"@)
}

impl TaskRegistry {
    /// The history list: every task once, unfinished tasks first (newest added first),
    /// then failed or cancelled ones (latest activity first), then completed ones
    /// (latest completion first).
    #[verifier::rlimit(40)]
    pub fn history(&self) -> (r: Vec<TaskHistorySnapshot>)
        ensures
            r@.len() == self.tasks@.len(),
            exists|perm: Seq<usize>|
                {
                    &&& is_permutation(perm, self.tasks@.len() as int)
                    &&& forall|k: int|
                        0 <= k < r@.len() ==> is_history_of(
                            #[trigger] r@[k],
                            self.tasks@[perm[k] as int],
                        )
                },
            forall|k: int|
                0 <= k < r@.len() - 1 ==> !key_before(
                    spec_sort_group(r@[k + 1].snapshot.status),
                    spec_sort_time(r@[k + 1].snapshot),
                    spec_sort_group((#[trigger] r@[k]).snapshot.status),
                    spec_sort_time(r@[k].snapshot),
                    true,
                ),
            forall|k: int|
                0 <= k < r@.len() - 1 ==> spec_sort_group((#[trigger] r@[k]).snapshot.status) <= spec_sort_group(
                    r@[k + 1].snapshot.status,
                ),
            forall|k: int|
                0 <= k < r@.len() - 1 && spec_sort_group((#[trigger] r@[k]).snapshot.status) == spec_sort_group(
                    r@[k + 1].snapshot.status,
                ) ==> !seq_lt(spec_sort_time(r@[k].snapshot), spec_sort_time(r@[k + 1].snapshot)),
    {
        let mut groups: Vec<u8> = Vec::new();
        let mut times: Vec<Vec<char>> = Vec::new();
        let mut i: usize = 0;
        while i < self.tasks.len()
            invariant
                i <= self.tasks@.len(),
                groups@.len() == i,
                times@.len() == i,
                forall|k: int| 0 <= k < i ==> #[trigger] groups@[k] == group_of(self.tasks@[k]),
                forall|k: int| 0 <= k < i ==> (#[trigger] times@[k])@ == time_of(self.tasks@[k]),
            decreases self.tasks@.len() - i,
        {
            let snap = self.tasks[i].snapshot();
            groups.push(task_snapshot_sort_group(&snap));
            times.push(chars_of(task_snapshot_sort_time(&snap)));
            i = i + 1;
        }
        let order = sorted_order(&groups, &times, true);
        let mut r: Vec<TaskHistorySnapshot> = Vec::new();
        let mut k: usize = 0;
        while k < order.len()
            invariant
                order@.len() == self.tasks@.len(),
                is_permutation(order@, self.tasks@.len() as int),
                k <= order@.len(),
                r@.len() == k,
                forall|m: int| 0 <= m < k ==> is_history_of(#[trigger] r@[m], self.tasks@[order@[m] as int]),
            decreases order@.len() - k,
        {
            r.push(self.tasks[order[k]].history_snapshot());
            k = k + 1;
        }
        proof {
            assert forall|m: int| 0 <= m < r@.len() - 1 implies !key_before(
                spec_sort_group(r@[m + 1].snapshot.status),
                spec_sort_time(r@[m + 1].snapshot),
                spec_sort_group((#[trigger] r@[m]).snapshot.status),
                spec_sort_time(r@[m].snapshot),
                true,
            ) by {
                assert(is_history_of(r@[m], self.tasks@[order@[m] as int]));
                assert(is_history_of(r@[m + 1], self.tasks@[order@[m + 1] as int]));
                assert(groups@[order@[m] as int] == group_of(self.tasks@[order@[m] as int]));
                assert(times@[order@[m] as int]@ == time_of(self.tasks@[order@[m] as int]));
                assert(groups@[order@[m + 1] as int] == group_of(self.tasks@[order@[m + 1] as int]));
                assert(times@[order@[m + 1] as int]@ == time_of(self.tasks@[order@[m + 1] as int]));
            }
            lemma_listing_order(r@);
        }
        r
    }

    /// The creation times of all tasks, in task order.
    pub fn creation_times(&self) -> (r: Vec<Vec<char>>)
        ensures
            r@.len() == self.tasks@.len(),
            forall|k: int| 0 <= k < r@.len() ==> (#[trigger] r@[k])@ == self.tasks@[k].created_at@,
    {
        let mut times: Vec<Vec<char>> = Vec::new();
        let mut i: usize = 0;
        while i < self.tasks.len()
            invariant
                i <= self.tasks@.len(),
                times@.len() == i,
                forall|k: int| 0 <= k < i ==> (#[trigger] times@[k])@ == self.tasks@[k].created_at@,
            decreases self.tasks@.len() - i,
        {
            times.push(chars_of(self.tasks[i].created_at.as_str()));
            i = i + 1;
        }
        times
    }

    /// The task indices ordered by creation time, oldest first (stable).
    pub fn creation_order(&self) -> (r: Vec<usize>)
        ensures
            is_permutation(r@, self.tasks@.len() as int),
            forall|k: int|
                0 <= k < r@.len() - 1 ==> !key_before(
                    0,
                    self.tasks@[r@[k + 1] as int].created_at@,
                    0,
                    self.tasks@[#[trigger] r@[k] as int].created_at@,
                    false,
                ),
    {
        let times = self.creation_times();
        let groups: Vec<u8> = vec![0u8; times.len()];
        let order = sorted_order(&groups, &times, false);
        proof {
            assert forall|m: int| 0 <= m < order@.len() - 1 implies !key_before(
                0,
                self.tasks@[order@[m + 1] as int].created_at@,
                0,
                self.tasks@[#[trigger] order@[m] as int].created_at@,
                false,
            ) by {
                assert(times@[order@[m] as int]@ == self.tasks@[order@[m] as int].created_at@);
                assert(times@[order@[m + 1] as int]@ == self.tasks@[order@[m + 1] as int].created_at@);
                assert(groups@[order@[m] as int] == 0);
                assert(groups@[order@[m + 1] as int] == 0);
            }
        }
        order
    }

    /// The persisted form of every task (metadata and log text), oldest created first:
    /// the order of the history index.
    pub fn persisted_metadata(&self) -> (r: Vec<PersistedTask>)
        ensures
            r@.len() == self.tasks@.len(),
            exists|perm: Seq<usize>|
                {
                    &&& is_permutation(perm, self.tasks@.len() as int)
                    &&& forall|k: int|
                        0 <= k < r@.len() ==> is_persisted_form(#[trigger] r@[k], self.tasks@[perm[k] as int])
                },
            forall|k: int|
                0 <= k < r@.len() - 1 ==> !key_before(
                    0,
                    r@[k + 1].metadata.created_at@,
                    0,
                    (#[trigger] r@[k]).metadata.created_at@,
                    false,
                ),
    {
        let order = self.creation_order();
        let mut r: Vec<PersistedTask> = Vec::new();
        let mut k: usize = 0;
        while k < order.len()
            invariant
                order@.len() == self.tasks@.len(),
                is_permutation(order@, self.tasks@.len() as int),
                k <= order@.len(),
                r@.len() == k,
                forall|m: int| 0 <= m < k ==> is_persisted_form(#[trigger] r@[m], self.tasks@[order@[m] as int]),
            decreases order@.len() - k,
        {
            r.push(PersistedTask::from_task(&self.tasks[order[k]]));
            k = k + 1;
        }
        proof {
            assert forall|m: int| 0 <= m < r@.len() - 1 implies !key_before(
                0,
                r@[m + 1].metadata.created_at@,
                0,
                (#[trigger] r@[m]).metadata.created_at@,
                false,
            ) by {
                assert(is_persisted_form(r@[m], self.tasks@[order@[m] as int]));
                assert(is_persisted_form(r@[m + 1], self.tasks@[order@[m + 1] as int]));
            }
        }
        r
    }
}

/// A task as written to disk: its metadata file and its log file.
pub struct PersistedTask {
    pub metadata: PersistedTaskMetadata,
    pub logs: String,
}

/// `p` is what is written to disk for task `t`.
pub open spec fn is_persisted_form(p: PersistedTask, t: TaskRecord) -> bool {
    p.metadata == spec_metadata(t) && p.logs@ == join(views(t.logs@), "\n"@)
}

impl PersistedTask {
    pub fn from_task(t: &TaskRecord) -> (r: Self)
        ensures
            is_persisted_form(r, *t),
    {
        PersistedTask { metadata: PersistedTaskMetadata::from_task(t), logs: t.logs_text() }
    }
}

} // verus!

verus! {

/// A task read back from disk: its metadata and its stored log lines.
pub struct StoredTask {
    pub metadata: PersistedTaskMetadata,
    pub logs: Vec<String>,
}

/// `t` is restored from `items[j]`, the last stored entry with that id.
pub open spec fn restored_from_last(items: Seq<StoredTask>, now: Seq<char>, t: TaskRecord) -> bool {
    exists|j: int|
        0 <= j < items.len() && spec_restored(
            (#[trigger] items[j]).metadata,
            items[j].logs@,
            now,
            t,
        ) && forall|j2: int| j < j2 < items.len() ==> (#[trigger] items[j2]).metadata.id@ != items[j].metadata.id@
}

/// The number in an id of the form `task-<n>`.
pub open spec fn task_number(id: Seq<char>) -> Option<u64> {
    if starts_with(id, "task-"@) {
        parse_u64_spec(id.skip("task-"@.len() as int))
    } else {
        None
    }
}

/// The largest task number among the tasks (0 if there is none).
pub open spec fn max_task_number(tasks: Seq<TaskRecord>) -> u64
    decreases tasks.len(),
{
    if tasks.len() == 0 {
        0
    } else {
        let rest = max_task_number(tasks.drop_last());
        match task_number(tasks.last().id@) {
            Some(n) => if n > rest {
                n
            } else {
                rest
            },
            None => rest,
        }
    }
}

impl TaskRegistry {
    /// Rebuilds the registry from what was stored on disk. Nothing comes back queued or
    /// running; for a repeated id the last stored entry counts.
    pub fn restore(items: Vec<StoredTask>, now: &str) -> (r: Self)
        ensures
            r.wf(),
            r.queue@.len() == 0,
            r.running@.len() == 0,
            forall|k: int| 0 <= k < r.tasks@.len() ==> spec_is_terminal((#[trigger] r.tasks@[k]).status),
            forall|k: int| 0 <= k < r.tasks@.len() ==> restored_from_last(items@, now@, #[trigger] r.tasks@[k]),
            forall|j: int| 0 <= j < items@.len() ==> r.has_task((#[trigger] items@[j]).metadata.id@),
    {
        let ghost all = items@;
        let mut items = items;
        let mut reg = TaskRegistry::new();
        while items.len() > 0
            invariant
                reg.wf(),
                reg.queue@.len() == 0,
                reg.running@.len() == 0,
                items@.len() <= all.len(),
                items@ == all.take(items@.len() as int),
                forall|k: int| 0 <= k < reg.tasks@.len() ==> spec_is_terminal((#[trigger] reg.tasks@[k]).status),
                forall|k: int| 0 <= k < reg.tasks@.len() ==> restored_from_last(all, now@, #[trigger] reg.tasks@[k]),
                forall|j: int| items@.len() <= j < all.len() ==> reg.has_task((#[trigger] all[j]).metadata.id@),
            decreases items@.len(),
        {
            let ghost n = items@.len() - 1;
            let item = items.pop().unwrap();
            proof {
                assert(item == all[n]);
                assert(items@ =~= all.take(n));
            }
            let StoredTask { metadata, logs } = item;
            if reg.find(metadata.id.as_str()).is_none() {
                let ghost before = reg;
                let ghost mid = metadata.id@;
                let t = task_from_metadata(metadata, logs, now);
                proof {
                    assert(spec_restored(all[n].metadata, all[n].logs@, now@, t));
                    assert(t.id@ == mid);
                    assert(spec_is_terminal(t.status));
                    assert forall|j2: int| n < j2 < all.len() implies (#[trigger] all[j2]).metadata.id@ != all[n].metadata.id@ by {
                        assert(before.has_task(all[j2].metadata.id@));
                    }
                    assert(restored_from_last(all, now@, t));
                }
                reg.tasks.push(t);
                proof {
                    let m = before.tasks@.len() as int;
                    assert forall|id: Seq<char>| before.has_task(id) implies reg.has_task(id) by {
                        let j = choose|j: int| 0 <= j < m && (#[trigger] before.tasks@[j]).id@ == id;
                        assert(reg.tasks@[j] == before.tasks@[j]);
                    }
                    assert(reg.tasks@[m].id@ == mid);
                    assert forall|a: int, b: int| 0 <= a < b < reg.tasks@.len() implies (
                    #[trigger] reg.tasks@[a]).id@ != (#[trigger] reg.tasks@[b]).id@ by {
                        assert(reg.tasks@[a] == before.tasks@[a]);
                        if b == m {
                            if reg.tasks@[a].id@ == mid {
                                assert(before.has_task(mid));
                            }
                        } else {
                            assert(reg.tasks@[b] == before.tasks@[b]);
                        }
                    }
                    assert forall|k: int| 0 <= k < reg.tasks@.len() implies spec_is_terminal((#[trigger] reg.tasks@[k]).status) by {
                        if k < m {
                            assert(reg.tasks@[k] == before.tasks@[k]);
                        }
                    }
                    assert forall|k: int| 0 <= k < reg.tasks@.len() implies restored_from_last(all, now@, #[trigger] reg.tasks@[k]) by {
                        if k < m {
                            assert(reg.tasks@[k] == before.tasks@[k]);
                        }
                    }
                    assert(reg.has_task(mid));
                }
            }
        }
        reg
    }

    /// The largest number `n` among ids of the form `task-<n>` (0 if there is none).
    pub fn max_task_sequence(&self) -> (r: u64)
        ensures
            r == max_task_number(self.tasks@),
    {
        let prefix = chars_of("task-");
        let mut best: u64 = 0;
        let mut i: usize = 0;
        while i < self.tasks.len()
            invariant
                prefix@ == "task-"@,
                i <= self.tasks@.len(),
                best == max_task_number(self.tasks@.take(i as int)),
            decreases self.tasks@.len() - i,
        {
            proof {
                assert(self.tasks@.take(i + 1).drop_last() =~= self.tasks@.take(i as int));
                assert(self.tasks@.take(i + 1).last() == self.tasks@[i as int]);
            }
            let id = chars_of(self.tasks[i].id.as_str());
            if starts_with_chars(&id, &prefix) {
                let rest = slice_chars(&id, prefix.len(), id.len());
                assert(rest@ =~= id@.skip("task-"@.len() as int));
                if let Some(n) = parse_u64(&rest) {
                    if n > best {
                        best = n;
                    }
                }
            }
            i = i + 1;
        }
        assert(self.tasks@.take(self.tasks@.len() as int) =~= self.tasks@);
        best
    }

    /// The number for the next new task id: one more than the largest in use.
    pub fn next_task_sequence(&self) -> (r: u64)
        requires
            max_task_number(self.tasks@) < u64::MAX,
        ensures
            r == max_task_number(self.tasks@) + 1,
    {
        self.max_task_sequence() + 1
    }
}

/// Whether the throttled history write is due: never written yet, or the last write is
/// at least 1.2 s (1200 ms) old.
pub fn persist_task_registry_throttled(elapsed_since_last_ms: Option<u128>) -> (r: bool)
    ensures
        r == match elapsed_since_last_ms {
            None => true,
            Some(ms) => ms >= 1200,
        },
{
    match elapsed_since_last_ms {
        None => true,
        Some(ms) => ms >= 1200,
    }
}

} // verus!

verus! {

impl StoredTask {
    /// A task from the legacy single-file history.
    pub fn from_record(record: PersistedTaskRecord) -> (r: Self)
        ensures
            r.metadata == spec_metadata_of_record(record),
            r.logs@ == record.logs@,
    {
        let metadata = PersistedTaskMetadata::from_record(&record);
        let PersistedTaskRecord { logs, .. } = record;
        StoredTask { metadata, logs }
    }
}

} // verus!
