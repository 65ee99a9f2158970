//! The local scheduler: tasks that run again once their interval has passed,
//! and the history of their runs.
use vstd::prelude::*;
use crate::clock::{elapsed_seconds, now, seconds_between, Timestamp};
use crate::server::ExecResult;
use crate::text::{
    chars_of, copy_str, parse_i64, parse_i64_range, str_eq, trim_end_char,
    trim_end_char_bound,
};

verus! {

/// A scheduled task.
pub struct ScheduledTask {
    pub id: String,
    pub name: String,
    pub command: String,
    pub schedule: String,
    pub enabled: bool,
    pub last_run: Option<Timestamp>,
}

/// What a scheduled task is, as contracts speak of it.
pub struct TaskView {
    pub id: Seq<char>,
    pub name: Seq<char>,
    pub command: Seq<char>,
    pub schedule: Seq<char>,
    pub enabled: bool,
    pub last_run: Option<Timestamp>,
}

impl View for ScheduledTask {
    type V = TaskView;

    open spec fn view(&self) -> TaskView {
        TaskView {
            id: self.id@,
            name: self.name@,
            command: self.command@,
            schedule: self.schedule@,
            enabled: self.enabled,
            last_run: self.last_run,
        }
    }
}

impl ScheduledTask {
    /// A copy of the task.
    pub fn duplicate(&self) -> (r: ScheduledTask)
        ensures
            r@ == self@,
    {
        ScheduledTask {
            id: self.id.clone(),
            name: self.name.clone(),
            command: self.command.clone(),
            schedule: self.schedule.clone(),
            enabled: self.enabled,
            last_run: self.last_run,
        }
    }
}

/// The record of one run of a task.
pub struct TaskResult {
    pub task_id: String,
    pub timestamp: Timestamp,
    pub success: bool,
    pub output: String,
    pub exit_code: Option<i32>,
}

/// What a run record is, as contracts speak of it.
pub struct ResultView {
    pub task_id: Seq<char>,
    pub timestamp: Timestamp,
    pub success: bool,
    pub output: Seq<char>,
    pub exit_code: Option<i32>,
}

impl View for TaskResult {
    type V = ResultView;

    open spec fn view(&self) -> ResultView {
        ResultView {
            task_id: self.task_id@,
            timestamp: self.timestamp,
            success: self.success,
            output: self.output@,
            exit_code: self.exit_code,
        }
    }
}

impl TaskResult {
    /// A copy of the record.
    pub fn duplicate(&self) -> (r: TaskResult)
        ensures
            r@ == self@,
    {
        TaskResult {
            task_id: self.task_id.clone(),
            timestamp: self.timestamp,
            success: self.success,
            output: self.output.clone(),
            exit_code: self.exit_code,
        }
    }
}

/// The views of `v`, in order.
pub open spec fn task_views(v: Seq<ScheduledTask>) -> Seq<TaskView> {
    Seq::new(v.len(), |i: int| v[i]@)
}

/// The views of `v`, in order.
pub open spec fn result_views(v: Seq<TaskResult>) -> Seq<ResultView> {
    Seq::new(v.len(), |i: int| v[i]@)
}

// ---------------------------------------------------------------------------
// Schedules
// ---------------------------------------------------------------------------

/// `o`, or `d` when it is `None`.
pub open spec fn or_default(o: Option<i64>, d: int) -> int {
    match o {
        Some(v) => v as int,
        None => d,
    }
}

/// The interval in seconds of a schedule (`parse_interval`): `"<n>h"` hours
/// (1 when `n` does not parse), `"<n>m"` minutes (1), `"<n>s"` seconds (60),
/// otherwise a plain number of seconds (3600).  Repeated unit letters are
/// all dropped before parsing.  The product is exact, never wrapped.
pub open spec fn interval_secs(s: Seq<char>) -> int {
    if s.len() > 0 && s.last() == 'h' {
        or_default(parse_i64(trim_end_char(s, 'h')), 1) * 3600
    } else if s.len() > 0 && s.last() == 'm' {
        or_default(parse_i64(trim_end_char(s, 'm')), 1) * 60
    } else if s.len() > 0 && s.last() == 's' {
        or_default(parse_i64(trim_end_char(s, 's')), 60)
    } else {
        or_default(parse_i64(s), 3600)
    }
}

/// The interval in seconds of a schedule.
pub fn parse_interval(schedule: &str) -> (r: i128)
    ensures
        r == interval_secs(schedule@),
{
    let v = chars_of(schedule);
    let n = v.len();
    if n > 0 && (v[n - 1] == 'h' || v[n - 1] == 'm' || v[n - 1] == 's') {
        let unit = v[n - 1];
        let hi = trim_end_char_bound(&v, unit);
        assert(v@.subrange(0, hi as int) =~= v@.take(hi as int));
        let parsed = parse_i64_range(&v, 0, hi);
        if unit == 'h' {
            match parsed {
                Some(x) => x as i128 * 3600,
                None => 3600,
            }
        } else if unit == 'm' {
            match parsed {
                Some(x) => x as i128 * 60,
                None => 60,
            }
        } else {
            match parsed {
                Some(x) => x as i128,
                None => 60,
            }
        }
    } else {
        assert(v@.subrange(0, n as int) =~= v@);
        match parse_i64_range(&v, 0, n) {
            Some(x) => x as i128,
            None => 3600,
        }
    }
}

/// Whether a task runs at `now`: it is enabled, and it never ran or its
/// interval has passed since its last run.
pub open spec fn is_due(t: TaskView, now: Timestamp) -> bool {
    t.enabled && match t.last_run {
        None => true,
        Some(last) => seconds_between(now, last) >= interval_secs(t.schedule),
    }
}

/// A task after the check at `now`: marked as run at `now` when it was due.
pub open spec fn after_check(t: TaskView, now: Timestamp) -> TaskView {
    if is_due(t, now) {
        TaskView { last_run: Some(now), ..t }
    } else {
        t
    }
}

/// Seconds between two passes of the scheduler loop.
pub const TICK_SECS: u64 = 60;

/// The tasks of `ts` that are due at `now`, in task order.
pub open spec fn due_tasks(ts: Seq<TaskView>, now: Timestamp) -> Seq<TaskView>
    decreases ts.len(),
{
    if ts.len() == 0 {
        Seq::empty()
    } else {
        let rest = due_tasks(ts.drop_last(), now);
        if is_due(ts.last(), now) {
            rest.push(ts.last())
        } else {
            rest
        }
    }
}

/// The record of the run of `t` at `now` whose command gave `o`: its
/// success, output and exit code.
pub open spec fn run_record(t: TaskView, now: Timestamp, o: ExecResult) -> ResultView {
    ResultView {
        task_id: t.id,
        timestamp: now,
        success: o.success,
        output: o.output@,
        exit_code: Some(o.exit_code),
    }
}

/// The records of a check of `ts` at `now` whose due tasks, run in order,
/// gave `outs`: one record per due task, in task order.
pub open spec fn due_records(ts: Seq<TaskView>, now: Timestamp, outs: Seq<ExecResult>) -> Seq<
    ResultView,
> {
    Seq::new(due_tasks(ts, now).len(), |k: int| run_record(due_tasks(ts, now)[k], now, outs[k]))
}

/// The tasks without those whose id is `id`, in order.
pub open spec fn without_id(ts: Seq<TaskView>, id: Seq<char>) -> Seq<TaskView>
    decreases ts.len(),
{
    if ts.len() == 0 {
        Seq::empty()
    } else {
        let rest = without_id(ts.drop_last(), id);
        if ts.last().id == id {
            rest
        } else {
            rest.push(ts.last())
        }
    }
}

/// The index of the first task from `j` on whose id is `id` (`ts.len()`
/// when there is none).
pub open spec fn first_task_with_id(ts: Seq<TaskView>, id: Seq<char>, j: int) -> int
    decreases ts.len() - j,
{
    if j < 0 || j >= ts.len() {
        ts.len() as int
    } else if ts[j].id == id {
        j
    } else {
        first_task_with_id(ts, id, j + 1)
    }
}

/// Whether some task has the id `id`.
pub open spec fn has_id(ts: Seq<TaskView>, id: Seq<char>) -> bool {
    exists|i: int| 0 <= i < ts.len() && #[trigger] ts[i].id == id
}

// ---------------------------------------------------------------------------
// The service
// ---------------------------------------------------------------------------

/// The scheduler: its tasks and the history of their runs.
pub struct CronService {
    tasks: Vec<ScheduledTask>,
    history: Vec<TaskResult>,
}

impl CronService {
    /// The tasks, in order.
    pub closed spec fn tasks_view(&self) -> Seq<TaskView> {
        task_views(self.tasks@)
    }

    /// The run records, oldest first.
    pub closed spec fn history_view(&self) -> Seq<ResultView> {
        result_views(self.history@)
    }

    /// A scheduler with no task and no history.
    pub fn new() -> (r: CronService)
        ensures
            r.tasks_view() == Seq::<TaskView>::empty(),
            r.history_view() == Seq::<ResultView>::empty(),
    {
        let r = CronService { tasks: Vec::new(), history: Vec::new() };
        assert(r.tasks_view() =~= Seq::<TaskView>::empty());
        assert(r.history_view() =~= Seq::<ResultView>::empty());
        r
    }

    /// Adds a task after the others.
    pub fn add_task(&mut self, task: ScheduledTask)
        ensures
            final(self).tasks_view() == old(self).tasks_view().push(task@),
            final(self).history_view() == old(self).history_view(),
    {
        let ghost t = task@;
        self.tasks.push(task);
        assert(self.tasks_view() =~= old(self).tasks_view().push(t));
    }

    /// Removes every task whose id is `id`; tells whether one was removed.
    pub fn remove_task(&mut self, id: &str) -> (r: bool)
        ensures
            final(self).tasks_view() == without_id(old(self).tasks_view(), id@),
            final(self).history_view() == old(self).history_view(),
            r == has_id(old(self).tasks_view(), id@),
    {
        let ghost old_tasks = self.tasks_view();
        let mut kept: Vec<ScheduledTask> = Vec::new();
        let mut removed = false;
        let mut i: usize = 0;
        assert(old_tasks.take(0) =~= Seq::<TaskView>::empty());
        while i < self.tasks.len()
            invariant
                i <= self.tasks.len(),
                old_tasks == task_views(self.tasks@),
                task_views(kept@) == without_id(old_tasks.take(i as int), id@),
                removed == has_id(old_tasks.take(i as int), id@),
            decreases self.tasks.len() - i,
        {
            let ghost pre = old_tasks.take(i as int);
            assert(old_tasks.take(i + 1).drop_last() =~= pre);
            assert(old_tasks.take(i + 1).last() == self.tasks@[i as int]@);
            if str_eq(self.tasks[i].id.as_str(), id) {
                removed = true;
                assert(old_tasks.take(i + 1)[i as int].id == id@);
            } else {
                let t = self.tasks[i].duplicate();
                let ghost before = kept@;
                kept.push(t);
                assert(task_views(kept@) =~= task_views(before).push(self.tasks@[i as int]@));
                proof {
                    if removed {
                        let w = choose|w: int| 0 <= w < pre.len() && #[trigger] pre[w].id == id@;
                        assert(old_tasks.take(i + 1)[w] == pre[w]);
                    }
                }
            }
            proof {
                if has_id(old_tasks.take(i + 1), id@) && !removed {
                    let w = choose|w: int|
                        0 <= w < old_tasks.take(i + 1).len() && #[trigger] old_tasks.take(
                            i + 1,
                        )[w].id == id@;
                    if w < i {
                        assert(pre[w] == old_tasks.take(i + 1)[w]);
                    }
                }
                if removed && !has_id(old_tasks.take(i + 1), id@) {
                    if has_id(pre, id@) {
                        let w = choose|w: int| 0 <= w < pre.len() && #[trigger] pre[w].id == id@;
                        assert(old_tasks.take(i + 1)[w] == pre[w]);
                    } else {
                        assert(old_tasks.take(i + 1)[i as int].id == id@);
                    }
                }
            }
            i = i + 1;
        }
        assert(old_tasks.take(i as int) =~= old_tasks);
        self.tasks = kept;
        removed
    }

    /// Copies of the tasks, in order.
    pub fn list_tasks(&self) -> (r: Vec<ScheduledTask>)
        ensures
            task_views(r@) == self.tasks_view(),
    {
        let mut out: Vec<ScheduledTask> = Vec::new();
        let mut i: usize = 0;
        while i < self.tasks.len()
            invariant
                i <= self.tasks.len(),
                out.len() == i,
                task_views(out@) == task_views(self.tasks@).take(i as int),
            decreases self.tasks.len() - i,
        {
            let ghost before = out@;
            out.push(self.tasks[i].duplicate());
            assert forall|k: int| 0 <= k < out.len() implies #[trigger] task_views(out@)[k]
                == task_views(self.tasks@).take(i + 1)[k] by {
                if k < i {
                    assert(out@[k] == before[k]);
                    assert(task_views(before)[k] == task_views(self.tasks@).take(i as int)[k]);
                }
            }
            assert(task_views(out@) =~= task_views(self.tasks@).take(i + 1));
            i = i + 1;
        }
        assert(task_views(self.tasks@).take(i as int) =~= task_views(self.tasks@));
        out
    }

    /// Enables or disables the first task whose id is `id`; tells whether
    /// there was one.
    pub fn set_enabled(&mut self, id: &str, enabled: bool) -> (r: bool)
        ensures
            final(self).history_view() == old(self).history_view(),
            r == has_id(old(self).tasks_view(), id@),
            r ==> {
                let i = first_task_with_id(old(self).tasks_view(), id@, 0);
                final(self).tasks_view() == old(self).tasks_view().update(
                    i,
                    TaskView { enabled, ..old(self).tasks_view()[i] },
                )
            },
            !r ==> final(self).tasks_view() == old(self).tasks_view(),
    {
        let ghost old_tasks = self.tasks_view();
        let mut i: usize = 0;
        while i < self.tasks.len()
            invariant
                i <= self.tasks.len(),
                old_tasks == task_views(self.tasks@),
                old_tasks == old(self).tasks_view(),
                self.history@ == old(self).history@,
                first_task_with_id(old_tasks, id@, 0) == first_task_with_id(old_tasks, id@, i as int),
                forall|j: int| 0 <= j < i ==> #[trigger] old_tasks[j].id != id@,
            decreases self.tasks.len() - i,
        {
            if str_eq(self.tasks[i].id.as_str(), id) {
                let mut t = self.tasks[i].duplicate();
                t.enabled = enabled;
                let ghost tv = t@;
                self.tasks.set(i, t);
                assert(old_tasks[i as int].id == id@);
                assert(first_task_with_id(old_tasks, id@, i as int) == i as int);
                assert(self.tasks_view() =~= old_tasks.update(
                    i as int,
                    TaskView { enabled, ..old_tasks[i as int] },
                ));
                return true;
            }
            assert(old_tasks[i as int].id != id@);
            i = i + 1;
        }
        false
    }

    /// Copies of the run records, oldest first.
    pub fn history(&self) -> (r: Vec<TaskResult>)
        ensures
            result_views(r@) == self.history_view(),
    {
        let mut out: Vec<TaskResult> = Vec::new();
        let mut i: usize = 0;
        while i < self.history.len()
            invariant
                i <= self.history.len(),
                out.len() == i,
                result_views(out@) == result_views(self.history@).take(i as int),
            decreases self.history.len() - i,
        {
            let ghost before = out@;
            out.push(self.history[i].duplicate());
            assert forall|k: int| 0 <= k < out.len() implies #[trigger] result_views(out@)[k]
                == result_views(self.history@).take(i + 1)[k] by {
                if k < i {
                    assert(out@[k] == before[k]);
                    assert(result_views(before)[k] == result_views(self.history@).take(
                        i as int,
                    )[k]);
                }
            }
            assert(result_views(out@) =~= result_views(self.history@).take(i + 1));
            i = i + 1;
        }
        assert(result_views(self.history@).take(i as int) =~= result_views(self.history@));
        out
    }

    /// Whether `t` is due at `now`.
    fn task_is_due(t: &ScheduledTask, now: Timestamp) -> (r: bool)
        ensures
            r == is_due(t@, now),
    {
        if !t.enabled {
            false
        } else {
            match t.last_run {
                None => true,
                Some(last) => elapsed_seconds(now, last) >= parse_interval(t.schedule.as_str()),
            }
        }
    }

    /// Copies of the tasks that are due at `now`, in order: the commands a
    /// check at `now` runs.
    pub fn tasks_due_at(&self, now: Timestamp) -> (r: Vec<ScheduledTask>)
        ensures
            task_views(r@) == due_tasks(self.tasks_view(), now),
    {
        let ghost ts = self.tasks_view();
        let mut out: Vec<ScheduledTask> = Vec::new();
        let mut i: usize = 0;
        assert(ts.take(0) =~= Seq::<TaskView>::empty());
        while i < self.tasks.len()
            invariant
                i <= self.tasks.len(),
                ts == task_views(self.tasks@),
                task_views(out@) == due_tasks(ts.take(i as int), now),
            decreases self.tasks.len() - i,
        {
            assert(ts.take(i + 1).drop_last() =~= ts.take(i as int));
            assert(ts.take(i + 1).last() == self.tasks@[i as int]@);
            if Self::task_is_due(&self.tasks[i], now) {
                let ghost before = out@;
                out.push(self.tasks[i].duplicate());
                assert(task_views(out@) =~= task_views(before).push(self.tasks@[i as int]@));
            }
            i = i + 1;
        }
        assert(ts.take(i as int) =~= ts);
        out
    }

    /// The current time and the tasks due then (the first half of a pass of
    /// the scheduler loop, which then runs their commands).
    pub fn tasks_due_now(&self) -> (r: (Timestamp, Vec<ScheduledTask>))
        ensures
            task_views(r.1@) == due_tasks(self.tasks_view(), r.0),
    {
        let t = now();
        (t, self.tasks_due_at(t))
    }

    /// Finishes a check at `now` (the second half of a pass of the scheduler
    /// loop): `outcomes` are what the commands of the due tasks gave, in the
    /// order [`CronService::tasks_due_at`] lists them.  Each due task is
    /// marked as run at `now` and a record of its run is added, in task
    /// order.
    pub fn run_due_tasks(&mut self, now: Timestamp, outcomes: &Vec<ExecResult>)
        requires
            outcomes.len() == due_tasks(old(self).tasks_view(), now).len(),
        ensures
            final(self).tasks_view() == Seq::new(
                old(self).tasks_view().len(),
                |i: int| after_check(old(self).tasks_view()[i], now),
            ),
            final(self).history_view() == old(self).history_view() + due_records(
                old(self).tasks_view(),
                now,
                outcomes@,
            ),
    {
        let ghost old_tasks = self.tasks_view();
        let ghost old_hist = self.history_view();
        let mut i: usize = 0;
        let mut k: usize = 0;
        assert(old_tasks.take(0) =~= Seq::<TaskView>::empty());
        assert(old_hist + due_records(old_tasks.take(0), now, outcomes@) =~= old_hist);
        proof {
            lemma_due_tasks_prefix(old_tasks, now, 0);
        }
        while i < self.tasks.len()
            invariant
                i <= self.tasks.len() == old_tasks.len(),
                outcomes.len() == due_tasks(old_tasks, now).len(),
                k == due_tasks(old_tasks.take(i as int), now).len(),
                k <= outcomes.len(),
                forall|j: int|
                    0 <= j < i ==> #[trigger] task_views(self.tasks@)[j] == after_check(
                        old_tasks[j],
                        now,
                    ),
                forall|j: int|
                    i <= j < self.tasks.len() ==> #[trigger] task_views(self.tasks@)[j]
                        == old_tasks[j],
                self.history_view() == old_hist + due_records(
                    old_tasks.take(i as int),
                    now,
                    outcomes@,
                ),
            decreases self.tasks.len() - i,
        {
            let ghost pre = old_tasks.take(i as int);
            assert(old_tasks.take(i + 1).drop_last() =~= pre);
            assert(old_tasks.take(i + 1).last() == old_tasks[i as int]);
            assert(task_views(self.tasks@)[i as int] == old_tasks[i as int]);
            let due = Self::task_is_due(&self.tasks[i], now);
            proof {
                lemma_due_tasks_prefix(old_tasks, now, i + 1);
            }
            if due {
                let mut t = self.tasks[i].duplicate();
                t.last_run = Some(now);
                let o = &outcomes[k];
                let record = TaskResult {
                    task_id: self.tasks[i].id.clone(),
                    timestamp: now,
                    success: o.success,
                    output: copy_str(o.output.as_str()),
                    exit_code: Some(o.exit_code),
                };
                assert(record@ == run_record(old_tasks[i as int], now, outcomes@[k as int]));
                let ghost hist_before = self.history_view();
                self.history.push(record);
                assert(due_tasks(old_tasks.take(i + 1), now) == due_tasks(pre, now).push(
                    old_tasks[i as int],
                ));
                assert(due_records(old_tasks.take(i + 1), now, outcomes@) =~= due_records(
                    pre,
                    now,
                    outcomes@,
                ).push(run_record(old_tasks[i as int], now, outcomes@[k as int])));
                assert(self.history_view() =~= hist_before.push(
                    run_record(old_tasks[i as int], now, outcomes@[k as int]),
                ));
                let ghost tasks_before = task_views(self.tasks@);
                self.tasks.set(i, t);
                assert(task_views(self.tasks@) =~= tasks_before.update(
                    i as int,
                    after_check(old_tasks[i as int], now),
                ));
                k = k + 1;
            } else {
                assert(due_tasks(old_tasks.take(i + 1), now) == due_tasks(pre, now));
                assert(due_records(old_tasks.take(i + 1), now, outcomes@) =~= due_records(
                    pre,
                    now,
                    outcomes@,
                ));
            }
            i = i + 1;
        }
        assert(old_tasks.take(i as int) =~= old_tasks);
        assert(self.tasks_view() =~= Seq::new(
            old_tasks.len(),
            |i: int| after_check(old_tasks[i], now),
        ));
    }
}

/// The due tasks of a prefix are no more than those of the whole.
pub proof fn lemma_due_tasks_prefix(ts: Seq<TaskView>, now: Timestamp, i: int)
    requires
        0 <= i <= ts.len(),
    ensures
        due_tasks(ts.take(i), now).len() <= due_tasks(ts, now).len(),
    decreases ts.len() - i,
{
    if i < ts.len() {
        lemma_due_tasks_prefix(ts, now, i + 1);
        assert(ts.take(i + 1).drop_last() =~= ts.take(i));
    } else {
        assert(ts.take(i) =~= ts);
    }
}

/// What the scheduler loop does next.
pub enum SchedulerAction {
    /// Check the tasks: list the due ones, run their commands, record them.
    Check,
    /// Wait this many seconds.
    Sleep { secs: u64 },
}

/// The next state and action of the scheduler loop: a check when one is
/// next, else a wait of [`TICK_SECS`] seconds.
pub open spec fn scheduler_step(check_next: bool) -> (bool, SchedulerAction) {
    if check_next {
        (false, SchedulerAction::Check)
    } else {
        (true, SchedulerAction::Sleep { secs: TICK_SECS })
    }
}

/// The scheduler loop (`CronService::start`): checks the tasks, then waits
/// a tick, over and over.  The caller performs each action.
pub struct SchedulerLoop {
    check_next: bool,
}

impl SchedulerLoop {
    /// Whether the next action is a check.
    pub closed spec fn check_next_view(self) -> bool {
        self.check_next
    }

    /// The loop before its first check.
    pub fn new() -> (r: SchedulerLoop)
        ensures
            r.check_next_view(),
    {
        SchedulerLoop { check_next: true }
    }

    /// Advances the loop and says what to do next.
    pub fn next(&mut self) -> (r: SchedulerAction)
        ensures
            (final(self).check_next_view(), r) == scheduler_step(old(self).check_next_view()),
    {
        if self.check_next {
            self.check_next = false;
            SchedulerAction::Check
        } else {
            self.check_next = true;
            SchedulerAction::Sleep { secs: TICK_SECS }
        }
    }
}

impl Default for CronService {
    /// A scheduler with no task and no history.
    fn default() -> (r: CronService)
        ensures
            r.tasks_view() == Seq::<TaskView>::empty(),
            r.history_view() == Seq::<ResultView>::empty(),
    {
        CronService::new()
    }
}

} // verus!
