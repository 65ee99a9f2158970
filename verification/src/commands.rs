//! The commands the frontend invokes, over the application state.
//!
//! Each returns what the frontend receives: a message or the requested
//! data on success, an error message otherwise.  Where a command also does
//! I/O (reaching the server, saving the memory file), the caller does it and
//! hands the outcome to the function that makes the reply.
use vstd::prelude::*;
use crate::cron::{
    has_id, task_views, result_views, CronService, ScheduledTask, TaskResult, TaskView,
};
use crate::memory::{entry_views, in_category, lookup, with_entry, MemoryEntry, MemoryStore};
use crate::ssh::{plans, ConnectPlan, ConnectionStatus, SshConfig, SshManager, StatusView};
use crate::text::{copy_str, push_str, trim, trim_str};

verus! {

/// Application state shared across the commands.
pub struct AppState<S> {
    pub ssh: SshManager<S>,
    pub cron: CronService,
    pub memory: MemoryStore,
}

// ─── SSH ───

/// Starts a connection with the settings passed in (`ssh_connect`): they
/// become the manager's settings and the connection is planned with them.
pub fn ssh_connect<S>(state: &mut AppState<S>, config: SshConfig) -> (r: ConnectPlan)
    ensures
        final(state).ssh.status_view() == StatusView::Connecting,
        final(state).ssh.config_view() == config@,
        final(state).ssh.session_view() == old(state).ssh.session_view(),
        plans(r, config@),
        final(state).cron == old(state).cron,
        final(state).memory == old(state).memory,
{
    state.ssh.connect_with_config(&config)
}

/// The reply to a connection attempt.
pub fn ssh_connect_reply(result: Result<(), String>) -> (r: Result<String, String>)
    ensures
        match result {
            Ok(()) => r matches Ok(m) && m@ == "Connected successfully"@,
            Err(e) => r matches Err(m) && m@ == "Connection failed: "@ + e@,
        },
{
    match result {
        Ok(()) => Ok(copy_str("Connected successfully")),
        Err(e) => {
            let mut m = copy_str("Connection failed: ");
            push_str(&mut m, e.as_str());
            Err(m)
        },
    }
}

/// Disconnects (`ssh_disconnect`).
pub fn ssh_disconnect<S>(state: &mut AppState<S>) -> (r: Result<String, String>)
    ensures
        r matches Ok(m) && m@ == "Disconnected"@,
        final(state).ssh.status_view() == StatusView::Disconnected,
        final(state).ssh.session_view() is None,
        final(state).ssh.config_view() == old(state).ssh.config_view(),
        final(state).cron == old(state).cron,
        final(state).memory == old(state).memory,
{
    match state.ssh.disconnect() {
        Ok(()) => Ok(copy_str("Disconnected")),
        Err(e) => {
            let mut m = copy_str("Disconnect failed: ");
            push_str(&mut m, e.as_str());
            Err(m)
        },
    }
}

/// The session to run a remote command on (`ssh_exec`), or `Not connected`.
pub fn ssh_exec<S>(state: &AppState<S>) -> (r: Result<&S, String>)
    ensures
        match r {
            Ok(s) => state.ssh.session_view() == Some(*s),
            Err(e) => state.ssh.session_view() is None && e@ == "Not connected"@,
        },
{
    state.ssh.exec()
}

/// The connection status (`ssh_status`).
pub fn ssh_status<S>(state: &AppState<S>) -> (r: Result<ConnectionStatus, String>)
    ensures
        r matches Ok(s) && s@ == state.ssh.status_view(),
{
    Ok(state.ssh.status())
}

// ─── Cron ───

/// The scheduled tasks (`cron_list`).
pub fn cron_list<S>(state: &AppState<S>) -> (r: Result<Vec<ScheduledTask>, String>)
    ensures
        r matches Ok(v) && task_views(v@) == state.cron.tasks_view(),
{
    Ok(state.cron.list_tasks())
}

/// Adds a task (`cron_add`).
pub fn cron_add<S>(state: &mut AppState<S>, task: ScheduledTask) -> (r: Result<String, String>)
    ensures
        r matches Ok(m) && m@ == "Task added"@,
        final(state).cron.tasks_view() == old(state).cron.tasks_view().push(task@),
        final(state).cron.history_view() == old(state).cron.history_view(),
        final(state).ssh == old(state).ssh,
        final(state).memory == old(state).memory,
{
    state.cron.add_task(task);
    Ok(copy_str("Task added"))
}

/// Removes the tasks with id `id` (`cron_remove`).
pub fn cron_remove<S>(state: &mut AppState<S>, id: String) -> (r: Result<String, String>)
    ensures
        final(state).cron.tasks_view() == crate::cron::without_id(
            old(state).cron.tasks_view(),
            id@,
        ),
        final(state).cron.history_view() == old(state).cron.history_view(),
        has_id(old(state).cron.tasks_view(), id@) ==> (r matches Ok(m) && m@ == "Task removed"@),
        !has_id(old(state).cron.tasks_view(), id@) ==> (r matches Err(m) && m@
            == "Task not found"@),
        final(state).ssh == old(state).ssh,
        final(state).memory == old(state).memory,
{
    if state.cron.remove_task(id.as_str()) {
        Ok(copy_str("Task removed"))
    } else {
        Err(copy_str("Task not found"))
    }
}

/// The reply text of a successful toggle.
pub open spec fn toggle_message(id: Seq<char>, enabled: bool) -> Seq<char> {
    "Task "@ + id + " "@ + if enabled {
        "enabled"@
    } else {
        "disabled"@
    }
}

/// Enables or disables the first task with id `id` (`cron_toggle`).
pub fn cron_toggle<S>(state: &mut AppState<S>, id: String, enabled: bool) -> (r: Result<String, String>)
    ensures
        final(state).cron.history_view() == old(state).cron.history_view(),
        has_id(old(state).cron.tasks_view(), id@) ==> {
            let i = crate::cron::first_task_with_id(old(state).cron.tasks_view(), id@, 0);
            &&& r matches Ok(m) && m@ == toggle_message(id@, enabled)
            &&& final(state).cron.tasks_view() == old(state).cron.tasks_view().update(
                i,
                TaskView { enabled, ..old(state).cron.tasks_view()[i] },
            )
        },
        !has_id(old(state).cron.tasks_view(), id@) ==> (r matches Err(m) && m@
            == "Task not found"@) && final(state).cron.tasks_view() == old(
            state,
        ).cron.tasks_view(),
        final(state).ssh == old(state).ssh,
        final(state).memory == old(state).memory,
{
    if state.cron.set_enabled(id.as_str(), enabled) {
        let mut m = copy_str("Task ");
        push_str(&mut m, id.as_str());
        push_str(&mut m, " ");
        if enabled {
            push_str(&mut m, "enabled");
        } else {
            push_str(&mut m, "disabled");
        }
        assert(m@ =~= toggle_message(id@, enabled));
        Ok(m)
    } else {
        Err(copy_str("Task not found"))
    }
}

/// The run records (`cron_history`).
pub fn cron_history<S>(state: &AppState<S>) -> (r: Result<Vec<TaskResult>, String>)
    ensures
        r matches Ok(v) && result_views(v@) == state.cron.history_view(),
{
    Ok(state.cron.history())
}

// ─── Memory ───

/// The value stored under `key` (`memory_get`), or an error naming the key.
pub fn memory_get<S>(state: &AppState<S>, key: String) -> (r: Result<String, String>)
    ensures
        match lookup(entry_views(state.memory.entries@), key@) {
            Some(v) => r matches Ok(m) && m@ == v,
            None => r matches Err(m) && m@ == "Key '"@ + key@ + "' not found"@,
        },
{
    match state.memory.get(key.as_str()) {
        Some(v) => Ok(copy_str(v)),
        None => {
            let mut m = copy_str("Key '");
            push_str(&mut m, key.as_str());
            push_str(&mut m, "' not found");
            Err(m)
        },
    }
}

/// Stores an entry (first half of `memory_set`); the caller then saves the
/// memory file and replies with [`memory_set_reply`].
pub fn memory_set<S>(state: &mut AppState<S>, key: String, value: String, category: String)
    ensures
        entry_views(final(state).memory.entries@) == with_entry(
            entry_views(old(state).memory.entries@),
            key@,
            value@,
            category@,
        ),
        final(state).ssh == old(state).ssh,
        final(state).cron == old(state).cron,
{
    state.memory.set(key.as_str(), value.as_str(), category.as_str());
}

/// The reply to storing an entry, given how saving the memory file went.
pub fn memory_set_reply(saved: Result<(), String>) -> (r: Result<String, String>)
    ensures
        match saved {
            Ok(()) => r matches Ok(m) && m@ == "Memory updated"@,
            Err(e) => r matches Err(m) && m@ == "Save failed: "@ + e@,
        },
{
    match saved {
        Ok(()) => Ok(copy_str("Memory updated")),
        Err(e) => {
            let mut m = copy_str("Save failed: ");
            push_str(&mut m, e.as_str());
            Err(m)
        },
    }
}

/// Copies of all entries (`memory_list`).
pub fn memory_list<S>(state: &AppState<S>) -> (r: Result<Vec<MemoryEntry>, String>)
    ensures
        r matches Ok(v) && entry_views(v@) == entry_views(state.memory.entries@),
{
    let all = state.memory.all_entries();
    let mut out: Vec<MemoryEntry> = Vec::new();
    let mut i: usize = 0;
    while i < all.len()
        invariant
            i <= all@.len(),
            all@ == state.memory.entries@,
            out@.len() == i,
            entry_views(out@) == entry_views(all@).take(i as int),
        decreases all@.len() - i,
    {
        let ghost before = out@;
        out.push(all[i].duplicate());
        assert forall|k: int| 0 <= k < out@.len() implies #[trigger] entry_views(out@)[k]
            == entry_views(all@).take(i + 1)[k] by {
            if k < i {
                assert(out@[k] == before[k]);
                assert(entry_views(before)[k] == entry_views(all@).take(i as int)[k]);
            }
        }
        assert(entry_views(out@) =~= entry_views(all@).take(i + 1));
        i = i + 1;
    }
    assert(entry_views(all@).take(i as int) =~= entry_views(all@));
    Ok(out)
}

/// Copies of the entries in `category` (`memory_list_category`).
pub fn memory_list_category<S>(state: &AppState<S>, category: String) -> (r: Result<Vec<MemoryEntry>, String>)
    ensures
        r matches Ok(v) && entry_views(v@) == in_category(
            entry_views(state.memory.entries@),
            category@,
        ),
{
    let found = state.memory.list_by_category(category.as_str());
    let ghost want = in_category(entry_views(state.memory.entries@), category@);
    let mut out: Vec<MemoryEntry> = Vec::new();
    let mut i: usize = 0;
    while i < found.len()
        invariant
            i <= found@.len(),
            found@.len() == want.len(),
            forall|j: int| 0 <= j < found@.len() ==> (#[trigger] found@[j])@ == want[j],
            out@.len() == i,
            entry_views(out@) == want.take(i as int),
        decreases found@.len() - i,
    {
        let ghost before = out@;
        out.push(found[i].duplicate());
        assert forall|k: int| 0 <= k < out@.len() implies #[trigger] entry_views(out@)[k]
            == want.take(i + 1)[k] by {
            if k < i {
                assert(out@[k] == before[k]);
                assert(entry_views(before)[k] == want.take(i as int)[k]);
            } else {
                assert(found@[k]@ == want[k]);
            }
        }
        assert(entry_views(out@) =~= want.take(i + 1));
        i = i + 1;
    }
    assert(want.take(i as int) =~= want);
    Ok(out)
}

// ─── System info ───

/// The host name shown in the system information: the contents of the
/// host name file, or `unknown` when it cannot be read, trimmed.
pub fn hostname(contents: Option<String>) -> (r: String)
    ensures
        r@ == trim(
            match contents {
                Some(c) => c@,
                None => "unknown"@,
            },
        ),
{
    match contents {
        Some(c) => trim_str(c.as_str()),
        None => trim_str("unknown"),
    }
}

} // verus!
