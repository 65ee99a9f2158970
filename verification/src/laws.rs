//! Properties of the library that span several operations.
use vstd::prelude::*;
use crate::cron::{
    after_check, due_records, due_tasks, has_id, interval_secs, is_due, scheduler_step,
    without_id, SchedulerAction, TaskView, TICK_SECS,
};
use crate::clock::{seconds_between, Timestamp};
use crate::memory::{first_with_key, lemma_first_with_key, lookup, with_entry, EntryView};
use crate::autoconnect::{
    auto_step, AutoConnectAction, AutoConnectEvent, MAX_RETRIES, STARTUP_DELAY_SECS,
};
use crate::ssh::{plans, AuthMethod, ConnectPlan, SshConfigView};
use crate::bridge::{opens_to, public_key_of, sealed_open, sealed_plaintext, KEY_BYTES};
use crate::server::{
    best_effort_text, block_cmd, block_id, blocks, blocks_from, clean_char, commands,
    commands_of, lossy_utf8, reported_output, reply_frame, result_json, strip_blocks,
    BridgeCommand, ExecResult,
};
use crate::text::{
    all_digits, control_char, decimal, decimal_int, digits_value, find_pair, is_digit,
    lemma_find_pair_at, pair_at, parse_i64, sign_len, trim, trim_end, trim_start, white_space,
};
use vstd::utf8::{decode_utf8, encode_utf8, valid_utf8};

verus! {

// ---------------------------------------------------------------------------
// Memory file
// ---------------------------------------------------------------------------

/// Whether no two entries share a key.
pub open spec fn unique_keys(es: Seq<EntryView>) -> bool {
    forall|i: int, j: int| 0 <= i < j < es.len() ==> #[trigger] es[i].key != #[trigger] es[j].key
}

/// Reading a key right after storing a value under it gives that value.
pub proof fn law_get_after_set(es: Seq<EntryView>, key: Seq<char>, value: Seq<char>, category: Seq<char>)
    ensures
        lookup(with_entry(es, key, value, category), key) == Some(value),
{
    lemma_first_with_key(es, key, 0);
    let i = first_with_key(es, key, 0);
    let es2 = with_entry(es, key, value, category);
    lemma_first_with_key(es2, key, 0);
    let j = first_with_key(es2, key, 0);
    if i < es.len() {
        assert(es2[i].key == key);
        if j < i {
            assert(es2[j] == es[j]);
        }
        assert(j == i);
    } else {
        assert(es2[es.len() as int].key == key);
        if j < es.len() {
            assert(es2[j] == es[j]);
        }
    }
}

/// Storing a value under one key leaves what every other key reads.
pub proof fn law_set_keeps_other_keys(
    es: Seq<EntryView>,
    key: Seq<char>,
    value: Seq<char>,
    category: Seq<char>,
    other: Seq<char>,
)
    requires
        other != key,
    ensures
        lookup(with_entry(es, key, value, category), other) == lookup(es, other),
{
    lemma_first_with_key(es, key, 0);
    lemma_first_with_key(es, other, 0);
    let es2 = with_entry(es, key, value, category);
    lemma_first_with_key(es2, other, 0);
    let i = first_with_key(es, key, 0);
    let a = first_with_key(es, other, 0);
    let b = first_with_key(es2, other, 0);
    assert forall|k: int| 0 <= k < es.len() implies #[trigger] es2[k].key == es[k].key by {}
    if b < a {
        assert(es2[b].key == es[b].key);
    }
    if a < b && a < es.len() {
        assert(es2[a].key == es[a].key);
    }
    if a < es.len() {
        assert(a == b);
        if a == i {
            assert(es[a].key == key);
        }
    } else {
        if b < es.len() {
            assert(es2[b].key == es[b].key);
        }
        if b == es.len() && i >= es.len() {
            assert(es2[b].key == key);
        }
    }
}

/// Storing never makes two entries share a key.
pub proof fn law_set_keeps_keys_unique(
    es: Seq<EntryView>,
    key: Seq<char>,
    value: Seq<char>,
    category: Seq<char>,
)
    requires
        unique_keys(es),
    ensures
        unique_keys(with_entry(es, key, value, category)),
{
    lemma_first_with_key(es, key, 0);
    let i = first_with_key(es, key, 0);
    let es2 = with_entry(es, key, value, category);
    assert forall|a: int, b: int| 0 <= a < b < es2.len() implies #[trigger] es2[a].key
        != #[trigger] es2[b].key by {
        if b < es.len() {
            assert(es2[a].key == es[a].key);
            assert(es2[b].key == es[b].key);
        } else {
            assert(es2[a].key == es[a].key);
            assert(es[a].key != key);
        }
    }
}

/// Storing the same entry twice is the same as storing it once.
pub proof fn law_set_twice_same_as_once(
    es: Seq<EntryView>,
    key: Seq<char>,
    value: Seq<char>,
    category: Seq<char>,
)
    ensures
        with_entry(with_entry(es, key, value, category), key, value, category) == with_entry(
            es,
            key,
            value,
            category,
        ),
{
    lemma_first_with_key(es, key, 0);
    let i = first_with_key(es, key, 0);
    let es2 = with_entry(es, key, value, category);
    lemma_first_with_key(es2, key, 0);
    let j = first_with_key(es2, key, 0);
    if i < es.len() {
        assert(es2[i].key == key);
        if j < i {
            assert(es2[j] == es[j]);
            assert(es[j].key == key);
        }
        assert(j == i);
        assert(with_entry(es2, key, value, category) =~= es2);
    } else {
        assert(es2[es.len() as int].key == key);
        if j < es.len() {
            assert(es2[j] == es[j]);
            assert(es[j].key == key);
        }
        assert(j == es.len());
        assert(with_entry(es2, key, value, category) =~= es2);
    }
}

// ---------------------------------------------------------------------------
// Scheduler
// ---------------------------------------------------------------------------

/// After removing an id, no task has it.
pub proof fn law_removed_id_is_gone(ts: Seq<TaskView>, id: Seq<char>)
    ensures
        !has_id(without_id(ts, id), id),
    decreases ts.len(),
{
    if ts.len() > 0 {
        law_removed_id_is_gone(ts.drop_last(), id);
        let rest = without_id(ts.drop_last(), id);
        if ts.last().id != id {
            assert forall|i: int| 0 <= i < rest.push(ts.last()).len() implies #[trigger] rest.push(
                ts.last(),
            )[i].id != id by {
                if i < rest.len() {
                    assert(rest.push(ts.last())[i] == rest[i]);
                }
            }
        }
    }
}

/// Removing an id that no task has changes nothing.
pub proof fn law_remove_absent_id(ts: Seq<TaskView>, id: Seq<char>)
    requires
        !has_id(ts, id),
    ensures
        without_id(ts, id) == ts,
    decreases ts.len(),
{
    if ts.len() > 0 {
        assert(!has_id(ts.drop_last(), id)) by {
            if has_id(ts.drop_last(), id) {
                let w = choose|w: int| 0 <= w < ts.drop_last().len() && #[trigger] ts.drop_last()[w].id == id;
                assert(ts[w] == ts.drop_last()[w]);
            }
        }
        law_remove_absent_id(ts.drop_last(), id);
        assert(ts.last() == ts[ts.len() - 1]);
        assert(ts.drop_last().push(ts.last()) =~= ts);
    }
}

/// Adding a task with a new id and removing that id gives the tasks back.
pub proof fn law_add_then_remove(ts: Seq<TaskView>, t: TaskView)
    requires
        !has_id(ts, t.id),
    ensures
        without_id(ts.push(t), t.id) == ts,
{
    assert(ts.push(t).drop_last() =~= ts);
    law_remove_absent_id(ts, t.id);
}

/// Removing keeps every task with another id, in order, and drops only
/// tasks with the id.
pub proof fn law_remove_keeps_others(ts: Seq<TaskView>, id: Seq<char>)
    ensures
        without_id(ts, id).len() <= ts.len(),
        forall|i: int| 0 <= i < ts.len() && ts[i].id != id ==> without_id(ts, id).contains(#[trigger] ts[i]),
        forall|i: int|
            0 <= i < without_id(ts, id).len() ==> ts.contains(#[trigger] without_id(ts, id)[i]),
    decreases ts.len(),
{
    if ts.len() > 0 {
        let pre = ts.drop_last();
        law_remove_keeps_others(pre, id);
        let rest = without_id(pre, id);
        assert forall|i: int| 0 <= i < ts.len() && ts[i].id != id implies without_id(ts, id).contains(
            #[trigger] ts[i],
        ) by {
            if i < pre.len() {
                assert(pre[i] == ts[i]);
                let k = choose|k: int| 0 <= k < rest.len() && rest[k] == pre[i];
                if ts.last().id != id {
                    assert(rest.push(ts.last())[k] == rest[k]);
                }
            } else {
                assert(rest.push(ts.last())[rest.len() as int] == ts[i]);
            }
        }
        assert forall|i: int| 0 <= i < without_id(ts, id).len() implies ts.contains(
            #[trigger] without_id(ts, id)[i],
        ) by {
            if i < rest.len() {
                if ts.last().id != id {
                    assert(rest.push(ts.last())[i] == rest[i]);
                }
                let k = choose|k: int| 0 <= k < pre.len() && pre[k] == rest[i];
                assert(ts[k] == pre[k]);
            } else {
                assert(ts[ts.len() - 1] == ts.last());
            }
        }
    }
}

/// A task never runs while it is disabled.
pub proof fn law_disabled_task_never_runs(t: TaskView, now: Timestamp)
    requires
        !t.enabled,
    ensures
        !is_due(t, now),
        after_check(t, now) == t,
{
}

/// A task that just ran at `now` with a positive interval is not due again
/// at `now`.
pub proof fn law_ran_task_not_due_again(t: TaskView, now: Timestamp)
    requires
        is_due(t, now),
        interval_secs(t.schedule) > 0,
    ensures
        after_check(t, now).last_run == Some(now),
        !is_due(after_check(t, now), now),
{
    assert(seconds_between(now, now) == 0);
}

/// Checking the tasks twice at the same instant runs nothing the second
/// time, when every schedule has a positive interval.
pub proof fn law_second_check_runs_nothing(ts: Seq<TaskView>, now: Timestamp)
    requires
        forall|i: int| 0 <= i < ts.len() ==> interval_secs(#[trigger] ts[i].schedule) > 0,
    ensures
        due_tasks(Seq::new(ts.len(), |i: int| after_check(ts[i], now)), now) == Seq::<
            TaskView,
        >::empty(),
    decreases ts.len(),
{
    let after = Seq::new(ts.len(), |i: int| after_check(ts[i], now));
    if ts.len() > 0 {
        let pre = ts.drop_last();
        assert forall|i: int| 0 <= i < pre.len() implies interval_secs(#[trigger] pre[i].schedule) > 0 by {
            assert(pre[i] == ts[i]);
        }
        law_second_check_runs_nothing(pre, now);
        assert(after.drop_last() =~= Seq::new(pre.len(), |i: int| after_check(pre[i], now)));
        let last = ts[ts.len() - 1];
        assert(interval_secs(last.schedule) > 0);
        assert(seconds_between(now, now) == 0);
        assert(!is_due(after_check(last, now), now));
        assert(after.last() == after_check(last, now));
    }
}

/// A check adds one record per due task, never more records than tasks,
/// and only for tasks that are enabled and due: a disabled task never gains
/// a record.
pub proof fn law_records_only_for_due_tasks(ts: Seq<TaskView>, now: Timestamp, outs: Seq<ExecResult>)
    ensures
        due_records(ts, now, outs).len() == due_tasks(ts, now).len(),
        due_tasks(ts, now).len() <= ts.len(),
        forall|k: int|
            #![trigger due_tasks(ts, now)[k]]
            0 <= k < due_tasks(ts, now).len() ==> is_due(due_tasks(ts, now)[k], now)
                && due_tasks(ts, now)[k].enabled && ts.contains(due_tasks(ts, now)[k])
                && due_records(ts, now, outs)[k].task_id == due_tasks(ts, now)[k].id,
    decreases ts.len(),
{
    if ts.len() > 0 {
        let pre = ts.drop_last();
        law_records_only_for_due_tasks(pre, now, outs);
        let d = due_tasks(ts, now);
        let dp = due_tasks(pre, now);
        assert forall|k: int| #![trigger d[k]] 0 <= k < d.len() implies is_due(d[k], now)
            && d[k].enabled && ts.contains(d[k]) by {
            if k < dp.len() {
                assert(d[k] == dp[k]);
                let j = choose|j: int| 0 <= j < pre.len() && pre[j] == dp[k];
                assert(ts[j] == pre[j]);
            } else {
                assert(d[k] == ts.last());
                assert(ts[ts.len() - 1] == ts.last());
            }
        }
    }
}

/// The actions of the scheduler loop over `n` steps from state
/// `check_next`.
pub open spec fn scheduler_run(check_next: bool, n: nat) -> Seq<SchedulerAction>
    decreases n,
{
    if n == 0 {
        Seq::empty()
    } else {
        let (c, a) = scheduler_step(check_next);
        seq![a] + scheduler_run(c, (n - 1) as nat)
    }
}

/// A wait of one tick.
pub open spec fn tick_wait() -> SchedulerAction {
    SchedulerAction::Sleep { secs: TICK_SECS }
}

/// The action of the scheduler loop at step `i` from state `check_next`.
pub open spec fn scheduler_action_at(check_next: bool, i: int) -> SchedulerAction {
    if (i % 2 == 0) == check_next {
        SchedulerAction::Check
    } else {
        tick_wait()
    }
}

/// The scheduler loop alternates: checks at the steps of one parity, waits
/// of a tick at the others.
pub proof fn lemma_scheduler_alternates(check_next: bool, n: nat, i: int)
    requires
        0 <= i < n,
    ensures
        scheduler_run(check_next, n).len() == n,
        scheduler_run(check_next, n)[i] == scheduler_action_at(check_next, i),
    decreases n,
{
    lemma_scheduler_len(check_next, n);
    if i > 0 {
        let (c, a) = scheduler_step(check_next);
        lemma_scheduler_alternates(c, (n - 1) as nat, i - 1);
        assert(scheduler_run(check_next, n)[i] == scheduler_run(c, (n - 1) as nat)[i - 1]);
    }
}

/// The scheduler loop makes one action per step.
pub proof fn lemma_scheduler_len(check_next: bool, n: nat)
    ensures
        scheduler_run(check_next, n).len() == n,
    decreases n,
{
    if n > 0 {
        let (c, a) = scheduler_step(check_next);
        lemma_scheduler_len(c, (n - 1) as nat);
    }
}

/// From its start the scheduler loop checks first, and between any two of
/// its checks it waits a tick of [`TICK_SECS`] seconds.
pub proof fn law_checks_are_a_tick_apart(n: nat)
    ensures
        n > 0 ==> (scheduler_run(true, n)[0] is Check),
        forall|i: int, j: int|
            0 <= i < j < scheduler_run(true, n).len() && (scheduler_run(true, n)[i] is Check)
                && (scheduler_run(true, n)[j] is Check) ==> (exists|k: int|
                i < k < j && #[trigger] scheduler_run(true, n)[k] == tick_wait()),
{
    lemma_scheduler_len(true, n);
    if n > 0 {
        lemma_scheduler_alternates(true, n, 0);
    }
    let run = scheduler_run(true, n);
    assert forall|i: int, j: int|
        0 <= i < j < run.len() && (run[i] is Check) && (run[j] is Check) implies (exists|k: int|
        i < k < j && #[trigger] run[k] == tick_wait()) by {
        lemma_scheduler_alternates(true, n, i);
        lemma_scheduler_alternates(true, n, j);
        lemma_scheduler_alternates(true, n, i + 1);
        assert(i % 2 == 0);
        assert(j % 2 == 0);
        assert((i + 1) % 2 != 0);
    }
}

// ---------------------------------------------------------------------------
// Bridge messages
// ---------------------------------------------------------------------------

/// A message without `\c` holds no command block: its chat text is the
/// message trimmed, and it has no commands.
pub proof fn law_plain_message_is_only_trimmed(s: Seq<char>)
    requires
        find_pair(s, 0, '\\', 'c') is None,
    ensures
        strip_blocks(s) == trim(s),
        blocks(s).len() == 0,
        commands(s).len() == 0,
{
    assert(s.subrange(0, s.len() as int) =~= s);
}

/// Every command found has a non-empty command text, and there are no
/// more commands than blocks.
pub proof fn law_commands_have_text(bs: Seq<Seq<char>>)
    ensures
        commands_of(bs).len() <= bs.len(),
        forall|i: int| 0 <= i < commands_of(bs).len() ==> (#[trigger] commands_of(bs)[i]).1.len() > 0,
    decreases bs.len(),
{
    if bs.len() > 0 {
        law_commands_have_text(bs.drop_last());
        let rest = commands_of(bs.drop_last());
        let b = bs.last();
        if block_cmd(b).len() > 0 {
            assert forall|i: int| 0 <= i < commands_of(bs).len() implies (#[trigger] commands_of(
                bs,
            )[i]).1.len() > 0 by {
                if i < rest.len() {
                    assert(commands_of(bs)[i] == rest[i]);
                }
            }
        }
    }
}

/// A message that is one block (`\\c`, six id characters, a space, a
/// command `c`, `\\e`) yields exactly one command: that id, and all of `c`,
/// every line of it, when neither the id nor `c` holds `\\e` and `c` has
/// no white space at its ends.
pub proof fn law_single_block_command_is_whole(id: Seq<char>, c: Seq<char>)
    requires
        id.len() == 6,
        forall|j: int| 0 <= j ==> !#[trigger] pair_at(id, j, '\\', 'e'),
        c.len() > 0,
        !white_space(c[0]),
        !white_space(c[c.len() - 1]),
        forall|j: int| 0 <= j ==> !#[trigger] pair_at(c, j, '\\', 'e'),
    ensures
        commands(seq!['\\', 'c'] + id + seq![' '] + c + seq!['\\', 'e']) == seq![(id, c)],
{
    let s = seq!['\\', 'c'] + id + seq![' '] + c + seq!['\\', 'e'];
    let e: int = c.len() as int + 9;
    assert(s.len() == e + 2);
    assert(s[0] == '\\' && s[1] == 'c');
    assert(find_pair(s, 0, '\\', 'c') == Some(0int));
    assert forall|j: int| 2 <= j < e implies !#[trigger] pair_at(s, j, '\\', 'e') by {
        if j < 7 {
            assert(s[j] == id[j - 2]);
            assert(s[j + 1] == id[j - 1]);
            assert(!pair_at(id, j - 2, '\\', 'e'));
        } else if j == 7 {
            assert(s[j + 1] == ' ');
        } else if j == 8 {
            assert(s[j] == ' ');
        } else if j < e - 1 {
            assert(s[j] == c[j - 9]);
            assert(s[j + 1] == c[j - 8]);
            assert(!pair_at(c, j - 9, '\\', 'e'));
        } else {
            assert(s[j + 1] == '\\');
        }
    }
    assert(s[e] == '\\' && s[e + 1] == 'e');
    lemma_find_pair_at(s, 2, e, '\\', 'e');
    let b = s.subrange(2, e);
    assert(b =~= id + seq![' '] + c);
    assert(blocks_from(s, e + 2) == Seq::<Seq<char>>::empty());
    assert(blocks(s) =~= seq![b]);
    assert(b.skip(6) =~= seq![' '] + c);
    assert((seq![' '] + c).drop_first() =~= c);
    assert(white_space(' '));
    assert(trim_start(seq![' '] + c) == trim_start(c));
    assert(trim_start(c) == c);
    assert(c.last() == c[c.len() - 1]);
    assert(trim_end(c) == c);
    assert(block_cmd(b) == c);
    assert(block_id(b) =~= id);
    let bs = seq![b];
    assert(bs.drop_last() =~= Seq::<Seq<char>>::empty());
    assert(commands_of(bs.drop_last()) == Seq::<(Seq<char>, Seq<char>)>::empty());
    assert(bs.last() == b);
    assert(block_cmd(bs.last()).len() > 0);
    assert(commands_of(bs) == Seq::<(Seq<char>, Seq<char>)>::empty().push(
        (block_id(b), block_cmd(b)),
    ));
    assert(commands_of(bs) =~= seq![(id, c)]);
}

/// The reply for each command of a batch carries that command's own id,
/// command and result, whether or not its id is repeated in the batch.
pub proof fn law_reply_own_result(cmds: Seq<BridgeCommand>, results: Seq<ExecResult>, i: int)
    requires
        0 <= i < cmds.len(),
    ensures
        reply_frame(cmds, results, i) == "\\c"@ + cmds[i].id@ + " "@ + result_json(
            cmds[i].id@,
            cmds[i].cmd@,
            results[i],
        ) + " \\e"@,
{
}

/// The output reported for a command holds no control character other than
/// newline and tab.
pub proof fn law_reported_output_is_clean(stdout: Seq<u8>, stderr: Seq<u8>, windows: bool)
    ensures
        forall|k: int|
            0 <= k < reported_output(stdout, stderr, windows).len() ==> {
                let c = #[trigger] reported_output(stdout, stderr, windows)[k];
                !control_char(c) || c == '\n' || c == '\t'
            },
{
}

/// Off Windows, output that is valid UTF-8 is reported as it decodes:
/// standard output, or standard error when standard output is empty, with
/// control characters other than newline and tab made spaces.
pub proof fn law_valid_output_reported_as_decoded(stdout: Seq<u8>, stderr: Seq<u8>)
    requires
        valid_utf8(stdout),
        valid_utf8(stderr),
    ensures
        reported_output(stdout, stderr, false) == ({
            let t = if decode_utf8(stdout).len() == 0 {
                decode_utf8(stderr)
            } else {
                decode_utf8(stdout)
            };
            Seq::new(t.len(), |i: int| clean_char(t[i]))
        }),
{
}

/// A character as the output of a command shows it: control characters
/// other than newline and tab become spaces.
pub open spec fn shown_char(c: char) -> char {
    if control_char(c) && c != '\n' && c != '\t' {
        ' '
    } else {
        c
    }
}

/// On every platform the output reported for a command is its standard
/// output whenever that decodes to some text (UTF-16 or UTF-8 on Windows,
/// UTF-8 elsewhere), and its standard error only when the standard output
/// decodes to nothing; control characters other than newline and tab are
/// shown as spaces.
pub proof fn law_stdout_first(stdout: Seq<u8>, stderr: Seq<u8>, windows: bool)
    ensures
        ({
            let out = if windows {
                best_effort_text(stdout)
            } else {
                lossy_utf8(stdout)
            };
            let err = if windows {
                best_effort_text(stderr)
            } else {
                lossy_utf8(stderr)
            };
            let shown = if out.len() > 0 {
                out
            } else {
                err
            };
            reported_output(stdout, stderr, windows) == Seq::new(
                shown.len(),
                |i: int| shown_char(shown[i]),
            )
        }),
{
    let out = if windows {
        best_effort_text(stdout)
    } else {
        lossy_utf8(stdout)
    };
    let err = if windows {
        best_effort_text(stderr)
    } else {
        lossy_utf8(stderr)
    };
    let shown = if out.len() > 0 {
        out
    } else {
        err
    };
    assert(reported_output(stdout, stderr, windows) =~= Seq::new(
        shown.len(),
        |i: int| shown_char(shown[i]),
    ));
}

/// What the proxy seals for the bridge is its public key followed by the
/// UTF-8 bytes of the text, so the bridge can take both apart.
pub proof fn law_sealed_plaintext_parts(epk: Seq<u8>, payload: Seq<char>)
    ensures
        sealed_plaintext(epk, payload).take(epk.len() as int) == epk,
        sealed_plaintext(epk, payload).skip(epk.len() as int) == encode_utf8(payload),
{
    assert(sealed_plaintext(epk, payload).take(epk.len() as int) =~= epk);
    assert(sealed_plaintext(epk, payload).skip(epk.len() as int) =~= encode_utf8(payload));
}

/// What the bridge opens, with the key pair of the key a message was sealed
/// for, is the proxy's public key followed by the UTF-8 bytes of the text.
pub proof fn law_bridge_opens_sent_text(c: Seq<u8>, pk: Seq<u8>, sk: Seq<u8>, epk: Seq<u8>, payload: Seq<char>)
    requires
        opens_to(c, pk, sealed_plaintext(epk, payload)),
        sk.len() == KEY_BYTES,
        public_key_of(sk) == pk,
    ensures
        sealed_open(c, pk, sk) matches Some(m) && m.take(epk.len() as int) == epk && m.skip(
            epk.len() as int,
        ) == encode_utf8(payload),
{
    assert(sealed_open(c, pk, sk) == Some(sealed_plaintext(epk, payload)));
    law_sealed_plaintext_parts(epk, payload);
}

// ---------------------------------------------------------------------------
// SSH connection
// ---------------------------------------------------------------------------

/// A connection authenticates by public key whenever a key path is set,
/// whatever the password; by password only when no key path is set and a
/// password is; and has no way to authenticate only when neither is set.
pub proof fn law_key_path_comes_first(plan: ConnectPlan, c: SshConfigView)
    requires
        plans(plan, c),
    ensures
        c.key_path matches Some(k) ==> (plan.auth matches AuthMethod::PublicKey(p) && p@ == k),
        c.key_path is None ==> (c.password matches Some(w) ==> (plan.auth matches AuthMethod::Password(
            p,
        ) && p@ == w)),
        c.key_path is None && c.password is None ==> (plan.auth is Missing),
        plan.username@ == c.username,
{
}

// ---------------------------------------------------------------------------
// Startup retry loop
// ---------------------------------------------------------------------------

/// The actions the retry loop takes from state `(attempt, done)` on the
/// events `evs`, in order.
pub open spec fn auto_run(attempt: u64, done: bool, evs: Seq<AutoConnectEvent>) -> Seq<AutoConnectAction>
    decreases evs.len(),
{
    if evs.len() == 0 {
        Seq::empty()
    } else {
        let (a, d, act) = auto_step(attempt, done, evs[0]);
        seq![act] + auto_run(a, d, evs.drop_first())
    }
}

/// Seconds waited by the actions `acts`.
pub open spec fn total_sleep(acts: Seq<AutoConnectAction>) -> int
    decreases acts.len(),
{
    if acts.len() == 0 {
        0
    } else {
        (match acts[0] {
            AutoConnectAction::Sleep { secs } => secs as int,
            _ => 0,
        }) + total_sleep(acts.drop_first())
    }
}

/// Number of waits among the actions `acts`.
pub open spec fn sleep_count(acts: Seq<AutoConnectAction>) -> int
    decreases acts.len(),
{
    if acts.len() == 0 {
        0
    } else {
        (if acts[0] is Sleep {
            1int
        } else {
            0
        }) + sleep_count(acts.drop_first())
    }
}

/// The most the loop can still wait from attempt `a`: the startup wait
/// when it has not started, then `5 * k` after each attempt `k` from `a` to
/// the last but one.
pub open spec fn wait_budget(a: int) -> int
    decreases MAX_RETRIES - a,
{
    if a == 0 {
        STARTUP_DELAY_SECS + wait_budget(1)
    } else if a >= MAX_RETRIES || a < 1 {
        0
    } else {
        5 * a + wait_budget(a + 1)
    }
}

/// The waits still possible from attempt `a`.
pub open spec fn waits_left(a: int) -> int {
    if a == 0 {
        MAX_RETRIES as int
    } else if a >= MAX_RETRIES || a < 1 {
        0
    } else {
        MAX_RETRIES - a
    }
}

/// From any state, on any events, the loop never asks for an attempt
/// numbered above the limit, and waits at most `wait_budget` seconds in at
/// most `waits_left` waits.
pub proof fn law_retry_bounds(attempt: u64, done: bool, evs: Seq<AutoConnectEvent>)
    requires
        attempt <= MAX_RETRIES + 1,
    ensures
        total_sleep(auto_run(attempt, done, evs)) <= wait_budget(attempt as int),
        sleep_count(auto_run(attempt, done, evs)) <= waits_left(attempt as int),
        forall|i: int|
            0 <= i < auto_run(attempt, done, evs).len() ==> (#[trigger] auto_run(attempt, done, evs)[i] matches AutoConnectAction::Connect {
                attempt: k,
            } ==> 1 <= k <= MAX_RETRIES),
    decreases evs.len(),
{
    lemma_wait_budget_nonneg(attempt as int);
    if evs.len() > 0 {
        let (a, d, act) = auto_step(attempt, done, evs[0]);
        law_retry_bounds(a, d, evs.drop_first());
        let rest = auto_run(a, d, evs.drop_first());
        let run = auto_run(attempt, done, evs);
        assert(run == seq![act] + rest);
        assert(run[0] == act);
        assert(run.drop_first() =~= rest);
        lemma_wait_budget_nonneg(a as int);
        lemma_wait_budget_nonneg(attempt as int);
        let sl: int = match act {
            AutoConnectAction::Sleep { secs } => secs as int,
            _ => 0,
        };
        assert(total_sleep(run) == sl + total_sleep(rest));
        assert(sleep_count(run) == (if act is Sleep { 1int } else { 0 }) + sleep_count(rest));
        if !done && attempt == 0 {
            assert(a == 1);
            assert(sl == STARTUP_DELAY_SECS);
            assert(wait_budget(0) == STARTUP_DELAY_SECS + wait_budget(1));
        } else if !done && evs[0] is Failed && attempt < MAX_RETRIES {
            assert(a == attempt + 1);
            assert(sl == 5 * attempt);
            assert(wait_budget(attempt as int) == 5 * attempt + wait_budget(attempt + 1));
        } else {
            assert(!(act is Sleep));
            assert(a == attempt);
        }
        assert forall|i: int| 0 <= i < run.len() implies (#[trigger] run[i] matches AutoConnectAction::Connect {
            attempt: k,
        } ==> 1 <= k <= MAX_RETRIES) by {
            if i > 0 {
                assert(run[i] == rest[i - 1]);
            }
        }
    }
}

/// The event reporting that the app is shutting down.
pub open spec fn shutdown_event() -> AutoConnectEvent {
    AutoConnectEvent::Ready { shutdown: true }
}

/// Once the loop is over, every later step answers `Stop`.
pub proof fn lemma_done_only_stops(attempt: u64, evs: Seq<AutoConnectEvent>)
    ensures
        forall|i: int|
            0 <= i < auto_run(attempt, true, evs).len() ==> (#[trigger] auto_run(attempt, true, evs)[i] is Stop),
        auto_run(attempt, true, evs).len() == evs.len(),
    decreases evs.len(),
{
    if evs.len() > 0 {
        lemma_done_only_stops(attempt, evs.drop_first());
        let run = auto_run(attempt, true, evs);
        let rest = auto_run(attempt, true, evs.drop_first());
        assert forall|i: int| 0 <= i < run.len() implies (#[trigger] run[i] is Stop) by {
            if i > 0 {
                assert(run[i] == rest[i - 1]);
            }
        }
    }
}

/// After its startup wait, a loop that learns that the app is shutting down
/// stops at once and is over: that step and every later one answer `Stop`,
/// so no attempt is made after a shutdown.
pub proof fn law_shutdown_stops(attempt: u64, evs: Seq<AutoConnectEvent>)
    requires
        attempt >= 1,
    ensures
        auto_step(attempt, false, shutdown_event()) == (attempt, true, AutoConnectAction::Stop),
        auto_run(attempt, false, seq![shutdown_event()] + evs).len() == evs.len() + 1,
        forall|i: int|
            0 <= i < evs.len() + 1 ==> (#[trigger] auto_run(
                attempt,
                false,
                seq![shutdown_event()] + evs,
            )[i] is Stop),
{
    let all = seq![shutdown_event()] + evs;
    assert(all[0] == shutdown_event());
    assert(all.drop_first() =~= evs);
    lemma_done_only_stops(attempt, evs);
    let run = auto_run(attempt, false, all);
    assert(run == seq![AutoConnectAction::Stop] + auto_run(attempt, true, evs));
    assert forall|i: int| 0 <= i < evs.len() + 1 implies (#[trigger] run[i] is Stop) by {
        if i > 0 {
            assert(run[i] == auto_run(attempt, true, evs)[i - 1]);
        }
    }
}

/// The wait budget is never negative.
pub proof fn lemma_wait_budget_nonneg(a: int)
    ensures
        wait_budget(a) >= 0,
    decreases MAX_RETRIES - a,
{
    if a == 0 {
        lemma_wait_budget_nonneg(1);
    } else if a < MAX_RETRIES && a >= 1 {
        lemma_wait_budget_nonneg(a + 1);
    }
}

/// From its start, the loop waits at most 227 seconds in all (the 2-second
/// startup wait, then at most 225 seconds between attempts), in at most ten
/// waits.
pub proof fn law_retry_total_wait(evs: Seq<AutoConnectEvent>)
    ensures
        total_sleep(auto_run(0, false, evs)) <= 227,
        sleep_count(auto_run(0, false, evs)) <= 10,
{
    law_retry_bounds(0, false, evs);
    reveal_with_fuel(wait_budget, 11);
}

// ---------------------------------------------------------------------------
// Numbers
// ---------------------------------------------------------------------------

/// The decimal representation of a number is made of digits and has that
/// number as its value.
pub proof fn lemma_decimal_digits(n: nat)
    ensures
        decimal(n).len() > 0,
        all_digits(decimal(n)),
        digits_value(decimal(n)) == n,
    decreases n,
{
    assert((crate::text::digit_char(n % 10) as u32) == n % 10 + 48);
    if n < 10 {
        assert(decimal(n).drop_last() =~= Seq::<char>::empty());
        assert(n % 10 == n);
        assert(digits_value(decimal(n)) == digits_value(Seq::<char>::empty()) * 10 + (n % 10));
    }
    if n >= 10 {
        lemma_decimal_digits(n / 10);
        let d = decimal(n / 10);
        assert(decimal(n) == d.push(crate::text::digit_char(n % 10)));
        assert(decimal(n).drop_last() =~= d);
        assert(decimal(n).last() == crate::text::digit_char(n % 10));
        assert((crate::text::digit_char(n % 10) as u32) == n % 10 + 48);
        assert(digits_value(decimal(n)) == digits_value(d) * 10 + (n % 10));
        assert((n / 10) * 10 + n % 10 == n) by (nonlinear_arith);
        assert forall|i: int| 0 <= i < decimal(n).len() implies #[trigger] is_digit(decimal(n)[i]) by {
            if i < d.len() {
                assert(decimal(n)[i] == d[i]);
            }
        }
    }
}

/// Parsing the decimal representation of an `i64` gives the number back.
pub proof fn law_parse_decimal_roundtrip(n: i64)
    ensures
        parse_i64(decimal_int(n as int)) == Some(n),
{
    if n < 0 {
        lemma_decimal_digits((-n) as nat);
        let s = decimal_int(n as int);
        assert(s[0] == '-');
        assert(s.skip(sign_len(s)) =~= decimal((-n) as nat));
    } else {
        lemma_decimal_digits(n as nat);
        let s = decimal_int(n as int);
        assert(is_digit(s[0]));
        assert(sign_len(s) == 0);
        assert(s.skip(0) =~= s);
    }
}

} // verus!
