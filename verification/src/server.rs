//! Text protocol of the local proxy between the chat frontend and the remote
//! bridge.
//!
//! The bridge embeds commands in its chat messages as `\c<id> <command>\e`
//! blocks.  This module finds those blocks, strips them from the chat text,
//! labels the commands, formats the progress lines shown to the frontend,
//! turns the output of a local process into a result, and frames the results
//! sent back to the bridge.
use vstd::prelude::*;
use crate::json::{json_quoted, quote_json};
use vstd::utf8::{decode_utf8, valid_utf8};
use crate::text::{
    control_char, decimal_int, is_control, push_char, push_decimal_i64, trim_end_char,
    trim_end_char_bound,
    copy_str, cut_bytes, cut_point, decimal, line_bounds, lines, push_decimal, push_range,
    push_str, str_eq, strings_are,
    chars_of, chars_range, extend_range, find_pair, find_pair_from, string_of_range, trim,
    trim_bounds,
};

verus! {

// ---------------------------------------------------------------------------
// Command blocks
// ---------------------------------------------------------------------------

/// `s[from..]` with every complete `\c ... \e` block cut out.  A `\c` with
/// no `\e` after it stays in the text.
pub open spec fn strip_from(s: Seq<char>, from: int) -> Seq<char>
    decreases s.len() - from,
{
    if from < 0 || from > s.len() {
        Seq::empty()
    } else {
        match find_pair(s, from, '\\', 'c') {
            None => s.subrange(from, s.len() as int),
            Some(p) => if from <= p && p + 2 <= s.len() {
                s.subrange(from, p) + match find_pair(s, p + 2, '\\', 'e') {
                    Some(e) => if p + 2 <= e && e + 2 <= s.len() {
                        strip_from(s, e + 2)
                    } else {
                        Seq::empty()
                    },
                    None => seq!['\\', 'c'] + strip_from(s, p + 2),
                }
            } else {
                Seq::empty()
            },
        }
    }
}

/// The chat text of a bridge message: the message with its command blocks
/// cut out, trimmed.
pub open spec fn strip_blocks(s: Seq<char>) -> Seq<char> {
    trim(strip_from(s, 0))
}

/// The inner texts of the complete `\c ... \e` blocks of `s[from..]`, in
/// order.
pub open spec fn blocks_from(s: Seq<char>, from: int) -> Seq<Seq<char>>
    decreases s.len() - from,
{
    if from < 0 || from > s.len() {
        Seq::empty()
    } else {
        match find_pair(s, from, '\\', 'c') {
            None => Seq::empty(),
            Some(p) => if from <= p && p + 2 <= s.len() {
                match find_pair(s, p + 2, '\\', 'e') {
                    Some(e) => if p + 2 <= e && e + 2 <= s.len() {
                        seq![s.subrange(p + 2, e)] + blocks_from(s, e + 2)
                    } else {
                        Seq::empty()
                    },
                    None => blocks_from(s, p + 2),
                }
            } else {
                Seq::empty()
            },
        }
    }
}

/// The inner texts of the complete command blocks of `s`.
pub open spec fn blocks(s: Seq<char>) -> Seq<Seq<char>> {
    blocks_from(s, 0)
}

/// The chat text of a bridge message (`strip_cmd_blocks`): every complete
/// `\c ... \e` block cut out, the rest trimmed.
#[verifier::rlimit(40)]
pub fn strip_cmd_blocks(text: &str) -> (r: String)
    ensures
        r@ == strip_blocks(text@),
{
    let v = chars_of(text);
    let mut out: Vec<char> = Vec::new();
    let mut rem: usize = 0;
    loop
        invariant_except_break
            rem <= v.len(),
            strip_from(v@, 0) == out@ + strip_from(v@, rem as int),
        ensures
            strip_from(v@, 0) == out@,
        decreases v.len() - rem,
    {
        match find_pair_from(&v, rem, '\\', 'c') {
            None => {
                let ghost before = out@;
                extend_range(&mut out, &v, rem, v.len());
                assert(strip_from(v@, rem as int) == v@.subrange(rem as int, v@.len() as int));
                assert(before + strip_from(v@, rem as int) =~= out@);
                break ;
            },
            Some(p) => {
                let ghost before = out@;
                extend_range(&mut out, &v, rem, p);
                match find_pair_from(&v, p + 2, '\\', 'e') {
                    Some(e) => {
                        assert(strip_from(v@, rem as int) == v@.subrange(rem as int, p as int)
                            + strip_from(v@, e + 2));
                        assert(before + (v@.subrange(rem as int, p as int) + strip_from(
                            v@,
                            e + 2,
                        )) =~= out@ + strip_from(v@, e + 2));
                        rem = e + 2;
                    },
                    None => {
                        out.push('\\');
                        out.push('c');
                        assert(strip_from(v@, rem as int) == v@.subrange(rem as int, p as int)
                            + (seq!['\\', 'c'] + strip_from(v@, p + 2)));
                        assert(before + (v@.subrange(rem as int, p as int) + (seq!['\\', 'c']
                            + strip_from(v@, p + 2))) =~= out@ + strip_from(v@, p + 2));
                        rem = p + 2;
                    },
                }
            },
        }
    }
    let (lo, hi) = trim_bounds(&out, 0, out.len());
    assert(out@.subrange(0, out@.len() as int) =~= out@);
    string_of_range(&out, lo, hi)
}

/// Bounds of the inner texts of the complete command blocks of `v`:
/// `v[r[i].0..r[i].1]` is block `i`.
pub fn block_bounds(v: &Vec<char>) -> (r: Vec<(usize, usize)>)
    ensures
        r.len() == blocks(v@).len(),
        forall|i: int| #![trigger r@[i]] 0 <= i < r.len() ==> r@[i].0 <= r@[i].1 <= v.len(),
        forall|i: int|
            #![trigger r@[i]]
            0 <= i < r.len() ==> v@.subrange(r@[i].0 as int, r@[i].1 as int) == blocks(v@)[i],
{
    let mut r: Vec<(usize, usize)> = Vec::new();
    let ghost mut acc: Seq<Seq<char>> = Seq::empty();
    let mut rem: usize = 0;
    loop
        invariant
            rem <= v.len(),
            r.len() == acc.len(),
            forall|i: int| #![trigger r@[i]] 0 <= i < r.len() ==> r@[i].0 <= r@[i].1 <= v.len(),
            forall|i: int|
                #![trigger r@[i]]
                0 <= i < r.len() ==> v@.subrange(r@[i].0 as int, r@[i].1 as int) == acc[i],
            blocks(v@) == acc + blocks_from(v@, rem as int),
        ensures
            r.len() == acc.len(),
            forall|i: int| #![trigger r@[i]] 0 <= i < r.len() ==> r@[i].0 <= r@[i].1 <= v.len(),
            forall|i: int|
                #![trigger r@[i]]
                0 <= i < r.len() ==> v@.subrange(r@[i].0 as int, r@[i].1 as int) == acc[i],
            blocks(v@) == acc,
        decreases v.len() - rem,
    {
        match find_pair_from(&v, rem, '\\', 'c') {
            None => {
                assert(blocks_from(v@, rem as int) =~= Seq::<Seq<char>>::empty());
                assert(acc + Seq::<Seq<char>>::empty() =~= acc);
                break ;
            },
            Some(p) => {
                match find_pair_from(&v, p + 2, '\\', 'e') {
                    Some(e) => {
                        let ghost b = v@.subrange(p + 2, e as int);
                        let ghost old_r = r@;
                        r.push((p + 2, e));
                        proof {
                            assert forall|j: int| 0 <= j < r.len() implies r@[j].0 <= r@[j].1
                                <= v.len() && v@.subrange(r@[j].0 as int, r@[j].1 as int)
                                == acc.push(b)[j] by {
                                if j < old_r.len() {
                                    assert(r@[j] == old_r[j]);
                                    assert(acc.push(b)[j] == acc[j]);
                                } else {
                                    assert(r@[j] == ((p + 2) as usize, e));
                                }
                            }
                            assert(blocks_from(v@, rem as int) == seq![b] + blocks_from(
                                v@,
                                e + 2,
                            ));
                            assert(acc + (seq![b] + blocks_from(v@, e + 2)) =~= acc.push(b)
                                + blocks_from(v@, e + 2));
                            acc = acc.push(b);
                        }
                        rem = e + 2;
                    },
                    None => {
                        assert(blocks_from(v@, rem as int) == blocks_from(v@, p + 2));
                        rem = p + 2;
                    },
                }
            },
        }
    }
    assert(blocks(v@) == acc);
    r
}

// ---------------------------------------------------------------------------
// Commands
// ---------------------------------------------------------------------------

/// A command found in a bridge message: the id of its block and the command
/// text.
pub struct BridgeCommand {
    pub id: String,
    pub cmd: String,
}

/// The id of a block: its first six characters.
pub open spec fn block_id(b: Seq<char>) -> Seq<char> {
    b.take(if b.len() < 6 {
        b.len() as int
    } else {
        6
    })
}

/// The command of a block: the characters after the first six, trimmed.
pub open spec fn block_cmd(b: Seq<char>) -> Seq<char> {
    if b.len() <= 6 {
        Seq::empty()
    } else {
        trim(b.skip(6))
    }
}

/// The `(id, command)` pairs of the blocks `bs` whose command is not empty.
pub open spec fn commands_of(bs: Seq<Seq<char>>) -> Seq<(Seq<char>, Seq<char>)>
    decreases bs.len(),
{
    if bs.len() == 0 {
        Seq::empty()
    } else {
        let rest = commands_of(bs.drop_last());
        let b = bs.last();
        if block_cmd(b).len() > 0 {
            rest.push((block_id(b), block_cmd(b)))
        } else {
            rest
        }
    }
}

/// The commands of a bridge message.
pub open spec fn commands(s: Seq<char>) -> Seq<(Seq<char>, Seq<char>)> {
    commands_of(blocks(s))
}

/// Whether `cs` holds exactly the `(id, command)` pairs `spec`.
pub open spec fn commands_match(cs: Seq<BridgeCommand>, spec: Seq<(Seq<char>, Seq<char>)>) -> bool {
    &&& cs.len() == spec.len()
    &&& forall|i: int|
        0 <= i < cs.len() ==> (#[trigger] cs[i]).id@ == spec[i].0 && cs[i].cmd@ == spec[i].1
}

/// Splits a block into its id (first six characters) and trimmed command
/// (the rest).
fn split_block(b: &Vec<char>) -> (r: (String, String))
    ensures
        r.0@ == block_id(b@),
        r.1@ == block_cmd(b@),
{
    let id_end = if b.len() < 6 {
        b.len()
    } else {
        6
    };
    assert(b@.subrange(0, id_end as int) =~= block_id(b@));
    let id = string_of_range(b, 0, id_end);
    if b.len() <= 6 {
        return (id, String::new());
    }
    let (lo, hi) = trim_bounds(b, 6, b.len());
    assert(b@.subrange(6, b@.len() as int) =~= b@.skip(6));
    (id, string_of_range(b, lo, hi))
}

/// The commands of a bridge message, in order: for each complete block
/// whose trimmed command is not empty, its id and command.
pub fn extract_commands(text: &str) -> (r: Vec<BridgeCommand>)
    ensures
        commands_match(r@, commands(text@)),
{
    let v = chars_of(text);
    let bounds = block_bounds(&v);
    let mut r: Vec<BridgeCommand> = Vec::new();
    let mut i: usize = 0;
    while i < bounds.len()
        invariant
            i <= bounds.len(),
            v@ == text@,
            bounds.len() == blocks(v@).len(),
            forall|j: int|
                #![trigger bounds@[j]]
                0 <= j < bounds.len() ==> bounds@[j].0 <= bounds@[j].1 <= v.len(),
            forall|j: int|
                #![trigger bounds@[j]]
                0 <= j < bounds.len() ==> v@.subrange(bounds@[j].0 as int, bounds@[j].1 as int)
                    == blocks(v@)[j],
            commands_match(r@, commands_of(blocks(v@).take(i as int))),
        decreases bounds.len() - i,
    {
        let (a, z) = bounds[i];
        let b = chars_range(&v, a, z);
        assert(b@ == blocks(v@)[i as int]);
        let (id, cmd) = split_block(&b);
        let ghost bs = blocks(v@).take(i + 1);
        assert(bs.drop_last() =~= blocks(v@).take(i as int));
        assert(bs.last() == b@);
        if !cmd.as_str().is_empty() {
            let ghost old_r = r@;
            r.push(BridgeCommand { id, cmd });
            proof {
                assert forall|j: int| 0 <= j < r.len() implies (#[trigger] r@[j]).id@
                    == commands_of(bs)[j].0 && r@[j].cmd@ == commands_of(bs)[j].1 by {
                    if j < old_r.len() {
                        assert(r@[j] == old_r[j]);
                    }
                }
            }
        } else {
            assert(cmd@.len() == 0);
        }
        i = i + 1;
    }
    assert(blocks(v@).take(i as int) =~= blocks(v@));
    r
}

// ---------------------------------------------------------------------------
// Progress lines shown to the frontend
// ---------------------------------------------------------------------------

/// The prefix of a progress line for `status`.
pub open spec fn progress_tag(status: Seq<char>) -> Seq<char> {
    if status == "running"@ {
        "\\c> "@
    } else if status == "done"@ {
        "\\c✓ "@
    } else {
        "\\c✗ "@
    }
}

/// The frontend line that shows one line of command output.
pub open spec fn output_line(l: Seq<char>) -> Seq<char> {
    "\\c= "@ + l
}

/// The frontend lines for a step of a command: the tagged label, then each
/// line of `detail`.
pub open spec fn progress_messages(label: Seq<char>, status: Seq<char>, detail: Option<Seq<char>>) -> Seq<
    Seq<char>,
> {
    seq![progress_tag(status) + label] + match detail {
        Some(d) => Seq::new(lines(d).len(), |i: int| output_line(lines(d)[i])),
        None => Seq::empty(),
    }
}

/// The frontend lines announcing a step of a command (`notify_progress`):
/// the label tagged by `status`, then one line per line of `detail`.
pub fn notify_progress(label: &str, status: &str, detail: Option<&str>) -> (r: Vec<String>)
    ensures
        strings_are(
            r@,
            progress_messages(
                label@,
                status@,
                match detail {
                    Some(d) => Some(d@),
                    None => None,
                },
            ),
        ),
{
    let mut first = String::new();
    if str_eq(status, "running") {
        push_str(&mut first, "\\c> ");
    } else if str_eq(status, "done") {
        push_str(&mut first, "\\c✓ ");
    } else {
        push_str(&mut first, "\\c✗ ");
    }
    push_str(&mut first, label);
    assert(first@ =~= progress_tag(status@) + label@);
    let mut out: Vec<String> = Vec::new();
    out.push(first);
    let ghost head = seq![progress_tag(status@) + label@];
    match detail {
        None => {
            assert(head + Seq::<Seq<char>>::empty() =~= head);
        },
        Some(d) => {
            let v = chars_of(d);
            let bounds = line_bounds(&v);
            let ghost tail = Seq::new(lines(d@).len(), |i: int| output_line(lines(d@)[i]));
            let mut i: usize = 0;
            while i < bounds.len()
                invariant
                    i <= bounds.len(),
                    v@ == d@,
                    bounds.len() == lines(v@).len(),
                    forall|j: int|
                        #![trigger bounds@[j]]
                        0 <= j < bounds.len() ==> bounds@[j].0 <= bounds@[j].1 <= v.len(),
                    forall|j: int|
                        #![trigger bounds@[j]]
                        0 <= j < bounds.len() ==> v@.subrange(
                            bounds@[j].0 as int,
                            bounds@[j].1 as int,
                        ) == lines(v@)[j],
                    tail == Seq::new(lines(d@).len(), |i: int| output_line(lines(d@)[i])),
                    strings_are(out@, head + tail.take(i as int)),
                decreases bounds.len() - i,
            {
                let (a, b) = bounds[i];
                let mut m = String::new();
                push_str(&mut m, "\\c= ");
                push_range(&mut m, &v, a, b);
                assert(m@ =~= output_line(lines(d@)[i as int]));
                let ghost old_out = out@;
                out.push(m);
                proof {
                    assert(head + tail.take(i + 1) =~= (head + tail.take(i as int)).push(
                        tail[i as int],
                    ));
                    assert forall|j: int| 0 <= j < out.len() implies (#[trigger] out@[j])@ == (
                    head + tail.take(i + 1))[j] by {
                        if j < old_out.len() {
                            assert(out@[j] == old_out[j]);
                        }
                    }
                }
                i = i + 1;
            }
            assert(tail.take(i as int) =~= tail);
        },
    }
    out
}

/// The frontend line announcing that the encrypted link to the bridge is
/// ready.
pub fn ready_notice() -> (r: String)
    ensures
        r@ == "\\cs 🟢 本地端点已就绪"@,
{
    copy_str("\\cs 🟢 本地端点已就绪")
}

/// The frontend line announcing that the link to the bridge was closed.
pub fn disconnected_notice() -> (r: String)
    ensures
        r@ == "\\e 🔴 连接已断开"@,
{
    copy_str("\\e 🔴 连接已断开")
}

/// `s` cut to at most its first `n` bytes, at the last character boundary
/// that fits.
pub fn cut_str(s: &str, n: usize) -> (r: String)
    ensures
        r@ == cut_bytes(s@, n as int),
{
    let v = chars_of(s);
    let k = cut_point(&v, n);
    assert(v@.subrange(0, k as int) =~= v@.take(k as int));
    string_of_range(&v, 0, k)
}

/// The first line sent to the frontend for a batch of `n` commands.
pub open spec fn header_title(n: nat) -> Seq<char> {
    "\\c> ⚡ 批量执行 ("@ + decimal(n) + " 条命令):"@
}

/// The frontend line that lists command `i` of a batch of `n`.
pub open spec fn header_line(i: nat, n: nat, cmd: Seq<char>) -> Seq<char> {
    "\\c=   ["@ + decimal(i + 1) + "/"@ + decimal(n) + "] "@ + cut_bytes(cmd, 50)
}

/// The frontend lines that announce a batch: none for a single command;
/// for more, a title and one line per command, each cut to at most 50
/// bytes.
pub open spec fn batch_header_lines(cmds: Seq<BridgeCommand>) -> Seq<Seq<char>> {
    if cmds.len() > 1 {
        seq![header_title(cmds.len())] + Seq::new(
            cmds.len(),
            |i: int| header_line(i as nat, cmds.len(), cmds[i].cmd@),
        )
    } else {
        Seq::empty()
    }
}

/// The frontend lines that announce a batch of commands.
pub fn batch_header(cmds: &Vec<BridgeCommand>) -> (r: Vec<String>)
    ensures
        strings_are(r@, batch_header_lines(cmds@)),
{
    let mut out: Vec<String> = Vec::new();
    let n = cmds.len();
    if n <= 1 {
        return out;
    }
    let mut title = String::new();
    push_str(&mut title, "\\c> ⚡ 批量执行 (");
    push_decimal(&mut title, n as u64);
    push_str(&mut title, " 条命令):");
    assert(title@ =~= header_title(n as nat));
    out.push(title);
    let ghost head = seq![header_title(n as nat)];
    let ghost tail = Seq::new(n as nat, |i: int| header_line(i as nat, n as nat, cmds@[i].cmd@));
    let mut i: usize = 0;
    while i < n
        invariant
            i <= n == cmds.len(),
            n > 1,
            head == seq![header_title(n as nat)],
            tail == Seq::new(n as nat, |i: int| header_line(i as nat, n as nat, cmds@[i].cmd@)),
            strings_are(out@, head + tail.take(i as int)),
        decreases n - i,
    {
        let mut line = String::new();
        push_str(&mut line, "\\c=   [");
        push_decimal(&mut line, (i + 1) as u64);
        push_str(&mut line, "/");
        push_decimal(&mut line, n as u64);
        push_str(&mut line, "] ");
        let short = cut_str(cmds[i].cmd.as_str(), 50);
        push_str(&mut line, short.as_str());
        assert(line@ =~= header_line(i as nat, n as nat, cmds@[i as int].cmd@));
        let ghost old_out = out@;
        out.push(line);
        proof {
            assert(head + tail.take(i + 1) =~= (head + tail.take(i as int)).push(tail[i as int]));
            assert forall|j: int| 0 <= j < out.len() implies (#[trigger] out@[j])@ == (head
                + tail.take(i + 1))[j] by {
                if j < old_out.len() {
                    assert(out@[j] == old_out[j]);
                }
            }
        }
        i = i + 1;
    }
    assert(tail.take(n as int) =~= tail);
    out
}

/// The label shown for command `i` of a batch of `n`: the command itself
/// when it is alone, else the command behind its position `[i/n]`.
pub open spec fn batch_label_text(i: nat, n: nat, cmd: Seq<char>) -> Seq<char> {
    if n > 1 {
        "["@ + decimal(i + 1) + "/"@ + decimal(n) + "] "@ + cmd
    } else {
        cmd
    }
}

/// The label of command `i` of the batch `cmds`.
pub fn batch_label(cmds: &Vec<BridgeCommand>, i: usize) -> (r: String)
    requires
        i < cmds.len(),
    ensures
        r@ == batch_label_text(i as nat, cmds.len() as nat, cmds@[i as int].cmd@),
{
    let n = cmds.len();
    if n > 1 {
        let mut s = String::new();
        push_str(&mut s, "[");
        push_decimal(&mut s, (i + 1) as u64);
        push_str(&mut s, "/");
        push_decimal(&mut s, n as u64);
        push_str(&mut s, "] ");
        push_str(&mut s, cmds[i].cmd.as_str());
        assert(s@ =~= batch_label_text(i as nat, n as nat, cmds@[i as int].cmd@));
        s
    } else {
        copy_str(cmds[i].cmd.as_str())
    }
}

// ---------------------------------------------------------------------------
// Running one command
// ---------------------------------------------------------------------------

/// The outcome of a local command as reported to the frontend and bridge.
pub struct ExecResult {
    pub output: String,
    pub exit_code: i32,
    pub success: bool,
}

impl ExecResult {
    /// The result reported when the command could not be run at all.
    pub fn spawn_failed(message: String) -> (r: ExecResult)
        ensures
            r.output@ == message@,
            r.exit_code == -1,
            !r.success,
    {
        ExecResult { output: message, exit_code: -1, success: false }
    }
}

/// The label shown for a command: the command text cut to at most 60
/// bytes.
pub open spec fn shown_label(cmd: Seq<char>) -> Seq<char> {
    cut_bytes(cmd, 60)
}

/// Starts a command (first half of `exec_one`): its shown label and the
/// frontend line announcing that it runs.
pub fn exec_one_start(cmd_str: &str) -> (r: (String, Vec<String>))
    ensures
        r.0@ == shown_label(cmd_str@),
        strings_are(r.1@, progress_messages(shown_label(cmd_str@), "running"@, None)),
{
    let label = cut_str(cmd_str, 60);
    let msgs = notify_progress(label.as_str(), "running", None);
    (label, msgs)
}

/// Finishes a command (second half of `exec_one`): the frontend lines with
/// its status and each line of its output.
pub fn exec_one_done(label: &str, result: &ExecResult) -> (r: Vec<String>)
    ensures
        strings_are(
            r@,
            progress_messages(
                label@,
                if result.success {
                    "done"@
                } else {
                    "error"@
                },
                Some(result.output@),
            ),
        ),
{
    if result.success {
        notify_progress(label, "done", Some(result.output.as_str()))
    } else {
        notify_progress(label, "error", Some(result.output.as_str()))
    }
}

// ---------------------------------------------------------------------------
// Decoding process output
// ---------------------------------------------------------------------------

/// The text that `String::from_utf8_lossy` makes of `bytes` that are not
/// valid UTF-8 (each invalid sequence replaced by U+FFFD).
pub uninterp spec fn utf8_lossy(bytes: Seq<u8>) -> Seq<char>;

/// The text that `String::from_utf8_lossy` makes of `bytes`: valid UTF-8
/// decoded as it stands, anything else as [`utf8_lossy`].
pub open spec fn lossy_utf8(bytes: Seq<u8>) -> Seq<char> {
    if valid_utf8(bytes) {
        decode_utf8(bytes)
    } else {
        utf8_lossy(bytes)
    }
}

/// The text that `String::from_utf16_lossy` makes of `units`: each unit
/// outside the surrogate range is its character, a high surrogate followed
/// by a low one is the character they encode together, and every other
/// (unpaired) surrogate becomes U+FFFD.
pub open spec fn utf16_lossy(units: Seq<u16>) -> Seq<char>
    decreases units.len(),
{
    if units.len() == 0 {
        Seq::empty()
    } else if units[0] < 0xD800 || units[0] > 0xDFFF {
        seq![units[0] as char] + utf16_lossy(units.drop_first())
    } else if units[0] <= 0xDBFF && units.len() >= 2 && 0xDC00 <= units[1] <= 0xDFFF {
        seq![
            (0x10000 + (units[0] - 0xD800) * 0x400 + (units[1] - 0xDC00)) as char,
        ] + utf16_lossy(units.subrange(2, units.len() as int))
    } else {
        seq!['\u{FFFD}'] + utf16_lossy(units.drop_first())
    }
}

/// Decodes `bytes` as UTF-8 with `String::from_utf8_lossy`.
///
/// Claimed of std: valid UTF-8 is decoded as it stands; other bytes give a
/// text that depends on them alone (each invalid sequence replaced).
#[verifier::external_body]
fn from_utf8_lossy(bytes: &[u8]) -> (r: String)
    ensures
        r@ == (if valid_utf8(bytes@) {
            decode_utf8(bytes@)
        } else {
            utf8_lossy(bytes@)
        }),
{
    String::from_utf8_lossy(bytes).into_owned()
}

/// Decodes `units` as UTF-16 with `String::from_utf16_lossy`.
///
/// Claimed of std: the text is [`utf16_lossy`] (invalid data, that is each
/// unpaired surrogate, is replaced by U+FFFD).
#[verifier::external_body]
fn from_utf16_lossy(units: &[u16]) -> (r: String)
    ensures
        r@ == utf16_lossy(units@),
{
    String::from_utf16_lossy(units)
}

/// The little-endian 16-bit units of `b`; an odd last byte is dropped.
pub open spec fn le_units(b: Seq<u8>) -> Seq<u16> {
    Seq::new(b.len() / 2, |i: int| (b[2 * i] as int + 256 * b[2 * i + 1] as int) as u16)
}

/// How many times `c` occurs in `s`.
pub open spec fn count_char(s: Seq<char>, c: char) -> nat
    decreases s.len(),
{
    if s.len() == 0 {
        0
    } else {
        count_char(s.drop_last(), c) + if s.last() == c {
            1nat
        } else {
            0
        }
    }
}

/// The replacement character that lossy decoding puts for invalid input.
pub open spec fn replacement() -> char {
    '\u{FFFD}'
}

/// Whether the UTF-16 reading `s` is taken: fewer than half of its
/// characters (counting an empty text as one) are replacement characters.
pub open spec fn mostly_valid(s: Seq<char>) -> bool {
    2 * count_char(s, replacement()) < if s.len() == 0 {
        1
    } else {
        s.len()
    }
}

/// The text of Windows console output (`decode_best_effort`): read as
/// UTF-16LE when at least two bytes came and that reading is mostly valid
/// (then without trailing NULs), else read as UTF-8.
pub open spec fn best_effort_text(bytes: Seq<u8>) -> Seq<char> {
    let s = utf16_lossy(le_units(bytes));
    if bytes.len() >= 2 && mostly_valid(s) {
        trim_end_char(s, '\0')
    } else {
        lossy_utf8(bytes)
    }
}

/// Counts the occurrences of `c` in `v`.
fn count_in(v: &Vec<char>, c: char) -> (r: usize)
    ensures
        r == count_char(v@, c),
        r <= v.len(),
{
    let mut n: usize = 0;
    let mut i: usize = 0;
    assert(v@.take(0) =~= Seq::<char>::empty());
    while i < v.len()
        invariant
            i <= v.len(),
            n == count_char(v@.take(i as int), c),
            n <= i,
        decreases v.len() - i,
    {
        assert(v@.take(i + 1).drop_last() =~= v@.take(i as int));
        if v[i] == c {
            n = n + 1;
        }
        i = i + 1;
    }
    assert(v@.take(i as int) =~= v@);
    n
}

/// Decodes Windows console output: UTF-16LE when that reading is mostly
/// valid, else UTF-8 (`decode_best_effort`).
pub fn decode_best_effort(bytes: &[u8]) -> (r: String)
    ensures
        r@ == best_effort_text(bytes@),
{
    if bytes.len() >= 2 {
        let mut units: Vec<u16> = Vec::new();
        let mut i: usize = 0;
        while i < bytes.len() / 2
            invariant
                i <= bytes@.len() / 2,
                units@ == le_units(bytes@).take(i as int),
            decreases bytes@.len() / 2 - i,
        {
            let u = (bytes[2 * i] as u16) + 256 * (bytes[2 * i + 1] as u16);
            assert(u == (bytes@[2 * i] as int + 256 * bytes@[2 * i + 1] as int) as u16);
            units.push(u);
            assert(le_units(bytes@).take(i + 1) =~= le_units(bytes@).take(i as int).push(u));
            i = i + 1;
        }
        assert(le_units(bytes@).take(i as int) =~= le_units(bytes@));
        let s = from_utf16_lossy(units.as_slice());
        let v = chars_of(s.as_str());
        let bad = count_in(&v, '\u{FFFD}');
        let total = if v.len() == 0 {
            1
        } else {
            v.len()
        };
        if bad < total - bad {
            let hi = trim_end_char_bound(&v, '\0');
            assert(v@.subrange(0, hi as int) =~= v@.take(hi as int));
            return string_of_range(&v, 0, hi);
        }
    }
    from_utf8_lossy(bytes)
}

/// Decodes the two output streams of a Windows command.
pub fn decode_cmd_output(stdout: &[u8], stderr: &[u8]) -> (r: (String, String))
    ensures
        r.0@ == best_effort_text(stdout@),
        r.1@ == best_effort_text(stderr@),
{
    (decode_best_effort(stdout), decode_best_effort(stderr))
}

/// A character of command output as shown: control characters other than
/// newline and tab become spaces.
pub open spec fn clean_char(c: char) -> char {
    if control_char(c) && c != '\n' && c != '\t' {
        ' '
    } else {
        c
    }
}

/// The text of one output stream of a command.
pub open spec fn stream_text(bytes: Seq<u8>, windows: bool) -> Seq<char> {
    if windows {
        best_effort_text(bytes)
    } else {
        lossy_utf8(bytes)
    }
}

/// The output reported for a command: its standard output, or its standard
/// error when the standard output is empty, with control characters other
/// than newline and tab replaced by spaces.
pub open spec fn reported_output(stdout: Seq<u8>, stderr: Seq<u8>, windows: bool) -> Seq<char> {
    let out = stream_text(stdout, windows);
    let combined = if out.len() == 0 {
        stream_text(stderr, windows)
    } else {
        out
    };
    Seq::new(combined.len(), |i: int| clean_char(combined[i]))
}

/// The result of a finished local command (`exec_local`): the reported
/// output, the exit code (`-1` when the process has none) and whether it
/// succeeded.
pub fn exec_result(stdout: &[u8], stderr: &[u8], windows: bool, code: Option<i32>, success: bool) -> (r: ExecResult)
    ensures
        r.output@ == reported_output(stdout@, stderr@, windows),
        r.exit_code == (match code {
            Some(c) => c,
            None => -1i32,
        }),
        r.success == success,
{
    let (out, err) = if windows {
        decode_cmd_output(stdout, stderr)
    } else {
        (from_utf8_lossy(stdout), from_utf8_lossy(stderr))
    };
    let combined = if out.as_str().is_empty() {
        err
    } else {
        out
    };
    let v = chars_of(combined.as_str());
    let mut cleaned = String::new();
    let mut i: usize = 0;
    while i < v.len()
        invariant
            i <= v.len(),
            cleaned@ == Seq::new(i as nat, |j: int| clean_char(v@[j])),
        decreases v.len() - i,
    {
        let c = v[i];
        let d = if is_control(c) && c != '\n' && c != '\t' {
            ' '
        } else {
            c
        };
        push_char(&mut cleaned, d);
        assert(cleaned@ =~= Seq::new((i + 1) as nat, |j: int| clean_char(v@[j])));
        i = i + 1;
    }
    let exit_code = match code {
        Some(c) => c,
        None => -1,
    };
    ExecResult { output: cleaned, exit_code, success }
}

// ---------------------------------------------------------------------------
// Results sent back to the bridge
// ---------------------------------------------------------------------------

/// The JSON object reporting the result `r` of command `cmd` of block `id`,
/// with its members in the order `serde_json` writes them.
pub open spec fn result_json(id: Seq<char>, cmd: Seq<char>, r: ExecResult) -> Seq<char> {
    "{\"batch_id\":"@ + json_quoted(id) + ",\"cmd\":"@ + json_quoted(cmd) + ",\"exit_code\":"@
        + decimal_int(r.exit_code as int) + ",\"output\":"@ + json_quoted(r.output@)
        + ",\"success\":"@ + (if r.success {
        "true"@
    } else {
        "false"@
    }) + "}"@
}

/// The message sent back to the bridge for command `i` of a batch: its id
/// and its own result.
pub open spec fn reply_frame(cmds: Seq<BridgeCommand>, results: Seq<ExecResult>, i: int) -> Seq<
    char,
> {
    "\\c"@ + cmds[i].id@ + " "@ + result_json(cmds[i].id@, cmds[i].cmd@, results[i]) + " \\e"@
}

/// Writes the JSON object reporting `r` for command `cmd` of block `id`.
fn push_result_json(s: &mut String, id: &str, cmd: &str, r: &ExecResult)
    ensures
        final(s)@ == old(s)@ + result_json(id@, cmd@, *r),
{
    let ghost start = s@;
    push_str(s, "{\"batch_id\":");
    push_str(s, quote_json(id).as_str());
    push_str(s, ",\"cmd\":");
    push_str(s, quote_json(cmd).as_str());
    push_str(s, ",\"exit_code\":");
    push_decimal_i64(s, r.exit_code as i64);
    push_str(s, ",\"output\":");
    push_str(s, quote_json(r.output.as_str()).as_str());
    push_str(s, ",\"success\":");
    if r.success {
        push_str(s, "true");
    } else {
        push_str(s, "false");
    }
    push_str(s, "}");
    assert(s@ =~= start + result_json(id@, cmd@, *r));
}

/// The messages sent back to the bridge after a batch ran, one per command
/// in order, each with that command's own result: `\c<id> <json> \e`.
pub fn reply_frames(cmds: &Vec<BridgeCommand>, results: &Vec<ExecResult>) -> (r: Vec<String>)
    requires
        cmds.len() == results.len(),
    ensures
        strings_are(r@, Seq::new(cmds.len() as nat, |i: int| reply_frame(cmds@, results@, i))),
{
    let ghost all = Seq::new(cmds.len() as nat, |i: int| reply_frame(cmds@, results@, i));
    let mut out: Vec<String> = Vec::new();
    let mut i: usize = 0;
    while i < cmds.len()
        invariant
            i <= cmds.len() == results.len(),
            all == Seq::new(cmds.len() as nat, |i: int| reply_frame(cmds@, results@, i)),
            strings_are(out@, all.take(i as int)),
        decreases cmds.len() - i,
    {
        let id = cmds[i].id.as_str();
        let mut frame = String::new();
        push_str(&mut frame, "\\c");
        push_str(&mut frame, id);
        push_str(&mut frame, " ");
        push_result_json(&mut frame, id, cmds[i].cmd.as_str(), &results[i]);
        push_str(&mut frame, " \\e");
        assert(frame@ =~= reply_frame(cmds@, results@, i as int));
        let ghost old_out = out@;
        out.push(frame);
        proof {
            assert(all.take(i + 1) =~= all.take(i as int).push(all[i as int]));
            assert forall|k: int| 0 <= k < out.len() implies (#[trigger] out@[k])@ == all.take(
                i + 1,
            )[k] by {
                if k < old_out.len() {
                    assert(out@[k] == old_out[k]);
                }
            }
        }
        i = i + 1;
    }
    assert(all.take(i as int) =~= all);
    out
}

} // verus!
