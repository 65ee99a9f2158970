use retana::server::{
    batch_header, batch_label, cut_str, disconnected_notice, ready_notice,
    decode_best_effort, decode_cmd_output, exec_one_done, exec_one_start, exec_result,
    extract_commands, notify_progress, reply_frames, strip_cmd_blocks, BridgeCommand, ExecResult,
};

fn cmd(id: &str, c: &str) -> BridgeCommand {
    BridgeCommand { id: id.to_string(), cmd: c.to_string() }
}

fn pairs(v: &[BridgeCommand]) -> Vec<(String, String)> {
    v.iter().map(|c| (c.id.clone(), c.cmd.clone())).collect()
}

fn utf16le(s: &str) -> Vec<u8> {
    s.encode_utf16().flat_map(|u| u.to_le_bytes()).collect()
}

#[test]
fn strip_removes_complete_blocks_and_trims() {
    assert_eq!(strip_cmd_blocks("hello \\cabc123 ls -la\\e world"), "hello  world");
    assert_eq!(strip_cmd_blocks("  just chat  "), "just chat");
    assert_eq!(strip_cmd_blocks("\\cabc123 ls\\e"), "");
    assert_eq!(strip_cmd_blocks("a\\cno end"), "a\\cno end");
    assert_eq!(strip_cmd_blocks("x\\c1\\e y\\c2\\e z"), "x y z");
}

#[test]
fn plain_message_is_only_trimmed() {
    let s = "  no blocks \\e here ";
    assert_eq!(strip_cmd_blocks(s), s.trim());
    assert!(extract_commands(s).is_empty());
}

#[test]
fn strip_can_leave_a_new_block_behind() {
    // The cut is mechanical: what surrounds a removed block may form a new one.
    assert_eq!(strip_cmd_blocks("\\\\cx\\ec\\e"), "\\c\\e");
}

#[test]
fn commands_are_split_into_id_and_command() {
    let v = extract_commands("run \\cabc123 ls -la\\e then \\cdef456   pwd  \\e");
    assert_eq!(
        pairs(&v),
        vec![("abc123".to_string(), "ls -la".to_string()), ("def456".to_string(), "pwd".to_string())]
    );
}

#[test]
fn command_without_space_after_id() {
    let v = extract_commands("\\cabc123ls\\e");
    assert_eq!(pairs(&v), vec![("abc123".to_string(), "ls".to_string())]);
}

#[test]
fn blocks_with_empty_command_are_skipped() {
    assert!(extract_commands("\\cabc123 \\e\\cabcdef\\e").is_empty());
}

#[test]
fn short_blocks_have_no_command() {
    assert!(extract_commands("\\cab\\e").is_empty());
    assert!(extract_commands("\\cabcdef\\e").is_empty());
    assert_eq!(pairs(&extract_commands("\\cabcdefx\\e")), vec![("abcdef".to_string(), "x".to_string())]);
}

#[test]
fn blocks_split_by_characters() {
    // Six characters of id, then the command, trimmed.
    let v = extract_commands("\\c中中 echo\\e");
    assert_eq!(pairs(&v), vec![("中中 ech".to_string(), "o".to_string())]);
    let v = extract_commands("\\c中文标识符号 ls -a\\e");
    assert_eq!(pairs(&v), vec![("中文标识符号".to_string(), "ls -a".to_string())]);
    let v = extract_commands("\\cabcde中x\\e");
    assert_eq!(pairs(&v), vec![("abcde中".to_string(), "x".to_string())]);
}

#[test]
fn progress_lines() {
    assert_eq!(notify_progress("ls", "running", None), vec!["\\c> ls".to_string()]);
    assert_eq!(
        notify_progress("ls", "done", Some("a\nb\r\n")),
        vec!["\\c✓ ls".to_string(), "\\c= a".to_string(), "\\c= b".to_string()]
    );
    assert_eq!(notify_progress("ls", "error", Some("")), vec!["\\c✗ ls".to_string()]);
    assert_eq!(notify_progress("ls", "weird", None), vec!["\\c✗ ls".to_string()]);
}

#[test]
fn exec_one_labels_are_cut_at_sixty_bytes() {
    let long = "x".repeat(70);
    let (label, msgs) = exec_one_start(&long);
    assert_eq!(label, "x".repeat(60));
    assert_eq!(msgs, vec![format!("\\c> {}", "x".repeat(60))]);
    let (label, _) = exec_one_start("short");
    assert_eq!(label, "short");
    // A cut inside a character falls back to the boundary before it.
    let (label, _) = exec_one_start(&format!("{}中", "x".repeat(59)));
    assert_eq!(label, "x".repeat(59));
    let (label, _) = exec_one_start(&format!("{}中", "x".repeat(60)));
    assert_eq!(label, "x".repeat(60));
    assert_eq!(cut_str("ab中", 2), "ab");
    assert_eq!(cut_str("ab中", 4), "ab");
    assert_eq!(cut_str("ab中", 5), "ab中");
    assert_eq!(cut_str("中", 0), "");
}

#[test]
fn exec_one_done_reports_status_and_lines() {
    let ok = ExecResult { output: "one\ntwo".to_string(), exit_code: 0, success: true };
    assert_eq!(
        exec_one_done("ls", &ok),
        vec!["\\c✓ ls".to_string(), "\\c= one".to_string(), "\\c= two".to_string()]
    );
    let bad = ExecResult::spawn_failed("boom".to_string());
    assert_eq!(bad.exit_code, -1);
    assert!(!bad.success);
    assert_eq!(exec_one_done("ls", &bad), vec!["\\c✗ ls".to_string(), "\\c= boom".to_string()]);
}

#[test]
fn batch_header_and_labels() {
    let cmds = vec![cmd("aaaaaa", "ls"), cmd("bbbbbb", &"y".repeat(55))];
    assert_eq!(
        batch_header(&cmds),
        vec![
            "\\c> ⚡ 批量执行 (2 条命令):".to_string(),
            "\\c=   [1/2] ls".to_string(),
            format!("\\c=   [2/2] {}", "y".repeat(50)),
        ]
    );
    assert_eq!(batch_label(&cmds, 0), "[1/2] ls");
    let single = vec![cmd("aaaaaa", "pwd")];
    assert!(batch_header(&single).is_empty());
    assert_eq!(batch_label(&single, 0), "pwd");
    let wide = vec![cmd("a", "x"), cmd("b", &format!("{}中", "x".repeat(49)))];
    assert_eq!(batch_header(&wide)[2], format!("\\c=   [2/2] {}", "x".repeat(49)));
}

#[test]
fn exec_result_prefers_stdout_and_cleans_controls() {
    let r = exec_result(b"hi\x07there\n\tx", b"err", false, Some(3), false);
    assert_eq!(r.output, "hi there\n\tx");
    assert_eq!(r.exit_code, 3);
    assert!(!r.success);
    let r = exec_result(b"", b"only err\r", false, None, true);
    assert_eq!(r.output, "only err ");
    assert_eq!(r.exit_code, -1);
    assert!(r.success);
    let r = exec_result(b"\xff", b"", false, Some(0), true);
    assert_eq!(r.output, "\u{FFFD}");
}

#[test]
fn windows_output_is_read_as_utf16_when_it_looks_like_it() {
    let mut bytes = utf16le("héllo 中");
    bytes.extend_from_slice(&[0, 0]);
    assert_eq!(decode_best_effort(&bytes), "héllo 中");
    // Plain UTF-8 text read as UTF-16 gives mostly unpaired surrogates or
    // CJK; this ASCII text pairs up into valid but odd characters, so a
    // single byte is the clear case for UTF-8.
    assert_eq!(decode_best_effort(b"a"), "a");
    let (o, e) = decode_cmd_output(&utf16le("out"), b"x");
    assert_eq!(o, "out");
    assert_eq!(e, "x");
    let r = exec_result(&utf16le("dir\r\n"), b"", true, Some(0), true);
    assert_eq!(r.output, "dir \n");
}

#[test]
fn invalid_utf16_falls_back_to_utf8() {
    // Two lone low surrogates: every UTF-16 character is a replacement.
    let bytes = [0x00u8, 0xDC, 0x00, 0xDC];
    assert_eq!(decode_best_effort(&bytes), String::from_utf8_lossy(&bytes));
}

#[test]
fn reply_frames_carry_json_results() {
    let cmds = vec![cmd("abc123", "echo \"hi\""), cmd("def456", "false")];
    let results = vec![
        ExecResult { output: "hi\n".to_string(), exit_code: 0, success: true },
        ExecResult { output: String::new(), exit_code: -1, success: false },
    ];
    let frames = reply_frames(&cmds, &results);
    assert_eq!(
        frames,
        vec![
            "\\cabc123 {\"batch_id\":\"abc123\",\"cmd\":\"echo \\\"hi\\\"\",\"exit_code\":0,\"output\":\"hi\\n\",\"success\":true} \\e".to_string(),
            "\\cdef456 {\"batch_id\":\"def456\",\"cmd\":\"false\",\"exit_code\":-1,\"output\":\"\",\"success\":false} \\e".to_string(),
        ]
    );
}

#[test]
fn reply_frames_for_repeated_ids_carry_their_own_results() {
    let cmds = vec![cmd("same00", "one"), cmd("same00", "two")];
    let results = vec![
        ExecResult { output: "1".to_string(), exit_code: 0, success: true },
        ExecResult { output: "2".to_string(), exit_code: 0, success: true },
    ];
    let frames = reply_frames(&cmds, &results);
    assert_eq!(frames.len(), 2);
    assert!(frames[0].contains("\"cmd\":\"one\""));
    assert!(frames[0].contains("\"output\":\"1\""));
    assert!(frames[1].contains("\"cmd\":\"two\""));
    assert!(frames[1].contains("\"output\":\"2\""));
}

#[test]
fn reply_frames_escape_like_serde_json() {
    let cmds = vec![cmd("ctl000", "a\u{1}b\u{1f}\u{8}\u{c}\r\t\\/é")];
    let results = vec![ExecResult { output: "\u{7f}中".to_string(), exit_code: 5, success: false }];
    let frames = reply_frames(&cmds, &results);
    assert_eq!(
        frames[0],
        "\\cctl000 {\"batch_id\":\"ctl000\",\"cmd\":\"a\\u0001b\\u001f\\b\\f\\r\\t\\\\/é\",\"exit_code\":5,\"output\":\"\u{7f}中\",\"success\":false} \\e"
    );
}

#[test]
fn utf16_surrogates_are_decoded_or_replaced() {
    // A surrogate pair (U+1F600), then an unpaired high surrogate before 'A'.
    let units: [u16; 4] = [0xD83D, 0xDE00, 0xD800, 0x0041];
    let bytes: Vec<u8> = units.iter().flat_map(|u| u.to_le_bytes()).collect();
    assert_eq!(decode_best_effort(&bytes), "😀\u{FFFD}A");
}

#[test]
fn link_notices() {
    assert_eq!(ready_notice(), "\\cs 🟢 本地端点已就绪");
    assert_eq!(disconnected_notice(), "\\e 🔴 连接已断开");
}
