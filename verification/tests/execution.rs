use director_brain::adapters::executor::{
    ExecutorError, PollStep, DEFAULT_TIMEOUT_MILLIS, NO_EXIT_CODE,
};
use director_brain::adapters::stdio_mcp::{ContentBlock, LineStep, Reply, ReplyStep};
use director_brain::{LocalExecutor, StdioMcpTransport, TransportError};

#[test]
fn a_missing_program_is_a_spawn_failure() {
    let err = LocalExecutor::spawn_failed(
        "definitely-not-a-real-program-9f3a",
        "No such file or directory",
    );
    assert!(matches!(err, ExecutorError::SpawnFailed { .. }));
    assert_eq!(
        err.to_string(),
        "could not spawn definitely-not-a-real-program-9f3a: No such file or directory"
    );
}

#[test]
fn a_successful_command_reports_exit_zero() {
    let exec = LocalExecutor::default();
    assert_eq!(exec.timeout_millis, DEFAULT_TIMEOUT_MILLIS);
    assert_eq!(exec.poll(true, 5), PollStep::Collect);
    let outcome = exec.exited(Some(0), &b"ok\n".to_vec(), &vec![]);
    assert!(outcome.succeeded());
    assert_eq!(outcome.stdout, "ok\n");
}

#[test]
fn a_failing_command_reports_its_exit_code() {
    let exec = LocalExecutor::default();
    let outcome = exec.exited(Some(3), &vec![], &b"bad".to_vec());
    assert!(!outcome.succeeded());
    assert_eq!(outcome.exit_code, 3);
    assert_eq!(outcome.stderr, "bad");
    assert_eq!(exec.exited(None, &vec![], &vec![]).exit_code, NO_EXIT_CODE);
}

#[test]
fn a_hanging_command_times_out_as_an_outcome_not_an_error() {
    let exec = LocalExecutor::with_timeout(150);
    assert_eq!(exec.poll(false, 149), PollStep::Wait);
    assert_eq!(exec.poll(false, 150), PollStep::Kill);
    assert_eq!(exec.poll(true, 400), PollStep::Collect);
    let outcome = exec.timed_out(&b"partial".to_vec(), &vec![]);
    assert!(outcome.timed_out, "expected a timeout outcome");
    assert!(!outcome.succeeded());
    assert_eq!(outcome.stdout, "partial");
}

#[test]
fn output_that_is_not_text_is_shown_as_far_as_it_is() {
    let outcome = LocalExecutor::default().exited(Some(0), &vec![b'a', 0xff, b'b'], &vec![]);
    assert_eq!(outcome.stdout, "a\u{fffd}b");
}

#[test]
fn blank_lines_are_skipped_and_an_end_is_an_error() {
    let transport = StdioMcpTransport;
    assert_eq!(transport.read_line(1, "\n"), LineStep::Skip);
    assert_eq!(transport.read_line(9, " {\"id\":1}\n"), LineStep::Parse("{\"id\":1}".into()));
    match transport.read_line(0, "") {
        LineStep::Closed(error) => assert_eq!(
            error.to_string(),
            "malformed JSON-RPC response: server closed the connection"
        ),
        other => panic!("unexpected {other:?}"),
    }
    assert_eq!(
        transport.unparsable("expected value", "x").to_string(),
        "malformed JSON-RPC response: expected value: x"
    );
}

#[test]
fn only_the_matching_reply_is_taken() {
    let transport = StdioMcpTransport;
    let reply = |id: Option<u64>, error: Option<&str>| Reply {
        id,
        error: error.map(str::to_string),
    };
    assert_eq!(transport.request(2, &reply(Some(1), None)), ReplyStep::Skip);
    assert_eq!(transport.request(2, &reply(None, Some("x"))), ReplyStep::Skip);
    assert_eq!(transport.request(2, &reply(Some(2), None)), ReplyStep::Accept);
    assert_eq!(
        transport.request(2, &reply(Some(2), Some("boom"))),
        ReplyStep::Fail(TransportError::Malformed("JSON-RPC error: boom".into()))
    );
}

#[test]
fn a_tool_result_is_its_first_text() {
    let transport = StdioMcpTransport;
    let block = |kind: &str, text: Option<&str>| ContentBlock {
        kind: kind.to_string(),
        text: text.map(str::to_string),
    };
    assert_eq!(
        transport.call_tool(false, &vec![block("text", Some("hi")), block("text", Some("no"))]),
        Ok("hi".to_string())
    );
    assert_eq!(
        transport.call_tool(true, &vec![block("text", Some("why"))]),
        Err(TransportError::ToolFailed("why".into()))
    );
    assert_eq!(
        transport.call_tool(true, &vec![]).unwrap_err().to_string(),
        "tool failed: unknown error"
    );
    assert_eq!(
        transport.call_tool(false, &vec![block("image", Some("x"))]).unwrap_err().to_string(),
        "the server returned no content"
    );
    assert_eq!(
        TransportError::SpawnFailed { path: "/bin/x".into(), source: "gone".into() }.to_string(),
        "could not spawn /bin/x: gone"
    );
}
