use ccs_proxy::error::ProxyError;
use ccs_proxy::forwarder::json_probe::ResponsesJsonDocumentProbe;
use ccs_proxy::forwarder::productive::{
    gemini_part_has_productive_output, meaningful_tool_payload,
    responses_event_has_productive_output, sse_json_has_productive_output,
};
use ccs_proxy::forwarder::responses::{
    codex_anthropic_error_envelope_message, inspect_responses_json_document,
    inspect_responses_start_event, inspect_role_stream_terminal, responses_error_envelope_message,
    RoleStreamTerminal,
};
use ccs_proxy::forwarder::role_stream::{
    DeferredRoleStream, RoleStreamReport, RoleStreamTerminalMonitor,
    ROLE_STREAM_TERMINAL_MONITOR_MAX_BYTES,
};
use ccs_proxy::forwarder::sse::{
    append_utf8_safe, lines_of, parse_sse_block, search_block, strip_sse_field, take_sse_block,
    BlockSearch,
};
use ccs_proxy::forwarder::stream_start::{StartAction, StartPhase, StreamStart, MAX_PRIME_BYTES};
use ccs_proxy::json::{parse_text, Json};
use ccs_proxy::provider::{
    AppType, LocalProxyRetryErrorType, LocalProxyRetryPolicy, Provider, ProviderMeta,
};
use ccs_proxy::provider_retry::{resolve_retry_policy, ResolvedRetryPolicy};

fn json(text: &str) -> Json {
    parse_text(text).expect("valid JSON")
}

#[test]
fn role_stream_terminal_monitor_drops_state_at_the_limit() {
    let mut monitor = RoleStreamTerminalMonitor::new();
    let productive = b"event: response.output_text.delta\ndata: {\"type\":\"response.output_text.delta\",\"delta\":\"hello\"}\n\n";

    assert!(monitor.observe_chunk(productive).is_none());
    assert!(monitor.is_scanning());
    assert_eq!(monitor.retained_bytes(), 0);

    let no_delimiter = vec![b'x'; ROLE_STREAM_TERMINAL_MONITOR_MAX_BYTES + 1];
    assert!(monitor.observe_chunk(&no_delimiter).is_none());
    assert!(!monitor.is_scanning());
    assert_eq!(monitor.retained_bytes(), 0);
}

#[test]
fn codex_anthropic_2xx_error_envelope_is_detected_for_failover() {
    let body = br#"{"type":"error","error":{"type":"overloaded_error","message":"busy"}}"#;
    assert_eq!(
        codex_anthropic_error_envelope_message(body).as_deref(),
        Some("overloaded_error: busy")
    );
    assert!(
        codex_anthropic_error_envelope_message(br#"{"type":"message","content":[]}"#).is_none()
    );
}

#[test]
fn responses_2xx_failure_is_detected_for_failover() {
    assert_eq!(
        responses_error_envelope_message(
            br#"{"status":"failed","error":{"type":"server_error","message":"busy"},"output":[]}"#
        )
        .as_deref(),
        Some("server_error: busy")
    );
    assert_eq!(
        responses_error_envelope_message(br#"{"status":"cancelled","output":[]}"#).as_deref(),
        Some("cancelled: response generation was cancelled")
    );
    assert_eq!(
        responses_error_envelope_message(
            br#"{"type":"response.failed","response":{"status":"failed","error":{"code":"too_many_requests","message":"quota exhausted"}}}"#
        )
        .as_deref(),
        Some("too_many_requests: quota exhausted")
    );
    assert_eq!(
        responses_error_envelope_message(
            br#"{"error":{"code":429,"status":"RESOURCE_EXHAUSTED","message":"quota exhausted"}}"#
        )
        .as_deref(),
        Some("RESOURCE_EXHAUSTED (429): quota exhausted")
    );
    assert!(responses_error_envelope_message(
        br#"{"status":"incomplete","incomplete_details":{"reason":"max_output_tokens"},"output":[]}"#
    )
    .is_none());
    assert!(responses_error_envelope_message(
        br#"{"status":"completed","error":null,"output":[]}"#
    )
    .is_none());
}

#[test]
fn responses_stream_start_semantic_failure_is_retryable() {
    let created = "event: response.created\ndata: {\"type\":\"response.created\",\"response\":{\"id\":\"resp_1\"}}";
    assert!(inspect_responses_start_event(created).is_none());

    let failed = "event: response.failed\ndata: {\"type\":\"response.failed\",\"response\":{\"error\":{\"type\":\"server_error\",\"message\":\"boom\"}}}";
    assert!(matches!(
        inspect_responses_start_event(failed),
        Some(Err(ProxyError::TransformError(message))) if message.contains("boom")
    ));

    let anthropic_error = "event: error\ndata: {\"type\":\"error\",\"error\":{\"type\":\"overloaded_error\",\"message\":\"capacity unavailable\"}}";
    assert!(matches!(
        inspect_responses_start_event(anthropic_error),
        Some(Err(ProxyError::TransformError(message))) if message.contains("capacity unavailable")
    ));

    let delta = "event: response.output_text.delta\ndata: {\"type\":\"response.output_text.delta\",\"delta\":\"hi\"}";
    assert!(matches!(inspect_responses_start_event(delta), Some(Ok(()))));

    let empty_item_added = "event: response.output_item.added\ndata: {\"type\":\"response.output_item.added\",\"item\":{\"type\":\"message\",\"content\":[]}}";
    assert!(inspect_responses_start_event(empty_item_added).is_none());

    let empty_part_added = "event: response.content_part.added\ndata: {\"type\":\"response.content_part.added\",\"part\":{\"type\":\"output_text\",\"text\":\"\"}}";
    assert!(inspect_responses_start_event(empty_part_added).is_none());

    let tool_item_added = "event: response.output_item.added\ndata: {\"type\":\"response.output_item.added\",\"item\":{\"type\":\"function_call\",\"name\":\"lookup\",\"arguments\":\"{}\"}}";
    assert!(matches!(
        inspect_responses_start_event(tool_item_added),
        Some(Ok(()))
    ));

    let unknown_lifecycle = "event: response.vendor_heartbeat\ndata: {\"type\":\"response.vendor_heartbeat\",\"status\":\"in_progress\"}";
    assert!(inspect_responses_start_event(unknown_lifecycle).is_none());

    let content_block_stop =
        "event: content_block_stop\ndata: {\"type\":\"content_block_stop\",\"index\":0}";
    assert!(inspect_responses_start_event(content_block_stop).is_none());
}

#[test]
fn responses_stream_start_accepts_unlabelled_whole_json() {
    assert!(matches!(
        inspect_responses_json_document(
            r#"{
                "status": "completed",

                "output": []
            }"#
        ),
        Some(Ok(()))
    ));
    assert!(inspect_responses_json_document(r#"{"status":"completed""#).is_none());
    let failed = inspect_responses_json_document(
        r#"{"status":"failed","error":{"message":"backend unavailable"}}"#,
    );
    assert!(
        matches!(failed, Some(Err(ProxyError::TransformError(message))) if message.contains("backend unavailable"))
    );
}

#[test]
fn envelope_messages_fall_back_to_what_is_there() {
    assert_eq!(
        codex_anthropic_error_envelope_message(br#"{"error":"plain"}"#).as_deref(),
        Some("error: plain")
    );
    assert_eq!(
        codex_anthropic_error_envelope_message(br#"{"error": {"code": 7}}"#).as_deref(),
        Some(r#"error: {"code":7}"#)
    );
    assert_eq!(codex_anthropic_error_envelope_message(b"not json"), None);
    assert_eq!(
        responses_error_envelope_message(br#"{"error":{"code":503}}"#).as_deref(),
        Some("overloaded (503): response generation failed")
    );
    assert_eq!(
        responses_error_envelope_message(br#"{"error":{"code":70000,"message":" "}}"#).as_deref(),
        Some("error: response generation failed")
    );
}

#[test]
fn ends_of_streams_are_told_apart() {
    assert_eq!(
        inspect_role_stream_terminal("data: [DONE]"),
        Some(RoleStreamTerminal::Success)
    );
    assert_eq!(
        inspect_role_stream_terminal("event: message_stop\ndata: {}"),
        Some(RoleStreamTerminal::Success)
    );
    assert_eq!(
        inspect_role_stream_terminal("data: {\"type\":\"response.failed\",\"response\":{\"status\":\"failed\"}}"),
        Some(RoleStreamTerminal::Failure(
            "格式转换错误: Responses upstream returned a 2xx failure: failed: response generation failed".to_string()
        ))
    );
    assert_eq!(inspect_role_stream_terminal("data: {\"delta\":\"x\"}"), None);
    assert_eq!(inspect_role_stream_terminal(": comment"), None);
}

#[test]
fn blocks_are_cut_at_the_first_blank_line() {
    let mut text = "a\r\n\r\nb\n\nc".to_string();
    assert_eq!(take_sse_block(&mut text).as_deref(), Some("a"));
    assert_eq!(take_sse_block(&mut text).as_deref(), Some("b"));
    assert_eq!(take_sse_block(&mut text), None);
    assert_eq!(text, "c");
    text.push_str("\n\nd");
    assert_eq!(take_sse_block(&mut text).as_deref(), Some("c"));
    assert_eq!(text, "d");
}

#[test]
fn fields_of_a_block_are_put_together() {
    assert_eq!(lines_of("a\r\nb\nc"), vec!["a", "b", "c"]);
    assert_eq!(lines_of("a\n"), vec!["a"]);
    assert!(lines_of("").is_empty());
    assert_eq!(strip_sse_field("data: x", "data"), Some("x"));
    assert_eq!(strip_sse_field("data:x", "data"), Some("x"));
    assert_eq!(strip_sse_field("date: x", "data"), None);
    let block = parse_sse_block("event: one\nevent: two \ndata: a\ndata:b\nid: 3");
    assert_eq!(block.event.as_deref(), Some("two"));
    assert_eq!(block.data.as_deref(), Some("a\nb"));
    assert_eq!(parse_sse_block("event: x").data, None);
}

#[test]
fn characters_may_be_cut_anywhere() {
    let bytes = "aé漢😀b".as_bytes();
    for cut in 0..=bytes.len() {
        let mut text = String::new();
        let mut rest = Vec::new();
        append_utf8_safe(&mut text, &mut rest, &bytes[..cut]);
        append_utf8_safe(&mut text, &mut rest, &bytes[cut..]);
        assert_eq!(text, "aé漢😀b", "{cut}");
        assert!(rest.is_empty(), "{cut}");
    }
    let mut text = String::new();
    let mut rest = Vec::new();
    append_utf8_safe(&mut text, &mut rest, b"a\xffb\xe6\xbc");
    assert_eq!(text, "a\u{FFFD}b");
    assert_eq!(rest, vec![0xe6, 0xbc]);
}

#[test]
fn probes_notice_the_end_of_a_document_however_it_is_cut() {
    let document = br#"  {"a":"}\"]","b":[1,{"c":2}]} tail"#;
    let end = document.len() - 5;
    let mut probe = ResponsesJsonDocumentProbe::new();
    for (i, byte) in document.iter().enumerate() {
        probe.observe(&[*byte]);
        if i + 1 < end {
            assert!(!probe.take_complete(), "{i}");
        } else if i + 1 == end {
            assert!(!probe.is_tracking());
            assert!(probe.take_complete());
        } else {
            assert!(!probe.take_complete());
        }
    }
    let mut whole = ResponsesJsonDocumentProbe::new();
    whole.observe(document);
    assert!(whole.take_complete());
    let mut text = ResponsesJsonDocumentProbe::new();
    text.observe(b"data: {}");
    assert!(!text.is_tracking());
    assert!(!text.take_complete());
}

#[test]
fn output_is_found_in_every_protocol() {
    for (text, expected) in [
        (r#"{"item":{"type":"message","content":[{"text":"x"}]}}"#, true),
        (r#"{"item":{"type":"message","content":[{"text":""}]}}"#, false),
        (r#"{"type":"tool_search_call","queries":["", 1]}"#, true),
        (r#"{"type":"mcp_call","status":" ","args":{}}"#, false),
        (r#"{"part":{"other":"x"}}"#, false),
    ] {
        assert_eq!(responses_event_has_productive_output(&json(text)), expected, "{text}");
    }
    for (text, expected) in [
        (r#"{"status":"incomplete"}"#, true),
        (r#"{"choices":[{"delta":{"content":"x"}}]}"#, true),
        (r#"{"choices":[{"delta":{"content":""},"finish_reason":null}]}"#, false),
        (r#"{"choices":[{"message":{"tool_calls":[{"function":{"name":"f"}}]}}]}"#, true),
        (r#"{"candidates":[{"content":{"parts":[{"text":"x"}]}}]}"#, true),
        (r#"{"candidates":[{"finishReason":"STOP"}]}"#, true),
        (r#"{"candidates":[{"content":{"parts":[]}}]}"#, false),
        (r#"{"usage":{}}"#, false),
    ] {
        assert_eq!(sse_json_has_productive_output(&json(text)), expected, "{text}");
    }
    assert!(gemini_part_has_productive_output(&json(r#"{"inlineData":{"data":"x"}}"#)));
    assert!(!gemini_part_has_productive_output(&json(r#"{"inlineData":{"data":""}}"#)));
    assert!(meaningful_tool_payload(&json("0")));
    assert!(!meaningful_tool_payload(&json(r#"[null,false," ",{"a":[]}]"#)));
    assert!(matches!(
        inspect_responses_start_event(
            "event: content_block_start\ndata: {\"content_block\":{\"type\":\"tool_use\",\"name\":\"f\"}}"
        ),
        Some(Ok(()))
    ));
    assert!(inspect_responses_start_event(
        "event: content_block_start\ndata: {\"content_block\":{\"type\":\"text\",\"text\":\"\"}}"
    )
    .is_none());
    assert!(matches!(
        inspect_responses_start_event(
            "event: content_block_delta\ndata: {\"delta\":{\"partial_json\":\"{\"}}"
        ),
        Some(Ok(()))
    ));
}

/// Feeds chunks to the machine, with time enough, until it decides or wants more.
fn run(chunks: &[&[u8]], end: bool, policy: Option<&ResolvedRetryPolicy>) -> StartAction {
    let mut start = StreamStart::new();
    let mut action = StartAction::Read;
    for chunk in chunks {
        let (next, what) = start.chunk(policy, chunk);
        start = next;
        action = what;
        while let StartAction::Check(_) = action {
            let (next, what) = start.in_time(policy);
            start = next;
            action = what;
        }
        if action != StartAction::Read {
            return action;
        }
    }
    if end {
        let (next, what) = start.end(policy);
        start = next;
        action = what;
        while let StartAction::Check(_) = action {
            let (next, what) = start.in_time(policy);
            start = next;
            action = what;
        }
    }
    action
}

fn network_policy() -> ResolvedRetryPolicy {
    let provider = Provider {
        id: "p".to_string(),
        name: "P".to_string(),
        settings_config: json("{}"),
        sort_index: None,
        meta: Some(ProviderMeta {
            local_proxy_retry_policy: Some(LocalProxyRetryPolicy {
                enabled: Some(true),
                max_retries: 1,
                retry_delay_ms: 1,
                custom_messages: vec![],
                error_types: vec![LocalProxyRetryErrorType::Network],
            }),
            ..ProviderMeta::default()
        }),
        in_failover_queue: false,
        codex_official: false,
        codex_upstream_model: None,
    };
    resolve_retry_policy(AppType::Codex, &json("{}"), &provider).expect("policy")
}

#[test]
fn streams_are_committed_at_their_first_output() {
    let created: &[u8] = b"event: response.created\ndata: {\"type\":\"response.created\"}\n\n";
    let delta: &[u8] =
        b"event: response.output_text.delta\ndata: {\"type\":\"response.output_text.delta\",\"delta\":\"x\"}\n\n";
    let failed: &[u8] = b"event: response.failed\ndata: {\"type\":\"response.failed\",\"response\":{\"error\":{\"message\":\"boom\"}}}\n\n";
    assert_eq!(run(&[created], false, None), StartAction::Read);
    assert_eq!(run(&[created, delta, failed], false, None), StartAction::Commit);
    assert!(matches!(
        run(&[created, failed, delta], false, None),
        StartAction::Reject(ProxyError::TransformError(message)) if message.contains("boom")
    ));
    assert!(matches!(
        run(&[created], true, None),
        StartAction::Reject(ProxyError::ForwardFailed(message)) if message.contains("ended before")
    ));
}

#[test]
fn documents_may_hold_blank_lines_and_come_in_pieces() {
    let document = b"{\"status\":\"completed\",\n\n\"output\":[]}";
    assert_eq!(run(&[document], false, None), StartAction::Commit);
    let pieces: Vec<&[u8]> = document.chunks(1).collect();
    assert_eq!(run(&pieces, false, None), StartAction::Commit);
    assert_eq!(run(&pieces[..10], false, None), StartAction::Read);
    assert!(matches!(
        run(&[b"{\"error\":{\"message\":\"no\"}}"], false, None),
        StartAction::Reject(_)
    ));
}

#[test]
fn a_policy_lets_other_failures_through() {
    let policy = network_policy();
    let failed: &[u8] = b"data: {\"type\":\"response.failed\",\"response\":{\"error\":{\"message\":\"boom\"}}}\n\n";
    assert_eq!(run(&[failed], false, Some(&policy)), StartAction::Commit);
    assert!(matches!(
        run(&[b": only a comment\n\n"], true, Some(&policy)),
        StartAction::Reject(ProxyError::ForwardFailed(_))
    ));
}

#[test]
fn silence_is_refused_at_the_limit() {
    let noise = vec![b'x'; MAX_PRIME_BYTES];
    assert!(matches!(
        run(&[&noise], false, None),
        StartAction::Reject(ProxyError::ForwardFailed(message))
            if message.contains("semantic priming limit of 262144 bytes")
    ));
    assert_eq!(run(&[&noise[1..]], false, None), StartAction::Read);
}

#[test]
fn the_clock_is_looked_at_between_the_parts_of_a_chunk() {
    let noise = vec![b'x'; 40_000];
    let (start, action) = StreamStart::new().chunk(None, &noise);
    assert_eq!(action, StartAction::Check(StartPhase::Data));
    assert_eq!(start.primed, 16_384);
    let (start, action) = start.in_time(None);
    assert_eq!(action, StartAction::Check(StartPhase::Data));
    let (start, action) = start.in_time(None);
    assert_eq!(action, StartAction::Check(StartPhase::Event));
    assert_eq!((start.primed, start.searched), (40_000, 16_384));
    let (start, action) = start.in_time(None);
    assert_eq!(action, StartAction::Check(StartPhase::Event));
    assert_eq!(start.searched, 32_768);
    let (start, action) = start.in_time(None);
    assert_eq!(action, StartAction::Read);
    assert_eq!(start.searched, 39_997);
    let (_, action) = start.expired(None, ProxyError::Timeout("late".to_string()));
    assert_eq!(action, StartAction::Reject(ProxyError::Timeout("late".to_string())));
    let (_, action) = StreamStart::new().read_failed(None, "reset");
    assert!(matches!(
        action,
        StartAction::Reject(ProxyError::ForwardFailed(message))
            if message == "Failed while validating Responses stream start: reset"
    ));
    assert_eq!(StartPhase::Event.text(), "解析 Responses 首个语义输出前的 SSE 事件");
}

#[test]
fn a_search_for_blocks_goes_on_where_it_stopped() {
    let delta: &[u8] =
        b"data: {\"type\":\"response.output_text.delta\",\"delta\":\"x\"}\r\n\r\n";
    let mut comment = vec![b':'; 30_000];
    comment.extend_from_slice(b"\r\n\r");
    assert_eq!(run(&[&comment], false, None), StartAction::Read);
    assert_eq!(run(&[&comment, b"\n"], false, None), StartAction::Read);
    assert_eq!(run(&[&comment, b"\n", delta], false, None), StartAction::Commit);
    assert_eq!(search_block("ab\n\ncd", 0, 2), BlockSearch::Found(2));
    assert_eq!(search_block("ab\n\ncd", 0, 1), BlockSearch::OutOfBudget);
    assert_eq!(search_block("ab\n\ncd", 1, 1), BlockSearch::Found(2));
    assert_eq!(search_block("ab\ncd", 0, 5), BlockSearch::Missing);
    assert_eq!(search_block("ab\ncd", 0, 4), BlockSearch::OutOfBudget);
}

#[test]
fn results_of_role_streams_are_reported_once() {
    let mut stream = DeferredRoleStream::new();
    assert_eq!(stream.observe_chunk(b"data: {\"type\":\"response.comp"), RoleStreamReport::Nothing);
    assert_eq!(
        stream.observe_chunk(b"leted\"}\n\n"),
        RoleStreamReport::Result(None)
    );
    assert_eq!(stream.observe_chunk(b"data: [DONE]\n\n"), RoleStreamReport::Nothing);
    assert_eq!(stream.observe_error("late"), RoleStreamReport::Nothing);
    assert_eq!(stream.finish(), RoleStreamReport::Nothing);

    let mut broken = DeferredRoleStream::new();
    assert_eq!(
        broken.observe_error("reset"),
        RoleStreamReport::Result(Some(
            "Role-routed stream read failed after output: reset".to_string()
        ))
    );

    let mut unseen = DeferredRoleStream::new();
    unseen.observe_chunk(&vec![b'x'; ROLE_STREAM_TERMINAL_MONITOR_MAX_BYTES + 1]);
    assert_eq!(unseen.finish(), RoleStreamReport::Unseen);

    let mut residual = DeferredRoleStream::new();
    residual.observe_chunk(b"data: {\"type\":\"error\",\"error\":{\"message\":\"no\"}}");
    assert!(matches!(
        residual.finish(),
        RoleStreamReport::Result(Some(message)) if message.contains("no")
    ));
    let mut silent = DeferredRoleStream::new();
    assert_eq!(silent.finish(), RoleStreamReport::Result(None));
}

#[test]
fn monitors_keep_their_bound_whatever_the_bytes() {
    let mut monitor = RoleStreamTerminalMonitor::new();
    for _ in 0..40 {
        monitor.observe_chunk(&[0xff; 10_000]);
        assert!(monitor.retained_bytes() <= ROLE_STREAM_TERMINAL_MONITOR_MAX_BYTES);
    }
    assert!(!monitor.is_scanning());
}
