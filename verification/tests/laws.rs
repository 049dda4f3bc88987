use panesmith::attach_error::{
    attach_failure_to_pane_error, blocking_attach_error_to_pane_error, normalize_debug_message,
    pane_attach_error_to_pane_error,
};
use panesmith::attach_viewport::{
    apply_attach_viewport_actions, split_attach_viewport_controls,
    stabilize_attach_viewport_after_output,
};
use panesmith::detach_encoding::format_attach_bytes_for_trace;
use panesmith::input_plan::{plan_input_transaction, transaction_error_parts};
use panesmith::mode_overlay::TerminalModeOverlay;
use panesmith::pane::shell_for_separator;
use panesmith::pty::{WriteAttempt, WriteReply};
use panesmith::reader::{slice_range, utf8_byte_slice_range};
use panesmith::repro::redact_spawn_config;
use panesmith::{
    input_echo_hash, AttachFailure, AttachInputChunk, AttachLoop, AttachNote, AttachOptions,
    AttachReply, AttachRequest, AttachState, AttachStepKind, AttachViewportAction,
    BlockingAttachError, ContentRows, DetachConfig, DetachMatcher, DetachReason, Duration,
    EnvMap, InputConfig, InputEncoder, InputIntent, InputKind, InputRetryConfig, InputRun,
    InputTransaction, InputTransactionError, InputVerification, Instant, IoOperation, KeyCode,
    KeyEventKind, KeyInput, KeyModifiers, PaneAttachError, PaneConfig, PaneError, PaneEvent,
    PaneId, PaneManager, PaneManagerConfig, PtyFrame, PtyFrameQueue, RangeEdge, ReproDumpOptions,
    Size, TerminalModes, TerminalViewport, Transcript, TranscriptConfig, TranscriptMode,
    TransactionNote, TransactionReply, TransactionRequest, WriteFault, XtermEncoder,
};

fn at(millis: u64) -> Instant {
    Instant::from_nanos(millis * 1_000_000)
}

fn chord(bytes: &[u8], timeout: u64) -> DetachConfig {
    let mut config = DetachConfig::default();
    config.chord = bytes.to_vec();
    config.partial_timeout = Duration::from_millis(timeout);
    config
}

// ---------- Detach matching ----------

#[test]
fn matcher_neither_loses_nor_adds_bytes() {
    let mut matcher = DetachMatcher::new(&chord(b"abc", 100));
    let mut seen = Vec::new();
    for chunk in [&b"xab"[..], b"aab", b"zz"] {
        let result = matcher.feed_bytes(chunk, at(1));
        assert!(!result.detached);
        seen.extend_from_slice(&result.forward);
    }
    seen.extend_from_slice(matcher.held_bytes());
    assert_eq!(seen, b"xabaabzz");
}

#[test]
fn matcher_detaches_at_the_first_chord_and_hands_back_the_rest() {
    let mut matcher = DetachMatcher::new(&chord(b"ab", 100));
    let result = matcher.feed_bytes(b"xaabyab", at(1));
    assert!(result.detached);
    assert_eq!(result.forward, b"xa");
    assert_eq!(result.remaining, b"yab");
    assert!(!matcher.is_holding());
}

// ---------- PTY frames ----------

#[test]
fn queue_keeps_output_in_order_up_to_its_capacity() {
    let mut queue = PtyFrameQueue::new(3);
    for seq in 1..=5 {
        queue.push(PtyFrame::Output {
            seq,
            bytes: vec![seq as u8],
            at: at(seq),
        });
    }
    let mut seqs = Vec::new();
    while let Some(PtyFrame::Output { seq, .. }) = queue.try_recv() {
        seqs.push(seq);
    }
    assert_eq!(seqs, [1, 2, 3]);
    let stats = queue.overflow_stats();
    assert_eq!((stats.dropped_frames, stats.dropped_bytes), (2, 2));
}

// ---------- Transcripts ----------

#[test]
fn transcript_reads_back_what_was_recorded() {
    let mut transcript = Transcript::new(TranscriptConfig::new(TranscriptMode::RawBytes));
    assert_eq!(transcript.record(b"one ").offset, 0);
    assert_eq!(transcript.record(b"two").offset, 4);
    assert_eq!(transcript.raw_bytes(), b"one two");
    assert_eq!(transcript.next_raw_offset(), 7);
}

#[test]
fn rotation_drops_whole_chunks_from_the_front_and_moves_the_offset() {
    let config = TranscriptConfig::new(TranscriptMode::RawBytes).with_max_bytes(6);
    let mut transcript = Transcript::new(config);
    transcript.record(b"abc");
    transcript.record(b"de");
    let record = transcript.record(b"fghi");
    assert_eq!(record.offset, 5);
    let rotation = record.rotated.expect("over the limit");
    assert_eq!(rotation.chunks_dropped, 1);
    assert_eq!(rotation.raw_bytes_dropped, 3);
    assert_eq!(transcript.raw_bytes(), b"defghi");
    assert_eq!(transcript.retained_raw_start_offset(), 3);
    assert_eq!(transcript.next_raw_offset(), 9);
}

#[test]
fn plain_text_leaves_escapes_out_and_replaces_what_is_no_text() {
    let mut transcript = Transcript::new(TranscriptConfig::new(TranscriptMode::PlainText));
    transcript.record(b"\x1b[31mred\x1b[0m \xff caf\xc3");
    transcript.record(b"\xa9");
    transcript.flush_pending();
    assert_eq!(transcript.plain_text(), "red \u{fffd} caf\u{e9}");
}

#[test]
fn ranges_are_clamped_and_never_split_a_character() {
    let cut = |start, end, len| slice_range(start, end, len);
    assert_eq!(cut(RangeEdge::Unbounded, RangeEdge::Unbounded, 4), (0, 4));
    assert_eq!(
        cut(RangeEdge::Included(1), RangeEdge::Included(2), 4),
        (1, 3)
    );
    let (from, to) = cut(RangeEdge::Included(9), RangeEdge::Excluded(2), 4);
    assert!(from <= to && to <= 4);

    let text = "a\u{e9}b";
    let (from, to) =
        utf8_byte_slice_range(text, RangeEdge::Included(0), RangeEdge::Excluded(2));
    assert!(text.is_char_boundary(from) && text.is_char_boundary(to));
    assert_eq!(&text[from..to], "a");
    let (from, to) = utf8_byte_slice_range(text, RangeEdge::Included(2), RangeEdge::Unbounded);
    assert_eq!(&text[from..to], "b");
}

// ---------- Modes ----------

#[test]
fn overlay_does_not_depend_on_how_output_is_cut() {
    let mut output = b"\x1b[?1049h\x1b[?1002;1006h".to_vec();
    output.extend_from_slice(&[b'x'; 100]);
    output.extend_from_slice(b"\x1b[?2004h\x1b[?1006l");
    let mut whole = TerminalModeOverlay::default();
    whole.update_from_output(&output);
    for cut in 0..output.len() {
        let mut parts = TerminalModeOverlay::default();
        parts.update_from_output(&output[..cut]);
        parts.update_from_output(&output[cut..]);
        assert_eq!(
            parts.merge_with(TerminalModes::default()),
            whole.merge_with(TerminalModes::default()),
            "cut at {cut}"
        );
    }
}

#[test]
fn overlay_loses_only_sequences_longer_than_its_tail() {
    let mut sequence = b"\x1b[?".to_vec();
    for _ in 0..20 {
        sequence.extend_from_slice(b"2004;");
    }
    sequence.extend_from_slice(b"2004");
    let mut whole = TerminalModeOverlay::default();
    assert!(whole.update_from_output(&[&sequence[..], b"h"].concat()));
    let mut parts = TerminalModeOverlay::default();
    parts.update_from_output(&sequence);
    assert!(!parts.update_from_output(b"h"));
}

#[test]
fn overlay_ignores_what_it_has_already_seen() {
    let mut overlay = TerminalModeOverlay::default();
    assert!(overlay.update_from_output(b"\x1b[?2004h"));
    assert!(!overlay.update_from_output(b"\x1b[?2004h"));
    assert!(overlay.merge_with(TerminalModes::default()).bracketed_paste);
    assert!(overlay.update_from_output(b"\x1bc"));
    assert!(!overlay.merge_with(TerminalModes::default()).bracketed_paste);
}

// ---------- Events ----------

#[test]
fn events_are_ordered_within_a_pane_only() {
    let event = |pane, seq| {
        let mut event = PaneEvent::placeholder(PaneId::new(pane));
        event.seq = seq;
        event
    };
    let (a, b, c) = (event(1, 1), event(1, 2), event(2, 3));
    assert!(a.is_before(&b) && b.is_after(&a));
    assert!(!b.is_before(&a) && !a.is_after(&b));
    assert!(!a.is_before(&c) && !c.is_after(&a));
    assert_eq!(a.seq_cmp(&c), None);
    assert_eq!(a.seq_cmp(&b), Some(std::cmp::Ordering::Less));
}

// ---------- Viewports ----------

#[test]
fn viewport_metrics_stay_within_the_content() {
    let metrics = TerminalViewport::scrolled(50).metrics_from_counts(24, 10, 24);
    assert_eq!(metrics.total_rows, 34);
    assert_eq!(metrics.max_scroll_offset, 10);
    assert_eq!(metrics.effective_scroll_offset, 10);
    assert_eq!((metrics.start_row, metrics.end_row), (0, 24));
}

#[test]
fn viewport_scrolling_back_and_forth_returns() {
    let tail = TerminalViewport::default();
    let metrics = tail.metrics_from_counts(24, 100, 24);
    let up = tail.scroll_up(7, metrics);
    assert_eq!(up, TerminalViewport::scrolled(7));
    let metrics = up.metrics_from_counts(24, 100, 24);
    assert!(up.scroll_down(7, metrics).follow_tail);
    assert_eq!(up.clamp(metrics), up);
    assert_eq!(up.clamp(metrics).clamp(metrics), up);
}

#[test]
fn viewport_actions_move_and_output_keeps_the_place() {
    let content = ContentRows {
        surface: 10,
        scrollback: 30,
    };
    let tail = TerminalViewport::default();
    let actions = [
        AttachViewportAction::PageUp,
        AttachViewportAction::ScrollUp(3),
        AttachViewportAction::ScrollDown(1),
    ];
    let moved = apply_attach_viewport_actions(tail, &actions, content, 10);
    assert_eq!(moved, TerminalViewport::scrolled(12));
    let home = apply_attach_viewport_actions(tail, &[AttachViewportAction::Home], content, 10);
    assert_eq!(home, TerminalViewport::scrolled(30));
    let end = apply_attach_viewport_actions(home, &[AttachViewportAction::End], content, 10);
    assert!(end.follow_tail);

    let before = content.metrics(moved, 10);
    let after = ContentRows {
        surface: 10,
        scrollback: 33,
    }
    .metrics(moved, 10);
    assert_eq!(
        stabilize_attach_viewport_after_output(moved, before, after),
        TerminalViewport::scrolled(12)
    );
}

#[test]
fn plain_input_passes_the_viewport_controls() {
    assert_eq!(
        split_attach_viewport_controls(b"ls -l\r"),
        (b"ls -l\r".to_vec(), Vec::new())
    );
    let (rest, actions) = split_attach_viewport_controls(b"a\x1b[5~b");
    assert!(rest.len() + actions.len() <= 6);
    assert_eq!(actions, [AttachViewportAction::PageUp]);
    assert_eq!(rest, b"ab");
}

// ---------- Input ----------

#[test]
fn releases_send_nothing_and_alt_prefixes() {
    let encoder = XtermEncoder::new(InputConfig::default());
    let modes = TerminalModes::default();
    let key = |alt, kind| {
        let mut modifiers = KeyModifiers::default();
        modifiers.alt = alt;
        KeyInput::new(KeyCode::Char('x'), modifiers, kind)
    };
    let bytes = |alt, kind| encoder.encode_key(&key(alt, kind), &modes).expect("a key");
    assert_eq!(bytes(false, KeyEventKind::Press), b"x");
    assert_eq!(bytes(true, KeyEventKind::Press), b"\x1bx");
    assert_eq!(bytes(true, KeyEventKind::Repeat), b"\x1bx");
    assert!(bytes(false, KeyEventKind::Release).is_empty());
}

#[test]
fn planned_pieces_add_up_and_the_submit_comes_last() {
    let transaction = InputTransaction::submit_text("hello").with_chunk_size(2);
    let steps = plan_input_transaction(
        &transaction,
        InputConfig::default(),
        TerminalModes::default(),
    )
    .expect("a plan");
    let pieces: Vec<&[u8]> = steps.iter().map(|step| step.bytes.as_slice()).collect();
    assert_eq!(pieces, [&b"he"[..], b"ll", b"o", b"\r"]);
    assert!(steps[..3].iter().all(|step| !step.submits));
    assert!(steps[3].submits && steps[3].input_kind == InputKind::Key);
}

#[test]
fn multiline_text_is_one_bracketed_paste() {
    let mut modes = TerminalModes::default();
    modes.bracketed_paste = true;
    let steps = plan_input_transaction(
        &InputTransaction::insert_text("a\nb").with_chunk_size(1),
        InputConfig::default(),
        modes,
    )
    .expect("a plan");
    assert_eq!(steps.len(), 1);
    assert_eq!(steps[0].bytes, b"\x1b[200~a\nb\x1b[201~");
    assert_eq!(steps[0].input_kind, InputKind::Paste);
}

#[test]
fn interrupts_and_clears_are_control_bytes() {
    let bytes = |transaction: InputTransaction| {
        plan_input_transaction(
            &transaction,
            InputConfig::default(),
            TerminalModes::default(),
        )
        .expect("a plan")
        .remove(0)
        .bytes
    };
    assert_eq!(bytes(InputTransaction::interrupt()), [0x03]);
    assert_eq!(bytes(InputTransaction::clear_input()), [0x15]);
    assert_eq!(bytes(InputTransaction::raw_bytes(b"\x00z")), b"\x00z");
    assert!(matches!(
        InputTransaction::insert_text("x").intent,
        InputIntent::InsertText(text) if text == "x"
    ));
}

fn run_of(text: &str, verification: InputVerification) -> InputRun {
    let steps = plan_input_transaction(
        &InputTransaction::insert_text(text),
        InputConfig::default(),
        TerminalModes::default(),
    )
    .expect("a plan");
    InputRun::new(steps, verification, InputRetryConfig::default(), false)
}

#[test]
fn a_run_succeeds_once_everything_is_written_and_flushed() {
    let mut run = run_of("hey", InputVerification::Skip);
    assert_eq!(run.request(), TransactionRequest::Status);
    assert_eq!(run.advance(TransactionReply::Ended(false)), None);
    assert_eq!(
        run.request(),
        TransactionRequest::Write(WriteAttempt::Write { from: 0 })
    );
    assert_eq!(run.pending(), b"hey");
    run.advance(TransactionReply::Wrote(WriteReply::Wrote(2)));
    run.advance(TransactionReply::Wrote(WriteReply::Fault(WriteFault {
        transient: true,
        message: "would block".into(),
    })));
    assert!(matches!(run.request(), TransactionRequest::Sleep(_)));
    run.advance(TransactionReply::Slept);
    run.advance(TransactionReply::Wrote(WriteReply::Wrote(1)));
    assert_eq!(
        run.request(),
        TransactionRequest::Write(WriteAttempt::Flush)
    );
    let note = run.advance(TransactionReply::Wrote(WriteReply::Flushed));
    assert!(matches!(note, Some(TransactionNote::Sent { bytes_len: 3, .. })));
    while !run.is_over() {
        run.advance(TransactionReply::Ended(false));
    }
    assert_eq!(run.outcome().bytes_sent, 3);
    assert!(run.into_outcome().is_success());
}

#[test]
fn a_run_on_an_ended_pane_is_over_at_once() {
    let mut run = run_of("hey", InputVerification::Skip);
    run.advance(TransactionReply::Ended(true));
    assert!(run.is_over());
    let outcome = run.into_outcome();
    assert!(outcome.child_exited && !outcome.is_success());
    assert_eq!(outcome.errors, [InputTransactionError::ChildExited]);
}

#[test]
fn a_failed_write_ends_the_run_with_what_was_written() {
    let mut run = run_of("hey", InputVerification::Skip);
    run.advance(TransactionReply::Ended(false));
    run.advance(TransactionReply::Wrote(WriteReply::Wrote(1)));
    let note = run.advance(TransactionReply::Wrote(WriteReply::Fault(WriteFault {
        transient: false,
        message: "closed".into(),
    })));
    assert!(matches!(note, Some(TransactionNote::Failed(_))));
    assert!(run.is_over());
    assert!(matches!(
        &run.outcome().errors[..],
        [InputTransactionError::Write {
            bytes_attempted: 3,
            bytes_written: 1,
            ..
        }]
    ));
}

#[test]
fn echoes_are_found_by_text_prefix_or_hash() {
    let timeout = Duration::from_millis(10);
    let contains = InputVerification::EchoContains {
        needle: "lo w".into(),
        timeout,
    };
    assert!(contains.matches_text("hello world"));
    assert!(!contains.matches_text("hello"));
    let hashed = InputVerification::EchoPrefixOrHash {
        prefix: String::new(),
        hash: Some(input_echo_hash("second")),
        timeout,
    };
    assert!(hashed.matches_text("first\nsecond\n"));
    assert!(!hashed.matches_text("first\n"));
    assert_eq!(input_echo_hash(""), 0xcbf2_9ce4_8422_2325);
    assert_eq!(input_echo_hash("a"), 0xaf63_dc4c_8601_ec8c);
}

// ---------- Attach ----------

fn size(rows: u16, cols: u16) -> Size {
    Size::new(rows, cols)
}

fn started_loop() -> AttachLoop {
    let mut attach = AttachLoop::new(
        AttachOptions::default(),
        false,
        size(24, 80),
        Duration::from_millis(10),
    );
    assert_eq!(attach.begin().request, AttachRequest::TerminalSize);
    attach.advance(AttachReply::Size(Ok(size(40, 120))));
    attach.advance(AttachReply::Suspended(Ok(())));
    let step = attach.advance(AttachReply::Clock(at(0)));
    assert_eq!(
        step.notes,
        [AttachNote::Started {
            terminal_size: size(40, 120),
        }]
    );
    assert_eq!(step.request, AttachRequest::Resize(size(40, 120)));
    attach
}

#[test]
fn an_aborted_attach_restores_the_terminal_and_is_told_of_once() {
    let mut attach = started_loop();
    let failure = AttachFailure::Step {
        kind: AttachStepKind::PtyResize,
        message: "refused".into(),
    };
    let step = attach.advance(AttachReply::Resized(Err(failure.clone())));
    assert_eq!(step.notes, [AttachNote::Failed(failure.clone())]);
    assert_eq!(step.request, AttachRequest::Resize(size(24, 80)));
    let step = attach.advance(AttachReply::Resized(Ok(())));
    assert_eq!(step.request, AttachRequest::Restore);
    let step = attach.advance(AttachReply::Restored(Err("busy".into())));
    assert_eq!(step.request, AttachRequest::Restore);
    let step = attach.advance(AttachReply::Restored(Ok(())));
    assert_eq!(step.request, AttachRequest::Clock);
    let step = attach.advance(AttachReply::Clock(at(25)));
    assert_eq!(
        step.notes,
        [AttachNote::Ended {
            reason: DetachReason::Error,
            duration: Duration::from_millis(25),
        }]
    );
    assert_eq!(step.request, AttachRequest::Finished(Err(failure)));
    assert_eq!(attach.stage(), AttachState::Embedded);
}

#[test]
fn an_attach_that_never_takes_the_terminal_is_told_of_by_its_failure() {
    let mut attach = AttachLoop::new(
        AttachOptions::default(),
        false,
        size(24, 80),
        Duration::from_millis(10),
    );
    attach.begin();
    let step = attach.advance(AttachReply::Size(Err("no tty".into())));
    let failure = AttachFailure::Step {
        kind: AttachStepKind::TerminalSize,
        message: "no tty".into(),
    };
    assert_eq!(step.notes, [AttachNote::Failed(failure.clone())]);
    assert_eq!(step.request, AttachRequest::Finished(Err(failure)));
}

#[test]
fn a_chord_detaches_drains_and_restores() {
    let mut attach = started_loop();
    let step = attach.advance(AttachReply::Resized(Ok(())));
    assert_eq!(step.request, AttachRequest::TerminalSize);
    attach.advance(AttachReply::Size(Ok(size(40, 120))));
    let step = attach.advance(AttachReply::Size(Ok(size(40, 120))));
    assert_eq!(step.request, AttachRequest::ReadInput);
    let step = attach.advance(AttachReply::Input(Ok(Some(AttachInputChunk {
        at: at(5),
        bytes: b"ls\x1drest".to_vec(),
    }))));
    assert_eq!(step.request, AttachRequest::SendInput(b"ls".to_vec()));
    let step = attach.advance(AttachReply::Sent(Ok(())));
    assert_eq!(step.notes, [AttachNote::InputSent(2)]);
    assert_eq!(attach.stage(), AttachState::Detaching);
    assert_eq!(step.request, AttachRequest::Clock);
    attach.advance(AttachReply::Clock(at(10)));
    attach.advance(AttachReply::Received(Ok(None)));
    let step = attach.advance(AttachReply::Clock(at(100_000)));
    assert_eq!(step.request, AttachRequest::Resize(size(24, 80)));
    let step = attach.advance(AttachReply::Resized(Ok(())));
    assert_eq!(step.request, AttachRequest::Restore);
    attach.advance(AttachReply::Restored(Ok(())));
    let step = attach.advance(AttachReply::Clock(at(100_000)));
    match step.request {
        AttachRequest::Finished(Ok(outcome)) => {
            assert_eq!(outcome.reason, DetachReason::UserChord);
            assert_eq!(outcome.remaining_input, b"rest");
            assert_eq!(outcome.restored_size, size(24, 80));
        }
        other => panic!("expected a finished attach, got {other:?}"),
    }
    assert!(matches!(step.notes[..], [AttachNote::Ended { .. }]));
}

#[test]
fn attach_failures_keep_their_label_and_lose_their_quotes() {
    let failure = AttachFailure::Step {
        kind: AttachStepKind::TerminalInput,
        message: "\"gone\"".into(),
    };
    let blocking = BlockingAttachError::of_step(AttachStepKind::TerminalInput, "\"gone\"".into());
    assert_eq!(normalize_debug_message("\"gone\""), "gone");
    assert_eq!(normalize_debug_message("\""), "\"");
    assert_eq!(
        attach_failure_to_pane_error(&failure),
        blocking_attach_error_to_pane_error(&blocking)
    );
    let pane = PaneAttachError::of_failure(AttachFailure::Pane {
        error: PaneError::NotFound {
            pane_id: PaneId::new(3),
        },
    });
    assert_eq!(
        pane_attach_error_to_pane_error(&pane),
        PaneError::NotFound {
            pane_id: PaneId::new(3),
        }
    );
    assert!(blocking.to_string().contains("stdin"));
}

// ---------- Errors, configuration and the manager ----------

#[test]
fn every_error_says_what_happened() {
    let texts = [
        PaneError::Spawn {
            message: "m".into(),
        },
        PaneError::Io {
            operation: IoOperation::Write,
            message: "m".into(),
        },
        PaneError::Surface {
            message: "m".into(),
        },
        PaneError::InputEncoding {
            message: "m".into(),
        },
        PaneError::Attach {
            message: "m".into(),
        },
    ]
    .map(|error| error.to_string());
    for (i, text) in texts.iter().enumerate() {
        assert!(text.ends_with('m'));
        assert!(!texts[..i].contains(text));
    }
    assert!(Size::try_new(0, 4).is_err());
    assert_eq!(
        Size::try_new(0, 4),
        Err(PaneError::InvalidSize { rows: 0, cols: 4 })
    );
    assert_eq!(
        transaction_error_parts(&PaneError::Io {
            operation: IoOperation::Flush,
            message: "m".into(),
        }),
        (IoOperation::Flush, "m".to_string())
    );
}

#[test]
fn unspawnable_panes_are_refused_and_unknown_panes_are_not_found() {
    let mut manager = PaneManager::new(PaneManagerConfig::default());
    assert!(manager.spawn(PaneConfig::command("tool")).is_err());
    assert!(manager.spawn(PaneConfig::command(" \u{2003}")).is_err());
    assert_eq!(
        manager.write_bytes(PaneId::new(9), b"x"),
        Err(PaneError::NotFound {
            pane_id: PaneId::new(9),
        })
    );
    let mut out = Vec::new();
    manager.drain_events(&mut out);
    assert!(out.is_empty());
}

#[test]
fn redaction_hides_everything_but_names() {
    let mut config = PaneConfig::command_with_args("tool", &["--token", "t"])
        .with_cwd("/home/me".into())
        .with_env("KEY", "value");
    config.env.insert("OTHER", "more");
    let shown = redact_spawn_config(&config, ReproDumpOptions::default());
    assert_eq!(shown.program(), "<redacted>");
    assert_eq!(shown.args(), ["<redacted>", "<redacted>"]);
    assert_eq!(shown.cwd, Some("<redacted>".into()));
    assert_eq!(shown.env.get("KEY"), Some("<redacted>"));
    assert_eq!(shown.env.get("OTHER"), Some("<redacted>"));
    let kept = redact_spawn_config(
        &config,
        ReproDumpOptions {
            keep_spawn_metadata: true,
        },
    );
    assert_eq!(kept, config);
}

#[test]
fn redacted_configurations_of_one_shape_look_the_same() {
    let config = |program, arg, dir: &str, value| {
        PaneConfig::command_with_args(program, &[arg])
            .with_cwd(dir.into())
            .with_env("KEY", value)
    };
    let shown = |config| redact_spawn_config(&config, ReproDumpOptions::default());
    assert_eq!(
        shown(config("one", "a", "/x", "1")),
        shown(config("two", "b", "/y", "2"))
    );
}

#[test]
fn output_goes_to_the_terminal_and_then_to_the_surface() {
    let mut attach = started_loop();
    attach.advance(AttachReply::Resized(Ok(())));
    attach.advance(AttachReply::Size(Ok(size(40, 120))));
    attach.advance(AttachReply::Size(Ok(size(40, 120))));
    attach.advance(AttachReply::Input(Ok(None)));
    let step = attach.advance(AttachReply::Clock(at(5)));
    assert_eq!(step.request, AttachRequest::Receive);
    let step = attach.advance(AttachReply::Received(Ok(Some(PtyFrame::Output {
        seq: 1,
        bytes: b"hello".to_vec(),
        at: at(5),
    }))));
    assert_eq!(step.request, AttachRequest::WriteOutput(b"hello".to_vec()));
    let step = attach.advance(AttachReply::Output(Ok(())));
    assert_eq!(step.request, AttachRequest::Feed(b"hello".to_vec()));
    let step = attach.advance(AttachReply::Fed(Ok(())));
    assert_eq!(step.request, AttachRequest::Receive);
}

#[test]
fn environment_names_are_kept_once() {
    let mut env = EnvMap::new();
    assert!(env.is_empty());
    env.insert("A", "1");
    env.insert("B", "2");
    env.insert("A", "3");
    assert_eq!(env.entries().len(), 2);
    assert_eq!(env.get("A"), Some("3"));
    assert_eq!(env.get("C"), None);
}

#[test]
fn the_shell_depends_on_the_path_separator() {
    assert_eq!(shell_for_separator('\\'), "cmd");
    assert_eq!(shell_for_separator('/'), "sh");
    assert_eq!(
        PaneConfig::shell().program(),
        shell_for_separator(std::path::MAIN_SEPARATOR)
    );
}

#[test]
fn traced_bytes_are_written_as_hex() {
    assert_eq!(format_attach_bytes_for_trace(b""), "");
    assert_eq!(
        format_attach_bytes_for_trace(&[0x1b, 0x06]).to_lowercase(),
        "1b 06"
    );
    assert!(format_attach_bytes_for_trace(&[0; 200]).ends_with(" bytes"));
}
