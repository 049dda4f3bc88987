use std::sync::{Arc, Mutex};

use panesmith::pty::{WriteAttempt, WriteReply};
use panesmith::{
    Instant, IoOperation, OverflowStats, PaneError, PtyFrame, PtyFrameQueue, PtySink, PtyWriter,
    WriteFault,
};

fn output_frame(seq: u64, bytes: &[u8]) -> PtyFrame {
    PtyFrame::Output {
        seq,
        bytes: bytes.to_vec(),
        at: Instant::from_nanos(1_000_000_000),
    }
}

#[test]
fn bounded_queue_summarizes_output_overflow() {
    let mut queue = PtyFrameQueue::new(2);
    queue.push(output_frame(1, b"one"));
    queue.push(output_frame(2, b"two"));
    queue.push(output_frame(3, b"three"));
    queue.push(output_frame(4, b"four"));

    assert!(matches!(
        queue.try_recv(),
        Some(PtyFrame::Output { seq: 1, bytes, .. }) if bytes == b"one"
    ));
    assert!(matches!(
        queue.try_recv(),
        Some(PtyFrame::Output { seq: 2, bytes, .. }) if bytes == b"two"
    ));

    match queue.try_recv() {
        Some(PtyFrame::Overflow {
            seq,
            dropped_frames,
            dropped_bytes,
            ..
        }) => {
            assert_eq!(seq, 3);
            assert_eq!(dropped_frames, 2);
            assert_eq!(dropped_bytes, (b"three".len() + b"four".len()) as u64);
        }
        other => panic!("expected overflow summary frame, got {other:?}"),
    }

    assert!(queue.try_recv().is_none());
}

#[test]
fn bounded_queue_keeps_terminal_frames_after_output_overflow() {
    let mut queue = PtyFrameQueue::new(1);
    let exited_at = Instant::from_nanos(1_000_000_000);
    queue.push(output_frame(1, b"first"));
    queue.push(output_frame(2, b"second"));
    queue.push(PtyFrame::Exited {
        seq: 3,
        code: Some(0),
        at: exited_at,
    });

    assert!(matches!(
        queue.try_recv(),
        Some(PtyFrame::Output { seq: 1, bytes, .. }) if bytes == b"first"
    ));
    assert!(matches!(
        queue.try_recv(),
        Some(PtyFrame::Overflow {
            seq: 2,
            dropped_frames: 1,
            dropped_bytes,
            ..
        }) if dropped_bytes == b"second".len() as u64
    ));
    assert!(matches!(
        queue.try_recv(),
        Some(PtyFrame::Exited {
            seq: 3,
            code: Some(0),
            ..
        })
    ));
    assert!(queue.try_recv().is_none());
}

#[test]
fn output_resumes_after_overflow_summary_is_consumed() {
    let mut queue = PtyFrameQueue::new(1);
    queue.push(output_frame(1, b"first"));
    queue.push(output_frame(2, b"second"));

    assert!(matches!(
        queue.try_recv(),
        Some(PtyFrame::Output { seq: 1, bytes, .. }) if bytes == b"first"
    ));
    assert!(matches!(
        queue.try_recv(),
        Some(PtyFrame::Overflow {
            seq: 2,
            dropped_frames: 1,
            ..
        })
    ));

    // After the overflow summary is consumed, new output should be queued again.
    queue.push(output_frame(3, b"third"));
    assert!(matches!(
        queue.try_recv(),
        Some(PtyFrame::Output { seq: 3, bytes, .. }) if bytes == b"third"
    ));
    assert!(queue.try_recv().is_none());
}

#[test]
fn cumulative_overflow_stats_track_total_loss() {
    let mut queue = PtyFrameQueue::new(1);
    assert_eq!(
        queue.overflow_stats(),
        OverflowStats {
            dropped_frames: 0,
            dropped_bytes: 0,
        }
    );

    queue.push(output_frame(1, b"a"));
    queue.push(output_frame(2, b"bb"));
    queue.push(output_frame(3, b"ccc"));

    // Consume the single allowed output frame.
    assert!(matches!(
        queue.try_recv(),
        Some(PtyFrame::Output { seq: 1, .. })
    ));

    // Consume the coalesced overflow summary.
    assert!(matches!(
        queue.try_recv(),
        Some(PtyFrame::Overflow {
            seq: 2,
            dropped_frames: 2,
            dropped_bytes: 5,
            ..
        })
    ));

    // Cumulative stats should reflect all dropped frames/bytes.
    assert_eq!(
        queue.overflow_stats(),
        OverflowStats {
            dropped_frames: 2,
            dropped_bytes: 5,
        }
    );

    // Trigger another round of overflow.
    queue.push(output_frame(4, b"dddd"));
    queue.push(output_frame(5, b"eeeee"));
    assert!(matches!(
        queue.try_recv(),
        Some(PtyFrame::Output { seq: 4, .. })
    ));
    assert!(matches!(
        queue.try_recv(),
        Some(PtyFrame::Overflow {
            seq: 5,
            dropped_frames: 1,
            dropped_bytes: 5,
            ..
        })
    ));

    assert_eq!(
        queue.overflow_stats(),
        OverflowStats {
            dropped_frames: 3,
            dropped_bytes: 10,
        }
    );
}

/// A sink that tells what it was asked, in order.
struct TellingSink {
    told: Arc<Mutex<Vec<String>>>,
    refusing: bool,
}

impl TellingSink {
    fn tell(&self, what: String) {
        self.told.lock().expect("told lock").push(what);
    }
}

impl PtySink for TellingSink {
    fn write_all(&mut self, bytes: &[u8]) -> Result<(), String> {
        self.tell(format!("all {}", String::from_utf8_lossy(bytes)));
        if self.refusing {
            Err("refused".to_owned())
        } else {
            Ok(())
        }
    }

    fn write(&mut self, bytes: &[u8]) -> Result<usize, WriteFault> {
        self.tell(format!("some {}", String::from_utf8_lossy(bytes)));
        Ok(bytes.len().min(2))
    }

    fn flush(&mut self) -> Result<(), WriteFault> {
        self.tell("flush".to_owned());
        Ok(())
    }
}

fn telling_writer(refusing: bool) -> (PtyWriter, Arc<Mutex<Vec<String>>>) {
    let told = Arc::new(Mutex::new(Vec::new()));
    let sink = TellingSink {
        told: Arc::clone(&told),
        refusing,
    };
    (PtyWriter::new(Box::new(sink)), told)
}

#[test]
fn a_writer_writes_once_and_then_flushes_once() {
    let (mut writer, told) = telling_writer(false);
    assert_eq!(writer.write_bytes(b"abc"), Ok(()));
    assert_eq!(writer.flush(), Ok(()));
    assert_eq!(
        *told.lock().expect("told lock"),
        vec!["all abc", "flush", "flush"]
    );
}

#[test]
fn a_writer_does_not_flush_after_a_refused_write() {
    let (mut writer, told) = telling_writer(true);
    assert_eq!(
        writer.write_bytes(b"abc"),
        Err(PaneError::Io {
            operation: IoOperation::Write,
            message: "refused".to_owned(),
        })
    );
    assert_eq!(*told.lock().expect("told lock"), vec!["all abc"]);
}

#[test]
fn an_attempt_is_made_once_on_the_rest_of_the_bytes() {
    let (mut writer, told) = telling_writer(false);
    assert_eq!(
        writer.attempt(WriteAttempt::Write { from: 1 }, b"abcd"),
        WriteReply::Wrote(2)
    );
    assert_eq!(
        writer.attempt(WriteAttempt::Write { from: 3 }, b"abcd"),
        WriteReply::Wrote(1)
    );
    assert_eq!(
        writer.attempt(WriteAttempt::Flush, b"abcd"),
        WriteReply::Flushed
    );
    assert_eq!(
        *told.lock().expect("told lock"),
        vec!["some bcd", "some d", "flush"]
    );
}
