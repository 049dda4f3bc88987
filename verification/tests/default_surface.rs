use std::borrow::Cow;

use panesmith::default_surface::configured_scrollback_rows;
use panesmith::mode_overlay::TerminalModeOverlay;
use panesmith::{
    CellStyle, CellWidth, CursorPosition, CursorState, DefaultSurfaceBackend, DirtyRows,
    PaneError, Result, ScrollbackConfig, ScrollbackLine, ScrollbackSnapshot, Size, SurfaceBackend,
    SurfaceBackendMetadata, SurfaceCell, SurfaceRow, SurfaceSnapshot, SurfaceUpdate,
    TerminalModes, Transcript, TranscriptConfig, TranscriptMode,
};

/// An engine that shows a blank screen.
#[derive(Debug)]
struct BlankEngine {
    size: Size,
}

impl SurfaceBackend for BlankEngine {
    fn size(&self) -> Size {
        self.size
    }

    fn resize(&mut self, size: Size) -> Result<()> {
        self.size = size;
        Ok(())
    }

    fn feed(&mut self, _bytes: &[u8]) -> Result<SurfaceUpdate> {
        Ok(SurfaceUpdate::default())
    }

    fn snapshot(&self) -> SurfaceSnapshot<'_> {
        SurfaceSnapshot::blank(self.size)
    }

    fn cursor(&self) -> CursorState {
        CursorState::default()
    }

    fn modes(&self) -> TerminalModes {
        TerminalModes::default()
    }

    fn scrollback(&self) -> ScrollbackSnapshot<'_> {
        ScrollbackSnapshot::new(Vec::new())
    }

    fn metadata(&self) -> SurfaceBackendMetadata {
        SurfaceBackendMetadata::new("blank", "test")
    }
}

fn default_surface(size: Size) -> Result<DefaultSurfaceBackend<BlankEngine>> {
    DefaultSurfaceBackend::new(BlankEngine { size }, size)
}

#[test]
fn default_surface_backend_rejects_single_row_surface() {
    let err =
        default_surface(Size::new(1, 5))
            .expect_err("single-row surfaces should be rejected");

    assert_eq!(
        err,
        PaneError::Surface {
            message: "default surface backend requires at least two rows; got rows=1 cols=5"
                .to_string(),
        }
    );
}

#[test]
fn default_surface_backend_resize_rejects_single_row_surface() {
    let mut backend =
        default_surface(Size::new(2, 5))
            .expect("two-row surface should initialize");

    let err = backend
        .resize(Size::new(1, 5))
        .expect_err("single-row resize should be rejected");

    assert_eq!(
        err,
        PaneError::Surface {
            message: "default surface backend requires at least two rows; got rows=1 cols=5"
                .to_string(),
        }
    );
}

#[test]
fn default_surface_accepts_two_rows_and_names_itself() {
    let mut backend = default_surface(Size::new(2, 5)).expect("two rows are enough");
    backend
        .resize(Size::new(3, 7))
        .expect("three rows are enough");
    assert_eq!(backend.size(), Size::new(3, 7));
    assert_eq!(backend.metadata().name, "panesmith-core/default-surface-vt100");
    assert!(backend.metadata().replay_kind.is_some());
}

#[test]
fn default_surface_scrollback_rows_follow_the_configuration() {
    assert_eq!(
        configured_scrollback_rows(ScrollbackConfig::unlimited()),
        usize::MAX
    );
    assert_eq!(configured_scrollback_rows(ScrollbackConfig::disabled()), 0);
    let bounded = ScrollbackConfig::bounded_lines(5).expect("five lines are a bound");
    assert_eq!(configured_scrollback_rows(bounded), 5);
}

/// An engine that shows the last lines of the plain text it was fed.
struct LineEngine {
    size: Size,
    text: Transcript,
    overlay: TerminalModeOverlay,
}

impl LineEngine {
    fn new(size: Size) -> Self {
        Self {
            size,
            text: Transcript::new(TranscriptConfig::new(TranscriptMode::PlainText)),
            overlay: TerminalModeOverlay::default(),
        }
    }

    fn lines(&self) -> Vec<&str> {
        self.text.plain_text().split("\r\n").collect()
    }

    fn row(text: &str) -> SurfaceRow<'static> {
        let cells = text
            .chars()
            .map(|c| {
                SurfaceCell::new(
                    Cow::Owned(c.to_string()),
                    CellWidth::Single,
                    CellStyle::default(),
                )
            })
            .collect();
        SurfaceRow::new(cells)
    }

    fn first_shown(&self) -> usize {
        self.lines().len().saturating_sub(self.size.rows as usize)
    }
}

impl SurfaceBackend for LineEngine {
    fn size(&self) -> Size {
        self.size
    }

    fn validate_resize(&self, _size: Size) -> Result<()> {
        Ok(())
    }

    fn resize(&mut self, size: Size) -> Result<()> {
        self.size = size;
        Ok(())
    }

    fn feed(&mut self, bytes: &[u8]) -> Result<SurfaceUpdate> {
        self.text.record(bytes);
        let mut update = SurfaceUpdate::new(DirtyRows::All);
        update.modes_changed = self.overlay.update_from_output(bytes);
        Ok(update)
    }

    fn snapshot(&self) -> SurfaceSnapshot<'_> {
        let rows = self.lines()[self.first_shown()..]
            .iter()
            .map(|line| Self::row(line))
            .collect();
        SurfaceSnapshot::new(self.size, rows, self.cursor(), self.modes(), None)
    }

    fn cursor(&self) -> CursorState {
        let last = self.lines().len() - self.first_shown() - 1;
        CursorState::new(Some(CursorPosition::new(last as u16, 0)), true)
    }

    fn modes(&self) -> TerminalModes {
        self.overlay.merge_with(TerminalModes::default())
    }

    fn scrollback(&self) -> ScrollbackSnapshot<'_> {
        let lines = self.lines()[..self.first_shown()]
            .iter()
            .map(|line| ScrollbackLine::from_row(Cow::Owned(line.to_string()), Self::row(line)))
            .collect();
        ScrollbackSnapshot::new(lines)
    }

    fn metadata(&self) -> SurfaceBackendMetadata {
        SurfaceBackendMetadata::new("lines", "test")
    }
}

#[test]
fn default_surface_matches_shared_engine_for_representative_fixture() {
    let size = Size::new(2, 12);
    let mut wrapper = DefaultSurfaceBackend::new(LineEngine::new(size), size).unwrap();
    let mut shared = LineEngine::new(size);
    let fixture = b"\x1b]2;Pane\x07\x1b[?1004;2004;1006h\x1b[32;45;3mhello\x1b[0m\r\nworld\r\n";

    let wrapper_update = wrapper.feed(fixture).unwrap();
    let shared_update = shared.feed(fixture).unwrap();

    assert_eq!(wrapper_update, shared_update);
    assert_eq!(
        wrapper.snapshot().to_owned_snapshot(),
        shared.snapshot().to_owned_snapshot()
    );
    assert_eq!(
        wrapper.scrollback().to_owned_snapshot(),
        shared.scrollback().to_owned_snapshot()
    );
    assert_eq!(wrapper.cursor(), shared.cursor());
    assert_eq!(wrapper.modes(), shared.modes());
    assert_eq!(
        wrapper.scrollback().to_owned_snapshot().lines[0].row.cells[0].width,
        CellWidth::Single
    );
}
