//! Terminal surface snapshots and the backend contract.

use std::borrow::Cow;

use vstd::prelude::*;

use crate::error::Result;
use crate::event::DirtyRows;
use crate::pane::{
    default_modes, opt_text, MouseMode, PaneId, PaneInteractionMode, PaneState, Size, StateView,
    TerminalModes,
};

verus! {

/// The text of an optional borrowed-or-owned string.
pub open spec fn opt_cow_text(s: Option<Cow<'_, str>>) -> Option<Seq<char>> {
    match s {
        Some(t) => Some(t@),
        None => None,
    }
}

/// Owns a borrowed-or-owned string.
pub fn owned_text(text: &Cow<'_, str>) -> (owned: Cow<'static, str>)
    ensures
        owned@ == text@,
        owned is Owned,
{
    match text {
        Cow::Borrowed(s) => Cow::Owned((*s).to_owned()),
        Cow::Owned(s) => Cow::Owned(s.clone()),
    }
}

fn clone_text<'a>(text: &Cow<'a, str>) -> (copy: Cow<'a, str>)
    ensures
        copy@ == text@,
{
    match text {
        Cow::Borrowed(s) => Cow::Borrowed(*s),
        Cow::Owned(s) => Cow::Owned(s.clone()),
    }
}

fn owned_opt_text(text: &Option<Cow<'_, str>>) -> (owned: Option<Cow<'static, str>>)
    ensures
        opt_cow_text(owned) == opt_cow_text(*text),
{
    match text {
        Some(t) => Some(owned_text(t)),
        None => None,
    }
}

/// Terminal cell width metadata.
#[derive(Debug, Clone, Copy, PartialEq, Eq, Structural)]
pub enum CellWidth {
    /// Standard single-column cell.
    Single,
    /// Leading cell for a double-width grapheme.
    Double,
    /// Continuation cell consumed by a preceding double-width grapheme.
    Continuation,
}

impl Default for CellWidth {
    fn default() -> (width: Self)
        ensures
            width == CellWidth::Single,
    {
        CellWidth::Single
    }
}

/// Terminal surface style information.
#[derive(Debug, Clone, Copy, PartialEq, Eq, Structural)]
pub struct CellStyle {
    /// Foreground color override, if known.
    pub fg: Option<ColorSpec>,
    /// Background color override, if known.
    pub bg: Option<ColorSpec>,
    /// Underline color override, if known.
    pub underline_color: Option<ColorSpec>,
    /// Boolean text attributes.
    pub attrs: CellAttrs,
}

/// No colors and no attributes.
pub open spec fn plain_style() -> CellStyle {
    CellStyle { fg: None, bg: None, underline_color: None, attrs: plain_attrs() }
}

impl Default for CellStyle {
    fn default() -> (style: Self)
        ensures
            style == plain_style(),
    {
        CellStyle { fg: None, bg: None, underline_color: None, attrs: CellAttrs::default() }
    }
}

/// Surface color representation shared by backends and renderers.
#[derive(Debug, Clone, Copy, PartialEq, Eq, Structural)]
pub enum ColorSpec {
    /// Terminal default color.
    Default,
    /// ANSI indexed color.
    Indexed(u8),
    /// Explicit RGB color.
    Rgb(u8, u8, u8),
}

impl Default for ColorSpec {
    fn default() -> (color: Self)
        ensures
            color == ColorSpec::Default,
    {
        ColorSpec::Default
    }
}

/// Boolean terminal style attributes.
#[derive(Debug, Clone, Copy, PartialEq, Eq, Structural)]
pub struct CellAttrs {
    /// Bold/intense text.
    pub bold: bool,
    /// Dim text.
    pub dim: bool,
    /// Italic text.
    pub italic: bool,
    /// Underlined text.
    pub underlined: bool,
    /// Slow blink attribute.
    pub slow_blink: bool,
    /// Rapid blink attribute.
    pub rapid_blink: bool,
    /// Reversed foreground/background.
    pub reversed: bool,
    /// Hidden text.
    pub hidden: bool,
    /// Crossed-out text.
    pub crossed_out: bool,
}

/// No attributes.
pub open spec fn plain_attrs() -> CellAttrs {
    CellAttrs {
        bold: false,
        dim: false,
        italic: false,
        underlined: false,
        slow_blink: false,
        rapid_blink: false,
        reversed: false,
        hidden: false,
        crossed_out: false,
    }
}

impl Default for CellAttrs {
    fn default() -> (attrs: Self)
        ensures
            attrs == plain_attrs(),
    {
        CellAttrs {
            bold: false,
            dim: false,
            italic: false,
            underlined: false,
            slow_blink: false,
            rapid_blink: false,
            reversed: false,
            hidden: false,
            crossed_out: false,
        }
    }
}

/// Cursor coordinates in zero-based surface space.
#[derive(Debug, Clone, Copy, PartialEq, Eq, Structural)]
pub struct CursorPosition {
    /// Row index within the visible surface.
    pub row: u16,
    /// Column index within the visible surface.
    pub col: u16,
}

impl CursorPosition {
    /// Creates a cursor position in zero-based surface coordinates.
    pub fn new(row: u16, col: u16) -> (position: Self)
        ensures
            position == (CursorPosition { row, col }),
    {
        CursorPosition { row, col }
    }
}

impl Default for CursorPosition {
    fn default() -> (position: Self)
        ensures
            position == (CursorPosition { row: 0, col: 0 }),
    {
        CursorPosition { row: 0, col: 0 }
    }
}

/// Cursor position and visibility state.
#[derive(Debug, Clone, Copy, PartialEq, Eq, Structural)]
pub struct CursorState {
    /// Cursor position, if the backend can report it.
    pub position: Option<CursorPosition>,
    /// Whether the child cursor is visible.
    pub visible: bool,
}

impl CursorState {
    /// Creates a cursor state from a position and visibility flag.
    pub fn new(position: Option<CursorPosition>, visible: bool) -> (cursor: Self)
        ensures
            cursor == (CursorState { position, visible }),
    {
        CursorState { position, visible }
    }

    /// Creates a hidden cursor state with no known position.
    pub fn hidden() -> (cursor: Self)
        ensures
            cursor == (CursorState { position: None, visible: false }),
    {
        CursorState { position: None, visible: false }
    }
}

impl Default for CursorState {
    fn default() -> (cursor: Self)
        ensures
            cursor == (CursorState { position: None, visible: false }),
    {
        Self::hidden()
    }
}

/// A visible terminal cell or grapheme cluster.
#[derive(Debug, PartialEq, Eq)]
pub struct SurfaceCell<'a> {
    /// Display text stored in this cell.
    pub text: Cow<'a, str>,
    /// How many columns this cell occupies.
    pub width: CellWidth,
    /// Style metadata for the cell.
    pub style: CellStyle,
}

/// Owned cell data that can outlive backend borrows.
pub type OwnedSurfaceCell = SurfaceCell<'static>;

/// A [`SurfaceCell`] with its text as characters.
pub ghost struct CellView {
    pub text: Seq<char>,
    pub width: CellWidth,
    pub style: CellStyle,
}

impl<'a> View for SurfaceCell<'a> {
    type V = CellView;

    open spec fn view(&self) -> CellView {
        CellView { text: self.text@, width: self.width, style: self.style }
    }
}

impl<'a> Clone for SurfaceCell<'a> {
    fn clone(&self) -> (copy: Self)
        ensures
            copy@ == self@,
    {
        SurfaceCell { text: clone_text(&self.text), width: self.width, style: self.style }
    }
}

impl<'a> SurfaceCell<'a> {
    /// Creates a surface cell from text, width, and style metadata.
    pub fn new(text: Cow<'a, str>, width: CellWidth, style: CellStyle) -> (cell: Self)
        ensures
            cell == (SurfaceCell { text, width, style }),
    {
        SurfaceCell { text, width, style }
    }

    /// Clones this cell into an owned form.
    pub fn to_owned_cell(&self) -> (cell: OwnedSurfaceCell)
        ensures
            cell@ == self@,
    {
        SurfaceCell { text: owned_text(&self.text), width: self.width, style: self.style }
    }

    /// Converts this cell into an owned form.
    pub fn into_owned(self) -> (cell: OwnedSurfaceCell)
        ensures
            cell@ == self@,
    {
        self.to_owned_cell()
    }
}

impl<'a> Default for SurfaceCell<'a> {
    fn default() -> (cell: Self)
        ensures
            cell@ == (CellView { text: ""@, width: CellWidth::Single, style: plain_style() }),
    {
        SurfaceCell {
            text: Cow::Borrowed(""),
            width: CellWidth::Single,
            style: CellStyle::default(),
        }
    }
}

/// A visible surface row.
#[derive(Debug, PartialEq, Eq)]
pub struct SurfaceRow<'a> {
    /// Cells that make up this row.
    pub cells: Vec<SurfaceCell<'a>>,
    /// Whether this row ends with a wrap into the next row.
    pub wrapped: bool,
}

/// Owned row data that can outlive backend borrows.
pub type OwnedSurfaceRow = SurfaceRow<'static>;

/// A [`SurfaceRow`] with its cells as a sequence.
pub ghost struct RowView {
    pub cells: Seq<CellView>,
    pub wrapped: bool,
}

impl<'a> View for SurfaceRow<'a> {
    type V = RowView;

    open spec fn view(&self) -> RowView {
        RowView {
            cells: self.cells@.map_values(|c: SurfaceCell| c@),
            wrapped: self.wrapped,
        }
    }
}

/// A row without cells.
pub open spec fn empty_row() -> RowView {
    RowView { cells: seq![], wrapped: false }
}

impl<'a> Clone for SurfaceRow<'a> {
    fn clone(&self) -> (copy: Self)
        ensures
            copy@ == self@,
    {
        let mut cells: Vec<SurfaceCell<'a>> = Vec::new();
        let mut i: usize = 0;
        while i < self.cells.len()
            invariant
                i <= self.cells@.len(),
                cells@.len() == i,
                forall|k: int| 0 <= k < i ==> (#[trigger] cells@[k])@ == self.cells@[k]@,
            decreases self.cells@.len() - i,
        {
            cells.push(self.cells[i].clone());
            i = i + 1;
        }
        let copy = SurfaceRow { cells, wrapped: self.wrapped };
        assert(copy@.cells =~= self@.cells);
        copy
    }
}

impl<'a> SurfaceRow<'a> {
    /// Creates a row from a list of cells.
    pub fn new(cells: Vec<SurfaceCell<'a>>) -> (row: Self)
        ensures
            row == (SurfaceRow { cells, wrapped: false }),
    {
        SurfaceRow { cells, wrapped: false }
    }

    /// Marks whether this row wrapped into the next row.
    pub fn with_wrapped(self, wrapped: bool) -> (row: Self)
        ensures
            row == (SurfaceRow { cells: self.cells, wrapped }),
    {
        SurfaceRow { cells: self.cells, wrapped }
    }

    /// Clones this row into an owned form.
    pub fn to_owned_row(&self) -> (row: OwnedSurfaceRow)
        ensures
            row@ == self@,
    {
        let mut cells: Vec<OwnedSurfaceCell> = Vec::new();
        let mut i: usize = 0;
        while i < self.cells.len()
            invariant
                i <= self.cells@.len(),
                cells@.len() == i,
                forall|k: int| 0 <= k < i ==> (#[trigger] cells@[k])@ == self.cells@[k]@,
            decreases self.cells@.len() - i,
        {
            cells.push(self.cells[i].to_owned_cell());
            i = i + 1;
        }
        let row = SurfaceRow { cells, wrapped: self.wrapped };
        assert(row@.cells =~= self@.cells);
        row
    }

    /// Converts this row into an owned form.
    pub fn into_owned(self) -> (row: OwnedSurfaceRow)
        ensures
            row@ == self@,
    {
        self.to_owned_row()
    }
}

impl<'a> Default for SurfaceRow<'a> {
    fn default() -> (row: Self)
        ensures
            row@ == empty_row(),
    {
        let row = SurfaceRow { cells: Vec::new(), wrapped: false };
        assert(row@.cells =~= seq![]);
        row
    }
}

/// Read-only snapshot of a pane's terminal surface state.
///
/// Snapshot rows and cell text may borrow from a backend, but the collection
/// containers are owned so host renderers can keep the shape simple.
#[derive(Debug, PartialEq, Eq)]
pub struct SurfaceSnapshot<'a> {
    /// Visible terminal size represented by this snapshot.
    pub size: Size,
    /// Visible surface rows, top to bottom.
    pub rows: Vec<SurfaceRow<'a>>,
    /// Cursor metadata captured alongside the visible rows.
    pub cursor: CursorState,
    /// Terminal modes active when the snapshot was taken.
    pub modes: TerminalModes,
    /// Optional terminal-managed title, if the backend can expose it.
    pub title: Option<Cow<'a, str>>,
}

/// Owned surface snapshot that can outlive a backend borrow.
pub type OwnedSurfaceSnapshot = SurfaceSnapshot<'static>;

/// A [`SurfaceSnapshot`] with its rows as sequences.
pub ghost struct SurfaceView {
    pub size: Size,
    pub rows: Seq<RowView>,
    pub cursor: CursorState,
    pub modes: TerminalModes,
    pub title: Option<Seq<char>>,
}

impl<'a> View for SurfaceSnapshot<'a> {
    type V = SurfaceView;

    open spec fn view(&self) -> SurfaceView {
        SurfaceView {
            size: self.size,
            rows: self.rows@.map_values(|r: SurfaceRow| r@),
            cursor: self.cursor,
            modes: self.modes,
            title: opt_cow_text(self.title),
        }
    }
}

/// A surface of the given size without cells, cursor or title.
pub open spec fn blank_surface(size: Size) -> SurfaceView {
    SurfaceView {
        size,
        rows: Seq::new(size.rows as nat, |i: int| empty_row()),
        cursor: CursorState { position: None, visible: false },
        modes: default_modes(),
        title: None,
    }
}

/// A blank surface has all its rows, each without cells, no cursor, no title and
/// no mode on.
pub proof fn law_blank_surfaces(size: Size)
    ensures
        ({
            let blank = blank_surface(size);
            &&& blank.size == size
            &&& blank.rows.len() == size.rows as int
            &&& forall|i: int|
                0 <= i < blank.rows.len() ==> (#[trigger] blank.rows[i]).cells.len() == 0
                    && !blank.rows[i].wrapped
            &&& blank.cursor.position is None && !blank.cursor.visible
            &&& !blank.modes.bracketed_paste && !blank.modes.focus_events
            &&& !blank.modes.application_cursor && !blank.modes.alternate_screen
            &&& blank.modes.mouse == MouseMode::Off
            &&& blank.title is None
        }),
{
}

impl<'a> Clone for SurfaceSnapshot<'a> {
    fn clone(&self) -> (copy: Self)
        ensures
            copy@ == self@,
    {
        let mut rows: Vec<SurfaceRow<'a>> = Vec::new();
        let mut i: usize = 0;
        while i < self.rows.len()
            invariant
                i <= self.rows@.len(),
                rows@.len() == i,
                forall|k: int| 0 <= k < i ==> (#[trigger] rows@[k])@ == self.rows@[k]@,
            decreases self.rows@.len() - i,
        {
            rows.push(self.rows[i].clone());
            i = i + 1;
        }
        let copy = SurfaceSnapshot {
            size: self.size,
            rows,
            cursor: self.cursor,
            modes: self.modes,
            title: match &self.title {
                Some(t) => Some(clone_text(t)),
                None => None,
            },
        };
        assert(copy@.rows =~= self@.rows);
        copy
    }
}

impl<'a> SurfaceSnapshot<'a> {
    /// Creates a snapshot from explicit surface parts.
    pub fn new(
        size: Size,
        rows: Vec<SurfaceRow<'a>>,
        cursor: CursorState,
        modes: TerminalModes,
        title: Option<Cow<'a, str>>,
    ) -> (snapshot: Self)
        ensures
            snapshot == (SurfaceSnapshot { size, rows, cursor, modes, title }),
    {
        SurfaceSnapshot { size, rows, cursor, modes, title }
    }

    /// Creates a blank snapshot with the requested size.
    pub fn blank(size: Size) -> (snapshot: Self)
        ensures
            snapshot@ == blank_surface(size),
    {
        let mut rows: Vec<SurfaceRow<'a>> = Vec::new();
        let mut i: u16 = 0;
        while i < size.rows
            invariant
                i <= size.rows,
                rows@.len() == i,
                forall|k: int| 0 <= k < i ==> (#[trigger] rows@[k])@ == empty_row(),
            decreases size.rows - i,
        {
            rows.push(SurfaceRow::default());
            i = i + 1;
        }
        let snapshot = SurfaceSnapshot {
            size,
            rows,
            cursor: CursorState::hidden(),
            modes: TerminalModes::default(),
            title: None,
        };
        assert(snapshot@.rows =~= blank_surface(size).rows);
        snapshot
    }

    /// Clones this snapshot into an owned form.
    pub fn to_owned_snapshot(&self) -> (snapshot: OwnedSurfaceSnapshot)
        ensures
            snapshot@ == self@,
    {
        let mut rows: Vec<OwnedSurfaceRow> = Vec::new();
        let mut i: usize = 0;
        while i < self.rows.len()
            invariant
                i <= self.rows@.len(),
                rows@.len() == i,
                forall|k: int| 0 <= k < i ==> (#[trigger] rows@[k])@ == self.rows@[k]@,
            decreases self.rows@.len() - i,
        {
            rows.push(self.rows[i].to_owned_row());
            i = i + 1;
        }
        let snapshot = SurfaceSnapshot {
            size: self.size,
            rows,
            cursor: self.cursor,
            modes: self.modes,
            title: owned_opt_text(&self.title),
        };
        assert(snapshot@.rows =~= self@.rows);
        snapshot
    }

    /// Converts this snapshot into an owned form.
    pub fn into_owned(self) -> (snapshot: OwnedSurfaceSnapshot)
        ensures
            snapshot@ == self@,
    {
        self.to_owned_snapshot()
    }
}

impl<'a> Default for SurfaceSnapshot<'a> {
    fn default() -> (snapshot: Self)
        ensures
            snapshot@ == blank_surface(Size { rows: 1, cols: 1 }),
    {
        Self::blank(Size::new(1, 1))
    }
}

/// One line of scrollback content.
#[derive(Debug, PartialEq, Eq)]
pub struct ScrollbackLine<'a> {
    /// Plain text for the scrollback line.
    ///
    /// This is the fallback rendering source for plain scrollback lines that
    /// do not provide styled cells.
    pub text: Cow<'a, str>,
    /// Styled cells for this historical row, when the backend can expose them.
    pub row: SurfaceRow<'a>,
}

/// Owned scrollback line that can outlive a backend borrow.
pub type OwnedScrollbackLine = ScrollbackLine<'static>;

/// A [`ScrollbackLine`] with its text as characters.
pub ghost struct LineView {
    pub text: Seq<char>,
    pub row: RowView,
}

impl<'a> View for ScrollbackLine<'a> {
    type V = LineView;

    open spec fn view(&self) -> LineView {
        LineView { text: self.text@, row: self.row@ }
    }
}

impl<'a> Clone for ScrollbackLine<'a> {
    fn clone(&self) -> (copy: Self)
        ensures
            copy@ == self@,
    {
        ScrollbackLine { text: clone_text(&self.text), row: self.row.clone() }
    }
}

impl<'a> ScrollbackLine<'a> {
    /// Creates a scrollback line from text.
    pub fn new(text: Cow<'a, str>) -> (line: Self)
        ensures
            line.text == text,
            line.row@ == empty_row(),
    {
        ScrollbackLine { text, row: SurfaceRow::default() }
    }

    /// Creates a scrollback line from plain text plus a styled row.
    pub fn from_row(text: Cow<'a, str>, row: SurfaceRow<'a>) -> (line: Self)
        ensures
            line == (ScrollbackLine { text, row }),
    {
        ScrollbackLine { text, row }
    }

    /// Clones this line into an owned form.
    pub fn to_owned_line(&self) -> (line: OwnedScrollbackLine)
        ensures
            line@ == self@,
    {
        ScrollbackLine { text: owned_text(&self.text), row: self.row.to_owned_row() }
    }

    /// Converts this line into an owned form.
    pub fn into_owned(self) -> (line: OwnedScrollbackLine)
        ensures
            line@ == self@,
    {
        self.to_owned_line()
    }
}

impl<'a> Default for ScrollbackLine<'a> {
    fn default() -> (line: Self)
        ensures
            line@ == (LineView { text: ""@, row: empty_row() }),
    {
        Self::new(Cow::Borrowed(""))
    }
}

/// Snapshot of scrollback content separate from the visible surface.
#[derive(Debug, PartialEq, Eq)]
pub struct ScrollbackSnapshot<'a> {
    /// Scrollback lines in presentation order, oldest to newest.
    pub lines: Vec<ScrollbackLine<'a>>,
}

/// Owned scrollback snapshot that can outlive a backend borrow.
pub type OwnedScrollbackSnapshot = ScrollbackSnapshot<'static>;

impl<'a> View for ScrollbackSnapshot<'a> {
    type V = Seq<LineView>;

    open spec fn view(&self) -> Seq<LineView> {
        self.lines@.map_values(|l: ScrollbackLine| l@)
    }
}

impl<'a> Clone for ScrollbackSnapshot<'a> {
    fn clone(&self) -> (copy: Self)
        ensures
            copy@ == self@,
    {
        let mut lines: Vec<ScrollbackLine<'a>> = Vec::new();
        let mut i: usize = 0;
        while i < self.lines.len()
            invariant
                i <= self.lines@.len(),
                lines@.len() == i,
                forall|k: int| 0 <= k < i ==> (#[trigger] lines@[k])@ == self.lines@[k]@,
            decreases self.lines@.len() - i,
        {
            lines.push(self.lines[i].clone());
            i = i + 1;
        }
        let copy = ScrollbackSnapshot { lines };
        assert(copy@ =~= self@);
        copy
    }
}

impl<'a> ScrollbackSnapshot<'a> {
    /// Creates a scrollback snapshot from explicit lines.
    pub fn new(lines: Vec<ScrollbackLine<'a>>) -> (snapshot: Self)
        ensures
            snapshot == (ScrollbackSnapshot { lines }),
    {
        ScrollbackSnapshot { lines }
    }

    /// Clones this scrollback snapshot into an owned form.
    pub fn to_owned_snapshot(&self) -> (snapshot: OwnedScrollbackSnapshot)
        ensures
            snapshot@ == self@,
    {
        let mut lines: Vec<OwnedScrollbackLine> = Vec::new();
        let mut i: usize = 0;
        while i < self.lines.len()
            invariant
                i <= self.lines@.len(),
                lines@.len() == i,
                forall|k: int| 0 <= k < i ==> (#[trigger] lines@[k])@ == self.lines@[k]@,
            decreases self.lines@.len() - i,
        {
            lines.push(self.lines[i].to_owned_line());
            i = i + 1;
        }
        let snapshot = ScrollbackSnapshot { lines };
        assert(snapshot@ =~= self@);
        snapshot
    }

    /// Converts this scrollback snapshot into an owned form.
    pub fn into_owned(self) -> (snapshot: OwnedScrollbackSnapshot)
        ensures
            snapshot@ == self@,
    {
        self.to_owned_snapshot()
    }
}

impl<'a> Default for ScrollbackSnapshot<'a> {
    fn default() -> (snapshot: Self)
        ensures
            snapshot@ == Seq::<LineView>::empty(),
    {
        let snapshot = ScrollbackSnapshot { lines: Vec::new() };
        assert(snapshot@ =~= Seq::<LineView>::empty());
        snapshot
    }
}

/// Metadata returned when a surface backend consumes output.
#[derive(Debug, Clone, Copy, PartialEq, Eq, Structural)]
pub struct SurfaceUpdate {
    /// Which rows became dirty.
    pub dirty_rows: DirtyRows,
    /// Whether the cursor position changed.
    pub cursor_changed: bool,
    /// Whether the terminal title changed.
    pub title_changed: bool,
    /// Whether terminal modes changed.
    pub modes_changed: bool,
    /// Whether scrollback changed.
    pub scrollback_changed: bool,
    /// Number of retained history lines dropped by the surface policy while
    /// consuming this update.
    pub scrollback_lines_dropped: u64,
}

/// An update that marks the given rows and nothing else.
pub open spec fn rows_update(dirty_rows: DirtyRows) -> SurfaceUpdate {
    SurfaceUpdate {
        dirty_rows,
        cursor_changed: false,
        title_changed: false,
        modes_changed: false,
        scrollback_changed: false,
        scrollback_lines_dropped: 0,
    }
}

/// An update of rows changes the rows and nothing else.
pub proof fn law_row_updates(dirty_rows: DirtyRows)
    ensures
        ({
            let update = rows_update(dirty_rows);
            &&& update.dirty_rows == dirty_rows
            &&& !update.cursor_changed && !update.title_changed && !update.modes_changed
            &&& !update.scrollback_changed && update.scrollback_lines_dropped == 0
        }),
{
}

impl SurfaceUpdate {
    /// Creates a surface update with explicit dirty rows.
    pub fn new(dirty_rows: DirtyRows) -> (update: Self)
        ensures
            update == rows_update(dirty_rows),
    {
        SurfaceUpdate {
            dirty_rows,
            cursor_changed: false,
            title_changed: false,
            modes_changed: false,
            scrollback_changed: false,
            scrollback_lines_dropped: 0,
        }
    }
}

impl Default for SurfaceUpdate {
    fn default() -> (update: Self)
        ensures
            update == rows_update(DirtyRows::NoRows),
    {
        Self::new(DirtyRows::NoRows)
    }
}

/// Replay backend selector captured in repro dumps.
#[derive(Debug, Clone, Copy, PartialEq, Eq, Structural)]
pub enum ReplayBackendKind {
    /// The built-in default surface backend.
    DefaultSurfaceVt100,
}

/// Identifies a concrete surface backend implementation.
#[derive(Debug, Clone, PartialEq, Eq)]
pub struct SurfaceBackendMetadata {
    /// Human-readable backend name.
    pub name: String,
    /// Backend version string.
    pub version: String,
    /// Optional replay selector for deterministic repro playback.
    pub replay_kind: Option<ReplayBackendKind>,
}

impl SurfaceBackendMetadata {
    /// Creates backend metadata without replay support.
    pub fn new(name: &str, version: &str) -> (metadata: Self)
        ensures
            metadata.name@ == name@,
            metadata.version@ == version@,
            metadata.replay_kind is None,
    {
        SurfaceBackendMetadata {
            name: name.to_owned(),
            version: version.to_owned(),
            replay_kind: None,
        }
    }

    /// Marks this backend as replayable through [`ReplayBackendKind`].
    pub fn with_replay_kind(self, replay_kind: ReplayBackendKind) -> (metadata: Self)
        ensures
            metadata == (SurfaceBackendMetadata { replay_kind: Some(replay_kind), ..self }),
    {
        let mut metadata = self;
        metadata.replay_kind = Some(replay_kind);
        metadata
    }
}

/// Abstract terminal surface backend contract.
pub trait SurfaceBackend: Send {
    /// Returns the visible surface size tracked by the backend.
    fn size(&self) -> Size;

    /// Resizes the backend surface.
    fn resize(&mut self, size: Size) -> Result<()>;

    /// Validates a resize without mutating backend state.
    ///
    /// Backends whose [`SurfaceBackend::resize`] implementation can reject
    /// specific sizes should override this hook and return the same error here
    /// before any PTY resize side effects occur.
    fn validate_resize(&self, size: Size) -> (r: Result<()>)
        default_ensures
            r is Ok,
    {
        let _ = size;
        Ok(())
    }

    /// Feeds raw output bytes into the backend.
    fn feed(&mut self, bytes: &[u8]) -> Result<SurfaceUpdate>;

    /// Returns a visible surface snapshot.
    fn snapshot(&self) -> SurfaceSnapshot<'_>;

    /// Returns current cursor metadata.
    fn cursor(&self) -> CursorState;

    /// Returns current terminal modes.
    fn modes(&self) -> TerminalModes;

    /// Returns current scrollback content.
    fn scrollback(&self) -> ScrollbackSnapshot<'_>;

    /// Returns backend metadata for repro dumps and diagnostics.
    fn metadata(&self) -> SurfaceBackendMetadata;
}

/// Runtime statistics for a pane.
#[derive(Debug, Clone, Copy, PartialEq, Eq, Structural)]
pub struct PaneStats {
    /// Total history lines dropped from the backing scrollback buffer because
    /// of the pane's configured retention policy.
    pub scrollback_lines_dropped: u64,
}

impl Default for PaneStats {
    fn default() -> (stats: Self)
        ensures
            stats.scrollback_lines_dropped == 0,
    {
        PaneStats { scrollback_lines_dropped: 0 }
    }
}

/// A read-only view of pane state.
///
/// Snapshots must be cheap enough for every frame, but they do not need to be
/// zero-copy in every backend.
#[derive(Debug, PartialEq, Eq)]
pub struct PaneSnapshot<'a> {
    /// Pane identifier.
    pub id: PaneId,
    /// Optional human-readable title.
    pub title: Option<String>,
    /// Current lifecycle state.
    pub state: PaneState,
    /// Current interaction mode.
    pub interaction_mode: PaneInteractionMode,
    /// Current terminal size.
    pub size: Size,
    /// Surface state snapshot.
    pub surface: SurfaceSnapshot<'a>,
    /// Cursor state.
    pub cursor: CursorState,
    /// Terminal mode flags.
    pub modes: TerminalModes,
    /// Runtime statistics.
    pub stats: PaneStats,
}

/// Owned pane snapshot that can outlive any backend borrow.
pub type OwnedPaneSnapshot = PaneSnapshot<'static>;

/// A [`PaneSnapshot`] with its texts as characters.
pub ghost struct PaneView {
    pub id: PaneId,
    pub title: Option<Seq<char>>,
    pub state: StateView,
    pub interaction_mode: PaneInteractionMode,
    pub size: Size,
    pub surface: SurfaceView,
    pub cursor: CursorState,
    pub modes: TerminalModes,
    pub stats: PaneStats,
}

impl<'a> View for PaneSnapshot<'a> {
    type V = PaneView;

    open spec fn view(&self) -> PaneView {
        PaneView {
            id: self.id,
            title: opt_text(self.title),
            state: self.state@,
            interaction_mode: self.interaction_mode,
            size: self.size,
            surface: self.surface@,
            cursor: self.cursor,
            modes: self.modes,
            stats: self.stats,
        }
    }
}

impl<'a> Clone for PaneSnapshot<'a> {
    fn clone(&self) -> (copy: Self)
        ensures
            copy@ == self@,
    {
        PaneSnapshot {
            id: self.id,
            title: crate::pane::clone_opt_text(&self.title),
            state: self.state.clone(),
            interaction_mode: self.interaction_mode,
            size: self.size,
            surface: self.surface.clone(),
            cursor: self.cursor,
            modes: self.modes,
            stats: self.stats,
        }
    }
}

impl<'a> PaneSnapshot<'a> {
    /// Clones this snapshot into an owned form.
    pub fn to_owned_snapshot(&self) -> (snapshot: OwnedPaneSnapshot)
        ensures
            snapshot@ == self@,
    {
        PaneSnapshot {
            id: self.id,
            title: crate::pane::clone_opt_text(&self.title),
            state: self.state.clone(),
            interaction_mode: self.interaction_mode,
            size: self.size,
            surface: self.surface.to_owned_snapshot(),
            cursor: self.cursor,
            modes: self.modes,
            stats: self.stats,
        }
    }

    /// Converts this snapshot into an owned form.
    pub fn into_owned(self) -> (snapshot: OwnedPaneSnapshot)
        ensures
            snapshot@ == self@,
    {
        self.to_owned_snapshot()
    }
}

} // verus!
