//! Viewport arithmetic over retained scrollback and the live surface.

use vstd::prelude::*;

use crate::surface::{PaneSnapshot, ScrollbackSnapshot};

verus! {

/// Viewport state for rendering current screen rows or historical scrollback.
#[derive(Debug, Clone, Copy, PartialEq, Eq, Structural)]
pub struct TerminalViewport {
    /// Number of logical rows to scroll upward from the tail/current screen.
    pub scroll_offset: usize,
    /// Whether the viewport should follow the live tail/current screen.
    pub follow_tail: bool,
}

/// The viewport that follows the live tail.
pub open spec fn tail_viewport() -> TerminalViewport {
    TerminalViewport { scroll_offset: 0, follow_tail: true }
}

impl Default for TerminalViewport {
    fn default() -> (viewport: Self)
        ensures
            viewport == tail_viewport(),
    {
        TerminalViewport { scroll_offset: 0, follow_tail: true }
    }
}

/// Computed viewport bounds for a pane snapshot plus optional scrollback.
#[derive(Debug, Clone, Copy, PartialEq, Eq, Structural)]
pub struct TerminalViewportMetrics {
    /// Total logical rows: retained scrollback rows followed by live surface rows.
    pub total_rows: usize,
    /// Number of rows available in the render viewport.
    pub visible_rows: usize,
    /// Highest valid upward scroll offset for the current content and height.
    pub max_scroll_offset: usize,
    /// Scroll offset after applying follow-tail and clamping rules.
    pub effective_scroll_offset: usize,
    /// First logical row rendered for this viewport.
    pub start_row: usize,
    /// Exclusive end logical row rendered for this viewport.
    pub end_row: usize,
}

impl Default for TerminalViewportMetrics {
    fn default() -> (metrics: Self)
        ensures
            metrics == (TerminalViewportMetrics {
                total_rows: 0,
                visible_rows: 0,
                max_scroll_offset: 0,
                effective_scroll_offset: 0,
                start_row: 0,
                end_row: 0,
            }),
    {
        TerminalViewportMetrics {
            total_rows: 0,
            visible_rows: 0,
            max_scroll_offset: 0,
            effective_scroll_offset: 0,
            start_row: 0,
            end_row: 0,
        }
    }
}

/// `a + b`, or the largest `usize` where that is larger.
pub open spec fn sat_add(a: usize, b: usize) -> usize {
    if a + b > usize::MAX {
        usize::MAX
    } else {
        (a + b) as usize
    }
}

/// `a - b`, or zero where `b` is larger.
pub open spec fn sat_sub(a: usize, b: usize) -> usize {
    if a >= b {
        (a - b) as usize
    } else {
        0
    }
}

/// The smaller of two numbers.
pub open spec fn min_usize(a: usize, b: usize) -> usize {
    if a <= b {
        a
    } else {
        b
    }
}

/// The viewport at a scroll offset: the tail at zero, detached from it elsewhere.
pub open spec fn viewport_at(offset: usize) -> TerminalViewport {
    if offset == 0 {
        tail_viewport()
    } else {
        TerminalViewport { scroll_offset: offset, follow_tail: false }
    }
}

/// The metrics of a viewport over `surface_rows` live rows after
/// `scrollback_rows` retained ones, in a window of `visible_rows`.
pub open spec fn metrics_of(
    viewport: TerminalViewport,
    surface_rows: usize,
    scrollback_rows: usize,
    visible_rows: usize,
) -> TerminalViewportMetrics {
    let total_rows = sat_add(scrollback_rows, surface_rows);
    let max_scroll_offset = sat_sub(total_rows, visible_rows);
    let effective_scroll_offset = if viewport.follow_tail {
        0
    } else {
        min_usize(viewport.scroll_offset, max_scroll_offset)
    };
    let end_row = sat_sub(total_rows, effective_scroll_offset);
    let start_row = sat_sub(end_row, visible_rows);
    TerminalViewportMetrics {
        total_rows,
        visible_rows,
        max_scroll_offset,
        effective_scroll_offset,
        start_row,
        end_row,
    }
}

impl TerminalViewportMetrics {
    /// Whether the numbers are those of some viewport over some content.
    pub open spec fn coherent(self) -> bool {
        &&& self.max_scroll_offset == sat_sub(self.total_rows, self.visible_rows)
        &&& self.effective_scroll_offset <= self.max_scroll_offset
        &&& self.end_row == self.total_rows - self.effective_scroll_offset
        &&& self.start_row == sat_sub(self.end_row, self.visible_rows)
    }

    /// Returns whether the computed viewport is displaying the live tail.
    pub fn is_at_tail(self) -> (b: bool)
        ensures
            b == (self.effective_scroll_offset == 0),
    {
        self.effective_scroll_offset == 0
    }
}

fn min_of(a: usize, b: usize) -> (m: usize)
    ensures
        m == min_usize(a, b),
{
    if a <= b {
        a
    } else {
        b
    }
}

fn at_offset(offset: usize) -> (viewport: TerminalViewport)
    ensures
        viewport == viewport_at(offset),
{
    if offset == 0 {
        TerminalViewport { scroll_offset: 0, follow_tail: true }
    } else {
        TerminalViewport::scrolled(offset)
    }
}

impl TerminalViewport {
    /// Creates a viewport detached from follow-tail at the provided offset.
    pub fn scrolled(scroll_offset: usize) -> (viewport: Self)
        ensures
            viewport == (TerminalViewport { scroll_offset, follow_tail: false }),
    {
        TerminalViewport { scroll_offset, follow_tail: false }
    }

    /// Returns this viewport to live-tail following.
    pub fn follow_tail(self) -> (viewport: Self)
        ensures
            viewport == tail_viewport(),
    {
        TerminalViewport { scroll_offset: 0, follow_tail: true }
    }

    /// Computes viewport metrics from a snapshot, optional scrollback, and height.
    pub fn metrics(
        self,
        snapshot: &PaneSnapshot<'_>,
        scrollback: Option<&ScrollbackSnapshot<'_>>,
        visible_rows: usize,
    ) -> (metrics: TerminalViewportMetrics)
        ensures
            metrics == metrics_of(
                self,
                snapshot.surface.size.rows as usize,
                match scrollback {
                    Some(s) => s.lines@.len() as usize,
                    None => 0,
                },
                visible_rows,
            ),
    {
        let scrollback_rows: usize = match scrollback {
            Some(s) => s.lines.len(),
            None => 0,
        };
        self.metrics_from_counts(
            snapshot.surface.size.rows as usize,
            scrollback_rows,
            visible_rows,
        )
    }

    /// Computes viewport metrics from row counts.
    pub fn metrics_from_counts(
        self,
        surface_rows: usize,
        scrollback_rows: usize,
        visible_rows: usize,
    ) -> (metrics: TerminalViewportMetrics)
        ensures
            metrics == metrics_of(self, surface_rows, scrollback_rows, visible_rows),
            metrics.coherent(),
    {
        let total_rows = scrollback_rows.saturating_add(surface_rows);
        let max_scroll_offset = total_rows.saturating_sub(visible_rows);
        let effective_scroll_offset: usize = if self.follow_tail {
            0
        } else {
            min_of(self.scroll_offset, max_scroll_offset)
        };
        let end_row = total_rows.saturating_sub(effective_scroll_offset);
        let start_row = end_row.saturating_sub(visible_rows);
        TerminalViewportMetrics {
            total_rows,
            visible_rows,
            max_scroll_offset,
            effective_scroll_offset,
            start_row,
            end_row,
        }
    }

    /// What clamping to metrics gives.
    pub open spec fn clamped(self, metrics: TerminalViewportMetrics) -> TerminalViewport {
        if self.follow_tail {
            tail_viewport()
        } else {
            viewport_at(metrics.effective_scroll_offset)
        }
    }

    /// Clamps this viewport to the provided metrics.
    pub fn clamp(self, metrics: TerminalViewportMetrics) -> (viewport: Self)
        ensures
            viewport == self.clamped(metrics),
    {
        if self.follow_tail || metrics.effective_scroll_offset == 0 {
            self.follow_tail()
        } else {
            Self::scrolled(metrics.effective_scroll_offset)
        }
    }

    /// Returns whether this viewport is at the live tail for the provided metrics.
    pub fn is_at_tail(self, metrics: TerminalViewportMetrics) -> (b: bool)
        ensures
            b == (metrics.effective_scroll_offset == 0),
    {
        metrics.is_at_tail()
    }

    /// Scrolls upward by `rows` logical rows, clamping to retained content.
    pub fn scroll_up(self, rows: usize, metrics: TerminalViewportMetrics) -> (viewport: Self)
        ensures
            viewport == viewport_at(
                min_usize(
                    sat_add(metrics.effective_scroll_offset, rows),
                    metrics.max_scroll_offset,
                ),
            ),
    {
        at_offset(
            min_of(
                metrics.effective_scroll_offset.saturating_add(rows),
                metrics.max_scroll_offset,
            ),
        )
    }

    /// Scrolls downward by `rows` logical rows, returning to follow-tail at the bottom.
    pub fn scroll_down(self, rows: usize, metrics: TerminalViewportMetrics) -> (viewport: Self)
        ensures
            viewport == viewport_at(sat_sub(metrics.effective_scroll_offset, rows)),
    {
        at_offset(metrics.effective_scroll_offset.saturating_sub(rows))
    }

    /// Scrolls upward by one viewport page.
    pub fn page_up(self, metrics: TerminalViewportMetrics) -> (viewport: Self)
        ensures
            viewport == viewport_at(
                min_usize(
                    sat_add(metrics.effective_scroll_offset, metrics.visible_rows),
                    metrics.max_scroll_offset,
                ),
            ),
    {
        self.scroll_up(metrics.visible_rows, metrics)
    }

    /// Scrolls downward by one viewport page.
    pub fn page_down(self, metrics: TerminalViewportMetrics) -> (viewport: Self)
        ensures
            viewport == viewport_at(sat_sub(metrics.effective_scroll_offset, metrics.visible_rows)),
    {
        self.scroll_down(metrics.visible_rows, metrics)
    }
}

/// The rendered rows lie within the content and fill the window whenever the
/// content can.
pub proof fn law_viewport_rows_within_content(
    viewport: TerminalViewport,
    surface_rows: usize,
    scrollback_rows: usize,
    visible_rows: usize,
)
    ensures
        ({
            let m = metrics_of(viewport, surface_rows, scrollback_rows, visible_rows);
            &&& m.coherent()
            &&& m.start_row <= m.end_row <= m.total_rows
            &&& m.end_row - m.start_row <= visible_rows
            &&& m.total_rows >= visible_rows ==> m.end_row - m.start_row == visible_rows
            &&& m.total_rows < visible_rows ==> m.start_row == 0 && m.end_row == m.total_rows
        }),
{
}

/// What a viewport shows: the retained rows come before the live ones, the last
/// row shown is the last row of all while the tail is followed, and lies as many
/// rows above it as the viewport is scrolled, as far as there are rows to show.
pub proof fn law_viewport_rows_shown(
    viewport: TerminalViewport,
    surface_rows: usize,
    scrollback_rows: usize,
    visible_rows: usize,
)
    requires
        surface_rows + scrollback_rows <= usize::MAX,
    ensures
        ({
            let m = metrics_of(viewport, surface_rows, scrollback_rows, visible_rows);
            let all = surface_rows + scrollback_rows;
            &&& m.total_rows == all
            &&& m.visible_rows == visible_rows
            &&& m.end_row + m.effective_scroll_offset == all
            &&& viewport.follow_tail ==> m.end_row == all
            &&& !viewport.follow_tail && viewport.scroll_offset + visible_rows <= all ==> m.end_row
                == all - viewport.scroll_offset
            &&& !viewport.follow_tail && viewport.scroll_offset + visible_rows >= all
                ==> m.start_row == 0
            &&& m.end_row - m.start_row == (if visible_rows <= all {
                visible_rows as int
            } else {
                all
            })
            &&& m.max_scroll_offset == (if visible_rows <= all {
                all - visible_rows
            } else {
                0
            })
        }),
{
}

/// Clamping a viewport to its own metrics leaves what is rendered as it is,
/// and clamping again changes nothing.
pub proof fn law_viewport_clamp_is_stable(
    viewport: TerminalViewport,
    surface_rows: usize,
    scrollback_rows: usize,
    visible_rows: usize,
)
    ensures
        ({
            let m = metrics_of(viewport, surface_rows, scrollback_rows, visible_rows);
            let c = viewport.clamped(m);
            &&& metrics_of(c, surface_rows, scrollback_rows, visible_rows) == m
            &&& c.clamped(m) == c
        }),
{
}

/// Scrolling up by rows that the content has and down again by as many shows
/// the same rows as before.
pub proof fn law_viewport_scroll_round_trip(
    viewport: TerminalViewport,
    rows: usize,
    surface_rows: usize,
    scrollback_rows: usize,
    visible_rows: usize,
)
    requires
        metrics_of(
            viewport,
            surface_rows,
            scrollback_rows,
            visible_rows,
        ).effective_scroll_offset + rows <= metrics_of(
            viewport,
            surface_rows,
            scrollback_rows,
            visible_rows,
        ).max_scroll_offset,
    ensures
        ({
            let before = metrics_of(viewport, surface_rows, scrollback_rows, visible_rows);
            let up = viewport_at(
                min_usize(sat_add(before.effective_scroll_offset, rows), before.max_scroll_offset),
            );
            let middle = metrics_of(up, surface_rows, scrollback_rows, visible_rows);
            let down = viewport_at(sat_sub(middle.effective_scroll_offset, rows));
            metrics_of(down, surface_rows, scrollback_rows, visible_rows) == before
        }),
{
}

} // verus!
