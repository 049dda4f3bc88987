//! Default surface backend of the pane manager: a terminal engine that is held
//! to surfaces of at least two rows.

use vstd::prelude::*;

use crate::error::{error_of, ErrorView, PaneError, Result};
use crate::pane::{ScrollbackConfig, Size, TerminalModes};
use crate::surface::{
    CursorState, ReplayBackendKind, ScrollbackSnapshot, SurfaceBackend, SurfaceBackendMetadata,
    SurfaceSnapshot, SurfaceUpdate,
};
use crate::text::{decimal, push_decimal};

verus! {

/// The error of a surface with too few rows.
pub open spec fn too_few_rows(size: Size) -> ErrorView {
    ErrorView::Surface {
        message: "default surface backend requires at least two rows; got rows="@ + decimal(
            size.rows as nat,
        ) + " cols="@ + decimal(size.cols as nat),
    }
}

/// A surface that is too low says its rows and its columns, each under its name.
pub proof fn law_too_few_rows(size: Size)
    ensures
        too_few_rows(size) == (ErrorView::Surface {
            message: "default surface backend requires at least two rows; got rows="@ + decimal(
                size.rows as nat,
            ) + " cols="@ + decimal(size.cols as nat),
        }),
{
}

/// Checks that a surface has at least two rows.
///
/// # Errors
///
/// Returns an error if it has fewer.
pub fn validate_surface_size(size: Size) -> (r: Result<()>)
    ensures
        error_of(r) == if size.rows < 2 {
            Some(too_few_rows(size))
        } else {
            None
        },
{
    if size.rows < 2 {
        let mut message = "default surface backend requires at least two rows; got rows=".to_owned();
        push_decimal(&mut message, size.rows as u64);
        message.append(" cols=");
        push_decimal(&mut message, size.cols as u64);
        return Err(PaneError::Surface { message });
    }
    Ok(())
}

/// The number of scrollback rows to retain: as many as configured, or all.
pub fn configured_scrollback_rows(scrollback: ScrollbackConfig) -> (rows: usize)
    ensures
        rows == match scrollback.max_lines {
            Some(limit) => limit,
            None => usize::MAX,
        },
{
    match scrollback.line_limit() {
        Some(limit) => limit,
        None => usize::MAX,
    }
}

/// Terminal-aware surface backend over an engine that parses the output.
///
/// The engine does the parsing, keeps snapshot and scrollback, and tells dirty
/// rows and modes.
#[derive(Debug)]
pub struct DefaultSurfaceBackend<E> {
    inner: E,
}

impl<E: SurfaceBackend> DefaultSurfaceBackend<E> {
    /// The engine.
    pub closed spec fn engine(self) -> E {
        self.inner
    }

    /// Creates a surface of a size over an engine of that size.
    ///
    /// # Errors
    ///
    /// Returns an error if the size has fewer than two rows.
    pub fn new(engine: E, size: Size) -> (r: Result<Self>)
        ensures
            error_of(r) == if size.rows < 2 {
                Some(too_few_rows(size))
            } else {
                None
            },
            r matches Ok(surface) ==> surface.engine() == engine,
    {
        match validate_surface_size(size) {
            Ok(_) => Ok(DefaultSurfaceBackend { inner: engine }),
            Err(error) => Err(error),
        }
    }
}

impl<E: SurfaceBackend> SurfaceBackend for DefaultSurfaceBackend<E> {
    fn size(&self) -> (size: Size)
        ensures
            call_ensures(E::size, (&self.engine(),), size),
    {
        self.inner.size()
    }

    fn validate_resize(&self, size: Size) -> (r: Result<()>)
        ensures
            size.rows < 2 ==> error_of(r) == Some(too_few_rows(size)),
            size.rows >= 2 ==> call_ensures(E::validate_resize, (&self.engine(), size), r),
    {
        match validate_surface_size(size) {
            Ok(_) => self.inner.validate_resize(size),
            Err(error) => Err(error),
        }
    }

    fn resize(&mut self, size: Size) -> (r: Result<()>)
        ensures
            size.rows < 2 ==> error_of(r) == Some(too_few_rows(size)) && *final(self) == *old(self),
            size.rows >= 2 ==> exists|engine: &mut E|
                #![trigger call_ensures(E::resize, (engine, size), r)]
                {
                    &&& call_ensures(E::resize, (engine, size), r)
                    &&& *engine == old(self).engine()
                    &&& *final(engine) == final(self).engine()
                },
    {
        match validate_surface_size(size) {
            Ok(_) => self.inner.resize(size),
            Err(error) => Err(error),
        }
    }

    fn feed(&mut self, bytes: &[u8]) -> (r: Result<SurfaceUpdate>)
        ensures
            exists|engine: &mut E|
                #![trigger call_ensures(E::feed, (engine, bytes), r)]
                {
                    &&& call_ensures(E::feed, (engine, bytes), r)
                    &&& *engine == old(self).engine()
                    &&& *final(engine) == final(self).engine()
                },
    {
        self.inner.feed(bytes)
    }

    fn snapshot(&self) -> (snapshot: SurfaceSnapshot<'_>)
        ensures
            call_ensures(E::snapshot, (&self.engine(),), snapshot),
    {
        self.inner.snapshot()
    }

    fn cursor(&self) -> (cursor: CursorState)
        ensures
            call_ensures(E::cursor, (&self.engine(),), cursor),
    {
        self.inner.cursor()
    }

    fn modes(&self) -> (modes: TerminalModes)
        ensures
            call_ensures(E::modes, (&self.engine(),), modes),
    {
        self.inner.modes()
    }

    fn scrollback(&self) -> (scrollback: ScrollbackSnapshot<'_>)
        ensures
            call_ensures(E::scrollback, (&self.engine(),), scrollback),
    {
        self.inner.scrollback()
    }

    fn metadata(&self) -> (metadata: SurfaceBackendMetadata)
        ensures
            metadata.name@ == "panesmith-core/default-surface-vt100"@,
            metadata.version@ == "0.1.0"@,
            metadata.replay_kind == Some(ReplayBackendKind::DefaultSurfaceVt100),
    {
        SurfaceBackendMetadata::new("panesmith-core/default-surface-vt100", "0.1.0").with_replay_kind(
            ReplayBackendKind::DefaultSurfaceVt100,
        )
    }
}

} // verus!
