//! What a pane manager is made with: how processes and surfaces come about,
//! and how much output it takes in at a time.

use vstd::prelude::*;

use crate::error::{error_of, ErrorView, PaneError, Result};
use crate::event::PaneEvent;
use crate::pane::{PaneConfig, PaneId};
use crate::pty::{PtyBackend, PtyProcess};
use crate::surface::SurfaceBackend;

verus! {

/// Spawns the processes of new panes.
pub trait PtySpawner: Send + Sync {
    /// Whether the spawner may answer like this when it is asked for a process.
    /// A spawner that does not say may answer anything.
    open spec fn may_answer(&self, config: &PaneConfig, r: Result<Box<dyn PtyProcess>>) -> bool {
        true
    }

    /// Spawns a PTY-backed child process.
    fn spawn(&self, config: &PaneConfig) -> (r: Result<Box<dyn PtyProcess>>)
        ensures
            self.may_answer(config, r),
    ;
}

/// Makes the surfaces of new panes.
pub trait SurfaceFactory: Send + Sync {
    /// Makes the surface of a new pane.
    fn create(&self, pane_id: PaneId, config: &PaneConfig) -> Result<Box<dyn SurfaceBackend>>;
}

/// Receives every event as it is emitted.
pub trait EventSink: Send + Sync {
    /// Receives an event.
    fn accept(&self, event: &PaneEvent);
}

/// A sink that is held to be told of events.
pub struct Listener<S: ?Sized> {
    sink: Box<S>,
}

/// The sink of a manager.
pub type ManagerSink = Listener<dyn EventSink>;

impl<S: EventSink + ?Sized> Listener<S> {
    /// Whether this sink is held.
    pub closed spec fn holds(self, sink: &S) -> bool {
        sink == &*self.sink
    }

    /// Whether the sink was handed this event.
    pub closed spec fn heard(self, event: &PaneEvent) -> bool {
        call_ensures(S::accept, (&*self.sink, event), ())
    }

    /// Holds a sink.
    pub fn new(sink: Box<S>) -> (listener: Self)
        ensures
            listener.holds(&*sink),
    {
        Listener { sink }
    }

    /// Hands the sink an event.
    pub fn tell(&self, event: &PaneEvent)
        ensures
            self.heard(event),
    {
        self.sink.accept(event)
    }
}

/// Whether two results are both good, or fail with the same error.
pub open spec fn same_outcome<A, B>(a: Result<A>, b: Result<B>) -> bool {
    match (a, b) {
        (Ok(_), Ok(_)) => true,
        (Err(x), Err(y)) => x == y,
        _ => false,
    }
}

/// Whether a spawner may answer like this when it is asked for a process.
pub open spec fn spawner_answers<S: PtySpawner + ?Sized>(
    spawner: &S,
    config: &PaneConfig,
    r: Result<Box<dyn PtyProcess>>,
) -> bool {
    spawner.may_answer(config, r)
}

/// Whether a factory may answer like this when it is asked for a surface.
pub open spec fn factory_answers<F: SurfaceFactory + ?Sized>(
    factory: &F,
    pane_id: PaneId,
    config: &PaneConfig,
    r: Result<Box<dyn SurfaceBackend>>,
) -> bool {
    call_ensures(F::create, (factory, pane_id, config), r)
}

/// A spawner that is held to be asked.
pub struct Spawner<S: ?Sized> {
    spawner: Box<S>,
}

impl<S: PtySpawner + ?Sized> Spawner<S> {
    /// Whether this spawner is held.
    pub closed spec fn holds(self, spawner: &S) -> bool {
        spawner == &*self.spawner
    }

    /// Whether the spawner may answer like this.
    pub closed spec fn answers(self, config: &PaneConfig, r: Result<Box<dyn PtyProcess>>) -> bool {
        spawner_answers(&*self.spawner, config, r)
    }

    /// The answers are those of the spawner that is held.
    pub proof fn law_answers(
        self,
        spawner: &S,
        config: &PaneConfig,
        r: Result<Box<dyn PtyProcess>>,
    )
        requires
            self.holds(spawner),
        ensures
            self.answers(config, r) == spawner_answers(spawner, config, r),
    {
    }

    fn new(spawner: Box<S>) -> (held: Self)
        ensures
            held.holds(&*spawner),
    {
        Spawner { spawner }
    }

    fn spawn(&self, config: &PaneConfig) -> (r: Result<Box<dyn PtyProcess>>)
        ensures
            self.answers(config, r),
    {
        self.spawner.spawn(config)
    }
}

/// A factory that is held to be asked.
pub struct Factory<F: ?Sized> {
    factory: Box<F>,
}

impl<F: SurfaceFactory + ?Sized> Factory<F> {
    /// Whether this factory is held.
    pub closed spec fn holds(self, factory: &F) -> bool {
        factory == &*self.factory
    }

    /// Whether the factory may answer like this.
    pub closed spec fn answers(
        self,
        pane_id: PaneId,
        config: &PaneConfig,
        r: Result<Box<dyn SurfaceBackend>>,
    ) -> bool {
        factory_answers(&*self.factory, pane_id, config, r)
    }

    /// The answers are those of the factory that is held.
    pub proof fn law_answers(
        self,
        factory: &F,
        pane_id: PaneId,
        config: &PaneConfig,
        r: Result<Box<dyn SurfaceBackend>>,
    )
        requires
            self.holds(factory),
        ensures
            self.answers(pane_id, config, r) == factory_answers(factory, pane_id, config, r),
    {
    }

    fn new(factory: Box<F>) -> (held: Self)
        ensures
            held.holds(&*factory),
    {
        Factory { factory }
    }

    fn create(&self, pane_id: PaneId, config: &PaneConfig) -> (r: Result<Box<dyn SurfaceBackend>>)
        ensures
            self.answers(pane_id, config, r),
    {
        self.factory.create(pane_id, config)
    }
}

/// The error of a manager that cannot make surfaces.
pub open spec fn no_factory() -> ErrorView {
    ErrorView::Surface { message: "no surface factory configured"@ }
}

/// The error of a manager that cannot spawn processes.
pub open spec fn no_backend() -> ErrorView {
    ErrorView::Spawn { message: "no PTY backend configured"@ }
}

/// Whether this may come of a backend that is asked to spawn a process: what it
/// answers, with the process boxed.
pub open spec fn backend_answers<B: PtyBackend>(
    backend: &B,
    config: &PaneConfig,
    r: Result<Box<dyn PtyProcess>>,
) -> bool {
    exists|answer: Result<B::Process>|
        {
            &&& #[trigger] call_ensures(B::spawn, (backend, config), answer)
            &&& same_outcome(r, answer)
        }
}

/// A PTY backend as a spawner.
struct BackendSpawner<B> {
    backend: B,
}

impl<B: PtyBackend + Send + Sync> PtySpawner for BackendSpawner<B> where B::Process: 'static {
    closed spec fn may_answer(
        &self,
        config: &PaneConfig,
        r: Result<Box<dyn PtyProcess>>,
    ) -> bool {
        backend_answers(&self.backend, config, r)
    }

    fn spawn(&self, config: &PaneConfig) -> (r: Result<Box<dyn PtyProcess>>) {
        let answer = self.backend.spawn(config);
        let ghost said = answer;
        assert(call_ensures(B::spawn, (&self.backend, config), said));
        match answer {
            Ok(process) => Ok(Box::new(process)),
            Err(error) => Err(error),
        }
    }
}

/// Configuration for the pane manager.
///
/// A fresh configuration can neither spawn processes nor make surfaces; both
/// are supplied with the `with_` methods.
pub struct PaneManagerConfig {
    pty_spawner: Option<Spawner<dyn PtySpawner>>,
    surface_factory: Option<Factory<dyn SurfaceFactory>>,
    max_pty_frames_per_drain: usize,
    max_pty_frames_per_repro_dump: usize,
}

/// A manager's configuration: what spawns processes, what makes surfaces, and
/// the limits.
pub ghost struct ConfigView {
    pub spawner: Option<Spawner<dyn PtySpawner>>,
    pub factory: Option<Factory<dyn SurfaceFactory>>,
    pub drain_limit: usize,
    pub repro_limit: usize,
}

impl View for PaneManagerConfig {
    type V = ConfigView;

    closed spec fn view(&self) -> ConfigView {
        ConfigView {
            spawner: self.pty_spawner,
            factory: self.surface_factory,
            drain_limit: self.max_pty_frames_per_drain,
            repro_limit: self.max_pty_frames_per_repro_dump,
        }
    }
}

impl Default for PaneManagerConfig {
    fn default() -> (config: Self)
        ensures
            config@ == (ConfigView {
                spawner: None,
                factory: None,
                drain_limit: 32,
                repro_limit: 4096,
            }),
    {
        PaneManagerConfig {
            pty_spawner: None,
            surface_factory: None,
            max_pty_frames_per_drain: 32,
            max_pty_frames_per_repro_dump: 4096,
        }
    }
}

/// A limit of at least one.
pub open spec fn at_least_one(limit: usize) -> usize {
    if limit == 0 {
        1
    } else {
        limit
    }
}

/// A limit is as it was given, but never nothing.
pub proof fn law_limits(limit: usize)
    ensures
        at_least_one(limit) > 0,
        limit > 0 ==> at_least_one(limit) == limit,
        limit == 0 ==> at_least_one(limit) == 1,
{
}

fn raised(limit: usize) -> (r: usize)
    ensures
        r == at_least_one(limit),
{
    if limit == 0 {
        1
    } else {
        limit
    }
}

impl ConfigView {
    /// Whether this may come of making a surface: what the factory answers, or
    /// an error where there is no factory.
    pub open spec fn makes(
        self,
        pane_id: PaneId,
        config: &PaneConfig,
        r: Result<Box<dyn SurfaceBackend>>,
    ) -> bool {
        match self.factory {
            Some(factory) => factory.answers(pane_id, config, r),
            None => error_of(r) == Some(no_factory()),
        }
    }

    /// Whether this may come of spawning a process: what the spawner answers,
    /// or an error where there is no spawner.
    pub open spec fn spawns_as(self, config: &PaneConfig, r: Result<Box<dyn PtyProcess>>) -> bool {
        match self.spawner {
            Some(spawner) => spawner.answers(config, r),
            None => error_of(r) == Some(no_backend()),
        }
    }
}

impl PaneManagerConfig {
    /// Overrides how PTY-backed child processes are spawned.
    pub fn with_pty_spawner(self, spawner: Box<dyn PtySpawner>) -> (config: Self)
        ensures
            config@ == (ConfigView { spawner: config@.spawner, ..self@ }),
            config@.spawner matches Some(held) && held.holds(&*spawner),
    {
        let mut config = self;
        config.pty_spawner = Some(Spawner::new(spawner));
        config
    }

    /// Overrides the PTY backend used for new panes. Processes are spawned as
    /// the backend answers.
    pub fn with_pty_backend<B: PtyBackend + Send + Sync + 'static>(self, backend: B) -> (config:
        Self) where B::Process: 'static
        ensures
            config@ == (ConfigView { spawner: config@.spawner, ..self@ }),
            config@.spawner matches Some(held) && forall|
                asked: &PaneConfig,
                r: Result<Box<dyn PtyProcess>>,
            |
                #[trigger] held.answers(asked, r) == backend_answers(&backend, asked, r),
    {
        let boxed: Box<dyn PtySpawner> = Box::new(BackendSpawner { backend });
        assert(forall|asked: &PaneConfig, r: Result<Box<dyn PtyProcess>>|
            #[trigger] boxed.may_answer(asked, r) == backend_answers(&backend, asked, r));
        let ghost plain = boxed;
        let held = Spawner { spawner: boxed };
        assert(forall|asked: &PaneConfig, r: Result<Box<dyn PtyProcess>>|
            #[trigger] held.answers(asked, r) == plain.may_answer(asked, r));
        let mut config = self;
        config.pty_spawner = Some(held);
        config
    }

    /// Overrides how surface backends are created for new panes.
    pub fn with_surface_factory(self, factory: Box<dyn SurfaceFactory>) -> (config: Self)
        ensures
            config@ == (ConfigView { factory: config@.factory, ..self@ }),
            config@.factory matches Some(held) && held.holds(&*factory),
    {
        let mut config = self;
        config.surface_factory = Some(Factory::new(factory));
        config
    }

    /// Sets the maximum number of PTY frames drained per pane on each tick.
    pub fn with_max_pty_frames_per_drain(self, limit: usize) -> (config: Self)
        ensures
            config@ == (ConfigView { drain_limit: at_least_one(limit), ..self@ }),
    {
        let mut config = self;
        config.max_pty_frames_per_drain = raised(limit);
        config
    }

    /// Sets the maximum number of PTY frames a repro dump may drain before
    /// requiring the pane to quiesce.
    pub fn with_max_pty_frames_per_repro_dump(self, limit: usize) -> (config: Self)
        ensures
            config@ == (ConfigView { repro_limit: at_least_one(limit), ..self@ }),
    {
        let mut config = self;
        config.max_pty_frames_per_repro_dump = raised(limit);
        config
    }

    /// Returns the maximum number of PTY frames drained per pane on each tick.
    pub fn max_pty_frames_per_drain(&self) -> (limit: usize)
        ensures
            limit == self@.drain_limit,
    {
        self.max_pty_frames_per_drain
    }

    /// Returns the maximum number of PTY frames a repro dump may drain.
    pub fn max_pty_frames_per_repro_dump(&self) -> (limit: usize)
        ensures
            limit == self@.repro_limit,
    {
        self.max_pty_frames_per_repro_dump
    }

    /// Makes the surface of a new pane.
    pub(crate) fn create_surface(&self, pane_id: PaneId, config: &PaneConfig) -> (r: Result<
        Box<dyn SurfaceBackend>,
    >)
        ensures
            self@.makes(pane_id, config, r),
    {
        match &self.surface_factory {
            Some(factory) => factory.create(pane_id, config),
            None => Err(PaneError::Surface { message: "no surface factory configured".to_owned() }),
        }
    }

    /// Spawns the process of a new pane.
    pub(crate) fn spawn_process(&self, config: &PaneConfig) -> (r: Result<Box<dyn PtyProcess>>)
        ensures
            self@.spawns_as(config, r),
    {
        match &self.pty_spawner {
            Some(spawner) => spawner.spawn(config),
            None => Err(PaneError::Spawn { message: "no PTY backend configured".to_owned() }),
        }
    }
}

} // verus!
