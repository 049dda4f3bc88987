//! Repro dumps: what a pane was given, what it reported, and how it looked,
//! with the spawn metadata redacted.

use std::path::PathBuf;

use vstd::prelude::*;

use crate::event::{entries, EventEntry, EventView, PaneEvent, PaneEventKind, SpawnedEvent};
use crate::pane::{env_of, opt_text, texts, EnvMap, PaneConfig, PaneId, Size};
use crate::surface::{OwnedSurfaceSnapshot, SurfaceBackendMetadata};

verus! {

/// A size a pane had, from an offset of its raw output on.
#[derive(Debug, Clone, Copy, PartialEq, Eq, Structural)]
pub struct ReproSizeEvent {
    /// Offset of the raw output at which the size applied.
    pub transcript_offset: u64,
    /// The size.
    pub size: Size,
}

impl ReproSizeEvent {
    /// Creates a size event.
    pub fn new(transcript_offset: u64, size: Size) -> (event: Self)
        ensures
            event == (ReproSizeEvent { transcript_offset, size }),
    {
        ReproSizeEvent { transcript_offset, size }
    }
}

/// Retained raw output.
#[derive(Debug, Clone, PartialEq, Eq)]
pub struct ReproRawTranscript {
    /// Offset of the first retained byte.
    pub start_offset: u64,
    /// The retained bytes.
    pub bytes: Vec<u8>,
}

/// What a repro dump may show.
#[derive(Debug, Clone, Copy, PartialEq, Eq, Structural)]
pub struct ReproDumpOptions {
    /// Keeps program, arguments, working directory and environment readable.
    pub keep_spawn_metadata: bool,
}

impl Default for ReproDumpOptions {
    fn default() -> (options: Self)
        ensures
            !options.keep_spawn_metadata,
    {
        ReproDumpOptions { keep_spawn_metadata: false }
    }
}

/// A redacted record of a pane.
#[derive(Debug)]
pub struct ReproDump {
    /// The pane.
    pub pane_id: PaneId,
    /// How it was spawned, redacted.
    pub spawn_config: PaneConfig,
    /// The surface backend.
    pub backend: SurfaceBackendMetadata,
    /// The sizes it had.
    pub size_history: Vec<ReproSizeEvent>,
    /// The events it reported, redacted.
    pub events: Vec<PaneEvent>,
    /// Its retained raw output, when that is recorded.
    pub raw_transcript: Option<ReproRawTranscript>,
    /// How it looked.
    pub final_surface: OwnedSurfaceSnapshot,
}

/// What stands in place of a redacted text.
pub open spec fn redaction() -> Seq<char> {
    "<redacted>"@
}

/// A path made of a text.
pub uninterp spec fn path_of(text: Seq<char>) -> PathBuf;

/// Makes a path of a text (`PathBuf::from`). The path is named after its text;
/// nothing else is claimed of it.
#[verifier::external_body]
fn make_path(text: &str) -> (path: PathBuf)
    ensures
        path == path_of(text@),
{
    PathBuf::from(text)
}

/// The variables with their values redacted.
pub open spec fn redacted_env(env: Map<Seq<char>, Seq<char>>) -> Map<Seq<char>, Seq<char>> {
    Map::new(|name: Seq<char>| env.dom().contains(name), |name: Seq<char>| redaction())
}

fn redact_env(env: &EnvMap) -> (out: EnvMap)
    ensures
        out@ == redacted_env(env@),
{
    let mut out = EnvMap::new();
    let list = env.entries();
    let mut i: usize = 0;
    assert(list@.take(0).len() == 0);
    assert(out@ =~= redacted_env(env_of(list@.take(0))));
    while i < list.len()
        invariant
            i <= list@.len(),
            out@ == redacted_env(env_of(list@.take(i as int))),
        decreases list@.len() - i,
    {
        proof {
            let longer = list@.take(i + 1);
            assert(longer.drop_last() =~= list@.take(i as int));
            assert(redacted_env(env_of(longer)) =~= redacted_env(
                env_of(list@.take(i as int)),
            ).insert(list@[i as int].0@, redaction()));
        }
        out.insert(list[i].0.as_str(), "<redacted>");
        i = i + 1;
    }
    assert(list@.take(i as int) =~= list@);
    out
}

/// As many redacted texts as there are arguments.
pub open spec fn redacted_args(n: nat) -> Seq<Seq<char>> {
    Seq::new(n, |i: int| redaction())
}

fn redact_args(n: usize) -> (out: Vec<String>)
    ensures
        texts(out@) == redacted_args(n as nat),
{
    let mut out: Vec<String> = Vec::new();
    let mut i: usize = 0;
    while i < n
        invariant
            i <= n,
            out@.len() == i,
            forall|k: int| 0 <= k < i ==> (#[trigger] out@[k])@ == redaction(),
        decreases n - i,
    {
        out.push("<redacted>".to_owned());
        i = i + 1;
    }
    assert(texts(out@) =~= redacted_args(n as nat));
    out
}

/// Whether `shown` is `config` with its spawn metadata redacted.
pub open spec fn is_redacted(shown: PaneConfig, config: PaneConfig) -> bool {
    &&& shown.command.program@ == redaction()
    &&& texts(shown.command.args@) == redacted_args(config.command.args@.len())
    &&& shown.cwd == (match config.cwd {
        Some(_) => Some(path_of(redaction())),
        None => None,
    })
    &&& shown.env@ == redacted_env(config.env@)
    &&& (PaneConfig {
        command: config.command,
        cwd: config.cwd,
        env: config.env,
        ..shown
    }).same(config)
}

/// Redaction tells nothing of what it hides: two configurations that differ in
/// the program, in what the arguments say, in the working directory or in the
/// values of variables look the same once they are redacted.
pub proof fn law_redaction_tells_nothing(
    a: PaneConfig,
    b: PaneConfig,
    shown_a: PaneConfig,
    shown_b: PaneConfig,
)
    requires
        is_redacted(shown_a, a),
        is_redacted(shown_b, b),
        a.command.args@.len() == b.command.args@.len(),
        a.cwd is Some <==> b.cwd is Some,
        a.env@.dom() == b.env@.dom(),
        (PaneConfig { command: b.command, cwd: b.cwd, env: b.env, ..a }).same(b),
    ensures
        shown_a.same(shown_b),
{
    assert(redacted_env(a.env@) =~= redacted_env(b.env@));
}

/// Redacts program, arguments, working directory and the values of environment
/// variables, unless the options keep them.
pub fn redact_spawn_config(config: &PaneConfig, options: ReproDumpOptions) -> (shown: PaneConfig)
    ensures
        options.keep_spawn_metadata ==> shown.same(*config),
        !options.keep_spawn_metadata ==> is_redacted(shown, *config),
{
    let mut shown = config.clone();
    if !options.keep_spawn_metadata {
        shown.command.program = "<redacted>".to_owned();
        shown.command.args = redact_args(config.command.args.len());
        shown.cwd = match &config.cwd {
            Some(_) => Some(make_path("<redacted>")),
            None => None,
        };
        shown.env = redact_env(&config.env);
    }
    shown
}

/// An event with the program it names replaced.
pub open spec fn redacted_entry(entry: EventEntry, program: Seq<char>) -> EventEntry {
    match entry.kind {
        EventView::Spawned { .. } => EventEntry { kind: EventView::Spawned { program }, ..entry },
        _ => entry,
    }
}

/// What a redacted configuration shows: one word for the program, for each
/// argument, for the working directory where there is one and for the value of
/// each variable, and everything else as it is.
pub proof fn law_what_redaction_shows(shown: PaneConfig, config: PaneConfig, name: Seq<char>)
    requires
        is_redacted(shown, config),
    ensures
        shown.command.program@ == "<redacted>"@,
        shown.command.args@.len() == config.command.args@.len(),
        forall|i: int|
            0 <= i < shown.command.args@.len() ==> (#[trigger] shown.command.args@[i])@
                == "<redacted>"@,
        shown.cwd is Some <==> config.cwd is Some,
        shown.env@.dom().contains(name) <==> config.env@.dom().contains(name),
        shown.env@.dom().contains(name) ==> shown.env@[name] == "<redacted>"@,
        shown.id == config.id && shown.size == config.size,
        opt_text(shown.title) == opt_text(config.title),
        opt_text(shown.term_fallback) == opt_text(config.term_fallback),
        shown.transcript == config.transcript && shown.input == config.input,
        shown.output_queue_capacity == config.output_queue_capacity,
{
    assert(texts(shown.command.args@).len() == config.command.args@.len());
    assert forall|i: int| 0 <= i < shown.command.args@.len() implies (
    #[trigger] shown.command.args@[i])@ == "<redacted>"@ by {
        assert(texts(shown.command.args@)[i] == redacted_args(config.command.args@.len())[i]);
    }
}

/// In redacted events only the program that was spawned is another. Their
/// number, their order, their panes and their numbers are as they were.
pub proof fn law_redacted_events(log: Seq<EventEntry>, program: Seq<char>, i: int)
    requires
        0 <= i < log.len(),
    ensures
        redacted_entries(log, program).len() == log.len(),
        ({
            let shown = redacted_entries(log, program)[i];
            &&& shown.pane == log[i].pane && shown.seq == log[i].seq
            &&& log[i].kind is Spawned ==> shown.kind == EventView::Spawned { program }
            &&& !(log[i].kind is Spawned) ==> shown.kind == log[i].kind
        }),
{
}

/// Events with the program they name replaced.
pub open spec fn redacted_entries(log: Seq<EventEntry>, program: Seq<char>) -> Seq<EventEntry> {
    Seq::new(log.len(), |i: int| redacted_entry(log[i], program))
}

/// Copies events with their times, naming `program` in place of the one that
/// was spawned.
pub fn redact_repro_events(events: &[PaneEvent], program: &str) -> (out: Vec<PaneEvent>)
    ensures
        entries(out@) == redacted_entries(entries(events@), program@),
        out@.len() == events@.len(),
        forall|k: int| 0 <= k < events@.len() ==> (#[trigger] out@[k]).at == events@[k].at,
{
    let mut out: Vec<PaneEvent> = Vec::new();
    let mut i: usize = 0;
    while i < events.len()
        invariant
            i <= events@.len(),
            out@.len() == i,
            forall|k: int|
                0 <= k < i ==> (#[trigger] out@[k]).entry() == redacted_entry(
                    events@[k].entry(),
                    program@,
                ) && out@[k].at == events@[k].at,
        decreases events@.len() - i,
    {
        let mut copy = events[i].clone();
        let spawned = match &events[i].kind {
            PaneEventKind::Spawned(_) => true,
            _ => false,
        };
        if spawned {
            copy.kind = PaneEventKind::Spawned(SpawnedEvent { program: program.to_owned() });
        }
        assert(copy.entry() == redacted_entry(events@[i as int].entry(), program@));
        out.push(copy);
        i = i + 1;
    }
    assert(entries(out@) =~= redacted_entries(entries(events@), program@));
    out
}

} // verus!
