//! Decisions around a pane's child process: its command line and environment,
//! how it is terminated, and what its reader thread reports.

use vstd::prelude::*;
use vstd::slice::slice_to_vec;
use vstd::utf8::{decode_utf8, encode_utf8, encode_utf8_decode_utf8};

use crate::bytes::{push_all, same_bytes};
use crate::error::{ErrorView, IoOperation, PaneError, Result};
use crate::pane::{
    env_of, texts, ChildEnvironmentPolicy, KillConfig, PaneConfig,
};
use crate::pty::{io_failure_view, PtyFrame};
use crate::text::{decimal, push_decimal};
use crate::time::{Duration, Instant};

verus! {

// ---------------------------------------------------------------------------
// Environment
// ---------------------------------------------------------------------------

/// What a list of assignments amounts to, the last of a name winning.
pub open spec fn vars_of(entries: Seq<(Vec<u8>, Vec<u8>)>) -> Map<Seq<u8>, Seq<u8>>
    decreases entries.len(),
{
    if entries.len() == 0 {
        Map::empty()
    } else {
        vars_of(entries.drop_last()).insert(entries.last().0@, entries.last().1@)
    }
}

proof fn lemma_vars_remove(entries: Seq<(Vec<u8>, Vec<u8>)>, i: int)
    requires
        0 <= i < entries.len(),
    ensures
        vars_of(entries.remove(i)).remove(entries[i].0@) == vars_of(entries).remove(
            entries[i].0@,
        ),
    decreases entries.len(),
{
    let shorter = entries.drop_last();
    let name = entries[i].0@;
    if i == entries.len() - 1 {
        assert(entries.remove(i) =~= shorter);
        assert(vars_of(shorter).remove(name) =~= vars_of(entries).remove(name));
    } else {
        lemma_vars_remove(shorter, i);
        let rest = entries.remove(i);
        assert(rest.drop_last() =~= shorter.remove(i));
        assert(rest.last() == entries.last());
        let a = vars_of(shorter.remove(i));
        let b = vars_of(shorter);
        assert forall|x: Seq<u8>| x != name implies #[trigger] a.dom().contains(x)
            == b.dom().contains(x) && (a.dom().contains(x) ==> a[x] == b[x]) by {
            assert(a.remove(name).dom().contains(x) == b.remove(name).dom().contains(x));
            if a.dom().contains(x) {
                assert(a.remove(name)[x] == b.remove(name)[x]);
            }
        }
        let (key, value) = (entries.last().0@, entries.last().1@);
        assert(vars_of(rest) == a.insert(key, value));
        assert(vars_of(entries) == b.insert(key, value));
        assert(vars_of(rest).remove(name) =~= vars_of(entries).remove(name));
    }
}

proof fn lemma_vars_absent(entries: Seq<(Vec<u8>, Vec<u8>)>, name: Seq<u8>)
    requires
        forall|k: int| 0 <= k < entries.len() ==> (#[trigger] entries[k]).0@ != name,
    ensures
        !vars_of(entries).dom().contains(name),
    decreases entries.len(),
{
    if entries.len() > 0 {
        let shorter = entries.drop_last();
        assert(entries.last() == entries[entries.len() - 1]);
        assert forall|k: int| 0 <= k < shorter.len() implies (#[trigger] shorter[k]).0@ != name by {
            assert(shorter[k] == entries[k]);
        }
        lemma_vars_absent(shorter, name);
    }
}

proof fn lemma_vars_last(entries: Seq<(Vec<u8>, Vec<u8>)>, i: int)
    requires
        0 <= i < entries.len(),
        forall|k: int| i < k < entries.len() ==> (#[trigger] entries[k]).0@ != entries[i].0@,
    ensures
        vars_of(entries).dom().contains(entries[i].0@),
        vars_of(entries)[entries[i].0@] == entries[i].1@,
    decreases entries.len(),
{
    if i < entries.len() - 1 {
        let shorter = entries.drop_last();
        assert(shorter[i] == entries[i]);
        assert(entries.last() == entries[entries.len() - 1]);
        assert forall|k: int| i < k < shorter.len() implies (#[trigger] shorter[k]).0@
            != shorter[i].0@ by {
            assert(shorter[k] == entries[k]);
        }
        lemma_vars_last(shorter, i);
    }
}

/// Looks a name up in a list of assignments.
pub fn find_var<'a>(entries: &'a [(Vec<u8>, Vec<u8>)], name: &[u8]) -> (value: Option<&'a [u8]>)
    ensures
        match value {
            Some(v) => vars_of(entries@).dom().contains(name@) && v@ == vars_of(entries@)[name@],
            None => !vars_of(entries@).dom().contains(name@),
        },
{
    let mut i: usize = entries.len();
    while i > 0
        invariant
            i <= entries@.len(),
            forall|k: int| i <= k < entries@.len() ==> (#[trigger] entries@[k]).0@ != name@,
        decreases i,
    {
        i = i - 1;
        if same_bytes(entries[i].0.as_slice(), name) {
            proof {
                lemma_vars_last(entries@, i as int);
            }
            return Some(entries[i].1.as_slice());
        }
    }
    proof {
        lemma_vars_absent(entries@, name@);
    }
    None
}

/// Whether no name occurs twice.
pub open spec fn distinct_names(entries: Seq<(Vec<u8>, Vec<u8>)>) -> bool {
    forall|i: int, j: int|
        0 <= i < j < entries.len() ==> (#[trigger] entries[i]).0@ != (#[trigger] entries[j]).0@
}

/// Sets a name in a list of assignments, replacing what it was.
fn set_var(entries: &mut Vec<(Vec<u8>, Vec<u8>)>, name: &[u8], value: &[u8])
    ensures
        vars_of(final(entries)@) == vars_of(old(entries)@).insert(name@, value@),
        distinct_names(old(entries)@) ==> distinct_names(final(entries)@),
{
    let mut i: usize = 0;
    while i < entries.len() && !same_bytes(entries[i].0.as_slice(), name)
        invariant
            i <= entries@.len(),
            forall|k: int| 0 <= k < i ==> (#[trigger] entries@[k]).0@ != name@,
            entries@ == old(entries)@,
        decreases entries@.len() - i,
    {
        i = i + 1;
    }
    let ghost before = entries@;
    if i < entries.len() {
        let _ = entries.remove(i);
        proof {
            if distinct_names(before) {
                assert forall|k: int| 0 <= k < entries@.len() implies (#[trigger] entries@[k]).0@
                    != name@ by {
                    if k >= i {
                        assert(entries@[k] == before[k + 1]);
                        assert(before[i as int].0@ != before[k + 1].0@);
                    }
                }
            }
        }
    }
    let ghost middle = entries@;
    entries.push((slice_to_vec(name), slice_to_vec(value)));
    proof {
        assert(entries@.drop_last() =~= middle);
        let (a, b) = (vars_of(before), vars_of(middle));
        if i < before.len() {
            lemma_vars_remove(before, i as int);
            assert(b.insert(name@, value@) =~= b.remove(name@).insert(name@, value@));
            assert(a.insert(name@, value@) =~= a.remove(name@).insert(name@, value@));
        }
    }
}

/// The name `TERM`.
pub open spec fn term_name() -> Seq<u8> {
    seq![0x54u8, 0x45, 0x52, 0x4d]
}

/// A text map as a byte map: the UTF-8 names and values.
pub open spec fn utf8_vars(entries: Seq<(String, String)>) -> Map<Seq<u8>, Seq<u8>>
    decreases entries.len(),
{
    if entries.len() == 0 {
        Map::empty()
    } else {
        utf8_vars(entries.drop_last()).insert(
            encode_utf8(entries.last().0@),
            encode_utf8(entries.last().1@),
        )
    }
}

/// A map of texts as a map of bytes: names and values in UTF-8.
pub open spec fn utf8_map(m: Map<Seq<char>, Seq<char>>) -> Map<Seq<u8>, Seq<u8>> {
    Map::new(
        |name: Seq<u8>|
            m.dom().contains(decode_utf8(name)) && encode_utf8(decode_utf8(name)) == name,
        |name: Seq<u8>| encode_utf8(m[decode_utf8(name)]),
    )
}

/// A list of assignments amounts to the same as text and as bytes.
pub proof fn lemma_utf8_vars(entries: Seq<(String, String)>)
    ensures
        utf8_vars(entries) == utf8_map(env_of(entries)),
    decreases entries.len(),
{
    if entries.len() == 0 {
        assert(utf8_vars(entries) =~= utf8_map(env_of(entries)));
    } else {
        let shorter = entries.drop_last();
        lemma_utf8_vars(shorter);
        let (key, value) = (entries.last().0@, entries.last().1@);
        encode_utf8_decode_utf8(key);
        let a = utf8_map(env_of(shorter)).insert(encode_utf8(key), encode_utf8(value));
        let b = utf8_map(env_of(shorter).insert(key, value));
        assert forall|name: Seq<u8>| #[trigger] a.dom().contains(name) == b.dom().contains(name)
            && (a.dom().contains(name) ==> a[name] == b[name]) by {
            if decode_utf8(name) == key && encode_utf8(decode_utf8(name)) == name {
                assert(name == encode_utf8(key));
            }
        }
        assert(a =~= b);
    }
}

/// The host variables that an allowlist lets through.
pub open spec fn allowed(host: Map<Seq<u8>, Seq<u8>>, keys: Seq<Seq<char>>) -> Map<
    Seq<u8>,
    Seq<u8>,
> {
    Map::new(
        |name: Seq<u8>|
            host.dom().contains(name) && exists|i: int|
                0 <= i < keys.len() && encode_utf8(#[trigger] keys[i]) == name,
        |name: Seq<u8>| host[name],
    )
}

/// The host variables that a policy lets a child inherit.
pub open spec fn inherited(policy: ChildEnvironmentPolicy, host: Map<Seq<u8>, Seq<u8>>) -> Map<
    Seq<u8>,
    Seq<u8>,
> {
    match policy {
        ChildEnvironmentPolicy::Inherit => host,
        ChildEnvironmentPolicy::Clear => Map::empty(),
        ChildEnvironmentPolicy::Allowlist(keys) => allowed(host, texts(keys@)),
    }
}

/// The environment of a child: what it inherits, a `TERM` where there would be
/// none and a fallback is configured, and over that the configured variables.
pub open spec fn child_env(
    policy: ChildEnvironmentPolicy,
    term: Option<Seq<char>>,
    configured: Map<Seq<u8>, Seq<u8>>,
    host: Map<Seq<u8>, Seq<u8>>,
) -> Map<Seq<u8>, Seq<u8>> {
    let base = inherited(policy, host);
    let with_term = match term {
        Some(t) if !base.dom().contains(term_name()) => base.insert(term_name(), encode_utf8(t)),
        _ => base,
    };
    with_term.union_prefer_right(configured)
}

/// What a child sees of a variable: what is configured for it comes first; then
/// what it inherits, which is everything, nothing, or what is on the list; and
/// `TERM` falls back to the configured one where the child would have none.
pub proof fn law_child_variables(
    policy: ChildEnvironmentPolicy,
    term: Option<Seq<char>>,
    configured: Map<Seq<u8>, Seq<u8>>,
    host: Map<Seq<u8>, Seq<u8>>,
    name: Seq<u8>,
)
    ensures
        ({
            let env = child_env(policy, term, configured, host);
            let passed = host.dom().contains(name) && match policy {
                ChildEnvironmentPolicy::Inherit => true,
                ChildEnvironmentPolicy::Clear => false,
                ChildEnvironmentPolicy::Allowlist(keys) => exists|i: int|
                    0 <= i < keys@.len() && encode_utf8((#[trigger] keys@[i])@) == name,
            };
            let term_name = seq![0x54u8, 0x45, 0x52, 0x4d];
            if configured.dom().contains(name) {
                env.dom().contains(name) && env[name] == configured[name]
            } else if passed {
                env.dom().contains(name) && env[name] == host[name]
            } else if name == term_name && term is Some {
                env.dom().contains(name) && env[name] == encode_utf8(term->0)
            } else {
                !env.dom().contains(name)
            }
        }),
{
    assert(term_name() =~= seq![0x54u8, 0x45, 0x52, 0x4d]);
    if let ChildEnvironmentPolicy::Allowlist(keys) = policy {
        let list = texts(keys@);
        assert forall|i: int| 0 <= i < keys@.len() implies list[i] == (#[trigger] keys@[i])@ by {}
        if exists|i: int| 0 <= i < keys@.len() && encode_utf8((#[trigger] keys@[i])@) == name {
            let i = choose|i: int|
                0 <= i < keys@.len() && encode_utf8((#[trigger] keys@[i])@) == name;
            assert(encode_utf8(list[i]) == name);
        }
        if exists|i: int| 0 <= i < list.len() && encode_utf8(#[trigger] list[i]) == name {
            let i = choose|i: int| 0 <= i < list.len() && encode_utf8(#[trigger] list[i]) == name;
            assert(encode_utf8(keys@[i]@) == name);
        }
    }
}

proof fn lemma_utf8_vars_step(entries: Seq<(String, String)>, n: int)
    requires
        0 <= n < entries.len(),
    ensures
        utf8_vars(entries.take(n + 1)) == utf8_vars(entries.take(n)).insert(
            encode_utf8(entries[n].0@),
            encode_utf8(entries[n].1@),
        ),
{
    assert(entries.take(n + 1).drop_last() =~= entries.take(n));
    assert(entries.take(n + 1).last() == entries[n]);
}

fn inherited_vars(policy: &ChildEnvironmentPolicy, host: &[(Vec<u8>, Vec<u8>)]) -> (out: Vec<
    (Vec<u8>, Vec<u8>),
>)
    ensures
        vars_of(out@) == inherited(*policy, vars_of(host@)),
        distinct_names(out@),
{
    let mut out: Vec<(Vec<u8>, Vec<u8>)> = Vec::new();
    match policy {
        ChildEnvironmentPolicy::Inherit => {
            let mut i: usize = 0;
            while i < host.len()
                invariant
                    i <= host@.len(),
                    vars_of(out@) == vars_of(host@.take(i as int)),
                    distinct_names(out@),
                decreases host@.len() - i,
            {
                set_var(&mut out, host[i].0.as_slice(), host[i].1.as_slice());
                proof {
                    assert(host@.take(i + 1).drop_last() =~= host@.take(i as int));
                }
                i = i + 1;
            }
            assert(host@.take(i as int) =~= host@);
        },
        ChildEnvironmentPolicy::Clear => {},
        ChildEnvironmentPolicy::Allowlist(keys) => {
            let ghost all = vars_of(host@);
            let ghost names = texts(keys@);
            let mut i: usize = 0;
            assert(vars_of(out@) =~= allowed(all, names.take(0)));
            while i < keys.len()
                invariant
                    i <= keys@.len(),
                    all == vars_of(host@),
                    names == texts(keys@),
                    vars_of(out@) == allowed(all, names.take(i as int)),
                    distinct_names(out@),
                decreases keys@.len() - i,
            {
                let key = keys[i].as_str().as_bytes();
                let ghost before = vars_of(out@);
                let ghost shown = names.take(i as int);
                let ghost longer = names.take(i + 1);
                assert(key@ == encode_utf8(names[i as int]));
                assert(longer[i as int] == names[i as int]);
                match find_var(host, key) {
                    Some(value) => {
                        set_var(&mut out, key, value);
                        proof {
                            assert forall|name: Seq<u8>|
                                allowed(all, longer).dom().contains(name) == before.insert(
                                    key@,
                                    value@,
                                ).dom().contains(name) by {
                                lemma_allowed_step(all, names, i as int, name);
                            }
                            assert(allowed(all, longer) =~= before.insert(key@, value@));
                        }
                    },
                    None => {
                        proof {
                            assert forall|name: Seq<u8>|
                                allowed(all, longer).dom().contains(name)
                                    == before.dom().contains(name) by {
                                lemma_allowed_step(all, names, i as int, name);
                            }
                            assert(allowed(all, longer) =~= before);
                        }
                    },
                }
                i = i + 1;
            }
            assert(names.take(i as int) =~= names);
        },
    }
    out
}

proof fn lemma_allowed_step(
    all: Map<Seq<u8>, Seq<u8>>,
    names: Seq<Seq<char>>,
    n: int,
    name: Seq<u8>,
)
    requires
        0 <= n < names.len(),
    ensures
        allowed(all, names.take(n + 1)).dom().contains(name) <==> (allowed(
            all,
            names.take(n),
        ).dom().contains(name) || (all.dom().contains(name) && name == encode_utf8(names[n]))),
{
    let shorter = names.take(n);
    let longer = names.take(n + 1);
    assert(longer[n] == names[n]);
    if allowed(all, longer).dom().contains(name) {
        let i = choose|i: int|
            0 <= i < longer.len() && encode_utf8(#[trigger] longer[i]) == name;
        if i < n {
            assert(shorter[i] == longer[i]);
        }
    }
    if allowed(all, shorter).dom().contains(name) {
        let i = choose|i: int|
            0 <= i < shorter.len() && encode_utf8(#[trigger] shorter[i]) == name;
        assert(longer[i] == shorter[i]);
    }
}

/// Returns the environment of a child, given the host's variables.
pub fn effective_child_environment(config: &PaneConfig, host: &[(Vec<u8>, Vec<u8>)]) -> (out: Vec<
    (Vec<u8>, Vec<u8>),
>)
    ensures
        distinct_names(out@),
        vars_of(out@) == child_env(
            config.env_policy,
            crate::pane::opt_text(config.term_fallback),
            utf8_map(config.env@),
            vars_of(host@),
        ),
{
    let mut out = inherited_vars(&config.env_policy, host);
    let ghost base = vars_of(out@);
    let term: Vec<u8> = vec![0x54, 0x45, 0x52, 0x4d];
    assert(term@ =~= term_name());
    if let Some(fallback) = &config.term_fallback {
        if find_var(out.as_slice(), term.as_slice()).is_none() {
            set_var(&mut out, term.as_slice(), fallback.as_str().as_bytes());
        }
    }
    let ghost with_term = vars_of(out@);
    let entries = config.env.entries();
    proof {
        lemma_utf8_vars(entries@);
    }
    let mut i: usize = 0;
    assert(with_term.union_prefer_right(utf8_vars(entries@.take(0))) =~= with_term);
    while i < entries.len()
        invariant
            i <= entries@.len(),
            distinct_names(out@),
            vars_of(out@) == with_term.union_prefer_right(utf8_vars(entries@.take(i as int))),
        decreases entries@.len() - i,
    {
        let ghost shown = utf8_vars(entries@.take(i as int));
        set_var(&mut out, entries[i].0.as_str().as_bytes(), entries[i].1.as_str().as_bytes());
        proof {
            lemma_utf8_vars_step(entries@, i as int);
            let (name, value) = (
                encode_utf8(entries@[i as int].0@),
                encode_utf8(entries@[i as int].1@),
            );
            assert(with_term.union_prefer_right(shown).insert(name, value)
                =~= with_term.union_prefer_right(shown.insert(name, value)));
        }
        i = i + 1;
    }
    assert(entries@.take(i as int) =~= entries@);
    out
}

/// The command-line argument `name=value`.
pub open spec fn assignment(name: Seq<u8>, value: Seq<u8>) -> Seq<u8> {
    name.push(0x3d) + value
}

/// An assignment is the name, an equals sign and the value, all as they are.
pub proof fn law_assignments(name: Seq<u8>, value: Seq<u8>)
    ensures
        ({
            let arg = assignment(name, value);
            &&& arg.len() == name.len() + 1 + value.len()
            &&& arg.take(name.len() as int) == name
            &&& arg[name.len() as int] == 0x3d
            &&& arg.skip(name.len() as int + 1) == value
        }),
{
}

/// Returns the command-line argument `name=value`.
pub fn env_assignment(name: &[u8], value: &[u8]) -> (out: Vec<u8>)
    ensures
        out@ == assignment(name@, value@),
{
    let mut out = slice_to_vec(name);
    out.push(0x3d);
    push_all(&mut out, value);
    out
}

/// A command line and what to do with the environment it runs in.
#[derive(Debug, PartialEq, Eq)]
pub struct CommandPlan {
    /// The program to run.
    pub program: Vec<u8>,
    /// Its arguments.
    pub args: Vec<Vec<u8>>,
    /// Whether the environment is cleared first.
    pub clear_env: bool,
    /// Variables that are set, in order.
    pub set_env: Vec<(Vec<u8>, Vec<u8>)>,
}

/// The bytes of a list of texts.
pub open spec fn utf8_list(list: Seq<String>) -> Seq<Seq<u8>> {
    list.map_values(|s: String| encode_utf8(s@))
}

/// The bytes of a list of byte strings.
pub open spec fn byte_list(list: Seq<Vec<u8>>) -> Seq<Seq<u8>> {
    list.map_values(|s: Vec<u8>| s@)
}

/// Assignments as arguments.
pub open spec fn assignments(entries: Seq<(Vec<u8>, Vec<u8>)>) -> Seq<Seq<u8>> {
    entries.map_values(|e: (Vec<u8>, Vec<u8>)| assignment(e.0@, e.1@))
}

/// Whether a child's environment is built by a wrapper command.
pub open spec fn wraps_env(config: PaneConfig) -> bool {
    !(config.env_policy is Inherit)
}

/// Tells whether a child's environment is built by a wrapper command.
pub fn should_wrap_command_env(config: &PaneConfig) -> (b: bool)
    ensures
        b == wraps_env(*config),
{
    match &config.env_policy {
        ChildEnvironmentPolicy::Inherit => false,
        _ => true,
    }
}

impl CommandPlan {
    /// Whether the plan runs the configured command directly in the host's
    /// environment with the configured variables set.
    pub open spec fn runs_directly(self, config: PaneConfig, host: Map<Seq<u8>, Seq<u8>>) -> bool {
        &&& self.program@ == encode_utf8(config.command.program@)
        &&& byte_list(self.args@) == utf8_list(config.command.args@)
        &&& !self.clear_env
        &&& host.union_prefer_right(vars_of(self.set_env@)) == child_env(
            ChildEnvironmentPolicy::Inherit,
            crate::pane::opt_text(config.term_fallback),
            utf8_map(config.env@),
            host,
        )
    }

    /// Whether the plan runs `env -i` with exactly the child's variables and
    /// then the configured command.
    pub open spec fn runs_wrapped(self, config: PaneConfig, host: Map<Seq<u8>, Seq<u8>>) -> bool {
        &&& self.program@ == encode_utf8("/usr/bin/env"@)
        &&& self.clear_env
        &&& self.set_env@.len() == 0
        &&& exists|vars: Seq<(Vec<u8>, Vec<u8>)>|
            {
                &&& distinct_names(vars)
                &&& vars_of(vars) == child_env(
                    config.env_policy,
                    crate::pane::opt_text(config.term_fallback),
                    utf8_map(config.env@),
                    host,
                )
                &&& byte_list(self.args@) == seq![encode_utf8("-i"@)] + #[trigger] assignments(
                    vars,
                ) + seq![encode_utf8(config.command.program@)] + utf8_list(
                    config.command.args@,
                )
            }
    }
}

/// A child that inherits its environment runs its command itself; any other is
/// run by a command that builds its environment.
pub proof fn law_whose_environment_is_built(config: PaneConfig)
    ensures
        config.env_policy is Inherit ==> !wraps_env(config),
        config.env_policy is Clear || config.env_policy is Allowlist ==> wraps_env(config),
{
}

/// A command that is run directly keeps its program and its arguments, one by
/// one, and no variable of the host is taken away. What is set for it are the
/// configured variables, over the host's.
pub proof fn law_direct_commands(
    plan: CommandPlan,
    config: PaneConfig,
    host: Map<Seq<u8>, Seq<u8>>,
    name: Seq<u8>,
)
    requires
        plan.runs_directly(config, host),
    ensures
        plan.program@ == encode_utf8(config.command.program@),
        plan.args@.len() == config.command.args@.len(),
        forall|i: int|
            0 <= i < plan.args@.len() ==> (#[trigger] plan.args@[i])@ == encode_utf8(
                config.command.args@[i]@,
            ),
        !plan.clear_env,
        ({
            let seen = host.union_prefer_right(vars_of(plan.set_env@));
            let set = utf8_map(config.env@);
            &&& set.dom().contains(name) ==> seen.dom().contains(name) && seen[name] == set[name]
            &&& !set.dom().contains(name) && host.dom().contains(name) ==> seen.dom().contains(name)
                && seen[name] == host[name]
        }),
{
    assert(byte_list(plan.args@).len() == utf8_list(config.command.args@).len());
    assert forall|i: int| 0 <= i < plan.args@.len() implies (#[trigger] plan.args@[i])@
        == encode_utf8(config.command.args@[i]@) by {
        assert(byte_list(plan.args@)[i] == utf8_list(config.command.args@)[i]);
    }
    law_child_variables(
        ChildEnvironmentPolicy::Inherit,
        crate::pane::opt_text(config.term_fallback),
        utf8_map(config.env@),
        host,
        name,
    );
}

/// A command that is run in an environment of its own is the last thing on the
/// command line that builds it, with its arguments behind it. Before it stand
/// an option that starts from nothing and one assignment for each variable of
/// the child, and nothing else.
pub proof fn law_wrapped_commands(
    plan: CommandPlan,
    config: PaneConfig,
    host: Map<Seq<u8>, Seq<u8>>,
    name: Seq<u8>,
)
    requires
        plan.runs_wrapped(config, host),
    ensures
        plan.program@ == encode_utf8("/usr/bin/env"@),
        plan.clear_env && plan.set_env@.len() == 0,
        ({
            let args = plan.args@;
            let own = config.command.args@;
            let n = args.len() - own.len() - 1;
            let env = child_env(
                config.env_policy,
                crate::pane::opt_text(config.term_fallback),
                utf8_map(config.env@),
                host,
            );
            &&& n >= 1
            &&& args[0]@ == encode_utf8("-i"@)
            &&& args[n]@ == encode_utf8(config.command.program@)
            &&& forall|i: int|
                0 <= i < own.len() ==> (#[trigger] args[n + 1 + i])@ == encode_utf8(own[i]@)
            &&& env.dom().contains(name) ==> exists|i: int|
                1 <= i < n && (#[trigger] args[i])@ == assignment(name, env[name])
            &&& forall|i: int|
                1 <= i < n ==> exists|other: Seq<u8>|
                    env.dom().contains(other) && (#[trigger] args[i])@ == #[trigger] assignment(
                        other,
                        env[other],
                    )
        }),
{
    let args = plan.args@;
    let own = config.command.args@;
    let env = child_env(
        config.env_policy,
        crate::pane::opt_text(config.term_fallback),
        utf8_map(config.env@),
        host,
    );
    let vars = choose|vars: Seq<(Vec<u8>, Vec<u8>)>|
        {
            &&& distinct_names(vars)
            &&& vars_of(vars) == env
            &&& byte_list(args) == seq![encode_utf8("-i"@)] + #[trigger] assignments(vars) + seq![
                encode_utf8(config.command.program@),
            ] + utf8_list(own)
        };
    let line = seq![encode_utf8("-i"@)] + assignments(vars) + seq![
        encode_utf8(config.command.program@),
    ] + utf8_list(own);
    let n = args.len() - own.len() - 1;
    assert(byte_list(args).len() == line.len());
    assert(n == vars.len() + 1);
    assert forall|i: int| 0 <= i < args.len() implies (#[trigger] args[i])@ == line[i] by {
        assert(byte_list(args)[i] == args[i]@);
    }
    assert forall|i: int| 0 <= i < own.len() implies (#[trigger] args[n + 1 + i])@ == encode_utf8(
        own[i]@,
    ) by {
        assert(line[n + 1 + i] == utf8_list(own)[i]);
    }
    if env.dom().contains(name) {
        lemma_vars_are_listed(vars, name);
        let k = choose|k: int|
            0 <= k < vars.len() && (#[trigger] vars[k]).0@ == name && vars[k].1@ == vars_of(
                vars,
            )[name];
        assert(args[k + 1]@ == line[k + 1] && line[k + 1] == assignments(vars)[k]);
    }
    assert forall|i: int| 1 <= i < n implies exists|other: Seq<u8>|
        env.dom().contains(other) && (#[trigger] args[i])@ == #[trigger] assignment(
            other,
            env[other],
        ) by {
        let e = vars[i - 1];
        lemma_listed_vars(vars, i - 1);
        assert(args[i]@ == line[i] && line[i] == assignments(vars)[i - 1]);
        assert(args[i]@ == assignment(e.0@, env[e.0@]));
    }
}

proof fn lemma_vars_are_listed(vars: Seq<(Vec<u8>, Vec<u8>)>, name: Seq<u8>)
    requires
        vars_of(vars).dom().contains(name),
    ensures
        exists|k: int|
            0 <= k < vars.len() && (#[trigger] vars[k]).0@ == name && vars[k].1@ == vars_of(
                vars,
            )[name],
    decreases vars.len(),
{
    if vars.len() > 0 {
        let last = vars.len() - 1;
        if vars[last].0@ == name {
            assert(vars[last].1@ == vars_of(vars)[name]);
        } else {
            let rest = vars.drop_last();
            lemma_vars_are_listed(rest, name);
            let k = choose|k: int|
                0 <= k < rest.len() && (#[trigger] rest[k]).0@ == name && rest[k].1@ == vars_of(
                    rest,
                )[name];
            assert(vars[k] == rest[k]);
        }
    }
}

proof fn lemma_listed_vars(vars: Seq<(Vec<u8>, Vec<u8>)>, k: int)
    requires
        distinct_names(vars),
        0 <= k < vars.len(),
    ensures
        vars_of(vars).dom().contains(vars[k].0@),
        vars_of(vars)[vars[k].0@] == vars[k].1@,
    decreases vars.len(),
{
    let last = vars.len() - 1;
    if k < last {
        let rest = vars.drop_last();
        assert(rest[k] == vars[k]);
        assert(distinct_names(rest)) by {
            assert forall|i: int, j: int| 0 <= i < j < rest.len() implies (
            #[trigger] rest[i]).0@ != (#[trigger] rest[j]).0@ by {
                assert(vars[i].0@ != vars[j].0@);
            }
        }
        lemma_listed_vars(rest, k);
        assert(vars[k].0@ != vars[last].0@);
    }
}

fn push_args(out: &mut Vec<Vec<u8>>, args: &Vec<String>)
    ensures
        byte_list(final(out)@) == byte_list(old(out)@) + utf8_list(args@),
{
    let mut i: usize = 0;
    assert(utf8_list(args@.take(0)) =~= seq![]);
    assert(byte_list(out@) + Seq::<Seq<u8>>::empty() =~= byte_list(out@));
    while i < args.len()
        invariant
            i <= args@.len(),
            byte_list(out@) == byte_list(old(out)@) + utf8_list(args@.take(i as int)),
        decreases args@.len() - i,
    {
        let ghost before = byte_list(out@);
        out.push(slice_to_vec(args[i].as_str().as_bytes()));
        proof {
            let new = encode_utf8(args@[i as int]@);
            assert(byte_list(out@) =~= before.push(new));
            assert(utf8_list(args@.take(i + 1)) =~= utf8_list(args@.take(i as int)).push(new));
            assert(byte_list(out@) =~= byte_list(old(out)@) + utf8_list(args@.take(i + 1)));
        }
        i = i + 1;
    }
    assert(args@.take(i as int) =~= args@);
}

fn push_assignments(out: &mut Vec<Vec<u8>>, vars: &Vec<(Vec<u8>, Vec<u8>)>)
    ensures
        byte_list(final(out)@) == byte_list(old(out)@) + assignments(vars@),
{
    let mut i: usize = 0;
    assert(assignments(vars@.take(0)) =~= seq![]);
    assert(byte_list(out@) + Seq::<Seq<u8>>::empty() =~= byte_list(out@));
    while i < vars.len()
        invariant
            i <= vars@.len(),
            byte_list(out@) == byte_list(old(out)@) + assignments(vars@.take(i as int)),
        decreases vars@.len() - i,
    {
        let ghost before = byte_list(out@);
        out.push(env_assignment(vars[i].0.as_slice(), vars[i].1.as_slice()));
        proof {
            let new = assignment(vars@[i as int].0@, vars@[i as int].1@);
            assert(byte_list(out@) =~= before.push(new));
            assert(assignments(vars@.take(i + 1)) =~= assignments(vars@.take(i as int)).push(new));
            assert(byte_list(out@) =~= byte_list(old(out)@) + assignments(vars@.take(i + 1)));
        }
        i = i + 1;
    }
    assert(vars@.take(i as int) =~= vars@);
}

/// Plans the command line of a pane's child, given the host's variables.
///
/// A child that inherits everything runs directly. Any other policy goes
/// through `/usr/bin/env -i`, so that nothing else reaches the child.
pub fn build_command(config: &PaneConfig, host: &[(Vec<u8>, Vec<u8>)]) -> (plan: CommandPlan)
    ensures
        wraps_env(*config) ==> plan.runs_wrapped(*config, vars_of(host@)),
        !wraps_env(*config) ==> plan.runs_directly(*config, vars_of(host@)),
{
    if should_wrap_command_env(config) {
        return build_unix_env_wrapper_command(config, host);
    }
    let mut args: Vec<Vec<u8>> = Vec::new();
    push_args(&mut args, &config.command.args);
    let mut set_env: Vec<(Vec<u8>, Vec<u8>)> = Vec::new();
    let ghost base = vars_of(host@);
    let term: Vec<u8> = vec![0x54, 0x45, 0x52, 0x4d];
    assert(term@ =~= term_name());
    if let Some(fallback) = &config.term_fallback {
        if find_var(host, term.as_slice()).is_none() {
            set_var(&mut set_env, term.as_slice(), fallback.as_str().as_bytes());
        }
    }
    let ghost extra = vars_of(set_env@);
    let ghost with_term = base.union_prefer_right(extra);
    let entries = config.env.entries();
    proof {
        lemma_utf8_vars(entries@);
    }
    let mut i: usize = 0;
    assert(extra.union_prefer_right(utf8_vars(entries@.take(0))) =~= extra);
    while i < entries.len()
        invariant
            i <= entries@.len(),
            vars_of(set_env@) == extra.union_prefer_right(utf8_vars(entries@.take(i as int))),
        decreases entries@.len() - i,
    {
        let ghost shown = utf8_vars(entries@.take(i as int));
        set_var(&mut set_env, entries[i].0.as_str().as_bytes(), entries[i].1.as_str().as_bytes());
        proof {
            lemma_utf8_vars_step(entries@, i as int);
            let (name, value) = (
                encode_utf8(entries@[i as int].0@),
                encode_utf8(entries@[i as int].1@),
            );
            assert(extra.union_prefer_right(shown).insert(name, value)
                =~= extra.union_prefer_right(shown.insert(name, value)));
        }
        i = i + 1;
    }
    assert(entries@.take(i as int) =~= entries@);
    let plan = CommandPlan {
        program: slice_to_vec(config.program().as_bytes()),
        args,
        clear_env: false,
        set_env,
    };
    proof {
        assert(byte_list(plan.args@) =~= utf8_list(config.command.args@));
        let configured = utf8_map(config.env@);
        assert(base.union_prefer_right(extra.union_prefer_right(configured))
            =~= with_term.union_prefer_right(configured));
        match &config.term_fallback {
            Some(t) if !base.dom().contains(term_name()) => {
                assert(with_term =~= base.insert(term_name(), encode_utf8(t@)));
            },
            _ => {
                assert(with_term =~= base);
            },
        }
    }
    plan
}

fn build_unix_env_wrapper_command(config: &PaneConfig, host: &[(Vec<u8>, Vec<u8>)]) -> (plan:
    CommandPlan)
    ensures
        plan.runs_wrapped(*config, vars_of(host@)),
{
    let vars = effective_child_environment(config, host);
    let mut args: Vec<Vec<u8>> = Vec::new();
    args.push(slice_to_vec("-i".as_bytes()));
    let ghost flag = byte_list(args@);
    assert(flag =~= seq![encode_utf8("-i"@)]);
    push_assignments(&mut args, &vars);
    let ghost named = byte_list(args@);
    args.push(slice_to_vec(config.program().as_bytes()));
    assert(byte_list(args@) =~= named + seq![encode_utf8(config.command.program@)]);
    push_args(&mut args, &config.command.args);
    let plan = CommandPlan {
        program: slice_to_vec("/usr/bin/env".as_bytes()),
        args,
        clear_env: true,
        set_env: Vec::new(),
    };
    proof {
        assert(byte_list(plan.args@) == seq![encode_utf8("-i"@)] + assignments(vars@) + seq![
            encode_utf8(config.command.program@),
        ] + utf8_list(config.command.args@));
    }
    plan
}

// ---------------------------------------------------------------------------
// Termination
// ---------------------------------------------------------------------------

/// Whom a signal goes to.
#[derive(Debug, Clone, Copy, PartialEq, Eq, Structural)]
pub enum UnixKillTarget {
    /// A single process.
    Process(i32),
    /// A process group.
    ProcessGroup(i32),
}

impl UnixKillTarget {
    /// The number that the target has as an argument of `kill(2)`.
    pub fn signal_pid(self) -> (pid: i32)
        requires
            self matches UnixKillTarget::ProcessGroup(group) ==> group >= 0,
        ensures
            pid == match self {
                UnixKillTarget::Process(p) => p as int,
                UnixKillTarget::ProcessGroup(group) => -group,
            },
    {
        match self {
            UnixKillTarget::Process(pid) => pid,
            UnixKillTarget::ProcessGroup(group) => -group,
        }
    }
}

/// A signal that ends a process.
#[derive(Debug, Clone, Copy, PartialEq, Eq, Structural)]
pub enum KillSignal {
    /// SIGTERM.
    Term,
    /// SIGKILL.
    Kill,
}

/// What `kill(2)` came to.
#[derive(Debug, PartialEq, Eq)]
pub enum KillReply {
    /// The call succeeded.
    Success,
    /// No such process or group.
    NoSuchProcess {
        /// Human-readable description.
        message: String,
    },
    /// The process exists but may not be signalled.
    NotPermitted {
        /// Human-readable description.
        message: String,
    },
    /// Anything else.
    Failed {
        /// Human-readable description.
        message: String,
    },
}

/// Tells from the reply to a signal whether it was delivered.
///
/// # Errors
///
/// Fails when the signal could not be sent to an existing target.
pub fn signal_delivered(reply: KillReply) -> (r: Result<bool>)
    ensures
        match reply {
            KillReply::Success => r == Ok::<bool, PaneError>(true),
            KillReply::NoSuchProcess { message } => r == Ok::<bool, PaneError>(false),
            KillReply::NotPermitted { message } => r matches Err(e) && e@ == io_failure_view(
                IoOperation::Kill,
                message@,
            ),
            KillReply::Failed { message } => r matches Err(e) && e@ == io_failure_view(
                IoOperation::Kill,
                message@,
            ),
        },
{
    match reply {
        KillReply::Success => Ok(true),
        KillReply::NoSuchProcess { message: _ } => Ok(false),
        KillReply::NotPermitted { message } => Err(
            PaneError::Io { operation: IoOperation::Kill, message },
        ),
        KillReply::Failed { message } => Err(
            PaneError::Io { operation: IoOperation::Kill, message },
        ),
    }
}

/// Tells from the reply to a probe whether the target exists. One that may not
/// be signalled exists.
///
/// # Errors
///
/// Fails when the reply says neither.
pub fn target_exists(reply: KillReply) -> (r: Result<bool>)
    ensures
        match reply {
            KillReply::Success => r == Ok::<bool, PaneError>(true),
            KillReply::NotPermitted { message } => r == Ok::<bool, PaneError>(true),
            KillReply::NoSuchProcess { message } => r == Ok::<bool, PaneError>(false),
            KillReply::Failed { message } => r matches Err(e) && e@ == io_failure_view(
                IoOperation::Kill,
                message@,
            ),
        },
{
    match reply {
        KillReply::Success => Ok(true),
        KillReply::NotPermitted { message: _ } => Ok(true),
        KillReply::NoSuchProcess { message: _ } => Ok(false),
        KillReply::Failed { message } => Err(
            PaneError::Io { operation: IoOperation::Kill, message },
        ),
    }
}

/// Whether a target needs no further signal: an observed exit settles a single
/// process, absence settles either kind.
pub open spec fn needs_no_kill(target: UnixKillTarget, exited: bool, exists_now: bool) -> bool {
    (target is Process && exited) || !exists_now
}

/// Tells whether a target needs no further signal.
pub fn should_skip_unix_sigkill(target: UnixKillTarget, exited: bool, exists_now: bool) -> (b: bool)
    ensures
        b == needs_no_kill(target, exited, exists_now),
{
    match target {
        UnixKillTarget::Process(_) => exited || !exists_now,
        UnixKillTarget::ProcessGroup(_) => !exists_now,
    }
}

/// Converts a process identifier.
///
/// # Errors
///
/// Fails when it exceeds the platform's range.
pub fn unix_pid(pid: u32) -> (r: Result<i32>)
    ensures
        match r {
            Ok(p) => p == pid,
            Err(e) => pid > i32::MAX && e@ == (ErrorView::Io {
                operation: IoOperation::Kill,
                message: "child pid "@ + decimal(pid as nat)
                    + " exceeds the platform pid_t range"@,
            }),
        },
{
    if pid <= 0x7fff_ffff {
        return Ok(pid as i32);
    }
    let mut message = "child pid ".to_owned();
    push_decimal(&mut message, pid as u64);
    message.append(" exceeds the platform pid_t range");
    Err(PaneError::Io { operation: IoOperation::Kill, message })
}

/// Where a termination stands: what was asked for last.
#[derive(Debug, Clone, Copy, PartialEq, Eq, Structural)]
pub enum KillStage {
    /// Nothing asked yet.
    Start,
    /// Asked whether the child itself exists.
    ProbeChild,
    /// Asked whether the child's group exists.
    ProbeGroup,
    /// Asked whether the child exists because its group does not.
    ProbeFallback,
    /// Sent SIGTERM.
    SentTerm,
    /// Asked whether the target survived, before the grace period.
    ProbeBeforeGrace,
    /// Asked whether the target survived, within the grace period.
    ProbeInGrace,
    /// Sleeping within the grace period.
    Sleeping,
    /// Asked whether the target survived the grace period.
    ProbeAfterGrace,
    /// Sent SIGKILL.
    SentKill,
    /// Over.
    Finished,
}

/// What a termination asks for next.
#[derive(Debug, Clone, Copy, PartialEq, Eq, Structural)]
pub enum KillRequest {
    /// Find out whether the target exists.
    Probe(UnixKillTarget),
    /// Send the target a signal.
    Signal(UnixKillTarget, KillSignal),
    /// Sleep.
    Sleep(Duration),
    /// Nothing: the termination is over.
    Finished,
}

/// Longest sleep between two looks at a dying child, in nanoseconds.
pub const UNIX_KILL_GRACE_POLL_NANOS: u128 = 10_000_000;

/// The termination of a child: SIGTERM, a grace period, SIGKILL.
#[derive(Debug, Clone, Copy, PartialEq, Eq, Structural)]
pub struct Termination {
    /// The child.
    pub pid: i32,
    /// Whether its group goes with it.
    pub kill_descendants: bool,
    /// How long SIGTERM may take.
    pub grace: Duration,
    /// Whom the signals go to, once known.
    pub target: UnixKillTarget,
    /// End of the grace period, once it has begun.
    pub deadline: Instant,
    /// Where it stands.
    pub stage: KillStage,
}

impl Termination {
    /// Asks whether the target is still there, unless its exit was observed.
    pub open spec fn look(self, exited: bool, stage: KillStage) -> (Termination, KillRequest) {
        if self.target is Process && exited {
            (Termination { stage: KillStage::Finished, ..self }, KillRequest::Finished)
        } else {
            (Termination { stage, ..self }, KillRequest::Probe(self.target))
        }
    }

    /// Sends SIGTERM to the target.
    pub open spec fn terminate(self, target: UnixKillTarget) -> (Termination, KillRequest) {
        (
            Termination { target, stage: KillStage::SentTerm, ..self },
            KillRequest::Signal(target, KillSignal::Term),
        )
    }

    /// Ends the termination.
    pub open spec fn over(self) -> (Termination, KillRequest) {
        (Termination { stage: KillStage::Finished, ..self }, KillRequest::Finished)
    }

    /// Sends SIGKILL to the target.
    pub open spec fn force(self) -> (Termination, KillRequest) {
        (
            Termination { stage: KillStage::SentKill, ..self },
            KillRequest::Signal(self.target, KillSignal::Kill),
        )
    }

    /// The next state and request, given whether the last request found the
    /// target (a probe) or reached it (a signal), whether the child's exit was
    /// observed, and the time.
    pub open spec fn next(self, found: bool, exited: bool, now: Instant) -> (
        Termination,
        KillRequest,
    ) {
        let child = UnixKillTarget::Process(self.pid);
        let group = UnixKillTarget::ProcessGroup(self.pid);
        match self.stage {
            KillStage::Start => if self.kill_descendants {
                (Termination { stage: KillStage::ProbeGroup, ..self }, KillRequest::Probe(group))
            } else if exited {
                self.over()
            } else {
                (Termination { stage: KillStage::ProbeChild, ..self }, KillRequest::Probe(child))
            },
            KillStage::ProbeChild => if found {
                self.terminate(child)
            } else {
                self.over()
            },
            KillStage::ProbeGroup => if found {
                self.terminate(group)
            } else if exited {
                self.over()
            } else {
                (
                    Termination { stage: KillStage::ProbeFallback, ..self },
                    KillRequest::Probe(child),
                )
            },
            KillStage::ProbeFallback => if found {
                self.terminate(child)
            } else {
                self.over()
            },
            KillStage::SentTerm => if found {
                self.look(exited, KillStage::ProbeBeforeGrace)
            } else {
                self.over()
            },
            KillStage::ProbeBeforeGrace => if !found {
                self.over()
            } else if self.grace.nanos == 0 {
                self.force()
            } else {
                let end = if now.nanos + self.grace.nanos > u128::MAX {
                    u128::MAX
                } else {
                    (now.nanos + self.grace.nanos) as u128
                };
                Termination { deadline: Instant { nanos: end }, ..self }.look(
                    exited,
                    KillStage::ProbeInGrace,
                )
            },
            KillStage::ProbeInGrace => if !found {
                self.over()
            } else if now.nanos >= self.deadline.nanos {
                self.look(exited, KillStage::ProbeAfterGrace)
            } else {
                let left = self.deadline.nanos - now.nanos;
                (
                    Termination { stage: KillStage::Sleeping, ..self },
                    KillRequest::Sleep(
                        Duration {
                            nanos: if left < UNIX_KILL_GRACE_POLL_NANOS {
                                left as u128
                            } else {
                                UNIX_KILL_GRACE_POLL_NANOS
                            },
                        },
                    ),
                )
            },
            KillStage::Sleeping => self.look(exited, KillStage::ProbeInGrace),
            KillStage::ProbeAfterGrace => if found {
                self.force()
            } else {
                self.over()
            },
            KillStage::SentKill => self.over(),
            KillStage::Finished => self.over(),
        }
    }

    /// Starts the termination of a child.
    pub fn new(pid: i32, config: KillConfig) -> (termination: Self)
        ensures
            termination.pid == pid,
            termination.kill_descendants == config.kill_descendants,
            termination.grace == config.term_grace,
            termination.stage == KillStage::Start,
    {
        Termination {
            pid,
            kill_descendants: config.kill_descendants,
            grace: config.term_grace,
            target: UnixKillTarget::Process(pid),
            deadline: Instant { nanos: 0 },
            stage: KillStage::Start,
        }
    }

    fn finish(&mut self) -> (request: KillRequest)
        ensures
            (*final(self), request) == old(self).over(),
    {
        self.stage = KillStage::Finished;
        KillRequest::Finished
    }

    fn look_again(&mut self, exited: bool, stage: KillStage) -> (request: KillRequest)
        ensures
            (*final(self), request) == old(self).look(exited, stage),
    {
        let settled = match self.target {
            UnixKillTarget::Process(_) => exited,
            UnixKillTarget::ProcessGroup(_) => false,
        };
        if settled {
            return self.finish();
        }
        self.stage = stage;
        KillRequest::Probe(self.target)
    }

    fn send_term(&mut self, target: UnixKillTarget) -> (request: KillRequest)
        ensures
            (*final(self), request) == old(self).terminate(target),
    {
        self.target = target;
        self.stage = KillStage::SentTerm;
        KillRequest::Signal(target, KillSignal::Term)
    }

    fn send_kill(&mut self) -> (request: KillRequest)
        ensures
            (*final(self), request) == old(self).force(),
    {
        self.stage = KillStage::SentKill;
        KillRequest::Signal(self.target, KillSignal::Kill)
    }

    /// Takes in what the last request came to and returns the next one.
    pub fn advance(&mut self, found: bool, exited: bool, now: Instant) -> (request: KillRequest)
        ensures
            (*final(self), request) == old(self).next(found, exited, now),
    {
        let child = UnixKillTarget::Process(self.pid);
        let group = UnixKillTarget::ProcessGroup(self.pid);
        match self.stage {
            KillStage::Start => {
                if self.kill_descendants {
                    self.stage = KillStage::ProbeGroup;
                    KillRequest::Probe(group)
                } else if exited {
                    self.finish()
                } else {
                    self.stage = KillStage::ProbeChild;
                    KillRequest::Probe(child)
                }
            },
            KillStage::ProbeChild => if found {
                self.send_term(child)
            } else {
                self.finish()
            },
            KillStage::ProbeGroup => {
                if found {
                    self.send_term(group)
                } else if exited {
                    self.finish()
                } else {
                    self.stage = KillStage::ProbeFallback;
                    KillRequest::Probe(child)
                }
            },
            KillStage::ProbeFallback => if found {
                self.send_term(child)
            } else {
                self.finish()
            },
            KillStage::SentTerm => if found {
                self.look_again(exited, KillStage::ProbeBeforeGrace)
            } else {
                self.finish()
            },
            KillStage::ProbeBeforeGrace => {
                if !found {
                    self.finish()
                } else if self.grace.nanos == 0 {
                    self.send_kill()
                } else {
                    let end = match now.nanos.checked_add(self.grace.nanos) {
                        Some(end) => end,
                        None => u128::MAX,
                    };
                    self.deadline = Instant { nanos: end };
                    self.look_again(exited, KillStage::ProbeInGrace)
                }
            },
            KillStage::ProbeInGrace => {
                if !found {
                    self.finish()
                } else if now.nanos >= self.deadline.nanos {
                    self.look_again(exited, KillStage::ProbeAfterGrace)
                } else {
                    let left = self.deadline.nanos - now.nanos;
                    self.stage = KillStage::Sleeping;
                    KillRequest::Sleep(
                        Duration {
                            nanos: if left < UNIX_KILL_GRACE_POLL_NANOS {
                                left
                            } else {
                                UNIX_KILL_GRACE_POLL_NANOS
                            },
                        },
                    )
                }
            },
            KillStage::Sleeping => self.look_again(exited, KillStage::ProbeInGrace),
            KillStage::ProbeAfterGrace => if found {
                self.send_kill()
            } else {
                self.finish()
            },
            KillStage::SentKill => self.finish(),
            KillStage::Finished => self.finish(),
        }
    }
}

/// SIGKILL goes only to a target that SIGTERM went to, is still there, and has
/// had its grace period; SIGTERM goes to a group only when descendants are to
/// be killed.
pub proof fn law_kill_escalates_last(t: Termination, found: bool, exited: bool, now: Instant)
    ensures
        ({
            let (after, request) = t.next(found, exited, now);
            &&& request matches KillRequest::Signal(target, KillSignal::Kill) ==> {
                &&& found
                &&& target == t.target
                &&& t.stage == KillStage::ProbeAfterGrace || (t.stage
                    == KillStage::ProbeBeforeGrace && t.grace.nanos == 0)
            }
            &&& after.stage == KillStage::ProbeAfterGrace ==> now.nanos >= t.deadline.nanos
                && t.stage == KillStage::ProbeInGrace
            &&& request matches KillRequest::Signal(
                UnixKillTarget::ProcessGroup(group),
                KillSignal::Term,
            ) ==> t.stage == KillStage::ProbeGroup && found
            &&& after.stage == KillStage::ProbeGroup ==> t.kill_descendants
        }),
{
}

/// Once a single child's exit is observed, no look at it leads to a signal: a
/// termination that checks on it is over.
pub proof fn law_kill_stops_at_exit(t: Termination, found: bool, now: Instant)
    requires
        t.target is Process,
        t.stage == KillStage::SentTerm || t.stage == KillStage::Sleeping,
    ensures
        t.next(found, true, now).1 == KillRequest::Finished,
        t.next(found, true, now).0.stage == KillStage::Finished,
{
}

/// A termination that is over stays over.
pub proof fn law_kill_finished_is_final(t: Termination, found: bool, exited: bool, now: Instant)
    requires
        t.stage == KillStage::Finished,
    ensures
        t.next(found, exited, now) == (t, KillRequest::Finished),
{
}

/// The course of a termination: whom the signals go to, and that they go. A
/// child is looked for first, with its group where descendants go with it and
/// without it where the group is gone. What is found is told to end, then has
/// its grace, and what is found after that is killed. What is not found any more
/// needs nothing.
pub proof fn law_kill_course(t: Termination, found: bool, exited: bool, now: Instant)
    ensures
        ({
            let (after, request) = t.next(found, exited, now);
            let child = UnixKillTarget::Process(t.pid);
            let group = UnixKillTarget::ProcessGroup(t.pid);
            let settled = t.target is Process && exited;
            &&& after.pid == t.pid && after.grace == t.grace && after.kill_descendants
                == t.kill_descendants
            &&& t.stage == KillStage::Start ==> request == if t.kill_descendants {
                KillRequest::Probe(group)
            } else if exited {
                KillRequest::Finished
            } else {
                KillRequest::Probe(child)
            }
            &&& t.stage == KillStage::ProbeChild || t.stage == KillStage::ProbeFallback ==> request
                == if found {
                KillRequest::Signal(child, KillSignal::Term)
            } else {
                KillRequest::Finished
            }
            &&& t.stage == KillStage::ProbeGroup ==> request == if found {
                KillRequest::Signal(group, KillSignal::Term)
            } else if exited {
                KillRequest::Finished
            } else {
                KillRequest::Probe(child)
            }
            &&& request matches KillRequest::Signal(target, _) ==> after.target == target
            &&& t.stage == KillStage::SentTerm ==> request == if found && !settled {
                KillRequest::Probe(t.target)
            } else {
                KillRequest::Finished
            }
            &&& t.stage == KillStage::ProbeBeforeGrace && found && t.grace.nanos == 0 ==> request
                == KillRequest::Signal(t.target, KillSignal::Kill)
            &&& t.stage == KillStage::ProbeBeforeGrace && found && t.grace.nanos > 0 && now.nanos
                + t.grace.nanos <= u128::MAX ==> after.deadline.nanos == now.nanos + t.grace.nanos
                && request == if settled {
                KillRequest::Finished
            } else {
                KillRequest::Probe(t.target)
            }
            &&& t.stage == KillStage::ProbeInGrace && found && now.nanos < t.deadline.nanos ==> (
            request matches KillRequest::Sleep(span) && span.nanos == (if t.deadline.nanos
                - now.nanos < 10_000_000 {
                t.deadline.nanos - now.nanos
            } else {
                10_000_000
            }))
            &&& t.stage == KillStage::ProbeInGrace && found && now.nanos >= t.deadline.nanos
                ==> request == if settled {
                KillRequest::Finished
            } else {
                KillRequest::Probe(t.target)
            }
            &&& t.stage == KillStage::Sleeping && !settled ==> request == KillRequest::Probe(
                t.target,
            ) && after.stage == KillStage::ProbeInGrace
            &&& t.stage == KillStage::ProbeAfterGrace ==> request == if found {
                KillRequest::Signal(t.target, KillSignal::Kill)
            } else {
                KillRequest::Finished
            }
            &&& !found && (t.stage == KillStage::ProbeBeforeGrace || t.stage
                == KillStage::ProbeInGrace) ==> request == KillRequest::Finished
            &&& t.stage == KillStage::SentKill ==> request == KillRequest::Finished
        }),
{
}

/// A single child that was seen to exit needs no further signal, and neither
/// does anything that is not there; a group that is there does, whatever became
/// of the child.
pub proof fn law_no_needless_kill(target: UnixKillTarget, exited: bool, exists_now: bool)
    ensures
        !exists_now ==> needs_no_kill(target, exited, exists_now),
        exists_now && target is ProcessGroup ==> !needs_no_kill(target, exited, exists_now),
        exists_now && target is Process ==> needs_no_kill(target, exited, exists_now) == exited,
{
}

// ---------------------------------------------------------------------------
// Reader thread
// ---------------------------------------------------------------------------

/// How a child ended.
#[derive(Debug, Clone, Copy, PartialEq, Eq, Structural)]
pub struct ChildStatus {
    /// Whether a signal ended it.
    pub signaled: bool,
    /// Its exit code, when no signal did.
    pub code: u32,
}

impl ChildStatus {
    /// The exit code to report: none for a child that a signal ended.
    pub open spec fn reported(self) -> Option<i32> {
        if self.signaled {
            None
        } else {
            Some(self.code as i32)
        }
    }
}

/// A child that ended by itself has its code told, in thirty-two bits, as it is
/// where it is not too great; a child that a signal ended has none.
pub proof fn law_exit_codes(status: ChildStatus)
    ensures
        status.signaled ==> status.reported() is None,
        !status.signaled && status.code <= i32::MAX ==> status.reported() == Some(
            status.code as i32,
        ) && status.reported()->0 == status.code,
        !status.signaled ==> status.reported() is Some && status.reported()->0 as u32
            == status.code,
{
    let code = status.code;
    assert((code as i32) as u32 == code) by (bit_vector);
}

/// Returns the exit code to report.
pub fn exit_code(status: ChildStatus) -> (code: Option<i32>)
    ensures
        code == status.reported(),
{
    if status.signaled {
        None
    } else {
        Some(
            #[verifier::truncate]
            (status.code as i32),
        )
    }
}

/// What a look at the child came to after a failed read.
#[derive(Debug, PartialEq, Eq)]
pub enum ChildPoll {
    /// It has ended.
    Ended(ChildStatus),
    /// It still runs.
    Running,
    /// The look failed.
    Failed(String),
}

/// What a read from the PTY came to.
#[derive(Debug, PartialEq, Eq)]
pub enum ReadEvent {
    /// End of output.
    Eof,
    /// Output.
    Data(Vec<u8>),
    /// The read was interrupted.
    Interrupted,
    /// The read failed, and this is what the child was found to do.
    Failed {
        /// Human-readable description.
        message: String,
        /// What the child was found to do.
        child: ChildPoll,
    },
}

/// What a reader does after a read.
#[derive(Debug, PartialEq, Eq)]
pub enum ReaderNext {
    /// Read again.
    Read,
    /// Wait for the child.
    Wait,
    /// The child has ended.
    Ended(ChildStatus),
}

/// The frame numbers of a PTY reader.
#[derive(Debug, Clone, Copy, PartialEq, Eq, Structural)]
pub struct ReaderState {
    /// Number of the last frame.
    pub seq: u64,
}

impl ReaderState {
    /// A reader that has emitted nothing.
    pub fn new() -> (state: Self)
        ensures
            state.seq == 0,
    {
        ReaderState { seq: 0 }
    }

    /// Takes in a read: the frame to emit, if any, and what to do next.
    ///
    /// Output becomes a frame and reading goes on. A failed read is not worth a
    /// frame when the child has ended; otherwise it is reported and the child
    /// is waited for.
    pub fn on_read(&mut self, event: ReadEvent, now: Instant) -> (r: (
        Option<PtyFrame>,
        ReaderNext,
    ))
        requires
            old(self).seq < u64::MAX,
        ensures
            match event {
                ReadEvent::Eof => r == (None::<PtyFrame>, ReaderNext::Wait) && *final(self)
                    == *old(self),
                ReadEvent::Interrupted => r == (None::<PtyFrame>, ReaderNext::Read) && *final(self)
                    == *old(self),
                ReadEvent::Data(bytes) => {
                    &&& final(self).seq == old(self).seq + 1
                    &&& r.0 == Some(PtyFrame::Output { seq: final(self).seq, bytes, at: now })
                    &&& r.1 == ReaderNext::Read
                },
                ReadEvent::Failed { message, child } => match child {
                    ChildPoll::Ended(status) => r == (
                        None::<PtyFrame>,
                        ReaderNext::Ended(status),
                    ) && *final(self) == *old(self),
                    ChildPoll::Running => {
                        &&& final(self).seq == old(self).seq + 1
                        &&& r.0 matches Some(PtyFrame::Error { seq, message: m, at })
                        &&& seq == final(self).seq && m@ == message@ && at == now
                        &&& r.1 == ReaderNext::Wait
                    },
                    ChildPoll::Failed(poll) => {
                        &&& final(self).seq == old(self).seq + 1
                        &&& r.0 matches Some(PtyFrame::Error { seq, message: m, at })
                        &&& seq == final(self).seq && at == now
                        &&& m@ == "pty reader failed: "@ + message@
                            + "; child status poll failed: "@ + poll@
                        &&& r.1 == ReaderNext::Wait
                    },
                },
            },
    {
        match event {
            ReadEvent::Eof => (None, ReaderNext::Wait),
            ReadEvent::Interrupted => (None, ReaderNext::Read),
            ReadEvent::Data(bytes) => {
                self.seq = self.seq + 1;
                (Some(PtyFrame::Output { seq: self.seq, bytes, at: now }), ReaderNext::Read)
            },
            ReadEvent::Failed { message, child } => match child {
                ChildPoll::Ended(status) => (None, ReaderNext::Ended(status)),
                ChildPoll::Running => {
                    self.seq = self.seq + 1;
                    (Some(PtyFrame::Error { seq: self.seq, message, at: now }), ReaderNext::Wait)
                },
                ChildPoll::Failed(poll) => {
                    self.seq = self.seq + 1;
                    let mut text = "pty reader failed: ".to_owned();
                    text.append(message.as_str());
                    text.append("; child status poll failed: ");
                    text.append(poll.as_str());
                    (
                        Some(PtyFrame::Error { seq: self.seq, message: text, at: now }),
                        ReaderNext::Wait,
                    )
                },
            },
        }
    }

    /// Takes in how the child ended and returns the last frame.
    pub fn on_exit(
        &mut self,
        status: core::result::Result<ChildStatus, String>,
        now: Instant,
    ) -> (frame: PtyFrame)
        requires
            old(self).seq < u64::MAX,
        ensures
            final(self).seq == old(self).seq + 1,
            match status {
                Ok(s) => frame == (PtyFrame::Exited {
                    seq: final(self).seq,
                    code: s.reported(),
                    at: now,
                }),
                Err(message) => {
                    &&& frame matches PtyFrame::Error { seq, message: m, at }
                    &&& seq == final(self).seq && at == now
                    &&& m@ == "child wait failed: "@ + message@
                },
            },
    {
        self.seq = self.seq + 1;
        match status {
            Ok(status) => PtyFrame::Exited { seq: self.seq, code: exit_code(status), at: now },
            Err(message) => {
                let mut text = "child wait failed: ".to_owned();
                text.append(message.as_str());
                PtyFrame::Error { seq: self.seq, message: text, at: now }
            },
        }
    }
}

/// A list of failures, each after a semicolon.
pub open spec fn failure_list(failures: Seq<String>) -> Seq<char>
    decreases failures.len(),
{
    if failures.len() == 0 {
        seq![]
    } else {
        failure_list(failures.drop_last()) + "; "@ + failures.last()@
    }
}

/// Every failure is listed, in its order, each after a semicolon.
pub proof fn law_failures_are_listed(failures: Seq<String>, more: Seq<String>, one: String)
    ensures
        failure_list(seq![]) == Seq::<char>::empty(),
        failure_list(seq![one]) == "; "@ + one@,
        failure_list(failures + more) == failure_list(failures) + failure_list(more),
    decreases more.len(),
{
    assert(seq![one].drop_last() =~= seq![]);
    assert(failure_list(seq![one].drop_last()) =~= seq![]);
    assert(failure_list(seq![one]) =~= "; "@ + one@);
    let all = failures + more;
    if more.len() == 0 {
        assert(all =~= failures);
        assert(failure_list(all) =~= failure_list(failures) + failure_list(more));
    } else {
        law_failures_are_listed(failures, more.drop_last(), one);
        assert(all.drop_last() =~= failures + more.drop_last());
        assert(all.last() == more.last());
        assert(failure_list(all) =~= failure_list(failures) + failure_list(more));
    }
}

/// The error for a reader thread that could not be started, with whatever went
/// wrong while the started child was cleaned up.
pub fn reader_spawn_failure(error: &str, failures: &Vec<String>) -> (e: PaneError)
    ensures
        e@ == (ErrorView::Spawn {
            message: "failed to spawn PTY reader thread: "@ + error@ + failure_list(failures@),
        }),
{
    let mut message = "failed to spawn PTY reader thread: ".to_owned();
    message.append(error);
    let ghost head = message@;
    let mut i: usize = 0;
    assert(failure_list(failures@.take(0)) =~= seq![]);
    assert(head + Seq::<char>::empty() =~= head);
    while i < failures.len()
        invariant
            i <= failures@.len(),
            message@ == head + failure_list(failures@.take(i as int)),
        decreases failures@.len() - i,
    {
        let ghost before = message@;
        message.append("; ");
        message.append(failures[i].as_str());
        proof {
            let longer = failures@.take(i + 1);
            assert(longer.drop_last() =~= failures@.take(i as int));
            assert(message@ =~= head + failure_list(longer));
        }
        i = i + 1;
    }
    assert(failures@.take(i as int) =~= failures@);
    PaneError::Spawn { message }
}

/// A child that can be cleaned up when its reader thread could not be started.
pub trait ReaderThreadSpawnCleanup {
    /// Kills and reaps the child, and tells what went wrong.
    fn cleanup_after_reader_thread_spawn_failure(&mut self) -> Vec<String>;
}

/// Cleans up a child whose reader thread could not be started, and makes the
/// error that tells of both.
pub fn reader_thread_spawn_error<C: ReaderThreadSpawnCleanup>(error: &str, child: &mut C) -> (e:
    PaneError)
    ensures
        exists|started: &mut C, failures: Vec<String>|
            #![trigger call_ensures(C::cleanup_after_reader_thread_spawn_failure, (started,), failures)]
            {
                &&& call_ensures(
                    C::cleanup_after_reader_thread_spawn_failure,
                    (started,),
                    failures,
                )
                &&& *started == *old(child)
                &&& *final(started) == *final(child)
                &&& e@ == (ErrorView::Spawn {
                    message: "failed to spawn PTY reader thread: "@ + error@ + failure_list(
                        failures@,
                    ),
                })
            },
{
    let failures = child.cleanup_after_reader_thread_spawn_failure();
    reader_spawn_failure(error, &failures)
}

/// What went wrong while a child was cleaned up whose reader thread could not
/// be started.
pub fn cleanup_failures(killed: &Result<()>, reaped: &core::result::Result<(), String>) -> (failures:
    Vec<String>)
    ensures
        failures@.len() == (if killed is Err {
            1int
        } else {
            0
        }) + (if reaped is Err {
            1int
        } else {
            0
        }),
        killed matches Err(e) ==> failures@[0]@
            == "failed to kill spawned child after reader-thread spawn failure: "@
            + e@.sentence(),
        reaped matches Err(m) ==> failures@.last()@
            == "failed to reap spawned child after reader-thread spawn failure: "@ + m@,
{
    let mut failures: Vec<String> = Vec::new();
    if let Err(error) = killed {
        let mut text =
            "failed to kill spawned child after reader-thread spawn failure: ".to_owned();
        text.append(error.to_string().as_str());
        failures.push(text);
    }
    if let Err(message) = reaped {
        let mut text =
            "failed to reap spawned child after reader-thread spawn failure: ".to_owned();
        text.append(message.as_str());
        failures.push(text);
    }
    failures
}

/// The identifier of a process: its number, or a synthetic one where the
/// backend has none.
pub fn make_process_id(process_id: Option<u32>, synthetic: u64) -> (id: String)
    ensures
        id@ == decimal(
            match process_id {
                Some(pid) => pid as nat,
                None => synthetic as nat,
            },
        ),
{
    let mut id = String::new();
    match process_id {
        Some(pid) => push_decimal(&mut id, pid as u64),
        None => push_decimal(&mut id, synthetic),
    }
    assert(id@ =~= decimal(
        match process_id {
            Some(pid) => pid as nat,
            None => synthetic as nat,
        },
    ));
    id
}

} // verus!
