//! The identity switch, as a state machine. The caller runs the commands that it hands out,
//! one at a time, and reports each outcome back; the machine decides the next command. The
//! order is fixed: start the ssh agent, clear its identities, load the variant's private key,
//! look the metadata up in the cache (asking the provider and storing its answer on a miss),
//! then set `user.name`, `user.email` and `user.signingkey`. The first failure ends the switch;
//! what earlier commands did stays done.

use vstd::prelude::*;
use vstd::string::*;

use crate::discovery::{find_by_name, first_named, views};
use crate::errors::VariantError;
use crate::cache::{lemma_upsert_places, locate, upserted};
use crate::model::{Identity, Metadata, Variant};

verus! {

/// Work that the switch asks its caller to do.
#[derive(Debug)]
pub enum Command {
    /// Start the ssh agent.
    StartAgent,
    /// Remove every identity loaded into the agent.
    ClearIdentities,
    /// Load the private key at this path into the agent.
    AddKey(String),
    /// Read the cached metadata of this username.
    ReadCache(String),
    /// Ask the provider for the metadata of this username.
    Provide(String),
    /// Store this record in the cache.
    WriteCache(Metadata),
    /// Set a git configuration key to a value, at local scope when the flag is set and at
    /// global scope otherwise.
    SetConfig(String, String, bool),
}

/// What came of the last command.
#[derive(Debug)]
pub enum Outcome {
    /// A process ran: whether it exited successfully, and its raw output.
    Exit(bool, Vec<u8>),
    /// The cache answered a read.
    Cached(Option<Metadata>),
    /// The provider gave metadata.
    Provided(Metadata),
    /// The provider gave none; carries its message.
    Declined(String),
    /// The cache stored the record.
    Stored,
    /// The command could not be carried out at all.
    Failed(VariantError),
}

/// What the switch does next.
#[derive(Debug)]
pub enum Next {
    /// Run this command and report its outcome.
    Run(Command),
    /// The switch is over, with this result.
    Done(Result<(), VariantError>),
}

/// Where a switch stands: the command whose outcome it waits for.
#[derive(Debug, Clone, Copy, PartialEq, Eq, Structural)]
pub enum Stage {
    AgentStart,
    AgentClear,
    KeyRegistration,
    CacheLookup,
    Providing,
    CacheWrite,
    /// Setting the configuration key of this index: `user.name`, `user.email`,
    /// `user.signingkey`.
    Committing(u8),
    Finished,
}

/// A switch to one variant in progress.
#[derive(Debug)]
pub struct Switch {
    pub variant: Variant,
    /// Whether the configuration is set at local scope rather than global scope.
    pub local: bool,
    pub stage: Stage,
    /// The metadata that the switch commits, once resolved.
    pub metadata: Option<Metadata>,
}

/// The configuration keys that a switch sets, in order.
pub open spec fn config_key(k: int) -> Seq<char> {
    if k == 0 {
        "user.name"@
    } else if k == 1 {
        "user.email"@
    } else {
        "user.signingkey"@
    }
}

/// The value that a switch sets for the key of index `k`.
pub open spec fn config_value(s: Switch, m: Metadata, k: int) -> String {
    if k == 0 {
        m.name
    } else if k == 1 {
        m.email
    } else {
        s.variant.keys.0
    }
}

/// `n` runs the command that sets `key` to `value` at the given scope.
pub open spec fn sets(n: Next, key: Seq<char>, value: String, local: bool) -> bool {
    match n {
        Next::Run(Command::SetConfig(k, v, l)) => k@ == key && v == value && l == local,
        _ => false,
    }
}

/// The switch `t` is over, with the error `e`.
pub open spec fn fails(t: Switch, n: Next, e: VariantError) -> bool {
    t.stage == Stage::Finished && n == Next::Done(Err(e))
}

/// On an outcome that the stage does not wait for: an error that the outcome carries, or
/// else an out-of-order error.
pub open spec fn fails_on(t: Switch, n: Next, o: Outcome) -> bool {
    match o {
        Outcome::Failed(e) => fails(t, n, e),
        _ => fails(t, n, VariantError::OutOfOrder),
    }
}

/// One move of the switch: from `s`, on the outcome `o`, to `t`, doing `n`.
pub open spec fn advances(s: Switch, o: Outcome, t: Switch, n: Next) -> bool {
    &&& t.variant == s.variant
    &&& t.local == s.local
    &&& match s.stage {
        Stage::AgentStart => match o {
            Outcome::Exit(ok, out) => if ok {
                t.stage == Stage::AgentClear && t.metadata == s.metadata && n == Next::Run(
                    Command::ClearIdentities,
                )
            } else {
                fails(t, n, VariantError::AgentUnavailable(out))
            },
            _ => fails_on(t, n, o),
        },
        Stage::AgentClear => match o {
            Outcome::Exit(ok, out) => if ok {
                t.stage == Stage::KeyRegistration && t.metadata == s.metadata && n == Next::Run(
                    Command::AddKey(s.variant.keys.1),
                )
            } else {
                fails(t, n, VariantError::AgentUnavailable(out))
            },
            _ => fails_on(t, n, o),
        },
        Stage::KeyRegistration => match o {
            Outcome::Exit(ok, out) => if ok {
                t.stage == Stage::CacheLookup && t.metadata == s.metadata && n == Next::Run(
                    Command::ReadCache(s.variant.name),
                )
            } else {
                fails(t, n, VariantError::KeyRegistrationFailed(out))
            },
            _ => fails_on(t, n, o),
        },
        Stage::CacheLookup => match o {
            Outcome::Cached(Some(m)) => t.stage == Stage::Committing(0) && t.metadata == Some(m)
                && sets(n, config_key(0), m.name, s.local),
            Outcome::Cached(None) => t.stage == Stage::Providing && t.metadata == s.metadata && n
                == Next::Run(Command::Provide(s.variant.name)),
            _ => fails_on(t, n, o),
        },
        Stage::Providing => match o {
            Outcome::Provided(m) => t.stage == Stage::CacheWrite && t.metadata == Some(m) && n
                == Next::Run(Command::WriteCache(m)),
            Outcome::Declined(msg) => fails(t, n, VariantError::MetadataUnavailable(msg)),
            _ => fails_on(t, n, o),
        },
        Stage::CacheWrite => match o {
            Outcome::Stored => match s.metadata {
                Some(m) => t.stage == Stage::Committing(0) && t.metadata == s.metadata && sets(
                    n,
                    config_key(0),
                    m.name,
                    s.local,
                ),
                None => fails(t, n, VariantError::OutOfOrder),
            },
            _ => fails_on(t, n, o),
        },
        Stage::Committing(k) => match o {
            Outcome::Exit(ok, out) => if !ok {
                fails(t, n, VariantError::ConfigCommitFailed(out))
            } else {
                match s.metadata {
                    None => fails(t, n, VariantError::OutOfOrder),
                    Some(m) => if k < 2 {
                        t.stage == Stage::Committing((k + 1) as u8) && t.metadata == s.metadata
                            && sets(n, config_key(k + 1), config_value(s, m, k + 1), s.local)
                    } else {
                        t.stage == Stage::Finished && n == Next::Done(Ok(()))
                    },
                }
            },
            _ => fails_on(t, n, o),
        },
        Stage::Finished => fails(t, n, VariantError::OutOfOrder),
    }
}

impl Switch {
    /// Begins the switch to the variant called `name` among `variants`: its first command
    /// starts the ssh agent.
    pub fn start(variants: Vec<Variant>, name: &String, local: bool) -> (r: Result<
        (Switch, Command),
        VariantError,
    >)
        ensures
            match first_named(views(variants@), name@, 0) {
                None => r == Err::<(Switch, Command), VariantError>(VariantError::NotFound),
                Some(k) => r == Ok::<(Switch, Command), VariantError>(
                    (
                        Switch {
                            variant: variants@[k],
                            local,
                            stage: Stage::AgentStart,
                            metadata: None,
                        },
                        Command::StartAgent,
                    ),
                ),
            },
    {
        let variant = find_by_name(variants, name)?;
        Ok((Switch { variant, local, stage: Stage::AgentStart, metadata: None }, Command::StartAgent))
    }

    fn fail(&mut self, e: VariantError) -> (r: Next)
        ensures
            final(self).variant == old(self).variant,
            final(self).local == old(self).local,
            fails(*final(self), r, e),
    {
        self.stage = Stage::Finished;
        Next::Done(Err(e))
    }

    fn fail_on(&mut self, o: Outcome) -> (r: Next)
        ensures
            final(self).variant == old(self).variant,
            final(self).local == old(self).local,
            fails_on(*final(self), r, o),
    {
        match o {
            Outcome::Failed(e) => self.fail(e),
            _ => self.fail(VariantError::OutOfOrder),
        }
    }

    fn commit(&self, k: u8, m: &Metadata) -> (r: Next)
        requires
            k <= 2,
        ensures
            sets(r, config_key(k as int), config_value(*self, *m, k as int), self.local),
    {
        proof {
            reveal_strlit("user.name");
            reveal_strlit("user.email");
            reveal_strlit("user.signingkey");
        }
        let (key, value) = if k == 0 {
            (String::from_str("user.name"), m.name.clone())
        } else if k == 1 {
            (String::from_str("user.email"), m.email.clone())
        } else {
            (String::from_str("user.signingkey"), self.variant.keys.0.clone())
        };
        Next::Run(Command::SetConfig(key, value, self.local))
    }

    /// Takes the outcome of the last command and gives the next one, or the result.
    pub fn step(&mut self, outcome: Outcome) -> (r: Next)
        ensures
            advances(*old(self), outcome, *final(self), r),
    {
        match self.stage {
            Stage::AgentStart => match outcome {
                Outcome::Exit(ok, out) => if ok {
                    self.stage = Stage::AgentClear;
                    Next::Run(Command::ClearIdentities)
                } else {
                    self.fail(VariantError::AgentUnavailable(out))
                },
                o => self.fail_on(o),
            },
            Stage::AgentClear => match outcome {
                Outcome::Exit(ok, out) => if ok {
                    self.stage = Stage::KeyRegistration;
                    Next::Run(Command::AddKey(self.variant.keys.1.clone()))
                } else {
                    self.fail(VariantError::AgentUnavailable(out))
                },
                o => self.fail_on(o),
            },
            Stage::KeyRegistration => match outcome {
                Outcome::Exit(ok, out) => if ok {
                    self.stage = Stage::CacheLookup;
                    Next::Run(Command::ReadCache(self.variant.name.clone()))
                } else {
                    self.fail(VariantError::KeyRegistrationFailed(out))
                },
                o => self.fail_on(o),
            },
            Stage::CacheLookup => match outcome {
                Outcome::Cached(Some(m)) => {
                    let n = self.commit(0, &m);
                    self.stage = Stage::Committing(0);
                    self.metadata = Some(m);
                    n
                },
                Outcome::Cached(None) => {
                    self.stage = Stage::Providing;
                    Next::Run(Command::Provide(self.variant.name.clone()))
                },
                o => self.fail_on(o),
            },
            Stage::Providing => match outcome {
                Outcome::Provided(m) => {
                    let w = m.duplicate();
                    self.stage = Stage::CacheWrite;
                    self.metadata = Some(m);
                    Next::Run(Command::WriteCache(w))
                },
                Outcome::Declined(msg) => self.fail(VariantError::MetadataUnavailable(msg)),
                o => self.fail_on(o),
            },
            Stage::CacheWrite => match outcome {
                Outcome::Stored => match &self.metadata {
                    Some(m) => {
                        let n = self.commit(0, m);
                        self.stage = Stage::Committing(0);
                        n
                    },
                    None => self.fail(VariantError::OutOfOrder),
                },
                o => self.fail_on(o),
            },
            Stage::Committing(k) => match outcome {
                Outcome::Exit(ok, out) => if !ok {
                    self.fail(VariantError::ConfigCommitFailed(out))
                } else {
                    match &self.metadata {
                        None => self.fail(VariantError::OutOfOrder),
                        Some(m) => if k < 2 {
                            let n = self.commit(k + 1, m);
                            self.stage = Stage::Committing(k + 1);
                            n
                        } else {
                            self.stage = Stage::Finished;
                            Next::Done(Ok(()))
                        },
                    }
                },
                o => self.fail_on(o),
            },
            Stage::Finished => self.fail(VariantError::OutOfOrder),
        }
    }
}

/// A run of the switch: `states[i]` moves to `states[i + 1]` on `outcomes[i]`, doing `nexts[i]`.
pub open spec fn is_run(states: Seq<Switch>, outcomes: Seq<Outcome>, nexts: Seq<Next>) -> bool {
    &&& states.len() == outcomes.len() + 1
    &&& nexts.len() == outcomes.len()
    &&& forall|i: int|
        0 <= i < outcomes.len() ==> advances(
            #[trigger] states[i],
            outcomes[i],
            states[i + 1],
            nexts[i],
        )
}

proof fn lemma_finished_stays(states: Seq<Switch>, outcomes: Seq<Outcome>, nexts: Seq<Next>, i: int)
    requires
        is_run(states, outcomes, nexts),
        1 <= i < states.len(),
        states[1].stage == Stage::Finished,
    ensures
        states[i].stage == Stage::Finished,
        i < nexts.len() ==> nexts[i] is Done,
    decreases i,
{
    if i > 1 {
        lemma_finished_stays(states, outcomes, nexts, i - 1);
        assert(advances(states[i - 1], outcomes[i - 1], states[i], nexts[i - 1]));
    }
    if i < nexts.len() {
        assert(advances(states[i], outcomes[i], states[i + 1], nexts[i]));
    }
}

/// Fail-fast: where loading the private key fails, the switch ends with that failure, and no
/// later move runs any command, so neither a cache write nor a configuration change happens.
pub proof fn lemma_key_failure_is_final(states: Seq<Switch>, outcomes: Seq<Outcome>, nexts: Seq<Next>)
    requires
        is_run(states, outcomes, nexts),
        outcomes.len() >= 1,
        states[0].stage == Stage::KeyRegistration,
        outcomes[0] is Exit && !outcomes[0]->Exit_0,
    ensures
        nexts[0] == Next::Done(Err(VariantError::KeyRegistrationFailed(outcomes[0]->Exit_1))),
        forall|i: int| 1 <= i < states.len() ==> (#[trigger] states[i]).stage == Stage::Finished,
        forall|i: int| 0 <= i < nexts.len() ==> (#[trigger] nexts[i]) is Done,
{
    assert(advances(states[0], outcomes[0], states[1], nexts[0]));
    assert forall|i: int| 1 <= i < states.len() implies (#[trigger] states[i]).stage
        == Stage::Finished by {
        lemma_finished_stays(states, outcomes, nexts, i);
    }
    assert forall|i: int| 0 <= i < nexts.len() implies (#[trigger] nexts[i]) is Done by {
        if i >= 1 {
            lemma_finished_stays(states, outcomes, nexts, i);
        }
    }
}

/// Provider results are persisted before use: on a cache miss, the provider's metadata is
/// written to the cache, a read of the cache after that write finds it, and once the write is
/// stored the switch sets `user.name` from it.
pub proof fn lemma_provided_metadata_is_stored(
    s: Switch,
    m: Metadata,
    t: Switch,
    n: Next,
    rs: Seq<Identity>,
)
    requires
        s.stage == Stage::Providing,
        advances(s, Outcome::Provided(m), t, n),
    ensures
        n == Next::Run(Command::WriteCache(m)),
        t.metadata == Some(m),
        locate(upserted(rs, m@), m@.username, 0) is Some,
        upserted(rs, m@)[locate(upserted(rs, m@), m@.username, 0)->Some_0] == m@,
        forall|u: Switch, x: Next|
            advances(t, Outcome::Stored, u, x) ==> sets(x, "user.name"@, m.name, s.local),
{
    lemma_upsert_places(rs, m@);
}

} // verus!
