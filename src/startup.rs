use vstd::prelude::*;

verus! {

/// Why the program stops for good.
#[derive(PartialEq, Eq, Structural, Clone, Copy, Debug)]
pub enum FatalError {
    /// A required field is empty or the key file is absent.
    Config,
    /// The SSH transport could not be opened or the handshake failed.
    Handshake,
    /// The private key could not be read or parsed.
    KeyLoad,
    /// The server refused the key.
    AuthRejected,
    /// The transport failed while authenticating.
    Transport,
    /// The local port could not be bound.
    Bind,
    /// Accepting local connections failed.
    Accept,
}

/// The step the program is at: each step is performed by the driver, which
/// reports how it went.
#[derive(PartialEq, Eq, Structural, Clone, Copy, Debug)]
pub enum Phase {
    CheckConfig,
    Dial,
    LoadKey,
    Authenticate,
    Bind,
    Serve,
    Exit(FatalError),
}

/// How a step went.
#[derive(PartialEq, Eq, Structural, Clone, Copy, Debug)]
pub enum Outcome {
    /// It succeeded.
    Done,
    /// It failed.
    Failed,
    /// The server answered no (only authentication has such an answer).
    Rejected,
}

/// The step after `p`, given how `p` went. Startup goes in a fixed order;
/// any failure ends the program; serving goes on until accepting fails.
pub open spec fn advance(p: Phase, o: Outcome) -> Phase {
    match p {
        Phase::Exit(e) => Phase::Exit(e),
        Phase::Serve => if o == Outcome::Done {
            Phase::Serve
        } else {
            Phase::Exit(FatalError::Accept)
        },
        Phase::Authenticate => match o {
            Outcome::Done => Phase::Bind,
            Outcome::Rejected => Phase::Exit(FatalError::AuthRejected),
            Outcome::Failed => Phase::Exit(FatalError::Transport),
        },
        _ => if o == Outcome::Done {
            match p {
                Phase::CheckConfig => Phase::Dial,
                Phase::Dial => Phase::LoadKey,
                Phase::LoadKey => Phase::Authenticate,
                _ => Phase::Serve,
            }
        } else {
            Phase::Exit(
                match p {
                    Phase::CheckConfig => FatalError::Config,
                    Phase::Dial => FatalError::Handshake,
                    Phase::LoadKey => FatalError::KeyLoad,
                    _ => FatalError::Bind,
                },
            )
        },
    }
}

/// The step reached from `p` after the outcomes `outs`, in order.
pub open spec fn phase_after(p: Phase, outs: Seq<Outcome>) -> Phase
    decreases outs.len(),
{
    if outs.len() == 0 {
        p
    } else {
        advance(phase_after(p, outs.drop_last()), outs.last())
    }
}

/// The process exit status of a step: none while running, non-zero on exit.
pub open spec fn status_of(p: Phase) -> Option<i32> {
    match p {
        Phase::Exit(_) => Some(1),
        _ => None,
    }
}

impl Phase {
    /// The first step of a run.
    pub fn start() -> (r: Phase)
        ensures
            r == Phase::CheckConfig,
    {
        Phase::CheckConfig
    }

    /// Moves on according to how the current step went.
    pub fn advance(&mut self, o: Outcome)
        ensures
            *final(self) == advance(*old(self), o),
    {
        let next = match *self {
            Phase::Exit(e) => Phase::Exit(e),
            Phase::Serve => match o {
                Outcome::Done => Phase::Serve,
                _ => Phase::Exit(FatalError::Accept),
            },
            Phase::Authenticate => match o {
                Outcome::Done => Phase::Bind,
                Outcome::Rejected => Phase::Exit(FatalError::AuthRejected),
                Outcome::Failed => Phase::Exit(FatalError::Transport),
            },
            Phase::CheckConfig => match o {
                Outcome::Done => Phase::Dial,
                _ => Phase::Exit(FatalError::Config),
            },
            Phase::Dial => match o {
                Outcome::Done => Phase::LoadKey,
                _ => Phase::Exit(FatalError::Handshake),
            },
            Phase::LoadKey => match o {
                Outcome::Done => Phase::Authenticate,
                _ => Phase::Exit(FatalError::KeyLoad),
            },
            Phase::Bind => match o {
                Outcome::Done => Phase::Serve,
                _ => Phase::Exit(FatalError::Bind),
            },
        };
        *self = next;
    }

    /// The exit status once the program must stop: `None` while it runs.
    pub fn exit_status(&self) -> (r: Option<i32>)
        ensures
            r == status_of(*self),
    {
        match self {
            Phase::Exit(_) => Some(1),
            _ => None,
        }
    }
}

proof fn lemma_exit_absorbs(outs: Seq<Outcome>, j: int, k: int)
    requires
        0 <= j <= k <= outs.len(),
        phase_after(Phase::CheckConfig, outs.take(j)) is Exit,
    ensures
        phase_after(Phase::CheckConfig, outs.take(k)) == phase_after(
            Phase::CheckConfig,
            outs.take(j),
        ),
    decreases k - j,
{
    if k > j {
        lemma_exit_absorbs(outs, j, k - 1);
        assert(outs.take(k).drop_last() =~= outs.take(k - 1));
    }
}

/// The listener is bound only right after a successful authentication: in any
/// run, the step before binding is authentication, and it succeeded.
pub proof fn law_bind_needs_authentication(outs: Seq<Outcome>, i: int)
    requires
        0 <= i <= outs.len(),
        phase_after(Phase::CheckConfig, outs.take(i)) == Phase::Bind,
    ensures
        i >= 1,
        phase_after(Phase::CheckConfig, outs.take(i - 1)) == Phase::Authenticate,
        outs[i - 1] == Outcome::Done,
{
    assert(outs.take(0) =~= Seq::<Outcome>::empty());
    if i >= 1 {
        assert(outs.take(i).drop_last() =~= outs.take(i - 1));
        assert(outs.take(i).last() == outs[i - 1]);
    }
}

/// Any failed step ends the run with a non-zero status for good: in
/// particular, when the configuration, the key or the authentication fails,
/// no listener is ever bound and nothing is served.
pub proof fn law_failure_is_fatal(outs: Seq<Outcome>, j: int, k: int)
    requires
        0 <= j < k <= outs.len(),
        outs[j] != Outcome::Done,
    ensures
        phase_after(Phase::CheckConfig, outs.take(k)) is Exit,
        status_of(phase_after(Phase::CheckConfig, outs.take(k))) == Some(1i32),
        phase_after(Phase::CheckConfig, outs.take(k)) != Phase::Bind,
        phase_after(Phase::CheckConfig, outs.take(k)) != Phase::Serve,
{
    assert(outs.take(j + 1).drop_last() =~= outs.take(j));
    assert(outs.take(j + 1).last() == outs[j]);
    lemma_exit_absorbs(outs, j + 1, k);
}

} // verus!
