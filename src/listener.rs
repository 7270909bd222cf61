use vstd::prelude::*;

verus! {

/// The accept loop of the tunnel: how many connections it has handed off that
/// are not yet finished, and the admission limit on them (none: unbounded).
pub struct Listener {
    pub serving: bool,
    pub limit: Option<u64>,
    pub live: u64,
}

/// What the accept loop observed.
#[derive(PartialEq, Eq, Structural, Clone, Copy, Debug)]
pub enum ListenerEvent {
    /// A local connection was accepted.
    Accepted,
    /// Accepting failed: the listening socket is unusable.
    AcceptFailed,
    /// A handed-off connection finished, by whatever path (channel refused,
    /// relay over, I/O error).
    ConnectionDone,
}

/// What the accept loop must do.
#[derive(PartialEq, Eq, Structural, Clone, Copy, Debug)]
pub enum ListenerAction {
    /// Hand the accepted connection off to run on its own, and accept again.
    HandOff,
    /// Close the accepted connection at once: the limit is reached.
    Refuse,
    /// Accept again.
    Continue,
    /// Stop serving: the tunnel exits with an error.
    Stop,
}

/// Whether one more connection can be admitted.
pub open spec fn has_room(limit: Option<u64>, live: u64) -> bool {
    live < u64::MAX && match limit {
        Some(m) => live < m,
        None => true,
    }
}

/// One transition of the accept loop: (serving, live) after the event, and
/// the action.
pub open spec fn listener_step(serving: bool, limit: Option<u64>, live: u64, e: ListenerEvent) -> (
    bool,
    u64,
    ListenerAction,
) {
    if !serving {
        (false, live, ListenerAction::Stop)
    } else {
        match e {
            ListenerEvent::Accepted => if has_room(limit, live) {
                (true, (live + 1) as u64, ListenerAction::HandOff)
            } else {
                (true, live, ListenerAction::Refuse)
            },
            ListenerEvent::AcceptFailed => (false, live, ListenerAction::Stop),
            ListenerEvent::ConnectionDone => (
                true,
                if live > 0 {
                    (live - 1) as u64
                } else {
                    0
                },
                ListenerAction::Continue,
            ),
        }
    }
}

/// Whether the loop still serves after a sequence of events.
pub open spec fn serving_after(serving: bool, limit: Option<u64>, live: u64, es: Seq<ListenerEvent>) -> bool
    decreases es.len(),
{
    if es.len() == 0 {
        serving
    } else {
        let (s1, l1, _) = listener_step(serving, limit, live, es[0]);
        serving_after(s1, limit, l1, es.drop_first())
    }
}

impl Listener {
    /// A loop that serves, with nothing handed off yet.
    pub fn new(limit: Option<u64>) -> (r: Listener)
        ensures
            r.serving,
            r.limit == limit,
            r.live == 0,
    {
        Listener { serving: true, limit, live: 0 }
    }

    /// Takes one event into account and returns what to do.
    pub fn on_event(&mut self, e: ListenerEvent) -> (a: ListenerAction)
        ensures
            final(self).limit == old(self).limit,
            (final(self).serving, final(self).live, a) == listener_step(
                old(self).serving,
                old(self).limit,
                old(self).live,
                e,
            ),
    {
        if !self.serving {
            return ListenerAction::Stop;
        }
        match e {
            ListenerEvent::Accepted => {
                let room = self.live < u64::MAX && match self.limit {
                    Some(m) => self.live < m,
                    None => true,
                };
                if room {
                    self.live = self.live + 1;
                    ListenerAction::HandOff
                } else {
                    ListenerAction::Refuse
                }
            },
            ListenerEvent::AcceptFailed => {
                self.serving = false;
                ListenerAction::Stop
            },
            ListenerEvent::ConnectionDone => {
                if self.live > 0 {
                    self.live = self.live - 1;
                }
                ListenerAction::Continue
            },
        }
    }
}

/// Failures of single connections never stop the loop: it stops only when
/// accepting itself fails.
pub proof fn law_isolation(limit: Option<u64>, live: u64, es: Seq<ListenerEvent>)
    ensures
        serving_after(true, limit, live, es) <==> forall|i: int|
            0 <= i < es.len() ==> #[trigger] es[i] != ListenerEvent::AcceptFailed,
    decreases es.len(),
{
    if es.len() > 0 {
        let (s1, l1, _) = listener_step(true, limit, live, es[0]);
        let rest = es.drop_first();
        law_isolation(limit, l1, rest);
        lemma_stopped_stays(limit, l1, rest);
        if es[0] != ListenerEvent::AcceptFailed {
            assert((forall|i: int| 0 <= i < es.len() ==> #[trigger] es[i] != ListenerEvent::AcceptFailed)
                <==> (forall|i: int| 0 <= i < rest.len() ==> #[trigger] rest[i] != ListenerEvent::AcceptFailed)) by {
                if forall|i: int| 0 <= i < rest.len() ==> #[trigger] rest[i] != ListenerEvent::AcceptFailed {
                    assert forall|i: int| 0 <= i < es.len() implies #[trigger] es[i] != ListenerEvent::AcceptFailed by {
                        if i > 0 {
                            assert(es[i] == rest[i - 1]);
                        }
                    }
                }
                if forall|i: int| 0 <= i < es.len() ==> #[trigger] es[i] != ListenerEvent::AcceptFailed {
                    assert forall|i: int| 0 <= i < rest.len() implies #[trigger] rest[i] != ListenerEvent::AcceptFailed by {
                        assert(rest[i] == es[i + 1]);
                    }
                }
            }
        }
    }
}

proof fn lemma_stopped_stays(limit: Option<u64>, live: u64, es: Seq<ListenerEvent>)
    ensures
        !serving_after(false, limit, live, es),
    decreases es.len(),
{
    if es.len() > 0 {
        lemma_stopped_stays(limit, live, es.drop_first());
    }
}

} // verus!
