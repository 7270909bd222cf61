use vstd::prelude::*;
use vstd::string::StringExecFns;

verus! {

/// Where the setup of one accepted local connection stands.
#[derive(PartialEq, Eq, Structural, Clone, Copy, Debug)]
pub enum Handoff {
    /// A channel to the target has been requested for the connection.
    Opening,
    /// The channel opened; the connection and the channel form a relay pair.
    Relaying,
    /// The channel could not be opened; the connection was closed.
    Discarded,
}

/// What the driver must do for the connection.
#[derive(PartialEq, Eq, Structural, Clone, Copy, Debug)]
pub enum HandoffAction {
    /// Ask the session for a direct-TCP channel to the target.
    OpenChannel,
    /// Pair the connection with the new channel and relay between them.
    StartRelay,
    /// Close the local connection and forget it.
    CloseLocal,
    /// Nothing: the setup is already decided.
    Nothing,
}

/// The direct-TCP channel request made for one connection: the target, and
/// the originator, for which a placeholder stands (`127.0.0.1`, port 0).
pub struct ChannelRequest {
    pub host: String,
    pub port: u32,
    pub originator_address: String,
    pub originator_port: u32,
}

impl ChannelRequest {
    /// The request for a connection forwarded to `remote_host:remote_port`.
    pub fn to_target(remote_host: &String, remote_port: u16) -> (r: ChannelRequest)
        ensures
            r.host@ == remote_host@,
            r.port == remote_port as u32,
            r.originator_address@ == "127.0.0.1"@,
            r.originator_port == 0,
    {
        ChannelRequest {
            host: remote_host.clone(),
            port: remote_port as u32,
            originator_address: String::from_str("127.0.0.1"),
            originator_port: 0,
        }
    }
}

/// One transition of the setup, given whether the channel opened.
pub open spec fn handoff_step(h: Handoff, opened: bool) -> (Handoff, HandoffAction) {
    match h {
        Handoff::Opening => if opened {
            (Handoff::Relaying, HandoffAction::StartRelay)
        } else {
            (Handoff::Discarded, HandoffAction::CloseLocal)
        },
        _ => (h, HandoffAction::Nothing),
    }
}

/// The actions of a setup from acceptance on, given the channel results
/// reported in order.
pub open spec fn handoff_actions(h: Handoff, results: Seq<bool>) -> Seq<HandoffAction>
    decreases results.len(),
{
    if results.len() == 0 {
        Seq::empty()
    } else {
        let (h1, a) = handoff_step(h, results[0]);
        seq![a] + handoff_actions(h1, results.drop_first())
    }
}

/// How often an action occurs in a sequence.
pub open spec fn count_of(acts: Seq<HandoffAction>, a: HandoffAction) -> nat
    decreases acts.len(),
{
    if acts.len() == 0 {
        0
    } else {
        (if acts[0] == a { 1nat } else { 0nat }) + count_of(acts.drop_first(), a)
    }
}

impl Handoff {
    /// A connection was accepted: its setup starts by asking for a channel.
    pub fn accept() -> (r: (Handoff, HandoffAction))
        ensures
            r == (Handoff::Opening, HandoffAction::OpenChannel),
    {
        (Handoff::Opening, HandoffAction::OpenChannel)
    }

    /// Takes the result of the channel request into account.
    pub fn on_channel(&mut self, opened: bool) -> (a: HandoffAction)
        ensures
            (*final(self), a) == handoff_step(*old(self), opened),
    {
        match *self {
            Handoff::Opening => {
                if opened {
                    *self = Handoff::Relaying;
                    HandoffAction::StartRelay
                } else {
                    *self = Handoff::Discarded;
                    HandoffAction::CloseLocal
                }
            },
            _ => HandoffAction::Nothing,
        }
    }
}

proof fn lemma_decided_is_quiet(h: Handoff, results: Seq<bool>)
    requires
        h != Handoff::Opening,
    ensures
        count_of(handoff_actions(h, results), HandoffAction::OpenChannel) == 0,
        count_of(handoff_actions(h, results), HandoffAction::StartRelay) == 0,
        count_of(handoff_actions(h, results), HandoffAction::CloseLocal) == 0,
    decreases results.len(),
{
    if results.len() > 0 {
        lemma_decided_is_quiet(h, results.drop_first());
        let acts = handoff_actions(h, results);
        assert(acts.drop_first() =~= handoff_actions(h, results.drop_first()));
    }
}

/// Each accepted connection gets exactly one channel request. If the channel
/// opens, exactly one relay pair is started and the connection is not closed
/// by the setup; if it does not, the connection is closed once and no pair is
/// started. Later reports change nothing.
pub proof fn law_one_channel_per_connection(results: Seq<bool>)
    requires
        results.len() >= 1,
    ensures
        ({
            let acts = seq![HandoffAction::OpenChannel] + handoff_actions(
                Handoff::Opening,
                results,
            );
            &&& count_of(acts, HandoffAction::OpenChannel) == 1
            &&& count_of(acts, HandoffAction::StartRelay) == if results[0] {
                1nat
            } else {
                0nat
            }
            &&& count_of(acts, HandoffAction::CloseLocal) == if results[0] {
                0nat
            } else {
                1nat
            }
        }),
{
    let (h1, a) = handoff_step(Handoff::Opening, results[0]);
    let rest = handoff_actions(h1, results.drop_first());
    lemma_decided_is_quiet(h1, results.drop_first());
    let inner = handoff_actions(Handoff::Opening, results);
    assert(inner == seq![a] + rest);
    assert(inner.drop_first() =~= rest);
    let acts = seq![HandoffAction::OpenChannel] + inner;
    assert(acts.drop_first() =~= inner);
    assert(acts[0] == HandoffAction::OpenChannel);
    assert(inner[0] == a);
    assert(count_of(acts, HandoffAction::OpenChannel) == 1 + count_of(
        inner,
        HandoffAction::OpenChannel,
    ));
    assert(count_of(acts, HandoffAction::StartRelay) == count_of(inner, HandoffAction::StartRelay));
    assert(count_of(acts, HandoffAction::CloseLocal) == count_of(inner, HandoffAction::CloseLocal));
    assert(count_of(inner, HandoffAction::OpenChannel) == 0);
    assert(count_of(inner, HandoffAction::StartRelay) == if results[0] {
        1nat
    } else {
        0nat
    });
    assert(count_of(inner, HandoffAction::CloseLocal) == if results[0] {
        0nat
    } else {
        1nat
    });
}

} // verus!
