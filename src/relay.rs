use vstd::prelude::*;

verus! {

/// Where one relay pair (a local socket and its channel) stands.
#[derive(PartialEq, Eq, Structural, Clone, Copy, Debug)]
pub enum RelayState {
    /// Both directions are open.
    Active,
    /// The local peer ended its output and end-of-stream was sent to the
    /// channel; the pair closes without reading more.
    LocalHalfClosed,
    /// Both ends have been released; nothing happens any more.
    Closed,
}

/// What the driver of a pair observed since the last step.
pub enum RelayEvent {
    /// A read on the local socket returned these bytes; none means the local
    /// peer closed its side.
    LocalRead(Vec<u8>),
    /// A read on the local socket failed.
    LocalReadFailed,
    /// Writing channel data to the local socket failed.
    LocalWriteFailed,
    /// The channel delivered these bytes.
    RemoteData(Vec<u8>),
    /// The channel signalled end-of-stream.
    RemoteEof,
    /// The channel signalled close.
    RemoteClose,
    /// The channel has no further messages.
    RemoteEnded,
    /// The channel delivered a message of another kind.
    RemoteOther,
    /// Sending local bytes on the channel failed.
    RemoteWriteFailed,
    /// The end-of-stream signal was handed to the channel (whatever came of it).
    EofSent,
}

/// What the driver must do next for a pair.
pub enum RelayAction {
    /// Send these bytes as one data message on the channel.
    SendToRemote(Vec<u8>),
    /// Write all of these bytes to the local socket.
    WriteToLocal(Vec<u8>),
    /// Send end-of-stream on the channel, then report `EofSent`.
    SendEof,
    /// Nothing to do: wait for whichever side is ready first.
    Wait,
    /// Release both the local socket and the channel; the pair is over.
    Release,
    /// The pair is already over; nothing is done.
    Idle,
}

/// The mathematical content of an action.
pub ghost enum Effect {
    ToRemote(Seq<u8>),
    ToLocal(Seq<u8>),
    Eof,
    Wait,
    Release,
    Idle,
}

impl RelayAction {
    pub open spec fn effect(self) -> Effect {
        match self {
            RelayAction::SendToRemote(b) => Effect::ToRemote(b@),
            RelayAction::WriteToLocal(b) => Effect::ToLocal(b@),
            RelayAction::SendEof => Effect::Eof,
            RelayAction::Wait => Effect::Wait,
            RelayAction::Release => Effect::Release,
            RelayAction::Idle => Effect::Idle,
        }
    }
}

/// Whether an event ends an active pair outright.
pub open spec fn is_fatal(e: RelayEvent) -> bool {
    match e {
        RelayEvent::LocalReadFailed | RelayEvent::LocalWriteFailed | RelayEvent::RemoteEof
        | RelayEvent::RemoteClose | RelayEvent::RemoteEnded | RelayEvent::RemoteWriteFailed => true,
        _ => false,
    }
}

/// One transition of the relay: the next state and what is done.
pub open spec fn relay_step(s: RelayState, e: RelayEvent) -> (RelayState, Effect) {
    match s {
        RelayState::Closed => (RelayState::Closed, Effect::Idle),
        RelayState::LocalHalfClosed => (RelayState::Closed, Effect::Release),
        RelayState::Active => match e {
            RelayEvent::LocalRead(b) => if b@.len() == 0 {
                (RelayState::LocalHalfClosed, Effect::Eof)
            } else {
                (RelayState::Active, Effect::ToRemote(b@))
            },
            RelayEvent::RemoteData(b) => (RelayState::Active, Effect::ToLocal(b@)),
            RelayEvent::RemoteOther | RelayEvent::EofSent => (RelayState::Active, Effect::Wait),
            _ => (RelayState::Closed, Effect::Release),
        },
    }
}

/// Runs the relay over a sequence of events: the final state and the effects
/// in order.
pub open spec fn relay_run(s: RelayState, es: Seq<RelayEvent>) -> (RelayState, Seq<Effect>)
    decreases es.len(),
{
    if es.len() == 0 {
        (s, Seq::empty())
    } else {
        let (s1, f) = relay_step(s, es[0]);
        let (s2, fs) = relay_run(s1, es.drop_first());
        (s2, seq![f] + fs)
    }
}

/// The bytes sent on the channel by a sequence of effects, in order.
pub open spec fn sent_to_remote(fs: Seq<Effect>) -> Seq<u8>
    decreases fs.len(),
{
    if fs.len() == 0 {
        Seq::empty()
    } else {
        let head = match fs[0] {
            Effect::ToRemote(b) => b,
            _ => Seq::empty(),
        };
        head + sent_to_remote(fs.drop_first())
    }
}

/// The bytes written to the local socket by a sequence of effects, in order.
pub open spec fn written_to_local(fs: Seq<Effect>) -> Seq<u8>
    decreases fs.len(),
{
    if fs.len() == 0 {
        Seq::empty()
    } else {
        let head = match fs[0] {
            Effect::ToLocal(b) => b,
            _ => Seq::empty(),
        };
        head + written_to_local(fs.drop_first())
    }
}

/// All bytes read from the local socket in a sequence of events, in order.
pub open spec fn local_bytes(es: Seq<RelayEvent>) -> Seq<u8>
    decreases es.len(),
{
    if es.len() == 0 {
        Seq::empty()
    } else {
        let head = match es[0] {
            RelayEvent::LocalRead(b) => b@,
            _ => Seq::empty(),
        };
        head + local_bytes(es.drop_first())
    }
}

/// All bytes delivered by the channel in a sequence of events, in order.
pub open spec fn remote_bytes(es: Seq<RelayEvent>) -> Seq<u8>
    decreases es.len(),
{
    if es.len() == 0 {
        Seq::empty()
    } else {
        let head = match es[0] {
            RelayEvent::RemoteData(b) => b@,
            _ => Seq::empty(),
        };
        head + remote_bytes(es.drop_first())
    }
}

/// How many times a sequence of effects releases the pair.
pub open spec fn releases(fs: Seq<Effect>) -> nat
    decreases fs.len(),
{
    if fs.len() == 0 {
        0
    } else {
        (if fs[0] is Release { 1nat } else { 0nat }) + releases(fs.drop_first())
    }
}

impl RelayState {
    /// The state of a freshly paired socket and channel.
    pub fn new() -> (r: RelayState)
        ensures
            r == RelayState::Active,
    {
        RelayState::Active
    }

    /// Whether the pair is over.
    pub fn is_closed(&self) -> (r: bool)
        ensures
            r == (*self == RelayState::Closed),
    {
        match self {
            RelayState::Closed => true,
            _ => false,
        }
    }

    /// Takes one event into account: moves to the next state and returns the
    /// action to perform. Bytes are handed on as they came, in one piece.
    pub fn step(&mut self, e: RelayEvent) -> (a: RelayAction)
        ensures
            (*final(self), a.effect()) == relay_step(*old(self), e),
    {
        match *self {
            RelayState::Closed => RelayAction::Idle,
            RelayState::LocalHalfClosed => {
                *self = RelayState::Closed;
                RelayAction::Release
            },
            RelayState::Active => match e {
                RelayEvent::LocalRead(b) => {
                    if b.len() == 0 {
                        *self = RelayState::LocalHalfClosed;
                        RelayAction::SendEof
                    } else {
                        RelayAction::SendToRemote(b)
                    }
                },
                RelayEvent::RemoteData(b) => RelayAction::WriteToLocal(b),
                RelayEvent::RemoteOther | RelayEvent::EofSent => RelayAction::Wait,
                _ => {
                    *self = RelayState::Closed;
                    RelayAction::Release
                },
            },
        }
    }
}


proof fn lemma_run_append(s: RelayState, a: Seq<RelayEvent>, b: Seq<RelayEvent>)
    ensures
        relay_run(s, a + b) == (relay_run(relay_run(s, a).0, b).0, relay_run(s, a).1 + relay_run(
            relay_run(s, a).0,
            b,
        ).1),
    decreases a.len(),
{
    if a.len() == 0 {
        assert(a + b =~= b);
        assert(relay_run(s, a).1 + relay_run(s, b).1 =~= relay_run(s, b).1);
    } else {
        let s1 = relay_step(s, a[0]).0;
        assert((a + b).drop_first() =~= a.drop_first() + b);
        assert((a + b)[0] == a[0]);
        lemma_run_append(s1, a.drop_first(), b);
        let f = relay_step(s, a[0]).1;
        let m = relay_run(s1, a.drop_first());
        let t = relay_run(m.0, b);
        assert(seq![f] + (m.1 + t.1) =~= (seq![f] + m.1) + t.1);
    }
}

proof fn lemma_sent_append(x: Seq<Effect>, y: Seq<Effect>)
    ensures
        sent_to_remote(x + y) == sent_to_remote(x) + sent_to_remote(y),
        written_to_local(x + y) == written_to_local(x) + written_to_local(y),
        releases(x + y) == releases(x) + releases(y),
    decreases x.len(),
{
    if x.len() == 0 {
        assert(x + y =~= y);
        assert(sent_to_remote(x) + sent_to_remote(y) =~= sent_to_remote(y));
        assert(written_to_local(x) + written_to_local(y) =~= written_to_local(y));
    } else {
        assert((x + y).drop_first() =~= x.drop_first() + y);
        assert((x + y)[0] == x[0]);
        lemma_sent_append(x.drop_first(), y);
        let h1 = match x[0] {
            Effect::ToRemote(b) => b,
            _ => Seq::<u8>::empty(),
        };
        let h2 = match x[0] {
            Effect::ToLocal(b) => b,
            _ => Seq::<u8>::empty(),
        };
        assert(h1 + (sent_to_remote(x.drop_first()) + sent_to_remote(y)) =~= (h1
            + sent_to_remote(x.drop_first())) + sent_to_remote(y));
        assert(h2 + (written_to_local(x.drop_first()) + written_to_local(y)) =~= (h2
            + written_to_local(x.drop_first())) + written_to_local(y));
    }
}

proof fn lemma_bytes_append(x: Seq<RelayEvent>, y: Seq<RelayEvent>)
    ensures
        local_bytes(x + y) == local_bytes(x) + local_bytes(y),
    decreases x.len(),
{
    if x.len() == 0 {
        assert(x + y =~= y);
        assert(local_bytes(x) + local_bytes(y) =~= local_bytes(y));
    } else {
        assert((x + y).drop_first() =~= x.drop_first() + y);
        assert((x + y)[0] == x[0]);
        lemma_bytes_append(x.drop_first(), y);
        let h = match x[0] {
            RelayEvent::LocalRead(b) => b@,
            _ => Seq::<u8>::empty(),
        };
        assert(h + (local_bytes(x.drop_first()) + local_bytes(y)) =~= (h + local_bytes(
            x.drop_first(),
        )) + local_bytes(y));
    }
}

/// Once a pair has left the active state, it sends and writes no more bytes.
proof fn lemma_inactive_is_silent(s: RelayState, es: Seq<RelayEvent>)
    requires
        s != RelayState::Active,
    ensures
        relay_run(s, es).0 != RelayState::Active,
        sent_to_remote(relay_run(s, es).1) == Seq::<u8>::empty(),
        written_to_local(relay_run(s, es).1) == Seq::<u8>::empty(),
    decreases es.len(),
{
    if es.len() > 0 {
        lemma_inactive_is_silent(relay_step(s, es[0]).0, es.drop_first());
        let fs = relay_run(relay_step(s, es[0]).0, es.drop_first()).1;
        assert(relay_run(s, es).1 == seq![relay_step(s, es[0]).1] + fs);
        assert(relay_run(s, es).1.drop_first() =~= fs);
        assert(Seq::<u8>::empty() + Seq::<u8>::empty() =~= Seq::<u8>::empty());
    }
}

/// Bytes are handed on in the order and with the content in which they came,
/// each once: what the channel received is a prefix of what the local peer
/// sent, and what the local peer received is a prefix of what the channel
/// delivered. While the pair stays active, nothing is held back.
pub proof fn law_order_kept(es: Seq<RelayEvent>)
    ensures
        sent_to_remote(relay_run(RelayState::Active, es).1).is_prefix_of(local_bytes(es)),
        written_to_local(relay_run(RelayState::Active, es).1).is_prefix_of(remote_bytes(es)),
        relay_run(RelayState::Active, es).0 == RelayState::Active ==> sent_to_remote(
            relay_run(RelayState::Active, es).1,
        ) == local_bytes(es) && written_to_local(relay_run(RelayState::Active, es).1)
            == remote_bytes(es),
    decreases es.len(),
{
    let s = RelayState::Active;
    if es.len() == 0 {
        assert(sent_to_remote(Seq::<Effect>::empty()) =~= Seq::<u8>::empty());
        assert(local_bytes(es).subrange(0, 0) =~= Seq::<u8>::empty());
        assert(remote_bytes(es).subrange(0, 0) =~= Seq::<u8>::empty());
    } else {
        let (s1, f) = relay_step(s, es[0]);
        let rest = es.drop_first();
        let fs = relay_run(s1, rest).1;
        let all = relay_run(s, es).1;
        assert(all == seq![f] + fs);
        assert(all.drop_first() =~= fs);
        assert(all[0] == f);
        let lb = local_bytes(es);
        let rb = remote_bytes(es);
        let lh = match es[0] {
            RelayEvent::LocalRead(b) => b@,
            _ => Seq::<u8>::empty(),
        };
        let rh = match es[0] {
            RelayEvent::RemoteData(b) => b@,
            _ => Seq::<u8>::empty(),
        };
        assert(lb == lh + local_bytes(rest));
        assert(rb == rh + remote_bytes(rest));
        if s1 == RelayState::Active {
            law_order_kept(rest);
            let sh = match f {
                Effect::ToRemote(b) => b,
                _ => Seq::<u8>::empty(),
            };
            let wh = match f {
                Effect::ToLocal(b) => b,
                _ => Seq::<u8>::empty(),
            };
            assert(sh == lh);
            assert(wh == rh);
            let sr = sent_to_remote(fs);
            let wr = written_to_local(fs);
            assert(sent_to_remote(all) == sh + sr);
            assert(written_to_local(all) == wh + wr);
            assert((lh + sr) =~= (lh + local_bytes(rest)).subrange(0, (lh + sr).len() as int));
            assert((rh + wr) =~= (rh + remote_bytes(rest)).subrange(0, (rh + wr).len() as int));
        } else {
            lemma_inactive_is_silent(s1, rest);
            assert(sent_to_remote(all) =~= Seq::<u8>::empty());
            assert(written_to_local(all) =~= Seq::<u8>::empty());
            assert(lb.subrange(0, 0) =~= Seq::<u8>::empty());
            assert(rb.subrange(0, 0) =~= Seq::<u8>::empty());
        }
    }
}

/// However a pair ends, it releases its socket and channel exactly once, and
/// a pair that has not ended releases nothing.
pub proof fn law_release_once(es: Seq<RelayEvent>)
    ensures
        releases(relay_run(RelayState::Active, es).1) == if relay_run(RelayState::Active, es).0
            == RelayState::Closed {
            1nat
        } else {
            0nat
        },
{
    lemma_release_count(RelayState::Active, es);
}

proof fn lemma_release_count(s: RelayState, es: Seq<RelayEvent>)
    ensures
        releases(relay_run(s, es).1) == if relay_run(s, es).0 == RelayState::Closed && s
            != RelayState::Closed {
            1nat
        } else {
            0nat
        },
        s == RelayState::Closed ==> relay_run(s, es).0 == RelayState::Closed,
    decreases es.len(),
{
    if es.len() > 0 {
        let (s1, f) = relay_step(s, es[0]);
        lemma_release_count(s1, es.drop_first());
        let fs = relay_run(s1, es.drop_first()).1;
        assert(relay_run(s, es).1.drop_first() =~= fs);
    }
}

/// When the local peer sends some bytes and then closes its side, the channel
/// receives exactly those bytes in order, then end-of-stream; the pair then
/// closes on its next step, whatever happens, without reading more.
pub proof fn law_half_close(reads: Seq<RelayEvent>, eof: RelayEvent, after: RelayEvent)
    requires
        forall|i: int|
            0 <= i < reads.len() ==> (#[trigger] reads[i] is LocalRead) && reads[i]->LocalRead_0@.len()
                > 0,
        eof is LocalRead,
        eof->LocalRead_0@.len() == 0,
    ensures
        ({
            let (st, fs) = relay_run(RelayState::Active, reads.push(eof));
            &&& st == RelayState::LocalHalfClosed
            &&& sent_to_remote(fs) == local_bytes(reads)
            &&& fs.last() == Effect::Eof
            &&& relay_step(st, after) == (RelayState::Closed, Effect::Release)
        }),
    decreases reads.len(),
{
    lemma_reads_stay_active(reads);
    lemma_run_append(RelayState::Active, reads, seq![eof]);
    let r = relay_run(RelayState::Active, reads);
    let t = relay_run(RelayState::Active, seq![eof]);
    assert(seq![eof].drop_first() =~= Seq::<RelayEvent>::empty());
    assert(seq![eof][0] == eof);
    assert(relay_run(RelayState::LocalHalfClosed, seq![eof].drop_first()) == (
    RelayState::LocalHalfClosed, Seq::<Effect>::empty()));
    assert(t.1 =~= seq![Effect::Eof]);
    assert(reads.push(eof) =~= reads + seq![eof]);
    lemma_sent_append(r.1, t.1);
    assert(seq![Effect::Eof].drop_first() =~= Seq::<Effect>::empty());
    assert(sent_to_remote(Seq::<Effect>::empty()) == Seq::<u8>::empty());
    assert(sent_to_remote(t.1) =~= Seq::<u8>::empty() + Seq::<u8>::empty());
    assert(sent_to_remote(r.1) + sent_to_remote(t.1) =~= sent_to_remote(r.1));
}

proof fn lemma_reads_stay_active(reads: Seq<RelayEvent>)
    requires
        forall|i: int|
            0 <= i < reads.len() ==> (#[trigger] reads[i] is LocalRead) && reads[i]->LocalRead_0@.len()
                > 0,
    ensures
        relay_run(RelayState::Active, reads).0 == RelayState::Active,
        sent_to_remote(relay_run(RelayState::Active, reads).1) == local_bytes(reads),
    decreases reads.len(),
{
    if reads.len() > 0 {
        let rest = reads.drop_first();
        assert forall|i: int| 0 <= i < rest.len() implies (#[trigger] rest[i] is LocalRead)
            && rest[i]->LocalRead_0@.len() > 0 by {
            assert(rest[i] == reads[i + 1]);
        }
        lemma_reads_stay_active(rest);
        assert(reads[0] is LocalRead);
        let fs = relay_run(RelayState::Active, rest).1;
        assert(relay_run(RelayState::Active, reads).1.drop_first() =~= fs);
    }
}

} // verus!
