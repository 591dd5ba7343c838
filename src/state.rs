use crate::clock::current_time;
use crate::direction::PacketDirection;
use crate::store::{PacketBuilder, PacketStore};
use vstd::prelude::*;

verus! {

/// How many bytes the decoder is asked to make room for before each read.
pub const FILL_CHUNK: usize = 4096;

/// Why a relay pipeline ended.
#[derive(Clone, Copy, Debug, PartialEq, Eq, Structural)]
pub enum RelayError {
    /// The peer closed the stream: a read returned no bytes.
    ConnectionClosed,
    /// A read or a write on a socket failed.
    IoError,
    /// The decoder said a frame was ready but yielded no packet.
    MalformedFrame,
}

/// What a relay pipeline waits for next.
pub enum RelayPhase {
    /// Ask the decoder whether a complete frame is buffered.
    Checking,
    /// Reserve `FILL_CHUNK` bytes in the decoder, read once into its buffer
    /// and hand the filled buffer back to it.
    Reading,
    /// Decode one packet and re-encode it.
    Decoding,
    /// Write these re-encoded bytes downstream in one logical write.
    Writing(Vec<u8>),
    /// The pipeline has ended for good.
    Stopped(RelayError),
}

/// The outcome of the work that the current phase asked for.
pub enum RelayEvent {
    /// Whether the decoder holds a complete frame.
    FrameReady(bool),
    /// A read returned this many bytes.
    BytesRead(usize),
    /// A read failed.
    ReadFailed,
    /// The re-encoded bytes of the decoded packet, or nothing when the
    /// decoder yielded no packet.
    Reencoded(Option<Vec<u8>>),
    /// Whether the write of the re-encoded bytes succeeded.
    Written(bool),
}

/// The mathematical view of a relay phase.
pub enum PhaseModel {
    Checking,
    Reading,
    Decoding,
    Writing(Seq<u8>),
    Stopped(RelayError),
}

/// The mathematical view of a relay event.
pub enum EventModel {
    FrameReady(bool),
    BytesRead(nat),
    ReadFailed,
    Reencoded(Option<Seq<u8>>),
    Written(bool),
}

impl View for RelayPhase {
    type V = PhaseModel;

    open spec fn view(&self) -> PhaseModel {
        match self {
            RelayPhase::Checking => PhaseModel::Checking,
            RelayPhase::Reading => PhaseModel::Reading,
            RelayPhase::Decoding => PhaseModel::Decoding,
            RelayPhase::Writing(b) => PhaseModel::Writing(b@),
            RelayPhase::Stopped(e) => PhaseModel::Stopped(*e),
        }
    }
}

impl View for RelayEvent {
    type V = EventModel;

    open spec fn view(&self) -> EventModel {
        match self {
            RelayEvent::FrameReady(b) => EventModel::FrameReady(*b),
            RelayEvent::BytesRead(n) => EventModel::BytesRead(*n as nat),
            RelayEvent::ReadFailed => EventModel::ReadFailed,
            RelayEvent::Reencoded(o) => EventModel::Reencoded(
                match o {
                    Some(b) => Some(b@),
                    None => None,
                },
            ),
            RelayEvent::Written(ok) => EventModel::Written(*ok),
        }
    }
}

/// The phase that follows `p` on event `e`. An event that `p` did not ask
/// for changes nothing.
pub open spec fn next_phase(p: PhaseModel, e: EventModel) -> PhaseModel {
    match (p, e) {
        (PhaseModel::Checking, EventModel::FrameReady(ready)) => if ready {
            PhaseModel::Decoding
        } else {
            PhaseModel::Reading
        },
        (PhaseModel::Reading, EventModel::BytesRead(n)) => if n == 0 {
            PhaseModel::Stopped(RelayError::ConnectionClosed)
        } else {
            PhaseModel::Checking
        },
        (PhaseModel::Reading, EventModel::ReadFailed) => PhaseModel::Stopped(RelayError::IoError),
        (PhaseModel::Decoding, EventModel::Reencoded(o)) => match o {
            Some(b) => PhaseModel::Writing(b),
            None => PhaseModel::Stopped(RelayError::MalformedFrame),
        },
        (PhaseModel::Writing(_), EventModel::Written(ok)) => if ok {
            PhaseModel::Checking
        } else {
            PhaseModel::Stopped(RelayError::IoError)
        },
        _ => p,
    }
}

/// The frame that the step from `p` on `e` puts into the log: the bytes just
/// written, once the write has succeeded.
pub open spec fn logged_frame(p: PhaseModel, e: EventModel) -> Option<Seq<u8>> {
    match (p, e) {
        (PhaseModel::Writing(b), EventModel::Written(true)) => Some(b),
        _ => None,
    }
}

/// The phase reached from `p` through `events`, and the frames logged on
/// the way, in order.
pub open spec fn run(p: PhaseModel, events: Seq<EventModel>) -> (PhaseModel, Seq<Seq<u8>>)
    decreases events.len(),
{
    if events.len() == 0 {
        (p, Seq::empty())
    } else {
        let rest = run(next_phase(p, events[0]), events.drop_first());
        match logged_frame(p, events[0]) {
            Some(b) => (rest.0, seq![b] + rest.1),
            None => rest,
        }
    }
}

/// The events of a fill loop that reads chunks of the given sizes, the
/// decoder reporting no complete frame before each read.
pub open spec fn fill_events(reads: Seq<nat>) -> Seq<EventModel>
    decreases reads.len(),
{
    if reads.len() == 0 {
        Seq::empty()
    } else {
        seq![EventModel::FrameReady(false), EventModel::BytesRead(reads[0])] + fill_events(
            reads.drop_first(),
        )
    }
}

/// The events that relay one frame: the fill loop, then the decoder reports
/// a complete frame, which re-encodes to `frame` and is written downstream.
pub open spec fn frame_events(reads: Seq<nat>, frame: Seq<u8>) -> Seq<EventModel> {
    fill_events(reads) + seq![
        EventModel::FrameReady(true),
        EventModel::Reencoded(Some(frame)),
        EventModel::Written(true),
    ]
}

/// The events of a whole session: each frame of `frames` arrives over the
/// chunk reads of the same position in `reads`; then the stream ends with a
/// read of no bytes.
pub open spec fn session_events(frames: Seq<Seq<u8>>, reads: Seq<Seq<nat>>) -> Seq<EventModel>
    decreases frames.len(),
{
    if frames.len() == 0 || reads.len() == 0 {
        seq![EventModel::FrameReady(false), EventModel::BytesRead(0)]
    } else {
        frame_events(reads[0], frames[0]) + session_events(frames.drop_first(), reads.drop_first())
    }
}

proof fn lemma_run_append(p: PhaseModel, a: Seq<EventModel>, b: Seq<EventModel>)
    ensures
        run(p, a + b).0 == run(run(p, a).0, b).0,
        run(p, a + b).1 == run(p, a).1 + run(run(p, a).0, b).1,
    decreases a.len(),
{
    if a.len() == 0 {
        assert(a + b =~= b);
        assert(run(p, a).1 + run(p, b).1 =~= run(p, b).1);
    } else {
        assert((a + b)[0] == a[0]);
        assert((a + b).drop_first() =~= a.drop_first() + b);
        lemma_run_append(next_phase(p, a[0]), a.drop_first(), b);
        let q = next_phase(p, a[0]);
        match logged_frame(p, a[0]) {
            Some(f) => {
                assert(seq![f] + run(q, a.drop_first()).1 + run(run(q, a.drop_first()).0, b).1
                    =~= seq![f] + (run(q, a.drop_first()).1 + run(run(q, a.drop_first()).0, b).1));
            },
            None => {},
        }
    }
}

proof fn lemma_fill(reads: Seq<nat>)
    requires
        forall|i: int| 0 <= i < reads.len() ==> #[trigger] reads[i] > 0,
    ensures
        run(PhaseModel::Checking, fill_events(reads)).0 == PhaseModel::Checking,
        run(PhaseModel::Checking, fill_events(reads)).1 == Seq::<Seq<u8>>::empty(),
    decreases reads.len(),
{
    if reads.len() > 0 {
        let head = seq![EventModel::FrameReady(false), EventModel::BytesRead(reads[0])];
        assert forall|i: int| 0 <= i < reads.drop_first().len() implies #[trigger] reads.drop_first()[i]
            > 0 by {
            assert(reads[i + 1] > 0);
        }
        lemma_fill(reads.drop_first());
        reveal_with_fuel(run, 3);
        lemma_run_append(PhaseModel::Checking, head, fill_events(reads.drop_first()));
        assert(reads[0] > 0);
        assert(head.drop_first().drop_first() =~= Seq::<EventModel>::empty());
        assert(run(PhaseModel::Checking, head).1 =~= Seq::<Seq<u8>>::empty());
        assert(Seq::<Seq<u8>>::empty() + Seq::<Seq<u8>>::empty() =~= Seq::<Seq<u8>>::empty());
    }
}

proof fn lemma_frame(reads: Seq<nat>, frame: Seq<u8>)
    requires
        forall|i: int| 0 <= i < reads.len() ==> #[trigger] reads[i] > 0,
    ensures
        run(PhaseModel::Checking, frame_events(reads, frame)).0 == PhaseModel::Checking,
        run(PhaseModel::Checking, frame_events(reads, frame)).1 == seq![frame],
{
    let tail = seq![
        EventModel::FrameReady(true),
        EventModel::Reencoded(Some(frame)),
        EventModel::Written(true),
    ];
    reveal_with_fuel(run, 4);
    lemma_fill(reads);
    lemma_run_append(PhaseModel::Checking, fill_events(reads), tail);
    assert(tail.drop_first().drop_first().drop_first() =~= Seq::<EventModel>::empty());
    assert(run(PhaseModel::Writing(frame), tail.drop_first().drop_first()).1 =~= seq![frame]);
    assert(Seq::<Seq<u8>>::empty() + seq![frame] =~= seq![frame]);
}

/// A session that delivers `frames`, each over any number of non-empty chunk
/// reads, and then ends with a read of no bytes, logs exactly those frames,
/// once each and in order, and ends the pipeline with `ConnectionClosed`.
pub proof fn lemma_session_relays_every_frame(frames: Seq<Seq<u8>>, reads: Seq<Seq<nat>>)
    requires
        reads.len() == frames.len(),
        forall|k: int, i: int|
            0 <= k < reads.len() && 0 <= i < reads[k].len() ==> #[trigger] reads[k][i] > 0,
    ensures
        run(PhaseModel::Checking, session_events(frames, reads)).0 == PhaseModel::Stopped(
            RelayError::ConnectionClosed,
        ),
        run(PhaseModel::Checking, session_events(frames, reads)).1 == frames,
    decreases frames.len(),
{
    if frames.len() == 0 {
        reveal_with_fuel(run, 3);
        let ev = seq![EventModel::FrameReady(false), EventModel::BytesRead(0)];
        assert(ev.drop_first().drop_first() =~= Seq::<EventModel>::empty());
        assert(run(PhaseModel::Checking, ev).1 =~= frames);
    } else {
        assert forall|k: int, i: int|
            0 <= k < reads.drop_first().len() && 0 <= i < reads.drop_first()[k].len()
            implies #[trigger] reads.drop_first()[k][i] > 0 by {
            assert(reads[k + 1][i] > 0);
        }
        assert forall|i: int| 0 <= i < reads[0].len() implies #[trigger] reads[0][i] > 0 by {
            assert(reads[0][i] > 0);
        }
        lemma_session_relays_every_frame(frames.drop_first(), reads.drop_first());
        lemma_frame(reads[0], frames[0]);
        lemma_run_append(
            PhaseModel::Checking,
            frame_events(reads[0], frames[0]),
            session_events(frames.drop_first(), reads.drop_first()),
        );
        assert(seq![frames[0]] + frames.drop_first() =~= frames);
    }
}

/// One direction of a relayed connection: its fixed direction and the phase
/// it is in.
pub struct State {
    pub direction: PacketDirection,
    pub phase: RelayPhase,
}

impl State {
    /// A pipeline about to look for its first frame.
    pub fn new(direction: PacketDirection) -> (r: State)
        ensures
            r.direction == direction,
            r.phase@ == PhaseModel::Checking,
    {
        State { direction, phase: RelayPhase::Checking }
    }

    /// Takes the outcome of the work the current phase asked for and moves
    /// to the next phase. After a successful write it records the written
    /// bytes in `store`, with this pipeline's direction and the current
    /// time, and returns true: one frame has been relayed.
    pub fn rw_packet(&mut self, store: &mut PacketStore, event: RelayEvent) -> (relayed: bool)
        ensures
            final(self).phase@ == next_phase(old(self).phase@, event@),
            final(self).direction == old(self).direction,
            relayed == logged_frame(old(self).phase@, event@) is Some,
            old(self).phase@ == PhaseModel::Reading && event@ == EventModel::BytesRead(0)
                ==> final(self).phase@ == PhaseModel::Stopped(RelayError::ConnectionClosed),
            final(store).selected_packet == old(store).selected_packet,
            final(store).filter == old(store).filter,
            old(store).wf() ==> final(store).wf(),
            !relayed ==> final(store).packets@ == old(store).packets@,
            relayed ==> {
                let n = old(store).packets@.len();
                let p = final(store).packets@[n as int];
                &&& final(store).packets@.len() == n + 1
                &&& final(store).packets@.subrange(0, n as int) == old(store).packets@
                &&& p.id == n
                &&& p.direction == old(self).direction
                &&& !p.selected
                &&& p.packet@ == logged_frame(old(self).phase@, event@)->Some_0
            },
    {
        let ghost old_phase = self.phase@;
        let ghost ev = event@;
        let ghost old_packets = store.packets@;
        let mut phase = RelayPhase::Checking;
        std::mem::swap(&mut self.phase, &mut phase);
        let (next, written): (RelayPhase, Option<Vec<u8>>) = match (phase, event) {
            (RelayPhase::Checking, RelayEvent::FrameReady(ready)) => if ready {
                (RelayPhase::Decoding, None)
            } else {
                (RelayPhase::Reading, None)
            },
            (RelayPhase::Reading, RelayEvent::BytesRead(n)) => if n == 0 {
                (RelayPhase::Stopped(RelayError::ConnectionClosed), None)
            } else {
                (RelayPhase::Checking, None)
            },
            (RelayPhase::Reading, RelayEvent::ReadFailed) => (RelayPhase::Stopped(RelayError::IoError), None),
            (RelayPhase::Decoding, RelayEvent::Reencoded(o)) => match o {
                Some(b) => (RelayPhase::Writing(b), None),
                None => (RelayPhase::Stopped(RelayError::MalformedFrame), None),
            },
            (RelayPhase::Writing(b), RelayEvent::Written(ok)) => if ok {
                (RelayPhase::Checking, Some(b))
            } else {
                (RelayPhase::Stopped(RelayError::IoError), None)
            },
            (p, _) => (p, None),
        };
        assert(written is Some <==> logged_frame(old_phase, ev) is Some);
        assert(written is Some ==> logged_frame(old_phase, ev) == Some(written->Some_0@));
        self.phase = next;
        match written {
            Some(bytes) => {
                let builder = PacketBuilder { direction: self.direction, data: bytes };
                let packet = builder.into_packet(current_time());
                store.add(packet);
                assert(store.packets@.subrange(0, old_packets.len() as int) =~= old_packets);
                true
            },
            None => false,
        }
    }
}

} // verus!
