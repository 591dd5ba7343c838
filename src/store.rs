use crate::direction::PacketDirection;
use std::path::PathBuf;
use time::OffsetDateTime;
use vstd::prelude::*;
use vstd::string::StrSliceExecFns;

verus! {

/// std::path::PathBuf, the destination handed to the save hook.
#[verifier::external_type_specification]
#[verifier::external_body]
pub struct ExPathBuf(PathBuf);

/// std::io::Error, the error the save hook may report.
#[verifier::external_type_specification]
#[verifier::external_body]
pub struct ExIoError(std::io::Error);

/// A character that may appear in a packet's type name: an ASCII letter or digit.
pub open spec fn is_name_char(c: char) -> bool {
    ('a' <= c && c <= 'z') || ('A' <= c && c <= 'Z') || ('0' <= c && c <= '9')
}

/// `name` is the packet name held by `text`, the debug rendering of a packet:
/// the longest prefix of `text` made of name characters only.
pub open spec fn is_packet_name_of(name: Seq<char>, text: Seq<char>) -> bool {
    &&& name.len() <= text.len()
    &&& name == text.subrange(0, name.len() as int)
    &&& forall|j: int| 0 <= j < name.len() ==> #[trigger] is_name_char(name[j])
    &&& (name.len() == text.len() || !is_name_char(text[name.len() as int]))
}

fn is_name_char_exec(c: char) -> (r: bool)
    ensures
        r == is_name_char(c),
{
    ('a' <= c && c <= 'z') || ('A' <= c && c <= 'Z') || ('0' <= c && c <= '9')
}

/// A frame waiting to become a log record: its direction and its bytes.
pub struct PacketBuilder {
    pub direction: PacketDirection,
    pub data: Vec<u8>,
}

impl PacketBuilder {
    /// The record for this frame, stamped with `created_at`, not selected,
    /// with id 0 until the store assigns the real one.
    pub fn into_packet(self, created_at: OffsetDateTime) -> (r: Packet)
        ensures
            r.id == 0,
            r.direction == self.direction,
            !r.selected,
            r.packet@ == self.data@,
            r.created_at == created_at,
    {
        Packet { id: 0, direction: self.direction, selected: false, packet: self.data, created_at }
    }
}

/// One observed frame: its ordinal in the log, its direction, the bytes that
/// were forwarded and the time it was seen.
#[derive(Clone)]
pub struct Packet {
    pub id: usize,
    pub direction: PacketDirection,
    pub selected: bool,
    pub packet: Vec<u8>,
    pub created_at: OffsetDateTime,
}

impl Packet {
    /// This record with its id replaced by `id`.
    pub open spec fn with_id(self, id: usize) -> Packet {
        Packet { id, ..self }
    }

    /// Sets the display-selection flag.
    pub fn selected(&mut self, value: bool)
        ensures
            *final(self) == (Packet { selected: value, ..*old(self) }),
    {
        self.selected = value;
    }

    /// The packet id byte: the first byte of the frame.
    pub fn get_packet_type(&self) -> (r: u8)
        requires
            self.packet@.len() > 0,
        ensures
            r == self.packet@[0],
    {
        self.packet[0]
    }

    /// The type name of a packet from its debug rendering: the text up to the
    /// first character that is not an ASCII letter or digit, or all of it.
    pub fn get_packet_name(debug_text: &str) -> (r: String)
        ensures
            is_packet_name_of(r@, debug_text@),
    {
        let n = debug_text.unicode_len();
        let mut i: usize = 0;
        while i < n && is_name_char_exec(debug_text.get_char(i))
            invariant
                i <= n,
                n == debug_text@.len(),
                forall|j: int| 0 <= j < i ==> #[trigger] is_name_char(debug_text@[j]),
            decreases n - i,
        {
            i = i + 1;
        }
        let name = debug_text.substring_char(0, i);
        name.to_owned()
    }
}

/// The shared log of observed frames, with the viewer's selection and filter.
pub struct PacketStore {
    /// The id that the viewer selected, if any.
    pub selected_packet: Option<usize>,
    /// The records in insertion order.
    pub packets: Vec<Packet>,
    /// The viewer's filter text.
    pub filter: String,
    /// The viewer to notify when the log changes; absent when headless.
    pub context: Option<egui::Context>,
}

impl PacketStore {
    /// Each record's id is its position in the log.
    pub open spec fn wf(&self) -> bool {
        forall|i: int| 0 <= i < self.packets@.len() ==> #[trigger] self.packets@[i].id == i
    }

    /// An empty log with no selection and an empty filter.
    pub fn new(ctx: Option<egui::Context>) -> (r: Self)
        ensures
            r.wf(),
            r.packets@.len() == 0,
            r.selected_packet is None,
            r.filter@.len() == 0,
            r.context == ctx,
    {
        PacketStore { selected_packet: None, packets: Vec::new(), filter: String::new(), context: ctx }
    }

    fn notify(&self) {
        if let Some(ctx) = &self.context {
            ctx.request_repaint();
        }
    }

    /// Empties the log and clears the selection; the filter stays.
    pub fn clear(&mut self)
        ensures
            final(self).wf(),
            final(self).packets@.len() == 0,
            final(self).selected_packet is None,
            final(self).filter == old(self).filter,
            final(self).context == old(self).context,
    {
        self.selected_packet = None;
        self.packets.clear();
        self.notify();
    }

    /// Appends `packet` with the next id, which is the log's length before
    /// the call; the selection and the filter stay.
    pub fn add(&mut self, packet: Packet)
        ensures
            final(self).packets@ == old(self).packets@.push(packet.with_id(old(self).packets@.len() as usize)),
            final(self).packets@.last().id == old(self).packets@.len(),
            final(self).selected_packet == old(self).selected_packet,
            final(self).filter == old(self).filter,
            final(self).context == old(self).context,
            old(self).wf() ==> final(self).wf(),
    {
        let mut packet = packet;
        packet.id = self.packets.len();
        self.packets.push(packet);
        self.notify();
    }

    /// Records `idx` as the selected id; it is not checked against the log.
    pub fn set_selected_packet(&mut self, idx: usize)
        ensures
            final(self).selected_packet == Some(idx),
            final(self).packets == old(self).packets,
            final(self).filter == old(self).filter,
            final(self).context == old(self).context,
    {
        self.selected_packet = Some(idx);
    }

    /// Replaces the filter text and clears the selection.
    pub fn set_filter(&mut self, filter: String)
        ensures
            final(self).filter == filter,
            final(self).selected_packet is None,
            final(self).packets == old(self).packets,
            final(self).context == old(self).context,
    {
        self.filter = filter;
        self.selected_packet = None;
    }

    /// Hook for writing the log to `path`; nothing is written yet, and it
    /// always succeeds.
    pub fn save(&self, path: PathBuf) -> (r: Result<(), std::io::Error>)
        ensures
            r is Ok,
    {
        Ok(())
    }
}

/// The log after one `add` of each record of `ops`, in order, starting from `log`.
pub open spec fn after_adds(log: Seq<Packet>, ops: Seq<Packet>) -> Seq<Packet>
    decreases ops.len(),
{
    if ops.len() == 0 {
        log
    } else {
        after_adds(log.push(ops[0].with_id(log.len() as usize)), ops.drop_first())
    }
}

proof fn lemma_after_adds(log: Seq<Packet>, ops: Seq<Packet>)
    requires
        log.len() + ops.len() <= usize::MAX,
    ensures
        after_adds(log, ops).len() == log.len() + ops.len(),
        forall|i: int| 0 <= i < log.len() ==> #[trigger] after_adds(log, ops)[i] == log[i],
        forall|j: int|
            0 <= j < ops.len() ==> #[trigger] after_adds(log, ops)[log.len() + j] == ops[j].with_id(
                (log.len() + j) as usize,
            ),
    decreases ops.len(),
{
    if ops.len() > 0 {
        let next = log.push(ops[0].with_id(log.len() as usize));
        lemma_after_adds(next, ops.drop_first());
        assert forall|j: int| 0 <= j < ops.len() implies #[trigger] after_adds(log, ops)[log.len()
            + j] == ops[j].with_id((log.len() + j) as usize) by {
            if j > 0 {
                assert(after_adds(next, ops.drop_first())[next.len() + (j - 1)] == ops.drop_first()[j
                    - 1].with_id((next.len() + (j - 1)) as usize));
            }
        }
    }
}

/// Adds from any number of pipelines, interleaved in any order, onto an
/// empty log: the log holds exactly one record per add, in the order the adds
/// happened, and the record at position i has id i, so the ids run from 0 to
/// the number of adds minus one, none of them twice.
pub proof fn lemma_interleaved_adds(ops: Seq<Packet>)
    requires
        ops.len() <= usize::MAX,
    ensures
        after_adds(Seq::empty(), ops).len() == ops.len(),
        forall|i: int|
            0 <= i < ops.len() ==> #[trigger] after_adds(Seq::empty(), ops)[i] == ops[i].with_id(
                i as usize,
            ),
        forall|i: int, j: int|
            0 <= i < ops.len() && 0 <= j < ops.len() && i != j ==> #[trigger] after_adds(
                Seq::empty(),
                ops,
            )[i].id != #[trigger] after_adds(Seq::empty(), ops)[j].id,
{
    lemma_after_adds(Seq::empty(), ops);
    assert forall|i: int| 0 <= i < ops.len() implies #[trigger] after_adds(Seq::empty(), ops)[i]
        == ops[i].with_id(i as usize) by {
        assert(after_adds(Seq::<Packet>::empty(), ops)[0 + i] == ops[i].with_id((0 + i) as usize));
    }
}

} // verus!
