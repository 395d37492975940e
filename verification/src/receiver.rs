//! The datagram receiver of the server: a file arrives as a start packet
//! with its path, numbered data packets that are acknowledged in order,
//! and an end packet.
use vstd::prelude::*;
use crate::byte_util::copy_range;

verus! {

/// Size of the receive buffer.
pub const BUFFER_SIZE: usize = 1024;

/// The end-of-file packet, `__EOF__`.
pub open spec fn eof_marker() -> Seq<u8> {
    seq![95u8, 95u8, 69u8, 79u8, 70u8, 95u8, 95u8]
}

/// The packet that stops the receiver, `exit`.
pub open spec fn exit_marker() -> Seq<u8> {
    seq![101u8, 120u8, 105u8, 116u8]
}

/// The prefix of a start-of-file packet, `__SOF__`.
pub open spec fn sof_marker() -> Seq<u8> {
    seq![95u8, 95u8, 83u8, 79u8, 70u8, 95u8, 95u8]
}

/// The big-endian value of four bytes.
pub open spec fn be32(b: Seq<u8>) -> u32 {
    (b[0] as int * 16777216 + b[1] as int * 65536 + b[2] as int * 256 + b[3] as int) as u32
}

/// What the receiver expects next.
pub struct ReceiverState {
    /// The number of the next data packet.
    pub expected_seq: u32,
    /// Whether a file is being received.
    pub receiving: bool,
}

/// What to do with one datagram.
pub enum ReceiverAction {
    /// An empty datagram: nothing.
    Nothing,
    /// The file is complete.
    FileDone,
    /// Stop receiving.
    Exit,
    /// A new file begins; its path, relative to the save directory, is in
    /// these bytes.
    StartFile { path: Vec<u8> },
    /// Append these bytes to the file and acknowledge packet `ack`.
    Append { data: Vec<u8>, ack: u32 },
    /// Out of order: acknowledge packet `ack` again.
    Resend { ack: u32 },
    /// Data without a file to put it in: ignored.
    Ignore,
    /// A data packet too short to hold its number.
    ShortPacket,
}

/// The content of a `ReceiverAction`.
pub enum ActionView {
    Nothing,
    FileDone,
    Exit,
    StartFile { path: Seq<u8> },
    Append { data: Seq<u8>, ack: u32 },
    Resend { ack: u32 },
    Ignore,
    ShortPacket,
}

impl View for ReceiverAction {
    type V = ActionView;

    open spec fn view(&self) -> ActionView {
        match self {
            ReceiverAction::Nothing => ActionView::Nothing,
            ReceiverAction::FileDone => ActionView::FileDone,
            ReceiverAction::Exit => ActionView::Exit,
            ReceiverAction::StartFile { path } => ActionView::StartFile { path: path@ },
            ReceiverAction::Append { data, ack } => ActionView::Append { data: data@, ack: *ack },
            ReceiverAction::Resend { ack } => ActionView::Resend { ack: *ack },
            ReceiverAction::Ignore => ActionView::Ignore,
            ReceiverAction::ShortPacket => ActionView::ShortPacket,
        }
    }
}

/// The receiver's step on datagram `p` (the received bytes; the rest of
/// the receive buffer is zero): the next state and the action.
pub open spec fn receive_step(s: ReceiverState, p: Seq<u8>) -> (ReceiverState, ActionView) {
    if p.len() == 0 {
        (s, ActionView::Nothing)
    } else if p == eof_marker() {
        (ReceiverState { expected_seq: 0, receiving: false }, ActionView::FileDone)
    } else if p == exit_marker() {
        (s, ActionView::Exit)
    } else if p.len() >= 7 && p.take(7) == sof_marker() {
        (
            ReceiverState { expected_seq: 0, receiving: true },
            ActionView::StartFile { path: p.skip(7) },
        )
    } else if !s.receiving {
        (s, ActionView::Ignore)
    } else if p.len() < 4 {
        (s, ActionView::ShortPacket)
    } else if be32(p) == s.expected_seq {
        (
            ReceiverState {
                expected_seq: if s.expected_seq == u32::MAX {
                    0
                } else {
                    (s.expected_seq + 1) as u32
                },
                receiving: true,
            },
            ActionView::Append { data: p.skip(4), ack: be32(p) },
        )
    } else {
        (
            s,
            ActionView::Resend {
                ack: if s.expected_seq == 0 {
                    0
                } else {
                    (s.expected_seq - 1) as u32
                },
            },
        )
    }
}

fn equals_marker(p: &[u8], m: &[u8]) -> (r: bool)
    ensures
        r == (p@ == m@),
{
    if p.len() != m.len() {
        return false;
    }
    let n = p.len();
    for i in 0..n
        invariant
            n == p@.len(),
            n == m@.len(),
            forall|j: int| 0 <= j < i ==> p@[j] == m@[j],
    {
        if p[i] != m[i] {
            return false;
        }
    }
    assert(p@ == m@);
    true
}

impl ReceiverState {
    /// The state before any file.
    pub fn new() -> (r: Self)
        ensures
            r == (ReceiverState { expected_seq: 0, receiving: false }),
    {
        ReceiverState { expected_seq: 0, receiving: false }
    }

    /// Takes in one datagram.
    pub fn on_datagram(&mut self, packet: &[u8]) -> (r: ReceiverAction)
        ensures
            (*final(self), r@) == receive_step(*old(self), packet@),
    {
        let eof: [u8; 7] = [95u8, 95u8, 69u8, 79u8, 70u8, 95u8, 95u8];
        let exit: [u8; 4] = [101u8, 120u8, 105u8, 116u8];
        let sof: [u8; 7] = [95u8, 95u8, 83u8, 79u8, 70u8, 95u8, 95u8];
        assert(eof@ == eof_marker());
        assert(exit@ == exit_marker());
        assert(sof@ == sof_marker());
        if packet.len() == 0 {
            return ReceiverAction::Nothing;
        }
        if equals_marker(packet, &eof) {
            self.expected_seq = 0;
            self.receiving = false;
            return ReceiverAction::FileDone;
        }
        if equals_marker(packet, &exit) {
            return ReceiverAction::Exit;
        }
        if packet.len() >= 7 {
            let head = copy_range(packet, 0, 7);
            if equals_marker(head.as_slice(), &sof) {
                self.expected_seq = 0;
                self.receiving = true;
                let path = copy_range(packet, 7, packet.len());
                assert(packet@.skip(7) == packet@.subrange(7, packet@.len() as int));
                return ReceiverAction::StartFile { path };
            }
        }
        if !self.receiving {
            return ReceiverAction::Ignore;
        }
        if packet.len() < 4 {
            return ReceiverAction::ShortPacket;
        }
        let seq_num: u32 = (packet[0] as u32) * 16777216 + (packet[1] as u32) * 65536
            + (packet[2] as u32) * 256 + (packet[3] as u32);
        if seq_num == self.expected_seq {
            let data = copy_range(packet, 4, packet.len());
            assert(packet@.skip(4) == packet@.subrange(4, packet@.len() as int));
            self.expected_seq = self.expected_seq.wrapping_add(1);
            ReceiverAction::Append { data, ack: seq_num }
        } else {
            let ack: u32 = if self.expected_seq == 0 {
                0
            } else {
                self.expected_seq - 1
            };
            ReceiverAction::Resend { ack }
        }
    }
}

/// The receiver's states and actions over datagrams `ps` in turn.
pub open spec fn run_steps(s: ReceiverState, ps: Seq<Seq<u8>>) -> (ReceiverState, Seq<ActionView>)
    decreases ps.len(),
{
    if ps.len() == 0 {
        (s, Seq::<ActionView>::empty())
    } else {
        let (s1, acts) = run_steps(s, ps.drop_last());
        let (s2, a) = receive_step(s1, ps.last());
        (s2, acts.push(a))
    }
}

/// `p` is none of the control datagrams: not the end or stop marker and
/// not starting with the start marker.
pub open spec fn is_data_datagram(p: Seq<u8>) -> bool {
    &&& p != eof_marker()
    &&& p != exit_marker()
    &&& !(p.len() >= 7 && p.take(7) == sof_marker())
}

/// Data arriving in order is taken in order: once a file has started,
/// data datagrams numbered 0, 1, 2, ... are each appended, with their
/// bytes after the number, and acknowledged under their own number, and
/// the receiver then expects the number after the last.
pub proof fn law_in_order_transfer(ps: Seq<Seq<u8>>)
    requires
        ps.len() <= u32::MAX,
        forall|i: int|
            0 <= i < ps.len() ==> #[trigger] ps[i].len() >= 4 && is_data_datagram(ps[i]) && be32(
                ps[i],
            ) == i,
    ensures
        run_steps(ReceiverState { expected_seq: 0, receiving: true }, ps) == (
            ReceiverState { expected_seq: ps.len() as u32, receiving: true },
            Seq::new(
                ps.len(),
                |i: int| ActionView::Append { data: ps[i].skip(4), ack: i as u32 },
            ),
        ),
    decreases ps.len(),
{
    if ps.len() > 0 {
        let q = ps.drop_last();
        assert forall|i: int| 0 <= i < q.len() implies #[trigger] q[i].len() >= 4
            && is_data_datagram(q[i]) && be32(q[i]) == i by {
            assert(q[i] == ps[i]);
        }
        law_in_order_transfer(q);
        let k = ps.len() - 1;
        assert(ps[k].len() >= 4 && is_data_datagram(ps[k]) && be32(ps[k]) == k);
        let acts = Seq::new(
            q.len(),
            |i: int| ActionView::Append { data: q[i].skip(4), ack: i as u32 },
        );
        assert(acts.push(ActionView::Append { data: ps[k].skip(4), ack: k as u32 }) =~= Seq::new(
            ps.len(),
            |i: int| ActionView::Append { data: ps[i].skip(4), ack: i as u32 },
        ));
    }
}

/// An acknowledgement sent again never goes beyond what was taken: when
/// a datagram is answered by acknowledging again, whatever number it
/// carries, the acknowledgement names the last packet appended (0 before
/// any), and the receiver's state does not change.
pub proof fn law_resend_acknowledges_last_taken(s: ReceiverState, p: Seq<u8>)
    ensures
        receive_step(s, p).1 matches ActionView::Resend { ack } ==> ack == (if s.expected_seq
            == 0 {
            0
        } else {
            s.expected_seq - 1
        }) && receive_step(s, p).0 == s,
{
}

/// Only the packet the receiver expects is appended: when a datagram is
/// appended, it carries the expected number in its first four bytes
/// (big-endian), what is appended is the rest of it, the acknowledgement
/// names that number, and the receiver then expects the next number
/// (wrapping after the largest).
pub proof fn law_append_only_expected(s: ReceiverState, p: Seq<u8>)
    ensures
        receive_step(s, p).1 matches ActionView::Append { data, ack } ==> {
            &&& s.receiving
            &&& p.len() >= 4
            &&& p[0] as int * 16777216 + p[1] as int * 65536 + p[2] as int * 256 + p[3] as int
                == s.expected_seq
            &&& data == p.subrange(4, p.len() as int)
            &&& ack == s.expected_seq
            &&& receive_step(s, p).0.receiving
            &&& receive_step(s, p).0.expected_seq == (s.expected_seq as int + 1) % 4294967296
        },
{
    if receive_step(s, p).1 is Append {
        assert(p.skip(4) =~= p.subrange(4, p.len() as int));
    }
}

} // verus!
