//! The protocol engine: demultiplexing one read's bytes into packets,
//! reassembling sentences split across reads, and publishing the decoded
//! state through a reader-writer lock.

use vstd::prelude::*;
use vstd::slice::slice_to_vec;
use crate::info::GPSInfo;
use crate::nmea_data::NMEASentenceType;
use crate::sentence::data_matches;
use crate::sentence::data_ok;
use crate::nmea_types::NMEAError;
use crate::sentence::NMEASentence;
use crate::sentence::ascii_bytes;
use crate::sentence::has_checksum;
use crate::sentence::is_sentence_start;
use crate::fields::spec_lines;
use crate::ubx;
use crate::ubx::ubx_parse_matches;
use crate::ubx::ubx_parse_ok;
use vstd::rwlock::RwLock;

verus! {

/// One classified unit of a read: a decoded NMEA sentence, a UBX packet, a
/// partial-reassembly state, or unsupported data carrying its bytes.
#[derive(Debug, Clone, PartialEq)]
pub enum GPSPacket {
    /// A UBX binary packet.
    Ubx(ubx::PacketHeader),
    /// A decoded NMEA sentence.
    NMEA(NMEASentenceType),
    /// A complete NMEA sentence of a kind this engine does not decode,
    /// with the classification error.
    NMEAUnsupported(Vec<u8>, NMEAError),
    /// Data that is neither NMEA text nor a UBX packet.
    Unsupported(Vec<u8>),
    /// A line that starts a sentence without ending it.
    NMEAPartialStart(Vec<u8>),
    /// A continuation of a sentence started earlier.
    NMEAPartial(Vec<u8>),
    /// A line that ends a sentence started earlier.
    NMEAPartialEnd(Vec<u8>),
}

/// Does a packet decode one emitted unit: a complete sentence line where
/// the unit came from the text path, a UBX packet or unsupported data
/// where it came from the binary path?
pub open spec fn emitted_matches(em: (Seq<u8>, bool), p: GPSPacket) -> bool {
    let l = em.0;
    if em.1 {
        if data_ok(l) {
            p matches GPSPacket::NMEA(t) && data_matches(l, t)
        } else {
            p matches GPSPacket::NMEAUnsupported(raw, e) && raw@ == l && (e matches
                NMEAError::InvalidData(_))
        }
    } else {
        if ubx_parse_ok(l) {
            p matches GPSPacket::Ubx(ph) && ubx_parse_matches(l, ph)
        } else {
            p matches GPSPacket::Unsupported(v) && v@ == l
        }
    }
}

/// Does a packet classify one line of a text read?
pub open spec fn line_packet_matches(l: Seq<u8>, p: GPSPacket) -> bool {
    if is_sentence_start(l) && has_checksum(l) {
        emitted_matches((l, true), p)
    } else if is_sentence_start(l) {
        p matches GPSPacket::NMEAPartialStart(v) && v@ == l
    } else if has_checksum(l) {
        p matches GPSPacket::NMEAPartialEnd(v) && v@ == l
    } else {
        p matches GPSPacket::NMEAPartial(v) && v@ == l
    }
}

impl GPSPacket {
    /// Classifies one read: ASCII text splits into lines, each decoded as
    /// NMEA or held as a partial state; anything else is tried as one UBX
    /// packet, and unsupported data keeps its bytes.
    #[verifier::loop_isolation(false)]
    pub fn new(bytes: &[u8]) -> (r: Vec<GPSPacket>)
        ensures
            ascii_bytes(bytes@) ==> r@.len() == spec_lines(bytes@).len() && (forall|i: int|
                0 <= i < r@.len() ==> line_packet_matches(spec_lines(bytes@)[i], #[trigger] r@[i])),
            !ascii_bytes(bytes@) ==> r@.len() == 1 && emitted_matches((bytes@, false), r@[0]),
    {
        let results = NMEASentence::from_bytes(bytes);
        let ghost ls = spec_lines(bytes@);
        let mut packets: Vec<GPSPacket> = Vec::new();
        let mut i: usize = 0;
        while i < results.len()
            invariant
                0 <= i <= results@.len(),
                packets@.len() == i,
                ascii_bytes(bytes@) ==> forall|k: int|
                    0 <= k < i ==> line_packet_matches(ls[k], #[trigger] packets@[k]),
                !ascii_bytes(bytes@) ==> forall|k: int|
                    0 <= k < i ==> emitted_matches((bytes@, false), #[trigger] packets@[k]),
            decreases results@.len() - i,
        {
            let item: GPSPacket = match &results[i] {
                Ok(ns) => match ns.data() {
                    Ok(t) => GPSPacket::NMEA(t),
                    Err(e) => GPSPacket::NMEAUnsupported(slice_to_vec(ns.inner.as_slice()), e),
                },
                Err(NMEAError::PartialStart(v)) => GPSPacket::NMEAPartialStart(
                    slice_to_vec(v.as_slice()),
                ),
                Err(NMEAError::Partial(v)) => GPSPacket::NMEAPartial(slice_to_vec(v.as_slice())),
                Err(NMEAError::PartialEnd(v)) => GPSPacket::NMEAPartialEnd(
                    slice_to_vec(v.as_slice()),
                ),
                Err(NMEAError::InvalidMode(_)) => GPSPacket::Unsupported(slice_to_vec(bytes)),
                Err(NMEAError::InvalidData(_)) => match ubx::PacketHeader::from_bytes(bytes) {
                    Ok(p) => GPSPacket::Ubx(p),
                    Err(_) => GPSPacket::Unsupported(slice_to_vec(bytes)),
                },
            };
            packets.push(item);
            i = i + 1;
        }
        packets
    }
}


/// Is a line a partial-reassembly state rather than a complete sentence?
pub open spec fn line_is_partial(l: Seq<u8>) -> bool {
    !(is_sentence_start(l) && has_checksum(l))
}

/// How one classified line moves the framer's state, a pair of the partial
/// buffer and the completion flag: a complete sentence leaves it alone; a
/// sentence start replaces the buffer; a continuation appends; a sentence
/// end appends and marks the buffer complete.
pub open spec fn step_line(st: (Seq<u8>, bool), l: Seq<u8>) -> (Seq<u8>, bool) {
    if is_sentence_start(l) && has_checksum(l) {
        st
    } else if is_sentence_start(l) {
        (l, false)
    } else if has_checksum(l) {
        (st.0 + l, true)
    } else {
        (st.0 + l, st.1)
    }
}

/// The framer's state after the lines of one read, in order.
pub open spec fn fold_lines(st: (Seq<u8>, bool), ls: Seq<Seq<u8>>) -> (Seq<u8>, bool)
    decreases ls.len(),
{
    if ls.len() == 0 {
        st
    } else {
        step_line(fold_lines(st, ls.drop_last()), ls.last())
    }
}

/// The complete sentences among a read's lines, in order.
pub open spec fn kept_lines(ls: Seq<Seq<u8>>) -> Seq<Seq<u8>>
    decreases ls.len(),
{
    if ls.len() == 0 {
        Seq::empty()
    } else if line_is_partial(ls.last()) {
        kept_lines(ls.drop_last())
    } else {
        kept_lines(ls.drop_last()).push(ls.last())
    }
}

/// The framer's state after one buffer: text folds its lines; anything
/// else leaves the state alone.
pub open spec fn pass_state(st: (Seq<u8>, bool), bytes: Seq<u8>) -> (Seq<u8>, bool) {
    if ascii_bytes(bytes) {
        fold_lines(st, spec_lines(bytes))
    } else {
        st
    }
}

/// The units one buffer emits, each tagged with whether it came from the
/// text path: the complete sentences of a text read, or the whole buffer
/// for the binary path.
pub open spec fn pass_emitted(bytes: Seq<u8>) -> Seq<(Seq<u8>, bool)> {
    if ascii_bytes(bytes) {
        kept_lines(spec_lines(bytes)).map_values(|l: Seq<u8>| (l, true))
    } else {
        seq![(bytes, false)]
    }
}

/// What one update call takes as its input: the reassembled buffer when it
/// was marked complete by the previous call, else the read's own bytes.
/// In the former case the read's own bytes are set aside: the reassembled
/// sentence takes the read's place in the pipeline.
pub open spec fn update_input(st: (Seq<u8>, bool), bytes: Seq<u8>) -> Seq<u8> {
    if st.1 {
        st.0
    } else {
        bytes
    }
}

/// The framer's state after one update call: one pass over the input and,
/// where that pass completes the buffer, one more pass over the buffer.
pub open spec fn update_state(st: (Seq<u8>, bool), bytes: Seq<u8>) -> (Seq<u8>, bool) {
    let d1 = update_input(st, bytes);
    let st1 = pass_state((st.0, false), d1);
    if st1.1 {
        pass_state((st1.0, false), st1.0)
    } else {
        st1
    }
}

/// The units one update call emits, in order.
pub open spec fn update_emitted(st: (Seq<u8>, bool), bytes: Seq<u8>) -> Seq<(Seq<u8>, bool)> {
    let d1 = update_input(st, bytes);
    let st1 = pass_state((st.0, false), d1);
    if st1.1 {
        pass_emitted(d1) + pass_emitted(st1.0)
    } else {
        pass_emitted(d1)
    }
}

/// The NMEA sentence framer: reassembles sentences split across reads.
/// While a sentence start has been seen without its checksum marker, the
/// fragment accumulates here; once a later line completes it, the whole
/// buffer is fed back through classification, and the decoded sentence
/// comes out of the same `update` call.
#[derive(Debug, Clone, PartialEq)]
pub struct Framer {
    /// The in-flight fragment.
    pub partial_sentence: Vec<u8>,
    /// Whether the fragment was completed by a sentence-ending line.
    pub partial_complete: bool,
}

impl Framer {
    /// The framer's abstract state: its buffer and completion flag.
    pub open spec fn state(&self) -> (Seq<u8>, bool) {
        (self.partial_sentence@, self.partial_complete)
    }

    /// A framer with nothing in flight.
    pub fn new() -> (r: Framer)
        ensures
            r.state() == (Seq::<u8>::empty(), false),
    {
        let r = Framer { partial_sentence: Vec::new(), partial_complete: false };
        proof {
            assert(r.partial_sentence@ =~= Seq::<u8>::empty());
        }
        r
    }

    /// One pass: classifies a buffer, folds the partial states into this
    /// framer, and appends the decoded units to `out`.
    #[verifier::loop_isolation(false)]
    fn process(&mut self, data: &[u8], out: &mut Vec<GPSPacket>)
        ensures
            final(self).state() == pass_state(old(self).state(), data@),
            final(out)@.len() == old(out)@.len() + pass_emitted(data@).len(),
            forall|k: int| 0 <= k < old(out)@.len() ==> final(out)@[k] == old(out)@[k],
            forall|k: int|
                0 <= k < pass_emitted(data@).len() ==> emitted_matches(
                    pass_emitted(data@)[k],
                    final(out)@[old(out)@.len() + k],
                ),
    {
        let ghost base = out@.len() as int;
        let ghost st0 = self.state();
        let ghost ls = spec_lines(data@);
        let mut packets = GPSPacket::new(data);
        let ghost n = packets@.len() as int;
        let ghost all_packets = packets@;
        let ghost mut j: int = 0;
        while packets.len() > 0
            invariant
                0 <= j <= n,
                packets@ == all_packets.skip(j),
                n == all_packets.len(),
                out@.len() >= base,
                forall|k: int| 0 <= k < base ==> out@[k] == old(out)@[k],
                ascii_bytes(data@) ==> {
                    &&& self.state() == fold_lines(st0, ls.take(j))
                    &&& out@.len() == base + kept_lines(ls.take(j)).len()
                    &&& forall|k: int|
                        0 <= k < kept_lines(ls.take(j)).len() ==> emitted_matches(
                            (kept_lines(ls.take(j))[k], true),
                            out@[base + k],
                        )
                },
                !ascii_bytes(data@) ==> {
                    &&& self.state() == st0
                    &&& (j == 0 ==> out@.len() == base)
                    &&& (j == 1 ==> out@.len() == base + 1 && emitted_matches(
                        (data@, false),
                        out@[base],
                    ))
                },
            decreases packets@.len(),
        {
            proof {
                if ascii_bytes(data@) {
                    assert(ls.take(j + 1).drop_last() =~= ls.take(j));
                    assert(ls.take(j + 1).last() == ls[j]);
                }
            }
            let p = packets.remove(0);
            proof {
                assert(p == all_packets[j]);
                assert(packets@ =~= all_packets.skip(j + 1));
            }
            match p {
                GPSPacket::NMEAPartialStart(v) => {
                    self.partial_sentence = v;
                    self.partial_complete = false;
                },
                GPSPacket::NMEAPartial(v) => {
                    let mut tail = v;
                    self.partial_sentence.append(&mut tail);
                },
                GPSPacket::NMEAPartialEnd(v) => {
                    let mut tail = v;
                    self.partial_sentence.append(&mut tail);
                    self.partial_complete = true;
                },
                other => {
                    out.push(other);
                },
            }
            proof {
                j = j + 1;
            }
        }
        proof {
            if ascii_bytes(data@) {
                assert(ls.take(n) =~= ls);
            }
        }
    }

    /// Feeds one read to the framer: returns the units it completes, the
    /// decoded sentences and binary packets, while partial lines stay in
    /// the buffer for later reads. When a read completes the buffered
    /// sentence, the reassembled buffer is processed in place of the
    /// read's own bytes, and its decoded sentence is returned at once.
    pub fn update(&mut self, bytes: &[u8]) -> (out: Vec<GPSPacket>)
        ensures
            final(self).state() == update_state(old(self).state(), bytes@),
            out@.len() == update_emitted(old(self).state(), bytes@).len(),
            forall|k: int|
                0 <= k < out@.len() ==> emitted_matches(
                    update_emitted(old(self).state(), bytes@)[k],
                    #[trigger] out@[k],
                ),
    {
        let mut out: Vec<GPSPacket> = Vec::new();
        if self.partial_complete {
            self.partial_complete = false;
            let data = slice_to_vec(self.partial_sentence.as_slice());
            self.process(data.as_slice(), &mut out);
        } else {
            self.process(bytes, &mut out);
        }
        if self.partial_complete {
            self.partial_complete = false;
            let data = slice_to_vec(self.partial_sentence.as_slice());
            self.process(data.as_slice(), &mut out);
        }
        out
    }
}


/// The predicate under which the shared snapshot lock holds its value:
/// every snapshot is admissible.
pub struct SnapshotPred {}

impl vstd::rwlock::RwLockPredicate<GPSInfo> for SnapshotPred {
    open spec fn inv(self, v: GPSInfo) -> bool {
        true
    }
}

/// The navigation snapshot shared between the reader thread and callers,
/// behind a verified reader-writer lock. The reader thread is the sole
/// writer; any number of threads may read. Every mutation happens between
/// `acquire_write` and `release_write`, and every read clones the whole
/// snapshot under a read handle, so no caller ever observes a snapshot
/// mixing fields from before and after one update.
pub struct GpsShared {
    lock: RwLock<GPSInfo, SnapshotPred>,
}

impl GpsShared {
    /// A shared snapshot with every field unobserved.
    pub fn new() -> (r: GpsShared) {
        GpsShared { lock: RwLock::new(GPSInfo::empty(), Ghost(SnapshotPred {  })) }
    }

    /// Clones the current snapshot under a read lock.
    pub fn snapshot(&self) -> (r: GPSInfo) {
        let handle = self.lock.acquire_read();
        let r = handle.borrow().duplicate();
        handle.release_read();
        r
    }

    /// Merges one decoded sentence into the snapshot under the write
    /// lock: the whole update of [GPSInfo::update_from_nmea_sentence]
    /// becomes visible at once.
    pub fn apply(&self, sentence: &NMEASentenceType) {
        let (mut v, handle) = self.lock.acquire_write();
        v.update_from_nmea_sentence(sentence);
        handle.release_write(v);
    }

    /// Whether the receiver reports a positional fix, read under the read
    /// lock.
    pub fn has_lock(&self) -> (r: bool) {
        let handle = self.lock.acquire_read();
        let r = handle.borrow().has_lock();
        handle.release_read();
        r
    }
}

/// What one loop turn of the reader observed: a successful read's bytes,
/// one of the benign or fatal conditions, or any other failure with its
/// description.
#[derive(Debug, Clone, PartialEq)]
pub enum ReadEvent {
    /// A successful, non-empty read.
    Data(Vec<u8>),
    /// The read timed out: benign.
    TimedOut,
    /// The read was interrupted: benign.
    Interrupted,
    /// A zero-length read: the transport is exhausted.
    Eof,
    /// The transport is gone.
    BrokenPipe,
    /// Any other transport failure, with its description.
    Failed(Vec<u8>),
}

/// What the reader loop must do next.
#[derive(Debug, Clone, PartialEq)]
pub enum ReadAction {
    /// Keep reading.
    Continue,
    /// Leave the loop; the session is over.
    Stop,
    /// Leave the loop and surface a device-level error.
    StopWithError(Vec<u8>),
}

/// One reader session: the framer state of a connection, applied against
/// the shared snapshot. The surrounding loop only reads the transport and
/// hands each outcome here; every decision is made in this type.
#[derive(Debug)]
pub struct GpsSession {
    /// The sentence framer of this session.
    pub framer: Framer,
}

impl GpsSession {
    /// A fresh session: nothing in flight.
    pub fn new() -> (r: GpsSession)
        ensures
            r.framer.state() == (Seq::<u8>::empty(), false),
    {
        GpsSession { framer: Framer::new() }
    }

    /// Decides one loop turn. Data is framed, decoded and merged into the
    /// shared snapshot, and the loop continues; a timeout or interruption
    /// is retried; an exhausted or broken transport stops the session;
    /// any other failure stops it with a device-level error instead of a
    /// crash.
    pub fn handle_event(&mut self, shared: &GpsShared, event: ReadEvent) -> (r: ReadAction)
        ensures
            match event {
                ReadEvent::Data(bytes) => (r matches ReadAction::Continue)
                    && final(self).framer.state() == update_state(
                    old(self).framer.state(),
                    bytes@,
                ),
                ReadEvent::TimedOut => (r matches ReadAction::Continue)
                    && final(self).framer.state() == old(self).framer.state(),
                ReadEvent::Interrupted => (r matches ReadAction::Continue)
                    && final(self).framer.state() == old(self).framer.state(),
                ReadEvent::Eof => (r matches ReadAction::Stop)
                    && final(self).framer.state() == old(self).framer.state(),
                ReadEvent::BrokenPipe => (r matches ReadAction::Stop)
                    && final(self).framer.state() == old(self).framer.state(),
                ReadEvent::Failed(m) => (r matches ReadAction::StopWithError(v) && v@ == m@)
                    && final(self).framer.state() == old(self).framer.state(),
            },
    {
        match event {
            ReadEvent::Data(bytes) => {
                let packets = self.framer.update(bytes.as_slice());
                let mut i: usize = 0;
                while i < packets.len()
                    decreases packets@.len() - i,
                {
                    if let GPSPacket::NMEA(t) = &packets[i] {
                        shared.apply(t);
                    }
                    i = i + 1;
                }
                ReadAction::Continue
            },
            ReadEvent::TimedOut => ReadAction::Continue,
            ReadEvent::Interrupted => ReadAction::Continue,
            ReadEvent::Eof => ReadAction::Stop,
            ReadEvent::BrokenPipe => ReadAction::Stop,
            ReadEvent::Failed(m) => ReadAction::StopWithError(m),
        }
    }
}

/// One configuration frame: a CFG-class UBX packet around a payload, with
/// its checksum over class, ID, length and payload.
pub open spec fn cfg_frame(class: u8, id: u8, payload: Seq<u8>) -> Seq<u8> {
    let body = seq![class, id, payload.len() as u8] + payload;
    let ck = crate::ubx::fletcher_pair(body);
    seq![0xB5u8, 0x62u8] + body + seq![ck.0, ck.1]
}

/// Builds one CFG frame.
fn make_cfg(class: ubx::ClassField, id: u8, payload: Vec<u8>) -> (r: Vec<u8>)
    requires
        payload@.len() <= 255,
    ensures
        r@ == cfg_frame(crate::ubx::class_code(class), id, payload@),
{
    let packet = ubx::PacketHeader::new(class, id, payload, true);
    let r = packet.data(true);
    proof {
        assert(crate::ubx::spec_packet_data(packet, false).skip(2) =~= seq![
            crate::ubx::class_code(packet.class),
            packet.id,
            packet.payload@.len() as u8,
        ] + packet.payload@);
        assert(r@ =~= cfg_frame(crate::ubx::class_code(class), id, packet.payload@));
    }
    r
}

/// The message IDs of the standard sentences that the handshake disables.
pub open spec fn disabled_msg_ids() -> Seq<u8> {
    seq![
        0x00u8,
        0x01u8,
        0x02u8,
        0x03u8,
        0x04u8,
        0x05u8,
        0x06u8,
        0x07u8,
        0x08u8,
        0x09u8,
        0x0Au8,
        0x0Du8,
        0x0Eu8,
        0x0Fu8,
        0x40u8,
        0x41u8,
        0x42u8,
        0x43u8,
        0x44u8,
    ]
}

/// The PUBX message IDs that the handshake enables.
pub open spec fn enabled_msg_ids() -> Seq<u8> {
    seq![0x00u8, 0x03u8, 0x04u8]
}

/// The receiver-configuration handshake, as raw frames to write in order:
/// a controlled software reset, then one disable for every standard NMEA
/// message, then one enable for each PUBX output. Each frame is
/// fire-and-forget: no acknowledgment is awaited.
#[verifier::loop_isolation(false)]
pub fn config_messages() -> (r: Vec<Vec<u8>>)
    ensures
        r@.len() == 23,
        r@[0]@ == cfg_frame(0x06, 0x04, seq![0x00u8, 0x01u8, 0x00u8]),
        forall|k: int|
            1 <= k < 20 ==> r@[k]@ == cfg_frame(
                0x06,
                0x01,
                seq![0xF0u8, disabled_msg_ids()[k - 1], 0x00u8],
            ),
        forall|k: int|
            20 <= k < 23 ==> r@[k]@ == cfg_frame(
                0x06,
                0x01,
                seq![0xF1u8, enabled_msg_ids()[k - 20], 0x01u8],
            ),
{
    let mut r: Vec<Vec<u8>> = Vec::new();
    let mut reset_payload: Vec<u8> = Vec::new();
    reset_payload.push(0x00);
    reset_payload.push(0x01);
    reset_payload.push(0x00);
    proof {
        assert(reset_payload@ =~= seq![0x00u8, 0x01u8, 0x00u8]);
    }
    r.push(make_cfg(ubx::ClassField::CFG, 0x04, reset_payload));
    let disable_ids: [u8; 19] = [
        0x00,
        0x01,
        0x02,
        0x03,
        0x04,
        0x05,
        0x06,
        0x07,
        0x08,
        0x09,
        0x0A,
        0x0D,
        0x0E,
        0x0F,
        0x40,
        0x41,
        0x42,
        0x43,
        0x44,
    ];
    proof {
        assert(disable_ids@ =~= disabled_msg_ids());
    }
    let mut i: usize = 0;
    while i < 19
        invariant
            0 <= i <= 19,
            r@.len() == 1 + i,
            r@[0]@ == cfg_frame(0x06, 0x04, seq![0x00u8, 0x01u8, 0x00u8]),
            forall|k: int|
                1 <= k < 1 + i ==> r@[k]@ == cfg_frame(
                    0x06,
                    0x01,
                    seq![0xF0u8, disabled_msg_ids()[k - 1], 0x00u8],
                ),
        decreases 19 - i,
    {
        let mut payload: Vec<u8> = Vec::new();
        payload.push(0xF0);
        payload.push(disable_ids[i]);
        payload.push(0x00);
        proof {
            assert(payload@ =~= seq![0xF0u8, disabled_msg_ids()[i as int], 0x00u8]);
        }
        r.push(make_cfg(ubx::ClassField::CFG, 0x01, payload));
        i = i + 1;
    }
    let enable_ids: [u8; 3] = [0x00, 0x03, 0x04];
    proof {
        assert(enable_ids@ =~= enabled_msg_ids());
    }
    let mut j: usize = 0;
    while j < 3
        invariant
            0 <= j <= 3,
            r@.len() == 20 + j,
            r@[0]@ == cfg_frame(0x06, 0x04, seq![0x00u8, 0x01u8, 0x00u8]),
            forall|k: int|
                1 <= k < 20 ==> r@[k]@ == cfg_frame(
                    0x06,
                    0x01,
                    seq![0xF0u8, disabled_msg_ids()[k - 1], 0x00u8],
                ),
            forall|k: int|
                20 <= k < 20 + j ==> r@[k]@ == cfg_frame(
                    0x06,
                    0x01,
                    seq![0xF1u8, enabled_msg_ids()[k - 20], 0x01u8],
                ),
        decreases 3 - j,
    {
        let mut payload: Vec<u8> = Vec::new();
        payload.push(0xF1);
        payload.push(enable_ids[j]);
        payload.push(0x01);
        proof {
            assert(payload@ =~= seq![0xF1u8, enabled_msg_ids()[j as int], 0x01u8]);
        }
        r.push(make_cfg(ubx::ClassField::CFG, 0x01, payload));
        j = j + 1;
    }
    r
}



/// Folding a single line is one step, and it is kept just when complete.
pub proof fn lemma_one_line(st: (Seq<u8>, bool), l: Seq<u8>)
    ensures
        fold_lines(st, seq![l]) == step_line(st, l),
        kept_lines(seq![l]) =~= if line_is_partial(l) {
            Seq::<Seq<u8>>::empty()
        } else {
            seq![l]
        },
{
    assert(seq![l].drop_last() =~= Seq::<Seq<u8>>::empty());
    assert(seq![l].last() == l);
    assert(fold_lines(st, Seq::<Seq<u8>>::empty()) == st);
    assert(kept_lines(Seq::<Seq<u8>>::empty()) =~= Seq::<Seq<u8>>::empty());
}

/// A byte string with no carriage return splits into the single line that
/// it is.
pub proof fn lemma_single_line(b: Seq<u8>)
    requires
        forall|k: int| 0 <= k < b.len() ==> #[trigger] b[k] != 13,
    ensures
        spec_lines(b) =~= seq![b],
{
    crate::fields::lemma_crlf_position(b);
    if crate::fields::crlf_position(b) < b.len() {
        assert(b[crate::fields::crlf_position(b)] == 13);
    }
}

/// A complete sentence on one line: ASCII, free of line terminators, a `$`
/// only at its start, and its only `*` three bytes from the end, opening
/// the checksum marker.
pub open spec fn plain_sentence(s: Seq<u8>) -> bool {
    &&& s.len() >= 4
    &&& ascii_bytes(s)
    &&& s[0] == 36
    &&& forall|k: int| 0 < k < s.len() ==> #[trigger] s[k] != 36
    &&& forall|k: int| 0 <= k < s.len() ==> #[trigger] s[k] != 13 && s[k] != 10
    &&& forall|k: int| 0 <= k < s.len() - 3 ==> #[trigger] s[k] != 42
    &&& s[s.len() - 3] == 42
    &&& crate::sentence::is_hex_digit(s[s.len() - 2])
    &&& crate::sentence::is_hex_digit(s[s.len() - 1])
}

/// Splitting a complete sentence anywhere across two framer updates emits
/// exactly what feeding it whole in one update emits: the sentence
/// itself, once, by the end of the second call. The first call emits
/// nothing and leaves the first part buffered; the second completes the
/// buffer and feeds it back through classification at once. The cut may
/// fall anywhere from after the `$` up to the checksum marker; a cut
/// inside the three-byte marker itself leaves the marker unrecognisable,
/// and the sentence stays buffered instead.
pub proof fn lemma_split_update_emits_whole(s: Seq<u8>, i: int)
    requires
        plain_sentence(s),
        1 <= i <= s.len() - 3,
    ensures
        update_emitted((Seq::<u8>::empty(), false), s) =~= seq![(s, true)],
        update_emitted((Seq::<u8>::empty(), false), s.take(i)) =~= Seq::<(Seq<u8>, bool)>::empty(),
        update_state((Seq::<u8>::empty(), false), s.take(i)) == (s.take(i), false),
        update_emitted((s.take(i), false), s.skip(i)) =~= seq![(s, true)],
        update_state((s.take(i), false), s.skip(i)) == (s, false),
{
    let part1 = s.take(i);
    let part2 = s.skip(i);
    let n = s.len() as int;
    // Each piece is one line, and together they are the sentence.
    lemma_single_line(s);
    lemma_single_line(part1);
    lemma_single_line(part2);
    assert(part1 + part2 =~= s);
    // The whole sentence is a complete line.
    assert(is_sentence_start(s));
    assert(has_checksum(s)) by {
        assert(s[n - 3] == 42 && crate::sentence::is_hex_digit(s[n - 3 + 1])
            && crate::sentence::is_hex_digit(s[n - 3 + 2]));
    }
    // The first part starts a sentence but holds no checksum marker.
    assert(is_sentence_start(part1));
    assert(!has_checksum(part1)) by {
        assert(forall|j: int| 0 <= j < part1.len() ==> #[trigger] part1[j] != 42);
    }
    // The second part does not start a sentence and ends in the marker.
    assert(!is_sentence_start(part2)) by {
        assert(part2.len() > 0 ==> part2[0] == s[i]);
    }
    assert(has_checksum(part2)) by {
        assert(part2[n - 3 - i] == s[n - 3]);
        assert(part2[n - 3 - i] == 42 && crate::sentence::is_hex_digit(part2[n - 3 - i + 1])
            && crate::sentence::is_hex_digit(part2[n - 3 - i + 2]));
    }
    // One call on the whole sentence: one complete line, emitted as is.
    lemma_one_line((Seq::<u8>::empty(), false), s);
    assert(pass_emitted(s) =~= seq![(s, true)]);
    // The first call: the line is a sentence start, so it is buffered
    // whole and nothing comes out.
    lemma_one_line((Seq::<u8>::empty(), false), part1);
    assert(pass_emitted(part1) =~= Seq::<(Seq<u8>, bool)>::empty());
    // The second call: the line completes the buffer, which is fed back
    // and emitted as the whole sentence.
    lemma_one_line((part1, false), part2);
    assert(fold_lines((part1, false), seq![part2]) == (part1 + part2, true));
    assert(pass_emitted(part2) =~= Seq::<(Seq<u8>, bool)>::empty());
    lemma_one_line((s, false), s);
    assert(fold_lines((s, false), seq![s]) == (s, false));
    assert(update_emitted((part1, false), part2) =~= pass_emitted(part2) + pass_emitted(s));
}

} // verus!
