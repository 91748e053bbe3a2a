//! API-mode frames: kinds, encoding of outbound frames, decoding of replies.
use crate::buf::{
    be_bytes, be_value, buf_contents, buf_from_slice, buf_put_slice, buf_put_u16, buf_put_u64,
    buf_put_u8, buf_set, buf_slice, buf_with_capacity, byte_sum, lemma_be_value_of_bytes, pow256, read_be,
};
use bytes::BytesMut;
use rand::Rng;
use vstd::arithmetic::div_mod::{lemma_add_mod_noop, lemma_small_mod};
use vstd::prelude::*;
use vstd::slice::slice_subrange;
use vstd::string::StringSliceAdditionalSpecFns;

verus! {

broadcast use crate::buf::lemma_be_bytes_len;

/// Address that reaches every node of the network.
pub const BROADCAST_ADDR: u64 = 0xffff;

/// First byte of every frame.
pub const DELIM: u8 = 0x7e;

/// Largest payload a transmit request may carry.
pub const MAX_TRANSMIT_PAYLOAD: usize = 65424;

/// Largest number of kind-specific bytes in an AT or remote AT command frame:
/// together with the kind and frame id they must fit the 16-bit length field.
pub const MAX_COMMAND_FIELDS: usize = 65533;

#[derive(Debug)]
pub enum Error {
    /// The frame is malformed or too short.
    FrameError(String),
    /// The outbound payload is larger than the frame can carry.
    PayloadError(String),
    /// A reply is not of the kind its request calls for.
    DerefError,
}

impl Error {
    /// `m` is the text that describes the error.
    pub open spec fn message_spec(&self, m: Seq<char>) -> bool {
        match *self {
            Error::FrameError(s) => m == s@,
            Error::PayloadError(s) => m == s@,
            Error::DerefError => m == "Unable to deref trait"@,
        }
    }

    /// The text that describes the error.
    pub fn message(&self) -> (r: String)
        ensures
            self.message_spec(r@),
    {
        match self {
            Error::FrameError(m) => m.clone(),
            Error::PayloadError(m) => m.clone(),
            Error::DerefError => "Unable to deref trait".to_string(),
        }
    }
}

#[derive(Debug, Clone, Copy, PartialEq, Eq, Structural)]
pub enum FrameId {
    TransmitRequest,
    TransmitStatus,
    AtCommand,
    AtCommandResponse,
    RemoteAtCommand,
    RemoteAtCommandResponse,
    Null,
}

impl FrameId {
    /// The one-byte identifier of the kind on the wire.
    pub open spec fn spec_id(&self) -> u8 {
        match *self {
            FrameId::TransmitRequest => 0x90,
            FrameId::TransmitStatus => 0x8b,
            FrameId::AtCommand => 0x08,
            FrameId::AtCommandResponse => 0x88,
            FrameId::RemoteAtCommand => 0x17,
            FrameId::RemoteAtCommandResponse => 0x97,
            FrameId::Null => 0xff,
        }
    }

    #[verifier::when_used_as_spec(spec_id)]
    pub fn id(&self) -> (r: u8)
        ensures
            r == self.spec_id(),
    {
        match *self {
            FrameId::TransmitRequest => 0x90,
            FrameId::TransmitStatus => 0x8b,
            FrameId::AtCommand => 0x08,
            FrameId::AtCommandResponse => 0x88,
            FrameId::RemoteAtCommand => 0x17,
            FrameId::RemoteAtCommandResponse => 0x97,
            FrameId::Null => 0xff,
        }
    }
}

/// Checksum of the bytes that follow the length field.
pub open spec fn checksum_spec(body: Seq<u8>) -> u8 {
    (255 - byte_sum(body) % 256) as u8
}

/// A whole frame: delimiter, length, kind, frame id, kind-specific fields, checksum.
pub open spec fn frame_spec(kind_id: u8, frame_id: u8, fields: Seq<u8>) -> Seq<u8> {
    let body = seq![kind_id, frame_id] + fields;
    seq![DELIM] + be_bytes(body.len(), 2) + body + seq![checksum_spec(body)]
}

/// The checksum of a frame buffer: computed over every byte from offset 3 on.
pub fn calc_checksum(frame: &[u8]) -> (r: Result<u8, Error>)
    ensures
        match r {
            Ok(c) => frame@.len() >= 5 && c == checksum_spec(frame@.subrange(3, frame@.len() as int)),
            Err(e) => frame@.len() < 5 && e is FrameError,
        },
{
    if frame.len() < 5 {
        return Err(Error::FrameError("Frame length does not meet minimum requirements".to_string()));
    }
    let mut checksum: u64 = 0;
    let mut pos: usize = 3;
    while pos < frame.len()
        invariant
            3 <= pos <= frame@.len(),
            checksum == byte_sum(frame@.subrange(3, pos as int)) % 256,
        decreases frame@.len() - pos,
    {
        let ghost before = frame@.subrange(3, pos as int);
        proof {
            assert(frame@.subrange(3, pos + 1).drop_last() =~= before);
            lemma_add_mod_noop(byte_sum(before) as int, frame@[pos as int] as int, 256);
            lemma_small_mod(frame@[pos as int] as nat, 256);
        }
        checksum = (checksum + frame[pos] as u64) % 256;
        pos = pos + 1;
    }
    proof {
        assert(frame@.subrange(3, frame@.len() as int) =~= frame@.subrange(3, pos as int));
    }
    Ok(0xff - checksum as u8)
}

/// Relies on `rand::thread_rng` and `Rng::gen`: some byte, of which nothing is promised.
#[verifier::external_body]
fn random_byte() -> (r: u8) {
    rand::thread_rng().gen()
}

/// Summing every byte after the length field of an encoded frame, checksum
/// included, gives 0xFF modulo 256.
pub proof fn lemma_frame_sum(kind_id: u8, frame_id: u8, fields: Seq<u8>)
    ensures
        ({
            let f = frame_spec(kind_id, frame_id, fields);
            byte_sum(f.subrange(3, f.len() as int)) % 256 == 255
        }),
{
    let body = seq![kind_id, frame_id] + fields;
    let f = frame_spec(kind_id, frame_id, fields);
    let tail = f.subrange(3, f.len() as int);
    assert(tail =~= body.push(checksum_spec(body)));
    assert(tail.drop_last() =~= body);
    assert((byte_sum(body) + (255 - byte_sum(body) % 256)) % 256 == 255) by (nonlinear_arith);
}

/// The length field of an encoded frame counts every byte but the delimiter,
/// the length field itself and the checksum.
pub proof fn lemma_frame_length(kind_id: u8, frame_id: u8, fields: Seq<u8>)
    requires
        fields.len() + 2 <= 0xffff,
    ensures
        ({
            let f = frame_spec(kind_id, frame_id, fields);
            &&& f.len() == fields.len() + 6
            &&& be_value(f.subrange(1, 3)) == f.len() - 4
        }),
{
    let body = seq![kind_id, frame_id] + fields;
    let f = frame_spec(kind_id, frame_id, fields);
    reveal_with_fuel(pow256, 3);
    lemma_be_value_of_bytes(body.len(), 2);
    assert(f.subrange(1, 3) =~= be_bytes(body.len(), 2));
}

/// Bytes of an optional parameter; none when it is absent.
pub open spec fn opt_bytes(p: Option<&[u8]>) -> Seq<u8> {
    match p {
        Some(b) => b@,
        None => Seq::empty(),
    }
}

/// Appends an optional parameter to a frame under construction.
fn put_opt(packet: &mut BytesMut, p: Option<&[u8]>)
    requires
        buf_contents(*old(packet)).len() + opt_bytes(p).len() <= isize::MAX,
    ensures
        buf_contents(*final(packet)) == buf_contents(*old(packet)) + opt_bytes(p),
{
    match p {
        Some(b) => buf_put_slice(packet, b),
        None => {
            assert(buf_contents(*packet) + opt_bytes(p) =~= buf_contents(*packet));
        },
    }
}

/// Writes the length field of a frame under construction whose placeholder
/// length is in place, then appends the checksum.
fn finish_frame(
    packet: &mut BytesMut,
    Ghost(kind_id): Ghost<u8>,
    Ghost(frame_id): Ghost<u8>,
    Ghost(fields): Ghost<Seq<u8>>,
)
    requires
        fields.len() <= MAX_COMMAND_FIELDS,
        buf_contents(*old(packet)) == seq![DELIM] + be_bytes(0, 2) + (seq![kind_id, frame_id] + fields),
    ensures
        buf_contents(*final(packet)) == frame_spec(kind_id, frame_id, fields),
{
    let ghost body = seq![kind_id, frame_id] + fields;
    let len = buf_slice(packet).len();
    let packet_len = (len - 3) as u16;
    assert(packet_len == body.len());
    buf_set(packet, 1, (packet_len >> 8) as u8);
    buf_set(packet, 2, (packet_len & 0xff) as u8);
    proof {
        assert((packet_len >> 8) as u8 == (packet_len / 256) as u8) by (bit_vector);
        assert((packet_len & 0xff) as u8 == (packet_len % 256) as u8) by (bit_vector);
        reveal_with_fuel(be_bytes, 3);
        assert(buf_contents(*packet) =~= seq![DELIM] + be_bytes(body.len(), 2) + body);
    }
    let chksum = match calc_checksum(buf_slice(packet)) {
        Ok(c) => c,
        Err(_) => 0,
    };
    proof {
        assert(buf_contents(*packet).subrange(3, buf_contents(*packet).len() as int) =~= body);
    }
    buf_put_u8(packet, chksum);
}

#[derive(Debug)]
pub enum MessagingMode {
    PointToPoint,
    Repeater,
    DigiMesh,
}

impl MessagingMode {
    /// The two-bit code of the mode (bits 6 and 7 of the options byte).
    pub open spec fn code(&self) -> u8 {
        match *self {
            MessagingMode::PointToPoint => 1,
            MessagingMode::Repeater => 2,
            MessagingMode::DigiMesh => 3,
        }
    }
}

#[derive(Debug)]
pub struct TransmitRequestOptions {
    pub disable_ack: bool,
    pub disable_route_discovery: bool,
    pub enable_unicast_nack: bool,
    pub enable_unicast_trace_route: bool,
    pub mode: MessagingMode,
}

impl TransmitRequestOptions {
    /// The options byte: bit 0 disable-ack, bit 1 disable-route-discovery,
    /// bit 2 unicast NACK, bit 3 unicast trace route, bits 6-7 the mode.
    pub open spec fn spec_compile(&self) -> u8 {
        ((if self.disable_ack { 1u8 } else { 0u8 }) + (if self.disable_route_discovery { 2u8 } else { 0u8 })
            + (if self.enable_unicast_nack { 4u8 } else { 0u8 }) + (if self.enable_unicast_trace_route { 8u8 } else { 0u8 })
            + self.mode.code() * 64) as u8
    }

    pub fn compile(&self) -> (r: u8)
        ensures
            r == self.spec_compile(),
    {
        let mut val: u8 = 0;
        if self.disable_ack {
            assert(0u8 | 1u8 == 1u8) by (bit_vector);
            val = val | 1;
        }
        if self.disable_route_discovery {
            assert(val < 2 ==> val | 2 == val + 2) by (bit_vector);
            val = val | 2;
        }
        if self.enable_unicast_nack {
            assert(val < 4 ==> val | 4 == val + 4) by (bit_vector);
            val = val | 4;
        }
        if self.enable_unicast_trace_route {
            assert(val < 8 ==> val | 8 == val + 8) by (bit_vector);
            val = val | 8;
        }
        assert(val < 16 ==> (1u8 << 6u8) | val == 64 + val) by (bit_vector);
        assert(val < 16 ==> (2u8 << 6u8) | val == 128 + val) by (bit_vector);
        assert(val < 16 ==> (3u8 << 6u8) | val == 192 + val) by (bit_vector);
        assert(val == (if self.disable_ack { 1u8 } else { 0u8 }) + (if self.disable_route_discovery { 2u8 } else { 0u8 })
            + (if self.enable_unicast_nack { 4u8 } else { 0u8 }) + (if self.enable_unicast_trace_route { 8u8 } else { 0u8 }));
        match self.mode {
            MessagingMode::PointToPoint => (0x1 << 6) | val,
            MessagingMode::Repeater => (0x2 << 6) | val,
            MessagingMode::DigiMesh => (0x3 << 6) | val,
        }
    }
}

/// An outbound frame: what it is made of, and how it is encoded.
pub trait TransmitApiFrame {
    /// The kind of the frame.
    spec fn spec_kind(&self) -> FrameId;

    /// The kind-specific bytes, between the frame id and the checksum.
    spec fn spec_fields(&self) -> Seq<u8>;

    /// Whether the frame is within its kind's size limit.
    spec fn spec_fits(&self) -> bool;

    fn id(&self) -> (r: FrameId)
        ensures
            r == self.spec_kind(),
    ;

    /// The first byte of the frame.
    fn delim(&self) -> (r: u8)
        ensures
            r == DELIM,
    {
        DELIM
    }

    /// The checksum of a frame buffer.
    fn calc_checksum(&self, frame: &[u8]) -> (r: Result<u8, Error>)
        ensures
            match r {
                Ok(c) => frame@.len() >= 5 && c == checksum_spec(frame@.subrange(3, frame@.len() as int)),
                Err(e) => frame@.len() < 5 && e is FrameError,
            },
    {
        calc_checksum(frame)
    }

    /// A random frame id for a request.
    fn gen_frame_id(&self) -> u8 {
        random_byte()
    }

    /// Encodes the frame with the given frame id.
    fn gen_with_id(&self, frame_id: u8) -> (r: Result<BytesMut, Error>)
        ensures
            r is Ok <==> self.spec_fits(),
            match r {
                Ok(b) => {
                    &&& self.spec_fields().len() <= MAX_COMMAND_FIELDS
                    &&& buf_contents(b) == frame_spec(self.spec_kind().spec_id(), frame_id, self.spec_fields())
                },
                Err(e) => e is PayloadError,
            },
    ;

    /// Encodes the frame with a random frame id.
    fn gen(&self) -> (r: Result<BytesMut, Error>)
        ensures
            r is Ok <==> self.spec_fits(),
            match r {
                Ok(b) => {
                    &&& self.spec_fields().len() <= MAX_COMMAND_FIELDS
                    &&& exists|frame_id: u8|
                        buf_contents(b) == frame_spec(self.spec_kind().spec_id(), frame_id, self.spec_fields())
                },
                Err(e) => e is PayloadError,
            },
    {
        self.gen_with_id(self.gen_frame_id())
    }
}

#[derive(Debug)]
pub struct TransmitRequestFrame<'a> {
    pub dest_addr: u64,
    pub broadcast_radius: u8,
    pub options: Option<&'a TransmitRequestOptions>,
    pub payload: &'a [u8],
}

impl<'a> TransmitRequestFrame<'a> {
    /// The options byte: zero when no options are given.
    pub open spec fn spec_options(&self) -> u8 {
        match self.options {
            Some(o) => o.spec_compile(),
            None => 0,
        }
    }
}

impl<'a> TransmitApiFrame for TransmitRequestFrame<'a> {
    open spec fn spec_kind(&self) -> FrameId {
        FrameId::TransmitRequest
    }

    open spec fn spec_fields(&self) -> Seq<u8> {
        be_bytes(self.dest_addr as nat, 8) + seq![0xffu8, 0xfeu8, self.broadcast_radius, self.spec_options()]
            + self.payload@
    }

    open spec fn spec_fits(&self) -> bool {
        self.payload@.len() <= MAX_TRANSMIT_PAYLOAD
    }

    fn id(&self) -> (r: FrameId) {
        FrameId::TransmitRequest
    }

    fn gen_with_id(&self, frame_id: u8) -> (r: Result<BytesMut, Error>) {
        if self.payload.len() > MAX_TRANSMIT_PAYLOAD {
            return Err(Error::PayloadError("Payload exceeds max size".to_string()));
        }
        let ghost fields = self.spec_fields();
        let ghost body = seq![FrameId::TransmitRequest.spec_id(), frame_id] + fields;
        let mut packet = buf_with_capacity(self.payload.len() + 18);
        buf_put_u8(&mut packet, DELIM);
        buf_put_u16(&mut packet, (self.payload.len() as u16) + 0x0e);
        buf_put_u8(&mut packet, self.id().id());
        buf_put_u8(&mut packet, frame_id);
        buf_put_u64(&mut packet, self.dest_addr);
        buf_put_u16(&mut packet, 0xfffe);
        buf_put_u8(&mut packet, self.broadcast_radius);
        match self.options {
            Some(opts) => buf_put_u8(&mut packet, opts.compile()),
            None => buf_put_u8(&mut packet, 0),
        }
        buf_put_slice(&mut packet, self.payload);
        proof {
            reveal_with_fuel(be_bytes, 3);
            assert(buf_contents(packet) =~= seq![DELIM] + be_bytes(body.len(), 2) + body);
        }
        let chksum = match calc_checksum(buf_slice(&packet)) {
            Ok(c) => c,
            Err(_) => 0,
        };
        proof {
            assert(buf_contents(packet).subrange(3, buf_contents(packet).len() as int) =~= body);
        }
        buf_put_u8(&mut packet, chksum);
        Ok(packet)
    }
}

#[derive(Debug)]
pub struct RemoteCommandOptions {
    pub apply_changes: bool,
}

#[derive(Debug)]
pub struct RemoteAtCommandFrame<'a> {
    pub dest_addr: u64,
    pub options: &'a RemoteCommandOptions,
    pub atcmd: &'a str,
    pub cmd_param: Option<&'a [u8]>,
}

impl<'a> TransmitApiFrame for RemoteAtCommandFrame<'a> {
    open spec fn spec_kind(&self) -> FrameId {
        FrameId::RemoteAtCommand
    }

    open spec fn spec_fields(&self) -> Seq<u8> {
        be_bytes(self.dest_addr as nat, 8) + seq![0xffu8, 0xfeu8, if self.options.apply_changes { 2u8 } else { 0u8 }]
            + self.atcmd.spec_bytes() + opt_bytes(self.cmd_param)
    }

    open spec fn spec_fits(&self) -> bool {
        self.spec_fields().len() <= MAX_COMMAND_FIELDS
    }

    fn id(&self) -> (r: FrameId) {
        FrameId::RemoteAtCommand
    }

    fn gen_with_id(&self, frame_id: u8) -> (r: Result<BytesMut, Error>) {
        let cmd = self.atcmd.as_bytes();
        let param_len = match self.cmd_param {
            Some(p) => p.len(),
            None => 0,
        };
        if cmd.len() > MAX_COMMAND_FIELDS - 11 || param_len > MAX_COMMAND_FIELDS - 11 - cmd.len() {
            return Err(Error::PayloadError("Payload exceeds max size".to_string()));
        }
        let ghost fields = self.spec_fields();
        let ghost kind_id = FrameId::RemoteAtCommand.spec_id();
        let mut packet = buf_with_capacity(64);
        buf_put_u8(&mut packet, DELIM);
        buf_put_u16(&mut packet, 0);
        buf_put_u8(&mut packet, self.id().id());
        buf_put_u8(&mut packet, frame_id);
        buf_put_u64(&mut packet, self.dest_addr);
        buf_put_u16(&mut packet, 0xfffe);
        if self.options.apply_changes {
            buf_put_u8(&mut packet, 0x02);
        } else {
            buf_put_u8(&mut packet, 0);
        }
        buf_put_slice(&mut packet, cmd);
        put_opt(&mut packet, self.cmd_param);
        proof {
            reveal_with_fuel(be_bytes, 3);
            assert(buf_contents(packet) =~= seq![DELIM] + be_bytes(0, 2) + (seq![kind_id, frame_id] + fields));
        }
        finish_frame(&mut packet, Ghost(kind_id), Ghost(frame_id), Ghost(fields));
        Ok(packet)
    }
}

#[derive(Debug)]
pub struct AtCommandFrame<'a>(pub &'a str, pub Option<&'a [u8]>);

impl<'a> TransmitApiFrame for AtCommandFrame<'a> {
    open spec fn spec_kind(&self) -> FrameId {
        FrameId::AtCommand
    }

    open spec fn spec_fields(&self) -> Seq<u8> {
        self.0.spec_bytes() + opt_bytes(self.1)
    }

    open spec fn spec_fits(&self) -> bool {
        self.spec_fields().len() <= MAX_COMMAND_FIELDS
    }

    fn id(&self) -> (r: FrameId) {
        FrameId::AtCommand
    }

    fn gen_with_id(&self, frame_id: u8) -> (r: Result<BytesMut, Error>) {
        let cmd = self.0.as_bytes();
        let param_len = match self.1 {
            Some(p) => p.len(),
            None => 0,
        };
        if cmd.len() > MAX_COMMAND_FIELDS || param_len > MAX_COMMAND_FIELDS - cmd.len() {
            return Err(Error::PayloadError("Payload exceeds max size".to_string()));
        }
        let ghost fields = self.spec_fields();
        let ghost kind_id = FrameId::AtCommand.spec_id();
        let mut packet = buf_with_capacity(9);
        buf_put_u8(&mut packet, DELIM);
        buf_put_u16(&mut packet, 0);
        buf_put_u8(&mut packet, self.id().id());
        buf_put_u8(&mut packet, frame_id);
        buf_put_slice(&mut packet, cmd);
        put_opt(&mut packet, self.1);
        proof {
            assert(buf_contents(packet) =~= seq![DELIM] + be_bytes(0, 2) + (seq![kind_id, frame_id] + fields));
        }
        finish_frame(&mut packet, Ghost(kind_id), Ghost(frame_id), Ghost(fields));
        Ok(packet)
    }
}

/// The bytes held by an optional buffer.
pub open spec fn opt_contents(o: Option<BytesMut>) -> Option<Seq<u8>> {
    match o {
        Some(b) => Some(buf_contents(b)),
        None => None,
    }
}

/// A copy of an optional buffer.
fn clone_payload(p: &Option<BytesMut>) -> (r: Result<BytesMut, Error>)
    ensures
        match r {
            Ok(b) => opt_contents(*p) == Some(buf_contents(b)),
            Err(e) => p is None && e is FrameError,
        },
{
    match p {
        Some(b) => Ok(buf_from_slice(buf_slice(b))),
        None => Err(Error::FrameError("Empty payload".to_string())),
    }
}

/// A reply read from the device.
pub trait RecieveApiFrame {
    /// The raw bytes the reply was decoded from, if it keeps them.
    spec fn spec_raw(&self) -> Option<Seq<u8>>;

    fn id(&self) -> FrameId;

    /// A copy of the raw bytes of the reply.
    fn payload(&self) -> (r: Result<BytesMut, Error>)
        ensures
            match r {
                Ok(b) => self.spec_raw() == Some(buf_contents(b)),
                Err(e) => self.spec_raw() is None && e is FrameError,
            },
    ;
}

/// The reply to a frame that expects none.
#[derive(Debug)]
pub struct NullRecieve;

impl NullRecieve {
    pub fn recieve(_buf: &[u8]) -> (r: Result<Self, Error>)
        ensures
            r is Ok,
    {
        Ok(NullRecieve)
    }
}

impl RecieveApiFrame for NullRecieve {
    open spec fn spec_raw(&self) -> Option<Seq<u8>> {
        None
    }

    fn id(&self) -> FrameId {
        FrameId::Null
    }

    fn payload(&self) -> (r: Result<BytesMut, Error>) {
        Err(Error::FrameError("Uncallabe method for Null Recieve Frame".to_string()))
    }
}

/// Length of a transmit status frame.
pub const TRANSMIT_STATUS_LEN: usize = 11;

#[derive(Debug)]
pub struct TransmitStatus {
    pub frame_id: u8,
    pub transmit_retry_count: u8,
    pub deliver_status: u8,
    pub discovery_status: u8,
    pub payload: Option<BytesMut>,
}

impl TransmitStatus {
    /// `self` is what `buf` holds, read at the transmit status offsets.
    pub open spec fn decoded_from(&self, buf: Seq<u8>) -> bool {
        &&& buf.len() >= TRANSMIT_STATUS_LEN
        &&& self.frame_id == buf[4]
        &&& self.transmit_retry_count == buf[7]
        &&& self.deliver_status == buf[8]
        &&& self.discovery_status == buf[9]
        &&& opt_contents(self.payload) == Some(buf)
    }

    pub fn recieve(buf: &[u8]) -> (r: Result<Self, Error>)
        ensures
            match r {
                Ok(v) => v.decoded_from(buf@),
                Err(e) => buf@.len() < TRANSMIT_STATUS_LEN && e is FrameError,
            },
    {
        if buf.len() < TRANSMIT_STATUS_LEN {
            return Err(Error::FrameError("Transmit status frame is too short".to_string()));
        }
        Ok(TransmitStatus {
            frame_id: buf[4],
            transmit_retry_count: buf[7],
            deliver_status: buf[8],
            discovery_status: buf[9],
            payload: Some(buf_from_slice(buf)),
        })
    }
}

impl RecieveApiFrame for TransmitStatus {
    open spec fn spec_raw(&self) -> Option<Seq<u8>> {
        opt_contents(self.payload)
    }

    fn id(&self) -> FrameId {
        FrameId::TransmitStatus
    }

    fn payload(&self) -> (r: Result<BytesMut, Error>) {
        clone_payload(&self.payload)
    }
}

/// Shortest buffer an AT command response is read from.
pub const AT_RESPONSE_MIN_LEN: usize = 8;

#[derive(Debug)]
pub struct AtCommandResponse {
    pub frame_id: u8,
    pub at_command: Vec<u8>,
    pub command_status: u8,
    pub command_data: Option<BytesMut>,
    pub payload: Option<BytesMut>,
}

impl AtCommandResponse {
    /// `self` is what `buf` holds, read at the AT command response offsets:
    /// the data runs from offset 8 to the byte before the last.
    pub open spec fn decoded_from(&self, buf: Seq<u8>) -> bool {
        &&& buf.len() >= AT_RESPONSE_MIN_LEN
        &&& self.frame_id == buf[4]
        &&& self.at_command@ == seq![buf[5], buf[6]]
        &&& self.command_status == buf[7]
        &&& opt_contents(self.command_data) == if buf.len() > 9 {
            Some(buf.subrange(8, buf.len() - 1))
        } else {
            None
        }
        &&& opt_contents(self.payload) == Some(buf)
    }

    pub fn recieve(buf: &[u8]) -> (r: Result<Self, Error>)
        ensures
            match r {
                Ok(v) => v.decoded_from(buf@),
                Err(e) => buf@.len() < AT_RESPONSE_MIN_LEN && e is FrameError,
            },
    {
        if buf.len() == 0 {
            return Err(Error::FrameError("No frame detected".to_string()));
        }
        if buf.len() < AT_RESPONSE_MIN_LEN {
            return Err(Error::FrameError("AT command response is too short".to_string()));
        }
        let mut cmd_data = None;
        if buf.len() > 9 {
            cmd_data = Some(buf_from_slice(slice_subrange(buf, 8, buf.len() - 1)));
        }
        let mut at_cmd: Vec<u8> = Vec::new();
        at_cmd.push(buf[5]);
        at_cmd.push(buf[6]);
        proof {
            assert(at_cmd@ =~= seq![buf@[5], buf@[6]]);
        }
        Ok(AtCommandResponse {
            frame_id: buf[4],
            at_command: at_cmd,
            command_status: buf[7],
            command_data: cmd_data,
            payload: Some(buf_from_slice(buf)),
        })
    }
}

impl RecieveApiFrame for AtCommandResponse {
    open spec fn spec_raw(&self) -> Option<Seq<u8>> {
        opt_contents(self.payload)
    }

    fn id(&self) -> FrameId {
        FrameId::AtCommandResponse
    }

    fn payload(&self) -> (r: Result<BytesMut, Error>) {
        clone_payload(&self.payload)
    }
}

/// Shortest buffer a remote AT command response is read from.
pub const REMOTE_RESPONSE_MIN_LEN: usize = 18;

#[derive(Debug)]
pub struct RemoteAtCommandResponse {
    pub frame_id: u8,
    pub dest_addr: u64,
    pub at_command: Vec<u8>,
    pub command_status: u8,
    pub command_data: Option<BytesMut>,
    pub payload: Option<BytesMut>,
}

impl RemoteAtCommandResponse {
    /// `self` is what `buf` holds, read at the remote AT command response
    /// offsets: the address is bytes 5 to 12, big-endian, and the data runs
    /// from offset 18 to the byte before the last.
    pub open spec fn decoded_from(&self, buf: Seq<u8>) -> bool {
        &&& buf.len() >= REMOTE_RESPONSE_MIN_LEN
        &&& self.frame_id == buf[4]
        &&& self.dest_addr as nat == be_value(buf.subrange(5, 13))
        &&& self.at_command@ == seq![buf[15], buf[16]]
        &&& self.command_status == buf[17]
        &&& opt_contents(self.command_data) == if buf.len() > 18 {
            Some(buf.subrange(18, buf.len() - 1))
        } else {
            None
        }
        &&& opt_contents(self.payload) == Some(buf)
    }

    pub fn recieve(buf: &[u8]) -> (r: Result<Self, Error>)
        ensures
            match r {
                Ok(v) => v.decoded_from(buf@),
                Err(e) => buf@.len() < REMOTE_RESPONSE_MIN_LEN && e is FrameError,
            },
    {
        if buf.len() < REMOTE_RESPONSE_MIN_LEN {
            return Err(Error::FrameError("Remote AT command response is too short".to_string()));
        }
        let mut cmd_data = None;
        if buf.len() > 18 {
            cmd_data = Some(buf_from_slice(slice_subrange(buf, 18, buf.len() - 1)));
        }
        let mut at_cmd: Vec<u8> = Vec::new();
        at_cmd.push(buf[15]);
        at_cmd.push(buf[16]);
        proof {
            assert(at_cmd@ =~= seq![buf@[15], buf@[16]]);
        }
        let dest_addr = read_be(buf, 5, 13);
        Ok(RemoteAtCommandResponse {
            frame_id: buf[4],
            dest_addr: dest_addr,
            at_command: at_cmd,
            command_status: buf[17],
            command_data: cmd_data,
            payload: Some(buf_from_slice(buf)),
        })
    }
}

impl RecieveApiFrame for RemoteAtCommandResponse {
    open spec fn spec_raw(&self) -> Option<Seq<u8>> {
        opt_contents(self.payload)
    }

    fn id(&self) -> FrameId {
        FrameId::RemoteAtCommandResponse
    }

    fn payload(&self) -> (r: Result<BytesMut, Error>) {
        clone_payload(&self.payload)
    }
}

/// A decoded reply, by kind.
#[derive(Debug)]
pub enum InboundFrame {
    TransmitStatus(TransmitStatus),
    AtCommandResponse(AtCommandResponse),
    RemoteAtCommandResponse(RemoteAtCommandResponse),
    Null(NullRecieve),
}

/// `r` is what decoding `buf` as a reply of kind `kind` gives.
pub open spec fn decodes_to(buf: Seq<u8>, kind: FrameId, r: Result<InboundFrame, Error>) -> bool {
    match kind {
        FrameId::TransmitStatus => match r {
            Ok(InboundFrame::TransmitStatus(v)) => v.decoded_from(buf),
            Ok(_) => false,
            Err(e) => buf.len() < TRANSMIT_STATUS_LEN && e is FrameError,
        },
        FrameId::AtCommandResponse => match r {
            Ok(InboundFrame::AtCommandResponse(v)) => v.decoded_from(buf),
            Ok(_) => false,
            Err(e) => buf.len() < AT_RESPONSE_MIN_LEN && e is FrameError,
        },
        FrameId::RemoteAtCommandResponse => match r {
            Ok(InboundFrame::RemoteAtCommandResponse(v)) => v.decoded_from(buf),
            Ok(_) => false,
            Err(e) => buf.len() < REMOTE_RESPONSE_MIN_LEN && e is FrameError,
        },
        _ => r matches Ok(InboundFrame::Null(_)),
    }
}

/// Decodes the bytes read from the device as a reply of kind `kind`; a kind
/// that is no reply decodes to `Null`.
pub fn decode(buf: &[u8], kind: FrameId) -> (r: Result<InboundFrame, Error>)
    ensures
        decodes_to(buf@, kind, r),
{
    match kind {
        FrameId::TransmitStatus => match TransmitStatus::recieve(buf) {
            Ok(v) => Ok(InboundFrame::TransmitStatus(v)),
            Err(e) => Err(e),
        },
        FrameId::AtCommandResponse => match AtCommandResponse::recieve(buf) {
            Ok(v) => Ok(InboundFrame::AtCommandResponse(v)),
            Err(e) => Err(e),
        },
        FrameId::RemoteAtCommandResponse => match RemoteAtCommandResponse::recieve(buf) {
            Ok(v) => Ok(InboundFrame::RemoteAtCommandResponse(v)),
            Err(e) => Err(e),
        },
        _ => Ok(InboundFrame::Null(NullRecieve)),
    }
}

/// How long to wait for a reply.
#[derive(Debug, Clone, Copy, PartialEq, Eq, Structural)]
pub enum ReplyTimeout {
    /// Keep the transport's current timeout.
    Ambient,
    /// Wait this many milliseconds.
    Millis(u64),
}

/// How the bytes of a reply are read from the transport.
#[derive(Debug, Clone, Copy, PartialEq, Eq, Structural)]
pub enum ReplyRead {
    /// Nothing is read.
    Nothing,
    /// Exactly this many bytes are read.
    Exact(usize),
    /// Single bytes are read until a read times out.
    UntilTimeout,
}

impl FrameId {
    /// The kind of reply a frame of this kind is answered with.
    pub open spec fn spec_reply_kind(&self) -> FrameId {
        match *self {
            FrameId::TransmitRequest => FrameId::TransmitStatus,
            FrameId::AtCommand => FrameId::AtCommandResponse,
            FrameId::RemoteAtCommand => FrameId::RemoteAtCommandResponse,
            _ => FrameId::Null,
        }
    }

    /// The timeout to wait with for the reply to a frame of this kind.
    pub open spec fn spec_reply_timeout(&self) -> ReplyTimeout {
        match *self {
            FrameId::AtCommand => ReplyTimeout::Millis(100),
            FrameId::RemoteAtCommand => ReplyTimeout::Millis(3000),
            _ => ReplyTimeout::Ambient,
        }
    }

    /// How the reply to a frame of this kind is read.
    pub open spec fn spec_reply_read(&self) -> ReplyRead {
        match *self {
            FrameId::TransmitRequest => ReplyRead::Exact(TRANSMIT_STATUS_LEN),
            FrameId::AtCommand => ReplyRead::UntilTimeout,
            FrameId::RemoteAtCommand => ReplyRead::UntilTimeout,
            _ => ReplyRead::Nothing,
        }
    }

    pub fn reply_read(&self) -> (r: ReplyRead)
        ensures
            r == self.spec_reply_read(),
    {
        match *self {
            FrameId::TransmitRequest => ReplyRead::Exact(TRANSMIT_STATUS_LEN),
            FrameId::AtCommand => ReplyRead::UntilTimeout,
            FrameId::RemoteAtCommand => ReplyRead::UntilTimeout,
            _ => ReplyRead::Nothing,
        }
    }

    pub fn reply_kind(&self) -> (r: FrameId)
        ensures
            r == self.spec_reply_kind(),
    {
        match *self {
            FrameId::TransmitRequest => FrameId::TransmitStatus,
            FrameId::AtCommand => FrameId::AtCommandResponse,
            FrameId::RemoteAtCommand => FrameId::RemoteAtCommandResponse,
            _ => FrameId::Null,
        }
    }

    pub fn reply_timeout(&self) -> (r: ReplyTimeout)
        ensures
            r == self.spec_reply_timeout(),
    {
        match *self {
            FrameId::AtCommand => ReplyTimeout::Millis(100),
            FrameId::RemoteAtCommand => ReplyTimeout::Millis(3000),
            _ => ReplyTimeout::Ambient,
        }
    }
}

/// Decoding an encoded AT command frame at the AT command response offsets
/// gives back its frame id and its two-byte command.
pub proof fn lemma_at_command_round_trip(frame: AtCommandFrame, frame_id: u8, reply: AtCommandResponse)
    requires
        frame.0.spec_bytes().len() == 2,
        frame.spec_fits(),
        reply.decoded_from(frame_spec(frame.spec_kind().spec_id(), frame_id, frame.spec_fields())),
    ensures
        frame_spec(frame.spec_kind().spec_id(), frame_id, frame.spec_fields()).len() >= AT_RESPONSE_MIN_LEN,
        reply.frame_id == frame_id,
        reply.at_command@ == frame.0.spec_bytes(),
{
    let f = frame_spec(frame.spec_kind().spec_id(), frame_id, frame.spec_fields());
    assert(f[5] == frame.0.spec_bytes()[0]);
    assert(f[6] == frame.0.spec_bytes()[1]);
    assert(reply.at_command@ =~= frame.0.spec_bytes());
}

} // verus!
