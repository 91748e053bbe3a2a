//! The device session's decisions: the identity cache, discovery results and
//! the line-mode command path. The transport itself is driven by the caller.
use crate::api::{self, opt_contents, AtCommandResponse, InboundFrame};
use crate::buf::{be_value, buf_slice, pow256, read_be};
use serialport::Error as SerialPortError;
use std::io::Error as IoError;
use vstd::prelude::*;
use vstd::slice::slice_subrange;
use vstd::string::StringSliceAdditionalSpecFns;
use vstd::utf8::{decode_utf8, valid_utf8};

verus! {

/// Default discovery window, in milliseconds.
pub const DISCOVERY_TIMEOUT_MS: u64 = 15000;

/// Pause before and after the command-mode escape sequence, in milliseconds.
pub const COMMAND_MODE_GUARD_MS: u64 = 1000;

/// Carriage return, the line-mode terminator.
pub const CR: u8 = 0x0d;

#[derive(Debug)]
pub enum Error {
    SerialError(SerialPortError),
    IOError(IoError),
    /// A reply's data is absent, of the wrong width, or not UTF-8.
    DecodeError(String),
    ApiError(api::Error),
    InvalidMode(String),
    /// Discovery collected no reply.
    DiscoveryError,
}

impl From<api::Error> for Error {
    fn from(err: api::Error) -> (r: Self)
        ensures
            r == Error::ApiError(err),
    {
        Error::ApiError(err)
    }
}

impl vstd::std_specs::convert::FromSpecImpl<api::Error> for Error {
    open spec fn obeys_from_spec() -> bool {
        true
    }

    open spec fn from_spec(v: api::Error) -> Self {
        Error::ApiError(v)
    }
}

impl From<SerialPortError> for Error {
    fn from(err: SerialPortError) -> (r: Self)
        ensures
            r == Error::SerialError(err),
    {
        Error::SerialError(err)
    }
}

impl vstd::std_specs::convert::FromSpecImpl<SerialPortError> for Error {
    open spec fn obeys_from_spec() -> bool {
        true
    }

    open spec fn from_spec(v: SerialPortError) -> Self {
        Error::SerialError(v)
    }
}

impl From<IoError> for Error {
    fn from(err: IoError) -> (r: Self)
        ensures
            r == Error::IOError(err),
    {
        Error::IOError(err)
    }
}

impl vstd::std_specs::convert::FromSpecImpl<IoError> for Error {
    open spec fn obeys_from_spec() -> bool {
        true
    }

    open spec fn from_spec(v: IoError) -> Self {
        Error::IOError(v)
    }
}

impl Error {
    /// The text that describes the error.
    pub fn message(&self) -> (r: String)
        ensures
            match *self {
                Error::DecodeError(m) => r@ == m@,
                Error::InvalidMode(m) => r@ == m@,
                Error::ApiError(e) => e.message_spec(r@),
                Error::DiscoveryError => r@ == "Could not complete discovery mode"@,
                _ => true,
            },
    {
        match self {
            Error::SerialError(e) => serial_error_text(e),
            Error::IOError(e) => io_error_text(e),
            Error::DecodeError(m) => m.clone(),
            Error::InvalidMode(m) => m.clone(),
            Error::ApiError(e) => e.message(),
            Error::DiscoveryError => "Could not complete discovery mode".to_string(),
        }
    }
}

/// Relies on `Display` for `serialport::Error`: its description.
#[verifier::external_body]
fn serial_error_text(e: &SerialPortError) -> String {
    e.to_string()
}

/// Relies on `Display` for `std::io::Error`: its description.
#[verifier::external_body]
fn io_error_text(e: &IoError) -> String {
    e.to_string()
}

/// Declares `serialport::Error`, carried unread by `Error::SerialError`.
#[verifier::external_type_specification]
#[verifier::external_body]
pub struct ExSerialError(SerialPortError);

/// Declares `std::io::Error`, carried unread by `Error::IOError`.
#[verifier::external_type_specification]
#[verifier::external_body]
pub struct ExIoError(IoError);

/// Relies on `std::str::from_utf8`: it succeeds exactly on valid UTF-8 and
/// then yields the characters the bytes encode.
#[verifier::external_body]
fn utf8_string(b: &[u8]) -> (r: Option<String>)
    ensures
        match r {
            Some(s) => valid_utf8(b@) && s@ == decode_utf8(b@),
            None => !valid_utf8(b@),
        },
{
    std::str::from_utf8(b).ok().map(String::from)
}

/// The data carried by a reply, when it is an AT command response that has some.
pub open spec fn reply_data(reply: InboundFrame) -> Option<Seq<u8>> {
    match reply {
        InboundFrame::AtCommandResponse(r) => opt_contents(r.command_data),
        _ => None,
    }
}

/// The number a reply carries, when its data is exactly `width` bytes.
pub open spec fn reply_number(reply: InboundFrame, width: nat) -> Option<nat> {
    match reply_data(reply) {
        Some(d) => if d.len() == width {
            Some(be_value(d))
        } else {
            None
        },
        None => None,
    }
}

/// The text a reply carries, when its data is present and valid UTF-8.
pub open spec fn reply_text(reply: InboundFrame) -> Option<Seq<char>> {
    match reply_data(reply) {
        Some(d) => if valid_utf8(d) {
            Some(decode_utf8(d))
        } else {
            None
        },
        None => None,
    }
}

/// `e` is the error for a reply whose contents could not be read: a reply of
/// another kind than an AT command response, or one whose data does not fit.
pub open spec fn reply_error(reply: InboundFrame, e: Error) -> bool {
    match reply {
        InboundFrame::AtCommandResponse(_) => e is DecodeError,
        _ => e matches Error::ApiError(api::Error::DerefError),
    }
}

/// The data bytes of an AT command response reply.
fn reply_bytes(reply: &InboundFrame) -> (r: Result<&[u8], Error>)
    ensures
        match r {
            Ok(b) => reply_data(*reply) == Some(b@),
            Err(e) => reply_data(*reply) is None && reply_error(*reply, e),
        },
{
    match reply {
        InboundFrame::AtCommandResponse(resp) => match &resp.command_data {
            Some(d) => Ok(buf_slice(d)),
            None => Err(Error::DecodeError("Reply carries no data".to_string())),
        },
        _ => Err(Error::ApiError(api::Error::DerefError)),
    }
}

/// The number a reply carries in exactly `width` big-endian bytes.
fn reply_be(reply: &InboundFrame, width: usize) -> (r: Result<u64, Error>)
    requires
        width <= 8,
    ensures
        match r {
            Ok(v) => reply_number(*reply, width as nat) == Some(v as nat) && (v as nat) < pow256(width as nat),
            Err(e) => reply_number(*reply, width as nat) is None && reply_error(*reply, e),
        },
{
    let data = match reply_bytes(reply) {
        Ok(d) => d,
        Err(e) => return Err(e),
    };
    if data.len() != width {
        return Err(Error::DecodeError("Reply data has the wrong width".to_string()));
    }
    proof {
        assert(data@.subrange(0, width as int) =~= data@);
    }
    Ok(read_be(data, 0, width))
}

/// The text a reply carries.
fn reply_string(reply: &InboundFrame) -> (r: Result<String, Error>)
    ensures
        match r {
            Ok(s) => reply_text(*reply) == Some(s@),
            Err(e) => reply_text(*reply) is None && reply_error(*reply, e),
        },
{
    let data = match reply_bytes(reply) {
        Ok(d) => d,
        Err(e) => return Err(e),
    };
    match utf8_string(data) {
        Some(s) => Ok(s),
        None => Err(Error::DecodeError("Reply data is not UTF-8".to_string())),
    }
}


/// A peer found by discovery.
#[derive(Debug)]
pub struct RemoteDigiMeshDevice {
    pub addr_64bit: u64,
    pub node_id: String,
    pub firmware_version: Option<u16>,
    pub hardware_version: Option<u16>,
}

/// What resolving one identity field takes: the cached value, or the AT
/// queries to send, in order, whose replies are then recorded.
#[derive(Debug)]
pub enum IdentityStep<T> {
    Ready(T),
    Query(Vec<&'static str>),
}

/// The identity of the local device as far as it has been resolved, and the
/// peers of the last successful discovery. A resolved field is never queried again.
#[derive(Debug)]
pub struct DeviceIdentity {
    pub addr_64bit: Option<u64>,
    pub node_id: Option<String>,
    pub firmware_version: Option<u16>,
    pub hardware_version: Option<u16>,
    pub nodes: Option<Vec<RemoteDigiMeshDevice>>,
}

impl DeviceIdentity {
    /// Nothing resolved yet.
    pub fn new() -> (r: Self)
        ensures
            r.addr_64bit is None,
            r.node_id is None,
            r.firmware_version is None,
            r.hardware_version is None,
            r.nodes is None,
    {
        DeviceIdentity {
            addr_64bit: None,
            node_id: None,
            firmware_version: None,
            hardware_version: None,
            nodes: None,
        }
    }

    /// The queries that resolving the firmware version takes.
    pub open spec fn firmware_queries(&self) -> Seq<&'static str> {
        if self.firmware_version is Some {
            Seq::empty()
        } else {
            seq!["VR"]
        }
    }

    /// The queries that resolving the hardware version takes.
    pub open spec fn hardware_queries(&self) -> Seq<&'static str> {
        if self.hardware_version is Some {
            Seq::empty()
        } else {
            seq!["HV"]
        }
    }

    /// The queries that resolving the node id takes.
    pub open spec fn node_id_queries(&self) -> Seq<&'static str> {
        if self.node_id is Some {
            Seq::empty()
        } else {
            seq!["NI"]
        }
    }

    /// The queries that resolving the 64-bit address takes: its high half, then its low half.
    pub open spec fn addr_queries(&self) -> Seq<&'static str> {
        if self.addr_64bit is Some {
            Seq::empty()
        } else {
            seq!["SH", "SL"]
        }
    }

    pub fn firmware_version_step(&self) -> (r: IdentityStep<u16>)
        ensures
            match r {
                IdentityStep::Ready(v) => self.firmware_version == Some(v) && self.firmware_queries().len() == 0,
                IdentityStep::Query(q) => self.firmware_version is None && q@ == self.firmware_queries(),
            },
    {
        match self.firmware_version {
            Some(v) => IdentityStep::Ready(v),
            None => {
                let q = vec!["VR"];
                assert(q@ =~= self.firmware_queries());
                IdentityStep::Query(q)
            },
        }
    }

    pub fn hardware_version_step(&self) -> (r: IdentityStep<u16>)
        ensures
            match r {
                IdentityStep::Ready(v) => self.hardware_version == Some(v) && self.hardware_queries().len() == 0,
                IdentityStep::Query(q) => self.hardware_version is None && q@ == self.hardware_queries(),
            },
    {
        match self.hardware_version {
            Some(v) => IdentityStep::Ready(v),
            None => {
                let q = vec!["HV"];
                assert(q@ =~= self.hardware_queries());
                IdentityStep::Query(q)
            },
        }
    }

    pub fn node_id_step(&self) -> (r: IdentityStep<String>)
        ensures
            match r {
                IdentityStep::Ready(v) => self.node_id matches Some(n) && n@ == v@ && self.node_id_queries().len() == 0,
                IdentityStep::Query(q) => self.node_id is None && q@ == self.node_id_queries(),
            },
    {
        match &self.node_id {
            Some(n) => IdentityStep::Ready(n.clone()),
            None => {
                let q = vec!["NI"];
                assert(q@ =~= self.node_id_queries());
                IdentityStep::Query(q)
            },
        }
    }

    pub fn addr_64bit_step(&self) -> (r: IdentityStep<u64>)
        ensures
            match r {
                IdentityStep::Ready(v) => self.addr_64bit == Some(v) && self.addr_queries().len() == 0,
                IdentityStep::Query(q) => self.addr_64bit is None && q@ == self.addr_queries(),
            },
    {
        match self.addr_64bit {
            Some(v) => IdentityStep::Ready(v),
            None => {
                let q = vec!["SH", "SL"];
                assert(q@ =~= self.addr_queries());
                IdentityStep::Query(q)
            },
        }
    }

    /// Reads the firmware version from the reply to its query and caches it.
    pub fn record_firmware_version(&mut self, reply: &InboundFrame) -> (r: Result<u16, Error>)
        ensures
            match r {
                Ok(v) => {
                    &&& reply_number(*reply, 2) == Some(v as nat)
                    &&& *final(self) == (DeviceIdentity { firmware_version: Some(v), ..*old(self) })
                },
                Err(e) => {
                    &&& reply_number(*reply, 2) is None
                    &&& reply_error(*reply, e)
                    &&& *final(self) == *old(self)
                },
            },
    {
        match reply_be(reply, 2) {
            Ok(v) => {
                proof {
                    reveal_with_fuel(pow256, 3);
                }
                self.firmware_version = Some(v as u16);
                Ok(v as u16)
            },
            Err(e) => Err(e),
        }
    }

    /// Reads the hardware version from the reply to its query and caches it.
    pub fn record_hardware_version(&mut self, reply: &InboundFrame) -> (r: Result<u16, Error>)
        ensures
            match r {
                Ok(v) => {
                    &&& reply_number(*reply, 2) == Some(v as nat)
                    &&& *final(self) == (DeviceIdentity { hardware_version: Some(v), ..*old(self) })
                },
                Err(e) => {
                    &&& reply_number(*reply, 2) is None
                    &&& reply_error(*reply, e)
                    &&& *final(self) == *old(self)
                },
            },
    {
        match reply_be(reply, 2) {
            Ok(v) => {
                proof {
                    reveal_with_fuel(pow256, 3);
                }
                self.hardware_version = Some(v as u16);
                Ok(v as u16)
            },
            Err(e) => Err(e),
        }
    }

    /// Reads the node id from the reply to its query and caches it.
    pub fn record_node_id(&mut self, reply: &InboundFrame) -> (r: Result<String, Error>)
        ensures
            match r {
                Ok(v) => {
                    &&& reply_text(*reply) == Some(v@)
                    &&& final(self).node_id matches Some(n) && n@ == v@
                    &&& final(self).addr_64bit == old(self).addr_64bit
                    &&& final(self).firmware_version == old(self).firmware_version
                    &&& final(self).hardware_version == old(self).hardware_version
                    &&& final(self).nodes == old(self).nodes
                },
                Err(e) => {
                    &&& reply_text(*reply) is None
                    &&& reply_error(*reply, e)
                    &&& *final(self) == *old(self)
                },
            },
    {
        match reply_string(reply) {
            Ok(s) => {
                self.node_id = Some(s.clone());
                Ok(s)
            },
            Err(e) => Err(e),
        }
    }

    /// Assembles the 64-bit address from the replies to its high-half and
    /// low-half queries and caches it.
    pub fn record_addr_64bit(&mut self, high: &InboundFrame, low: &InboundFrame) -> (r: Result<u64, Error>)
        ensures
            match r {
                Ok(v) => {
                    &&& reply_number(*high, 4) matches Some(h)
                    &&& reply_number(*low, 4) matches Some(l)
                    &&& v as nat == h * 0x1_0000_0000 + l
                    &&& *final(self) == (DeviceIdentity { addr_64bit: Some(v), ..*old(self) })
                },
                Err(e) => {
                    &&& (reply_number(*high, 4) is None && reply_error(*high, e)) || (reply_number(*high, 4) is Some
                        && reply_number(*low, 4) is None && reply_error(*low, e))
                    &&& *final(self) == *old(self)
                },
            },
    {
        let upper = match reply_be(high, 4) {
            Ok(v) => v,
            Err(e) => return Err(e),
        };
        let lower = match reply_be(low, 4) {
            Ok(v) => v,
            Err(e) => return Err(e),
        };
        proof {
            reveal_with_fuel(pow256, 5);
        }
        let upper = upper as u32;
        let lower = lower as u32;
        let addr_64bit: u64 = ((upper as u64) << 32) | (lower as u64);
        assert(((upper as u64) << 32u64) | (lower as u64) == (upper as u64) * 0x1_0000_0000u64 + (lower as u64))
            by (bit_vector);
        self.addr_64bit = Some(addr_64bit);
        Ok(addr_64bit)
    }
}

/// Resolving the firmware version takes one query while it is unknown, and
/// none once a reply to that query has been recorded: a second request is
/// served from the cache.
pub proof fn lemma_firmware_version_queried_once(id: DeviceIdentity, reply: InboundFrame)
    requires
        id.firmware_version is None,
        reply_number(reply, 2) is Some,
    ensures
        id.firmware_queries().len() == 1,
        ({
            let v = reply_number(reply, 2)->Some_0 as u16;
            (DeviceIdentity { firmware_version: Some(v), ..id }).firmware_queries().len() == 0
        }),
{
}


/// The discovery window to use: the one asked for, else the default.
pub fn discovery_timeout_ms(timeout: Option<u64>) -> (r: u64)
    ensures
        r == match timeout {
            Some(t) => t,
            None => DISCOVERY_TIMEOUT_MS,
        },
{
    match timeout {
        Some(t) => t,
        None => DISCOVERY_TIMEOUT_MS,
    }
}

/// One read of the discovery window: the bytes read are decoded as an AT
/// command response and collected. Returns whether the window is still open,
/// that is whether the decode succeeded.
pub fn discovery_step(replies: &mut Vec<AtCommandResponse>, buf: &[u8]) -> (more: bool)
    ensures
        more <==> buf@.len() >= api::AT_RESPONSE_MIN_LEN,
        more ==> final(replies)@.len() == old(replies)@.len() + 1 && final(replies)@.drop_last() == old(replies)@
            && final(replies)@.last().decoded_from(buf@),
        !more ==> final(replies)@ == old(replies)@,
{
    match AtCommandResponse::recieve(buf) {
        Ok(r) => {
            replies.push(r);
            assert(replies@.drop_last() =~= old(replies)@);
            true
        },
        Err(_) => false,
    }
}

/// Index of the first zero byte of `d` at or after `i`, or the length of `d`.
pub open spec fn name_end(d: Seq<u8>, i: int) -> int
    decreases d.len() - i,
{
    if i >= d.len() {
        d.len() as int
    } else if d[i] == 0 {
        i
    } else {
        name_end(d, i + 1)
    }
}

proof fn lemma_name_end_bounds(d: Seq<u8>, i: int)
    requires
        0 <= i,
    ensures
        i <= name_end(d, i) || (i > d.len() && name_end(d, i) == d.len()),
        name_end(d, i) <= d.len() || i > d.len(),
    decreases d.len() - i,
{
    if i < d.len() && d[i] != 0 {
        lemma_name_end_bounds(d, i + 1);
    }
}

/// The peer a discovery reply describes: its data holds the address in bytes
/// 2 to 9, big-endian, and the node id from byte 10 up to the first zero byte
/// or the end; `None` when the data is absent, too short, or the node id is not UTF-8.
pub open spec fn peer_of(reply: AtCommandResponse) -> Option<(nat, Seq<char>)> {
    match opt_contents(reply.command_data) {
        Some(d) => {
            let name = d.subrange(10, name_end(d, 10));
            if d.len() >= 10 && valid_utf8(name) {
                Some((be_value(d.subrange(2, 10)), decode_utf8(name)))
            } else {
                None
            }
        },
        None => None,
    }
}

/// `peer` is the peer that `reply` describes.
pub open spec fn is_peer_of(peer: RemoteDigiMeshDevice, reply: AtCommandResponse) -> bool {
    &&& peer_of(reply) matches Some((addr, name))
    &&& peer.addr_64bit as nat == addr
    &&& peer.node_id@ == name
    &&& peer.firmware_version is None
    &&& peer.hardware_version is None
}

/// `e` is the error for a discovery reply that describes no peer: a frame
/// error when its data is shorter than the address, else a decode error.
pub open spec fn peer_error(reply: AtCommandResponse, e: Error) -> bool {
    match opt_contents(reply.command_data) {
        Some(d) => if d.len() < 10 {
            e matches Error::ApiError(api::Error::FrameError(_))
        } else {
            e is DecodeError
        },
        None => e is DecodeError,
    }
}

/// Reads the peer a discovery reply describes.
pub fn peer_from_reply(reply: &AtCommandResponse) -> (r: Result<RemoteDigiMeshDevice, Error>)
    ensures
        match r {
            Ok(p) => is_peer_of(p, *reply),
            Err(e) => peer_of(*reply) is None && peer_error(*reply, e),
        },
{
    let buf = match &reply.command_data {
        Some(d) => buf_slice(d),
        None => return Err(Error::DecodeError("Discovery reply carries no data".to_string())),
    };
    if buf.len() < 10 {
        return Err(Error::ApiError(api::Error::FrameError("Discovery reply is too short".to_string())));
    }
    let addr = read_be(buf, 2, 10);
    let mut end_idx: usize = 10;
    while end_idx < buf.len() && buf[end_idx] != 0
        invariant
            10 <= end_idx <= buf@.len(),
            name_end(buf@, 10) == name_end(buf@, end_idx as int),
        decreases buf@.len() - end_idx,
    {
        end_idx = end_idx + 1;
    }
    proof {
        lemma_name_end_bounds(buf@, 10);
    }
    let node_id = match utf8_string(slice_subrange(buf, 10, end_idx)) {
        Some(s) => s,
        None => return Err(Error::DecodeError("Node id is not UTF-8".to_string())),
    };
    Ok(RemoteDigiMeshDevice { addr_64bit: addr, node_id, firmware_version: None, hardware_version: None })
}

/// The peers that the collected discovery replies describe, one per reply, in order.
pub fn discovered_peers(replies: &Vec<AtCommandResponse>) -> (r: Result<Vec<RemoteDigiMeshDevice>, Error>)
    ensures
        r is Ok <==> replies@.len() > 0 && forall|i: int| 0 <= i < replies@.len() ==> (#[trigger] peer_of(replies@[i])) is Some,
        match r {
            Ok(peers) => {
                &&& peers@.len() == replies@.len()
                &&& forall|i: int| 0 <= i < peers@.len() ==> is_peer_of(#[trigger] peers@[i], replies@[i])
            },
            Err(e) => {
                &&& replies@.len() == 0 ==> e is DiscoveryError
                &&& replies@.len() > 0 ==> exists|i: int|
                    0 <= i < replies@.len() && peer_of(#[trigger] replies@[i]) is None && peer_error(replies@[i], e)
            },
        },
{
    if replies.len() == 0 {
        return Err(Error::DiscoveryError);
    }
    let mut peers: Vec<RemoteDigiMeshDevice> = Vec::new();
    let mut i: usize = 0;
    while i < replies.len()
        invariant
            i <= replies@.len(),
            peers@.len() == i,
            forall|j: int| 0 <= j < i ==> is_peer_of(#[trigger] peers@[j], replies@[j]),
            forall|j: int| 0 <= j < i ==> (#[trigger] peer_of(replies@[j])) is Some,
        decreases replies@.len() - i,
    {
        match peer_from_reply(&replies[i]) {
            Ok(p) => peers.push(p),
            Err(e) => return Err(e),
        }
        i = i + 1;
    }
    Ok(peers)
}

impl DeviceIdentity {
    /// Replaces the discovered peers by those the collected replies describe.
    /// Fails, and keeps the earlier peers, when there is no reply or one
    /// cannot be read.
    pub fn record_discovery(&mut self, replies: &Vec<AtCommandResponse>) -> (r: Result<(), Error>)
        ensures
            r is Ok <==> replies@.len() > 0 && forall|i: int| 0 <= i < replies@.len() ==> (#[trigger] peer_of(replies@[i])) is Some,
            match r {
                Ok(_) => {
                    &&& final(self).nodes matches Some(peers) && peers@.len() == replies@.len()
                        && forall|i: int| 0 <= i < peers@.len() ==> is_peer_of(#[trigger] peers@[i], replies@[i])
                    &&& final(self).addr_64bit == old(self).addr_64bit
                    &&& final(self).node_id == old(self).node_id
                    &&& final(self).firmware_version == old(self).firmware_version
                    &&& final(self).hardware_version == old(self).hardware_version
                },
                Err(e) => {
                    &&& replies@.len() == 0 ==> e is DiscoveryError
                    &&& replies@.len() > 0 ==> exists|i: int|
                        0 <= i < replies@.len() && peer_of(#[trigger] replies@[i]) is None && peer_error(replies@[i], e)
                    &&& *final(self) == *old(self)
                },
            },
    {
        match discovered_peers(replies) {
            Ok(peers) => {
                self.nodes = Some(peers);
                Ok(())
            },
            Err(e) => Err(e),
        }
    }
}

/// A line-mode command: the text to send and how many carriage returns end its reply.
#[derive(Debug)]
pub struct AtCommand<'a> {
    pub command: &'a str,
    pub parameter: Option<&'a [u8]>,
    pub rcr_len: usize,
}

#[derive(Debug)]
pub enum AtCommands<'a> {
    /// Network discovery, with an optional parameter.
    Discover(Option<&'a [u8]>),
    /// Any command, with an optional parameter.
    AtCmd((&'a str, Option<&'a [u8]>)),
    /// Enter (`true`) or leave (`false`) command mode.
    CmdMode(bool),
}

impl<'a> AtCommands<'a> {
    pub fn create(&self) -> (r: AtCommand<'a>)
        ensures
            match *self {
                AtCommands::CmdMode(true) => r.command == "+++" && r.parameter is None && r.rcr_len == 1,
                AtCommands::CmdMode(false) => r.command == "CN" && r.parameter is None && r.rcr_len == 1,
                AtCommands::Discover(p) => r.command == "ND" && r.parameter == p && r.rcr_len == 11,
                AtCommands::AtCmd((c, p)) => r.command == c && r.parameter == p && r.rcr_len == 1,
            },
    {
        match *self {
            AtCommands::CmdMode(state) => if state {
                AtCommand { command: "+++", parameter: None, rcr_len: 1 }
            } else {
                AtCommand { command: "CN", parameter: None, rcr_len: 1 }
            },
            AtCommands::Discover(param) => AtCommand { command: "ND", parameter: param, rcr_len: 10 + 1 },
            AtCommands::AtCmd((cmd, param)) => AtCommand { command: cmd, parameter: param, rcr_len: 1 },
        }
    }
}

/// The escape sequence that enters command mode.
pub open spec fn escape_bytes() -> Seq<u8> {
    seq![0x2bu8, 0x2bu8, 0x2bu8]
}

/// The bytes that send a line-mode command: the escape sequence as it is,
/// anything else as "AT", the command, its parameter and a carriage return.
pub open spec fn line_spec(command: Seq<u8>, parameter: Option<&[u8]>) -> Seq<u8> {
    if command == escape_bytes() {
        command
    } else {
        seq![0x41u8, 0x54u8] + command + api::opt_bytes(parameter) + seq![CR]
    }
}

/// Appends the bytes of `s` to `v`.
fn append_bytes(v: &mut Vec<u8>, s: &[u8])
    ensures
        final(v)@ == old(v)@ + s@,
{
    let mut i: usize = 0;
    while i < s.len()
        invariant
            i <= s@.len(),
            v@ == old(v)@ + s@.subrange(0, i as int),
        decreases s@.len() - i,
    {
        v.push(s[i]);
        i = i + 1;
        assert(v@ =~= old(v)@ + s@.subrange(0, i as int));
    }
    assert(s@.subrange(0, i as int) =~= s@);
}

impl<'a> AtCommand<'a> {
    /// The bytes to write for this command.
    pub fn line_bytes(&self) -> (r: Vec<u8>)
        ensures
            r@ == line_spec(self.command.spec_bytes(), self.parameter),
    {
        let cmd = self.command.as_bytes();
        let mut tx: Vec<u8> = Vec::new();
        if cmd.len() == 3 && cmd[0] == 0x2b && cmd[1] == 0x2b && cmd[2] == 0x2b {
            assert(cmd@ =~= escape_bytes());
            append_bytes(&mut tx, cmd);
            assert(tx@ =~= cmd@);
        } else {
            tx.push(0x41);
            tx.push(0x54);
            append_bytes(&mut tx, cmd);
            match self.parameter {
                Some(p) => append_bytes(&mut tx, p),
                None => {},
            }
            tx.push(CR);
            assert(tx@ =~= line_spec(cmd@, self.parameter));
        }
        tx
    }
}

/// Number of carriage returns in `s`.
pub open spec fn cr_count(s: Seq<u8>) -> nat
    decreases s.len(),
{
    if s.len() == 0 {
        0
    } else {
        cr_count(s.drop_last()) + if s.last() == CR {
            1nat
        } else {
            0nat
        }
    }
}

/// The reply to a line-mode command, read one byte at a time.
#[derive(Debug)]
pub struct LineReply {
    pub received: Vec<u8>,
    pub cr_seen: usize,
    pub expected: usize,
}

impl LineReply {
    pub open spec fn wf(&self) -> bool {
        self.cr_seen == cr_count(self.received@)
    }

    /// A reply that ends after `expected` carriage returns.
    pub fn new(expected: usize) -> (r: Self)
        ensures
            r.wf(),
            r.received@.len() == 0,
            r.expected == expected,
    {
        LineReply { received: Vec::new(), cr_seen: 0, expected }
    }

    /// Takes one byte read; returns whether the reply is complete, that is
    /// whether this byte is the carriage return that makes the count.
    pub fn push(&mut self, b: u8) -> (done: bool)
        requires
            old(self).wf(),
            old(self).received@.len() < usize::MAX,
        ensures
            final(self).wf(),
            final(self).expected == old(self).expected,
            final(self).received@ == old(self).received@.push(b),
            done <==> b == CR && cr_count(final(self).received@) == old(self).expected,
    {
        proof {
            lemma_cr_count_le(self.received@);
        }
        self.received.push(b);
        assert(self.received@.drop_last() =~= old(self).received@);
        if b == CR {
            self.cr_seen = self.cr_seen + 1;
            self.cr_seen == self.expected
        } else {
            false
        }
    }
}

proof fn lemma_cr_count_le(s: Seq<u8>)
    ensures
        cr_count(s) <= s.len(),
    decreases s.len(),
{
    if s.len() > 0 {
        lemma_cr_count_le(s.drop_last());
    }
}

} // verus!
