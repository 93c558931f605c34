//! The messages of the channel manager and their wire format.
//!
//! Every message starts with one header byte. Its upper four bits hold the command, the next two
//! the width of a second integer where the command has one, and the lowest two the width of the
//! channel identifier.
use vstd::prelude::*;
use vstd::slice::{slice_subrange, slice_to_vec};
use vstd::string::*;

use crate::error;
use crate::error::DecodeError;
use crate::wire;
use crate::wire::{read_u16, read_u32, write_narrow, write_u16, FieldType};

verus! {

/// The command that creates a channel, or answers its creation.
pub const CMD_CREATE: u8 = 1;

/// The command of the first block of a message that takes several.
pub const CMD_DATA_FIRST: u8 = 2;

/// The command of a message in one block, or of a later block.
pub const CMD_DATA: u8 = 3;

/// The command that closes a channel.
pub const CMD_CLOSE: u8 = 4;

/// The command that announces or answers capabilities.
pub const CMD_CAPABILITY: u8 = 5;

/// The last command code that the protocol knows.
pub const CMD_LAST: u8 = 9;

/// The status of a channel that was created.
pub const CREATION_STATUS_OK: u32 = 0;

/// The most bytes that a block of a message may hold.
pub const MAX_DATA_SIZE: usize = 1590;

/// A version of the capability exchange.
#[derive(Debug, Clone, Copy, PartialEq, Eq, Structural)]
pub enum CapsVersion {
    V1,
    V2,
    V3,
}

impl CapsVersion {
    /// The number of the version on the wire.
    pub open spec fn number(self) -> u16 {
        match self {
            CapsVersion::V1 => 1,
            CapsVersion::V2 => 2,
            CapsVersion::V3 => 3,
        }
    }

    /// The version with the given number, if there is one.
    pub open spec fn of_number(n: u16) -> Option<CapsVersion> {
        if n == 1 {
            Some(CapsVersion::V1)
        } else if n == 2 {
            Some(CapsVersion::V2)
        } else if n == 3 {
            Some(CapsVersion::V3)
        } else {
            None
        }
    }

    /// The number of the version on the wire.
    pub fn to_number(self) -> (r: u16)
        ensures
            r == self.number(),
    {
        match self {
            CapsVersion::V1 => 1,
            CapsVersion::V2 => 2,
            CapsVersion::V3 => 3,
        }
    }

    /// The version with the given number, if there is one.
    pub fn from_number(n: u16) -> (r: Option<CapsVersion>)
        ensures
            r == CapsVersion::of_number(n),
    {
        if n == 1 {
            Some(CapsVersion::V1)
        } else if n == 2 {
            Some(CapsVersion::V2)
        } else if n == 3 {
            Some(CapsVersion::V3)
        } else {
            None
        }
    }
}

/// The client's answer to the capability request.
#[derive(Debug, Clone, Copy, PartialEq, Eq)]
pub struct CapabilitiesResponsePdu {
    pub version: CapsVersion,
}

/// The client's answer to a create request.
#[derive(Debug, Clone, Copy, PartialEq, Eq)]
pub struct CreateResponsePdu {
    pub channel_id: u32,
    pub creation_status: u32,
}

/// The notice that a channel is closed.
#[derive(Debug, Clone, Copy, PartialEq, Eq)]
pub struct ClosePdu {
    pub channel_id: u32,
}

/// The first block of a message that takes several.
#[derive(Debug, PartialEq, Eq)]
pub struct DataFirstPdu {
    pub channel_id: u32,
    /// The length of the whole message.
    pub length: u32,
    pub data: Vec<u8>,
}

/// A message in one block, or a later block of a message that takes several.
#[derive(Debug, PartialEq, Eq)]
pub struct DataPdu {
    pub channel_id: u32,
    pub data: Vec<u8>,
}

/// A block of data, which both sides send.
#[derive(Debug, PartialEq, Eq)]
pub enum DrdynvcDataPdu {
    DataFirst(DataFirstPdu),
    Data(DataPdu),
}

/// A message that a client sends.
#[derive(Debug, PartialEq, Eq)]
pub enum DrdynvcClientPdu {
    Capabilities(CapabilitiesResponsePdu),
    Create(CreateResponsePdu),
    Close(ClosePdu),
    Data(DrdynvcDataPdu),
}

/// The server's announcement of its capabilities.
#[derive(Debug, Clone, Copy, PartialEq, Eq)]
pub struct CapabilitiesRequestPdu {
    pub version: CapsVersion,
    /// The bandwidth charges of the four priorities; version 1 does not send them.
    pub charges: [u16; 4],
}

/// The server's request to create a channel.
#[derive(Debug, PartialEq, Eq)]
pub struct CreateRequestPdu {
    pub channel_id: u32,
    pub channel_name: String,
}

/// A message that a server sends.
#[derive(Debug, PartialEq, Eq)]
pub enum DrdynvcServerPdu {
    Capabilities(CapabilitiesRequestPdu),
    Create(CreateRequestPdu),
    Close(ClosePdu),
    Data(DrdynvcDataPdu),
}

/// What a block of data says.
#[verifier::ext_equal]
pub enum DataModel {
    First { channel_id: u32, length: u32, data: Seq<u8> },
    Block { channel_id: u32, data: Seq<u8> },
}

impl DataModel {
    /// The channel that the block belongs to.
    pub open spec fn channel(self) -> u32 {
        match self {
            DataModel::First { channel_id, .. } => channel_id,
            DataModel::Block { channel_id, .. } => channel_id,
        }
    }
}

/// What a client's message says.
#[verifier::ext_equal]
pub enum ClientModel {
    Capabilities { version: CapsVersion },
    Create { channel_id: u32, status: u32 },
    Close { channel_id: u32 },
    Data(DataModel),
}

/// What a server's message says.
#[verifier::ext_equal]
pub enum ServerMessageModel {
    Capabilities { version: CapsVersion, charges: Seq<u16> },
    Create { channel_id: u32, name: Seq<char> },
    Close { channel_id: u32 },
    Data(DataModel),
}

impl View for DrdynvcDataPdu {
    type V = DataModel;

    open spec fn view(&self) -> DataModel {
        match self {
            DrdynvcDataPdu::DataFirst(p) => DataModel::First {
                channel_id: p.channel_id,
                length: p.length,
                data: p.data@,
            },
            DrdynvcDataPdu::Data(p) => DataModel::Block { channel_id: p.channel_id, data: p.data@ },
        }
    }
}

impl View for DrdynvcClientPdu {
    type V = ClientModel;

    open spec fn view(&self) -> ClientModel {
        match self {
            DrdynvcClientPdu::Capabilities(p) => ClientModel::Capabilities { version: p.version },
            DrdynvcClientPdu::Create(p) => ClientModel::Create {
                channel_id: p.channel_id,
                status: p.creation_status,
            },
            DrdynvcClientPdu::Close(p) => ClientModel::Close { channel_id: p.channel_id },
            DrdynvcClientPdu::Data(p) => ClientModel::Data(p@),
        }
    }
}

impl View for DrdynvcServerPdu {
    type V = ServerMessageModel;

    open spec fn view(&self) -> ServerMessageModel {
        match self {
            DrdynvcServerPdu::Capabilities(p) => ServerMessageModel::Capabilities {
                version: p.version,
                charges: p.charges@,
            },
            DrdynvcServerPdu::Create(p) => ServerMessageModel::Create {
                channel_id: p.channel_id,
                name: p.channel_name@,
            },
            DrdynvcServerPdu::Close(p) => ServerMessageModel::Close { channel_id: p.channel_id },
            DrdynvcServerPdu::Data(p) => ServerMessageModel::Data(p@),
        }
    }
}

impl DrdynvcDataPdu {
    /// The channel that the block belongs to.
    pub fn channel_id(&self) -> (r: u32)
        ensures
            r == self@.channel(),
    {
        match self {
            DrdynvcDataPdu::DataFirst(p) => p.channel_id,
            DrdynvcDataPdu::Data(p) => p.channel_id,
        }
    }
}

/// The command in a header byte.
pub open spec fn header_cmd(b: u8) -> u8 {
    b / 16
}

/// The width of the second integer that a header byte announces.
pub open spec fn header_sp(b: u8) -> FieldType {
    FieldType::of_code(b / 4 % 4)
}

/// The width of the channel identifier that a header byte announces.
pub open spec fn header_cb_id(b: u8) -> FieldType {
    FieldType::of_code(b % 4)
}

/// The error of a fixed part of `expected` bytes where only `received` are left.
pub open spec fn short(received: int, expected: int) -> DecodeError {
    DecodeError::NotEnoughBytes { received: received as usize, expected: expected as usize }
}

/// What the bytes of a client's message say, or why they say nothing.
pub open spec fn parse_client_pdu(s: Seq<u8>) -> Result<ClientModel, DecodeError> {
    if s.len() == 0 {
        Err(short(0, 1))
    } else {
        let cmd = header_cmd(s[0]);
        let cb_id = header_cb_id(s[0]);
        let left = s.len() - 1;
        if cmd == 0 || cmd > CMD_LAST {
            Err(DecodeError::InvalidCmd)
        } else if cmd == CMD_CREATE {
            if left < cb_id.width() + 4 {
                Err(short(left, cb_id.width() + 4))
            } else if cb_id is Invalid {
                Err(DecodeError::InvalidFieldType)
            } else {
                Ok(
                    ClientModel::Create {
                        channel_id: cb_id.value_at(s, 1),
                        status: wire::u32_at(s, 1 + cb_id.width()),
                    },
                )
            }
        } else if cmd == CMD_DATA_FIRST {
            let sp = header_sp(s[0]);
            if left < cb_id.width() + sp.width() {
                Err(short(left, cb_id.width() + sp.width()))
            } else if cb_id is Invalid || sp is Invalid {
                Err(DecodeError::InvalidFieldType)
            } else {
                Ok(
                    ClientModel::Data(
                        DataModel::First {
                            channel_id: cb_id.value_at(s, 1),
                            length: sp.value_at(s, 1 + cb_id.width()),
                            data: s.skip(1 + cb_id.width() + sp.width()),
                        },
                    ),
                )
            }
        } else if cmd == CMD_DATA {
            if left < cb_id.width() {
                Err(short(left, cb_id.width()))
            } else if cb_id is Invalid {
                Err(DecodeError::InvalidFieldType)
            } else {
                Ok(
                    ClientModel::Data(
                        DataModel::Block {
                            channel_id: cb_id.value_at(s, 1),
                            data: s.skip(1 + cb_id.width()),
                        },
                    ),
                )
            }
        } else if cmd == CMD_CLOSE {
            if left < cb_id.width() {
                Err(short(left, cb_id.width()))
            } else if cb_id is Invalid {
                Err(DecodeError::InvalidFieldType)
            } else {
                Ok(ClientModel::Close { channel_id: cb_id.value_at(s, 1) })
            }
        } else if cmd == CMD_CAPABILITY {
            if left < 3 {
                Err(short(left, 3))
            } else {
                match CapsVersion::of_number(wire::u16_at(s, 2)) {
                    Some(version) => Ok(ClientModel::Capabilities { version }),
                    None => Err(DecodeError::InvalidVersion),
                }
            }
        } else {
            Err(DecodeError::UnsupportedCmd { cmd })
        }
    }
}

/// Checks that `expected` of the `received` bytes left are there.
fn ensure_size(received: usize, expected: usize) -> (r: Result<(), DecodeError>)
    ensures
        r is Ok <==> expected <= received,
        r matches Err(e) ==> e == short(received as int, expected as int),
{
    if received < expected {
        Err(DecodeError::NotEnoughBytes { received, expected })
    } else {
        Ok(())
    }
}

/// Reads the fields of a create response, behind its header.
fn decode_create_response(s: &[u8], cb_id: FieldType) -> (r: Result<CreateResponsePdu, DecodeError>)
    requires
        s@.len() >= 1,
        header_cmd(s@[0]) == CMD_CREATE,
        header_cb_id(s@[0]) == cb_id,
    ensures
        match r {
            Ok(p) => parse_client_pdu(s@) == Ok::<ClientModel, DecodeError>(
                DrdynvcClientPdu::Create(p)@,
            ),
            Err(e) => parse_client_pdu(s@) == Err::<ClientModel, DecodeError>(e),
        },
{
    ensure_size(s.len() - 1, cb_id.size_of_val() + 4)?;
    match cb_id {
        FieldType::Invalid => Err(DecodeError::InvalidFieldType),
        _ => Ok(
            CreateResponsePdu {
                channel_id: cb_id.read(s, 1),
                creation_status: read_u32(s, 1 + cb_id.size_of_val()),
            },
        ),
    }
}

/// Reads the fields of the first block of a message, behind its header.
fn decode_data_first(s: &[u8], cb_id: FieldType, sp: FieldType) -> (r: Result<
    DataFirstPdu,
    DecodeError,
>)
    requires
        s@.len() >= 1,
        header_cmd(s@[0]) == CMD_DATA_FIRST,
        header_cb_id(s@[0]) == cb_id,
        header_sp(s@[0]) == sp,
    ensures
        match r {
            Ok(p) => parse_client_pdu(s@) == Ok::<ClientModel, DecodeError>(
                DrdynvcClientPdu::Data(DrdynvcDataPdu::DataFirst(p))@,
            ),
            Err(e) => parse_client_pdu(s@) == Err::<ClientModel, DecodeError>(e),
        },
{
    let fixed: usize = cb_id.size_of_val() + sp.size_of_val();
    ensure_size(s.len() - 1, fixed)?;
    if cb_id == FieldType::Invalid || sp == FieldType::Invalid {
        return Err(DecodeError::InvalidFieldType);
    }
    let rest = slice_subrange(s, 1 + fixed, s.len());
    assert(rest@ =~= s@.skip(1 + fixed));
    Ok(
        DataFirstPdu {
            channel_id: cb_id.read(s, 1),
            length: sp.read(s, 1 + cb_id.size_of_val()),
            data: slice_to_vec(rest),
        },
    )
}

/// Reads the fields of a later block of a message, behind its header.
fn decode_data(s: &[u8], cb_id: FieldType) -> (r: Result<DataPdu, DecodeError>)
    requires
        s@.len() >= 1,
        header_cmd(s@[0]) == CMD_DATA,
        header_cb_id(s@[0]) == cb_id,
    ensures
        match r {
            Ok(p) => parse_client_pdu(s@) == Ok::<ClientModel, DecodeError>(
                DrdynvcClientPdu::Data(DrdynvcDataPdu::Data(p))@,
            ),
            Err(e) => parse_client_pdu(s@) == Err::<ClientModel, DecodeError>(e),
        },
{
    ensure_size(s.len() - 1, cb_id.size_of_val())?;
    if cb_id == FieldType::Invalid {
        return Err(DecodeError::InvalidFieldType);
    }
    let rest = slice_subrange(s, 1 + cb_id.size_of_val(), s.len());
    assert(rest@ =~= s@.skip(1 + cb_id.width()));
    Ok(DataPdu { channel_id: cb_id.read(s, 1), data: slice_to_vec(rest) })
}

/// Reads the fields of a closing notice, behind its header.
fn decode_close(s: &[u8], cb_id: FieldType) -> (r: Result<ClosePdu, DecodeError>)
    requires
        s@.len() >= 1,
        header_cmd(s@[0]) == CMD_CLOSE,
        header_cb_id(s@[0]) == cb_id,
    ensures
        match r {
            Ok(p) => parse_client_pdu(s@) == Ok::<ClientModel, DecodeError>(
                DrdynvcClientPdu::Close(p)@,
            ),
            Err(e) => parse_client_pdu(s@) == Err::<ClientModel, DecodeError>(e),
        },
{
    ensure_size(s.len() - 1, cb_id.size_of_val())?;
    match cb_id {
        FieldType::Invalid => Err(DecodeError::InvalidFieldType),
        _ => Ok(ClosePdu { channel_id: cb_id.read(s, 1) }),
    }
}

/// Reads the fields of a capability response, behind its header.
fn decode_capabilities_response(s: &[u8]) -> (r: Result<CapabilitiesResponsePdu, DecodeError>)
    requires
        s@.len() >= 1,
        header_cmd(s@[0]) == CMD_CAPABILITY,
    ensures
        match r {
            Ok(p) => parse_client_pdu(s@) == Ok::<ClientModel, DecodeError>(
                DrdynvcClientPdu::Capabilities(p)@,
            ),
            Err(e) => parse_client_pdu(s@) == Err::<ClientModel, DecodeError>(e),
        },
{
    ensure_size(s.len() - 1, 3)?;
    match CapsVersion::from_number(read_u16(s, 2)) {
        Some(version) => Ok(CapabilitiesResponsePdu { version }),
        None => Err(DecodeError::InvalidVersion),
    }
}

/// Reads a message of the client.
pub fn decode_dvc_message(user_data: &[u8]) -> (r: Result<DrdynvcClientPdu, DecodeError>)
    ensures
        error::result_view(r) == parse_client_pdu(user_data@),
{
    ensure_size(user_data.len(), 1)?;
    let header: u8 = user_data[0];
    let cmd: u8 = header / 16;
    let cb_id = FieldType::from_code(header % 4);
    if cmd == 0 || cmd > CMD_LAST {
        Err(DecodeError::InvalidCmd)
    } else if cmd == CMD_CREATE {
        Ok(DrdynvcClientPdu::Create(decode_create_response(user_data, cb_id)?))
    } else if cmd == CMD_DATA_FIRST {
        let sp = FieldType::from_code(header / 4 % 4);
        let block = decode_data_first(user_data, cb_id, sp)?;
        Ok(DrdynvcClientPdu::Data(DrdynvcDataPdu::DataFirst(block)))
    } else if cmd == CMD_DATA {
        let block = decode_data(user_data, cb_id)?;
        Ok(DrdynvcClientPdu::Data(DrdynvcDataPdu::Data(block)))
    } else if cmd == CMD_CLOSE {
        Ok(DrdynvcClientPdu::Close(decode_close(user_data, cb_id)?))
    } else if cmd == CMD_CAPABILITY {
        Ok(DrdynvcClientPdu::Capabilities(decode_capabilities_response(user_data)?))
    } else {
        Err(DecodeError::UnsupportedCmd { cmd })
    }
}

/// The header byte with the given command and width codes.
pub open spec fn header_byte(cmd: u8, sp: FieldType, cb_id: FieldType) -> u8 {
    (cmd * 16 + sp.code() * 4 + cb_id.code()) as u8
}

/// The header byte and the channel identifier that a message to `channel_id` starts with.
pub open spec fn channel_prefix(cmd: u8, sp: FieldType, channel_id: u32) -> Seq<u8> {
    seq![header_byte(cmd, sp, FieldType::narrowest(channel_id))] + wire::narrow_bytes(channel_id)
}

/// The bytes of a block of data.
pub open spec fn data_bytes(m: DataModel) -> Seq<u8> {
    match m {
        DataModel::First { channel_id, length, data } => channel_prefix(
            CMD_DATA_FIRST,
            FieldType::narrowest(length),
            channel_id,
        ) + wire::narrow_bytes(length) + data,
        DataModel::Block { channel_id, data } => channel_prefix(
            CMD_DATA,
            FieldType::U8,
            channel_id,
        ) + data,
    }
}

/// The bytes of a closing notice.
pub open spec fn close_bytes(channel_id: u32) -> Seq<u8> {
    channel_prefix(CMD_CLOSE, FieldType::U8, channel_id)
}

/// The bytes of several two-byte integers.
pub open spec fn u16s_bytes(v: Seq<u16>) -> Seq<u8>
    decreases v.len(),
{
    if v.len() == 0 {
        seq![]
    } else {
        u16s_bytes(v.drop_last()) + wire::u16_bytes(v.last())
    }
}

/// The bytes of a server's message.
pub open spec fn server_bytes(m: ServerMessageModel) -> Seq<u8> {
    match m {
        ServerMessageModel::Capabilities { version, charges } => {
            let head = seq![header_byte(CMD_CAPABILITY, FieldType::U8, FieldType::U8), 0u8]
                + wire::u16_bytes(version.number());
            if version is V1 {
                head
            } else {
                head + u16s_bytes(charges)
            }
        },
        ServerMessageModel::Create { channel_id, name } => channel_prefix(
            CMD_CREATE,
            FieldType::U8,
            channel_id,
        ) + vstd::utf8::encode_utf8(name) + seq![0u8],
        ServerMessageModel::Close { channel_id } => close_bytes(channel_id),
        ServerMessageModel::Data(d) => data_bytes(d),
    }
}

/// The name of a block of data.
pub open spec fn data_name(m: DataModel) -> Seq<char> {
    match m {
        DataModel::First { .. } => "DYNVC_DATA_FIRST"@,
        DataModel::Block { .. } => "DYNVC_DATA"@,
    }
}

/// The name of a server's message.
pub open spec fn server_name(m: ServerMessageModel) -> Seq<char> {
    match m {
        ServerMessageModel::Capabilities { version, .. } => match version {
            CapsVersion::V1 => "DYNVC_CAPS_VERSION1"@,
            CapsVersion::V2 => "DYNVC_CAPS_VERSION2"@,
            CapsVersion::V3 => "DYNVC_CAPS_VERSION3"@,
        },
        ServerMessageModel::Create { .. } => "DYNVC_CREATE_REQ"@,
        ServerMessageModel::Close { .. } => "DYNVC_CLOSE"@,
        ServerMessageModel::Data(d) => data_name(d),
    }
}

/// Appends the header byte.
fn write_header(out: &mut Vec<u8>, cmd: u8, sp: FieldType, cb_id: FieldType)
    requires
        cmd <= CMD_LAST,
    ensures
        final(out)@ == old(out)@.push(header_byte(cmd, sp, cb_id)),
{
    out.push(cmd * 16 + sp.to_code() * 4 + cb_id.to_code());
}

/// Appends the header byte and the channel identifier.
fn write_channel_prefix(out: &mut Vec<u8>, cmd: u8, sp: FieldType, channel_id: u32)
    requires
        cmd <= CMD_LAST,
    ensures
        final(out)@ == old(out)@ + channel_prefix(cmd, sp, channel_id),
{
    write_header(out, cmd, sp, FieldType::for_val(channel_id));
    write_narrow(out, channel_id);
    assert(out@ =~= old(out)@ + channel_prefix(cmd, sp, channel_id));
}

/// Appends bytes.
fn write_slice(out: &mut Vec<u8>, bytes: &[u8])
    ensures
        final(out)@ == old(out)@ + bytes@,
{
    let mut i: usize = 0;
    while i < bytes.len()
        invariant
            i <= bytes@.len(),
            out@ == old(out)@ + bytes@.take(i as int),
        decreases bytes@.len() - i,
    {
        out.push(bytes[i]);
        assert(bytes@.take(i + 1) =~= bytes@.take(i as int).push(bytes@[i as int]));
        i = i + 1;
    }
    assert(bytes@.take(i as int) =~= bytes@);
}

impl DrdynvcDataPdu {
    /// The name of the block.
    pub fn name(&self) -> (r: &'static str)
        ensures
            r@ == data_name(self@),
    {
        match self {
            DrdynvcDataPdu::DataFirst(_) => "DYNVC_DATA_FIRST",
            DrdynvcDataPdu::Data(_) => "DYNVC_DATA",
        }
    }

    /// The bytes of the block.
    pub fn encode(&self) -> (r: Vec<u8>)
        ensures
            r@ == data_bytes(self@),
    {
        let mut out: Vec<u8> = Vec::new();
        match self {
            DrdynvcDataPdu::DataFirst(p) => {
                write_channel_prefix(
                    &mut out,
                    CMD_DATA_FIRST,
                    FieldType::for_val(p.length),
                    p.channel_id,
                );
                write_narrow(&mut out, p.length);
                write_slice(&mut out, p.data.as_slice());
            },
            DrdynvcDataPdu::Data(p) => {
                write_channel_prefix(&mut out, CMD_DATA, FieldType::U8, p.channel_id);
                write_slice(&mut out, p.data.as_slice());
            },
        }
        assert(out@ =~= data_bytes(self@));
        out
    }
}

impl CapabilitiesRequestPdu {
    /// The announcement of `version`, with no charges.
    pub fn new(version: CapsVersion) -> (r: CapabilitiesRequestPdu)
        ensures
            r.version == version,
            r.charges@ == seq![0u16, 0, 0, 0],
    {
        let charges: [u16; 4] = [0, 0, 0, 0];
        assert(charges@ =~= seq![0u16, 0, 0, 0]);
        CapabilitiesRequestPdu { version, charges }
    }

    /// The bytes of the announcement.
    fn encode(&self) -> (r: Vec<u8>)
        ensures
            r@ == server_bytes(DrdynvcServerPdu::Capabilities(*self)@),
    {
        let mut out: Vec<u8> = Vec::new();
        write_header(&mut out, CMD_CAPABILITY, FieldType::U8, FieldType::U8);
        out.push(0);
        write_u16(&mut out, self.version.to_number());
        let ghost head = seq![header_byte(CMD_CAPABILITY, FieldType::U8, FieldType::U8), 0u8]
            + wire::u16_bytes(self.version.number());
        assert(out@ =~= head);
        if self.version != CapsVersion::V1 {
            let mut i: usize = 0;
            assert(self.charges@.take(0) =~= seq![]);
            assert(out@ =~= head + u16s_bytes(self.charges@.take(0)));
            while i < 4
                invariant
                    i <= 4,
                    out@ == head + u16s_bytes(self.charges@.take(i as int)),
                decreases 4 - i,
            {
                write_u16(&mut out, self.charges[i]);
                let ghost next = self.charges@.take(i + 1);
                assert(next.drop_last() =~= self.charges@.take(i as int));
                assert(next.last() == self.charges@[i as int]);
                assert(out@ =~= head + u16s_bytes(next));
                i = i + 1;
            }
            assert(self.charges@.take(4) =~= self.charges@);
        }
        out
    }
}

impl DrdynvcServerPdu {
    /// The name of the message.
    pub fn name(&self) -> (r: &'static str)
        ensures
            r@ == server_name(self@),
    {
        match self {
            DrdynvcServerPdu::Capabilities(p) => match p.version {
                CapsVersion::V1 => "DYNVC_CAPS_VERSION1",
                CapsVersion::V2 => "DYNVC_CAPS_VERSION2",
                CapsVersion::V3 => "DYNVC_CAPS_VERSION3",
            },
            DrdynvcServerPdu::Create(_) => "DYNVC_CREATE_REQ",
            DrdynvcServerPdu::Close(_) => "DYNVC_CLOSE",
            DrdynvcServerPdu::Data(p) => p.name(),
        }
    }

    /// The bytes of the message.
    pub fn encode(&self) -> (r: Vec<u8>)
        ensures
            r@ == server_bytes(self@),
    {
        match self {
            DrdynvcServerPdu::Capabilities(p) => p.encode(),
            DrdynvcServerPdu::Create(p) => {
                let mut out: Vec<u8> = Vec::new();
                write_channel_prefix(&mut out, CMD_CREATE, FieldType::U8, p.channel_id);
                write_slice(&mut out, p.channel_name.as_str().as_bytes());
                out.push(0);
                assert(out@ =~= server_bytes(self@));
                out
            },
            DrdynvcServerPdu::Close(p) => {
                let mut out: Vec<u8> = Vec::new();
                write_channel_prefix(&mut out, CMD_CLOSE, FieldType::U8, p.channel_id);
                assert(out@ =~= server_bytes(self@));
                out
            },
            DrdynvcServerPdu::Data(p) => p.encode(),
        }
    }
}

} // verus!
