//! The messages of the static channel that carries the dynamic ones.
use vstd::prelude::*;
use ironrdp_core::{Encode, EncodeErrorKind, EncodeResult, WriteCursor};
use ironrdp_pdu::gcc::ChannelName;
use ironrdp_svc::{ChannelFlags, SvcEncode, SvcMessage};

use crate::error::EncodeError;
use crate::pdu;
use crate::pdu::{
    DataFirstPdu,
    DataModel,
    DataPdu,
    DrdynvcDataPdu,
    DrdynvcServerPdu,
    ServerMessageModel,
    MAX_DATA_SIZE,
};
use crate::processor;
use crate::processor::DvcMessage;

verus! {

/// Declares `ironrdp_svc::SvcMessage`, a message ready to be cut into chunks and sent.
#[verifier::external_type_specification]
#[verifier::external_body]
pub struct ExSvcMessage(SvcMessage);

/// Declares `ironrdp_core::WriteCursor`, a place in a buffer to write to.
#[verifier::external_type_specification]
#[verifier::external_body]
pub struct ExWriteCursor<'a>(WriteCursor<'a>);

/// Declares `ironrdp_core::EncodeErrorKind`, why something could not be encoded.
#[verifier::external_type_specification]
#[verifier::external_body]
pub struct ExEncodeErrorKind(EncodeErrorKind);

/// Declares `ironrdp_error::Error`, an error of a given kind.
#[verifier::external_type_specification]
#[verifier::external_body]
#[verifier::reject_recursive_types(Kind)]
pub struct ExError<Kind>(ironrdp_error::Error<Kind>);

/// What stands in the buffer before the cursor.
pub uninterp spec fn cursor_written(cursor: WriteCursor<'_>) -> Seq<u8>;

/// How many bytes the buffer has room for behind the cursor.
pub uninterp spec fn cursor_room(cursor: WriteCursor<'_>) -> nat;

/// Calls `WriteCursor::remaining`, which returns the part of the buffer behind the cursor. It is
/// empty where the cursor stands past the end.
#[verifier::external_body]
fn cursor_remaining(cursor: &WriteCursor<'_>) -> (r: usize)
    ensures
        r == cursor_room(*cursor),
{
    cursor.remaining().len()
}

/// Calls `WriteCursor::write_slice`, which writes bytes at the cursor and moves it behind them. It
/// panics where there is no room for them.
#[verifier::external_body]
fn cursor_write_slice(cursor: &mut WriteCursor<'_>, bytes: &[u8])
    requires
        0 < bytes@.len() <= cursor_room(*old(cursor)),
    ensures
        cursor_written(*final(cursor)) == cursor_written(*old(cursor)) + bytes@,
        cursor_room(*final(cursor)) == cursor_room(*old(cursor)) - bytes@.len(),
{
    cursor.write_slice(bytes)
}

/// The error of a buffer that has too little room.
pub uninterp spec fn too_little_room(
    received: usize,
    expected: usize,
) -> ironrdp_error::Error<EncodeErrorKind>;

/// Calls `ironrdp_core::not_enough_bytes_err`, which makes the error of a buffer that has room for
/// `received` bytes where `expected` are due.
#[verifier::external_body]
fn not_enough_room(received: usize, expected: usize) -> (r: ironrdp_error::Error<EncodeErrorKind>)
    ensures
        r == too_little_room(received, expected),
{
    ironrdp_core::not_enough_bytes_err("DRDYNVC", received, expected)
}

/// The bytes of a message, and the name that it goes by.
pub struct EncodedPdu {
    pub name: &'static str,
    pub bytes: Vec<u8>,
}

impl Encode for EncodedPdu {
    /// Writes the message where the buffer has room for all of it, and else nothing.
    fn encode(&self, dst: &mut WriteCursor<'_>) -> (r: EncodeResult<()>)
        ensures
            self.bytes@.len() <= cursor_room(*old(dst)) ==> {
                &&& r is Ok
                &&& cursor_written(*final(dst)) == cursor_written(*old(dst)) + self.bytes@
                &&& cursor_room(*final(dst)) == cursor_room(*old(dst)) - self.bytes@.len()
            },
            self.bytes@.len() > cursor_room(*old(dst)) ==> {
                &&& r == EncodeResult::<()>::Err(
                    too_little_room(cursor_room(*old(dst)) as usize, self.bytes@.len() as usize),
                )
                &&& *final(dst) == *old(dst)
            },
    {
        let room: usize = cursor_remaining(dst);
        let size: usize = self.bytes.len();
        if room < size {
            return Err(not_enough_room(room, size));
        }
        if size > 0 {
            cursor_write_slice(dst, self.bytes.as_slice());
        }
        assert(size == 0 ==> cursor_written(*dst) + self.bytes@ =~= cursor_written(*dst));
        Ok(())
    }

    /// The name of the message.
    fn name(&self) -> (r: &'static str)
        ensures
            r@ == self.name@,
    {
        self.name
    }

    /// The number of bytes of the message.
    fn size(&self) -> (r: usize)
        ensures
            r == self.bytes@.len(),
    {
        self.bytes.len()
    }
}

impl SvcEncode for EncodedPdu {

}

/// The message of the static channel with the given name, bytes and flags.
pub uninterp spec fn svc_message(name: Seq<char>, payload: Seq<u8>, flags: u32) -> SvcMessage;

/// Calls `SvcMessage::from`, for a message that is encoded already, and `SvcMessage::with_flags`.
/// The name, the bytes and the flags make up the message.
#[verifier::external_body]
fn new_svc_message(pdu: EncodedPdu, flags: u32) -> (r: SvcMessage)
    ensures
        r == svc_message(pdu.name@, pdu.bytes@, flags),
{
    SvcMessage::from(pdu).with_flags(ChannelFlags::from_bits_retain(flags))
}

/// The flag that asks for the protocol header to be visible at the other end.
pub open spec fn show_protocol() -> u32 {
    0x10
}

/// Reads the constant `ChannelFlags::SHOW_PROTOCOL`, whose bits are `0x10`.
#[verifier::external_body]
pub(crate) fn show_protocol_flag() -> (r: u32)
    ensures
        r == show_protocol(),
{
    ChannelFlags::SHOW_PROTOCOL.bits()
}

/// The message that carries a message of the channel manager.
pub open spec fn svc_message_of(m: ServerMessageModel) -> SvcMessage {
    svc_message(pdu::server_name(m), pdu::server_bytes(m), show_protocol())
}

/// Wraps a message of the channel manager.
pub fn as_svc_msg_with_flag(pdu: DrdynvcServerPdu) -> (r: SvcMessage)
    ensures
        r == svc_message_of(pdu@),
{
    let name = pdu.name();
    new_svc_message(EncodedPdu { name, bytes: pdu.encode() }, show_protocol_flag())
}

/// Declares `ironrdp_pdu::gcc::ChannelName`, the name of a static channel.
#[verifier::external_type_specification]
#[verifier::external_body]
pub struct ExChannelName(ChannelName);

/// The name of a static channel with the given bytes, the last of which is zero.
pub uninterp spec fn static_channel_name(bytes: Seq<u8>) -> ChannelName;

/// Calls `ChannelName::from_static`, which panics on bytes that do not end in zero.
#[verifier::external_body]
pub(crate) fn channel_name_from_static(bytes: &'static [u8; 8]) -> (r: ChannelName)
    requires
        bytes@[7] == 0,
    ensures
        r == static_channel_name(bytes@),
{
    ChannelName::from_static(bytes)
}

/// How many blocks a message of `len` bytes takes.
pub open spec fn block_count(len: nat) -> nat {
    (len + MAX_DATA_SIZE - 1) as nat / MAX_DATA_SIZE as nat
}

/// The bytes of the block with index `k` of a message: as many as a block may hold, and in the
/// last one what is left.
pub open spec fn block_bytes(message: Seq<u8>, k: int) -> Seq<u8> {
    let end = (k + 1) * MAX_DATA_SIZE;
    message.subrange(
        k * MAX_DATA_SIZE,
        if end <= message.len() {
            end
        } else {
            message.len() as int
        },
    )
}

/// The block with index `k` of a message. The first one announces the length of the message where
/// the message fills it.
pub open spec fn block(channel_id: u32, message: Seq<u8>, k: int) -> DataModel {
    if k == 0 && message.len() >= MAX_DATA_SIZE {
        DataModel::First {
            channel_id,
            length: message.len() as u32,
            data: block_bytes(message, k),
        }
    } else {
        DataModel::Block { channel_id, data: block_bytes(message, k) }
    }
}

/// The blocks of a message, in the order in which they are sent.
pub open spec fn fragments(channel_id: u32, message: Seq<u8>) -> Seq<DataModel> {
    Seq::new(block_count(message.len()), |k: int| block(channel_id, message, k))
}

/// The blocks of several messages, in the order in which they are sent.
pub open spec fn all_fragments(channel_id: u32, messages: Seq<Seq<u8>>) -> Seq<DataModel>
    decreases messages.len(),
{
    if messages.len() == 0 {
        seq![]
    } else {
        all_fragments(channel_id, messages.drop_last()) + fragments(channel_id, messages.last())
    }
}

/// The messages of the static channel that carry the given blocks.
pub open spec fn carried(blocks: Seq<DataModel>, flags: u32) -> Seq<SvcMessage> {
    blocks.map_values(|b: DataModel| svc_message(pdu::data_name(b), pdu::data_bytes(b), flags))
}

/// Whether the length of every message fits in its field.
pub open spec fn lengths_fit(messages: Seq<Seq<u8>>) -> bool {
    forall|i: int| 0 <= i < messages.len() ==> (#[trigger] messages[i]).len() <= u32::MAX
}

/// What the messages of a dynamic channel become on the static one.
pub open spec fn encoded(channel_id: u32, messages: Seq<Seq<u8>>, flags: u32) -> Result<
    Seq<SvcMessage>,
    EncodeError,
> {
    if lengths_fit(messages) {
        Ok(carried(all_fragments(channel_id, messages), flags))
    } else {
        Err(EncodeError::MessageTooLong)
    }
}

/// Cuts a message into blocks and appends the messages that carry them.
fn push_fragments(
    res: &mut Vec<SvcMessage>,
    channel_id: u32,
    message: &Vec<u8>,
    flags: u32,
) -> (r: Result<(), EncodeError>)
    ensures
        r is Ok <==> message@.len() <= u32::MAX,
        r is Ok ==> final(res)@ == old(res)@ + carried(fragments(channel_id, message@), flags),
        r matches Err(e) ==> e == EncodeError::MessageTooLong,
{
    let total_length: usize = message.len();
    let needs_splitting = total_length >= MAX_DATA_SIZE;
    let ghost blocks = fragments(channel_id, message@);
    let mut off: usize = 0;
    let ghost mut k: int = 0;
    assert(res@ =~= old(res)@ + carried(blocks.take(0), flags));
    while off < total_length
        invariant
            total_length == message@.len(),
            needs_splitting == (total_length >= MAX_DATA_SIZE),
            blocks == fragments(channel_id, message@),
            0 <= k <= blocks.len(),
            off == if k * MAX_DATA_SIZE <= total_length {
                k * MAX_DATA_SIZE
            } else {
                total_length as int
            },
            k > 0 ==> total_length <= u32::MAX || !needs_splitting,
            res@ == old(res)@ + carried(blocks.take(k), flags),
        decreases total_length - off,
    {
        let remaining: usize = total_length - off;
        let size: usize = if remaining < MAX_DATA_SIZE {
            remaining
        } else {
            MAX_DATA_SIZE
        };
        let end: usize = off + size;
        let data = vstd::slice::slice_to_vec(
            vstd::slice::slice_subrange(message.as_slice(), off, end),
        );
        assert(data@ =~= block_bytes(message@, k));
        let pdu = if needs_splitting && off == 0 {
            if total_length as u64 > u32::MAX as u64 {
                return Err(EncodeError::MessageTooLong);
            }
            DrdynvcDataPdu::DataFirst(
                DataFirstPdu { channel_id, length: total_length as u32, data },
            )
        } else {
            DrdynvcDataPdu::Data(DataPdu { channel_id, data })
        };
        assert(pdu@ == block(channel_id, message@, k));
        let name = pdu.name();
        res.push(new_svc_message(EncodedPdu { name, bytes: pdu.encode() }, flags));
        proof {
            assert(blocks.take(k + 1) =~= blocks.take(k).push(blocks[k]));
            assert(res@ =~= old(res)@ + carried(blocks.take(k + 1), flags));
            k = k + 1;
        }
        off = end;
    }
    assert(blocks.take(k) =~= blocks);
    Ok(())
}

/// Turns the messages of a dynamic channel into messages of the static one.
pub fn encode_dvc_messages(channel_id: u32, messages: Vec<DvcMessage>, flags: u32) -> (r: Result<
    Vec<SvcMessage>,
    EncodeError,
>)
    ensures
        crate::error::result_view(r) == encoded(channel_id, processor::bytes_of(messages@), flags),
{
    let mut res: Vec<SvcMessage> = Vec::new();
    let ghost bytes = processor::bytes_of(messages@);
    let mut i: usize = 0;
    assert(bytes.take(0) =~= seq![]);
    assert(res@ =~= carried(all_fragments(channel_id, bytes.take(0)), flags));
    while i < messages.len()
        invariant
            i <= messages@.len(),
            bytes == processor::bytes_of(messages@),
            lengths_fit(bytes.take(i as int)),
            res@ == carried(all_fragments(channel_id, bytes.take(i as int)), flags),
        decreases messages@.len() - i,
    {
        assert(bytes[i as int] == messages@[i as int]@);
        push_fragments(&mut res, channel_id, &messages[i].bytes, flags)?;
        proof {
            let next = bytes.take(i + 1);
            assert(next.drop_last() =~= bytes.take(i as int));
            assert(next.last() == bytes[i as int]);
            assert(res@ =~= carried(all_fragments(channel_id, next), flags));
        }
        i = i + 1;
    }
    assert(bytes.take(i as int) =~= bytes);
    Ok(res)
}

} // verus!
