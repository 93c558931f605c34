//! What holds of the formats: which bytes a message is, and which blocks carry it.
//!
//! Integers are read off the bytes by their places here, whatever the other modules say of them.
use vstd::prelude::*;
use ironrdp_svc::SvcMessage;

use crate::complete_data::PartialMessage;
use crate::error::{DecodeError, EncodeError};
use crate::laws;
use crate::pdu;
use crate::pdu::{CapsVersion, ClientModel, DataModel, ServerMessageModel};
use crate::svc;
use crate::wire;
use crate::wire::FieldType;

verus! {

/// The number whose `width` bytes stand in `s` from `at` on, least significant first.
pub open spec fn number_at(s: Seq<u8>, at: int, width: int) -> int
    decreases width,
{
    if width <= 0 {
        0
    } else {
        s[at] + 256 * number_at(s, at + 1, width - 1)
    }
}

/// How many bytes an integer takes that a two-bit code announces; none where the code announces no
/// integer.
pub open spec fn announced_width(code: int) -> int {
    if code == 0 {
        1
    } else if code == 1 {
        2
    } else if code == 2 {
        4
    } else {
        0
    }
}

/// How many bytes an integer takes at least, of the widths that there are.
pub open spec fn least_width(v: u32) -> int {
    if v < 256 {
        1
    } else if v < 65536 {
        2
    } else {
        4
    }
}

/// The width of the channel identifier behind a header byte.
pub open spec fn id_width(header: u8) -> int {
    announced_width(header as int % 4)
}

/// The width of the length behind the header byte of a first block.
pub open spec fn length_width(header: u8) -> int {
    announced_width(header as int / 4 % 4)
}

/// What a client's message says stands in its bytes: the command in the upper half of the first
/// byte, and the fields behind it, each in its width and at its place, the data to the end.
pub proof fn parsed_message_stands_in_the_bytes(s: Seq<u8>, m: ClientModel)
    requires
        pdu::parse_client_pdu(s) == Ok::<ClientModel, DecodeError>(m),
    ensures
        s.len() > 0,
        ({
            let cmd = s[0] as int / 16;
            let w = id_width(s[0]);
            let v = length_width(s[0]);
            match m {
                ClientModel::Capabilities { version } => {
                    &&& cmd == 5
                    &&& s.len() >= 4
                    &&& number_at(s, 2, 2) == match version {
                        CapsVersion::V1 => 1int,
                        CapsVersion::V2 => 2,
                        CapsVersion::V3 => 3,
                    }
                },
                ClientModel::Create { channel_id, status } => {
                    &&& cmd == 1
                    &&& w > 0
                    &&& s.len() >= 1 + w + 4
                    &&& channel_id == number_at(s, 1, w)
                    &&& status == number_at(s, 1 + w, 4)
                },
                ClientModel::Close { channel_id } => {
                    &&& cmd == 4
                    &&& w > 0
                    &&& s.len() >= 1 + w
                    &&& channel_id == number_at(s, 1, w)
                },
                ClientModel::Data(DataModel::First { channel_id, length, data }) => {
                    &&& cmd == 2
                    &&& w > 0
                    &&& v > 0
                    &&& s.len() >= 1 + w + v
                    &&& channel_id == number_at(s, 1, w)
                    &&& length == number_at(s, 1 + w, v)
                    &&& data == s.subrange(1 + w + v, s.len() as int)
                },
                ClientModel::Data(DataModel::Block { channel_id, data }) => {
                    &&& cmd == 3
                    &&& w > 0
                    &&& s.len() >= 1 + w
                    &&& channel_id == number_at(s, 1, w)
                    &&& data == s.subrange(1 + w, s.len() as int)
                },
            }
        }),
{
    reveal_with_fuel(number_at, 5);
}

/// Every message is read that has a command which clients send, fields of a width that there is,
/// and all the bytes of its fields. Nothing else is read.
pub proof fn message_is_read_where_its_fields_are_there(s: Seq<u8>)
    ensures
        pdu::parse_client_pdu(s) is Ok <==> s.len() > 0 && {
            let cmd = s[0] as int / 16;
            let w = id_width(s[0]);
            let v = length_width(s[0]);
            ||| cmd == 1 && w > 0 && s.len() >= 5 + w
            ||| cmd == 2 && w > 0 && v > 0 && s.len() >= 1 + w + v
            ||| cmd == 3 && w > 0 && s.len() >= 1 + w
            ||| cmd == 4 && w > 0 && s.len() >= 1 + w
            ||| cmd == 5 && s.len() >= 4 && 1 <= number_at(s, 2, 2) <= 3
        },
{
    reveal_with_fuel(number_at, 3);
}

/// Why bytes are no message. An unknown command comes before all else, then bytes that are missing,
/// then a width that does not exist.
pub proof fn unreadable_bytes_are_told_apart(s: Seq<u8>, e: DecodeError)
    requires
        s.len() <= usize::MAX,
        pdu::parse_client_pdu(s) == Err::<ClientModel, DecodeError>(e),
    ensures
        s.len() == 0 ==> e == (DecodeError::NotEnoughBytes { received: 0, expected: 1 }),
        s.len() > 0 ==> {
            let cmd = s[0] as int / 16;
            let w = id_width(s[0]);
            let v = length_width(s[0]);
            let fixed = if cmd == 1 {
                w + 4
            } else if cmd == 2 {
                w + v
            } else if cmd == 5 {
                3
            } else {
                w
            };
            if cmd == 0 || cmd > 9 {
                e == DecodeError::InvalidCmd
            } else if cmd > 5 {
                e == (DecodeError::UnsupportedCmd { cmd: cmd as u8 })
            } else if s.len() < 1 + fixed {
                e == (DecodeError::NotEnoughBytes {
                    received: (s.len() - 1) as usize,
                    expected: fixed as usize,
                })
            } else if cmd == 5 {
                e == DecodeError::InvalidVersion
            } else {
                e == DecodeError::InvalidFieldType
            }
        },
{
}

/// The channel identifier of a server's message stands behind the first byte, in the least width,
/// and the first byte announces that width beside the command.
pub open spec fn starts_with_id(b: Seq<u8>, cmd: int, length_code: int, channel_id: u32) -> bool {
    let w = least_width(channel_id);
    &&& b.len() >= 1 + w
    &&& b[0] as int / 16 == cmd
    &&& b[0] as int / 4 % 4 == length_code
    &&& id_width(b[0]) == w
    &&& number_at(b, 1, w) == channel_id
}

/// The first bytes of a message to a channel.
proof fn lemma_prefix(cmd: u8, sp: FieldType, channel_id: u32, rest: Seq<u8>)
    requires
        cmd <= 9,
    ensures
        starts_with_id(
            pdu::channel_prefix(cmd, sp, channel_id) + rest,
            cmd as int,
            sp.code() as int,
            channel_id,
        ),
        pdu::channel_prefix(cmd, sp, channel_id).len() == 1 + least_width(channel_id),
{
    reveal_with_fuel(number_at, 5);
    let cb_id = FieldType::narrowest(channel_id);
    let header = seq![pdu::header_byte(cmd, sp, cb_id)];
    let b = pdu::channel_prefix(cmd, sp, channel_id) + rest;
    wire::lemma_narrow_round_trip(channel_id, header, rest);
    assert(b =~= header + wire::narrow_bytes(channel_id) + rest);
    assert(b[0] == header[0]);
}

/// A create request holds the identifier of the channel, then all the bytes of its name, then a
/// zero, and nothing else.
pub proof fn create_request_holds_the_whole_name(channel_id: u32, name: Seq<char>)
    ensures
        ({
            let b = pdu::server_bytes(ServerMessageModel::Create { channel_id, name });
            let w = least_width(channel_id);
            let text = vstd::utf8::encode_utf8(name);
            &&& starts_with_id(b, 1, 0, channel_id)
            &&& b.len() == 1 + w + text.len() + 1
            &&& b.subrange(1 + w, 1 + w + text.len()) == text
            &&& b.last() == 0
        }),
{
    let text = vstd::utf8::encode_utf8(name);
    let b = pdu::server_bytes(ServerMessageModel::Create { channel_id, name });
    let w = least_width(channel_id);
    lemma_prefix(pdu::CMD_CREATE, FieldType::U8, channel_id, text + seq![0u8]);
    assert(b =~= pdu::channel_prefix(pdu::CMD_CREATE, FieldType::U8, channel_id) + (text + seq![
        0u8,
    ]));
    assert(b.subrange(1 + w, 1 + w + text.len()) =~= text);
}

/// Create requests that agree ask for one channel, by one name.
pub proof fn create_requests_tell_channels_apart(
    a: u32,
    name_a: Seq<char>,
    b: u32,
    name_b: Seq<char>,
)
    requires
        pdu::server_bytes(ServerMessageModel::Create { channel_id: a, name: name_a })
            == pdu::server_bytes(ServerMessageModel::Create { channel_id: b, name: name_b }),
    ensures
        a == b,
        name_a == name_b,
{
    create_request_holds_the_whole_name(a, name_a);
    create_request_holds_the_whole_name(b, name_b);
    vstd::utf8::encode_utf8_decode_utf8(name_a);
    vstd::utf8::encode_utf8_decode_utf8(name_b);
}

/// A closing notice holds the identifier of the channel, and nothing else.
pub proof fn closing_notice_holds_the_channel(channel_id: u32)
    ensures
        ({
            let b = pdu::server_bytes(ServerMessageModel::Close { channel_id });
            &&& starts_with_id(b, 4, 0, channel_id)
            &&& b.len() == 1 + least_width(channel_id)
        }),
{
    let b = pdu::server_bytes(ServerMessageModel::Close { channel_id });
    lemma_prefix(pdu::CMD_CLOSE, FieldType::U8, channel_id, seq![]);
    assert(b =~= pdu::channel_prefix(pdu::CMD_CLOSE, FieldType::U8, channel_id) + seq![]);
}

/// A block holds the identifier of the channel, then its data to the last byte. A first block holds
/// the length of the message between the two, in the least width.
pub proof fn block_holds_its_data(block: DataModel)
    ensures
        ({
            let b = pdu::server_bytes(ServerMessageModel::Data(block));
            match block {
                DataModel::First { channel_id, length, data } => {
                    let w = least_width(channel_id);
                    let v = least_width(length);
                    &&& starts_with_id(
                        b,
                        2,
                        if v == 4 {
                            2
                        } else {
                            v - 1
                        },
                        channel_id,
                    )
                    &&& b.len() == 1 + w + v + data.len()
                    &&& number_at(b, 1 + w, v) == length
                    &&& b.subrange(1 + w + v, b.len() as int) == data
                },
                DataModel::Block { channel_id, data } => {
                    let w = least_width(channel_id);
                    &&& starts_with_id(b, 3, 0, channel_id)
                    &&& b.len() == 1 + w + data.len()
                    &&& b.subrange(1 + w, b.len() as int) == data
                },
            }
        }),
{
    reveal_with_fuel(number_at, 5);
    let b = pdu::server_bytes(ServerMessageModel::Data(block));
    match block {
        DataModel::First { channel_id, length, data } => {
            let w = least_width(channel_id);
            let v = least_width(length);
            let sp = FieldType::narrowest(length);
            let prefix = pdu::channel_prefix(pdu::CMD_DATA_FIRST, sp, channel_id);
            lemma_prefix(
                pdu::CMD_DATA_FIRST,
                sp,
                channel_id,
                wire::narrow_bytes(length) + data,
            );
            wire::lemma_narrow_round_trip(length, prefix, data);
            assert(b =~= prefix + (wire::narrow_bytes(length) + data));
            assert(b =~= prefix + wire::narrow_bytes(length) + data);
            assert(b.subrange(1 + w + v, b.len() as int) =~= data);
        },
        DataModel::Block { channel_id, data } => {
            let w = least_width(channel_id);
            lemma_prefix(pdu::CMD_DATA, FieldType::U8, channel_id, data);
            assert(b.subrange(1 + w, b.len() as int) =~= data);
        },
    }
}

/// A capability request holds its version, and from version 2 on the four charges behind it.
pub proof fn capability_request_holds_its_version(version: CapsVersion, charges: Seq<u16>)
    requires
        charges.len() == 4,
    ensures
        ({
            let b = pdu::server_bytes(ServerMessageModel::Capabilities { version, charges });
            &&& b[0] == 0x50
            &&& b[1] == 0
            &&& number_at(b, 2, 2) == match version {
                CapsVersion::V1 => 1int,
                CapsVersion::V2 => 2,
                CapsVersion::V3 => 3,
            }
            &&& b.len() == if version is V1 {
                4int
            } else {
                12
            }
            &&& !(version is V1) ==> forall|i: int|
                0 <= i < 4 ==> number_at(b, 4 + 2 * i, 2) == #[trigger] charges[i]
        }),
{
    reveal_with_fuel(number_at, 3);
    reveal_with_fuel(pdu::u16s_bytes, 5);
    let b = pdu::server_bytes(ServerMessageModel::Capabilities { version, charges });
    let head = seq![pdu::header_byte(pdu::CMD_CAPABILITY, FieldType::U8, FieldType::U8), 0u8]
        + wire::u16_bytes(version.number());
    if !(version is V1) {
        let c3 = charges.drop_last();
        let c2 = c3.drop_last();
        let c1 = c2.drop_last();
        assert(c1.drop_last() =~= seq![]);
        assert(pdu::u16s_bytes(charges) =~= wire::u16_bytes(charges[0]) + wire::u16_bytes(
            charges[1],
        ) + wire::u16_bytes(charges[2]) + wire::u16_bytes(charges[3]));
        assert forall|i: int| 0 <= i < 4 implies number_at(b, 4 + 2 * i, 2)
            == #[trigger] charges[i] by {
            assert(b[4 + 2 * i] == wire::u16_bytes(charges[i])[0]);
            assert(b[5 + 2 * i] == wire::u16_bytes(charges[i])[1]);
        }
    }
}

/// The data of a block.
pub open spec fn data_of(block: DataModel) -> Seq<u8> {
    match block {
        DataModel::First { data, .. } => data,
        DataModel::Block { data, .. } => data,
    }
}

/// Several pieces, one behind the other.
pub open spec fn joined(pieces: Seq<Seq<u8>>) -> Seq<u8>
    decreases pieces.len(),
{
    if pieces.len() == 0 {
        seq![]
    } else {
        joined(pieces.drop_last()) + pieces.last()
    }
}

/// The data of several blocks.
pub open spec fn pieces_of(blocks: Seq<DataModel>) -> Seq<Seq<u8>> {
    Seq::new(blocks.len(), |i: int| data_of(blocks[i]))
}

/// Whether every block is one that a channel may carry: it is for that channel, and holds at least
/// one byte and no more than 1590.
pub open spec fn fit_the_channel(blocks: Seq<DataModel>, channel_id: u32) -> bool {
    forall|i: int|
        0 <= i < blocks.len() ==> (#[trigger] blocks[i]).channel() == channel_id && 1 <= data_of(
            blocks[i],
        ).len() <= 1590
}

/// The first `k` blocks of a message hold its first bytes.
proof fn lemma_joined_fragments(channel_id: u32, message: Seq<u8>, k: int)
    requires
        0 <= k <= svc::fragments(channel_id, message).len(),
    ensures
        joined(pieces_of(svc::fragments(channel_id, message)).take(k)) == message.take(
            if k * 1590 <= message.len() {
                k * 1590
            } else {
                message.len() as int
            },
        ),
    decreases k,
{
    let pieces = pieces_of(svc::fragments(channel_id, message));
    if k == 0 {
        assert(pieces.take(0) =~= seq![]);
        assert(message.take(0) =~= seq![]);
    } else {
        lemma_joined_fragments(channel_id, message, k - 1);
        assert(pieces.take(k).drop_last() =~= pieces.take(k - 1));
        assert(pieces.take(k).last() == svc::block_bytes(message, k - 1));
        let end = if k * 1590 <= message.len() {
            k * 1590
        } else {
            message.len() as int
        };
        assert(message.take((k - 1) * 1590) + svc::block_bytes(message, k - 1) =~= message.take(
            end,
        ));
    }
}

/// A message is cut into blocks that hold it, one behind the other, to the last byte. Each holds at
/// least one byte and at most 1590, and all but the last hold 1590. The first one announces the
/// length of the message where that is 1590 or more, and no other does.
pub proof fn message_is_cut_into_blocks(channel_id: u32, message: Seq<u8>)
    ensures
        ({
            let blocks = svc::fragments(channel_id, message);
            &&& fit_the_channel(blocks, channel_id)
            &&& joined(pieces_of(blocks)) == message
            &&& forall|i: int|
                0 <= i < blocks.len() - 1 ==> data_of(#[trigger] blocks[i]).len() == 1590
            &&& forall|i: int|
                0 <= i < blocks.len() ==> (#[trigger] blocks[i] is First <==> i == 0
                    && message.len() >= 1590)
            &&& forall|i: int|
                0 <= i < blocks.len() && message.len() <= u32::MAX ==> (
                #[trigger] blocks[i] matches DataModel::First { length, .. } ==> length
                    == message.len())
        }),
{
    let blocks = svc::fragments(channel_id, message);
    let n = blocks.len() as int;
    lemma_joined_fragments(channel_id, message, n);
    assert(pieces_of(blocks).take(n) =~= pieces_of(blocks));
    assert(message.take(message.len() as int) =~= message);
}

/// The results of taking blocks one after the other.
pub open spec fn results(before: PartialMessage, blocks: Seq<DataModel>) -> Seq<
    Result<Option<Seq<u8>>, DecodeError>,
>
    decreases blocks.len(),
{
    if blocks.len() == 0 {
        seq![]
    } else {
        results(before, blocks.drop_last()).push(
            laws::delivered(before, blocks.drop_last()).0.after(blocks.last()).1,
        )
    }
}

/// The blocks of a message that is cut into the given pieces, the first of which announces the
/// length.
pub open spec fn blocks_of(channel_id: u32, pieces: Seq<Seq<u8>>) -> Seq<DataModel> {
    Seq::new(
        pieces.len(),
        |i: int|
            if i == 0 {
                DataModel::First {
                    channel_id,
                    length: joined(pieces).len() as u32,
                    data: pieces[0],
                }
            } else {
                DataModel::Block { channel_id, data: pieces[i] }
            },
    )
}

/// The pieces of a message are no longer than it.
proof fn lemma_joined_take(pieces: Seq<Seq<u8>>, k: int)
    requires
        0 <= k <= pieces.len(),
    ensures
        joined(pieces.take(k)).len() <= joined(pieces).len(),
        k < pieces.len() && (forall|i: int| 0 <= i < pieces.len() ==> (#[trigger] pieces[i]).len()
            > 0) ==> joined(pieces.take(k)).len() < joined(pieces).len(),
        k < pieces.len() ==> joined(pieces.take(k + 1)) == joined(pieces.take(k)) + pieces[k],
    decreases pieces.len() - k,
{
    if k == pieces.len() {
        assert(pieces.take(k) =~= pieces);
    } else {
        lemma_joined_take(pieces, k + 1);
        assert(pieces.take(k + 1).drop_last() =~= pieces.take(k));
        assert(pieces.take(k + 1).last() == pieces[k]);
    }
}

/// What is left after the first `k` pieces.
proof fn lemma_pieces(before: PartialMessage, channel_id: u32, pieces: Seq<Seq<u8>>, k: int)
    requires
        1 <= k < pieces.len(),
        joined(pieces).len() <= u32::MAX,
        forall|i: int| 0 <= i < pieces.len() ==> (#[trigger] pieces[i]).len() > 0,
    ensures
        laws::delivered(before, blocks_of(channel_id, pieces).take(k)) == (
            PartialMessage {
                total_size: joined(pieces).len(),
                data: joined(pieces.take(k)),
            },
            Seq::<Seq<u8>>::empty(),
        ),
        results(before, blocks_of(channel_id, pieces).take(k)) == Seq::new(
            k as nat,
            |i: int| Ok::<Option<Seq<u8>>, DecodeError>(None),
        ),
    decreases k,
{
    let blocks = blocks_of(channel_id, pieces);
    let taken = blocks.take(k);
    let none = Ok::<Option<Seq<u8>>, DecodeError>(None);
    assert(taken.drop_last() =~= blocks.take(k - 1));
    assert(taken.last() == blocks[k - 1]);
    lemma_joined_take(pieces, k - 1);
    lemma_joined_take(pieces, k);
    if k == 1 {
        assert(blocks.take(0) =~= seq![]);
        assert(pieces.take(0) =~= seq![]);
        assert(joined(pieces.take(1)) =~= pieces[0]);
        assert(laws::delivered(before, taken.drop_last()) == (before, Seq::<Seq<u8>>::empty()));
        assert(results(before, taken.drop_last()) =~= seq![]);
    } else {
        lemma_pieces(before, channel_id, pieces, k - 1);
        let p = PartialMessage {
            total_size: joined(pieces).len(),
            data: joined(pieces.take(k - 1)),
        };
        assert(p.after(taken.last()).1 == none);
    }
    assert(results(before, taken) =~= Seq::new(k as nat, |i: int| none));
}

/// A message is put together however it is cut into pieces, and whatever came before it: each block
/// but the last gives nothing, the last gives the message, and nothing is left over.
pub proof fn message_in_pieces_is_put_together(
    before: PartialMessage,
    channel_id: u32,
    pieces: Seq<Seq<u8>>,
)
    requires
        pieces.len() >= 2,
        joined(pieces).len() <= u32::MAX,
        forall|i: int| 0 <= i < pieces.len() ==> (#[trigger] pieces[i]).len() > 0,
    ensures
        laws::delivered(before, blocks_of(channel_id, pieces)) == (
            PartialMessage { total_size: 0, data: seq![] },
            seq![joined(pieces)],
        ),
        results(before, blocks_of(channel_id, pieces)) == Seq::new(
            (pieces.len() - 1) as nat,
            |i: int| Ok::<Option<Seq<u8>>, DecodeError>(None),
        ).push(Ok::<Option<Seq<u8>>, DecodeError>(Some(joined(pieces)))),
{
    let blocks = blocks_of(channel_id, pieces);
    let n = pieces.len() as int;
    lemma_pieces(before, channel_id, pieces, n - 1);
    lemma_joined_take(pieces, n - 1);
    assert(pieces.take(n) =~= pieces);
    assert(blocks.drop_last() =~= blocks.take(n - 1));
    let p = PartialMessage {
        total_size: joined(pieces).len(),
        data: joined(pieces.take(n - 1)),
    };
    assert(p.after(blocks.last()) == (
        PartialMessage::idle(),
        Ok::<Option<Seq<u8>>, DecodeError>(Some(joined(pieces))),
    ));
    assert(laws::delivered(before, blocks).1 =~= seq![joined(pieces)]);
}

/// Where nothing was begun, a block that announces no length is a message, and one that announces
/// the length of its own data is one too.
pub proof fn whole_message_needs_no_other_block(channel_id: u32, data: Seq<u8>)
    ensures
        ({
            let idle = PartialMessage { total_size: 0, data: seq![] };
            &&& idle.after(DataModel::Block { channel_id, data }) == (
                idle,
                Ok::<Option<Seq<u8>>, DecodeError>(Some(data)),
            )
            &&& data.len() <= u32::MAX ==> idle.after(
                DataModel::First { channel_id, length: data.len() as u32, data },
            ) == (idle, Ok::<Option<Seq<u8>>, DecodeError>(Some(data)))
        }),
{
    let idle = PartialMessage { total_size: 0, data: seq![] };
    assert(idle == PartialMessage::idle());
}

/// A first block that is a whole message is given on, whatever was begun before it. What had come
/// of that is dropped.
pub proof fn whole_first_block_is_given_on(
    before: PartialMessage,
    channel_id: u32,
    data: Seq<u8>,
)
    requires
        data.len() <= u32::MAX,
    ensures
        before.after(DataModel::First { channel_id, length: data.len() as u32, data }) == (
            PartialMessage { total_size: before.total_size, data: seq![] },
            Ok::<Option<Seq<u8>>, DecodeError>(Some(data)),
        ),
{
}

/// A first block that is not a whole message begins one, whatever was begun before it.
pub proof fn first_block_begins_a_message(
    before: PartialMessage,
    channel_id: u32,
    length: u32,
    data: Seq<u8>,
)
    requires
        data.len() != length,
    ensures
        before.after(DataModel::First { channel_id, length, data }) == (
            PartialMessage { total_size: length as nat, data },
            Ok::<Option<Seq<u8>>, DecodeError>(None),
        ),
{
}

/// A later block goes behind what has come of a message, which is given on when it is complete.
pub proof fn later_block_goes_behind(
    total_size: nat,
    begun: Seq<u8>,
    channel_id: u32,
    data: Seq<u8>,
)
    requires
        total_size != 0,
        begun.len() + data.len() <= total_size <= usize::MAX,
    ensures
        (PartialMessage { total_size, data: begun }).after(DataModel::Block { channel_id, data })
            == if begun.len() + data.len() < total_size {
            (
                PartialMessage { total_size, data: begun + data },
                Ok::<Option<Seq<u8>>, DecodeError>(None),
            )
        } else {
            (
                PartialMessage { total_size: 0, data: seq![] },
                Ok::<Option<Seq<u8>>, DecodeError>(Some(begun + data)),
            )
        },
{
}

/// A message that gets longer than announced is dropped whole, and no part of it is given on.
pub proof fn exceeding_message_is_dropped(
    total_size: nat,
    begun: Seq<u8>,
    channel_id: u32,
    data: Seq<u8>,
)
    requires
        total_size != 0 || begun.len() != 0,
        total_size < begun.len() + data.len() <= usize::MAX,
    ensures
        (PartialMessage { total_size, data: begun }).after(DataModel::Block { channel_id, data }) == (
            PartialMessage { total_size: 0, data: seq![] },
            Ok::<Option<Seq<u8>>, DecodeError>(None),
        ),
{
}

/// Blocks that do not fit in memory together are refused, and nothing changes.
pub proof fn overlong_message_is_refused(
    total_size: nat,
    begun: Seq<u8>,
    channel_id: u32,
    data: Seq<u8>,
)
    requires
        total_size != 0 || begun.len() != 0,
        begun.len() + data.len() > usize::MAX,
    ensures
        (PartialMessage { total_size, data: begun }).after(DataModel::Block { channel_id, data }) == (
            PartialMessage { total_size, data: begun },
            Err::<Option<Seq<u8>>, DecodeError>(DecodeError::MessageOverflow),
        ),
{
}

/// The messages that are not empty.
pub open spec fn nonempty(messages: Seq<Seq<u8>>) -> Seq<Seq<u8>>
    decreases messages.len(),
{
    if messages.len() == 0 {
        seq![]
    } else if messages.last().len() == 0 {
        nonempty(messages.drop_last())
    } else {
        nonempty(messages.drop_last()).push(messages.last())
    }
}

/// Whether four bytes can count the bytes of every message.
pub open spec fn short_enough(messages: Seq<Seq<u8>>) -> bool {
    forall|i: int| 0 <= i < messages.len() ==> (#[trigger] messages[i]).len() <= 0xffff_ffff
}

/// Whether `sent` carries `blocks`: one message of the static channel for each, in order, with its
/// name, its bytes and the flags.
pub open spec fn carries_blocks(
    sent: Seq<SvcMessage>,
    blocks: Seq<DataModel>,
    flags: u32,
) -> bool {
    &&& sent.len() == blocks.len()
    &&& forall|i: int|
        0 <= i < blocks.len() ==> #[trigger] sent[i] == svc::svc_message(
            if blocks[i] is First {
                "DYNVC_DATA_FIRST"@
            } else {
                "DYNVC_DATA"@
            },
            pdu::server_bytes(ServerMessageModel::Data(blocks[i])),
            flags,
        )
}

/// Whether `sent` brings `messages` to the other end of a channel: it carries blocks that fit the
/// channel, of which whoever receives them puts together these messages, in order, but for the
/// empty ones, and is left with nothing.
pub open spec fn brings(
    sent: Seq<SvcMessage>,
    channel_id: u32,
    messages: Seq<Seq<u8>>,
    flags: u32,
) -> bool {
    exists|blocks: Seq<DataModel>|
        {
            &&& #[trigger] carries_blocks(sent, blocks, flags)
            &&& fit_the_channel(blocks, channel_id)
            &&& laws::delivered(PartialMessage { total_size: 0, data: seq![] }, blocks) == (
                PartialMessage { total_size: 0, data: seq![] },
                nonempty(messages),
            )
        }
}

/// The blocks of several messages fit the channel.
proof fn lemma_all_fit(channel_id: u32, messages: Seq<Seq<u8>>)
    ensures
        fit_the_channel(svc::all_fragments(channel_id, messages), channel_id),
    decreases messages.len(),
{
    if messages.len() > 0 {
        lemma_all_fit(channel_id, messages.drop_last());
        message_is_cut_into_blocks(channel_id, messages.last());
        let a = svc::all_fragments(channel_id, messages.drop_last());
        let b = svc::fragments(channel_id, messages.last());
        assert forall|i: int| 0 <= i < (a + b).len() implies (#[trigger] (a + b)[i]).channel()
            == channel_id && 1 <= data_of((a + b)[i]).len() <= 1590 by {
            if i < a.len() {
                assert((a + b)[i] == a[i]);
            } else {
                assert((a + b)[i] == b[i - a.len()]);
            }
        }
    }
}

/// What is delivered of several messages is those that are not empty.
proof fn lemma_nonempty(messages: Seq<Seq<u8>>)
    ensures
        nonempty(messages) == messages.filter(|m: Seq<u8>| m.len() > 0),
    decreases messages.len(),
{
    reveal(Seq::filter);
    if messages.len() > 0 {
        lemma_nonempty(messages.drop_last());
    }
}

/// Messages whose lengths fit in their field are all sent and arrive. Where the length of one does
/// not fit, none is sent.
pub proof fn messages_are_brought_to_the_other_end(
    channel_id: u32,
    messages: Seq<Seq<u8>>,
    flags: u32,
)
    ensures
        short_enough(messages) ==> svc::encoded(channel_id, messages, flags) is Ok && brings(
            svc::encoded(channel_id, messages, flags)->Ok_0,
            channel_id,
            messages,
            flags,
        ),
        !short_enough(messages) ==> svc::encoded(channel_id, messages, flags) == Err::<
            Seq<SvcMessage>,
            EncodeError,
        >(EncodeError::MessageTooLong),
{
    if short_enough(messages) {
        let blocks = svc::all_fragments(channel_id, messages);
        let sent = svc::encoded(channel_id, messages, flags)->Ok_0;
        laws::messages_are_received_in_order(channel_id, messages);
        lemma_all_fit(channel_id, messages);
        lemma_nonempty(messages);
        assert(carries_blocks(sent, blocks, flags));
    }
}

/// An integer is the number that its bytes stand for, least significant first, and the codes of the
/// widths are the same both ways.
pub proof fn integers_are_little_endian(s: Seq<u8>, at: int, a: u16, b: u32, code: u8)
    ensures
        wire::u16_at(s, at) == number_at(s, at, 2),
        wire::u32_at(s, at) == number_at(s, at, 4),
        wire::u16_bytes(a).len() == 2,
        number_at(wire::u16_bytes(a), 0, 2) == a,
        wire::u32_bytes(b).len() == 4,
        number_at(wire::u32_bytes(b), 0, 4) == b,
        wire::narrow_bytes(b).len() == least_width(b),
        number_at(wire::narrow_bytes(b), 0, least_width(b)) == b,
        FieldType::narrowest(b).width() == least_width(b),
        FieldType::of_code(code).width() == announced_width(code as int),
        code < 4 ==> FieldType::of_code(code).code() == code,
        !(FieldType::of_code(code) is Invalid) ==> FieldType::of_code(code).value_at(s, at)
            == number_at(s, at, announced_width(code as int)),
{
    reveal_with_fuel(number_at, 5);
}

/// A version is known by its number.
pub proof fn versions_are_numbered(n: u16, version: CapsVersion)
    ensures
        CapsVersion::of_number(n) == Some(version) <==> n == version.number(),
        CapsVersion::of_number(n) is Some <==> 1 <= n <= 3,
        version == CapsVersion::V1 <==> version.number() == 1,
        version == CapsVersion::V2 <==> version.number() == 2,
        version == CapsVersion::V3 <==> version.number() == 3,
{
}

/// What the server sends on its own account goes under the name of its kind, with all its bytes,
/// and shows the protocol.
pub proof fn server_message_is_sent_whole(m: ServerMessageModel)
    ensures
        svc::svc_message_of(m) == svc::svc_message(
            match m {
                ServerMessageModel::Capabilities { version: CapsVersion::V1, .. } =>
                    "DYNVC_CAPS_VERSION1"@,
                ServerMessageModel::Capabilities { version: CapsVersion::V2, .. } =>
                    "DYNVC_CAPS_VERSION2"@,
                ServerMessageModel::Capabilities { version: CapsVersion::V3, .. } =>
                    "DYNVC_CAPS_VERSION3"@,
                ServerMessageModel::Create { .. } => "DYNVC_CREATE_REQ"@,
                ServerMessageModel::Close { .. } => "DYNVC_CLOSE"@,
                ServerMessageModel::Data(DataModel::First { .. }) => "DYNVC_DATA_FIRST"@,
                ServerMessageModel::Data(DataModel::Block { .. }) => "DYNVC_DATA"@,
            },
            pdu::server_bytes(m),
            0x10,
        ),
        m matches ServerMessageModel::Data(d) ==> pdu::server_bytes(m) == pdu::data_bytes(d),
        m matches ServerMessageModel::Close { channel_id } ==> pdu::server_bytes(m)
            == pdu::close_bytes(channel_id),
{
}

} // verus!
