//! What holds of the channel manager as a whole.
//!
//! Each proof function states one property, over the transitions and the formats that the
//! contracts of the executable functions speak of.
use vstd::prelude::*;
use core::any::TypeId;
use ironrdp_svc::SvcMessage;

use crate::complete_data;
use crate::complete_data::PartialMessage;
use crate::error;
use crate::error::{DecodeError, EncodeError, PduError};
use crate::format_laws;
use crate::gfx::{EgfxServerMessage, GfxDvcBridge, GfxServer};
use crate::model;
use crate::model::{ChannelModel, ChannelState, DrdynvcState, Outcome, ServerModel};
use crate::pdu;
use crate::pdu::{
    CapabilitiesRequestPdu,
    CapabilitiesResponsePdu,
    CapsVersion,
    ClientModel,
    ClosePdu,
    CreateRequestPdu,
    CreateResponsePdu,
    DataFirstPdu,
    DataModel,
    DataPdu,
    DrdynvcClientPdu,
    DrdynvcDataPdu,
    DrdynvcServerPdu,
    ServerMessageModel,
    CREATION_STATUS_OK,
    MAX_DATA_SIZE,
};
use crate::processor;
use crate::processor::{Answer, DvcMessage, DvcProcessor, DvcServerProcessor, ProcessorModel};
use crate::server;
use crate::svc;
use crate::text;
use crate::wire;
use crate::wire::FieldType;

verus! {

/// A nonempty set of identifiers has a least element.
proof fn lemma_least_exists(s: Set<u32>, bound: u32)
    requires
        s.contains(bound),
    ensures
        model::is_least(s, model::least(s)),
    decreases bound,
{
    if exists|j: u32| #[trigger] s.contains(j) && j < bound {
        let j = choose|j: u32| #[trigger] s.contains(j) && j < bound;
        lemma_least_exists(s, j);
    } else {
        assert(model::is_least(s, bound));
    }
}

/// Creation goes on with a waiting channel as long as there is one. A graphics channel comes
/// before any other, and among equals the lowest identifier comes first.
pub proof fn graphics_channel_is_created_first(s: ServerModel)
    ensures
        s.next_pending() is None <==> forall|id: u32| !s.is_pending(id),
        s.next_pending() matches Some(id) ==> {
            &&& s.is_pending(id)
            &&& s.channels[id].processor.name() == model::graphics_name() ==> forall|j: u32|
                #[trigger] s.is_pending(j) && s.channels[j].processor.name()
                    == model::graphics_name() ==> id <= j
            &&& s.channels[id].processor.name() != model::graphics_name() ==> forall|j: u32|
                #[trigger] s.is_pending(j) ==> s.channels[j].processor.name()
                    != model::graphics_name() && id <= j
        },
{
    if exists|id: u32| s.waiting(true).contains(id) {
        let id = choose|id: u32| s.waiting(true).contains(id);
        lemma_least_exists(s.waiting(true), id);
        let k = model::least(s.waiting(true));
        assert(s.waiting(true).contains(k));
        assert forall|j: u32| #[trigger]
            s.is_pending(j) && s.channels[j].processor.name()
                == model::graphics_name() implies k <= j by {
            assert(s.waiting(true).contains(j));
        }
    } else if exists|id: u32| s.waiting(false).contains(id) {
        let id = choose|id: u32| s.waiting(false).contains(id);
        lemma_least_exists(s.waiting(false), id);
        let k = model::least(s.waiting(false));
        assert(s.waiting(false).contains(k));
        assert(!s.waiting(true).contains(k));
        assert forall|j: u32| #[trigger] s.is_pending(j) implies s.channels[j].processor.name()
            != model::graphics_name() && k <= j by {
            assert(s.waiting(false).contains(j));
            assert(!s.waiting(true).contains(j));
        }
    } else {
        assert forall|j: u32| !s.is_pending(j) by {
            assert(!s.waiting(false).contains(j));
        }
    }
}

/// Asking for the next channel takes one waiting channel to its creation and touches nothing else.
proof fn lemma_create_next(s: ServerModel)
    ensures
        s.create_next().0.state == s.state,
        s.create_next().0.next_id == s.next_id,
        s.create_next().0.types == s.types,
        s.create_next().0.channels.dom() == s.channels.dom(),
        s.create_next().1.len() <= 1,
        forall|id: u32| #[trigger]
            s.create_next().0.channels.contains_key(id) ==> {
                let before = s.channels[id];
                let after = s.create_next().0.channels[id];
                after == before || s.next_pending() == Some(id) && before.state
                    == ChannelState::Pending && after == (ChannelModel {
                    state: ChannelState::Creation,
                    ..before
                })
            },
{
    graphics_channel_is_created_first(s);
    if let Some(id) = s.next_pending() {
        assert(s.channels.insert(
            id,
            ChannelModel { state: ChannelState::Creation, ..s.channels[id] },
        ).dom() =~= s.channels.dom());
    }
}

/// The manager after `k` waiting channels were asked for, one after the other.
pub open spec fn after_requests(s: ServerModel, k: nat) -> ServerModel
    decreases k,
{
    if k == 0 {
        s
    } else {
        after_requests(s, (k - 1) as nat).create_next().0
    }
}

/// The messages of the first `k` requests.
pub open spec fn requests(s: ServerModel, k: nat) -> Seq<SvcMessage>
    decreases k,
{
    if k == 0 {
        seq![]
    } else {
        requests(s, (k - 1) as nat) + after_requests(s, (k - 1) as nat).create_next().1
    }
}

/// Whether a channel has the name of the graphics channel.
pub open spec fn is_graphics(s: ServerModel, id: u32) -> bool {
    s.channels[id].processor.name() == model::graphics_name()
}

/// The order of creation: graphics channels before the others, and each group in ascending order.
pub open spec fn comes_before(s: ServerModel, a: u32, b: u32) -> bool {
    if is_graphics(s, a) == is_graphics(s, b) {
        a < b
    } else {
        is_graphics(s, a)
    }
}

/// Whether `ids` are the channels that wait, each of them once, in the order of creation.
pub open spec fn is_creation_order(s: ServerModel, ids: Seq<u32>) -> bool {
    &&& forall|i: int| 0 <= i < ids.len() ==> s.is_pending(#[trigger] ids[i])
    &&& forall|id: u32| #[trigger] s.is_pending(id) ==> ids.contains(id)
    &&& forall|i: int, j: int|
        0 <= i < j < ids.len() ==> comes_before(s, #[trigger] ids[i], #[trigger] ids[j])
}

/// A set of identifiers below a bound is finite.
proof fn lemma_bounded_finite(s: Set<u32>, bound: nat)
    requires
        bound <= u32::MAX + 1,
        forall|i: u32| #[trigger] s.contains(i) ==> i < bound,
    ensures
        s.finite(),
    decreases bound,
{
    if bound == 0 {
        assert(s =~= Set::<u32>::empty());
    } else {
        let last = (bound - 1) as u32;
        lemma_bounded_finite(s.remove(last), (bound - 1) as nat);
        if s.contains(last) {
            assert(s =~= s.remove(last).insert(last));
        } else {
            assert(s =~= s.remove(last));
        }
    }
}

/// Where the first `k` channels in the order of creation were asked for, the next in that order is
/// next.
proof fn lemma_requests(s: ServerModel, ids: Seq<u32>, k: nat)
    requires
        is_creation_order(s, ids),
        k <= ids.len(),
    ensures
        ({
            let t = after_requests(s, k);
            &&& t.channels.dom() == s.channels.dom()
            &&& forall|id: u32| #[trigger]
                t.channels.contains_key(id) ==> t.channels[id].processor == s.channels[id].processor
            &&& forall|id: u32| #[trigger]
                t.is_pending(id) <==> s.is_pending(id) && !ids.take(k as int).contains(id)
            &&& t.next_pending() == if k < ids.len() {
                Some(ids[k as int])
            } else {
                None
            }
            &&& requests(s, k) == Seq::new(
                k,
                |i: int| model::create_request(ids[i], s.channels[ids[i]].processor.name()),
            )
        }),
    decreases k,
{
    let t = after_requests(s, k);
    let sent = Seq::new(
        k,
        |i: int| model::create_request(ids[i], s.channels[ids[i]].processor.name()),
    );
    if k == 0 {
        assert(ids.take(0) =~= seq![]);
        assert(requests(s, k) =~= sent);
    } else {
        let before = after_requests(s, (k - 1) as nat);
        let id = ids[k - 1];
        lemma_requests(s, ids, (k - 1) as nat);
        lemma_create_next(before);
        assert(before.next_pending() == Some(id));
        assert(s.is_pending(id));
        assert(ids.take(k as int) =~= ids.take(k - 1).push(id));
        assert(t == before.with_channel_state(id, ChannelState::Creation));
        assert(before.channels.contains_key(id));
        assert(t.channels.dom() =~= s.channels.dom());
        assert forall|j: u32| #[trigger] t.channels.contains_key(j) implies t.channels[j].processor
            == s.channels[j].processor by {
            assert(before.channels.contains_key(j));
        }
        assert forall|j: u32| #[trigger]
            t.is_pending(j) <==> s.is_pending(j) && !ids.take(k as int).contains(j) by {
            assert(before.is_pending(j) <==> s.is_pending(j) && !ids.take(k - 1).contains(j));
            if j == id {
                assert(ids.take(k as int)[k - 1] == id);
            } else if ids.take(k as int).contains(j) {
                let i = choose|i: int| 0 <= i < k && ids.take(k as int)[i] == j;
                assert(ids.take(k - 1)[i] == j);
            } else if ids.take(k - 1).contains(j) {
                let earlier = ids.take(k - 1);
                let i = choose|i: int| 0 <= i < earlier.len() && earlier[i] == j;
                assert(ids.take(k as int)[i] == j);
            }
        }
        assert(requests(s, k) =~= sent);
    }
    lemma_next_in_order(s, t, ids, k);
}

/// The channel that comes first in the order of creation among those that still wait is next.
proof fn lemma_next_in_order(s: ServerModel, t: ServerModel, ids: Seq<u32>, k: nat)
    requires
        is_creation_order(s, ids),
        k <= ids.len(),
        t.channels.dom() == s.channels.dom(),
        forall|id: u32| #[trigger]
            t.channels.contains_key(id) ==> t.channels[id].processor == s.channels[id].processor,
        forall|id: u32| #[trigger]
            t.is_pending(id) <==> s.is_pending(id) && !ids.take(k as int).contains(id),
    ensures
        t.next_pending() == if k < ids.len() {
            Some(ids[k as int])
        } else {
            None
        },
{
    graphics_channel_is_created_first(t);
    if k < ids.len() {
        let first = ids[k as int];
        assert(!ids.take(k as int).contains(first)) by {
            if ids.take(k as int).contains(first) {
                let i = choose|i: int| 0 <= i < k && ids.take(k as int)[i] == first;
                assert(comes_before(s, ids[i], ids[k as int]));
            }
        }
        assert(s.is_pending(first));
        assert(t.is_pending(first));
        let next = t.next_pending()->0;
        assert(t.is_pending(next));
        let i = choose|i: int| 0 <= i < ids.len() && ids[i] == next;
        assert(s.is_pending(next));
        assert(ids.contains(next));
        assert(i >= k) by {
            if i < k {
                assert(ids.take(k as int)[i] == next);
            }
        }
        assert(t.channels.contains_key(first) && t.channels.contains_key(next));
        if i > k {
            assert(comes_before(s, ids[k as int], ids[i]));
        }
    } else {
        assert(ids.take(k as int) =~= ids);
        assert forall|id: u32| !t.is_pending(id) by {
            if s.is_pending(id) {
                assert(ids.contains(id));
            }
        }
    }
}

/// Asking for the next channel again and again asks for every waiting channel once, in the order of
/// creation: graphics channels first, each group in ascending order of identifiers. After as many
/// requests as channels waited, none waits, and no further request is sent.
pub proof fn every_waiting_channel_is_asked_for_once(s: ServerModel, ids: Seq<u32>)
    requires
        is_creation_order(s, ids),
    ensures
        forall|k: nat| #![trigger after_requests(s, k)]
            k < ids.len() ==> after_requests(s, k).create_next().1 == seq![
                model::create_request(
                    ids[k as int],
                    s.channels[ids[k as int]].processor.name(),
                ),
            ],
        requests(s, ids.len()) == Seq::new(
            ids.len(),
            |i: int| model::create_request(ids[i], s.channels[ids[i]].processor.name()),
        ),
        forall|id: u32| !after_requests(s, ids.len()).is_pending(id),
        after_requests(s, ids.len()).create_next() == (
            after_requests(s, ids.len()),
            Seq::<SvcMessage>::empty(),
        ),
        ids.no_duplicates(),
        ids.len() == s.waiting(false).len(),
{
    assert forall|k: nat| #![trigger after_requests(s, k)] k < ids.len() implies after_requests(
        s,
        k,
    ).create_next().1 == seq![
        model::create_request(ids[k as int], s.channels[ids[k as int]].processor.name()),
    ] by {
        lemma_requests(s, ids, k);
        assert(s.is_pending(ids[k as int]));
        assert(after_requests(s, k).channels.dom().contains(ids[k as int]));
        assert(after_requests(s, k).channels.contains_key(ids[k as int]));
    }
    let n = ids.len();
    let t = after_requests(s, n);
    lemma_requests(s, ids, n);
    graphics_channel_is_created_first(t);
    assert forall|i: int, j: int| 0 <= i < j < ids.len() implies ids[i] != ids[j] by {
        assert(comes_before(s, ids[i], ids[j]));
    }
    assert(ids.to_set() =~= s.waiting(false)) by {
        assert forall|id: u32| #[trigger] ids.to_set().contains(id) implies s.waiting(
            false,
        ).contains(id) by {
            let i = choose|i: int| 0 <= i < ids.len() && ids[i] == id;
            assert(s.is_pending(ids[i]));
        }
    }
    ids.unique_seq_to_set();
}

/// The waiting channels can be put in the order of creation.
pub proof fn waiting_channels_have_an_order(s: ServerModel) -> (ids: Seq<u32>)
    ensures
        is_creation_order(s, ids),
{
    lemma_bounded_finite(s.waiting(false), (u32::MAX + 1) as nat);
    lemma_order_exists(s, s.waiting(false).len())
}

/// The waiting channels, as many as there are, can be put in the order of creation.
proof fn lemma_order_exists(s: ServerModel, n: nat) -> (ids: Seq<u32>)
    requires
        s.waiting(false).finite(),
        s.waiting(false).len() == n,
    ensures
        is_creation_order(s, ids),
    decreases n,
{
    graphics_channel_is_created_first(s);
    match s.next_pending() {
        None => {
            assert forall|id: u32| !s.is_pending(id) by {}
            Seq::<u32>::empty()
        },
        Some(first) => {
            let t = s.create_next().0;
            lemma_create_next(s);
            assert(s.waiting(false).contains(first));
            assert(t.waiting(false) =~= s.waiting(false).remove(first));
            let rest = lemma_order_exists(t, (n - 1) as nat);
            let ids = seq![first] + rest;
            assert forall|i: int| 0 <= i < ids.len() implies s.is_pending(#[trigger] ids[i]) by {
                if i > 0 {
                    assert(ids[i] == rest[i - 1]);
                    assert(t.is_pending(rest[i - 1]));
                }
            }
            assert forall|id: u32| #[trigger] s.is_pending(id) implies ids.contains(id) by {
                if id == first {
                    assert(ids[0] == first);
                } else {
                    assert(t.is_pending(id));
                    let i = choose|i: int| 0 <= i < rest.len() && rest[i] == id;
                    assert(ids[i + 1] == id);
                }
            }
            assert forall|i: int, j: int| 0 <= i < j < ids.len() implies comes_before(
                s,
                #[trigger] ids[i],
                #[trigger] ids[j],
            ) by {
                let b = rest[j - 1];
                assert(ids[j] == b);
                assert(t.is_pending(b));
                assert(s.is_pending(b));
                if i == 0 {
                    assert(b != first);
                } else {
                    let a = rest[i - 1];
                    assert(ids[i] == a);
                    assert(t.is_pending(a));
                    assert(comes_before(t, rest[i - 1], rest[j - 1]));
                }
            }
            ids
        },
    }
}

/// The bridge to the graphics pipeline serves the channel that is created before the others.
pub proof fn bridge_serves_the_graphics_channel<S: GfxServer + 'static>(bridge: GfxDvcBridge<S>)
    ensures
        ProcessorModel::of(bridge).name() == model::graphics_name(),
{
    broadcast use crate::processor::lemma_known_processor;

}

/// Identifiers start at one. The first channel that is registered gets one, and the second two.
pub proof fn first_channel_gets_one(first: ProcessorModel, second: ProcessorModel)
    ensures
        ({
            let s = ServerModel::initial().registered(first);
            &&& s.types[first.type_id()] == 1
            &&& s.is_in_state(1, ChannelState::Pending)
            &&& s.channels[1].processor == first
            &&& s.registered(second).types[second.type_id()] == 2
            &&& second.type_id() != first.type_id() ==> s.registered(second).types[first.type_id()]
                == 1
        }),
{
}

/// A new channel gets an identifier that no channel has, and that is not zero. The other channels
/// stay as they are. The next one gets a higher identifier.
pub proof fn new_channel_gets_fresh_id(
    s: ServerModel,
    processor: ProcessorModel,
    state: ChannelState,
)
    requires
        s.wf(),
        s.next_id < u32::MAX,
    ensures
        ({
            let t = s.with_new_channel(processor, state);
            &&& s.next_id != 0
            &&& !s.channels.contains_key(s.next_id)
            &&& t.is_in_state(s.next_id, state)
            &&& t.channels[s.next_id].processor == processor
            &&& t.channels.remove(s.next_id) == s.channels
            &&& t.next_id > s.next_id
            &&& t.wf()
        }),
{
    assert(s.with_new_channel(processor, state).channels.remove(s.next_id) =~= s.channels);
}

/// A new channel that is closed at once leaves the other channels and the registry as they were.
/// Its identifier stays used.
pub proof fn closing_a_new_channel_undoes_it(
    s: ServerModel,
    processor: ProcessorModel,
    state: ChannelState,
)
    requires
        s.wf(),
        s.next_id < u32::MAX,
    ensures
        ({
            let t = s.with_new_channel(processor, state);
            &&& t.channels[s.next_id].state == state
            &&& t.channels[s.next_id].processor == processor
            &&& t.without_channel(s.next_id) == ServerModel { next_id: t.next_id, ..s }
        }),
{
    let t = s.with_new_channel(processor, state);
    assert(t.without_channel(s.next_id) =~= ServerModel { next_id: t.next_id, ..s });
}

/// What is found of a processor is what was put there.
pub proof fn processor_that_was_put_there_is_found<T: DvcServerProcessor + 'static>(
    put: T,
    found: T,
)
    requires
        processor::told_apart::<T>(),
        processor::shows(ProcessorModel::of(put), found),
    ensures
        found == put,
{
    broadcast use crate::processor::lemma_known_processor;

    assert(ProcessorModel::of(put).holds(put));
}

/// A processor that was written through a mutable reference is the one that is found later. The
/// other channels, the states and the registry stay.
pub proof fn written_processor_is_found<T: DvcServerProcessor + 'static>(
    s: ServerModel,
    id: u32,
    written: T,
    found: T,
)
    requires
        s.channels.contains_key(id),
        processor::told_apart::<T>(),
        processor::shows(
            s.with_channel(
                id,
                ChannelModel { processor: ProcessorModel::of(written), ..s.channels[id] },
            ).channels[id].processor,
            found,
        ),
    ensures
        found == written,
        ({
            let t = s.with_channel(
                id,
                ChannelModel { processor: ProcessorModel::of(written), ..s.channels[id] },
            );
            &&& t.state == s.state
            &&& t.next_id == s.next_id
            &&& t.types == s.types
            &&& t.channels.dom() == s.channels.dom()
            &&& t.channels[id].state == s.channels[id].state
            &&& forall|other: u32| other != id ==> t.channels[other] == s.channels[other]
        }),
{
    processor_that_was_put_there_is_found(written, found);
    assert(s.channels.insert(
        id,
        ChannelModel { processor: ProcessorModel::of(written), ..s.channels[id] },
    ).dom() =~= s.channels.dom());
}

/// A channel that is looked up for reading and for writing shows one processor.
pub proof fn both_lookups_show_one_processor<T: DvcServerProcessor + 'static>(
    s: ServerModel,
    id: u32,
    found: T,
    found_mut: T,
)
    requires
        processor::told_apart::<T>(),
        processor::shows(s.channels[id].processor, found),
        s.channels[id].processor == ProcessorModel::of(found_mut),
    ensures
        found == found_mut,
{
    processor_that_was_put_there_is_found(found_mut, found);
}

/// A processor that was told of the creation of its channel, or handed a message, is found as what
/// its type lets it become with the answer that it gave.
pub proof fn processor_is_found_as_it_became<T: DvcServerProcessor + 'static>(
    p: T,
    channel_id: u32,
    payload: Seq<u8>,
    after: ProcessorModel,
    answer: Answer,
    found: T,
)
    requires
        processor::told_apart::<T>(),
        processor::shows(after, found),
    ensures
        ProcessorModel::of(p).starts(channel_id, after, answer) ==> p.starts(
            channel_id,
            &found,
            answer,
        ),
        ProcessorModel::of(p).processes(channel_id, payload, after, answer) ==> p.processes(
            channel_id,
            payload,
            &found,
            answer,
        ),
{
    processor::lemma_known_answers(p, channel_id, payload, after, answer);
}

/// A registered channel is found by the type of its processor, and waits for its creation. What is
/// registered for other types stays.
pub proof fn registered_channel_is_found(s: ServerModel, processor: ProcessorModel)
    requires
        s.wf(),
        s.next_id < u32::MAX,
    ensures
        ({
            let t = s.registered(processor);
            &&& t.types.contains_key(processor.type_id())
            &&& t.types[processor.type_id()] == s.next_id
            &&& t.is_pending(s.next_id)
            &&& t.channels.remove(s.next_id) == s.channels
            &&& forall|other: TypeId|
                other != processor.type_id() ==> (#[trigger] t.types.contains_key(other)
                    <==> s.types.contains_key(other)) && t.types[other] == s.types[other]
            &&& t.wf()
        }),
{
    assert(s.registered(processor).channels.remove(s.next_id) =~= s.channels);
}

/// No message adds a channel or gives out an identifier, so an identifier is never used twice.
pub proof fn messages_add_no_channels(s: ServerModel, payload: Seq<u8>, outcome: Outcome)
    ensures
        s.on_payload(payload, outcome).0.next_id == s.next_id,
        s.on_payload(payload, outcome).0.channels.dom().subset_of(s.channels.dom()),
        s.start().0.next_id == s.next_id,
        s.start().0.channels == s.channels,
{
    lemma_step(s, payload, outcome);
}

/// What a message may do to a channel.
spec fn channel_step(before: ChannelModel, after: ChannelModel) -> bool {
    after.state == before.state || before.state == ChannelState::Pending && after.state
        == ChannelState::Creation || before.state == ChannelState::Creation && (after.state
        == ChannelState::Opened || after.state is CreationFailed)
}

/// The shape of a step that a message causes.
proof fn lemma_step(s: ServerModel, payload: Seq<u8>, outcome: Outcome)
    ensures
        ({
            let t = s.on_payload(payload, outcome).0;
            &&& t.next_id == s.next_id
            &&& t.channels.dom().subset_of(s.channels.dom())
            &&& forall|id: u32| #[trigger]
                t.channels.contains_key(id) ==> channel_step(s.channels[id], t.channels[id])
        }),
{
    let t = s.on_payload(payload, outcome).0;
    match pdu::parse_client_pdu(payload) {
        Ok(ClientModel::Capabilities { version }) => {
            lemma_create_next(ServerModel { state: DrdynvcState::Ready, ..s });
        },
        Ok(ClientModel::Create { channel_id, status }) => {
            if s.create_response_error(channel_id) is None {
                if status == CREATION_STATUS_OK {
                    lemma_create_next(
                        s.with_channel(
                            channel_id,
                            ChannelModel {
                                state: ChannelState::Opened,
                                processor: outcome.processor,
                                ..s.channels[channel_id]
                            },
                        ),
                    );
                } else {
                    lemma_create_next(
                        s.with_channel_state(channel_id, ChannelState::CreationFailed(status)),
                    );
                }
            }
        },
        _ => {},
    }
}

/// The invariant of the manager holds at first, and no registration, removal or message breaks it,
/// whatever the processors do.
pub proof fn invariant_always_holds(
    s: ServerModel,
    processor: ProcessorModel,
    state: ChannelState,
    id: u32,
    payload: Seq<u8>,
    outcome: Outcome,
)
    ensures
        ServerModel::initial().wf(),
        s.wf() ==> s.start().0.wf(),
        s.wf() ==> s.without_channel(id).wf(),
        s.wf() && s.next_id < u32::MAX ==> s.registered(processor).wf() && s.with_new_channel(
            processor,
            state,
        ).wf(),
        s.wf() && s.allows(payload, outcome) ==> s.on_payload(payload, outcome).0.wf(),
{
    if s.wf() && s.allows(payload, outcome) {
        match pdu::parse_client_pdu(payload) {
            Ok(ClientModel::Capabilities { version }) => {
                lemma_create_next(ServerModel { state: DrdynvcState::Ready, ..s });
            },
            Ok(ClientModel::Create { channel_id, status }) => {
                if s.create_response_error(channel_id) is None {
                    if status == CREATION_STATUS_OK {
                        processor::lemma_start_keeps_type(
                            s.channels[channel_id].processor,
                            channel_id,
                            outcome.processor,
                            outcome.answer,
                        );
                        let opened = ChannelModel {
                            state: ChannelState::Opened,
                            processor: outcome.processor,
                            ..s.channels[channel_id]
                        };
                        model::lemma_with_channel_wf(s, channel_id, opened);
                        lemma_create_next(s.with_channel(channel_id, opened));
                    } else {
                        lemma_create_next(
                            s.with_channel_state(channel_id, ChannelState::CreationFailed(status)),
                        );
                    }
                }
            },
            Ok(ClientModel::Close { channel_id }) => {
                model::lemma_without_channel_wf(s, channel_id);
            },
            Ok(ClientModel::Data(block)) => {
                if let Ok(Some(data)) = s.receive(block).1 {
                    processor::lemma_process_keeps_type(
                        s.channels[block.channel()].processor,
                        block.channel(),
                        data,
                        outcome.processor,
                        outcome.answer,
                    );
                }
            },
            Err(e) => {},
        }
    }
}

/// Whether channels are created one after the other: at most one request is without an answer, and
/// none before the capabilities are agreed on.
pub open spec fn creates_one_at_a_time(s: ServerModel) -> bool {
    &&& forall|a: u32, b: u32|
        s.is_in_state(a, ChannelState::Creation) && s.is_in_state(b, ChannelState::Creation) ==> a
            == b
    &&& s.state != DrdynvcState::Ready ==> forall|a: u32|
        !s.is_in_state(a, ChannelState::Creation)
}

/// A step that begins no creation keeps the order.
proof fn lemma_no_new_creation(s: ServerModel, t: ServerModel)
    requires
        creates_one_at_a_time(s),
        s.state == DrdynvcState::Ready ==> t.state == DrdynvcState::Ready,
        forall|a: u32| #[trigger]
            t.is_in_state(a, ChannelState::Creation) ==> s.is_in_state(a, ChannelState::Creation),
    ensures
        creates_one_at_a_time(t),
{
}

/// Where no request is without an answer, the next one may be sent.
proof fn lemma_next_creation(s: ServerModel)
    requires
        s.state == DrdynvcState::Ready,
        forall|a: u32| !s.is_in_state(a, ChannelState::Creation),
    ensures
        creates_one_at_a_time(s),
        creates_one_at_a_time(s.create_next().0),
{
    lemma_create_next(s);
    let t = s.create_next().0;
    assert forall|a: u32, b: u32|
        t.is_in_state(a, ChannelState::Creation) && t.is_in_state(
            b,
            ChannelState::Creation,
        ) implies a == b by {
        assert(t.channels.contains_key(a) && t.channels.contains_key(b));
        assert(!s.is_in_state(a, ChannelState::Creation));
        assert(!s.is_in_state(b, ChannelState::Creation));
    }
}

/// The manager right after a create response was noted, before the next channel is asked for.
pub open spec fn answered(s: ServerModel, id: u32, status: u32, outcome: Outcome) -> ServerModel {
    if status == CREATION_STATUS_OK {
        s.with_channel(
            id,
            ChannelModel {
                state: ChannelState::Opened,
                processor: outcome.processor,
                ..s.channels[id]
            },
        )
    } else {
        s.with_channel_state(id, ChannelState::CreationFailed(status))
    }
}

/// Where channels are created one after the other, the next one is asked for only when no request
/// is without an answer, and then at most one is.
pub proof fn next_channel_is_asked_for_when_none_is_under_way(
    s: ServerModel,
    version: CapsVersion,
    id: u32,
    status: u32,
    outcome: Outcome,
)
    requires
        creates_one_at_a_time(s),
    ensures
        s.state == DrdynvcState::CapabilitiesSent && version != CapsVersion::V1 ==> {
            let ready = ServerModel { state: DrdynvcState::Ready, ..s };
            &&& forall|a: u32| !ready.is_in_state(a, ChannelState::Creation)
            &&& s.on_capabilities(version).0 == ready.create_next().0
            &&& creates_one_at_a_time(ready.create_next().0)
        },
        s.create_response_error(id) is None ==> {
            let ready = answered(s, id, status, outcome);
            &&& forall|a: u32| !ready.is_in_state(a, ChannelState::Creation)
            &&& ({
                let t = s.on_create_response(id, status, outcome).0;
                t == ready || t == ready.create_next().0
            })
            &&& creates_one_at_a_time(ready)
            &&& creates_one_at_a_time(ready.create_next().0)
        },
{
    if s.state == DrdynvcState::CapabilitiesSent && version != CapsVersion::V1 {
        let ready = ServerModel { state: DrdynvcState::Ready, ..s };
        assert forall|a: u32| !ready.is_in_state(a, ChannelState::Creation) by {
            assert(!s.is_in_state(a, ChannelState::Creation));
        }
        lemma_next_creation(ready);
    }
    if s.create_response_error(id) is None {
        let ready = answered(s, id, status, outcome);
        assert(s.is_in_state(id, ChannelState::Creation));
        assert forall|a: u32| !ready.is_in_state(a, ChannelState::Creation) by {
            if a != id && ready.is_in_state(a, ChannelState::Creation) {
                assert(s.is_in_state(a, ChannelState::Creation));
            }
        }
        lemma_next_creation(ready);
    }
}

/// Registered channels are created one after the other: at most one create request is without an
/// answer at any time.
pub proof fn registered_channels_are_created_one_at_a_time(
    s: ServerModel,
    processor: ProcessorModel,
    id: u32,
    payload: Seq<u8>,
    outcome: Outcome,
)
    ensures
        creates_one_at_a_time(ServerModel::initial()),
        creates_one_at_a_time(s) ==> creates_one_at_a_time(s.start().0),
        creates_one_at_a_time(s) ==> creates_one_at_a_time(s.without_channel(id)),
        creates_one_at_a_time(s) ==> creates_one_at_a_time(s.registered(processor)),
        creates_one_at_a_time(s) ==> creates_one_at_a_time(s.on_payload(payload, outcome).0),
{
    if creates_one_at_a_time(s) {
        lemma_no_new_creation(s, s.start().0);
        lemma_no_new_creation(s, s.without_channel(id));
        lemma_no_new_creation(s, s.registered(processor));
        let t = s.on_payload(payload, outcome).0;
        match pdu::parse_client_pdu(payload) {
            Ok(ClientModel::Capabilities { version }) => {
                next_channel_is_asked_for_when_none_is_under_way(s, version, id, 0, outcome);
                if s.state != DrdynvcState::CapabilitiesSent || version == CapsVersion::V1 {
                    lemma_no_new_creation(s, t);
                }
            },
            Ok(ClientModel::Create { channel_id, status }) => {
                next_channel_is_asked_for_when_none_is_under_way(
                    s,
                    CapsVersion::V1,
                    channel_id,
                    status,
                    outcome,
                );
            },
            _ => {
                lemma_no_new_creation(s, t);
            },
        }
    }
}

/// The capability exchange is started once. Nothing that comes later makes it start again.
pub proof fn exchange_starts_once(s: ServerModel, payload: Seq<u8>, outcome: Outcome)
    ensures
        s.start().0.state != DrdynvcState::Initial,
        s.start().0.start() == s.start().0.refused(PduError::AlreadyStarted),
        s.on_payload(payload, outcome).0.state == DrdynvcState::Initial <==> s.state
            == DrdynvcState::Initial,
{
    lemma_capability_states(s, payload, outcome);
}

/// How a message moves the capability exchange on.
proof fn lemma_capability_states(s: ServerModel, payload: Seq<u8>, outcome: Outcome)
    ensures
        ({
            let t = s.on_payload(payload, outcome).0;
            t.state == s.state || s.state == DrdynvcState::CapabilitiesSent && (t.state
                == DrdynvcState::Ready || t.state == DrdynvcState::Failed)
        }),
{
    match pdu::parse_client_pdu(payload) {
        Ok(ClientModel::Capabilities { version }) => {
            lemma_create_next(ServerModel { state: DrdynvcState::Ready, ..s });
        },
        Ok(ClientModel::Create { channel_id, status }) => {
            if s.create_response_error(channel_id) is None {
                if status == CREATION_STATUS_OK {
                    lemma_create_next(
                        s.with_channel(
                            channel_id,
                            ChannelModel {
                                state: ChannelState::Opened,
                                processor: outcome.processor,
                                ..s.channels[channel_id]
                            },
                        ),
                    );
                } else {
                    lemma_create_next(
                        s.with_channel_state(channel_id, ChannelState::CreationFailed(status)),
                    );
                }
            }
        },
        _ => {},
    }
}

/// A capability response that was not asked for is refused and changes nothing.
pub proof fn capability_response_needs_a_request(s: ServerModel, version: CapsVersion)
    requires
        s.state != DrdynvcState::CapabilitiesSent,
    ensures
        s.on_capabilities(version) == s.refused(PduError::UnexpectedCapabilityResponse),
{
}

/// A second capability response is refused. It changes nothing, and creates no further channel.
pub proof fn second_capability_response_is_refused(
    s: ServerModel,
    first: CapsVersion,
    second: CapsVersion,
)
    ensures
        ({
            let t = s.on_capabilities(first).0;
            t.on_capabilities(second) == t.refused(PduError::UnexpectedCapabilityResponse)
        }),
{
    lemma_create_next(ServerModel { state: DrdynvcState::Ready, ..s });
}

/// A client that answers with version 1 ends the exchange. Its channels stay as they are.
pub proof fn version_one_fails_the_exchange(s: ServerModel)
    requires
        s.state == DrdynvcState::CapabilitiesSent,
    ensures
        s.on_capabilities(CapsVersion::V1) == (ServerModel {
            state: DrdynvcState::Failed,
            ..s
        }).refused(PduError::UnsupportedCapabilityVersion),
{
}

/// A client that answers with version 2 or 3 is asked to create one channel, if one waits.
pub proof fn accepted_version_creates_one_channel(s: ServerModel, version: CapsVersion)
    requires
        s.state == DrdynvcState::CapabilitiesSent,
        version != CapsVersion::V1,
    ensures
        ({
            let (t, r) = s.on_capabilities(version);
            &&& t.state == DrdynvcState::Ready
            &&& r is Ok
            &&& match s.next_pending() {
                Some(id) => {
                    &&& t == ServerModel {
                        state: DrdynvcState::Ready,
                        ..s.with_channel_state(id, ChannelState::Creation)
                    }
                    &&& r->Ok_0 == seq![
                        model::create_request(id, s.channels[id].processor.name()),
                    ]
                },
                None => t.channels == s.channels && r->Ok_0.len() == 0,
            }
        }),
{
    let ready = ServerModel { state: DrdynvcState::Ready, ..s };
    assert(ready.waiting(true) =~= s.waiting(true));
    assert(ready.waiting(false) =~= s.waiting(false));
    assert(ready.next_pending() == s.next_pending());
}

/// A failed exchange stays failed. No create response is accepted after it, and no channel is
/// opened or asked for.
pub proof fn failed_exchange_stays_failed(s: ServerModel, payload: Seq<u8>, outcome: Outcome)
    requires
        s.state == DrdynvcState::Failed,
    ensures
        ({
            let t = s.on_payload(payload, outcome).0;
            &&& t.state == DrdynvcState::Failed
            &&& forall|id: u32| #[trigger]
                t.channels.contains_key(id) ==> t.channels[id].state == s.channels[id].state
        }),
{
}

/// A create response that is refused changes nothing. Neither does a block of data that is refused,
/// nor a notice for a channel that does not exist.
pub proof fn refused_message_changes_nothing(
    s: ServerModel,
    message: ClientModel,
    outcome: Outcome,
)
    ensures
        message matches ClientModel::Create { channel_id, .. } ==> (
        s.create_response_error(channel_id) matches Some(e) ==> s.on_message(message, outcome)
            == s.refused(e)),
        message matches ClientModel::Data(block) ==> (s.receive(block).1 matches Err(e)
            ==> s.on_message(message, outcome) == s.refused(e)),
        message matches ClientModel::Close { channel_id } ==> (!s.channels.contains_key(channel_id)
            ==> s.on_message(message, outcome).0 == s),
{
    if let ClientModel::Data(block) = message {
        if s.data_error(block.channel()) is None && s.receive(block).1 is Err {
            assert(s.receive(block).0 =~= s);
        }
    }
}

/// Bytes that are no message are refused and change nothing.
pub proof fn unreadable_message_changes_nothing(
    s: ServerModel,
    payload: Seq<u8>,
    outcome: Outcome,
    e: DecodeError,
)
    requires
        pdu::parse_client_pdu(payload) == Err::<ClientModel, DecodeError>(e),
    ensures
        s.on_payload(payload, outcome) == s.refused(PduError::Decode(e)),
{
}

/// A channel is opened by a create response that reports success, after its create request, and by
/// nothing else.
pub proof fn channel_is_opened_by_its_create_response(
    s: ServerModel,
    message: ClientModel,
    outcome: Outcome,
    id: u32,
)
    ensures
        ({
            let t = s.on_message(message, outcome).0;
            t.is_in_state(id, ChannelState::Opened) && !s.is_in_state(id, ChannelState::Opened)
                <==> message == (ClientModel::Create {
                channel_id: id,
                status: CREATION_STATUS_OK,
            }) && s.state == DrdynvcState::Ready && s.is_in_state(id, ChannelState::Creation)
        }),
{
    match message {
        ClientModel::Capabilities { version } => {
            lemma_create_next(ServerModel { state: DrdynvcState::Ready, ..s });
        },
        ClientModel::Create { channel_id, status } => {
            if s.create_response_error(channel_id) is None {
                if status == CREATION_STATUS_OK {
                    let opened = s.with_channel(
                        channel_id,
                        ChannelModel {
                            state: ChannelState::Opened,
                            processor: outcome.processor,
                            ..s.channels[channel_id]
                        },
                    );
                    lemma_create_next(opened);
                    assert(opened.channels.contains_key(channel_id));
                } else {
                    lemma_create_next(
                        s.with_channel_state(channel_id, ChannelState::CreationFailed(status)),
                    );
                }
            }
        },
        _ => {},
    }
}

/// A refused creation is remembered with its status, and creation goes on with the next channel.
pub proof fn refused_creation_is_remembered(
    s: ServerModel,
    id: u32,
    status: u32,
    outcome: Outcome,
)
    requires
        s.create_response_error(id) is None,
        status != CREATION_STATUS_OK,
    ensures
        ({
            let (t, r) = s.on_create_response(id, status, outcome);
            &&& r is Ok
            &&& t.is_in_state(id, ChannelState::CreationFailed(status))
            &&& r->Ok_0 == s.with_channel_state(
                id,
                ChannelState::CreationFailed(status),
            ).create_next().1
        }),
{
    let failed = s.with_channel_state(id, ChannelState::CreationFailed(status));
    lemma_create_next(failed);
    assert(failed.channels.contains_key(id));
}

/// An answer to a create request sets off the creation of the next waiting channel, unless the
/// processor of the created one fails.
pub proof fn answered_creation_sets_off_the_next(
    s: ServerModel,
    id: u32,
    status: u32,
    outcome: Outcome,
)
    requires
        s.create_response_error(id) is None,
        status == CREATION_STATUS_OK ==> model::sent(id, outcome.answer) is Ok,
    ensures
        ({
            let (t, r) = s.on_create_response(id, status, outcome);
            &&& r is Ok
            &&& s.next_pending() matches Some(next) ==> {
                &&& t.is_in_state(next, ChannelState::Creation)
                &&& r->Ok_0.len() > 0
                &&& r->Ok_0.last() == model::create_request(
                    next,
                    s.channels[next].processor.name(),
                )
            }
        }),
{
    let answered = if status == CREATION_STATUS_OK {
        s.with_channel(
            id,
            ChannelModel {
                state: ChannelState::Opened,
                processor: outcome.processor,
                ..s.channels[id]
            },
        )
    } else {
        s.with_channel_state(id, ChannelState::CreationFailed(status))
    };
    assert(answered.waiting(true) =~= s.waiting(true));
    assert(answered.waiting(false) =~= s.waiting(false));
    graphics_channel_is_created_first(s);
}

/// A channel is asked for once: after its create request it never waits again.
pub proof fn channel_never_waits_again(
    s: ServerModel,
    payload: Seq<u8>,
    outcome: Outcome,
    id: u32,
)
    ensures
        s.on_payload(payload, outcome).0.is_pending(id) ==> s.is_pending(id),
        s.start().0.is_pending(id) ==> s.is_pending(id),
{
    lemma_step(s, payload, outcome);
}

/// A message to one channel touches no other one, but for the waiting channel whose creation it
/// sets off.
pub proof fn other_channels_stay(
    s: ServerModel,
    message: ClientModel,
    outcome: Outcome,
    other: u32,
)
    requires
        s.channels.contains_key(other),
        message matches ClientModel::Create { channel_id, .. } ==> channel_id != other,
        message matches ClientModel::Close { channel_id } ==> channel_id != other,
        message matches ClientModel::Data(block) ==> block.channel() != other,
    ensures
        ({
            let t = s.on_message(message, outcome).0;
            &&& t.channels.contains_key(other)
            &&& t.channels[other] == s.channels[other] || s.is_pending(other) && t.channels[other]
                == (ChannelModel { state: ChannelState::Creation, ..s.channels[other] })
        }),
{
    match message {
        ClientModel::Capabilities { version } => {
            let ready = ServerModel { state: DrdynvcState::Ready, ..s };
            lemma_create_next(ready);
            assert(ready.create_next().0.channels.dom().contains(other));
        },
        ClientModel::Create { channel_id, status } => {
            if s.create_response_error(channel_id) is None {
                let answered = if status == CREATION_STATUS_OK {
                    s.with_channel(
                        channel_id,
                        ChannelModel {
                            state: ChannelState::Opened,
                            processor: outcome.processor,
                            ..s.channels[channel_id]
                        },
                    )
                } else {
                    s.with_channel_state(channel_id, ChannelState::CreationFailed(status))
                };
                lemma_create_next(answered);
                assert(answered.channels.contains_key(other));
                assert(answered.create_next().0.channels.dom().contains(other));
            }
        },
        _ => {},
    }
}

/// A closed channel is gone, and the registry does not lead to it. All other channels stay, and so
/// does what is registered for them. Closing it again changes nothing.
pub proof fn closed_channel_is_gone(s: ServerModel, id: u32)
    requires
        s.wf(),
    ensures
        ({
            let t = s.without_channel(id);
            &&& t.channels == s.channels.remove(id)
            &&& forall|k: TypeId| #[trigger]
                t.types.contains_key(k) <==> s.types.contains_key(k) && s.types[k] != id
            &&& forall|k: TypeId| #[trigger]
                t.types.contains_key(k) ==> t.types[k] == s.types[k]
            &&& t.without_channel(id) == t
            &&& t.state == s.state
            &&& t.next_id == s.next_id
        }),
{
    let t = s.without_channel(id);
    assert(t.channels =~= s.channels.remove(id));
}

/// The parts of a header byte are read back.
proof fn lemma_header(cmd: u8, sp: FieldType, cb_id: FieldType)
    requires
        cmd <= pdu::CMD_LAST,
    ensures
        pdu::header_cmd(pdu::header_byte(cmd, sp, cb_id)) == cmd,
        pdu::header_sp(pdu::header_byte(cmd, sp, cb_id)) == sp,
        pdu::header_cb_id(pdu::header_byte(cmd, sp, cb_id)) == cb_id,
{
}

/// A block of data is read back from its bytes.
pub proof fn data_is_read_back(block: DataModel)
    ensures
        pdu::parse_client_pdu(pdu::data_bytes(block)) == Ok::<ClientModel, DecodeError>(
            ClientModel::Data(block),
        ),
{
    let s = pdu::data_bytes(block);
    let id = block.channel();
    let cb_id = FieldType::narrowest(id);
    match block {
        DataModel::First { channel_id, length, data } => {
            let sp = FieldType::narrowest(length);
            let header = seq![pdu::header_byte(pdu::CMD_DATA_FIRST, sp, cb_id)];
            lemma_header(pdu::CMD_DATA_FIRST, sp, cb_id);
            wire::lemma_narrow_round_trip(id, header, wire::narrow_bytes(length) + data);
            wire::lemma_narrow_round_trip(length, header + wire::narrow_bytes(id), data);
            assert(s =~= header + wire::narrow_bytes(id) + (wire::narrow_bytes(length) + data));
            assert(s =~= header + wire::narrow_bytes(id) + wire::narrow_bytes(length) + data);
            assert(s.skip(1 + cb_id.width() + sp.width()) =~= data);
        },
        DataModel::Block { channel_id, data } => {
            let header = seq![pdu::header_byte(pdu::CMD_DATA, FieldType::U8, cb_id)];
            lemma_header(pdu::CMD_DATA, FieldType::U8, cb_id);
            wire::lemma_narrow_round_trip(id, header, data);
            assert(s =~= header + wire::narrow_bytes(id) + data);
            assert(s.skip(1 + cb_id.width()) =~= data);
        },
    }
}

/// A closing notice is read back from its bytes.
pub proof fn close_is_read_back(channel_id: u32)
    ensures
        pdu::parse_client_pdu(pdu::close_bytes(channel_id)) == Ok::<ClientModel, DecodeError>(
            ClientModel::Close { channel_id },
        ),
{
    let s = pdu::close_bytes(channel_id);
    let cb_id = FieldType::narrowest(channel_id);
    let header = seq![pdu::header_byte(pdu::CMD_CLOSE, FieldType::U8, cb_id)];
    lemma_header(pdu::CMD_CLOSE, FieldType::U8, cb_id);
    wire::lemma_narrow_round_trip(channel_id, header, seq![]);
    assert(s =~= header + wire::narrow_bytes(channel_id) + seq![]);
}

/// What is left after several blocks, and the messages that they complete.
pub open spec fn delivered(before: PartialMessage, blocks: Seq<DataModel>) -> (
    PartialMessage,
    Seq<Seq<u8>>,
)
    decreases blocks.len(),
{
    if blocks.len() == 0 {
        (before, seq![])
    } else {
        let (partial, messages) = delivered(before, blocks.drop_last());
        let (after, received) = partial.after(blocks.last());
        (
            after,
            match received {
                Ok(Some(message)) => messages.push(message),
                _ => messages,
            },
        )
    }
}

/// Blocks may be taken in two goes.
proof fn lemma_delivered_append(before: PartialMessage, a: Seq<DataModel>, b: Seq<DataModel>)
    ensures
        ({
            let (mid, first) = delivered(before, a);
            let (after, second) = delivered(mid, b);
            delivered(before, a + b) == (after, first + second)
        }),
    decreases b.len(),
{
    if b.len() == 0 {
        assert(a + b =~= a);
        assert(delivered(before, a).1 + seq![] =~= delivered(before, a).1);
    } else {
        lemma_delivered_append(before, a, b.drop_last());
        assert((a + b).drop_last() =~= a + b.drop_last());
        assert((a + b).last() == b.last());
        let (mid, first) = delivered(before, a);
        let (partial, second) = delivered(mid, b.drop_last());
        if let Ok(Some(message)) = partial.after(b.last()).1 {
            assert((first + second).push(message) =~= first + second.push(message));
        }
    }
}

/// What is left after the first `k` blocks of a message that takes several.
proof fn lemma_partly_delivered(channel_id: u32, message: Seq<u8>, k: int)
    requires
        MAX_DATA_SIZE < message.len() <= u32::MAX,
        1 <= k < svc::block_count(message.len()),
    ensures
        delivered(PartialMessage::idle(), svc::fragments(channel_id, message).take(k)) == (
            PartialMessage {
                total_size: message.len(),
                data: message.take(k * MAX_DATA_SIZE),
            },
            Seq::<Seq<u8>>::empty(),
        ),
    decreases k,
{
    let blocks = svc::fragments(channel_id, message);
    let taken = blocks.take(k);
    assert(taken.drop_last() =~= blocks.take(k - 1));
    assert(taken.last() == svc::block(channel_id, message, k - 1));
    if k == 1 {
        assert(blocks.take(0) =~= seq![]);
        assert(svc::block_bytes(message, 0) =~= message.take(MAX_DATA_SIZE as int));
        assert(delivered(PartialMessage::idle(), taken.drop_last()).1 =~= seq![]);
    } else {
        lemma_partly_delivered(channel_id, message, k - 1);
        let before = message.take((k - 1) * MAX_DATA_SIZE);
        assert(before + svc::block_bytes(message, k - 1) =~= message.take(k * MAX_DATA_SIZE));
    }
}

/// A message that is cut into blocks for sending is put together again by whoever receives the
/// blocks, and nothing is left over.
pub proof fn message_is_put_together_again(channel_id: u32, message: Seq<u8>)
    requires
        0 < message.len() <= u32::MAX,
    ensures
        delivered(PartialMessage::idle(), svc::fragments(channel_id, message)) == (
            PartialMessage::idle(),
            seq![message],
        ),
{
    let blocks = svc::fragments(channel_id, message);
    let n = blocks.len() as int;
    let idle = PartialMessage::idle();
    assert(blocks.last() == svc::block(channel_id, message, n - 1));
    if message.len() <= MAX_DATA_SIZE {
        assert(n == 1);
        assert(blocks.drop_last() =~= seq![]);
        assert(delivered(idle, blocks.drop_last()) == (idle, Seq::<Seq<u8>>::empty()));
        assert(svc::block_bytes(message, 0) =~= message);
        assert(idle.after(blocks.last()).0 =~= idle);
    } else {
        lemma_partly_delivered(channel_id, message, n - 1);
        assert(blocks.drop_last() =~= blocks.take(n - 1));
        let before = message.take((n - 1) * MAX_DATA_SIZE);
        assert(before + svc::block_bytes(message, n - 1) =~= message);
    }
    assert(delivered(idle, blocks).1 =~= seq![message]);
}

/// Messages that are sent one after the other are received one after the other. Empty ones are not
/// sent.
pub proof fn messages_are_received_in_order(channel_id: u32, messages: Seq<Seq<u8>>)
    requires
        svc::lengths_fit(messages),
    ensures
        delivered(PartialMessage::idle(), svc::all_fragments(channel_id, messages)) == (
            PartialMessage::idle(),
            messages.filter(|m: Seq<u8>| m.len() > 0),
        ),
    decreases messages.len(),
{
    let sent = |m: Seq<u8>| m.len() > 0;
    reveal(Seq::filter);
    if messages.len() > 0 {
        let rest = messages.drop_last();
        let last = messages.last();
        assert forall|i: int| 0 <= i < rest.len() implies (#[trigger] rest[i]).len()
            <= u32::MAX by {
            assert(rest[i] == messages[i]);
        }
        messages_are_received_in_order(channel_id, rest);
        lemma_delivered_append(
            PartialMessage::idle(),
            svc::all_fragments(channel_id, rest),
            svc::fragments(channel_id, last),
        );
        if last.len() > 0 {
            message_is_put_together_again(channel_id, last);
            assert(rest.filter(sent) + seq![last] =~= rest.filter(sent).push(last));
        } else {
            assert(svc::fragments(channel_id, last) =~= seq![]);
            assert(rest.filter(sent) + seq![] =~= rest.filter(sent));
        }
    }
}

/// The answer of a processor is all of its messages, each with all of its bytes, or its error.
pub proof fn answer_is_every_message(r: Result<Vec<DvcMessage>, PduError>)
    ensures
        match r {
            Ok(messages) => processor::answer_view(r) matches Ok(answer) && {
                &&& answer.len() == messages@.len()
                &&& forall|i: int|
                    0 <= i < messages@.len() ==> #[trigger] answer[i] == messages@[i].bytes@
            },
            Err(e) => processor::answer_view(r) == Answer::Err(e),
        },
{
}

/// What is returned is what contracts say is returned, whole.
pub proof fn results_are_seen_whole(
    sent: Result<Vec<SvcMessage>, PduError>,
    received: Result<Option<Vec<u8>>, DecodeError>,
    message: Result<Option<Vec<u8>>, PduError>,
)
    ensures
        match sent {
            Ok(v) => error::result_view(sent) == Ok::<Seq<SvcMessage>, PduError>(v@),
            Err(e) => error::result_view(sent) == Err::<Seq<SvcMessage>, PduError>(e),
        },
        match received {
            Ok(Some(v)) => complete_data::received_view(received) == Ok::<
                Option<Seq<u8>>,
                DecodeError,
            >(Some(v@)),
            Ok(None) => complete_data::received_view(received) == Ok::<
                Option<Seq<u8>>,
                DecodeError,
            >(None),
            Err(e) => complete_data::received_view(received) == Err::<
                Option<Seq<u8>>,
                DecodeError,
            >(e),
        },
        match message {
            Ok(Some(v)) => server::message_result(message) == Ok::<Option<Seq<u8>>, PduError>(
                Some(v@),
            ),
            Ok(None) => server::message_result(message) == Ok::<Option<Seq<u8>>, PduError>(None),
            Err(e) => server::message_result(message) == Err::<Option<Seq<u8>>, PduError>(e),
        },
{
}

/// A message is what its fields say.
pub proof fn messages_are_seen_whole(
    capabilities: CapabilitiesResponsePdu,
    create: CreateResponsePdu,
    close: ClosePdu,
    first: DataFirstPdu,
    block: DataPdu,
    announced: CapabilitiesRequestPdu,
    request: CreateRequestPdu,
)
    ensures
        DrdynvcClientPdu::Capabilities(capabilities)@ == (ClientModel::Capabilities {
            version: capabilities.version,
        }),
        DrdynvcClientPdu::Create(create)@ == (ClientModel::Create {
            channel_id: create.channel_id,
            status: create.creation_status,
        }),
        DrdynvcClientPdu::Close(close)@ == (ClientModel::Close { channel_id: close.channel_id }),
        DrdynvcDataPdu::DataFirst(first)@ == (DataModel::First {
            channel_id: first.channel_id,
            length: first.length,
            data: first.data@,
        }),
        DrdynvcDataPdu::Data(block)@ == (DataModel::Block {
            channel_id: block.channel_id,
            data: block.data@,
        }),
        DrdynvcClientPdu::Data(DrdynvcDataPdu::Data(block))@ == ClientModel::Data(
            DrdynvcDataPdu::Data(block)@,
        ),
        DrdynvcClientPdu::Data(DrdynvcDataPdu::DataFirst(first))@ == ClientModel::Data(
            DrdynvcDataPdu::DataFirst(first)@,
        ),
        DrdynvcServerPdu::Capabilities(announced)@ == (ServerMessageModel::Capabilities {
            version: announced.version,
            charges: announced.charges@,
        }),
        DrdynvcServerPdu::Create(request)@ == (ServerMessageModel::Create {
            channel_id: request.channel_id,
            name: request.channel_name@,
        }),
        DrdynvcServerPdu::Close(close)@ == (ServerMessageModel::Close {
            channel_id: close.channel_id,
        }),
        DrdynvcDataPdu::Data(block)@.channel() == block.channel_id,
        DrdynvcDataPdu::DataFirst(first)@.channel() == first.channel_id,
{
}

/// The exchange begins with a request of version 2 without charges, and changes nothing else.
pub proof fn exchange_begins_with_version_two(s: ServerModel)
    requires
        s.state == DrdynvcState::Initial,
    ensures
        s.start().0 == (ServerModel { state: DrdynvcState::CapabilitiesSent, ..s }),
        s.start().1 == Ok::<Seq<SvcMessage>, PduError>(
            seq![
                svc::svc_message(
                    "DYNVC_CAPS_VERSION2"@,
                    seq![0x50u8, 0, 2, 0, 0, 0, 0, 0, 0, 0, 0, 0],
                    0x10,
                ),
            ],
        ),
{
    let charges = seq![0u16, 0, 0, 0];
    let b = pdu::server_bytes(
        ServerMessageModel::Capabilities { version: CapsVersion::V2, charges },
    );
    reveal_with_fuel(format_laws::number_at, 3);
    format_laws::capability_request_holds_its_version(CapsVersion::V2, charges);
    assert(format_laws::number_at(b, 4, 2) == charges[0]);
    assert(format_laws::number_at(b, 6, 2) == charges[1]);
    assert(format_laws::number_at(b, 8, 2) == charges[2]);
    assert(format_laws::number_at(b, 10, 2) == charges[3]);
    assert(b =~= seq![0x50u8, 0, 2, 0, 0, 0, 0, 0, 0, 0, 0, 0]);
}

/// The request for the next channel carries the identifier and the name of that channel, and the
/// channel waits for its answer. Nothing else changes.
pub proof fn request_is_for_the_next_channel(s: ServerModel)
    ensures
        match s.next_pending() {
            Some(id) => s.create_next() == (
                ServerModel {
                    channels: s.channels.insert(
                        id,
                        ChannelModel { state: ChannelState::Creation, ..s.channels[id] },
                    ),
                    ..s
                },
                seq![
                    svc::svc_message(
                        "DYNVC_CREATE_REQ"@,
                        pdu::server_bytes(
                            ServerMessageModel::Create {
                                channel_id: id,
                                name: s.channels[id].processor.name(),
                            },
                        ),
                        0x10,
                    ),
                ],
            ),
            None => s.create_next() == (s, Seq::<SvcMessage>::empty()),
        },
{
}

/// The requests and notices that the manager sends on its own account carry the channel that they
/// are for.
pub proof fn messages_are_for_their_channel(channel_id: u32, name: Seq<char>)
    ensures
        model::create_request(channel_id, name) == svc::svc_message(
            "DYNVC_CREATE_REQ"@,
            pdu::server_bytes(ServerMessageModel::Create { channel_id, name }),
            0x10,
        ),
        model::close_notice(channel_id) == svc::svc_message(
            "DYNVC_CLOSE"@,
            pdu::server_bytes(ServerMessageModel::Close { channel_id }),
            0x10,
        ),
{
}

/// Bytes that are a message do what the message does.
pub proof fn payload_does_what_its_message_does(
    s: ServerModel,
    payload: Seq<u8>,
    message: ClientModel,
    outcome: Outcome,
)
    requires
        pdu::parse_client_pdu(payload) == Ok::<ClientModel, DecodeError>(message),
    ensures
        s.on_payload(payload, outcome) == s.on_message(message, outcome),
        s.allows(payload, outcome) <==> s.allows_on_message(message, outcome),
{
}

/// What goes to the client of a processor's answer: all of its messages arrive there, on that
/// channel. An error goes to the caller as it is, and so does that of a message too long.
pub proof fn answer_goes_to_the_client(channel_id: u32, answer: Answer)
    ensures
        match answer {
            Ok(messages) => {
                &&& format_laws::short_enough(messages) ==> model::sent(channel_id, answer) is Ok
                    && format_laws::brings(
                    model::sent(channel_id, answer)->Ok_0,
                    channel_id,
                    messages,
                    0x10,
                )
                &&& !format_laws::short_enough(messages) ==> model::sent(channel_id, answer)
                    == Err::<Seq<SvcMessage>, PduError>(
                    PduError::Encode(EncodeError::MessageTooLong),
                )
            },
            Err(e) => model::sent(channel_id, answer) == Err::<Seq<SvcMessage>, PduError>(e),
        },
{
    if let Ok(messages) = answer {
        format_laws::messages_are_brought_to_the_other_end(channel_id, messages, 0x10);
    }
}

/// A block that completes a message has the processor of its channel handed that message, whole.
/// All that the processor answers goes to the client, on that channel. Of the channel, nothing
/// changes but what has come of a message, and the processor.
pub proof fn complete_message_is_answered(
    s: ServerModel,
    block: DataModel,
    message: Seq<u8>,
    outcome: Outcome,
)
    requires
        s.is_in_state(block.channel(), ChannelState::Opened),
        s.channels[block.channel()].partial.after(block).1 == Ok::<
            Option<Seq<u8>>,
            DecodeError,
        >(Some(message)),
    ensures
        ({
            let id = block.channel();
            let c = s.channels[id];
            let (t, r) = s.on_message(ClientModel::Data(block), outcome);
            &&& s.allows_on_message(ClientModel::Data(block), outcome) <==> c.processor.processes(
                id,
                message,
                outcome.processor,
                outcome.answer,
            )
            &&& t == ServerModel {
                channels: s.channels.insert(
                    id,
                    ChannelModel {
                        state: ChannelState::Opened,
                        processor: outcome.processor,
                        partial: c.partial.after(block).0,
                    },
                ),
                ..s
            }
            &&& r == model::sent(id, outcome.answer)
            &&& outcome.answer matches Ok(messages) ==> (format_laws::short_enough(messages) ==> r is Ok
                && format_laws::brings(r->Ok_0, id, messages, 0x10))
            &&& outcome.answer matches Err(e) ==> r == Err::<Seq<SvcMessage>, PduError>(e)
        }),
{
    let id = block.channel();
    answer_goes_to_the_client(id, outcome.answer);
    let t = s.on_message(ClientModel::Data(block), outcome).0;
    assert(t.channels =~= s.channels.insert(
        id,
        ChannelModel {
            state: ChannelState::Opened,
            processor: outcome.processor,
            partial: s.channels[id].partial.after(block).0,
        },
    ));
}

/// A block that completes no message tells the processor nothing. It is kept, and has no answer.
pub proof fn other_blocks_are_kept(s: ServerModel, block: DataModel, outcome: Outcome)
    requires
        s.is_in_state(block.channel(), ChannelState::Opened),
    ensures
        ({
            let id = block.channel();
            let c = s.channels[id];
            let (t, r) = s.on_message(ClientModel::Data(block), outcome);
            match c.partial.after(block).1 {
                Ok(Some(_)) => true,
                Ok(None) => {
                    &&& s.allows_on_message(ClientModel::Data(block), outcome)
                    &&& r == Ok::<Seq<SvcMessage>, PduError>(seq![])
                    &&& t == ServerModel {
                        channels: s.channels.insert(
                            id,
                            ChannelModel { partial: c.partial.after(block).0, ..c },
                        ),
                        ..s
                    }
                },
                Err(e) => {
                    &&& s.allows_on_message(ClientModel::Data(block), outcome)
                    &&& r == Err::<Seq<SvcMessage>, PduError>(PduError::Decode(e))
                    &&& t == s
                },
            }
        }),
{
    refused_message_changes_nothing(s, ClientModel::Data(block), outcome);
}

/// The manager after several blocks of data, before a processor is handed anything.
pub open spec fn after_blocks(s: ServerModel, blocks: Seq<DataModel>) -> ServerModel
    decreases blocks.len(),
{
    if blocks.len() == 0 {
        s
    } else {
        after_blocks(s, blocks.drop_last()).receive(blocks.last()).0
    }
}

/// Blocks for one open channel change only what has come of a message on it.
proof fn lemma_after_blocks(s: ServerModel, id: u32, blocks: Seq<DataModel>)
    requires
        s.is_in_state(id, ChannelState::Opened),
        forall|i: int| 0 <= i < blocks.len() ==> (#[trigger] blocks[i]).channel() == id,
    ensures
        after_blocks(s, blocks) == (ServerModel {
            channels: s.channels.insert(
                id,
                ChannelModel {
                    partial: delivered(s.channels[id].partial, blocks).0,
                    ..s.channels[id]
                },
            ),
            ..s
        }),
    decreases blocks.len(),
{
    let expected = s.channels.insert(
        id,
        ChannelModel { partial: delivered(s.channels[id].partial, blocks).0, ..s.channels[id] },
    );
    if blocks.len() > 0 {
        let rest = blocks.drop_last();
        assert forall|i: int| 0 <= i < rest.len() implies (#[trigger] rest[i]).channel() == id by {
            assert(rest[i] == blocks[i]);
        }
        lemma_after_blocks(s, id, rest);
        assert(blocks[blocks.len() - 1].channel() == id);
    }
    assert(after_blocks(s, blocks).channels =~= expected);
}

/// However a client cuts a message into pieces, the processor of the channel is handed the whole
/// message with the last of them, and all that it answers goes to the client.
pub proof fn message_in_pieces_reaches_the_processor(
    s: ServerModel,
    id: u32,
    pieces: Seq<Seq<u8>>,
    outcome: Outcome,
)
    requires
        s.is_in_state(id, ChannelState::Opened),
        pieces.len() >= 2,
        format_laws::joined(pieces).len() <= u32::MAX,
        forall|i: int| 0 <= i < pieces.len() ==> (#[trigger] pieces[i]).len() > 0,
    ensures
        ({
            let blocks = format_laws::blocks_of(id, pieces);
            let before = after_blocks(s, blocks.drop_last());
            let last = ClientModel::Data(blocks.last());
            let (t, r) = before.on_message(last, outcome);
            &&& before.channels[id].processor == s.channels[id].processor
            &&& before.allows_on_message(last, outcome) <==> s.channels[id].processor.processes(
                id,
                format_laws::joined(pieces),
                outcome.processor,
                outcome.answer,
            )
            &&& t.channels[id].processor == outcome.processor
            &&& t.channels[id].partial == (PartialMessage { total_size: 0, data: seq![] })
            &&& outcome.answer matches Ok(messages) ==> (format_laws::short_enough(messages) ==> r is Ok
                && format_laws::brings(r->Ok_0, id, messages, 0x10))
        }),
{
    let blocks = format_laws::blocks_of(id, pieces);
    let rest = blocks.drop_last();
    let before = after_blocks(s, rest);
    assert forall|i: int| 0 <= i < rest.len() implies (#[trigger] rest[i]).channel() == id by {}
    lemma_after_blocks(s, id, rest);
    format_laws::message_in_pieces_is_put_together(s.channels[id].partial, id, pieces);
    let results = format_laws::results(s.channels[id].partial, blocks);
    assert(results.last() == before.channels[id].partial.after(blocks.last()).1);
    complete_message_is_answered(before, blocks.last(), format_laws::joined(pieces), outcome);
}

/// A create response that reports success opens the channel and tells its processor. All that the
/// processor answers goes to the client, on that channel, and after it the next create request. A
/// processor that fails leaves the channel open, and its error is the answer.
pub proof fn created_channel_greets_the_client(s: ServerModel, id: u32, outcome: Outcome)
    requires
        s.state == DrdynvcState::Ready,
        s.is_in_state(id, ChannelState::Creation),
    ensures
        ({
            let message = ClientModel::Create { channel_id: id, status: 0 };
            let opened = ServerModel {
                channels: s.channels.insert(
                    id,
                    ChannelModel {
                        state: ChannelState::Opened,
                        processor: outcome.processor,
                        partial: s.channels[id].partial,
                    },
                ),
                ..s
            };
            let (t, r) = s.on_message(message, outcome);
            &&& s.allows_on_message(message, outcome) <==> s.channels[id].processor.starts(
                id,
                outcome.processor,
                outcome.answer,
            )
            &&& match outcome.answer {
                Ok(messages) => {
                    format_laws::short_enough(messages) ==> {
                        &&& t == opened.create_next().0
                        &&& exists|greeting: Seq<SvcMessage>|
                            {
                                &&& #[trigger] format_laws::brings(greeting, id, messages, 0x10)
                                &&& r == Ok::<Seq<SvcMessage>, PduError>(
                                    greeting + opened.create_next().1,
                                )
                            }
                    }
                },
                Err(e) => t == opened && r == Err::<Seq<SvcMessage>, PduError>(e),
            }
        }),
{
    let opened = ServerModel {
        channels: s.channels.insert(
            id,
            ChannelModel {
                state: ChannelState::Opened,
                processor: outcome.processor,
                partial: s.channels[id].partial,
            },
        ),
        ..s
    };
    answer_goes_to_the_client(id, outcome.answer);
    if let Ok(messages) = outcome.answer {
        if format_laws::short_enough(messages) {
            let greeting = model::sent(id, outcome.answer)->Ok_0;
            assert(format_laws::brings(greeting, id, messages, 0x10));
            assert(s.on_message(ClientModel::Create { channel_id: id, status: 0 }, outcome).1
                == Ok::<Seq<SvcMessage>, PduError>(greeting + opened.create_next().1));
        }
    }
}

/// A create response that reports a failure keeps its status, whole, and tells the processor
/// nothing. The next channel is asked for.
pub proof fn refused_channel_is_left_alone(
    s: ServerModel,
    id: u32,
    status: u32,
    outcome: Outcome,
)
    requires
        s.state == DrdynvcState::Ready,
        s.is_in_state(id, ChannelState::Creation),
        status != 0,
    ensures
        ({
            let message = ClientModel::Create { channel_id: id, status };
            let failed = ServerModel {
                channels: s.channels.insert(
                    id,
                    ChannelModel {
                        state: ChannelState::CreationFailed(status),
                        ..s.channels[id]
                    },
                ),
                ..s
            };
            let (t, r) = s.on_message(message, outcome);
            &&& s.allows_on_message(message, outcome)
            &&& t == failed.create_next().0
            &&& r == Ok::<Seq<SvcMessage>, PduError>(failed.create_next().1)
        }),
{
}

/// What is refused is refused with its own error: a create response before the capabilities are
/// agreed on, a channel that does not exist, a channel in another state.
pub proof fn refusals_are_told_apart(
    s: ServerModel,
    id: u32,
    status: u32,
    block: DataModel,
    outcome: Outcome,
)
    ensures
        ({
            let create = s.on_message(ClientModel::Create { channel_id: id, status }, outcome);
            &&& s.state != DrdynvcState::Ready ==> create == s.refused(
                PduError::UnexpectedCreateResponse,
            )
            &&& s.state == DrdynvcState::Ready && !s.channels.contains_key(id) ==> create
                == s.refused(PduError::Decode(DecodeError::InvalidChannelId))
            &&& s.state == DrdynvcState::Ready && s.channels.contains_key(id) && s.channels[id].state
                != ChannelState::Creation ==> create == s.refused(PduError::InvalidChannelState)
        }),
        ({
            let data = s.on_message(ClientModel::Data(block), outcome);
            let to = block.channel();
            &&& !s.channels.contains_key(to) ==> data == s.refused(
                PduError::Decode(DecodeError::InvalidChannelId),
            )
            &&& s.channels.contains_key(to) && s.channels[to].state != ChannelState::Opened ==> data
                == s.refused(PduError::InvalidChannelState)
        }),
        s.refused(PduError::InvalidChannelState).0 == s,
        s.refused(PduError::InvalidChannelState).1 == Err::<Seq<SvcMessage>, PduError>(
            PduError::InvalidChannelState,
        ),
{
}

/// A closing notice of the client removes the channel, tells nothing to the client and asks for no
/// other channel.
pub proof fn closing_notice_has_no_answer(s: ServerModel, id: u32, outcome: Outcome)
    ensures
        ({
            let (t, r) = s.on_message(ClientModel::Close { channel_id: id }, outcome);
            &&& r == Ok::<Seq<SvcMessage>, PduError>(seq![])
            &&& t.channels == s.channels.remove(id)
            &&& t.state == s.state
            &&& t.next_id == s.next_id
        }),
{
    assert(s.without_channel(id).channels =~= s.channels.remove(id));
}

/// A new channel has nothing of a message yet.
pub proof fn new_channel_is_idle(s: ServerModel, processor: ProcessorModel, state: ChannelState)
    ensures
        s.with_new_channel(processor, state).channels[s.next_id].partial == (PartialMessage {
            total_size: 0,
            data: seq![],
        }),
        s.registered(processor).channels[s.next_id].partial == (PartialMessage {
            total_size: 0,
            data: seq![],
        }),
        s.registered(processor).channels[s.next_id].processor == processor,
        s.with_new_channel(processor, state).types == s.types,
        s.with_new_channel(processor, state).state == s.state,
        s.registered(processor).state == s.state,
{
}

/// The bridge passes on all that it is told, with the channel and every byte, and answers what the
/// server behind it answers. It does not change.
pub proof fn bridge_passes_everything_on<S: GfxServer + 'static>(
    bridge: GfxDvcBridge<S>,
    after: GfxDvcBridge<S>,
    channel_id: u32,
    payload: Seq<u8>,
    answer: Answer,
)
    ensures
        bridge.starts(channel_id, &after, answer) <==> after == bridge && (
        *bridge.handle()).starts(channel_id, answer),
        bridge.processes(channel_id, payload, &after, answer) <==> after == bridge && (
        *bridge.handle()).processes(channel_id, payload, answer),
{
}

/// A manager starts without channels, without registrations, and before the exchange.
pub proof fn manager_starts_empty(id: u32, t: TypeId)
    ensures
        ServerModel::initial().state == DrdynvcState::Initial,
        !ServerModel::initial().channels.contains_key(id),
        !ServerModel::initial().types.contains_key(t),
        ServerModel::initial().next_id == 1,
{
}

/// A channel is in a state if it exists and that is its state.
pub proof fn channel_is_in_its_state(s: ServerModel, id: u32, state: ChannelState)
    ensures
        s.is_in_state(id, state) <==> s.channels.contains_key(id) && s.channels[id].state == state,
        s.is_pending(id) <==> s.is_in_state(id, ChannelState::Pending),
{
}

/// A channel that is replaced is replaced whole, and nothing else is.
pub proof fn replaced_channel_is_the_new_one(s: ServerModel, id: u32, channel: ChannelModel)
    ensures
        s.with_channel(id, channel) == (ServerModel {
            channels: s.channels.insert(id, channel),
            ..s
        }),
{
}

/// A block for an open channel is taken as reassembly takes it, and what that gives is given on.
pub proof fn block_is_received_on_its_channel(s: ServerModel, block: DataModel)
    requires
        s.is_in_state(block.channel(), ChannelState::Opened),
    ensures
        ({
            let id = block.channel();
            let (partial, received) = s.channels[id].partial.after(block);
            &&& s.receive(block).0 == ServerModel {
                channels: s.channels.insert(id, ChannelModel { partial, ..s.channels[id] }),
                ..s
            }
            &&& s.receive(block).1 == match received {
                Ok(message) => Ok::<Option<Seq<u8>>, PduError>(message),
                Err(e) => Err(PduError::Decode(e)),
            }
        }),
{
}

/// The answer of a processor that was told of its channel's creation goes to the client, and after
/// it the next create request, unless it is an error.
pub proof fn answer_to_a_creation_precedes_the_next(s: ServerModel, id: u32, answer: Answer)
    ensures
        match model::sent(id, answer) {
            Ok(messages) => s.on_started(id, answer) == (
                s.create_next().0,
                Ok::<Seq<SvcMessage>, PduError>(messages + s.create_next().1),
            ),
            Err(e) => s.on_started(id, answer) == s.refused(e),
        },
{
}

/// The number that decimal digits stand for.
pub open spec fn digits_value(digits: Seq<char>) -> int
    decreases digits.len(),
{
    if digits.len() == 0 {
        0
    } else {
        10 * digits_value(digits.drop_last()) + (digits.last() as int - '0' as int)
    }
}

/// A digit is one character.
proof fn lemma_digit(d: nat)
    requires
        d < 10,
    ensures
        text::digit(d).len() == 1,
        text::digit(d)[0] as int == '0' as int + d,
{
    reveal_strlit("0");
    reveal_strlit("1");
    reveal_strlit("2");
    reveal_strlit("3");
    reveal_strlit("4");
    reveal_strlit("5");
    reveal_strlit("6");
    reveal_strlit("7");
    reveal_strlit("8");
    reveal_strlit("9");
}

/// A number is read back from its decimal digits. They are digits, and do not start with a zero
/// but for zero itself.
pub proof fn number_is_read_back(n: nat)
    ensures
        text::decimal(n).len() > 0,
        digits_value(text::decimal(n)) == n,
        forall|i: int|
            0 <= i < text::decimal(n).len() ==> '0' <= #[trigger] text::decimal(n)[i] <= '9',
        n > 0 ==> text::decimal(n)[0] != '0',
    decreases n,
{
    let digits = text::decimal(n);
    if n < 10 {
        lemma_digit(n);
        assert(digits.drop_last() =~= seq![]);
        assert(digits_value(digits.drop_last()) == 0);
    } else {
        number_is_read_back(n / 10);
        lemma_digit(n % 10);
        assert(digits.drop_last() =~= text::decimal(n / 10));
        assert forall|i: int| 0 <= i < digits.len() implies '0' <= #[trigger] digits[i] <= '9' by {
            if i < digits.len() - 1 {
                assert(digits[i] == text::decimal(n / 10)[i]);
            }
        }
        assert(digits[0] == text::decimal(n / 10)[0]);
    }
}

/// Channels at and above a bound leave no trace in the text below it.
proof fn lemma_text_below(a: Map<u32, ChannelModel>, b: Map<u32, ChannelModel>, bound: nat)
    requires
        bound <= u32::MAX,
        forall|id: u32| #![trigger a.contains_key(id)]
            #![trigger b.contains_key(id)]
            id < bound ==> (a.contains_key(id) <==> b.contains_key(id)) && (a.contains_key(id)
                ==> a[id] == b[id]),
    ensures
        model::channels_text(a, bound) == model::channels_text(b, bound),
    decreases bound,
{
    if bound > 0 {
        let id = (bound - 1) as u32;
        lemma_text_below(a, b, (bound - 1) as nat);
        assert(a.contains_key(id) <==> b.contains_key(id));
        if exists|other: u32| #[trigger] a.contains_key(other) && other < id {
            let other = choose|other: u32| #[trigger] a.contains_key(other) && other < id;
            assert(b.contains_key(other));
        }
        if exists|other: u32| #[trigger] b.contains_key(other) && other < id {
            let other = choose|other: u32| #[trigger] b.contains_key(other) && other < id;
            assert(a.contains_key(other));
        }
    }
}

/// A channel with the highest identifier comes last in the text that shows the manager, behind a
/// comma where others come before it: its identifier, a colon, its whole name, and its state.
pub proof fn text_ends_with_the_highest_channel(s: ServerModel, id: u32, channel: ChannelModel)
    requires
        forall|other: u32| #[trigger] s.channels.contains_key(other) ==> other < id,
    ensures
        ({
            let t = ServerModel { channels: s.channels.insert(id, channel), ..s };
            let all = (u32::MAX + 1) as nat;
            let state = match channel.state {
                ChannelState::Pending => "Pending"@,
                ChannelState::Creation => "Creation"@,
                ChannelState::Opened => "Opened"@,
                ChannelState::CreationFailed(status) => "CreationFailed("@ + text::decimal(
                    status as nat,
                ) + ")"@,
            };
            let shown = text::decimal(id as nat) + ":"@ + channel.processor.name() + " ("@ + state
                + ")"@;
            &&& model::server_text(s) == "DrdynvcServer(["@ + model::channels_text(s.channels, all)
                + "])"@
            &&& (forall|other: u32| !s.channels.contains_key(other)) ==> model::channels_text(
                s.channels,
                all,
            ) == Seq::<char>::empty() && model::channels_text(t.channels, all) == shown
            &&& (exists|other: u32| s.channels.contains_key(other)) ==> model::channels_text(
                t.channels,
                all,
            ) == model::channels_text(s.channels, all) + ", "@ + shown
        }),
{
    let channels = s.channels.insert(id, channel);
    let all = (u32::MAX + 1) as nat;
    model::lemma_text_gap(channels, (id + 1) as nat, all);
    lemma_text_below(channels, s.channels, id as nat);
    model::lemma_text_gap(s.channels, id as nat, all);
    assert(channels.contains_key(id));
    if exists|other: u32| s.channels.contains_key(other) {
        let other = choose|other: u32| s.channels.contains_key(other);
        assert(channels.contains_key(other) && other < id);
    } else {
        model::lemma_text_gap(s.channels, 0, all);
        assert forall|other: u32| !(#[trigger] channels.contains_key(other) && other < id) by {}
        assert(Seq::<char>::empty() + model::channel_text(id, channel) =~= model::channel_text(
            id,
            channel,
        ));
    }
}

/// The text of a graphics message counts its messages, and that of an error of a processor is what
/// the processor said.
pub proof fn texts_say_what_they_show(message: EgfxServerMessage, description: String)
    ensures
        message matches EgfxServerMessage::SendMessages { messages } ==> message.text()
            == "SendMessages(count="@ + text::decimal(messages@.len()) + ")"@,
        (PduError::Processor { description }).text() == description@,
{
}

} // verus!
