//! The channel manager of the server.
use vstd::prelude::*;
use vstd::string::*;
use core::any::TypeId;
use ironrdp_pdu::gcc::ChannelName;
use ironrdp_svc::SvcMessage;
use std::collections::BTreeMap;

use crate::complete_data;
use crate::complete_data::CompleteData;
use crate::error;
use crate::error::{DecodeError, PduError};
use crate::model;
use crate::model::{ChannelModel, ChannelState, DrdynvcState, Outcome, ServerModel};
use crate::pdu;
use crate::pdu::{
    decode_dvc_message,
    CapabilitiesRequestPdu,
    CapsVersion,
    ClientModel,
    ClosePdu,
    CreateRequestPdu,
    CreateResponsePdu,
    DrdynvcClientPdu,
    DrdynvcDataPdu,
    DrdynvcServerPdu,
    CREATION_STATUS_OK,
};
use crate::processor;
use crate::processor::{
    type_id_of_type,
    DvcMessage,
    DvcServerProcessor,
    DynamicChannelMut,
    DynamicChannelRef,
    Processor,
    ProcessorModel,
};
use crate::svc;
use crate::svc::{
    as_svc_msg_with_flag,
    channel_name_from_static,
    encode_dvc_messages,
    show_protocol_flag,
};
use crate::text::{push_decimal, str_eq};
use crate::type_registry::TypeRegistry;

verus! {

broadcast use vstd::std_specs::btree::group_btree_axioms;

/// One dynamic channel.
pub struct DynamicChannel {
    state: ChannelState,
    processor: Processor,
    complete_data: CompleteData,
    channel_id: u32,
}

impl View for DynamicChannel {
    type V = ChannelModel;

    closed spec fn view(&self) -> ChannelModel {
        ChannelModel {
            state: self.state,
            processor: self.processor@,
            partial: self.complete_data@,
        }
    }
}

/// An open channel that goes away tells its processor so. One that is not open does not.
impl Drop for DynamicChannel {
    fn drop(&mut self)
        ensures
            old(self).closes_into(*final(self)),
        opens_invariants none
        no_unwind
    {
        self.close();
    }
}

impl DynamicChannel {
    /// The identifier that the channel knows itself by.
    pub closed spec fn id(self) -> u32 {
        self.channel_id
    }

    /// What closing does: the processor of an open channel is told, with the channel's own
    /// identifier, and the channel is open no more. A channel that is not open stays as it is.
    pub closed spec fn closes_into(self, after: DynamicChannel) -> bool {
        &&& self.state == ChannelState::Opened ==> self.processor@.closes(self.channel_id)
        &&& self.state != ChannelState::Opened ==> after == self
        &&& after.state != ChannelState::Opened
    }

    /// Closes the channel. The client knows nothing of it any more, so nothing closes it again.
    fn close(&mut self)
        ensures
            old(self).closes_into(*final(self)),
        opens_invariants none
        no_unwind
    {
        if self.state == ChannelState::Opened {
            self.processor.close(self.channel_id);
            self.state = ChannelState::Pending;
        }
    }

    fn new<T: DvcServerProcessor + 'static>(
        processor: T,
        channel_id: u32,
        state: ChannelState,
    ) -> (r: DynamicChannel)
        ensures
            r.channel_id == channel_id,
            r@ == (ChannelModel {
                state,
                processor: ProcessorModel::of(processor),
                partial: complete_data::PartialMessage::idle(),
            }),
    {
        DynamicChannel {
            state,
            processor: Processor::new(processor),
            complete_data: CompleteData::new(),
            channel_id,
        }
    }

    /// The identity of the type of the channel's processor.
    fn processor_type_id(&self) -> (r: TypeId)
        ensures
            r == self@.processor.type_id(),
    {
        self.processor.processor_type_id()
    }
}

/// Calls `BTreeMap::get_mut`, which returns the value under the key, if there is one. What it
/// becomes is the value under the key afterwards.
#[verifier::external_body]
fn channel_get_mut(map: &mut BTreeMap<u32, DynamicChannel>, key: u32) -> (r: Option<
    &mut DynamicChannel,
>)
    ensures
        match r {
            Some(c) => old(map)@.contains_key(key) && *c == old(map)@[key] && final(map)@ == old(map)@.insert(key, *final(c)),
            None => !old(map)@.contains_key(key) && final(map)@ == old(map)@,
        },
{
    map.get_mut(&key)
}

/// The channels by their identifiers, and the identifier that comes next.
pub struct DynamicChannelAllocator {
    dynamic_channels: BTreeMap<u32, DynamicChannel>,
    next_channel_id: u32,
}

/// The channels as contracts see them.
spec fn channel_models(channels: Map<u32, DynamicChannel>) -> Map<u32, ChannelModel> {
    channels.map_values(|c: DynamicChannel| c@)
}

/// A channel that is replaced is replaced in its model.
broadcast proof fn lemma_models_insert(
    channels: Map<u32, DynamicChannel>,
    id: u32,
    c: DynamicChannel,
)
    ensures
        #[trigger] channel_models(channels.insert(id, c)) == channel_models(channels).insert(id, c@),
{
    assert(channel_models(channels.insert(id, c)) =~= channel_models(channels).insert(id, c@));
}

/// A channel that is removed is removed from the model.
proof fn lemma_models_remove(channels: Map<u32, DynamicChannel>, id: u32)
    ensures
        channel_models(channels.remove(id)) == channel_models(channels).remove(id),
{
    assert(channel_models(channels.remove(id)) =~= channel_models(channels).remove(id));
}

/// The entries of a map of channels, in ascending order of their identifiers.
spec fn lists(entries: Seq<(&u32, &DynamicChannel)>, channels: Map<u32, DynamicChannel>) -> bool {
    &&& forall|i: int|
        0 <= i < entries.len() ==> channels.contains_key(*(#[trigger] entries[i]).0)
            && channels[*entries[i].0] == *entries[i].1
    &&& forall|i: int, j: int|
        0 <= i < j < entries.len() ==> *(#[trigger] entries[i]).0 < *(#[trigger] entries[j]).0
    &&& forall|id: u32| #[trigger]
        channels.contains_key(id) ==> is_listed(entries, id, lists_index(entries, id))
}

/// Whether the entry with index `i` is that of the channel `id`.
spec fn is_listed(entries: Seq<(&u32, &DynamicChannel)>, id: u32, i: int) -> bool {
    0 <= i < entries.len() && *entries[i].0 == id
}

/// The index of the entry of the channel `id`.
spec fn lists_index(entries: Seq<(&u32, &DynamicChannel)>, id: u32) -> int {
    choose|i: int| is_listed(entries, id, i)
}

/// A map is walked in ascending order of its keys.
proof fn lemma_lists(map: &BTreeMap<u32, DynamicChannel>, entries: Seq<(&u32, &DynamicChannel)>)
    requires
        entries == vstd::std_specs::iter::IteratorSpec::remaining(
            &vstd::std_specs::btree::spec_btree_map_iter(map),
        ),
        vstd::std_specs::btree::increasing_seq(
            entries.map_values(|kv: (&u32, &DynamicChannel)| *kv.0),
        ),
    ensures
        lists(entries, map@),
{
    let keys = entries.map_values(|kv: (&u32, &DynamicChannel)| *kv.0);
    assert forall|i: int, j: int| 0 <= i < j < entries.len() implies *(#[trigger] entries[i]).0
        < *(#[trigger] entries[j]).0 by {
        assert(keys[i] == *entries[i].0 && keys[j] == *entries[j].0);
        assert(vstd::std_specs::cmp::OrdSpec::cmp_spec(&keys[i], &keys[j]) is Less);
    }
    assert forall|id: u32| #[trigger] map@.contains_key(id) implies is_listed(
        entries,
        id,
        lists_index(entries, id),
    ) by {
        assert(entries.contains((&id, &map@[id])));
        let i = choose|i: int| 0 <= i < entries.len() && entries[i] == (&id, &map@[id]);
        assert(is_listed(entries, id, i));
    }
}

impl DynamicChannelAllocator {
    /// The channels by their identifiers.
    pub closed spec fn channels(self) -> Map<u32, DynamicChannel> {
        self.dynamic_channels@
    }

    /// The identifier that the next channel gets.
    pub closed spec fn next_id(self) -> u32 {
        self.next_channel_id
    }

    /// Identifiers count up from one, and every channel knows its own.
    pub open spec fn numbered(self) -> bool {
        &&& self.next_id() >= 1
        &&& forall|id: u32| #[trigger]
            self.channels().contains_key(id) ==> 1 <= id < self.next_id()
                && self.channels()[id].id() == id
    }

    /// What inserting a channel does.
    pub open spec fn inserted(
        self,
        after: DynamicChannelAllocator,
        id: u32,
        model: ChannelModel,
    ) -> bool {
        &&& id == self.next_id()
        &&& after.next_id() == id + 1
        &&& after.channels() == self.channels().insert(id, after.channels()[id])
        &&& after.channels()[id].id() == id
        &&& after.channels()[id]@ == model
    }

    /// What removing a channel does.
    pub open spec fn removed(
        self,
        after: DynamicChannelAllocator,
        id: u32,
        r: Option<DynamicChannel>,
    ) -> bool {
        &&& after.next_id() == self.next_id()
        &&& after.channels() == self.channels().remove(id)
        &&& r == if self.channels().contains_key(id) {
            Some(self.channels()[id])
        } else {
            None
        }
    }

    /// The channels as contracts see them.
    pub closed spec fn models(&self) -> Map<u32, ChannelModel> {
        channel_models(self.dynamic_channels@)
    }

    /// Every channel knows its identifier.
    pub closed spec fn ids_match(&self) -> bool {
        forall|id: u32| #[trigger]
            self.dynamic_channels@.contains_key(id) ==> self.dynamic_channels@[id].channel_id == id
    }

    /// Starts with no channel. The identifier zero stays unused.
    pub fn new() -> (r: DynamicChannelAllocator)
        ensures
            r.models() == Map::<u32, ChannelModel>::empty(),
            r.channels() == Map::<u32, DynamicChannel>::empty(),
            r.next_id() == 1,
            r.ids_match(),
            r.numbered(),
    {
        let r = DynamicChannelAllocator { dynamic_channels: BTreeMap::new(), next_channel_id: 1 };
        assert(r.models() =~= Map::<u32, ChannelModel>::empty());
        r
    }

    /// Adds a channel under the next identifier.
    pub fn insert_channel<T: DvcServerProcessor + 'static>(
        &mut self,
        processor: T,
        state: ChannelState,
    ) -> (r: u32)
        requires
            old(self).next_id() < u32::MAX,
        ensures
            old(self).inserted(
                *final(self),
                r,
                ChannelModel {
                    state,
                    processor: ProcessorModel::of(processor),
                    partial: complete_data::PartialMessage::idle(),
                },
            ),
            old(self).ids_match() ==> final(self).ids_match(),
            old(self).numbered() ==> final(self).numbered() && !old(self).channels().contains_key(
                r,
            ),
            final(self).models() == old(self).models().insert(
                r,
                ChannelModel {
                    state,
                    processor: ProcessorModel::of(processor),
                    partial: complete_data::PartialMessage::idle(),
                },
            ),
    {
        let channel_id: u32 = self.next_channel_id;
        let channel = DynamicChannel::new(processor, channel_id, state);
        let _ = self.dynamic_channels.insert(channel_id, channel);
        self.next_channel_id = channel_id + 1;
        assert(self.models() =~= old(self).models().insert(channel_id, channel@));
        channel_id
    }

    /// The channel with the given identifier.
    pub fn get(&self, channel_id: u32) -> (r: Option<&DynamicChannel>)
        ensures
            match r {
                Some(c) => self.channels().contains_key(channel_id) && *c
                    == self.channels()[channel_id],
                None => !self.channels().contains_key(channel_id),
            },
    {
        self.dynamic_channels.get(&channel_id)
    }

    /// The channel with the given identifier.
    pub fn get_mut(&mut self, channel_id: u32) -> (r: Option<&mut DynamicChannel>)
        ensures
            final(self).next_id() == old(self).next_id(),
            match r {
                Some(c) => {
                    &&& old(self).channels().contains_key(channel_id)
                    &&& *c == old(self).channels()[channel_id]
                    &&& final(self).channels() == old(self).channels().insert(
                        channel_id,
                        *final(c),
                    )
                    &&& old(self).numbered() && (*final(c)).id() == channel_id ==> final(
                        self).numbered()
                },
                None => {
                    &&& !old(self).channels().contains_key(channel_id)
                    &&& final(self).channels() == old(self).channels()
                },
            },
    {
        channel_get_mut(&mut self.dynamic_channels, channel_id)
    }

    /// Removes the channel with the given identifier, and gives it back.
    pub fn remove(&mut self, channel_id: u32) -> (r: Option<DynamicChannel>)
        ensures
            old(self).removed(*final(self), channel_id, r),
            old(self).numbered() ==> final(self).numbered(),
    {
        let r = self.dynamic_channels.remove(&channel_id);
        assert forall|id: u32| #[trigger] self.channels().contains_key(id) implies old(
            self,
        ).channels().contains_key(id) && self.channels()[id] == old(self).channels()[id] by {}
        r
    }
}

/// Identifiers are handed out as one, two, three, without a gap, and never again. A channel that is
/// inserted replaces none.
pub proof fn identifiers_count_up(
    a: DynamicChannelAllocator,
    b: DynamicChannelAllocator,
    id: u32,
    model: ChannelModel,
    r: Option<DynamicChannel>,
)
    ensures
        a.channels() == Map::<u32, DynamicChannel>::empty() && a.next_id() == 1 ==> a.numbered(),
        a.numbered() && a.inserted(b, id, model) ==> {
            &&& id == a.next_id()
            &&& id >= 1
            &&& !a.channels().contains_key(id)
            &&& b.next_id() == id + 1
            &&& b.numbered()
        },
        a.numbered() && a.removed(b, id, r) ==> b.next_id() == a.next_id() && b.numbered(),
        a.numbered() && a.channels().contains_key(id) && b.next_id() == a.next_id() && b.channels()
            == a.channels().insert(id, b.channels()[id]) && b.channels()[id].id() == id
            ==> b.numbered(),
{
}

/// A channel that was just inserted is given back when it is removed, with its state and its
/// processor. The others are as before the insertion; the identifier stays used.
pub proof fn removed_channel_is_the_inserted_one(
    a: DynamicChannelAllocator,
    b: DynamicChannelAllocator,
    c: DynamicChannelAllocator,
    id: u32,
    model: ChannelModel,
    r: Option<DynamicChannel>,
)
    requires
        a.numbered(),
        a.inserted(b, id, model),
        b.removed(c, id, r),
    ensures
        r matches Some(channel) && channel@ == model && channel.id() == id,
        !c.channels().contains_key(id),
        c.channels() == a.channels(),
        c.next_id() == id + 1,
{
    assert(!a.channels().contains_key(id));
    assert(b.channels().contains_key(id));
    assert(c.channels() =~= a.channels());
}

/// Closing tells the processor of an open channel, with the identifier of that channel, and leaves
/// a channel that is not open as it is. A closed channel is not open.
pub proof fn closing_tells_an_open_channel(c: DynamicChannel, after: DynamicChannel)
    requires
        c.closes_into(after),
    ensures
        c@.state == ChannelState::Opened ==> c@.processor.closes(c.id()),
        c@.state != ChannelState::Opened ==> after == c,
        after@.state != ChannelState::Opened,
{
}

/// A channel shows its state, its processor and what has come of a message.
proof fn lemma_channel_is_seen_whole(c: DynamicChannel)
    ensures
        c@.state == c.state,
        c@.processor == c.processor@,
        c@.partial == c.complete_data@,
        c.id() == c.channel_id,
{
}

/// A manager shows every channel, under its identifier.
pub proof fn manager_shows_every_channel(server: DrdynvcServer, id: u32)
    ensures
        server@.channels.contains_key(id) <==> server.allocator().channels().contains_key(id),
        server@.channels.contains_key(id) ==> server@.channels[id]
            == server.allocator().channels()[id]@,
        server@.next_id == server.allocator().next_id(),
{
}

/// The name of the static channel of the manager: "drdynvc", and a zero.
pub const NAME: [u8; 8] = [0x64, 0x72, 0x64, 0x79, 0x6e, 0x76, 0x63, 0];

/// The manager of the dynamic channels, which lives on a static channel of its own.
pub struct DrdynvcServer {
    state: DrdynvcState,
    dynamic_channels: DynamicChannelAllocator,
    type_id_to_channel_id: TypeRegistry,
}

impl View for DrdynvcServer {
    type V = ServerModel;

    closed spec fn view(&self) -> ServerModel {
        ServerModel {
            state: self.state,
            channels: self.dynamic_channels.models(),
            next_id: self.dynamic_channels.next_channel_id,
            types: self.type_id_to_channel_id@,
        }
    }
}

impl DrdynvcServer {
    /// The parts agree with each other.
    pub closed spec fn parts_agree(&self) -> bool {
        self.dynamic_channels.ids_match() && self.type_id_to_channel_id.wf()
    }

    /// What holds of a manager at all times.
    pub open spec fn wf(&self) -> bool {
        self@.wf() && self.parts_agree()
    }

    /// Makes a manager without channels.
    pub fn new() -> (r: DrdynvcServer)
        ensures
            r.wf(),
            r@ == ServerModel::initial(),
    {
        DrdynvcServer {
            state: DrdynvcState::Initial,
            dynamic_channels: DynamicChannelAllocator::new(),
            type_id_to_channel_id: TypeRegistry::new(),
        }
    }

    /// The first channel that waits for its creation: of all of them, or of the graphics channels.
    fn find_pending(&self, graphics: bool) -> (r: Option<u32>)
        ensures
            match r {
                Some(id) => model::is_least(self@.waiting(graphics), id),
                None => forall|id: u32| !self@.waiting(graphics).contains(id),
            },
    {
        let iter = self.dynamic_channels.dynamic_channels.iter();
        let ghost entries = vstd::std_specs::iter::IteratorSpec::remaining(&iter);
        proof {
            lemma_lists(&self.dynamic_channels.dynamic_channels, entries);
        }
        for entry in it: iter
            invariant
                it.seq() == entries,
                lists(entries, self.dynamic_channels.dynamic_channels@),
                forall|i: int|
                    0 <= i < it.index() ==> !self@.waiting(graphics).contains(
                        *(#[trigger] entries[i]).0,
                    ),
        {
            let (id, channel) = entry;
            let ghost k = it.index();
            assert(entries[k] == entry);
            assert(self@.channels.contains_key(*id) && self@.channels[*id] == channel@);
            if channel.state == ChannelState::Pending && (!graphics || str_eq(
                channel.processor.channel_name(),
                model::RDPGFX_CHANNEL_NAME,
            )) {
                assert forall|j: u32| #[trigger] self@.waiting(graphics).contains(j) implies *id
                    <= j by {
                    let i = lists_index(entries, j);
                    assert(entries[i].0 == j);
                }
                return Some(*id);
            }
        }
        assert forall|j: u32| !self@.waiting(graphics).contains(j) by {
            if self@.waiting(graphics).contains(j) {
                let i = lists_index(entries, j);
                assert(entries[i].0 == j);
            }
        }
        None
    }

    /// Create at most one waiting channel at a time.
    ///
    /// Channels are created one after the other, the graphics channel first. It keeps the
    /// identifier that it was registered with.
    fn create_next_pending(&mut self) -> (r: Option<SvcMessage>)
        requires
            old(self).wf(),
        ensures
            final(self).wf(),
            (final(self)@, request_seq(r)) == old(self)@.create_next(),
    {
        let selected = match self.find_pending(true) {
            Some(id) => Some(id),
            None => self.find_pending(false),
        };
        let id: u32 = match selected {
            Some(id) => id,
            None => {
                return None;
            },
        };
        proof {
            if self@.waiting(true).contains(id) {
                model::lemma_least(self@.waiting(true), id);
            } else {
                model::lemma_least(self@.waiting(false), id);
            }
            assert(self@.next_pending() == Some(id));
            model::lemma_with_channel_wf(
                self@,
                id,
                ChannelModel { state: ChannelState::Creation, ..self@.channels[id] },
            );
        }
        let channel = match self.dynamic_channels.get_mut(id) {
            Some(channel) => channel,
            None => {
                return None;
            },
        };
        let channel_name = channel.processor.channel_name().to_owned();
        channel.state = ChannelState::Creation;
        let request = DrdynvcServerPdu::Create(CreateRequestPdu { channel_id: id, channel_name });
        proof {
            lemma_models_insert(
                old(self).dynamic_channels.dynamic_channels@,
                id,
                self.dynamic_channels.dynamic_channels@[id],
            );
        }
        Some(as_svc_msg_with_flag(request))
    }
}

impl DrdynvcServer {
    /// The progress of the capability exchange.
    pub fn state(&self) -> (r: DrdynvcState)
        ensures
            r == self@.state,
    {
        self.state
    }

    /// The progress of a channel, if it exists.
    pub fn channel_state(&self, channel_id: u32) -> (r: Option<ChannelState>)
        ensures
            r == if self@.channels.contains_key(channel_id) {
                Some(self@.channels[channel_id].state)
            } else {
                None
            },
    {
        match self.dynamic_channels.get(channel_id) {
            Some(c) => Some(c.state),
            None => None,
        }
    }

    /// The channel that was registered last for the processor type `T`, if it still exists.
    pub fn get_channel_id_by_type<T: DvcServerProcessor + 'static>(&self) -> (r: Option<u32>)
        requires
            self.wf(),
        ensures
            r == if self@.types.contains_key(processor::type_of::<T>()) {
                Some(self@.types[processor::type_of::<T>()])
            } else {
                None
            },
    {
        self.type_id_to_channel_id.get(&type_id_of_type::<T>())
    }

    /// Whether the channel has completed its creation and is open.
    pub fn is_channel_opened(&self, channel_id: u32) -> (r: bool)
        ensures
            r == self@.is_in_state(channel_id, ChannelState::Opened),
    {
        match self.dynamic_channels.get(channel_id) {
            Some(c) => c.state == ChannelState::Opened,
            None => false,
        }
    }

    /// Whether an identifier is left for one more channel.
    pub fn can_add_channel(&self) -> (r: bool)
        ensures
            r == (self@.next_id < u32::MAX),
    {
        self.dynamic_channels.next_channel_id < u32::MAX
    }

    /// Registers a dynamic channel, to be created once the capabilities are agreed on.
    #[must_use]
    pub fn with_dynamic_channel<T: DvcServerProcessor + 'static>(self, channel: T) -> (r:
        DrdynvcServer)
        requires
            self.wf(),
            self@.next_id < u32::MAX,
        ensures
            r.wf(),
            r@ == self@.registered(ProcessorModel::of(channel)),
    {
        broadcast use crate::processor::lemma_known_processor;

        proof {
            model::lemma_new_channel_wf(
                self@,
                ProcessorModel::of(channel),
                ChannelState::Pending,
            );
        }
        let mut server = self;
        let channel_id: u32 = server.dynamic_channels.insert_channel(
            channel,
            ChannelState::Pending,
        );
        server.type_id_to_channel_id.insert(type_id_of_type::<T>(), channel_id);
        server
    }

    /// The open channel with the given identifier, if its processor is of type `T`.
    pub fn dvc_by_id<T: DvcServerProcessor + 'static>(&self, id: u32) -> (r: Option<
        DynamicChannelRef<'_, T>,
    >)
        ensures
            r is Some <==> self@.is_in_state(id, ChannelState::Opened)
                && self@.channels[id].processor.type_id() == processor::type_of::<T>(),
            r matches Some(c) ==> c.id() == id && processor::shows(
                self@.channels[id].processor,
                c.target(),
            ),
    {
        let channel = match self.dynamic_channels.get(id) {
            Some(channel) => channel,
            None => {
                return None;
            },
        };
        if channel.state != ChannelState::Opened {
            return None;
        }
        match channel.processor.downcast_ref::<T>() {
            Some(p) => Some(DynamicChannelRef::new(id, p)),
            None => None,
        }
    }

    /// The open channel with the given identifier, if its processor is of type `T`.
    pub fn dvc_by_id_mut<T: DvcServerProcessor + 'static>(&mut self, id: u32) -> (r: Option<
        DynamicChannelMut<'_, T>,
    >)
        requires
            old(self).wf(),
        ensures
            r is Some <==> old(self)@.is_in_state(id, ChannelState::Opened) && old(
                self,
            )@.channels[id].processor.type_id() == processor::type_of::<T>(),
            r matches Some(c) ==> {
                &&& c.channel_id == id
                &&& old(self)@.channels[id].processor == ProcessorModel::of(*c.processor)
                &&& final(self)@ == old(self)@.with_channel(
                    id,
                    ChannelModel {
                        processor: ProcessorModel::of(*final(c.processor)),
                        ..old(self)@.channels[id]
                    },
                )
            },
            r is None ==> final(self)@ == old(self)@,
            final(self).wf(),
    {
        broadcast use {crate::processor::lemma_known_processor, lemma_models_insert};

        proof {
            assert forall|c: ChannelModel|
                self@.channels.contains_key(id) && c.processor.type_id()
                    == self@.channels[id].processor.type_id() implies (ServerModel {
                channels: #[trigger] self@.channels.insert(id, c),
                ..self@
            }).wf() by {
                model::lemma_with_channel_wf(self@, id, c);
            }
        }
        let channel = match self.dynamic_channels.get_mut(id) {
            Some(channel) => channel,
            None => {
                return None;
            },
        };
        if channel.state != ChannelState::Opened {
            return None;
        }
        match channel.processor.downcast_mut::<T>() {
            Some(p) => Some(DynamicChannelMut { channel_id: id, processor: p }),
            None => None,
        }
    }

    /// Adds a channel and returns the request that creates it, to be sent to the client.
    pub fn create_channel<T: DvcServerProcessor + 'static>(&mut self, channel: T) -> (r: Result<
        SvcMessage,
        PduError,
    >)
        requires
            old(self).wf(),
            old(self)@.next_id < u32::MAX,
        ensures
            final(self).wf(),
            final(self)@ == old(self)@.with_new_channel(
                ProcessorModel::of(channel),
                ChannelState::Creation,
            ),
            r == Ok::<SvcMessage, PduError>(
                model::create_request(old(self)@.next_id, channel.name()),
            ),
    {
        proof {
            model::lemma_new_channel_wf(
                self@,
                ProcessorModel::of(channel),
                ChannelState::Creation,
            );
        }
        let channel_name = channel.channel_name().to_owned();
        let channel_id: u32 = self.dynamic_channels.insert_channel(
            channel,
            ChannelState::Creation,
        );
        Ok(
            as_svc_msg_with_flag(
                DrdynvcServerPdu::Create(CreateRequestPdu { channel_id, channel_name }),
            ),
        )
    }

    /// The channels by their identifiers, with their processors.
    pub closed spec fn allocator(&self) -> DynamicChannelAllocator {
        self.dynamic_channels
    }

    /// Removes a channel, and its entry in the registry if that leads to it. The channel is given
    /// back as it was: nothing is told.
    pub fn remove_by_channel_id(&mut self, id: u32) -> (r: Option<DynamicChannel>)
        requires
            old(self).wf(),
        ensures
            final(self).wf(),
            final(self)@ == old(self)@.without_channel(id),
            r is Some <==> old(self)@.channels.contains_key(id),
            r matches Some(c) ==> c == old(self).allocator().channels()[id] && c@ == old(
                self,
            )@.channels[id] && c.id() == id,
            old(self).allocator().removed(final(self).allocator(), id, r),
    {
        proof {
            model::lemma_without_channel_wf(self@, id);
            lemma_models_remove(self.dynamic_channels.dynamic_channels@, id);
        }
        match self.dynamic_channels.remove(id) {
            Some(channel) => {
                let type_id = channel.processor_type_id();
                if let Some(registered) = self.type_id_to_channel_id.get(&type_id) {
                    if registered == id {
                        self.type_id_to_channel_id.remove(&type_id);
                    }
                }
                Some(channel)
            },
            None => {
                assert(self@ =~= old(self)@);
                None
            },
        }
    }

    /// Removes a channel and closes it: the processor of an open channel is told, and that of any
    /// other is not. The closed channel is given back.
    fn close_by_channel_id(&mut self, id: u32) -> (r: Option<DynamicChannel>)
        requires
            old(self).wf(),
        ensures
            final(self).wf(),
            final(self)@ == old(self)@.without_channel(id),
            r is Some <==> old(self)@.channels.contains_key(id),
            r matches Some(c) ==> old(self).allocator().channels()[id].closes_into(c),
            old(self)@.is_in_state(id, ChannelState::Opened) ==> old(
                self,
            )@.channels[id].processor.closes(id),
    {
        match self.remove_by_channel_id(id) {
            Some(mut channel) => {
                channel.close();
                Some(channel)
            },
            None => None,
        }
    }

    /// Removes a channel and returns the notice of it, to be sent to the client. The processor of
    /// an open channel is told.
    pub fn close_channel(&mut self, channel_id: u32) -> (r: Option<SvcMessage>)
        requires
            old(self).wf(),
        ensures
            final(self).wf(),
            final(self)@ == old(self)@.without_channel(channel_id),
            r == if old(self)@.channels.contains_key(channel_id) {
                Some(model::close_notice(channel_id))
            } else {
                None
            },
            old(self)@.is_in_state(channel_id, ChannelState::Opened) ==> old(
                self,
            )@.channels[channel_id].processor.closes(channel_id),
    {
        match self.close_by_channel_id(channel_id) {
            Some(_) => Some(
                as_svc_msg_with_flag(DrdynvcServerPdu::Close(ClosePdu { channel_id })),
            ),
            None => None,
        }
    }
}

impl Default for DrdynvcServer {
    fn default() -> (r: DrdynvcServer)
        ensures
            r.wf(),
            r@ == ServerModel::initial(),
    {
        DrdynvcServer::new()
    }
}

/// Appends the name of a channel's state.
fn push_state(out: &mut String, state: ChannelState)
    ensures
        final(out)@ == old(out)@ + model::state_text(state),
{
    match state {
        ChannelState::Pending => {
            out.append("Pending");
        },
        ChannelState::Creation => {
            out.append("Creation");
        },
        ChannelState::Opened => {
            out.append("Opened");
        },
        ChannelState::CreationFailed(status) => {
            out.append("CreationFailed(");
            push_decimal(out, status as u64);
            out.append(")");
            assert(out@ =~= old(out)@ + model::state_text(state));
        },
    }
}

impl DrdynvcServer {
    /// The text that shows the manager: its channels with their identifiers, names and states.
    pub fn debug_text(&self) -> (r: String)
        ensures
            r@ == model::server_text(self@),
    {
        let mut out = String::new();
        out.append("DrdynvcServer([");
        let ghost head = out@;
        assert(head =~= "DrdynvcServer(["@);
        let iter = self.dynamic_channels.dynamic_channels.iter();
        let ghost entries = vstd::std_specs::iter::IteratorSpec::remaining(&iter);
        proof {
            lemma_lists(&self.dynamic_channels.dynamic_channels, entries);
        }
        let ghost channels = self@.channels;
        let mut first = true;
        let ghost mut bound: nat = 0;
        assert(out@ =~= head + model::channels_text(channels, 0));
        for entry in it: iter
            invariant
                it.seq() == entries,
                channels == self@.channels,
                lists(entries, self.dynamic_channels.dynamic_channels@),
                first == (it.index() == 0),
                bound == if it.index() == 0 {
                    0
                } else {
                    *entries[it.index() - 1].0 + 1
                },
                out@ == head + model::channels_text(channels, bound),
        {
            let (id, channel) = entry;
            let ghost k = it.index();
            proof {
                assert(entries[k] == entry);
                assert(channels.contains_key(*id) && channels[*id] == channel@);
                assert forall|other: u32| bound <= other < *id implies !(
                #[trigger] channels.contains_key(other)) by {
                    if channels.contains_key(other) {
                        let i = lists_index(entries, other);
                        assert(entries[i].0 == other);
                        if k > 0 {
                            assert(*entries[k - 1].0 < *entries[k].0);
                        }
                    }
                }
                model::lemma_text_gap(channels, bound, *id as nat);
                if k > 0 {
                    assert(channels.contains_key(*entries[k - 1].0) && *entries[k - 1].0 < *id);
                }
            }
            if !first {
                out.append(", ");
            }
            first = false;
            push_decimal(&mut out, *id as u64);
            out.append(":");
            out.append(channel.processor.channel_name());
            out.append(" (");
            push_state(&mut out, channel.state);
            out.append(")");
            proof {
                bound = (*id + 1) as nat;
                assert(out@ =~= head + model::channels_text(channels, bound));
            }
        }
        proof {
            assert forall|other: u32| bound <= other < u32::MAX + 1 implies !(
            #[trigger] channels.contains_key(other)) by {
                if channels.contains_key(other) {
                    let i = lists_index(entries, other);
                    assert(entries[i].0 == other);
                    assert(*entries[entries.len() - 1].0 >= other);
                }
            }
            model::lemma_text_gap(channels, bound, (u32::MAX + 1) as nat);
        }
        out.append("])");
        out
    }
}

/// What a processor did, as contracts see it.
spec fn outcome_of(
    processor: ProcessorModel,
    answer: Result<Vec<DvcMessage>, PduError>,
) -> Outcome {
    Outcome { processor, answer: processor::answer_view(answer) }
}

/// Turns a processor's answer into the messages that go to the client.
pub fn send_answer(channel_id: u32, answer: Result<Vec<DvcMessage>, PduError>) -> (r: Result<
    Vec<SvcMessage>,
    PduError,
>)
    ensures
        error::result_view(r) == model::sent(channel_id, processor::answer_view(answer)),
{
    match answer {
        Ok(messages) => match encode_dvc_messages(channel_id, messages, show_protocol_flag()) {
            Ok(sent) => Ok(sent),
            Err(e) => Err(PduError::Encode(e)),
        },
        Err(e) => Err(e),
    }
}

impl DrdynvcServer {
    /// The name of the static channel of the manager.
    pub fn channel_name(&self) -> (r: ChannelName)
        ensures
            r == svc::static_channel_name(NAME@),
    {
        channel_name_from_static(&NAME)
    }

    /// Starts the capability exchange.
    pub fn start(&mut self) -> (r: Result<Vec<SvcMessage>, PduError>)
        requires
            old(self).wf(),
        ensures
            final(self).wf(),
            (final(self)@, error::result_view(r)) == old(self)@.start(),
    {
        if self.state != DrdynvcState::Initial {
            return Err(PduError::AlreadyStarted);
        }
        let request = DrdynvcServerPdu::Capabilities(CapabilitiesRequestPdu::new(CapsVersion::V2));
        let message = as_svc_msg_with_flag(request);
        self.state = DrdynvcState::CapabilitiesSent;
        let mut messages: Vec<SvcMessage> = Vec::new();
        messages.push(message);
        assert(messages@ =~= seq![model::capability_request()]);
        Ok(messages)
    }

    /// Appends the request for the next waiting channel, if there is one.
    fn push_next_pending(&mut self, messages: &mut Vec<SvcMessage>)
        requires
            old(self).wf(),
        ensures
            final(self).wf(),
            final(self)@ == old(self)@.create_next().0,
            final(messages)@ == old(messages)@ + old(self)@.create_next().1,
    {
        if let Some(request) = self.create_next_pending() {
            messages.push(request);
        }
    }

    /// Takes a capability response.
    pub fn handle_capabilities(&mut self, version: CapsVersion) -> (r: Result<
        Vec<SvcMessage>,
        PduError,
    >)
        requires
            old(self).wf(),
        ensures
            final(self).wf(),
            (final(self)@, error::result_view(r)) == old(self)@.on_capabilities(version),
    {
        if self.state != DrdynvcState::CapabilitiesSent {
            return Err(PduError::UnexpectedCapabilityResponse);
        }
        if version == CapsVersion::V1 {
            self.state = DrdynvcState::Failed;
            return Err(PduError::UnsupportedCapabilityVersion);
        }
        self.state = DrdynvcState::Ready;
        let mut messages: Vec<SvcMessage> = Vec::new();
        self.push_next_pending(&mut messages);
        Ok(messages)
    }

    /// The channel with the given identifier.
    fn channel_by_id(&mut self, id: u32) -> (r: Result<&mut DynamicChannel, DecodeError>)
        ensures
            final(self).state == old(self).state,
            final(self).type_id_to_channel_id == old(self).type_id_to_channel_id,
            final(self).dynamic_channels.next_channel_id == old(
                self,
            ).dynamic_channels.next_channel_id,
            match r {
                Ok(c) => {
                    &&& old(self).dynamic_channels.dynamic_channels@.contains_key(id)
                    &&& *c == old(self).dynamic_channels.dynamic_channels@[id]
                    &&& final(self).dynamic_channels.dynamic_channels@ == old(
                        self,
                    ).dynamic_channels.dynamic_channels@.insert(id, *final(c))
                },
                Err(e) => {
                    &&& !old(self).dynamic_channels.dynamic_channels@.contains_key(id)
                    &&& final(self).dynamic_channels.dynamic_channels@ == old(
                        self,
                    ).dynamic_channels.dynamic_channels@
                    &&& e == DecodeError::InvalidChannelId
                },
            },
    {
        match self.dynamic_channels.get_mut(id) {
            Some(c) => Ok(c),
            None => Err(DecodeError::InvalidChannelId),
        }
    }

    /// Takes the answer of a processor that was told of the creation of its channel, and goes on
    /// to the next waiting channel.
    pub fn handle_started(
        &mut self,
        channel_id: u32,
        answer: Result<Vec<DvcMessage>, PduError>,
    ) -> (r: Result<Vec<SvcMessage>, PduError>)
        requires
            old(self).wf(),
            old(self)@.state == DrdynvcState::Ready,
        ensures
            final(self).wf(),
            (final(self)@, error::result_view(r)) == old(self)@.on_started(
                channel_id,
                processor::answer_view(answer),
            ),
    {
        let mut messages = send_answer(channel_id, answer)?;
        self.push_next_pending(&mut messages);
        Ok(messages)
    }

    /// Takes a create response.
    pub fn handle_create_response(&mut self, response: CreateResponsePdu) -> (r: Result<
        Vec<SvcMessage>,
        PduError,
    >)
        requires
            old(self).wf(),
        ensures
            final(self).wf(),
            exists|outcome: Outcome|
                {
                    &&& old(self)@.allows_on_message(
                        DrdynvcClientPdu::Create(response)@,
                        outcome,
                    )
                    &&& (final(self)@, error::result_view(r)) == #[trigger] old(
                        self,
                    )@.on_create_response(response.channel_id, response.creation_status, outcome)
                },
    {
        broadcast use lemma_models_insert;

        let id: u32 = response.channel_id;
        let ghost untold = self@.on_create_response(
            id,
            response.creation_status,
            arbitrary::<Outcome>(),
        );
        if self.state != DrdynvcState::Ready {
            return Err(PduError::UnexpectedCreateResponse);
        }
        let channel = match self.channel_by_id(id) {
            Ok(channel) => channel,
            Err(e) => {
                return Err(PduError::Decode(e));
            },
        };
        if channel.state != ChannelState::Creation {
            return Err(PduError::InvalidChannelState);
        }
        if response.creation_status == CREATION_STATUS_OK {
            channel.state = ChannelState::Opened;
            let answer = channel.processor.start(id);
            let ghost outcome = outcome_of(channel.processor@, answer);
            proof {
                let opened = ChannelModel {
                    state: ChannelState::Opened,
                    processor: outcome.processor,
                    ..old(self)@.channels[id]
                };
                model::lemma_with_channel_wf(old(self)@, id, opened);
                assert(self@ =~= old(self)@.with_channel(id, opened));
                let told = old(self)@.on_create_response(id, response.creation_status, outcome);
            }
            self.handle_started(id, answer)
        } else {
            channel.state = ChannelState::CreationFailed(response.creation_status);
            proof {
                let failed = ChannelModel {
                    state: ChannelState::CreationFailed(response.creation_status),
                    ..old(self)@.channels[id]
                };
                model::lemma_with_channel_wf(old(self)@, id, failed);
                assert(self@ =~= old(self)@.with_channel(id, failed));
            }
            let mut messages: Vec<SvcMessage> = Vec::new();
            self.push_next_pending(&mut messages);
            Ok(messages)
        }
    }

    /// Takes a block of data, and returns the message that it completes, if any. That one is for
    /// the processor of the channel.
    pub fn receive_data(&mut self, block: DrdynvcDataPdu) -> (r: Result<Option<Vec<u8>>, PduError>)
        requires
            old(self).wf(),
        ensures
            final(self).wf(),
            (final(self)@, message_result(r)) == old(self)@.receive(block@),
    {
        broadcast use lemma_models_insert;

        let id: u32 = block.channel_id();
        let channel = match self.channel_by_id(id) {
            Ok(channel) => channel,
            Err(e) => {
                return Err(PduError::Decode(e));
            },
        };
        if channel.state != ChannelState::Opened {
            assert(self@ =~= old(self)@);
            return Err(PduError::InvalidChannelState);
        }
        let received = channel.complete_data.process_data(block);
        proof {
            let c = ChannelModel {
                partial: old(self)@.channels[id].partial.after(block@).0,
                ..old(self)@.channels[id]
            };
            model::lemma_with_channel_wf(old(self)@, id, c);
            assert(self@ =~= old(self)@.with_channel(id, c));
        }
        match received {
            Ok(message) => Ok(message),
            Err(e) => Err(PduError::Decode(e)),
        }
    }

    /// Takes a block of data. A message that it completes goes to the processor of the channel.
    pub fn handle_data(&mut self, block: DrdynvcDataPdu) -> (r: Result<Vec<SvcMessage>, PduError>)
        requires
            old(self).wf(),
        ensures
            final(self).wf(),
            exists|outcome: Outcome|
                {
                    &&& old(self)@.allows_on_message(DrdynvcClientPdu::Data(block)@, outcome)
                    &&& (final(self)@, error::result_view(r)) == #[trigger] old(self)@.on_data(
                        block@,
                        outcome,
                    )
                },
    {
        broadcast use lemma_models_insert;

        let id: u32 = block.channel_id();
        let ghost untold = self@.on_data(block@, arbitrary::<Outcome>());
        let message = match self.receive_data(block)? {
            Some(message) => message,
            None => {
                return Ok(Vec::new());
            },
        };
        let ghost received = self@;
        assert(received.channels.contains_key(id));
        let channel = match self.channel_by_id(id) {
            Ok(channel) => channel,
            Err(e) => {
                return Err(PduError::Decode(e));
            },
        };
        let answer = channel.processor.process(id, message.as_slice());
        proof {
            let outcome = outcome_of(channel.processor@, answer);
            let told = old(self)@.on_data(block@, outcome);
            let c = ChannelModel { processor: outcome.processor, ..received.channels[id] };
            model::lemma_with_channel_wf(received, id, c);
            assert(self@ =~= received.with_channel(id, c));
        }
        send_answer(id, answer)
    }

    /// Takes a message of the client.
    pub fn process(&mut self, payload: &[u8]) -> (r: Result<Vec<SvcMessage>, PduError>)
        requires
            old(self).wf(),
        ensures
            final(self).wf(),
            exists|outcome: Outcome|
                {
                    &&& old(self)@.allows(payload@, outcome)
                    &&& (final(self)@, error::result_view(r)) == #[trigger] old(self)@.on_payload(
                        payload@,
                        outcome,
                    )
                },
            pdu::parse_client_pdu(payload@) matches Ok(ClientModel::Close { channel_id }) ==> (old(
                self,
            )@.is_in_state(channel_id, ChannelState::Opened) ==> old(
                self,
            )@.channels[channel_id].processor.closes(channel_id)),
    {
        let ghost untold = self@.on_payload(payload@, arbitrary::<Outcome>());
        let pdu = match decode_dvc_message(payload) {
            Ok(pdu) => pdu,
            Err(e) => {
                return Err(PduError::Decode(e));
            },
        };
        match pdu {
            DrdynvcClientPdu::Capabilities(response) => self.handle_capabilities(response.version),
            DrdynvcClientPdu::Create(response) => {
                let r = self.handle_create_response(response);
                proof {
                    let (id, status) = (response.channel_id, response.creation_status);
                    let outcome = choose|outcome: Outcome|
                        {
                            &&& old(self)@.allows_on_message(pdu@, outcome)
                            &&& (self@, error::result_view(r)) == #[trigger] old(
                                self,
                            )@.on_create_response(id, status, outcome)
                        };
                    let told = old(self)@.on_payload(payload@, outcome);
                }
                r
            },
            DrdynvcClientPdu::Close(notice) => {
                let _ = self.close_by_channel_id(notice.channel_id);
                Ok(Vec::new())
            },
            DrdynvcClientPdu::Data(block) => {
                let r = self.handle_data(block);
                proof {
                    let outcome = choose|outcome: Outcome|
                        {
                            &&& old(self)@.allows_on_message(pdu@, outcome)
                            &&& (self@, error::result_view(r)) == #[trigger] old(self)@.on_data(
                                block@,
                                outcome,
                            )
                        };
                    let told = old(self)@.on_payload(payload@, outcome);
                }
                r
            },
        }
    }
}

/// A received message, if there is one, by its bytes.
pub open spec fn message_result(r: Result<Option<Vec<u8>>, PduError>) -> Result<
    Option<Seq<u8>>,
    PduError,
> {
    match r {
        Ok(m) => Ok(complete_data::message_view(m)),
        Err(e) => Err(e),
    }
}

/// A request, if there is one, as a list.
pub open spec fn request_seq(request: Option<SvcMessage>) -> Seq<SvcMessage> {
    match request {
        Some(m) => seq![m],
        None => seq![],
    }
}

} // verus!
