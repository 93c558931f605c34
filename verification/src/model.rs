//! What the channel manager does, as a transition system.
//!
//! The state is a map from channel identifiers to channels, beside the progress of the capability
//! exchange and the registry of processor types. Each message of the client takes one state to the
//! next, with an answer. What a channel's processor does is an argument.
use vstd::prelude::*;
use core::any::TypeId;
use ironrdp_svc::SvcMessage;

use crate::complete_data::PartialMessage;
use crate::error::{DecodeError, PduError};
use crate::pdu;
use crate::pdu::{CapsVersion, ClientModel, DataModel, ServerMessageModel, CREATION_STATUS_OK};
use crate::processor::{Answer, ProcessorModel};
use crate::svc;
use crate::text;

verus! {

/// The progress of one dynamic channel.
#[derive(Debug, Clone, Copy, PartialEq, Eq, Structural)]
pub enum ChannelState {
    /// The channel is registered, and the client has not heard of it.
    Pending,
    /// The create request has been sent, and its answer has not come.
    Creation,
    /// The client has created the channel.
    Opened,
    /// The client has refused the channel, with the given status.
    CreationFailed(u32),
}

/// The progress of the capability exchange.
#[derive(Debug, Clone, Copy, PartialEq, Eq, Structural)]
pub enum DrdynvcState {
    /// Nothing has been sent.
    Initial,
    /// The capability request has been sent, and its answer has not come.
    CapabilitiesSent,
    /// The capabilities are agreed on.
    Ready,
    /// The client has answered with a version that is not accepted.
    Failed,
}

/// One dynamic channel.
#[verifier::ext_equal]
pub struct ChannelModel {
    pub state: ChannelState,
    pub processor: ProcessorModel,
    /// What has come of a message in several blocks.
    pub partial: PartialMessage,
}

/// The channel manager.
#[verifier::ext_equal]
pub struct ServerModel {
    pub state: DrdynvcState,
    /// The dynamic channels by their identifiers.
    pub channels: Map<u32, ChannelModel>,
    /// The identifier that the next channel gets.
    pub next_id: u32,
    /// The channel that was registered last for each processor type.
    pub types: Map<TypeId, u32>,
}

/// What a processor became, and what it answered.
pub struct Outcome {
    pub processor: ProcessorModel,
    pub answer: Answer,
}

/// A state and an answer of the channel manager.
pub type Step = (ServerModel, Result<Seq<SvcMessage>, PduError>);

/// The name of the graphics channel.
pub const RDPGFX_CHANNEL_NAME: &'static str = "Microsoft::Windows::RDS::Graphics";

/// The name of the graphics channel, which is created before the others.
pub open spec fn graphics_name() -> Seq<char> {
    RDPGFX_CHANNEL_NAME@
}

/// The least element of a set.
pub open spec fn least(s: Set<u32>) -> u32 {
    choose|i: u32| is_least(s, i)
}

/// Whether `i` is the least element of a set.
pub open spec fn is_least(s: Set<u32>, i: u32) -> bool {
    s.contains(i) && forall|j: u32| #[trigger] s.contains(j) ==> i <= j
}

/// The create request for a channel.
pub open spec fn create_request(channel_id: u32, name: Seq<char>) -> SvcMessage {
    svc::svc_message_of(ServerMessageModel::Create { channel_id, name })
}

/// The notice that a channel is closed.
pub open spec fn close_notice(channel_id: u32) -> SvcMessage {
    svc::svc_message_of(ServerMessageModel::Close { channel_id })
}

/// The capability request.
pub open spec fn capability_request() -> SvcMessage {
    svc::svc_message_of(
        ServerMessageModel::Capabilities { version: CapsVersion::V2, charges: seq![0, 0, 0, 0] },
    )
}

/// What goes to the client of a processor's answer.
pub open spec fn sent(channel_id: u32, answer: Answer) -> Result<Seq<SvcMessage>, PduError> {
    match answer {
        Ok(messages) => match svc::encoded(channel_id, messages, svc::show_protocol()) {
            Ok(encoded) => Ok(encoded),
            Err(e) => Err(PduError::Encode(e)),
        },
        Err(e) => Err(e),
    }
}

impl ServerModel {
    /// The manager before anything was registered or sent.
    pub open spec fn initial() -> ServerModel {
        ServerModel {
            state: DrdynvcState::Initial,
            channels: Map::empty(),
            next_id: 1,
            types: Map::empty(),
        }
    }

    /// What holds of the manager at all times: identifiers count up from one, and the registry
    /// leads to existing channels of the type that it names.
    pub open spec fn wf(self) -> bool {
        &&& self.next_id >= 1
        &&& forall|id: u32| #[trigger]
            self.channels.contains_key(id) ==> 1 <= id < self.next_id
        &&& forall|t: TypeId| #[trigger]
            self.types.contains_key(t) ==> self.channels.contains_key(self.types[t])
                && self.channels[self.types[t]].processor.type_id() == t
    }

    /// Nothing changes, and the answer is an error.
    pub open spec fn refused(self, e: PduError) -> Step {
        (self, Err(e))
    }

    /// The manager with one channel replaced.
    pub open spec fn with_channel(self, id: u32, channel: ChannelModel) -> ServerModel {
        ServerModel { channels: self.channels.insert(id, channel), ..self }
    }

    /// The manager with one channel in another state.
    pub open spec fn with_channel_state(self, id: u32, state: ChannelState) -> ServerModel {
        self.with_channel(id, ChannelModel { state, ..self.channels[id] })
    }

    /// The manager with one more channel, under the next identifier.
    pub open spec fn with_new_channel(
        self,
        processor: ProcessorModel,
        state: ChannelState,
    ) -> ServerModel {
        ServerModel {
            channels: self.channels.insert(
                self.next_id,
                ChannelModel { state, processor, partial: PartialMessage::idle() },
            ),
            next_id: (self.next_id + 1) as u32,
            ..self
        }
    }

    /// The manager with a channel that waits for its creation, and that is found by its type.
    pub open spec fn registered(self, processor: ProcessorModel) -> ServerModel {
        ServerModel {
            types: self.types.insert(processor.type_id(), self.next_id),
            ..self.with_new_channel(processor, ChannelState::Pending)
        }
    }

    /// Whether a channel exists and is in the given state.
    pub open spec fn is_in_state(self, id: u32, state: ChannelState) -> bool {
        self.channels.contains_key(id) && self.channels[id].state == state
    }

    /// Whether a channel waits for its creation.
    pub open spec fn is_pending(self, id: u32) -> bool {
        self.is_in_state(id, ChannelState::Pending)
    }

    /// The channels that wait for their creation: all of them, or the graphics channels.
    pub open spec fn waiting(self, graphics: bool) -> Set<u32> {
        Set::new(
            |id: u32|
                self.is_pending(id) && (graphics ==> self.channels[id].processor.name()
                    == graphics_name()),
        )
    }

    /// The channel to create next: a graphics channel before any other, and among equals the one
    /// that was registered first.
    pub open spec fn next_pending(self) -> Option<u32> {
        if exists|id: u32| self.waiting(true).contains(id) {
            Some(least(self.waiting(true)))
        } else if exists|id: u32| self.waiting(false).contains(id) {
            Some(least(self.waiting(false)))
        } else {
            None
        }
    }

    /// Asks the client to create one waiting channel, if there is one.
    pub open spec fn create_next(self) -> (ServerModel, Seq<SvcMessage>) {
        match self.next_pending() {
            Some(id) => (
                self.with_channel_state(id, ChannelState::Creation),
                seq![create_request(id, self.channels[id].processor.name())],
            ),
            None => (self, seq![]),
        }
    }

    /// Starts the capability exchange.
    pub open spec fn start(self) -> Step {
        if self.state == DrdynvcState::Initial {
            (
                ServerModel { state: DrdynvcState::CapabilitiesSent, ..self },
                Ok(seq![capability_request()]),
            )
        } else {
            self.refused(PduError::AlreadyStarted)
        }
    }

    /// Takes a capability response.
    pub open spec fn on_capabilities(self, version: CapsVersion) -> Step {
        if self.state != DrdynvcState::CapabilitiesSent {
            self.refused(PduError::UnexpectedCapabilityResponse)
        } else if version == CapsVersion::V1 {
            (
                ServerModel { state: DrdynvcState::Failed, ..self },
                Err(PduError::UnsupportedCapabilityVersion),
            )
        } else {
            let (next, requests) = ServerModel { state: DrdynvcState::Ready, ..self }.create_next();
            (next, Ok(requests))
        }
    }

    /// Why a create response is refused, if it is.
    pub open spec fn create_response_error(self, id: u32) -> Option<PduError> {
        if self.state != DrdynvcState::Ready {
            Some(PduError::UnexpectedCreateResponse)
        } else if !self.channels.contains_key(id) {
            Some(PduError::Decode(DecodeError::InvalidChannelId))
        } else if self.channels[id].state != ChannelState::Creation {
            Some(PduError::InvalidChannelState)
        } else {
            None
        }
    }

    /// Takes the answer of a processor that was told of the creation of its channel.
    pub open spec fn on_started(self, id: u32, answer: Answer) -> Step {
        match sent(id, answer) {
            Ok(messages) => {
                let (next, requests) = self.create_next();
                (next, Ok(messages + requests))
            },
            Err(e) => (self, Err(e)),
        }
    }

    /// Takes a create response that is not refused and reports success. The processor did what
    /// `outcome` says when it was told.
    pub open spec fn on_created(self, id: u32, outcome: Outcome) -> Step {
        let opened = self.with_channel(
            id,
            ChannelModel {
                state: ChannelState::Opened,
                processor: outcome.processor,
                ..self.channels[id]
            },
        );
        opened.on_started(id, outcome.answer)
    }

    /// Takes a create response that is not refused and reports a failure.
    pub open spec fn on_creation_failed(self, id: u32, status: u32) -> Step {
        let (next, requests) = self.with_channel_state(
            id,
            ChannelState::CreationFailed(status),
        ).create_next();
        (next, Ok(requests))
    }

    /// Takes a create response.
    pub open spec fn on_create_response(self, id: u32, status: u32, outcome: Outcome) -> Step {
        match self.create_response_error(id) {
            Some(e) => self.refused(e),
            None => if status == CREATION_STATUS_OK {
                self.on_created(id, outcome)
            } else {
                self.on_creation_failed(id, status)
            },
        }
    }

    /// The manager without a channel, which the registry does not lead to any more.
    pub open spec fn without_channel(self, id: u32) -> ServerModel {
        if self.channels.contains_key(id) {
            let type_id = self.channels[id].processor.type_id();
            ServerModel {
                channels: self.channels.remove(id),
                types: if self.types.contains_key(type_id) && self.types[type_id] == id {
                    self.types.remove(type_id)
                } else {
                    self.types
                },
                ..self
            }
        } else {
            self
        }
    }

    /// Why a block of data is refused, if it is.
    pub open spec fn data_error(self, id: u32) -> Option<PduError> {
        if !self.channels.contains_key(id) {
            Some(PduError::Decode(DecodeError::InvalidChannelId))
        } else if self.channels[id].state != ChannelState::Opened {
            Some(PduError::InvalidChannelState)
        } else {
            None
        }
    }

    /// Takes a block of data up to the point where a complete message goes to the processor.
    pub open spec fn receive(self, block: DataModel) -> (
        ServerModel,
        Result<Option<Seq<u8>>, PduError>,
    ) {
        let id = block.channel();
        match self.data_error(id) {
            Some(e) => (self, Err(e)),
            None => {
                let (partial, received) = self.channels[id].partial.after(block);
                (
                    self.with_channel(id, ChannelModel { partial, ..self.channels[id] }),
                    match received {
                        Ok(message) => Ok(message),
                        Err(e) => Err(PduError::Decode(e)),
                    },
                )
            },
        }
    }

    /// Takes what a processor did when it was handed a complete message.
    pub open spec fn on_processed(self, id: u32, outcome: Outcome) -> Step {
        (
            self.with_channel(
                id,
                ChannelModel { processor: outcome.processor, ..self.channels[id] },
            ),
            sent(id, outcome.answer),
        )
    }

    /// Takes a block of data. The processor did what `outcome` says if it was handed a message.
    pub open spec fn on_data(self, block: DataModel, outcome: Outcome) -> Step {
        let (next, received) = self.receive(block);
        match received {
            Ok(Some(message)) => next.on_processed(block.channel(), outcome),
            Ok(None) => (next, Ok(seq![])),
            Err(e) => (next, Err(e)),
        }
    }

    /// Takes a message of the client.
    pub open spec fn on_message(self, message: ClientModel, outcome: Outcome) -> Step {
        match message {
            ClientModel::Capabilities { version } => self.on_capabilities(version),
            ClientModel::Create { channel_id, status } => self.on_create_response(
                channel_id,
                status,
                outcome,
            ),
            ClientModel::Close { channel_id } => (self.without_channel(channel_id), Ok(seq![])),
            ClientModel::Data(block) => self.on_data(block, outcome),
        }
    }

    /// Takes the bytes of a message of the client.
    pub open spec fn on_payload(self, payload: Seq<u8>, outcome: Outcome) -> Step {
        match pdu::parse_client_pdu(payload) {
            Ok(message) => self.on_message(message, outcome),
            Err(e) => self.refused(PduError::Decode(e)),
        }
    }

    /// Whether a processor may do what `outcome` says on a message of the client: it is told of a
    /// successful creation of its channel, or handed a complete message, or neither.
    pub open spec fn allows_on_message(self, message: ClientModel, outcome: Outcome) -> bool {
        match message {
            ClientModel::Create { channel_id, status } => {
                self.create_response_error(channel_id) is None && status == CREATION_STATUS_OK
                    ==> self.channels[channel_id].processor.starts(
                    channel_id,
                    outcome.processor,
                    outcome.answer,
                )
            },
            ClientModel::Data(block) => {
                self.receive(block).1 matches Ok(Some(data))
                    ==> self.channels[block.channel()].processor.processes(
                    block.channel(),
                    data,
                    outcome.processor,
                    outcome.answer,
                )
            },
            _ => true,
        }
    }

    /// Whether a processor may do what `outcome` says on the bytes of a message of the client.
    pub open spec fn allows(self, payload: Seq<u8>, outcome: Outcome) -> bool {
        pdu::parse_client_pdu(payload) matches Ok(message) ==> self.allows_on_message(
            message,
            outcome,
        )
    }
}

/// The name of a channel's state.
pub open spec fn state_text(state: ChannelState) -> Seq<char> {
    match state {
        ChannelState::Pending => "Pending"@,
        ChannelState::Creation => "Creation"@,
        ChannelState::Opened => "Opened"@,
        ChannelState::CreationFailed(status) => "CreationFailed("@ + text::decimal(status as nat)
            + ")"@,
    }
}

/// A channel's identifier, name and state.
pub open spec fn channel_text(id: u32, channel: ChannelModel) -> Seq<char> {
    text::decimal(id as nat) + ":"@ + channel.processor.name() + " ("@ + state_text(channel.state)
        + ")"@
}

/// The texts of the channels with identifiers below `bound`, in ascending order, with commas
/// between them.
pub open spec fn channels_text(channels: Map<u32, ChannelModel>, bound: nat) -> Seq<char>
    decreases bound,
{
    if bound == 0 {
        seq![]
    } else {
        let id = (bound - 1) as u32;
        let before = channels_text(channels, (bound - 1) as nat);
        if !channels.contains_key(id) {
            before
        } else if exists|other: u32| #[trigger] channels.contains_key(other) && other < id {
            before + ", "@ + channel_text(id, channels[id])
        } else {
            before + channel_text(id, channels[id])
        }
    }
}

/// The text that shows the manager.
pub open spec fn server_text(s: ServerModel) -> Seq<char> {
    "DrdynvcServer(["@ + channels_text(s.channels, (u32::MAX + 1) as nat) + "])"@
}

/// Identifiers that no channel has leave no trace in the text.
pub proof fn lemma_text_gap(channels: Map<u32, ChannelModel>, from: nat, to: nat)
    requires
        from <= to <= u32::MAX + 1,
        forall|id: u32| from <= id < to ==> !(#[trigger] channels.contains_key(id)),
    ensures
        channels_text(channels, to) == channels_text(channels, from),
    decreases to - from,
{
    if from < to {
        lemma_text_gap(channels, from, (to - 1) as nat);
        assert(!channels.contains_key((to - 1) as u32));
    }
}

/// A channel that keeps the type of its processor can be replaced.
pub proof fn lemma_with_channel_wf(s: ServerModel, id: u32, channel: ChannelModel)
    requires
        s.wf(),
        s.channels.contains_key(id),
        channel.processor.type_id() == s.channels[id].processor.type_id(),
    ensures
        s.with_channel(id, channel).wf(),
{
}

/// A channel may be added as long as identifiers are left.
pub proof fn lemma_new_channel_wf(s: ServerModel, processor: ProcessorModel, state: ChannelState)
    requires
        s.wf(),
        s.next_id < u32::MAX,
    ensures
        s.with_new_channel(processor, state).wf(),
        s.registered(processor).wf(),
{
}

/// A channel may be removed.
pub proof fn lemma_without_channel_wf(s: ServerModel, id: u32)
    requires
        s.wf(),
    ensures
        s.without_channel(id).wf(),
{
}

/// A set has only one least element.
pub proof fn lemma_least(s: Set<u32>, i: u32)
    requires
        is_least(s, i),
    ensures
        least(s) == i,
{
    let k = least(s);
    assert(is_least(s, k));
    assert(s.contains(k) && s.contains(i));
}

} // verus!
