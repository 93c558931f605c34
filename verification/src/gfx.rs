//! The bridge between the graphics pipeline and its dynamic channel.
//!
//! The server of the graphics pipeline is shared: the display side submits frames through a handle
//! while the channel manager hands it the client's messages through the bridge.
use vstd::prelude::*;
use vstd::string::*;
use ironrdp_svc::SvcMessage;
use std::sync::Arc;

use crate::error::PduError;
use crate::model;
use crate::processor;
use crate::processor::{Answer, DvcMessage, DvcProcessor, DvcServerProcessor};
use crate::text;
use crate::text::push_decimal;

verus! {

/// A server of the graphics pipeline that is shared between the channel and the display side, and
/// that sees to its own locking.
pub trait GfxServer: Send + Sync + Sized {
    /// What the server calls back to.
    type Handler;

    /// Whether the server, told that its channel was created, may answer with `answer`.
    open spec fn starts(&self, channel_id: u32, answer: Answer) -> bool {
        true
    }

    /// Whether the server, handed a message of the client, may answer with `answer`.
    open spec fn processes(&self, channel_id: u32, payload: Seq<u8>, answer: Answer) -> bool {
        true
    }

    /// Makes a server that calls back to `handler`.
    fn new(handler: Self::Handler) -> Self;

    /// Takes note that the channel was created, and returns the messages to send at once.
    fn start(&self, channel_id: u32) -> (r: Result<Vec<DvcMessage>, PduError>)
        ensures
            self.starts(channel_id, processor::answer_view(r)),
    ;

    /// Takes a message of the client, and returns the messages to answer with.
    fn process(&self, channel_id: u32, payload: &[u8]) -> (r: Result<Vec<DvcMessage>, PduError>)
        ensures
            self.processes(channel_id, payload@, processor::answer_view(r)),
    ;

    /// Takes note that the channel is gone.
    fn close(&self, channel_id: u32)
        opens_invariants none
        no_unwind
    {
    }
}

/// A shared handle to a server of the graphics pipeline.
pub type GfxServerHandle<S> = Arc<S>;

/// The processor of the graphics channel, which passes everything on to a shared server.
pub struct GfxDvcBridge<S> {
    inner: GfxServerHandle<S>,
}

impl<S> GfxDvcBridge<S> {
    /// The server that the bridge passes everything on to.
    pub closed spec fn handle(self) -> GfxServerHandle<S> {
        self.inner
    }

    /// Makes a bridge to a shared server.
    pub fn new(server: GfxServerHandle<S>) -> (r: GfxDvcBridge<S>)
        ensures
            r.handle() == server,
    {
        GfxDvcBridge { inner: server }
    }

    /// The server that the bridge passes everything on to.
    pub fn server(&self) -> (r: &GfxServerHandle<S>)
        ensures
            *r == self.handle(),
    {
        &self.inner
    }
}

/// Reads the constant `ironrdp_egfx::CHANNEL_NAME`, the name of the graphics channel.
#[verifier::external_body]
fn egfx_channel_name() -> (r: &'static str)
    ensures
        r@ == "Microsoft::Windows::RDS::Graphics"@,
{
    ironrdp_egfx::CHANNEL_NAME
}

impl<S: GfxServer> DvcProcessor for GfxDvcBridge<S> {
    open spec fn name(&self) -> Seq<char> {
        model::graphics_name()
    }

    open spec fn starts(&self, channel_id: u32, after: &Self, answer: Answer) -> bool {
        *after == *self && self.handle().starts(channel_id, answer)
    }

    open spec fn processes(
        &self,
        channel_id: u32,
        payload: Seq<u8>,
        after: &Self,
        answer: Answer,
    ) -> bool {
        *after == *self && self.handle().processes(channel_id, payload, answer)
    }

    fn channel_name(&self) -> (r: &str) {
        egfx_channel_name()
    }

    fn start(&mut self, channel_id: u32) -> (r: Result<Vec<DvcMessage>, PduError>) {
        self.inner.start(channel_id)
    }

    fn process(&mut self, channel_id: u32, payload: &[u8]) -> (r: Result<
        Vec<DvcMessage>,
        PduError,
    >) {
        self.inner.process(channel_id, payload)
    }

    fn close(&mut self, channel_id: u32)
        ensures
            *final(self) == *old(self),
            call_ensures(S::close, (&*old(self).handle(), channel_id), ()),
    {
        self.inner.close(channel_id)
    }
}

impl<S: GfxServer> DvcServerProcessor for GfxDvcBridge<S> {

}

/// Makes the parts of the graphics pipeline.
pub trait GfxServerFactory: Send {
    type Server: GfxServer;

    /// Makes what the server calls back to.
    fn build_gfx_handler(&self) -> <Self::Server as GfxServer>::Handler;

    /// Makes a server, and returns a bridge and a handle to it.
    ///
    /// A factory that returns nothing, as it does unless it says otherwise, makes only what the
    /// server calls back to.
    fn build_server_with_handle(&self) -> (r: Option<
        (GfxDvcBridge<Self::Server>, GfxServerHandle<Self::Server>),
    >)
        default_ensures
            r is None,
    {
        None
    }
}

/// Shares a server between a bridge and a handle.
pub fn share_server<S: GfxServer>(server: S) -> (r: (GfxDvcBridge<S>, GfxServerHandle<S>))
    ensures
        *r.1 == server,
        r.0.handle() == r.1,
{
    let handle = Arc::new(server);
    (GfxDvcBridge::new(Arc::clone(&handle)), handle)
}

/// Makes a bridge, and always a handle to the server behind it.
pub fn build_server_and_handle<F: GfxServerFactory>(factory: &F) -> (r: (
    GfxDvcBridge<F::Server>,
    GfxServerHandle<F::Server>,
))
    ensures
        call_ensures(F::build_server_with_handle, (factory,), Some(r)) || {
            &&& call_ensures(F::build_server_with_handle, (factory,), None)
            &&& r.0.handle() == r.1
            &&& exists|handler: <F::Server as GfxServer>::Handler|
                {
                    &&& call_ensures(F::build_gfx_handler, (factory,), handler)
                    &&& #[trigger] call_ensures(F::Server::new, (handler,), *r.1)
                }
        },
{
    if let Some(built) = factory.build_server_with_handle() {
        return built;
    }
    let handler = factory.build_gfx_handler();
    share_server(F::Server::new(handler))
}

/// A message for the part of the server that writes to the client.
#[derive(Debug)]
pub enum EgfxServerMessage {
    /// Messages of the graphics channel, ready to be sent.
    SendMessages { messages: Vec<SvcMessage> },
}

impl EgfxServerMessage {
    /// The text that shows the message.
    pub open spec fn text(self) -> Seq<char> {
        match self {
            EgfxServerMessage::SendMessages { messages } => "SendMessages(count="@ + text::decimal(
                messages@.len(),
            ) + ")"@,
        }
    }

    /// The text that shows the message: its kind, and how many messages it holds.
    pub fn to_text(&self) -> (r: String)
        ensures
            r@ == self.text(),
    {
        match self {
            EgfxServerMessage::SendMessages { messages } => {
                let mut out = String::new();
                out.append("SendMessages(count=");
                push_decimal(&mut out, messages.len() as u64);
                out.append(")");
                assert(out@ =~= self.text());
                out
            },
        }
    }
}

} // verus!
