use std::num::NonZeroU32;
use std::sync::{Arc, Mutex};

use ironrdp_dvc_server::error::PduError;
use ironrdp_dvc_server::gfx::{
    build_server_and_handle, share_server, EgfxServerMessage, GfxDvcBridge, GfxServer, GfxServerFactory,
    GfxServerHandle,
};
use ironrdp_dvc_server::model::ChannelState;
use ironrdp_dvc_server::processor::{DvcMessage, DvcProcessor};
use ironrdp_dvc_server::server::DrdynvcServer;
use ironrdp_egfx::pdu::{CapabilitiesAdvertisePdu, CapabilitySet};
use ironrdp_egfx::server::{GraphicsPipelineHandler, GraphicsPipelineServer};
use ironrdp_svc::SvcMessage;

struct Frames {
    server: GraphicsPipelineServer,
    max_in_flight: u32,
}

impl Frames {
    fn set_max_frames_in_flight(&mut self, max: u32) {
        self.server.set_max_frames_in_flight(max);
        self.max_in_flight = max;
    }

    fn clamp_max_frames_in_flight(&mut self, limit: NonZeroU32) -> u32 {
        let clamped = self.max_in_flight.min(limit.get());
        self.set_max_frames_in_flight(clamped);
        clamped
    }
}

struct Pipeline {
    frames: Mutex<Frames>,
    calls: Mutex<Vec<String>>,
}

impl GfxServer for Pipeline {
    type Handler = Box<dyn GraphicsPipelineHandler>;

    fn new(handler: Self::Handler) -> Self {
        Self {
            frames: Mutex::new(Frames {
                server: GraphicsPipelineServer::new(handler),
                max_in_flight: 0,
            }),
            calls: Mutex::new(Vec::new()),
        }
    }

    fn start(&self, channel_id: u32) -> Result<Vec<DvcMessage>, PduError> {
        self.calls.lock().unwrap().push(format!("start {channel_id}"));
        Ok(vec![DvcMessage { bytes: vec![1] }])
    }

    fn process(&self, channel_id: u32, payload: &[u8]) -> Result<Vec<DvcMessage>, PduError> {
        self.calls.lock().unwrap().push(format!("process {channel_id} {payload:?}"));
        Ok(vec![DvcMessage { bytes: vec![2, 3] }])
    }

    fn close(&self, channel_id: u32) {
        self.calls.lock().unwrap().push(format!("close {channel_id}"));
    }
}

struct Handler;

impl GraphicsPipelineHandler for Handler {
    fn capabilities_advertise(&mut self, _pdu: &CapabilitiesAdvertisePdu) {}

    fn on_ready(&mut self, _negotiated: &CapabilitySet) {}
}

struct LegacyFactory;

impl GfxServerFactory for LegacyFactory {
    type Server = Pipeline;

    fn build_gfx_handler(&self) -> Box<dyn GraphicsPipelineHandler> {
        Box::new(Handler)
    }
}

struct SharingFactory {
    handle: GfxServerHandle<Pipeline>,
}

impl GfxServerFactory for SharingFactory {
    type Server = Pipeline;

    fn build_gfx_handler(&self) -> Box<dyn GraphicsPipelineHandler> {
        unreachable!("the factory has a server")
    }

    fn build_server_with_handle(&self) -> Option<(GfxDvcBridge<Pipeline>, GfxServerHandle<Pipeline>)> {
        Some((GfxDvcBridge::new(Arc::clone(&self.handle)), Arc::clone(&self.handle)))
    }
}

fn pipeline() -> Pipeline {
    Pipeline::new(Box::new(Handler))
}

#[test]
fn legacy_factory_path_retains_clampable_handle() {
    let (_bridge, handle) = build_server_and_handle(&LegacyFactory);
    let mut server = handle.frames.lock().expect("GfxServerHandle mutex poisoned");
    server.set_max_frames_in_flight(3);
    assert_eq!(server.clamp_max_frames_in_flight(NonZeroU32::new(1).unwrap()), 1);
}

#[test]
fn factory_with_a_server_keeps_it() {
    let handle = Arc::new(pipeline());
    let factory = SharingFactory { handle: Arc::clone(&handle) };
    let (bridge, returned) = build_server_and_handle(&factory);
    assert!(Arc::ptr_eq(&returned, &handle));
    assert!(Arc::ptr_eq(bridge.server(), &handle));
}

#[test]
fn bridge_and_handle_share_one_server() {
    let (bridge, handle) = share_server(pipeline());
    assert!(Arc::ptr_eq(bridge.server(), &handle));
    let (bridge, handle) = build_server_and_handle(&LegacyFactory);
    assert!(Arc::ptr_eq(bridge.server(), &handle));
}

#[test]
fn bridge_passes_everything_on() {
    let (mut bridge, handle) = share_server(pipeline());
    assert_eq!(bridge.channel_name(), ironrdp_egfx::CHANNEL_NAME);
    assert_eq!(bridge.channel_name(), "Microsoft::Windows::RDS::Graphics");
    assert_eq!(bridge.start(4).unwrap(), vec![DvcMessage { bytes: vec![1] }]);
    assert_eq!(bridge.process(4, &[9]).unwrap(), vec![DvcMessage { bytes: vec![2, 3] }]);
    bridge.close(4);
    assert_eq!(
        *handle.calls.lock().unwrap(),
        vec!["start 4".to_owned(), "process 4 [9]".to_owned(), "close 4".to_owned()]
    );
}

#[test]
fn manager_drives_the_bridge() {
    let (bridge, handle) = share_server(pipeline());
    let mut server = DrdynvcServer::new().with_dynamic_channel(bridge);
    server.start().unwrap();
    server.process(&[0x50, 0, 3, 0]).unwrap();
    assert_eq!(server.channel_state(1), Some(ChannelState::Creation));
    let greeting = server.process(&[0x10, 1, 0, 0, 0, 0]).unwrap();
    assert_eq!(greeting[0].encode_unframed_pdu().unwrap(), vec![0x30, 1, 1]);
    let answer = server.process(&[0x30, 1, 7]).unwrap();
    assert_eq!(answer[0].encode_unframed_pdu().unwrap(), vec![0x30, 1, 2, 3]);
    server.process(&[0x40, 1]).unwrap();
    assert_eq!(
        *handle.calls.lock().unwrap(),
        vec!["start 1".to_owned(), "process 1 [7]".to_owned(), "close 1".to_owned()]
    );
}

#[test]
fn message_text_counts() {
    let message = EgfxServerMessage::SendMessages { messages: Vec::new() };
    assert_eq!(message.to_text(), "SendMessages(count=0)");
    let messages = (0u8..12).map(|i| SvcMessage::from(vec![i])).collect();
    let message = EgfxServerMessage::SendMessages { messages };
    assert_eq!(message.to_text(), "SendMessages(count=12)");
}
