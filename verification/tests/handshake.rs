use ironrdp_dvc_server::error::PduError;
use ironrdp_dvc_server::model::{ChannelState, DrdynvcState};
use ironrdp_dvc_server::processor::{DvcMessage, DvcProcessor, DvcServerProcessor};
use ironrdp_dvc_server::server::DrdynvcServer;

struct GraphicsChannel;

impl DvcProcessor for GraphicsChannel {
    fn channel_name(&self) -> &str {
        "Microsoft::Windows::RDS::Graphics"
    }

    fn start(&mut self, _channel_id: u32) -> Result<Vec<DvcMessage>, PduError> {
        Ok(Vec::new())
    }

    fn process(&mut self, _channel_id: u32, _payload: &[u8]) -> Result<Vec<DvcMessage>, PduError> {
        Ok(Vec::new())
    }
}

impl DvcServerProcessor for GraphicsChannel {}

struct OtherChannel;

impl DvcProcessor for OtherChannel {
    fn channel_name(&self) -> &str {
        "example.other"
    }

    fn start(&mut self, _channel_id: u32) -> Result<Vec<DvcMessage>, PduError> {
        Ok(Vec::new())
    }

    fn process(&mut self, _channel_id: u32, _payload: &[u8]) -> Result<Vec<DvcMessage>, PduError> {
        Ok(Vec::new())
    }
}

impl DvcServerProcessor for OtherChannel {}

#[test]
fn first_registered_channel_uses_id_one() {
    let server = DrdynvcServer::new()
        .with_dynamic_channel(GraphicsChannel)
        .with_dynamic_channel(OtherChannel);

    assert_eq!(server.get_channel_id_by_type::<GraphicsChannel>(), Some(1));
    assert_eq!(server.get_channel_id_by_type::<OtherChannel>(), Some(2));
}

#[test]
fn capability_response_requires_a_started_handshake() {
    let mut server = DrdynvcServer::new().with_dynamic_channel(GraphicsChannel);

    assert!(server.process(&[0x50, 0x00, 0x03, 0x00]).is_err());
    assert_eq!(server.state(), DrdynvcState::Initial);
    assert_eq!(server.channel_state(1).unwrap(), ChannelState::Pending);
}

#[test]
fn version_one_capability_response_fails_negotiation() {
    let mut server = DrdynvcServer::new().with_dynamic_channel(GraphicsChannel);
    server.start().unwrap();

    assert!(server.process(&[0x50, 0x00, 0x01, 0x00]).is_err());
    assert_eq!(server.state(), DrdynvcState::Failed);
    assert_eq!(server.channel_state(1).unwrap(), ChannelState::Pending);
}

#[test]
fn duplicate_capability_response_cannot_start_another_create() {
    let mut server = DrdynvcServer::new()
        .with_dynamic_channel(GraphicsChannel)
        .with_dynamic_channel(OtherChannel);
    server.start().unwrap();

    server.process(&[0x50, 0x00, 0x03, 0x00]).unwrap();
    assert!(server.process(&[0x50, 0x00, 0x03, 0x00]).is_err());
    assert_eq!(server.state(), DrdynvcState::Ready);
    assert_eq!(server.channel_state(1).unwrap(), ChannelState::Creation);
    assert_eq!(server.channel_state(2).unwrap(), ChannelState::Pending);
}

#[test]
fn capability_response_creates_graphics_first_and_routes_its_response() {
    let mut server = DrdynvcServer::new()
        .with_dynamic_channel(GraphicsChannel)
        .with_dynamic_channel(OtherChannel);

    server.start().unwrap();

    // Capability response, version 3.
    let requests = server.process(&[0x50, 0x00, 0x03, 0x00]).unwrap();
    assert_eq!(requests.len(), 1);
    assert_eq!(server.channel_state(1).unwrap(), ChannelState::Creation);
    assert_eq!(server.channel_state(2).unwrap(), ChannelState::Pending);

    // Create response, channel 1, success.
    let requests = server.process(&[0x10, 0x01, 0x00, 0x00, 0x00, 0x00]).unwrap();
    assert_eq!(requests.len(), 1);
    assert!(server.dvc_by_id::<GraphicsChannel>(1).is_some());
    assert_eq!(server.channel_state(2).unwrap(), ChannelState::Creation);
}
