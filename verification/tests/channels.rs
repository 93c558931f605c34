use std::sync::{Arc, Mutex};

use ironrdp_dvc_server::error::{DecodeError, EncodeError, PduError};
use ironrdp_dvc_server::model::{ChannelState, DrdynvcState};
use ironrdp_dvc_server::pdu::{CapsVersion, CreateResponsePdu, DataPdu, DrdynvcDataPdu};
use ironrdp_dvc_server::processor::{DvcMessage, DvcProcessor, DvcServerProcessor};
use ironrdp_dvc_server::server::{send_answer, DrdynvcServer, DynamicChannelAllocator};
use ironrdp_svc::{ChannelFlags, SvcMessage};

type Log = Arc<Mutex<Vec<String>>>;

/// A processor that writes down what it is told. Each `N` is a type of its own.
struct Recorder<const N: usize> {
    name: &'static str,
    log: Log,
    greeting: Vec<Vec<u8>>,
    fails: bool,
}

impl<const N: usize> Recorder<N> {
    fn new(name: &'static str) -> (Self, Log) {
        let log = Log::default();
        let recorder = Self {
            name,
            log: Arc::clone(&log),
            greeting: Vec::new(),
            fails: false,
        };
        (recorder, log)
    }

    fn note(&self, line: String) {
        self.log.lock().unwrap().push(line);
    }
}

impl<const N: usize> DvcProcessor for Recorder<N> {
    fn channel_name(&self) -> &str {
        self.name
    }

    fn start(&mut self, channel_id: u32) -> Result<Vec<DvcMessage>, PduError> {
        self.note(format!("start {channel_id}"));
        if self.fails {
            return Err(PduError::Processor { description: "no start".to_owned() });
        }
        Ok(self.greeting.drain(..).map(|bytes| DvcMessage { bytes }).collect())
    }

    fn process(&mut self, channel_id: u32, payload: &[u8]) -> Result<Vec<DvcMessage>, PduError> {
        self.note(format!("process {channel_id} {payload:?}"));
        if self.fails {
            return Err(PduError::Processor { description: "no answer".to_owned() });
        }
        let mut echo = payload.to_vec();
        echo.reverse();
        Ok(vec![DvcMessage { bytes: echo }])
    }

    fn close(&mut self, channel_id: u32) {
        self.note(format!("close {channel_id}"));
    }
}

impl<const N: usize> DvcServerProcessor for Recorder<N> {}

const GRAPHICS: &str = "Microsoft::Windows::RDS::Graphics";

fn bytes(messages: &[SvcMessage]) -> Vec<Vec<u8>> {
    messages
        .iter()
        .map(|message| message.encode_unframed_pdu().unwrap())
        .collect()
}

fn lines(log: &Log) -> Vec<String> {
    log.lock().unwrap().clone()
}

/// A manager with one open channel.
fn opened<const N: usize>(recorder: Recorder<N>) -> DrdynvcServer {
    let mut server = DrdynvcServer::new().with_dynamic_channel(recorder);
    server.start().unwrap();
    server.process(&[0x50, 0, 2, 0]).unwrap();
    server.process(&[0x10, 1, 0, 0, 0, 0]).unwrap();
    assert!(server.is_channel_opened(1));
    server
}

#[test]
fn start_sends_version_two_without_charges() {
    let mut server = DrdynvcServer::new();
    let messages = server.start().unwrap();
    assert_eq!(bytes(&messages), vec![vec![0x50, 0, 2, 0, 0, 0, 0, 0, 0, 0, 0, 0]]);
    assert_eq!(server.state(), DrdynvcState::CapabilitiesSent);
}

#[test]
fn messages_carry_the_show_protocol_flag() {
    let mut server = DrdynvcServer::new();
    let messages = server.start().unwrap();
    assert_eq!(
        format!("{:?}", messages[0]),
        "SvcMessage { pdu: \"DYNVC_CAPS_VERSION2\", flags: ChannelFlags(SHOW_PROTOCOL) }"
    );
    assert_eq!(ChannelFlags::SHOW_PROTOCOL.bits(), 0x10);
}

#[test]
fn start_works_once() {
    let mut server = DrdynvcServer::default();
    server.start().unwrap();
    assert_eq!(server.start().unwrap_err(), PduError::AlreadyStarted);
    assert_eq!(server.state(), DrdynvcState::CapabilitiesSent);
    assert_eq!(
        server.start().unwrap_err().description(),
        "DRDYNVC capability negotiation already started"
    );
}

#[test]
fn unexpected_and_unsupported_capability_responses_are_told_apart() {
    let mut server = DrdynvcServer::new();
    assert_eq!(
        server.process(&[0x50, 0, 2, 0]).unwrap_err(),
        PduError::UnexpectedCapabilityResponse
    );
    server.start().unwrap();
    assert_eq!(
        server.process(&[0x50, 0, 1, 0]).unwrap_err(),
        PduError::UnsupportedCapabilityVersion
    );
    assert_eq!(
        server.handle_capabilities(CapsVersion::V3).unwrap_err(),
        PduError::UnexpectedCapabilityResponse
    );
    assert_eq!(server.state(), DrdynvcState::Failed);
}

#[test]
fn failed_exchange_opens_nothing() {
    let (recorder, log) = Recorder::<0>::new("a");
    let mut server = DrdynvcServer::new().with_dynamic_channel(recorder);
    server.start().unwrap();
    assert!(server.process(&[0x50, 0, 1, 0]).is_err());
    assert_eq!(
        server.process(&[0x10, 1, 0, 0, 0, 0]).unwrap_err(),
        PduError::UnexpectedCreateResponse
    );
    assert_eq!(server.channel_state(1), Some(ChannelState::Pending));
    drop(server);
    assert!(lines(&log).is_empty());
}

#[test]
fn graphics_goes_first_though_it_was_registered_last() {
    let mut server = DrdynvcServer::new()
        .with_dynamic_channel(Recorder::<0>::new("a").0)
        .with_dynamic_channel(Recorder::<1>::new("b").0)
        .with_dynamic_channel(Recorder::<2>::new(GRAPHICS).0);
    server.start().unwrap();

    let requests = server.process(&[0x50, 0, 3, 0]).unwrap();
    let mut expected = vec![0x10, 3];
    expected.extend_from_slice(GRAPHICS.as_bytes());
    expected.push(0);
    assert_eq!(bytes(&requests), vec![expected]);

    let requests = server.process(&[0x10, 3, 0, 0, 0, 0]).unwrap();
    assert_eq!(bytes(&requests), vec![vec![0x10, 1, b'a', 0]]);
    assert_eq!(server.channel_state(1), Some(ChannelState::Creation));
    assert_eq!(server.channel_state(2), Some(ChannelState::Pending));

    let requests = server.process(&[0x10, 1, 0, 0, 0, 0]).unwrap();
    assert_eq!(bytes(&requests), vec![vec![0x10, 2, b'b', 0]]);

    let requests = server.process(&[0x10, 2, 0, 0, 0, 0]).unwrap();
    assert!(requests.is_empty());
}

#[test]
fn one_create_request_is_without_an_answer() {
    let mut server = DrdynvcServer::new()
        .with_dynamic_channel(Recorder::<0>::new("a").0)
        .with_dynamic_channel(Recorder::<1>::new("b").0);
    server.start().unwrap();
    server.process(&[0x50, 0, 3, 0]).unwrap();
    let creating = |server: &DrdynvcServer| {
        (1..=2)
            .filter(|id| server.channel_state(*id) == Some(ChannelState::Creation))
            .count()
    };
    assert_eq!(creating(&server), 1);
    assert!(server.process(&[0x50, 0, 3, 0]).is_err());
    assert_eq!(creating(&server), 1);
    server.process(&[0x10, 1, 0, 0, 0, 0]).unwrap();
    assert_eq!(creating(&server), 1);
    server.process(&[0x40, 2]).unwrap();
    assert_eq!(creating(&server), 0);
}

#[test]
fn greeting_precedes_the_next_create_request() {
    let (mut recorder, log) = Recorder::<0>::new("a");
    recorder.greeting = vec![vec![7, 8], Vec::new(), vec![9]];
    let mut server = DrdynvcServer::new()
        .with_dynamic_channel(recorder)
        .with_dynamic_channel(Recorder::<1>::new("b").0);
    server.start().unwrap();
    server.process(&[0x50, 0, 2, 0]).unwrap();
    let messages = server.process(&[0x10, 1, 0, 0, 0, 0]).unwrap();
    assert_eq!(
        bytes(&messages),
        vec![vec![0x30, 1, 7, 8], vec![0x30, 1, 9], vec![0x10, 2, b'b', 0]]
    );
    assert_eq!(lines(&log), vec!["start 1".to_owned()]);
}

#[test]
fn failing_processor_leaves_the_channel_open() {
    let (mut recorder, log) = Recorder::<0>::new("a");
    recorder.fails = true;
    let mut server = DrdynvcServer::new()
        .with_dynamic_channel(recorder)
        .with_dynamic_channel(Recorder::<1>::new("b").0);
    server.start().unwrap();
    server.process(&[0x50, 0, 2, 0]).unwrap();
    let error = server.process(&[0x10, 1, 0, 0, 0, 0]).unwrap_err();
    assert_eq!(error, PduError::Processor { description: "no start".to_owned() });
    assert_eq!(error.description(), "no start");
    assert!(server.is_channel_opened(1));
    assert_eq!(server.channel_state(2), Some(ChannelState::Pending));
    assert_eq!(
        server.process(&[0x30, 1, 5]).unwrap_err(),
        PduError::Processor { description: "no answer".to_owned() }
    );
    assert_eq!(lines(&log), vec!["start 1".to_owned(), "process 1 [5]".to_owned()]);
}

#[test]
fn refused_creation_is_kept_with_its_status() {
    let (recorder, log) = Recorder::<0>::new("a");
    let mut server = DrdynvcServer::new()
        .with_dynamic_channel(recorder)
        .with_dynamic_channel(Recorder::<1>::new("b").0);
    server.start().unwrap();
    server.process(&[0x50, 0, 2, 0]).unwrap();
    let messages = server.process(&[0x10, 1, 0x05, 0x40, 0x00, 0x80]).unwrap();
    assert_eq!(bytes(&messages), vec![vec![0x10, 2, b'b', 0]]);
    assert_eq!(server.channel_state(1), Some(ChannelState::CreationFailed(0x8000_4005)));
    assert!(!server.is_channel_opened(1));
    drop(server);
    assert!(lines(&log).is_empty());
}

#[test]
fn create_responses_are_refused() {
    let mut server = DrdynvcServer::new()
        .with_dynamic_channel(Recorder::<0>::new("a").0)
        .with_dynamic_channel(Recorder::<1>::new("b").0);
    assert_eq!(
        server.process(&[0x10, 1, 0, 0, 0, 0]).unwrap_err(),
        PduError::UnexpectedCreateResponse
    );
    server.start().unwrap();
    server.process(&[0x50, 0, 2, 0]).unwrap();
    assert_eq!(
        server.process(&[0x10, 9, 0, 0, 0, 0]).unwrap_err(),
        PduError::Decode(DecodeError::InvalidChannelId)
    );
    assert_eq!(
        server.process(&[0x10, 2, 0, 0, 0, 0]).unwrap_err(),
        PduError::InvalidChannelState
    );
    assert_eq!(server.channel_state(1), Some(ChannelState::Creation));
    assert_eq!(server.channel_state(2), Some(ChannelState::Pending));
    let accepted = server.handle_create_response(CreateResponsePdu {
        channel_id: 1,
        creation_status: 0,
    });
    assert_eq!(bytes(&accepted.unwrap()), vec![vec![0x10, 2, b'b', 0]]);
}

#[test]
fn data_reaches_the_processor_and_its_answer_the_client() {
    let (recorder, log) = Recorder::<0>::new("a");
    let mut server = opened(recorder);
    let messages = server.process(&[0x30, 1, 1, 2, 3]).unwrap();
    assert_eq!(bytes(&messages), vec![vec![0x30, 1, 3, 2, 1]]);
    assert_eq!(lines(&log), vec!["start 1".to_owned(), "process 1 [1, 2, 3]".to_owned()]);
}

#[test]
fn data_in_blocks_is_put_together() {
    let (recorder, log) = Recorder::<0>::new("a");
    let mut server = opened(recorder);
    assert!(server.process(&[0x20, 1, 5, 1, 2]).unwrap().is_empty());
    assert!(server.process(&[0x30, 1, 3]).unwrap().is_empty());
    let messages = server.process(&[0x30, 1, 4, 5]).unwrap();
    assert_eq!(bytes(&messages), vec![vec![0x30, 1, 5, 4, 3, 2, 1]]);
    assert_eq!(
        lines(&log),
        vec!["start 1".to_owned(), "process 1 [1, 2, 3, 4, 5]".to_owned()]
    );
}

#[test]
fn received_data_is_returned_for_the_processor() {
    let mut server = opened(Recorder::<0>::new("a").0);
    let block = |data: Vec<u8>| DrdynvcDataPdu::Data(DataPdu { channel_id: 1, data });
    assert_eq!(server.receive_data(block(vec![1, 2])), Ok(Some(vec![1, 2])));
    assert_eq!(
        server.receive_data(DrdynvcDataPdu::Data(DataPdu { channel_id: 2, data: vec![] })),
        Err(PduError::Decode(DecodeError::InvalidChannelId))
    );
    assert_eq!(bytes(&server.handle_data(block(vec![1, 2])).unwrap()), vec![vec![0x30, 1, 2, 1]]);
}

#[test]
fn data_is_refused_on_channels_that_are_not_open() {
    let mut server = DrdynvcServer::new().with_dynamic_channel(Recorder::<0>::new("a").0);
    assert_eq!(
        server.process(&[0x30, 1, 1]).unwrap_err(),
        PduError::InvalidChannelState
    );
    assert_eq!(
        server.process(&[0x30, 2, 1]).unwrap_err(),
        PduError::Decode(DecodeError::InvalidChannelId)
    );
}

#[test]
fn answers_become_messages() {
    let answer = Ok(vec![DvcMessage { bytes: vec![4; 3] }]);
    assert_eq!(bytes(&send_answer(0x1234, answer).unwrap()), vec![vec![0x31, 0x34, 0x12, 4, 4, 4]]);
    assert_eq!(
        send_answer(1, Err(PduError::InvalidChannelState)).unwrap_err(),
        PduError::InvalidChannelState
    );
    let mut server = opened(Recorder::<1>::new("b").0).with_dynamic_channel(Recorder::<0>::new("a").0);
    let messages = server.handle_started(9, Ok(vec![DvcMessage { bytes: vec![1] }])).unwrap();
    assert_eq!(bytes(&messages), vec![vec![0x30, 9, 1], vec![0x10, 2, b'a', 0]]);
}

#[test]
fn client_closes_a_channel() {
    let (recorder, log) = Recorder::<0>::new("a");
    let mut server = opened(recorder);
    assert!(server.process(&[0x40, 1]).unwrap().is_empty());
    assert_eq!(server.channel_state(1), None);
    assert_eq!(server.get_channel_id_by_type::<Recorder<0>>(), None);
    assert_eq!(lines(&log), vec!["start 1".to_owned(), "close 1".to_owned()]);
    assert!(server.process(&[0x40, 1]).unwrap().is_empty());
    assert_eq!(lines(&log).len(), 2);
}

#[test]
fn server_closes_a_channel() {
    let (recorder, log) = Recorder::<0>::new("a");
    let mut server = opened(recorder).with_dynamic_channel(Recorder::<1>::new("b").0);
    let notice = server.close_channel(1).unwrap();
    assert_eq!(notice.encode_unframed_pdu().unwrap(), vec![0x40, 1]);
    assert!(format!("{notice:?}").contains("SHOW_PROTOCOL"));
    assert!(server.close_channel(1).is_none());
    assert!(!server.is_channel_opened(1));
    assert_eq!(server.get_channel_id_by_type::<Recorder<0>>(), None);
    assert_eq!(server.get_channel_id_by_type::<Recorder<1>>(), Some(2));
    assert_eq!(lines(&log), vec!["start 1".to_owned(), "close 1".to_owned()]);
}

#[test]
fn identifiers_are_not_used_again() {
    let mut server = DrdynvcServer::new().with_dynamic_channel(Recorder::<0>::new("a").0);
    server.close_channel(1).unwrap();
    assert!(server.can_add_channel());
    let mut server = server.with_dynamic_channel(Recorder::<0>::new("a").0);
    assert_eq!(server.get_channel_id_by_type::<Recorder<0>>(), Some(2));
    let request = server.create_channel(Recorder::<1>::new("b").0).unwrap();
    assert_eq!(request.encode_unframed_pdu().unwrap(), vec![0x10, 3, b'b', 0]);
}

#[test]
fn later_registration_of_a_type_wins() {
    let mut server = DrdynvcServer::new()
        .with_dynamic_channel(Recorder::<0>::new("a").0)
        .with_dynamic_channel(Recorder::<0>::new("b").0);
    assert_eq!(server.get_channel_id_by_type::<Recorder<0>>(), Some(2));
    server.close_channel(1).unwrap();
    assert_eq!(server.get_channel_id_by_type::<Recorder<0>>(), Some(2));
    server.close_channel(2).unwrap();
    assert_eq!(server.get_channel_id_by_type::<Recorder<0>>(), None);
}

#[test]
fn created_channel_is_not_found_by_its_type() {
    let (recorder, log) = Recorder::<0>::new("a");
    let mut server = DrdynvcServer::new();
    server.start().unwrap();
    server.process(&[0x50, 0, 3, 0]).unwrap();
    let request = server.create_channel(recorder).unwrap();
    assert_eq!(request.encode_unframed_pdu().unwrap(), vec![0x10, 1, b'a', 0]);
    assert_eq!(server.get_channel_id_by_type::<Recorder<0>>(), None);
    assert_eq!(server.channel_state(1), Some(ChannelState::Creation));
    server.process(&[0x10, 1, 0, 0, 0, 0]).unwrap();
    assert!(server.is_channel_opened(1));
    assert_eq!(lines(&log), vec!["start 1".to_owned()]);
}

#[test]
fn open_channel_is_found_with_its_processor() {
    let mut server = opened(Recorder::<0>::new("a").0);
    let found = server.dvc_by_id::<Recorder<0>>(1).unwrap();
    assert_eq!(found.channel_id(), 1);
    assert_eq!(found.processor().name, "a");
    assert!(server.dvc_by_id::<Recorder<1>>(1).is_none());
    assert!(server.dvc_by_id::<Recorder<0>>(2).is_none());

    assert!(server.dvc_by_id_mut::<Recorder<1>>(1).is_none());
    let mut found = server.dvc_by_id_mut::<Recorder<0>>(1).unwrap();
    assert_eq!(found.channel_id(), 1);
    assert_eq!(found.processor().name, "a");
    found.processor_mut().name = "renamed";
    assert_eq!(server.dvc_by_id::<Recorder<0>>(1).unwrap().processor().name, "renamed");
    assert_eq!(server.debug_text(), "DrdynvcServer([1:renamed (Opened)])");
}

#[test]
fn waiting_channel_is_not_found() {
    let mut server = DrdynvcServer::new().with_dynamic_channel(Recorder::<0>::new("a").0);
    assert!(server.dvc_by_id::<Recorder<0>>(1).is_none());
    assert!(server.dvc_by_id_mut::<Recorder<0>>(1).is_none());
}

#[test]
fn dropped_manager_closes_open_channels() {
    let (recorder, log) = Recorder::<0>::new("a");
    drop(opened(recorder));
    assert_eq!(lines(&log), vec!["start 1".to_owned(), "close 1".to_owned()]);
}

#[test]
fn text_shows_the_channels_in_order() {
    assert_eq!(DrdynvcServer::new().debug_text(), "DrdynvcServer([])");
    let mut server = DrdynvcServer::new()
        .with_dynamic_channel(Recorder::<0>::new("a").0)
        .with_dynamic_channel(Recorder::<1>::new(GRAPHICS).0)
        .with_dynamic_channel(Recorder::<2>::new("c").0)
        .with_dynamic_channel(Recorder::<3>::new("d").0);
    server.start().unwrap();
    server.process(&[0x50, 0, 3, 0]).unwrap();
    server.process(&[0x10, 2, 0, 0, 0, 0]).unwrap();
    server.process(&[0x10, 1, 120, 0, 0, 0]).unwrap();
    assert_eq!(
        server.debug_text(),
        "DrdynvcServer([1:a (CreationFailed(120)), \
         2:Microsoft::Windows::RDS::Graphics (Opened), 3:c (Creation), 4:d (Pending)])"
    );
}

#[test]
fn manager_lives_on_its_own_static_channel() {
    let name = DrdynvcServer::new().channel_name();
    assert_eq!(name.as_str(), Some("drdynvc"));
    assert_eq!(name.as_bytes(), b"drdynvc\0");
}

#[test]
fn errors_describe_themselves() {
    assert_eq!(PduError::Decode(DecodeError::InvalidCmd).description(), "decode error");
    assert_eq!(PduError::Encode(EncodeError::MessageTooLong).description(), "encode error");
    assert_eq!(
        PduError::UnexpectedCapabilityResponse.description(),
        "unexpected DRDYNVC capability response"
    );
    assert_eq!(
        PduError::UnsupportedCapabilityVersion.description(),
        "unsupported DRDYNVC capability version"
    );
    assert_eq!(
        PduError::UnexpectedCreateResponse.description(),
        "DVC create response before capability negotiation"
    );
    assert_eq!(PduError::InvalidChannelState.description(), "invalid channel state");
    assert_eq!(PduError::InvalidChannelState.fixed_description(), Some("invalid channel state"));
    let failure = PduError::Processor { description: "out of frames".to_owned() };
    assert_eq!(failure.fixed_description(), None);
    assert_eq!(failure.description(), "out of frames");
}

#[test]
fn message_to_one_channel_leaves_the_others() {
    let mut server = opened(Recorder::<0>::new("a").0)
        .with_dynamic_channel(Recorder::<1>::new("b").0)
        .with_dynamic_channel(Recorder::<2>::new("c").0);
    server.process(&[0x30, 1, 1]).unwrap();
    server.process(&[0x40, 2]).unwrap();
    assert!(server.is_channel_opened(1));
    assert_eq!(server.channel_state(2), None);
    assert_eq!(server.channel_state(3), Some(ChannelState::Pending));
    assert_eq!(server.get_channel_id_by_type::<Recorder<2>>(), Some(3));
}

#[test]
fn refused_channel_is_not_asked_for_again() {
    let mut server = DrdynvcServer::new()
        .with_dynamic_channel(Recorder::<0>::new("a").0)
        .with_dynamic_channel(Recorder::<1>::new("b").0);
    server.start().unwrap();
    server.process(&[0x50, 0, 2, 0]).unwrap();
    server.process(&[0x10, 1, 1, 0, 0, 0]).unwrap();
    assert!(server.process(&[0x10, 2, 0, 0, 0, 0]).unwrap().is_empty());
    assert_eq!(
        server.process(&[0x10, 1, 0, 0, 0, 0]).unwrap_err(),
        PduError::InvalidChannelState
    );
    assert_eq!(server.channel_state(1), Some(ChannelState::CreationFailed(1)));
}

#[test]
fn waiting_channels_are_asked_for_in_order() {
    let mut server = DrdynvcServer::new()
        .with_dynamic_channel(Recorder::<0>::new("a").0)
        .with_dynamic_channel(Recorder::<1>::new(GRAPHICS).0)
        .with_dynamic_channel(Recorder::<2>::new("c").0)
        .with_dynamic_channel(Recorder::<3>::new(GRAPHICS).0);
    server.start().unwrap();
    let mut order = Vec::new();
    let mut messages = server.process(&[0x50, 0, 3, 0]).unwrap();
    while let Some(request) = messages.pop() {
        let id = request.encode_unframed_pdu().unwrap()[1];
        order.push(id);
        messages = server.process(&[0x10, id, 0, 0, 0, 0]).unwrap();
    }
    assert_eq!(order, vec![2, 4, 1, 3]);
}

#[test]
fn closing_a_waiting_channel_tells_nobody() {
    let (recorder, log) = Recorder::<0>::new("a");
    let mut server = DrdynvcServer::new().with_dynamic_channel(recorder);
    assert!(server.close_channel(1).is_some());
    let (recorder, other) = Recorder::<0>::new("b");
    server.create_channel(recorder).unwrap();
    server.process(&[0x40, 2]).unwrap();
    drop(server);
    assert!(lines(&log).is_empty());
    assert!(lines(&other).is_empty());
}

#[test]
fn messages_go_by_their_names() {
    let (mut recorder, _log) = Recorder::<0>::new("a");
    recorder.greeting = vec![vec![1; 1591]];
    let mut server = DrdynvcServer::new().with_dynamic_channel(recorder);
    server.start().unwrap();
    let name = |message: &SvcMessage| {
        let text = format!("{message:?}");
        text.split('"').nth(1).unwrap().to_owned()
    };
    let create = server.process(&[0x50, 0, 3, 0]).unwrap();
    assert_eq!(name(&create[0]), "DYNVC_CREATE_REQ");
    let greeting = server.process(&[0x10, 1, 0, 0, 0, 0]).unwrap();
    assert_eq!(name(&greeting[0]), "DYNVC_DATA_FIRST");
    assert_eq!(name(&greeting[1]), "DYNVC_DATA");
    assert_eq!(name(&server.close_channel(1).unwrap()), "DYNVC_CLOSE");
}

#[test]
fn removed_channel_is_told_when_it_goes_away() {
    let (recorder, log) = Recorder::<0>::new("a");
    let mut server = opened(recorder);
    let channel = server.remove_by_channel_id(1);
    assert!(channel.is_some());
    assert_eq!(server.channel_state(1), None);
    assert!(server.remove_by_channel_id(1).is_none());
    assert_eq!(lines(&log), vec!["start 1".to_owned()]);
    drop(channel);
    assert_eq!(lines(&log), vec!["start 1".to_owned(), "close 1".to_owned()]);
}

#[test]
fn allocator_counts_up_and_gives_back() {
    let mut channels = DynamicChannelAllocator::new();
    assert_eq!(channels.insert_channel(Recorder::<0>::new("a").0, ChannelState::Pending), 1);
    assert_eq!(channels.insert_channel(Recorder::<1>::new("b").0, ChannelState::Pending), 2);
    assert!(channels.remove(2).is_some());
    assert!(channels.remove(2).is_none());
    assert!(channels.get(2).is_none());
    assert!(channels.get(1).is_some());
    assert!(channels.get_mut(1).is_some());
    assert_eq!(channels.insert_channel(Recorder::<1>::new("b").0, ChannelState::Pending), 3);
}
