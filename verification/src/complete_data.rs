//! Reassembly of messages that come in several blocks.
use vstd::prelude::*;

use crate::error::DecodeError;
use crate::pdu::{DataFirstPdu, DataModel, DataPdu, DrdynvcDataPdu};

verus! {

/// The message that is being put together.
#[derive(Debug, PartialEq, Eq)]
pub struct CompleteData {
    total_size: usize,
    data: Vec<u8>,
}

/// The announced length of the message that is being put together, and what has come of it.
#[verifier::ext_equal]
pub struct PartialMessage {
    pub total_size: nat,
    pub data: Seq<u8>,
}

impl View for CompleteData {
    type V = PartialMessage;

    closed spec fn view(&self) -> PartialMessage {
        PartialMessage { total_size: self.total_size as nat, data: self.data@ }
    }
}

/// A message, if there is one, by its bytes.
pub open spec fn message_view(m: Option<Vec<u8>>) -> Option<Seq<u8>> {
    match m {
        Some(v) => Some(v@),
        None => None,
    }
}

/// A reassembly result, with the message by its bytes.
pub open spec fn received_view(r: Result<Option<Vec<u8>>, DecodeError>) -> Result<
    Option<Seq<u8>>,
    DecodeError,
> {
    match r {
        Ok(m) => Ok(message_view(m)),
        Err(e) => Err(e),
    }
}

impl PartialMessage {
    /// No message is being put together.
    pub open spec fn idle() -> PartialMessage {
        PartialMessage { total_size: 0, data: seq![] }
    }

    /// What is left after a block, and the message that the block completes, if any.
    ///
    /// A first block drops what came before it. Where it is a whole message itself, the announced
    /// length of the dropped message stays; else its own length takes that place. A later block is
    /// a message of its own when nothing was started. Blocks that exceed the announced length are dropped, with all
    /// that came before them.
    pub open spec fn after(self, block: DataModel) -> (
        PartialMessage,
        Result<Option<Seq<u8>>, DecodeError>,
    ) {
        match block {
            DataModel::First { length, data, .. } => if data.len() == length {
                (PartialMessage { data: seq![], ..self }, Ok(Some(data)))
            } else {
                (PartialMessage { total_size: length as nat, data }, Ok(None))
            },
            DataModel::Block { data, .. } => {
                let size = self.data.len() + data.len();
                if self == PartialMessage::idle() {
                    (self, Ok(Some(data)))
                } else if size > usize::MAX {
                    (self, Err(DecodeError::MessageOverflow))
                } else if size < self.total_size {
                    (PartialMessage { data: self.data + data, ..self }, Ok(None))
                } else if size == self.total_size {
                    (PartialMessage::idle(), Ok(Some(self.data + data)))
                } else {
                    (PartialMessage::idle(), Ok(None))
                }
            },
        }
    }
}

impl CompleteData {
    /// Starts with no message.
    pub fn new() -> (r: CompleteData)
        ensures
            r@ == PartialMessage::idle(),
    {
        CompleteData { total_size: 0, data: Vec::new() }
    }

    /// Takes a block, and returns the message that it completes, if any.
    pub fn process_data(&mut self, block: DrdynvcDataPdu) -> (r: Result<
        Option<Vec<u8>>,
        DecodeError,
    >)
        ensures
            (final(self)@, received_view(r)) == old(self)@.after(block@),
    {
        match block {
            DrdynvcDataPdu::DataFirst(p) => Ok(self.process_data_first_pdu(p)),
            DrdynvcDataPdu::Data(p) => self.process_data_pdu(p),
        }
    }

    fn process_data_first_pdu(&mut self, block: DataFirstPdu) -> (r: Option<Vec<u8>>)
        ensures
            (final(self)@, received_view(Ok(r))) == old(self)@.after(
                DrdynvcDataPdu::DataFirst(block)@,
            ),
    {
        let total_size: usize = block.length as usize;
        if self.total_size != 0 || self.data.len() != 0 {
            self.data.clear();
        }
        if total_size == block.data.len() {
            assert(self.data@ =~= seq![]);
            Some(block.data)
        } else {
            self.total_size = total_size;
            self.data = block.data;
            None
        }
    }

    fn process_data_pdu(&mut self, block: DataPdu) -> (r: Result<Option<Vec<u8>>, DecodeError>)
        ensures
            (final(self)@, received_view(r)) == old(self)@.after(DrdynvcDataPdu::Data(block)@),
    {
        if self.total_size == 0 && self.data.len() == 0 {
            assert(self@ =~= PartialMessage::idle());
            return Ok(Some(block.data));
        }
        let mut rest = block.data;
        match self.data.len().checked_add(rest.len()) {
            Some(size) => if size < self.total_size {
                self.data.append(&mut rest);
                Ok(None)
            } else if size == self.total_size {
                let mut message: Vec<u8> = Vec::new();
                message.append(&mut self.data);
                message.append(&mut rest);
                self.total_size = 0;
                assert(message@ =~= old(self)@.data + block.data@);
                assert(self@ =~= PartialMessage::idle());
                Ok(Some(message))
            } else {
                self.total_size = 0;
                self.data.clear();
                assert(self@ =~= PartialMessage::idle());
                Ok(None)
            },
            None => Err(DecodeError::MessageOverflow),
        }
    }
}

} // verus!
