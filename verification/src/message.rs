//! The application-level messages exchanged between device and host, and
//! their binary encoding.
//!
//! The encoding is self-describing and length-implicit: one leading tag byte
//! names the variant, and every field is either fixed-width or carries its
//! own length prefix, so a decoder can find the message boundary from the
//! byte stream alone.

use crate::action::Action;
use crate::action::ActionView;
use crate::codec::{decode_message_at, encode_action, encode_config, encode_levels,
    spec_message_decode, spec_message_encode, wf_message};
use crate::errors::MessageError;
use crate::audiolevels::AudioLvls;
use crate::config::Config;
use crate::config::ConfigView;
use vstd::prelude::*;

verus! {

/// One application-level event, exchanged in either direction.
#[derive(Debug, Clone, PartialEq)]
pub enum Message {
    /// The whole configuration, sent once after connecting.
    StartupConfiguration(Config),
    /// Rebind one software button to an action.
    EditSWBtn(u8, Action),
    /// Rebind one hardware button to an action.
    EditHWBtn(u8, Action),
    /// A button fired, carrying the action to perform.
    BtnPress(Action),
    /// The current slider level readings.
    AudioLvls(AudioLvls),
}

/// The mathematical value of a [`Message`].
pub enum MessageView {
    StartupConfiguration(ConfigView),
    EditSWBtn(u8, ActionView),
    EditHWBtn(u8, ActionView),
    BtnPress(ActionView),
    AudioLvls(Seq<u16>),
}

impl View for Message {
    type V = MessageView;

    open spec fn view(&self) -> MessageView {
        match self {
            Message::StartupConfiguration(c) => MessageView::StartupConfiguration(c@),
            Message::EditSWBtn(i, a) => MessageView::EditSWBtn(*i, a@),
            Message::EditHWBtn(i, a) => MessageView::EditHWBtn(*i, a@),
            Message::BtnPress(a) => MessageView::BtnPress(a@),
            Message::AudioLvls(l) => MessageView::AudioLvls(l@),
        }
    }
}

impl Message {
    /// Well-formed messages carry a well-formed configuration; the other
    /// variants need nothing beyond their types.
    pub open spec fn wf(&self) -> bool {
        match self {
            Message::StartupConfiguration(c) => c.wf(),
            _ => true,
        }
    }

    /// Encodes the message to its exact binary form.
    ///
    /// Encoding cannot fail for well-formed in-memory values, so the result
    /// is always `Ok`; the `Result` shape is kept because transports report
    /// their own failures alongside encoding ones.
    pub fn serialize(&self) -> (r: Result<Vec<u8>, MessageError>)
        requires
            self.wf(),
        ensures
            r matches Ok(bytes) && bytes@ == spec_message_encode(self@),
            wf_message(self@),
    {
        let mut buf: Vec<u8> = Vec::new();
        match self {
            Message::StartupConfiguration(cfg) => {
                buf.push(0u8);
                encode_config(&mut buf, cfg);
            },
            Message::EditSWBtn(idx, action) => {
                buf.push(1u8);
                buf.push(*idx);
                encode_action(&mut buf, action);
            },
            Message::EditHWBtn(idx, action) => {
                buf.push(2u8);
                buf.push(*idx);
                encode_action(&mut buf, action);
            },
            Message::BtnPress(action) => {
                buf.push(3u8);
                encode_action(&mut buf, action);
            },
            Message::AudioLvls(levels) => {
                buf.push(4u8);
                encode_levels(&mut buf, levels);
                proof {
                    levels.lemma_view_len();
                }
            },
        }
        proof {
            assert(buf@ =~= spec_message_encode(self@));
        }
        Ok(buf)
    }

    /// Decodes one message from a byte buffer.
    ///
    /// Succeeds exactly when the buffer holds one valid message encoding and
    /// nothing else; any truncated, corrupt, oversized or trailing bytes are
    /// reported as [`MessageError::Cbor`].
    pub fn deserialize(data: &[u8]) -> (r: Result<Message, MessageError>)
        ensures
            r matches Ok(m) ==> spec_message_decode(data@) == Some(m@) && m.wf(),
            r is Err ==> r == Err::<Message, MessageError>(MessageError::Cbor)
                && spec_message_decode(data@) is None,
    {
        match decode_message_at(data) {
            Some((m, end)) => {
                if end == data.len() {
                    Ok(m)
                } else {
                    Err(MessageError::Cbor)
                }
            },
            None => Err(MessageError::Cbor),
        }
    }
}

} // verus!
