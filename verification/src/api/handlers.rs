//! The decisions of the request handlers: which form field is which, when a
//! request is complete, and how a conversation grows.

use vstd::prelude::*;
use vstd::string::*;
use core::time::Duration;
use crate::api::models::{AudioResponse, ChatGPTResponse, ChatMessage, HealthStatus};

verus! {

/// The instruction that opens every conversation.
pub const SYSTEM_PROMPT: &'static str =
    "You are a friendly and empathetic voice assistant. Speak naturally and conversationally, like a trusted friend. Keep responses concise but warm and engaging. Remember to maintain a friendly vibe in all interactions. Use a casual, approachable tone while staying helpful and informative. When appropriate, show personality and humor, but always prioritize being helpful and clear.";

/// The parts of a voice request's form.
#[derive(Debug, Clone, Copy, PartialEq, Eq, Structural)]
pub enum Field {
    Audio,
    SessionId,
    ConversationHistory,
    /// Any other field, and a field without a name; both are skipped.
    Other,
}

/// Why a voice request is refused.
#[derive(Debug, Clone, Copy, PartialEq, Eq, Structural)]
pub enum RequestError {
    /// The audio field was there, but empty.
    EmptyAudio,
    /// The form ended without audio.
    MissingAudio,
}

impl Field {
    pub open spec fn named(name: Option<Seq<char>>) -> Field {
        match name {
            Some(text) => if text == "audio"@ {
                Field::Audio
            } else if text == "session_id"@ {
                Field::SessionId
            } else if text == "conversation_history"@ {
                Field::ConversationHistory
            } else {
                Field::Other
            },
            None => Field::Other,
        }
    }

    /// Tells the form's fields apart by name.
    pub fn from_name(name: Option<&str>) -> (field: Field)
        ensures
            field == Field::named(
                match name {
                    Some(text) => Some(text@),
                    None => None,
                },
            ),
    {
        match name {
            Some(text) => {
                let owned = String::from_str(text);
                if owned == String::from_str("audio") {
                    Field::Audio
                } else if owned == String::from_str("session_id") {
                    Field::SessionId
                } else if owned == String::from_str("conversation_history") {
                    Field::ConversationHistory
                } else {
                    Field::Other
                }
            },
            None => Field::Other,
        }
    }
}

impl RequestError {
    pub fn message(&self) -> (text: &'static str)
        ensures
            text@ == match self {
                RequestError::EmptyAudio => "Empty audio data received"@,
                RequestError::MissingAudio => "No audio data found in request"@,
            },
    {
        match self {
            RequestError::EmptyAudio => "Empty audio data received",
            RequestError::MissingAudio => "No audio data found in request",
        }
    }
}

/// A voice request while its form is being read.
pub struct VoiceRequest {
    pub audio_data: Vec<u8>,
    pub session_id: String,
    pub conversation_history: Vec<ChatMessage>,
}

impl VoiceRequest {
    /// The request before any field was read.
    pub fn new() -> (request: VoiceRequest)
        ensures
            request.audio_data@.len() == 0,
            request.session_id@.len() == 0,
            request.conversation_history@.len() == 0,
    {
        VoiceRequest {
            audio_data: Vec::new(),
            session_id: String::new(),
            conversation_history: Vec::new(),
        }
    }

    /// Takes the audio field. Empty audio ends the request with `EmptyAudio`;
    /// otherwise the data replaces what an earlier audio field brought.
    pub fn accept_audio(&mut self, data: Vec<u8>) -> (r: Result<(), RequestError>)
        ensures
            final(self).session_id == old(self).session_id,
            final(self).conversation_history == old(self).conversation_history,
            data@.len() == 0 ==> r == Err::<(), RequestError>(RequestError::EmptyAudio) && final(self).audio_data == old(self).audio_data,
            data@.len() > 0 ==> r is Ok && final(self).audio_data == data,
    {
        if data.len() == 0 {
            return Err(RequestError::EmptyAudio);
        }
        self.audio_data = data;
        Ok(())
    }

    /// Ends the form. Without audio the request is refused with
    /// `MissingAudio`. A request without a session identifier gets `fresh_id`.
    pub fn complete(self, fresh_id: String) -> (r: Result<VoiceRequest, RequestError>)
        ensures
            self.audio_data@.len() == 0 ==> r == Err::<VoiceRequest, RequestError>(
                RequestError::MissingAudio,
            ),
            self.audio_data@.len() > 0 ==> (r matches Ok(request) && request.audio_data
                == self.audio_data && request.conversation_history == self.conversation_history
                && request.session_id == (if self.session_id@.len() == 0 {
                fresh_id
            } else {
                self.session_id
            })),
    {
        if self.audio_data.len() == 0 {
            return Err(RequestError::MissingAudio);
        }
        let session_id = if self.session_id.as_str().is_empty() {
            fresh_id
        } else {
            self.session_id
        };
        Ok(
            VoiceRequest {
                audio_data: self.audio_data,
                session_id,
                conversation_history: self.conversation_history,
            },
        )
    }
}

/// Whether a message has the given role and content.
pub open spec fn says(message: ChatMessage, role: Seq<char>, content: Seq<char>) -> bool {
    message.role@ == role && message.content@ == content
}

/// Opens a conversation: an empty history gets the system prompt as its first
/// message, any other history stays as it is.
pub fn begin_conversation(conversation_history: &mut Vec<ChatMessage>)
    ensures
        old(conversation_history)@.len() > 0 ==> final(conversation_history)@ == old(conversation_history)@,
        old(conversation_history)@.len() == 0 ==> final(conversation_history)@.len() == 1 && says(
            final(conversation_history)@[0],
            "system"@,
            SYSTEM_PROMPT@,
        ),
{
    if conversation_history.len() == 0 {
        conversation_history.push(
            ChatMessage { role: String::from_str("system"), content: String::from_str(SYSTEM_PROMPT) },
        );
    }
}

/// Appends what the user said.
pub fn push_user_message(conversation_history: &mut Vec<ChatMessage>, text: &str)
    ensures
        final(conversation_history)@.len() == old(conversation_history)@.len() + 1,
        final(conversation_history)@.drop_last() == old(conversation_history)@,
        says(final(conversation_history)@.last(), "user"@, text@),
{
    conversation_history.push(
        ChatMessage { role: String::from_str("user"), content: String::from_str(text) },
    );
    assert(conversation_history@.drop_last() =~= old(conversation_history)@);
}

/// Takes the chat service's answer: the content of its first choice, which is
/// also appended to the history as the assistant's turn. An answer without
/// choices gives `None` and leaves the history alone.
pub fn accept_reply(conversation_history: &mut Vec<ChatMessage>, response: &ChatGPTResponse) -> (r:
    Option<String>)
    ensures
        response.choices@.len() == 0 ==> r is None && final(conversation_history)@ == old(conversation_history)@,
        response.choices@.len() > 0 ==> (r matches Some(reply) && reply@
            == response.choices@[0].message.content@ && final(conversation_history)@.len()
            == old(conversation_history)@.len() + 1 && final(conversation_history)@.drop_last()
            == old(conversation_history)@ && says(
            final(conversation_history)@.last(),
            "assistant"@,
            reply@,
        )),
{
    if response.choices.len() == 0 {
        return None;
    }
    let assistant_message = response.choices[0].message.content.clone();
    conversation_history.push(
        ChatMessage { role: String::from_str("assistant"), content: assistant_message.clone() },
    );
    assert(conversation_history@.drop_last() =~= old(conversation_history)@);
    Some(assistant_message)
}

/// The reply to a health check of a running service.
pub fn health_status(version: &str, uptime: Duration) -> (status: HealthStatus)
    ensures
        status.status@ == "healthy"@,
        status.version@ == version@,
        status.uptime == uptime,
{
    HealthStatus { status: String::from_str("healthy"), version: String::from_str(version), uptime }
}

/// The reply to a voice request.
pub fn audio_response(text: String, audio_data: Vec<u8>) -> (response: AudioResponse)
    ensures
        response.text == text,
        response.audio_data == audio_data,
{
    AudioResponse { audio_data, text }
}

} // verus!
