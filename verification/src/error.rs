//! Error types of the engine and of the service around it.

use vstd::prelude::*;
use vstd::string::*;

verus! {

/// Why a transcode session ended without output. Every error is terminal for
/// the session that produced it.
#[derive(Debug, Clone, PartialEq, Eq)]
pub enum TranscodeError {
    /// The container has no audio track.
    NoAudioStream,
    /// No decoder exists for the selected stream's codec.
    UnsupportedCodec,
    /// A decoded frame reported a sample format outside the supported three;
    /// the field is the reported format's name.
    UnsupportedFormat(String),
    /// Channel count, sample rate or sample format changed during the session.
    InconsistentStream,
    /// The codec reported a hard failure; the field is its diagnostic.
    Decode(String),
    /// The output container cannot hold the stream: a channel count or sample
    /// rate of zero, sizes beyond its 32-bit fields, or samples that are no
    /// whole frames.
    Container,
}

impl TranscodeError {
    /// The text of the error, as shown to a user.
    pub open spec fn message_spec(self) -> Seq<char> {
        match self {
            TranscodeError::NoAudioStream => "No audio stream found"@,
            TranscodeError::UnsupportedCodec => "Unsupported audio codec"@,
            TranscodeError::UnsupportedFormat(name) => "Unsupported audio format: "@ + name@,
            TranscodeError::InconsistentStream => "Inconsistent audio stream"@,
            TranscodeError::Decode(diagnostic) => "Decode error: "@ + diagnostic@,
            TranscodeError::Container => "Cannot write the output container"@,
        }
    }

    pub fn message(&self) -> (text: String)
        ensures
            text@ == self.message_spec(),
    {
        match self {
            TranscodeError::NoAudioStream => String::from_str("No audio stream found"),
            TranscodeError::UnsupportedCodec => String::from_str("Unsupported audio codec"),
            TranscodeError::UnsupportedFormat(name) => String::from_str(
                "Unsupported audio format: ",
            ).concat(name.as_str()),
            TranscodeError::InconsistentStream => String::from_str("Inconsistent audio stream"),
            TranscodeError::Decode(diagnostic) => String::from_str("Decode error: ").concat(
                diagnostic.as_str(),
            ),
            TranscodeError::Container => String::from_str("Cannot write the output container"),
        }
    }
}

/// The body of an error reply.
#[derive(Debug, Clone)]
pub struct ErrorResponse {
    pub error: String,
}

/// The status of a reply to a request that asked for something missing.
pub const STATUS_NOT_FOUND: u16 = 404;

/// The status of a reply to a request that failed for any other reason.
pub const STATUS_INTERNAL_SERVER_ERROR: u16 = 500;

/// The bytes of `not found`.
pub open spec fn not_found_marker() -> Seq<u8> {
    seq![110u8, 111, 116, 32, 102, 111, 117, 110, 100]
}

/// Whether `needle` stands in `haystack` at offset `at`.
pub open spec fn occurs_at(haystack: Seq<u8>, needle: Seq<u8>, at: int) -> bool {
    &&& 0 <= at
    &&& at + needle.len() <= haystack.len()
    &&& haystack.subrange(at, at + needle.len()) == needle
}

pub open spec fn contains_bytes(haystack: Seq<u8>, needle: Seq<u8>) -> bool {
    exists|at: int| occurs_at(haystack, needle, at)
}

/// Whether `needle` stands in `haystack` at offset `at`.
fn matches_at(haystack: &[u8], needle: &[u8], at: usize) -> (b: bool)
    requires
        at + needle@.len() <= haystack@.len(),
    ensures
        b == occurs_at(haystack@, needle@, at as int),
{
    let total = haystack.len();
    let mut k: usize = 0;
    while k < needle.len()
        invariant
            k <= needle@.len(),
            at + needle@.len() <= haystack@.len() == total,
            forall|j: int| 0 <= j < k ==> haystack@[at + j] == needle@[j],
        decreases needle@.len() - k,
    {
        if haystack[at + k] != needle[k] {
            proof {
                let part = haystack@.subrange(at as int, at + needle@.len());
                assert(part[k as int] == haystack@[at + k]);
            }
            return false;
        }
        k += 1;
    }
    proof {
        assert(haystack@.subrange(at as int, at + needle@.len()) =~= needle@);
    }
    true
}

/// Searches `haystack` for `needle`.
pub fn find_bytes(haystack: &[u8], needle: &[u8]) -> (found: bool)
    ensures
        found == contains_bytes(haystack@, needle@),
{
    if needle.len() > haystack.len() {
        return false;
    }
    let last = haystack.len() - needle.len();
    let mut at: usize = 0;
    while at < last
        invariant
            at <= last,
            last + needle@.len() == haystack@.len(),
            forall|j: int| 0 <= j < at ==> !occurs_at(haystack@, needle@, j),
        decreases last - at,
    {
        if matches_at(haystack, needle, at) {
            return true;
        }
        at += 1;
    }
    matches_at(haystack, needle, last)
}

/// What went wrong while serving a request, as text.
#[derive(Debug, Clone)]
pub struct AppError {
    message: String,
}

impl View for AppError {
    type V = Seq<char>;

    closed spec fn view(&self) -> Seq<char> {
        self.message@
    }
}

impl AppError {
    /// The status that a message gets: 404 where it speaks of something not
    /// found, 500 otherwise.
    pub open spec fn status_of(message: Seq<char>) -> u16 {
        if contains_bytes(vstd::utf8::encode_utf8(message), not_found_marker()) {
            STATUS_NOT_FOUND
        } else {
            STATUS_INTERNAL_SERVER_ERROR
        }
    }

    pub fn new(message: String) -> (error: AppError)
        ensures
            error@ == message@,
    {
        AppError { message }
    }

    /// The error of a failed transcode session, by its text.
    pub fn from_transcode(cause: &TranscodeError) -> (error: AppError)
        ensures
            error@ == cause.message_spec(),
    {
        AppError { message: cause.message() }
    }

    pub fn message(&self) -> (text: &str)
        ensures
            text@ == self@,
    {
        self.message.as_str()
    }

    /// The status code of the reply.
    pub fn status_code(&self) -> (status: u16)
        ensures
            status == AppError::status_of(self@),
    {
        let needle: Vec<u8> = vec![110u8, 111, 116, 32, 102, 111, 117, 110, 100];
        assert(needle@ =~= not_found_marker());
        if find_bytes(self.message.as_str().as_bytes(), needle.as_slice()) {
            STATUS_NOT_FOUND
        } else {
            STATUS_INTERNAL_SERVER_ERROR
        }
    }

    /// The body of the reply.
    pub fn into_response(self) -> (body: ErrorResponse)
        ensures
            body.error@ == self@,
    {
        ErrorResponse { error: self.message }
    }
}

} // verus!
