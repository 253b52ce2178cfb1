//! The MIMO TTS API as this service uses it: endpoint URLs, the body of a
//! synthesis request, how an HTTP status is judged, and how the audio of a
//! reply is recovered. Sending requests and parsing JSON happen around these.

use vstd::prelude::*;
use base64::Engine;
use crate::error::AppError;
use crate::chunker::{strip_trailing_slashes, trim_trailing_slashes};
use crate::constants::DEFAULT_MODEL;
use crate::text::decimal_string;

verus! {

/// The connection settings of the API client (the HTTP connection itself is
/// held by the caller).
#[derive(Debug, Clone)]
pub struct MimoClient {
    pub api_key: String,
    /// The API base URL, without trailing slashes.
    pub base_url: String,
}

impl MimoClient {
    /// A client for the API at `base_url` (trailing slashes dropped).
    pub fn new(api_key: &str, base_url: &str) -> (r: Self)
        ensures
            r.api_key@ == api_key@,
            r.base_url@ == strip_trailing_slashes(base_url@),
    {
        MimoClient { api_key: String::from_str(api_key), base_url: trim_trailing_slashes(base_url) }
    }

    /// `{base}/v1/chat/completions`, where synthesis requests go.
    pub fn synthesize_url(&self) -> (r: String)
        ensures
            r@ == self.base_url@ + "/v1/chat/completions"@,
    {
        let mut s = self.base_url.clone();
        s.append("/v1/chat/completions");
        s
    }

    /// The headers of a synthesis request: the API key under `api-key`, and
    /// a JSON content type.
    pub fn synthesize_headers(&self) -> (r: Vec<(String, String)>)
        ensures
            r@.len() == 2,
            r@[0].0@ == "api-key"@ && r@[0].1@ == self.api_key@,
            r@[1].0@ == "Content-Type"@ && r@[1].1@ == "application/json"@,
    {
        let mut v: Vec<(String, String)> = Vec::new();
        v.push((String::from_str("api-key"), self.api_key.clone()));
        v.push((String::from_str("Content-Type"), String::from_str("application/json")));
        v
    }

    /// The headers of a tokenize request: the API key as a bearer token
    /// under `Authorization`.
    pub fn tokenize_headers(&self) -> (r: Vec<(String, String)>)
        ensures
            r@.len() == 1,
            r@[0].0@ == "Authorization"@ && r@[0].1@ == "Bearer "@ + self.api_key@,
    {
        let mut bearer = String::from_str("Bearer ");
        bearer.append(self.api_key.as_str());
        let mut v: Vec<(String, String)> = Vec::new();
        v.push((String::from_str("Authorization"), bearer));
        v
    }

    /// `{base}/v1/tokenize`, where tokenize requests go.
    pub fn tokenize_url(&self) -> (r: String)
        ensures
            r@ == self.base_url@ + "/v1/tokenize"@,
    {
        let mut s = self.base_url.clone();
        s.append("/v1/tokenize");
        s
    }
}

/// One message of a chat-completion request.
#[derive(Debug, Clone)]
pub struct ChatMessage {
    pub role: String,
    pub content: String,
}

/// The audio part of a chat-completion request.
#[derive(Debug, Clone)]
pub struct AudioParams {
    pub format: String,
    pub voice: String,
}

/// The body of a synthesis request.
#[derive(Debug, Clone)]
pub struct ChatCompletionRequest {
    pub model: String,
    pub messages: Vec<ChatMessage>,
    pub audio: AudioParams,
    pub stream: bool,
}

/// The body that asks for `text` to be spoken: an empty user turn, then the
/// text as the assistant's turn; WAV audio in `voice`; no streaming.
pub fn synthesis_request(text: &str, voice: &str, model: &str) -> (r: ChatCompletionRequest)
    ensures
        r.model@ == model@,
        r.messages@.len() == 2,
        r.messages@[0].role@ == "user"@ && r.messages@[0].content@ == Seq::<char>::empty(),
        r.messages@[1].role@ == "assistant"@ && r.messages@[1].content@ == text@,
        r.audio.format@ == "wav"@ && r.audio.voice@ == voice@,
        !r.stream,
{
    let mut messages: Vec<ChatMessage> = Vec::new();
    messages.push(ChatMessage { role: String::from_str("user"), content: String::new() });
    messages.push(ChatMessage { role: String::from_str("assistant"), content: String::from_str(text) });
    ChatCompletionRequest {
        model: String::from_str(model),
        messages,
        audio: AudioParams { format: String::from_str("wav"), voice: String::from_str(voice) },
        stream: false,
    }
}

/// The body of a tokenize request.
#[derive(Debug, Clone)]
pub struct TokenizeRequest {
    pub text: String,
    pub model: String,
}

/// The body that asks for `text` to be tokenized with the default model.
pub fn tokenize_request(text: &str) -> (r: TokenizeRequest)
    ensures
        r.text@ == text@,
        r.model@ == DEFAULT_MODEL@,
{
    TokenizeRequest { text: String::from_str(text), model: String::from_str(DEFAULT_MODEL) }
}

/// `{operation} returned {code} {reason}: {body}`: the status as the HTTP
/// client displays it, its code and reason phrase.
pub open spec fn http_failure_message(operation: Seq<char>, code: u16, reason: Seq<char>, body: Seq<char>) -> Seq<char> {
    operation + " returned "@ + crate::text::decimal(code as nat) + " "@ + reason + ": "@ + body
}

/// Whether an HTTP status code is a success (`200..=299`).
pub open spec fn http_success(code: u16) -> bool {
    200 <= code <= 299
}

/// Judges an HTTP answer by its status code: 429 is rate limiting, any
/// other code outside `200..=299` an internal error naming the operation,
/// the status (its code and `reason`, the reason phrase) and the body.
pub fn check_http_status(operation: &str, code: u16, reason: &str, body: &str) -> (r: Result<(), AppError>)
    ensures
        code == 429 ==> r == Err::<(), AppError>(AppError::RateLimited),
        code != 429 && http_success(code) ==> r is Ok,
        code != 429 && !http_success(code) ==> (r matches Err(AppError::Internal(m)) && m@ == http_failure_message(
            operation@,
            code,
            reason@,
            body@,
        )),
{
    if code == 429 {
        return Err(AppError::RateLimited);
    }
    if 200 <= code && code <= 299 {
        return Ok(());
    }
    let digits = decimal_string(code as u64);
    let mut m = String::from_str(operation);
    m.append(" returned ");
    m.append(digits.as_str());
    m.append(" ");
    m.append(reason);
    m.append(": ");
    m.append(body);
    Err(AppError::Internal(m))
}

/// `{operation} request failed: {detail}`: the request did not get through.
pub fn request_failed(operation: &str, detail: &str) -> (r: AppError)
    ensures
        r matches AppError::Internal(m) && m@ == operation@ + " request failed: "@ + detail@,
{
    let mut m = String::from_str(operation);
    m.append(" request failed: ");
    m.append(detail);
    AppError::Internal(m)
}

/// What the first choice of a synthesis reply carried.
#[derive(Debug, Clone)]
pub enum AudioReply {
    /// The reply had no choices.
    NoChoices,
    /// The first choice had no audio.
    NoAudio,
    /// The first choice's base64 audio data.
    Data(String),
}

/// What standard, padded base64 decoding (`base64::engine::general_purpose::STANDARD`)
/// makes of a text: the bytes, or the decoder's error as displayed when the
/// text is not valid base64. It depends on the text alone.
pub uninterp spec fn base64_standard_decoded(data: Seq<char>) -> Result<Seq<u8>, Seq<char>>;

/// A decoding result by its contents.
pub open spec fn decoded_view(r: Result<Vec<u8>, String>) -> Result<Seq<u8>, Seq<char>> {
    match r {
        Ok(v) => Ok(v@),
        Err(e) => Err(e@),
    }
}

/// `base64::engine::general_purpose::STANDARD.decode(data)`: the decoded
/// bytes when the text is valid base64, else the decoder's error as
/// displayed (`to_string`). What counts as valid, and the error's text, are
/// not restated.
#[verifier::external_body]
fn base64_decode(data: &str) -> (r: Result<Vec<u8>, String>)
    ensures
        decoded_view(r) == base64_standard_decoded(data@),
{
    match base64::engine::general_purpose::STANDARD.decode(data) {
        Ok(v) => Ok(v),
        Err(e) => Err(e.to_string()),
    }
}

/// The audio of a synthesis reply once its data has been decoded.
pub fn audio_from_decoded(decoded: Result<Vec<u8>, String>) -> (r: Result<Vec<u8>, AppError>)
    ensures
        decoded matches Ok(v) ==> (r matches Ok(w) && w@ == v@),
        decoded matches Err(e) ==> (r matches Err(AppError::Internal(m)) && m@ == "synthesize base64 decode failed: "@
            + e@),
{
    match decoded {
        Ok(v) => Ok(v),
        Err(e) => {
            let mut m = String::from_str("synthesize base64 decode failed: ");
            m.append(e.as_str());
            Err(AppError::Internal(m))
        },
    }
}

/// The audio bytes of a synthesis reply: refused when the reply has no
/// choices or no audio, or when the audio is not valid base64.
pub fn decode_audio_reply(reply: &AudioReply) -> (r: Result<Vec<u8>, AppError>)
    ensures
        reply is NoChoices ==> (r matches Err(AppError::Internal(m)) && m@ == "synthesize returned no choices"@),
        reply is NoAudio ==> (r matches Err(AppError::Internal(m)) && m@ == "synthesize returned no audio data"@),
        reply matches AudioReply::Data(d) ==> (base64_standard_decoded(d@) matches Ok(bytes) ==> (r matches Ok(w)
            && w@ == bytes)),
        reply matches AudioReply::Data(d) ==> (base64_standard_decoded(d@) matches Err(e) ==> (r matches Err(
            AppError::Internal(m),
        ) && m@ == "synthesize base64 decode failed: "@ + e)),
{
    match reply {
        AudioReply::NoChoices => Err(AppError::Internal(String::from_str("synthesize returned no choices"))),
        AudioReply::NoAudio => Err(AppError::Internal(String::from_str("synthesize returned no audio data"))),
        AudioReply::Data(d) => audio_from_decoded(base64_decode(d.as_str())),
    }
}

} // verus!
