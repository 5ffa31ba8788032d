//! The diagnostics event schema and its fixed JSON line form.
//!
//! Every value that can reach the diagnostics log is one of the enums below or
//! a bounded integer: no event carries a string, URL, filename or message. The
//! serializer turns an event into one JSON object whose text is fully
//! determined by the event, the sequence number and the timestamp.
use vstd::prelude::*;
use crate::error_kind::ErrorKind;
use crate::text::{
    bytes_match_at, decimal, lemma_decimal_len_u64, lemma_utf8_len_at_most_four_per_char, push_decimal,
    push_str,
};
use vstd::string::StringExecFns;
use vstd::string::StrSliceExecFns;

verus! {

/// Longest line, newline included, that the log accepts.
pub const MAX_LINE_BYTES: usize = 2048;
/// Largest candidate or surface ordinal that an event reports.
pub const MAX_CANDIDATE_ORDINAL: usize = 32;
/// Largest byte count that an event reports.
pub const MAX_REPORTED_BYTE_COUNT: usize = 67108864;

#[derive(Clone, Copy, Debug, PartialEq, Eq, Hash, Structural)]
pub enum DiagnosticFlow {
    SelectedDetail,
    RemoteLookup,
}

#[derive(Clone, Copy, Debug, PartialEq, Eq, Hash, Structural)]
pub enum ImageSource {
    ResolvedAdf,
    FallbackCandidate,
}

impl ImageSource {
    pub open spec fn json_name(self) -> Seq<char> {
        match self {
            ImageSource::ResolvedAdf => "resolved_adf"@,
            ImageSource::FallbackCandidate => "fallback_candidate"@,
        }
    }

    pub fn as_json(self) -> (s: &'static str)
        ensures
            s@ == self.json_name(),
    {
        match self {
            ImageSource::ResolvedAdf => "resolved_adf",
            ImageSource::FallbackCandidate => "fallback_candidate",
        }
    }
}

impl DiagnosticFlow {
    pub open spec fn json_name(self) -> Seq<char> {
        match self {
            DiagnosticFlow::SelectedDetail => "selected_detail"@,
            DiagnosticFlow::RemoteLookup => "remote_lookup"@,
        }
    }

    pub fn as_json(self) -> (s: &'static str)
        ensures
            s@ == self.json_name(),
    {
        match self {
            DiagnosticFlow::SelectedDetail => "selected_detail",
            DiagnosticFlow::RemoteLookup => "remote_lookup",
        }
    }
}

/// The error categories that diagnostics may record. They mirror
/// [`ErrorKind`] one for one, so no raw application error reaches the log.
#[derive(Clone, Copy, Debug, PartialEq, Eq, Hash, Structural)]
pub enum DiagnosticErrorKind {
    Authentication,
    Authorization,
    RateLimited,
    Offline,
    Cancelled,
    InvalidInput,
    NotFound,
    Upstream,
    Storage,
    Notification,
    Internal,
    UnknownOutcome,
}

impl DiagnosticErrorKind {
    pub open spec fn json_name(self) -> Seq<char> {
        match self {
            DiagnosticErrorKind::Authentication => "authentication"@,
            DiagnosticErrorKind::Authorization => "authorization"@,
            DiagnosticErrorKind::RateLimited => "rate_limited"@,
            DiagnosticErrorKind::Offline => "offline"@,
            DiagnosticErrorKind::Cancelled => "cancelled"@,
            DiagnosticErrorKind::InvalidInput => "invalid_input"@,
            DiagnosticErrorKind::NotFound => "not_found"@,
            DiagnosticErrorKind::Upstream => "upstream"@,
            DiagnosticErrorKind::Storage => "storage"@,
            DiagnosticErrorKind::Notification => "notification"@,
            DiagnosticErrorKind::Internal => "internal"@,
            DiagnosticErrorKind::UnknownOutcome => "unknown_outcome"@,
        }
    }

    pub fn as_json(self) -> (s: &'static str)
        ensures
            s@ == self.json_name(),
    {
        match self {
            DiagnosticErrorKind::Authentication => "authentication",
            DiagnosticErrorKind::Authorization => "authorization",
            DiagnosticErrorKind::RateLimited => "rate_limited",
            DiagnosticErrorKind::Offline => "offline",
            DiagnosticErrorKind::Cancelled => "cancelled",
            DiagnosticErrorKind::InvalidInput => "invalid_input",
            DiagnosticErrorKind::NotFound => "not_found",
            DiagnosticErrorKind::Upstream => "upstream",
            DiagnosticErrorKind::Storage => "storage",
            DiagnosticErrorKind::Notification => "notification",
            DiagnosticErrorKind::Internal => "internal",
            DiagnosticErrorKind::UnknownOutcome => "unknown_outcome",
        }
    }

    /// The diagnostic category of an application error category.
    pub open spec fn spec_from_error_kind(kind: ErrorKind) -> DiagnosticErrorKind {
        match kind {
            ErrorKind::Authentication => DiagnosticErrorKind::Authentication,
            ErrorKind::Authorization => DiagnosticErrorKind::Authorization,
            ErrorKind::RateLimited => DiagnosticErrorKind::RateLimited,
            ErrorKind::Offline => DiagnosticErrorKind::Offline,
            ErrorKind::Cancelled => DiagnosticErrorKind::Cancelled,
            ErrorKind::InvalidInput => DiagnosticErrorKind::InvalidInput,
            ErrorKind::NotFound => DiagnosticErrorKind::NotFound,
            ErrorKind::Upstream => DiagnosticErrorKind::Upstream,
            ErrorKind::Storage => DiagnosticErrorKind::Storage,
            ErrorKind::Notification => DiagnosticErrorKind::Notification,
            ErrorKind::Internal => DiagnosticErrorKind::Internal,
            ErrorKind::UnknownOutcome => DiagnosticErrorKind::UnknownOutcome,
        }
    }

    pub fn from_error_kind(kind: ErrorKind) -> (d: DiagnosticErrorKind)
        ensures
            d == Self::spec_from_error_kind(kind),
    {
        match kind {
            ErrorKind::Authentication => DiagnosticErrorKind::Authentication,
            ErrorKind::Authorization => DiagnosticErrorKind::Authorization,
            ErrorKind::RateLimited => DiagnosticErrorKind::RateLimited,
            ErrorKind::Offline => DiagnosticErrorKind::Offline,
            ErrorKind::Cancelled => DiagnosticErrorKind::Cancelled,
            ErrorKind::InvalidInput => DiagnosticErrorKind::InvalidInput,
            ErrorKind::NotFound => DiagnosticErrorKind::NotFound,
            ErrorKind::Upstream => DiagnosticErrorKind::Upstream,
            ErrorKind::Storage => DiagnosticErrorKind::Storage,
            ErrorKind::Notification => DiagnosticErrorKind::Notification,
            ErrorKind::Internal => DiagnosticErrorKind::Internal,
            ErrorKind::UnknownOutcome => DiagnosticErrorKind::UnknownOutcome,
        }
    }
}

#[derive(Clone, Copy, Debug, PartialEq, Eq, Hash, Structural)]
pub enum ImageFetchResult {
    Succeeded,
    Failed(DiagnosticErrorKind),
}

#[derive(Clone, Copy, Debug, PartialEq, Eq, Hash, Structural)]
pub enum DesktopNotificationTestResult {
    Accepted { notification_id: u32 },
    Failed(DiagnosticErrorKind),
}

#[derive(Clone, Copy, Debug, PartialEq, Eq, Hash, Structural)]
pub enum ResponseMime {
    Png,
    Jpeg,
    Gif,
    Webp,
    OctetStream,
    Unsupported,
}

impl ResponseMime {
    /// The class of a normalized (trimmed, ASCII lower-cased) MIME value.
    pub open spec fn spec_classify(normalized: Seq<char>) -> ResponseMime {
        if normalized == "image/png"@ {
            ResponseMime::Png
        } else if normalized == "image/jpeg"@ || normalized == "image/jpg"@ {
            ResponseMime::Jpeg
        } else if normalized == "image/gif"@ {
            ResponseMime::Gif
        } else if normalized == "image/webp"@ {
            ResponseMime::Webp
        } else if normalized == "application/octet-stream"@ {
            ResponseMime::OctetStream
        } else {
            ResponseMime::Unsupported
        }
    }

    /// Classifies a response MIME without retaining the supplied value.
    pub fn classify(value: &str) -> (mime: ResponseMime)
        ensures
            mime == Self::spec_classify(crate::text::normalized_label(value@)),
    {
        let normalized = crate::text::normalize_label(value);
        let n = normalized.as_str();
        if crate::text::str_equals(n, "image/png") {
            ResponseMime::Png
        } else if crate::text::str_equals(n, "image/jpeg") || crate::text::str_equals(
            n,
            "image/jpg",
        ) {
            ResponseMime::Jpeg
        } else if crate::text::str_equals(n, "image/gif") {
            ResponseMime::Gif
        } else if crate::text::str_equals(n, "image/webp") {
            ResponseMime::Webp
        } else if crate::text::str_equals(n, "application/octet-stream") {
            ResponseMime::OctetStream
        } else {
            ResponseMime::Unsupported
        }
    }

    pub open spec fn json_name(self) -> Seq<char> {
        match self {
            ResponseMime::Png => "png"@,
            ResponseMime::Jpeg => "jpeg"@,
            ResponseMime::Gif => "gif"@,
            ResponseMime::Webp => "webp"@,
            ResponseMime::OctetStream => "octet_stream"@,
            ResponseMime::Unsupported => "unsupported"@,
        }
    }

    pub fn as_json(self) -> (s: &'static str)
        ensures
            s@ == self.json_name(),
    {
        match self {
            ResponseMime::Png => "png",
            ResponseMime::Jpeg => "jpeg",
            ResponseMime::Gif => "gif",
            ResponseMime::Webp => "webp",
            ResponseMime::OctetStream => "octet_stream",
            ResponseMime::Unsupported => "unsupported",
        }
    }
}

#[derive(Clone, Copy, Debug, PartialEq, Eq, Hash, Structural)]
pub enum ImageSignature {
    Png,
    Jpeg,
    Gif,
    Webp,
    Unknown,
}

/// Whether `bytes` begins with `prefix`.
pub open spec fn starts_with(bytes: Seq<u8>, prefix: Seq<u8>) -> bool {
    prefix.len() <= bytes.len() && bytes.subrange(0, prefix.len() as int) == prefix
}

pub open spec fn png_magic() -> Seq<u8> {
    seq![0x89u8, 0x50u8, 0x4eu8, 0x47u8, 0x0du8, 0x0au8, 0x1au8, 0x0au8]
}

pub open spec fn jpeg_magic() -> Seq<u8> {
    seq![0xffu8, 0xd8u8, 0xffu8]
}

/// `GIF87a`.
pub open spec fn gif87_magic() -> Seq<u8> {
    seq![0x47u8, 0x49u8, 0x46u8, 0x38u8, 0x37u8, 0x61u8]
}

/// `GIF89a`.
pub open spec fn gif89_magic() -> Seq<u8> {
    seq![0x47u8, 0x49u8, 0x46u8, 0x38u8, 0x39u8, 0x61u8]
}

/// `RIFF`.
pub open spec fn riff_magic() -> Seq<u8> {
    seq![0x52u8, 0x49u8, 0x46u8, 0x46u8]
}

/// `WEBP`.
pub open spec fn webp_magic() -> Seq<u8> {
    seq![0x57u8, 0x45u8, 0x42u8, 0x50u8]
}

impl ImageSignature {
    /// The signature class of a byte prefix.
    pub open spec fn spec_classify(bytes: Seq<u8>) -> ImageSignature {
        if starts_with(bytes, png_magic()) {
            ImageSignature::Png
        } else if starts_with(bytes, jpeg_magic()) {
            ImageSignature::Jpeg
        } else if starts_with(bytes, gif87_magic()) || starts_with(bytes, gif89_magic()) {
            ImageSignature::Gif
        } else if bytes.len() >= 12 && starts_with(bytes, riff_magic()) && bytes.subrange(8, 12)
            == webp_magic() {
            ImageSignature::Webp
        } else {
            ImageSignature::Unknown
        }
    }

    /// Classifies only the leading bytes and never retains or serializes them.
    pub fn classify(bytes: &[u8]) -> (signature: ImageSignature)
        ensures
            signature == Self::spec_classify(bytes@),
    {
        let png: [u8; 8] = [0x89, 0x50, 0x4e, 0x47, 0x0d, 0x0a, 0x1a, 0x0a];
        let jpeg: [u8; 3] = [0xff, 0xd8, 0xff];
        let gif87: [u8; 6] = [0x47, 0x49, 0x46, 0x38, 0x37, 0x61];
        let gif89: [u8; 6] = [0x47, 0x49, 0x46, 0x38, 0x39, 0x61];
        let riff: [u8; 4] = [0x52, 0x49, 0x46, 0x46];
        let webp: [u8; 4] = [0x57, 0x45, 0x42, 0x50];
        assert(png@ =~= png_magic());
        assert(jpeg@ =~= jpeg_magic());
        assert(gif87@ =~= gif87_magic());
        assert(gif89@ =~= gif89_magic());
        assert(riff@ =~= riff_magic());
        assert(webp@ =~= webp_magic());
        if bytes_match_at(bytes, 0, png.as_slice()) {
            ImageSignature::Png
        } else if bytes_match_at(bytes, 0, jpeg.as_slice()) {
            ImageSignature::Jpeg
        } else if bytes_match_at(bytes, 0, gif87.as_slice()) || bytes_match_at(
            bytes,
            0,
            gif89.as_slice(),
        ) {
            ImageSignature::Gif
        } else if bytes.len() >= 12 && bytes_match_at(bytes, 0, riff.as_slice())
            && bytes_match_at(bytes, 8, webp.as_slice()) {
            ImageSignature::Webp
        } else {
            ImageSignature::Unknown
        }
    }

    pub open spec fn json_name(self) -> Seq<char> {
        match self {
            ImageSignature::Png => "png"@,
            ImageSignature::Jpeg => "jpeg"@,
            ImageSignature::Gif => "gif"@,
            ImageSignature::Webp => "webp"@,
            ImageSignature::Unknown => "unknown"@,
        }
    }

    pub fn as_json(self) -> (s: &'static str)
        ensures
            s@ == self.json_name(),
    {
        match self {
            ImageSignature::Png => "png",
            ImageSignature::Jpeg => "jpeg",
            ImageSignature::Gif => "gif",
            ImageSignature::Webp => "webp",
            ImageSignature::Unknown => "unknown",
        }
    }
}

#[derive(Clone, Copy, Debug, PartialEq, Eq, Hash, Structural)]
pub enum ImagePreflight {
    Accepted,
    Empty,
    UnsupportedCachedMime,
    ResponseMimeRejected,
    SignatureRejected,
    AggregateRejected,
}

impl ImagePreflight {
    pub open spec fn json_name(self) -> Seq<char> {
        match self {
            ImagePreflight::Accepted => "accepted"@,
            ImagePreflight::Empty => "empty"@,
            ImagePreflight::UnsupportedCachedMime => "unsupported_cached_mime"@,
            ImagePreflight::ResponseMimeRejected => "response_mime_rejected"@,
            ImagePreflight::SignatureRejected => "signature_rejected"@,
            ImagePreflight::AggregateRejected => "aggregate_rejected"@,
        }
    }

    pub fn as_json(self) -> (s: &'static str)
        ensures
            s@ == self.json_name(),
    {
        match self {
            ImagePreflight::Accepted => "accepted",
            ImagePreflight::Empty => "empty",
            ImagePreflight::UnsupportedCachedMime => "unsupported_cached_mime",
            ImagePreflight::ResponseMimeRejected => "response_mime_rejected",
            ImagePreflight::SignatureRejected => "signature_rejected",
            ImagePreflight::AggregateRejected => "aggregate_rejected",
        }
    }
}

#[derive(Clone, Copy, Debug, PartialEq, Eq, Hash, Structural)]
pub enum ImageStateReason {
    Loading,
    Ready,
    Failed,
    Cancelled,
    Stale,
    Missing,
    Unsupported,
}

impl ImageStateReason {
    pub open spec fn json_name(self) -> Seq<char> {
        match self {
            ImageStateReason::Loading => "loading"@,
            ImageStateReason::Ready => "ready"@,
            ImageStateReason::Failed => "failed"@,
            ImageStateReason::Cancelled => "cancelled"@,
            ImageStateReason::Stale => "stale"@,
            ImageStateReason::Missing => "missing"@,
            ImageStateReason::Unsupported => "unsupported"@,
        }
    }

    pub fn as_json(self) -> (s: &'static str)
        ensures
            s@ == self.json_name(),
    {
        match self {
            ImageStateReason::Loading => "loading",
            ImageStateReason::Ready => "ready",
            ImageStateReason::Failed => "failed",
            ImageStateReason::Cancelled => "cancelled",
            ImageStateReason::Stale => "stale",
            ImageStateReason::Missing => "missing",
            ImageStateReason::Unsupported => "unsupported",
        }
    }
}

#[derive(Clone, Copy, Debug, PartialEq, Eq, Hash, Structural)]
pub enum DecodeFallbackReason {
    DecodeFailed,
}

impl DecodeFallbackReason {
    pub open spec fn json_name(self) -> Seq<char> {
        "decode_failed"@
    }

    pub fn as_json(self) -> (s: &'static str)
        ensures
            s@ == self.json_name(),
    {
        "decode_failed"
    }
}

#[derive(Clone, Copy, Debug, PartialEq, Eq, Hash, Structural)]
pub enum AttachmentDiagnosticAttempt {
    Thumbnail,
    OriginalFallback,
    ExplicitDownload,
}

impl AttachmentDiagnosticAttempt {
    pub open spec fn json_name(self) -> Seq<char> {
        match self {
            AttachmentDiagnosticAttempt::Thumbnail => "thumbnail"@,
            AttachmentDiagnosticAttempt::OriginalFallback => "original_fallback"@,
            AttachmentDiagnosticAttempt::ExplicitDownload => "explicit_download"@,
        }
    }

    pub fn as_json(self) -> (s: &'static str)
        ensures
            s@ == self.json_name(),
    {
        match self {
            AttachmentDiagnosticAttempt::Thumbnail => "thumbnail",
            AttachmentDiagnosticAttempt::OriginalFallback => "original_fallback",
            AttachmentDiagnosticAttempt::ExplicitDownload => "explicit_download",
        }
    }
}

#[derive(Clone, Copy, Debug, PartialEq, Eq, Hash, Structural)]
pub enum AttachmentDiagnosticStage {
    Transport,
    Status,
    ContentType,
    Body,
    Validation,
}

impl AttachmentDiagnosticStage {
    pub open spec fn json_name(self) -> Seq<char> {
        match self {
            AttachmentDiagnosticStage::Transport => "transport"@,
            AttachmentDiagnosticStage::Status => "status"@,
            AttachmentDiagnosticStage::ContentType => "content_type"@,
            AttachmentDiagnosticStage::Body => "body"@,
            AttachmentDiagnosticStage::Validation => "validation"@,
        }
    }

    pub fn as_json(self) -> (s: &'static str)
        ensures
            s@ == self.json_name(),
    {
        match self {
            AttachmentDiagnosticStage::Transport => "transport",
            AttachmentDiagnosticStage::Status => "status",
            AttachmentDiagnosticStage::ContentType => "content_type",
            AttachmentDiagnosticStage::Body => "body",
            AttachmentDiagnosticStage::Validation => "validation",
        }
    }
}

#[derive(Clone, Copy, Debug, PartialEq, Eq, Hash, Structural)]
pub enum AttachmentDiagnosticMime {
    Missing,
    Malformed,
    Png,
    Jpeg,
    Gif,
    Webp,
    OctetStream,
    Other,
}

impl AttachmentDiagnosticMime {
    pub open spec fn json_name(self) -> Seq<char> {
        match self {
            AttachmentDiagnosticMime::Missing => "missing"@,
            AttachmentDiagnosticMime::Malformed => "malformed"@,
            AttachmentDiagnosticMime::Png => "png"@,
            AttachmentDiagnosticMime::Jpeg => "jpeg"@,
            AttachmentDiagnosticMime::Gif => "gif"@,
            AttachmentDiagnosticMime::Webp => "webp"@,
            AttachmentDiagnosticMime::OctetStream => "octet_stream"@,
            AttachmentDiagnosticMime::Other => "other"@,
        }
    }

    pub fn as_json(self) -> (s: &'static str)
        ensures
            s@ == self.json_name(),
    {
        match self {
            AttachmentDiagnosticMime::Missing => "missing",
            AttachmentDiagnosticMime::Malformed => "malformed",
            AttachmentDiagnosticMime::Png => "png",
            AttachmentDiagnosticMime::Jpeg => "jpeg",
            AttachmentDiagnosticMime::Gif => "gif",
            AttachmentDiagnosticMime::Webp => "webp",
            AttachmentDiagnosticMime::OctetStream => "octet_stream",
            AttachmentDiagnosticMime::Other => "other",
        }
    }
}

#[derive(Clone, Copy, Debug, PartialEq, Eq, Hash, Structural)]
pub enum AttachmentDiagnosticBody {
    Empty,
    TooLarge,
    ReadFailed,
}

impl AttachmentDiagnosticBody {
    pub open spec fn json_name(self) -> Seq<char> {
        match self {
            AttachmentDiagnosticBody::Empty => "empty"@,
            AttachmentDiagnosticBody::TooLarge => "too_large"@,
            AttachmentDiagnosticBody::ReadFailed => "read_failed"@,
        }
    }

    pub fn as_json(self) -> (s: &'static str)
        ensures
            s@ == self.json_name(),
    {
        match self {
            AttachmentDiagnosticBody::Empty => "empty",
            AttachmentDiagnosticBody::TooLarge => "too_large",
            AttachmentDiagnosticBody::ReadFailed => "read_failed",
        }
    }
}

#[derive(Clone, Copy, Debug, PartialEq, Eq, Hash, Structural)]
pub enum AttachmentDiagnosticTransport {
    ConnectFailed,
    TimedOut,
    RequestFailed,
}

impl AttachmentDiagnosticTransport {
    pub open spec fn json_name(self) -> Seq<char> {
        match self {
            AttachmentDiagnosticTransport::ConnectFailed => "connect_failed"@,
            AttachmentDiagnosticTransport::TimedOut => "timed_out"@,
            AttachmentDiagnosticTransport::RequestFailed => "request_failed"@,
        }
    }

    pub fn as_json(self) -> (s: &'static str)
        ensures
            s@ == self.json_name(),
    {
        match self {
            AttachmentDiagnosticTransport::ConnectFailed => "connect_failed",
            AttachmentDiagnosticTransport::TimedOut => "timed_out",
            AttachmentDiagnosticTransport::RequestFailed => "request_failed",
        }
    }
}

/// The only values that can be emitted. No variant holds text; the one
/// numeric identifier is the daemon receipt ID of a local notification test.
#[derive(Clone, Copy, Debug, PartialEq, Eq, Hash, Structural)]
#[allow(inconsistent_fields)]
pub enum DiagnosticEvent {
    SessionStarted,
    DesktopNotificationTestStarted,
    DesktopNotificationTestResult(DesktopNotificationTestResult),
    ImageFetchStarted {
        flow: DiagnosticFlow,
        load_token: u64,
        candidate_ordinal: u8,
        surface_ordinal: u8,
        source: ImageSource,
    },
    ImageFetchResult {
        flow: DiagnosticFlow,
        load_token: u64,
        candidate_ordinal: u8,
        surface_ordinal: u8,
        source: ImageSource,
        result: ImageFetchResult,
    },
    ImageResponse {
        flow: DiagnosticFlow,
        load_token: u64,
        candidate_ordinal: u8,
        surface_ordinal: u8,
        source: ImageSource,
        mime: ResponseMime,
        signature: ImageSignature,
        byte_count: u32,
        preflight: ImagePreflight,
    },
    ImageState {
        flow: DiagnosticFlow,
        load_token: u64,
        candidate_ordinal: u8,
        surface_ordinal: u8,
        source: ImageSource,
        reason: ImageStateReason,
    },
    GpuiDecodeFallback {
        flow: DiagnosticFlow,
        load_token: u64,
        candidate_ordinal: u8,
        surface_ordinal: u8,
        source: ImageSource,
        reason: DecodeFallbackReason,
    },
    AttachmentReadDiagnostic {
        flow: DiagnosticFlow,
        load_token: u64,
        candidate_ordinal: u8,
        surface_ordinal: u8,
        source: ImageSource,
        attempt: AttachmentDiagnosticAttempt,
        stage: AttachmentDiagnosticStage,
        status_code: Option<u16>,
        mime_class: Option<AttachmentDiagnosticMime>,
        body_class: Option<AttachmentDiagnosticBody>,
        transport_class: Option<AttachmentDiagnosticTransport>,
    },
}

/// `min(value, MAX_CANDIDATE_ORDINAL)`.
pub open spec fn spec_bounded_candidate(value: int) -> u8 {
    if value < MAX_CANDIDATE_ORDINAL {
        value as u8
    } else {
        MAX_CANDIDATE_ORDINAL as u8
    }
}

/// `min(value, MAX_REPORTED_BYTE_COUNT)`.
pub open spec fn spec_bounded_byte_count(value: int) -> u32 {
    if value < MAX_REPORTED_BYTE_COUNT {
        value as u32
    } else {
        MAX_REPORTED_BYTE_COUNT as u32
    }
}

pub fn bounded_candidate(value: usize) -> (b: u8)
    ensures
        b == spec_bounded_candidate(value as int),
        b <= MAX_CANDIDATE_ORDINAL,
{
    if value < MAX_CANDIDATE_ORDINAL {
        value as u8
    } else {
        MAX_CANDIDATE_ORDINAL as u8
    }
}

pub fn bounded_byte_count(value: usize) -> (b: u32)
    ensures
        b == spec_bounded_byte_count(value as int),
        b <= MAX_REPORTED_BYTE_COUNT,
{
    if value < MAX_REPORTED_BYTE_COUNT {
        value as u32
    } else {
        MAX_REPORTED_BYTE_COUNT as u32
    }
}

impl DiagnosticEvent {
    pub fn image_fetch_started(
        flow: DiagnosticFlow,
        load_token: u64,
        candidate_ordinal: usize,
        surface_ordinal: usize,
        source: ImageSource,
    ) -> (event: Self)
        ensures
            event == (DiagnosticEvent::ImageFetchStarted {
                flow,
                load_token,
                candidate_ordinal: spec_bounded_candidate(candidate_ordinal as int),
                surface_ordinal: spec_bounded_candidate(surface_ordinal as int),
                source,
            }),
    {
        DiagnosticEvent::ImageFetchStarted {
            flow,
            load_token,
            candidate_ordinal: bounded_candidate(candidate_ordinal),
            surface_ordinal: bounded_candidate(surface_ordinal),
            source,
        }
    }

    pub fn image_fetch_result(
        flow: DiagnosticFlow,
        load_token: u64,
        candidate_ordinal: usize,
        surface_ordinal: usize,
        source: ImageSource,
        result: ImageFetchResult,
    ) -> (event: Self)
        ensures
            event == (DiagnosticEvent::ImageFetchResult {
                flow,
                load_token,
                candidate_ordinal: spec_bounded_candidate(candidate_ordinal as int),
                surface_ordinal: spec_bounded_candidate(surface_ordinal as int),
                source,
                result,
            }),
    {
        DiagnosticEvent::ImageFetchResult {
            flow,
            load_token,
            candidate_ordinal: bounded_candidate(candidate_ordinal),
            surface_ordinal: bounded_candidate(surface_ordinal),
            source,
            result,
        }
    }

    pub fn image_response(
        flow: DiagnosticFlow,
        load_token: u64,
        candidate_ordinal: usize,
        surface_ordinal: usize,
        source: ImageSource,
        mime: ResponseMime,
        signature: ImageSignature,
        byte_count: usize,
        preflight: ImagePreflight,
    ) -> (event: Self)
        ensures
            event == (DiagnosticEvent::ImageResponse {
                flow,
                load_token,
                candidate_ordinal: spec_bounded_candidate(candidate_ordinal as int),
                surface_ordinal: spec_bounded_candidate(surface_ordinal as int),
                source,
                mime,
                signature,
                byte_count: spec_bounded_byte_count(byte_count as int),
                preflight,
            }),
    {
        DiagnosticEvent::ImageResponse {
            flow,
            load_token,
            candidate_ordinal: bounded_candidate(candidate_ordinal),
            surface_ordinal: bounded_candidate(surface_ordinal),
            source,
            mime,
            signature,
            byte_count: bounded_byte_count(byte_count),
            preflight,
        }
    }

    pub fn image_state(
        flow: DiagnosticFlow,
        load_token: u64,
        candidate_ordinal: usize,
        surface_ordinal: usize,
        source: ImageSource,
        reason: ImageStateReason,
    ) -> (event: Self)
        ensures
            event == (DiagnosticEvent::ImageState {
                flow,
                load_token,
                candidate_ordinal: spec_bounded_candidate(candidate_ordinal as int),
                surface_ordinal: spec_bounded_candidate(surface_ordinal as int),
                source,
                reason,
            }),
    {
        DiagnosticEvent::ImageState {
            flow,
            load_token,
            candidate_ordinal: bounded_candidate(candidate_ordinal),
            surface_ordinal: bounded_candidate(surface_ordinal),
            source,
            reason,
        }
    }

    pub fn gpui_decode_fallback(
        flow: DiagnosticFlow,
        load_token: u64,
        candidate_ordinal: usize,
        surface_ordinal: usize,
        source: ImageSource,
        reason: DecodeFallbackReason,
    ) -> (event: Self)
        ensures
            event == (DiagnosticEvent::GpuiDecodeFallback {
                flow,
                load_token,
                candidate_ordinal: spec_bounded_candidate(candidate_ordinal as int),
                surface_ordinal: spec_bounded_candidate(surface_ordinal as int),
                source,
                reason,
            }),
    {
        DiagnosticEvent::GpuiDecodeFallback {
            flow,
            load_token,
            candidate_ordinal: bounded_candidate(candidate_ordinal),
            surface_ordinal: bounded_candidate(surface_ordinal),
            source,
            reason,
        }
    }

    pub fn attachment_read_diagnostic(
        flow: DiagnosticFlow,
        load_token: u64,
        candidate_ordinal: usize,
        surface_ordinal: usize,
        source: ImageSource,
        attempt: AttachmentDiagnosticAttempt,
        stage: AttachmentDiagnosticStage,
        status_code: Option<u16>,
        mime_class: Option<AttachmentDiagnosticMime>,
        body_class: Option<AttachmentDiagnosticBody>,
        transport_class: Option<AttachmentDiagnosticTransport>,
    ) -> (event: Self)
        ensures
            event == (DiagnosticEvent::AttachmentReadDiagnostic {
                flow,
                load_token,
                candidate_ordinal: spec_bounded_candidate(candidate_ordinal as int),
                surface_ordinal: spec_bounded_candidate(surface_ordinal as int),
                source,
                attempt,
                stage,
                status_code,
                mime_class,
                body_class,
                transport_class,
            }),
    {
        DiagnosticEvent::AttachmentReadDiagnostic {
            flow,
            load_token,
            candidate_ordinal: bounded_candidate(candidate_ordinal),
            surface_ordinal: bounded_candidate(surface_ordinal),
            source,
            attempt,
            stage,
            status_code,
            mime_class,
            body_class,
            transport_class,
        }
    }
}

/// `"name"` for a present value, `null` for an absent one.
pub open spec fn quoted_or_null(name: Option<Seq<char>>) -> Seq<char> {
    match name {
        Some(n) => "\""@ + n + "\""@,
        None => "null"@,
    }
}

/// The fields that every image event shares, after the event name.
pub open spec fn image_fields(
    flow: DiagnosticFlow,
    load_token: u64,
    candidate: u8,
    surface: u8,
    source: ImageSource,
) -> Seq<char> {
    "\",\"flow\":\""@ + flow.json_name() + "\",\"load_token\":"@ + decimal(load_token as nat)
        + ",\"candidate\":"@ + decimal(candidate as nat) + ",\"surface\":"@ + decimal(
        surface as nat,
    ) + ",\"source\":\""@ + source.json_name() + "\""@
}

/// The text of an event after the common prefix, from its name to the closing brace.
pub open spec fn event_body(event: DiagnosticEvent) -> Seq<char> {
    match event {
        DiagnosticEvent::SessionStarted => "session_started\"}"@,
        DiagnosticEvent::DesktopNotificationTestStarted => "desktop_notification_test_started\"}"@,
        DiagnosticEvent::DesktopNotificationTestResult(result) => match result {
            DesktopNotificationTestResult::Accepted { notification_id } =>
                "desktop_notification_test_result\",\"outcome\":\"accepted\",\"notification_id\":"@
                + decimal(notification_id as nat) + "}"@,
            DesktopNotificationTestResult::Failed(error) =>
                "desktop_notification_test_result\",\"outcome\":\"failed\",\"error\":\""@
                + error.json_name() + "\"}"@,
        },
        DiagnosticEvent::ImageFetchStarted {
            flow,
            load_token,
            candidate_ordinal,
            surface_ordinal,
            source,
        } => "image_fetch_started"@ + image_fields(
            flow,
            load_token,
            candidate_ordinal,
            surface_ordinal,
            source,
        ) + "}"@,
        DiagnosticEvent::ImageFetchResult {
            flow,
            load_token,
            candidate_ordinal,
            surface_ordinal,
            source,
            result,
        } => "image_fetch_result"@ + image_fields(
            flow,
            load_token,
            candidate_ordinal,
            surface_ordinal,
            source,
        ) + match result {
            ImageFetchResult::Succeeded => ",\"outcome\":\"succeeded\"}"@,
            ImageFetchResult::Failed(kind) => ",\"outcome\":\"failed\",\"error\":\""@
                + kind.json_name() + "\"}"@,
        },
        DiagnosticEvent::ImageResponse {
            flow,
            load_token,
            candidate_ordinal,
            surface_ordinal,
            source,
            mime,
            signature,
            byte_count,
            preflight,
        } => "image_response"@ + image_fields(
            flow,
            load_token,
            candidate_ordinal,
            surface_ordinal,
            source,
        ) + (",\"mime\":\""@ + mime.json_name() + "\",\"signature\":\""@ + signature.json_name()
            + "\",\"bytes\":"@ + decimal(byte_count as nat) + ",\"preflight\":\""@
            + preflight.json_name() + "\"}"@),
        DiagnosticEvent::ImageState {
            flow,
            load_token,
            candidate_ordinal,
            surface_ordinal,
            source,
            reason,
        } => "image_state"@ + image_fields(
            flow,
            load_token,
            candidate_ordinal,
            surface_ordinal,
            source,
        ) + ",\"reason\":\""@ + reason.json_name() + "\"}"@,
        DiagnosticEvent::GpuiDecodeFallback {
            flow,
            load_token,
            candidate_ordinal,
            surface_ordinal,
            source,
            reason,
        } => "gpui_decode_fallback"@ + image_fields(
            flow,
            load_token,
            candidate_ordinal,
            surface_ordinal,
            source,
        ) + ",\"reason\":\""@ + reason.json_name() + "\"}"@,
        DiagnosticEvent::AttachmentReadDiagnostic {
            flow,
            load_token,
            candidate_ordinal,
            surface_ordinal,
            source,
            attempt,
            stage,
            status_code,
            mime_class,
            body_class,
            transport_class,
        } => "attachment_read_diagnostic"@ + image_fields(
            flow,
            load_token,
            candidate_ordinal,
            surface_ordinal,
            source,
        ) + attachment_head(attempt, stage, status_code) + attachment_classes(
            mime_class,
            body_class,
            transport_class,
        ),
    }
}

/// The complete JSON object of one log line, without its newline.
pub open spec fn event_json(event: DiagnosticEvent, sequence: u64, timestamp: u64) -> Seq<char> {
    "{\"v\":1,\"seq\":"@ + decimal(sequence as nat) + ",\"ts_unix_ms\":"@ + decimal(
        timestamp as nat,
    ) + ",\"event\":\""@ + event_body(event)
}

/// The UTF-8 bytes of the line of `event`, or `None` when the line with its
/// newline would exceed `MAX_LINE_BYTES`.
pub open spec fn spec_serialize_event(event: DiagnosticEvent, sequence: u64, timestamp: u64) -> Option<
    Seq<u8>,
> {
    let bytes = vstd::utf8::encode_utf8(event_json(event, sequence, timestamp));
    if bytes.len() + 1 <= MAX_LINE_BYTES {
        Some(bytes)
    } else {
        None
    }
}

fn push_image_fields(
    out: &mut String,
    flow: DiagnosticFlow,
    load_token: u64,
    candidate: u8,
    surface: u8,
    source: ImageSource,
)
    ensures
        final(out)@ == old(out)@ + image_fields(flow, load_token, candidate, surface, source),
{
    push_str(out, "\",\"flow\":\"");
    push_str(out, flow.as_json());
    push_str(out, "\",\"load_token\":");
    push_decimal(out, load_token);
    push_str(out, ",\"candidate\":");
    push_decimal(out, candidate as u64);
    push_str(out, ",\"surface\":");
    push_decimal(out, surface as u64);
    push_str(out, ",\"source\":\"");
    push_str(out, source.as_json());
    push_str(out, "\"");
    assert(out@ =~= old(out)@ + image_fields(flow, load_token, candidate, surface, source));
}

fn push_notification_result(out: &mut String, result: DesktopNotificationTestResult)
    ensures
        final(out)@ == old(out)@ + event_body(DiagnosticEvent::DesktopNotificationTestResult(result)),
{
    match result {
        DesktopNotificationTestResult::Accepted { notification_id } => {
            push_str(
                out,
                "desktop_notification_test_result\",\"outcome\":\"accepted\",\"notification_id\":",
            );
            push_decimal(out, notification_id as u64);
            push_str(out, "}");
        },
        DesktopNotificationTestResult::Failed(error) => {
            push_str(
                out,
                "desktop_notification_test_result\",\"outcome\":\"failed\",\"error\":\"",
            );
            push_str(out, error.as_json());
            push_str(out, "\"}");
        },
    }
    assert(out@ =~= old(out)@ + event_body(DiagnosticEvent::DesktopNotificationTestResult(result)));
}

fn push_fetch_outcome(out: &mut String, result: ImageFetchResult)
    ensures
        final(out)@ == old(out)@ + match result {
            ImageFetchResult::Succeeded => ",\"outcome\":\"succeeded\"}"@,
            ImageFetchResult::Failed(kind) => ",\"outcome\":\"failed\",\"error\":\""@
                + kind.json_name() + "\"}"@,
        },
{
    match result {
        ImageFetchResult::Succeeded => {
            push_str(out, ",\"outcome\":\"succeeded\"}");
        },
        ImageFetchResult::Failed(kind) => {
            push_str(out, ",\"outcome\":\"failed\",\"error\":\"");
            push_str(out, kind.as_json());
            push_str(out, "\"}");
            assert(out@ =~= old(out)@ + (",\"outcome\":\"failed\",\"error\":\""@
                + kind.json_name() + "\"}"@));
        },
    }
}

fn push_response_tail(
    out: &mut String,
    mime: ResponseMime,
    signature: ImageSignature,
    byte_count: u32,
    preflight: ImagePreflight,
)
    ensures
        final(out)@ == old(out)@ + (",\"mime\":\""@ + mime.json_name() + "\",\"signature\":\""@
            + signature.json_name() + "\",\"bytes\":"@ + decimal(byte_count as nat)
            + ",\"preflight\":\""@ + preflight.json_name() + "\"}"@),
{
    push_str(out, ",\"mime\":\"");
    push_str(out, mime.as_json());
    push_str(out, "\",\"signature\":\"");
    push_str(out, signature.as_json());
    push_str(out, "\",\"bytes\":");
    push_decimal(out, byte_count as u64);
    push_str(out, ",\"preflight\":\"");
    push_str(out, preflight.as_json());
    push_str(out, "\"}");
    assert(out@ =~= old(out)@ + (",\"mime\":\""@ + mime.json_name() + "\",\"signature\":\""@
        + signature.json_name() + "\",\"bytes\":"@ + decimal(byte_count as nat)
        + ",\"preflight\":\""@ + preflight.json_name() + "\"}"@));
}

/// The attempt, stage and status fields of an attachment diagnostic.
pub open spec fn attachment_head(
    attempt: AttachmentDiagnosticAttempt,
    stage: AttachmentDiagnosticStage,
    status_code: Option<u16>,
) -> Seq<char> {
    ",\"attempt\":\""@ + attempt.json_name() + "\",\"stage\":\""@ + stage.json_name()
        + "\",\"status_code\":"@ + match status_code {
        Some(code) => decimal(code as nat),
        None => "null"@,
    }
}

pub open spec fn mime_class_name(m: Option<AttachmentDiagnosticMime>) -> Option<Seq<char>> {
    match m {
        Some(m) => Some(m.json_name()),
        None => None,
    }
}

pub open spec fn body_class_name(b: Option<AttachmentDiagnosticBody>) -> Option<Seq<char>> {
    match b {
        Some(b) => Some(b.json_name()),
        None => None,
    }
}

pub open spec fn transport_class_name(t: Option<AttachmentDiagnosticTransport>) -> Option<
    Seq<char>,
> {
    match t {
        Some(t) => Some(t.json_name()),
        None => None,
    }
}

/// The class fields of an attachment diagnostic, with the closing brace.
pub open spec fn attachment_classes(
    mime_class: Option<AttachmentDiagnosticMime>,
    body_class: Option<AttachmentDiagnosticBody>,
    transport_class: Option<AttachmentDiagnosticTransport>,
) -> Seq<char> {
    ",\"mime_class\":"@ + quoted_or_null(mime_class_name(mime_class)) + ",\"body_class\":"@
        + quoted_or_null(body_class_name(body_class)) + ",\"transport_class\":"@ + quoted_or_null(
        transport_class_name(transport_class),
    ) + "}"@
}

fn push_attachment_head(
    out: &mut String,
    attempt: AttachmentDiagnosticAttempt,
    stage: AttachmentDiagnosticStage,
    status_code: Option<u16>,
)
    ensures
        final(out)@ == old(out)@ + attachment_head(attempt, stage, status_code),
{
    push_str(out, ",\"attempt\":\"");
    push_str(out, attempt.as_json());
    push_str(out, "\",\"stage\":\"");
    push_str(out, stage.as_json());
    push_str(out, "\",\"status_code\":");
    let ghost mid = out@;
    assert(mid =~= old(out)@ + (",\"attempt\":\""@ + attempt.json_name() + "\",\"stage\":\""@
        + stage.json_name() + "\",\"status_code\":"@));
    match status_code {
        Some(code) => push_decimal(out, code as u64),
        None => push_str(out, "null"),
    }
    assert(out@ =~= old(out)@ + attachment_head(attempt, stage, status_code));
}

fn push_quoted(out: &mut String, name: &str)
    ensures
        final(out)@ == old(out)@ + quoted_or_null(Some(name@)),
{
    push_str(out, "\"");
    push_str(out, name);
    push_str(out, "\"");
    assert(out@ =~= old(out)@ + ("\""@ + name@ + "\""@));
}

fn push_mime_class(out: &mut String, m: Option<AttachmentDiagnosticMime>)
    ensures
        final(out)@ == old(out)@ + (",\"mime_class\":"@ + quoted_or_null(mime_class_name(m))),
{
    push_str(out, ",\"mime_class\":");
    let ghost mid = out@;
    match m {
        Some(m) => push_quoted(out, m.as_json()),
        None => push_str(out, "null"),
    }
    assert(out@ =~= old(out)@ + (",\"mime_class\":"@ + quoted_or_null(mime_class_name(m))));
}

fn push_body_class(out: &mut String, b: Option<AttachmentDiagnosticBody>)
    ensures
        final(out)@ == old(out)@ + (",\"body_class\":"@ + quoted_or_null(body_class_name(b))),
{
    push_str(out, ",\"body_class\":");
    match b {
        Some(b) => push_quoted(out, b.as_json()),
        None => push_str(out, "null"),
    }
    assert(out@ =~= old(out)@ + (",\"body_class\":"@ + quoted_or_null(body_class_name(b))));
}

fn push_transport_class(out: &mut String, t: Option<AttachmentDiagnosticTransport>)
    ensures
        final(out)@ == old(out)@ + (",\"transport_class\":"@ + quoted_or_null(
            transport_class_name(t),
        )),
{
    push_str(out, ",\"transport_class\":");
    match t {
        Some(t) => push_quoted(out, t.as_json()),
        None => push_str(out, "null"),
    }
    assert(out@ =~= old(out)@ + (",\"transport_class\":"@ + quoted_or_null(
        transport_class_name(t),
    )));
}

fn push_attachment_classes(
    out: &mut String,
    mime_class: Option<AttachmentDiagnosticMime>,
    body_class: Option<AttachmentDiagnosticBody>,
    transport_class: Option<AttachmentDiagnosticTransport>,
)
    ensures
        final(out)@ == old(out)@ + attachment_classes(mime_class, body_class, transport_class),
{
    push_mime_class(out, mime_class);
    push_body_class(out, body_class);
    push_transport_class(out, transport_class);
    push_str(out, "}");
    assert(out@ =~= old(out)@ + attachment_classes(mime_class, body_class, transport_class));
}

fn push_fetch_started(
    out: &mut String,
    flow: DiagnosticFlow,
    load_token: u64,
    candidate_ordinal: u8,
    surface_ordinal: u8,
    source: ImageSource,
)
    ensures
        final(out)@ == old(out)@ + event_body(
            DiagnosticEvent::ImageFetchStarted {
                flow,
                load_token,
                candidate_ordinal,
                surface_ordinal,
                source,
            },
        ),
{
    push_str(out, "image_fetch_started");
    push_image_fields(out, flow, load_token, candidate_ordinal, surface_ordinal, source);
    push_str(out, "}");
    assert(out@ =~= old(out)@ + ("image_fetch_started"@ + image_fields(
        flow,
        load_token,
        candidate_ordinal,
        surface_ordinal,
        source,
    ) + "}"@));
}

fn push_fetch_result(
    out: &mut String,
    flow: DiagnosticFlow,
    load_token: u64,
    candidate_ordinal: u8,
    surface_ordinal: u8,
    source: ImageSource,
    result: ImageFetchResult,
)
    ensures
        final(out)@ == old(out)@ + event_body(
            DiagnosticEvent::ImageFetchResult {
                flow,
                load_token,
                candidate_ordinal,
                surface_ordinal,
                source,
                result,
            },
        ),
{
    push_str(out, "image_fetch_result");
    push_image_fields(out, flow, load_token, candidate_ordinal, surface_ordinal, source);
    push_fetch_outcome(out, result);
    assert(out@ =~= old(out)@ + event_body(
        DiagnosticEvent::ImageFetchResult {
            flow,
            load_token,
            candidate_ordinal,
            surface_ordinal,
            source,
            result,
        },
    ));
}

fn push_response(
    out: &mut String,
    flow: DiagnosticFlow,
    load_token: u64,
    candidate_ordinal: u8,
    surface_ordinal: u8,
    source: ImageSource,
    mime: ResponseMime,
    signature: ImageSignature,
    byte_count: u32,
    preflight: ImagePreflight,
)
    ensures
        final(out)@ == old(out)@ + event_body(
            DiagnosticEvent::ImageResponse {
                flow,
                load_token,
                candidate_ordinal,
                surface_ordinal,
                source,
                mime,
                signature,
                byte_count,
                preflight,
            },
        ),
{
    push_str(out, "image_response");
    push_image_fields(out, flow, load_token, candidate_ordinal, surface_ordinal, source);
    push_response_tail(out, mime, signature, byte_count, preflight);
    assert(out@ =~= old(out)@ + event_body(
        DiagnosticEvent::ImageResponse {
            flow,
            load_token,
            candidate_ordinal,
            surface_ordinal,
            source,
            mime,
            signature,
            byte_count,
            preflight,
        },
    ));
}

fn push_state(
    out: &mut String,
    flow: DiagnosticFlow,
    load_token: u64,
    candidate_ordinal: u8,
    surface_ordinal: u8,
    source: ImageSource,
    reason: ImageStateReason,
)
    ensures
        final(out)@ == old(out)@ + event_body(
            DiagnosticEvent::ImageState {
                flow,
                load_token,
                candidate_ordinal,
                surface_ordinal,
                source,
                reason,
            },
        ),
{
    push_str(out, "image_state");
    push_image_fields(out, flow, load_token, candidate_ordinal, surface_ordinal, source);
    push_str(out, ",\"reason\":\"");
    push_str(out, reason.as_json());
    push_str(out, "\"}");
    assert(out@ =~= old(out)@ + event_body(
        DiagnosticEvent::ImageState {
            flow,
            load_token,
            candidate_ordinal,
            surface_ordinal,
            source,
            reason,
        },
    ));
}

fn push_decode_fallback(
    out: &mut String,
    flow: DiagnosticFlow,
    load_token: u64,
    candidate_ordinal: u8,
    surface_ordinal: u8,
    source: ImageSource,
    reason: DecodeFallbackReason,
)
    ensures
        final(out)@ == old(out)@ + event_body(
            DiagnosticEvent::GpuiDecodeFallback {
                flow,
                load_token,
                candidate_ordinal,
                surface_ordinal,
                source,
                reason,
            },
        ),
{
    push_str(out, "gpui_decode_fallback");
    push_image_fields(out, flow, load_token, candidate_ordinal, surface_ordinal, source);
    push_str(out, ",\"reason\":\"");
    push_str(out, reason.as_json());
    push_str(out, "\"}");
    assert(out@ =~= old(out)@ + event_body(
        DiagnosticEvent::GpuiDecodeFallback {
            flow,
            load_token,
            candidate_ordinal,
            surface_ordinal,
            source,
            reason,
        },
    ));
}

fn push_attachment(
    out: &mut String,
    flow: DiagnosticFlow,
    load_token: u64,
    candidate_ordinal: u8,
    surface_ordinal: u8,
    source: ImageSource,
    attempt: AttachmentDiagnosticAttempt,
    stage: AttachmentDiagnosticStage,
    status_code: Option<u16>,
    mime_class: Option<AttachmentDiagnosticMime>,
    body_class: Option<AttachmentDiagnosticBody>,
    transport_class: Option<AttachmentDiagnosticTransport>,
)
    ensures
        final(out)@ == old(out)@ + event_body(
            DiagnosticEvent::AttachmentReadDiagnostic {
                flow,
                load_token,
                candidate_ordinal,
                surface_ordinal,
                source,
                attempt,
                stage,
                status_code,
                mime_class,
                body_class,
                transport_class,
            },
        ),
{
    push_str(out, "attachment_read_diagnostic");
    push_image_fields(out, flow, load_token, candidate_ordinal, surface_ordinal, source);
    push_attachment_head(out, attempt, stage, status_code);
    push_attachment_classes(out, mime_class, body_class, transport_class);
    assert(out@ =~= old(out)@ + event_body(
        DiagnosticEvent::AttachmentReadDiagnostic {
            flow,
            load_token,
            candidate_ordinal,
            surface_ordinal,
            source,
            attempt,
            stage,
            status_code,
            mime_class,
            body_class,
            transport_class,
        },
    ));
}

fn push_event_body(out: &mut String, event: DiagnosticEvent)
    ensures
        final(out)@ == old(out)@ + event_body(event),
{
    match event {
        DiagnosticEvent::SessionStarted => push_str(out, "session_started\"}"),
        DiagnosticEvent::DesktopNotificationTestStarted => push_str(
            out,
            "desktop_notification_test_started\"}",
        ),
        DiagnosticEvent::DesktopNotificationTestResult(result) => push_notification_result(
            out,
            result,
        ),
        DiagnosticEvent::ImageFetchStarted {
            flow,
            load_token,
            candidate_ordinal,
            surface_ordinal,
            source,
        } => push_fetch_started(out, flow, load_token, candidate_ordinal, surface_ordinal, source),
        DiagnosticEvent::ImageFetchResult {
            flow,
            load_token,
            candidate_ordinal,
            surface_ordinal,
            source,
            result,
        } => push_fetch_result(
            out,
            flow,
            load_token,
            candidate_ordinal,
            surface_ordinal,
            source,
            result,
        ),
        DiagnosticEvent::ImageResponse {
            flow,
            load_token,
            candidate_ordinal,
            surface_ordinal,
            source,
            mime,
            signature,
            byte_count,
            preflight,
        } => push_response(
            out,
            flow,
            load_token,
            candidate_ordinal,
            surface_ordinal,
            source,
            mime,
            signature,
            byte_count,
            preflight,
        ),
        DiagnosticEvent::ImageState {
            flow,
            load_token,
            candidate_ordinal,
            surface_ordinal,
            source,
            reason,
        } => push_state(out, flow, load_token, candidate_ordinal, surface_ordinal, source, reason),
        DiagnosticEvent::GpuiDecodeFallback {
            flow,
            load_token,
            candidate_ordinal,
            surface_ordinal,
            source,
            reason,
        } => push_decode_fallback(
            out,
            flow,
            load_token,
            candidate_ordinal,
            surface_ordinal,
            source,
            reason,
        ),
        DiagnosticEvent::AttachmentReadDiagnostic {
            flow,
            load_token,
            candidate_ordinal,
            surface_ordinal,
            source,
            attempt,
            stage,
            status_code,
            mime_class,
            body_class,
            transport_class,
        } => push_attachment(
            out,
            flow,
            load_token,
            candidate_ordinal,
            surface_ordinal,
            source,
            attempt,
            stage,
            status_code,
            mime_class,
            body_class,
            transport_class,
        ),
    }
}

/// Serializes `event` as one JSON object, or refuses it when the line and its
/// newline would exceed `MAX_LINE_BYTES`, which no event does.
pub fn serialize_event(event: DiagnosticEvent, sequence: u64, timestamp: u64) -> (line: Option<
    Vec<u8>,
>)
    ensures
        line is Some,
        match line {
            Some(bytes) => spec_serialize_event(event, sequence, timestamp) == Some(bytes@),
            None => spec_serialize_event(event, sequence, timestamp) is None,
        },
{
    let mut json = String::new();
    push_str(&mut json, "{\"v\":1,\"seq\":");
    push_decimal(&mut json, sequence);
    push_str(&mut json, ",\"ts_unix_ms\":");
    push_decimal(&mut json, timestamp);
    push_str(&mut json, ",\"event\":\"");
    push_event_body(&mut json, event);
    assert(json@ =~= event_json(event, sequence, timestamp));
    let bytes = json.as_str().as_bytes_vec();
    proof {
        lemma_every_line_fits(event, sequence, timestamp);
    }
    if bytes.len() < MAX_LINE_BYTES {
        Some(bytes)
    } else {
        None
    }
}


// Every line fits: each piece of a line is short, and a character takes at
// most four bytes.

proof fn lemma_image_source_name_len(x: ImageSource)
    ensures
        x.json_name().len() <= 24,
{
    reveal_strlit("fallback_candidate");
    reveal_strlit("resolved_adf");
}

proof fn lemma_diagnostic_flow_name_len(x: DiagnosticFlow)
    ensures
        x.json_name().len() <= 24,
{
    reveal_strlit("remote_lookup");
    reveal_strlit("selected_detail");
}

proof fn lemma_diagnostic_error_kind_name_len(x: DiagnosticErrorKind)
    ensures
        x.json_name().len() <= 24,
{
    reveal_strlit("authentication");
    reveal_strlit("authorization");
    reveal_strlit("cancelled");
    reveal_strlit("internal");
    reveal_strlit("invalid_input");
    reveal_strlit("not_found");
    reveal_strlit("notification");
    reveal_strlit("offline");
    reveal_strlit("rate_limited");
    reveal_strlit("storage");
    reveal_strlit("unknown_outcome");
    reveal_strlit("upstream");
}

proof fn lemma_response_mime_name_len(x: ResponseMime)
    ensures
        x.json_name().len() <= 24,
{
    reveal_strlit("gif");
    reveal_strlit("jpeg");
    reveal_strlit("octet_stream");
    reveal_strlit("png");
    reveal_strlit("unsupported");
    reveal_strlit("webp");
}

proof fn lemma_image_signature_name_len(x: ImageSignature)
    ensures
        x.json_name().len() <= 24,
{
    reveal_strlit("gif");
    reveal_strlit("jpeg");
    reveal_strlit("png");
    reveal_strlit("unknown");
    reveal_strlit("webp");
}

proof fn lemma_image_preflight_name_len(x: ImagePreflight)
    ensures
        x.json_name().len() <= 24,
{
    reveal_strlit("accepted");
    reveal_strlit("aggregate_rejected");
    reveal_strlit("empty");
    reveal_strlit("response_mime_rejected");
    reveal_strlit("signature_rejected");
    reveal_strlit("unsupported_cached_mime");
}

proof fn lemma_image_state_reason_name_len(x: ImageStateReason)
    ensures
        x.json_name().len() <= 24,
{
    reveal_strlit("cancelled");
    reveal_strlit("failed");
    reveal_strlit("loading");
    reveal_strlit("missing");
    reveal_strlit("ready");
    reveal_strlit("stale");
    reveal_strlit("unsupported");
}

proof fn lemma_decode_fallback_reason_name_len(x: DecodeFallbackReason)
    ensures
        x.json_name().len() <= 24,
{
    reveal_strlit("decode_failed");
}

proof fn lemma_attachment_diagnostic_attempt_name_len(x: AttachmentDiagnosticAttempt)
    ensures
        x.json_name().len() <= 24,
{
    reveal_strlit("explicit_download");
    reveal_strlit("original_fallback");
    reveal_strlit("thumbnail");
}

proof fn lemma_attachment_diagnostic_stage_name_len(x: AttachmentDiagnosticStage)
    ensures
        x.json_name().len() <= 24,
{
    reveal_strlit("body");
    reveal_strlit("content_type");
    reveal_strlit("status");
    reveal_strlit("transport");
    reveal_strlit("validation");
}

proof fn lemma_attachment_diagnostic_mime_name_len(x: AttachmentDiagnosticMime)
    ensures
        x.json_name().len() <= 24,
{
    reveal_strlit("gif");
    reveal_strlit("jpeg");
    reveal_strlit("malformed");
    reveal_strlit("missing");
    reveal_strlit("octet_stream");
    reveal_strlit("other");
    reveal_strlit("png");
    reveal_strlit("webp");
}

proof fn lemma_attachment_diagnostic_body_name_len(x: AttachmentDiagnosticBody)
    ensures
        x.json_name().len() <= 24,
{
    reveal_strlit("empty");
    reveal_strlit("read_failed");
    reveal_strlit("too_large");
}

proof fn lemma_attachment_diagnostic_transport_name_len(x: AttachmentDiagnosticTransport)
    ensures
        x.json_name().len() <= 24,
{
    reveal_strlit("connect_failed");
    reveal_strlit("request_failed");
    reveal_strlit("timed_out");
}

proof fn lemma_image_fields_len(
    flow: DiagnosticFlow,
    load_token: u64,
    candidate: u8,
    surface: u8,
    source: ImageSource,
)
    ensures
        image_fields(flow, load_token, candidate, surface, source).len() <= 169,
{
    reveal_strlit("\",\"flow\":\"");
    reveal_strlit("\",\"load_token\":");
    reveal_strlit(",\"candidate\":");
    reveal_strlit(",\"surface\":");
    reveal_strlit(",\"source\":\"");
    reveal_strlit("\"");
    lemma_diagnostic_flow_name_len(flow);
    lemma_image_source_name_len(source);
    lemma_decimal_len_u64(load_token);
    lemma_decimal_len_u64(candidate as u64);
    lemma_decimal_len_u64(surface as u64);
}

proof fn lemma_attachment_head_len(
    attempt: AttachmentDiagnosticAttempt,
    stage: AttachmentDiagnosticStage,
    status_code: Option<u16>,
)
    ensures
        attachment_head(attempt, stage, status_code).len() <= 108,
{
    reveal_strlit(",\"attempt\":\"");
    reveal_strlit("\",\"stage\":\"");
    reveal_strlit("\",\"status_code\":");
    reveal_strlit("null");
    lemma_attachment_diagnostic_attempt_name_len(attempt);
    lemma_attachment_diagnostic_stage_name_len(stage);
    if let Some(code) = status_code {
        lemma_decimal_len_u64(code as u64);
    }
}

proof fn lemma_quoted_or_null_len(name: Option<Seq<char>>)
    requires
        name matches Some(n) ==> n.len() <= 24,
    ensures
        quoted_or_null(name).len() <= 26,
{
    reveal_strlit("\"");
    reveal_strlit("null");
}

proof fn lemma_attachment_classes_len(
    mime_class: Option<AttachmentDiagnosticMime>,
    body_class: Option<AttachmentDiagnosticBody>,
    transport_class: Option<AttachmentDiagnosticTransport>,
)
    ensures
        attachment_classes(mime_class, body_class, transport_class).len() <= 126,
{
    reveal_strlit(",\"mime_class\":");
    reveal_strlit(",\"body_class\":");
    reveal_strlit(",\"transport_class\":");
    reveal_strlit("}");
    if let Some(m) = mime_class {
        lemma_attachment_diagnostic_mime_name_len(m);
    }
    if let Some(b) = body_class {
        lemma_attachment_diagnostic_body_name_len(b);
    }
    if let Some(t) = transport_class {
        lemma_attachment_diagnostic_transport_name_len(t);
    }
    lemma_quoted_or_null_len(mime_class_name(mime_class));
    lemma_quoted_or_null_len(body_class_name(body_class));
    lemma_quoted_or_null_len(transport_class_name(transport_class));
}

proof fn lemma_event_body_len(event: DiagnosticEvent)
    ensures
        event_body(event).len() <= 430,
{
    reveal_strlit("}");
    reveal_strlit("\"}");
    match event {
        DiagnosticEvent::SessionStarted => {
            reveal_strlit("session_started\"}");
        },
        DiagnosticEvent::DesktopNotificationTestStarted => {
            reveal_strlit("desktop_notification_test_started\"}");
        },
        DiagnosticEvent::DesktopNotificationTestResult(result) => match result {
            DesktopNotificationTestResult::Accepted { notification_id } => {
                reveal_strlit(
                    "desktop_notification_test_result\",\"outcome\":\"accepted\",\"notification_id\":",
                );
                lemma_decimal_len_u64(notification_id as u64);
            },
            DesktopNotificationTestResult::Failed(error) => {
                reveal_strlit(
                    "desktop_notification_test_result\",\"outcome\":\"failed\",\"error\":\"",
                );
                lemma_diagnostic_error_kind_name_len(error);
            },
        },
        DiagnosticEvent::ImageFetchStarted {
            flow,
            load_token,
            candidate_ordinal,
            surface_ordinal,
            source,
        } => {
            reveal_strlit("image_fetch_started");
            lemma_image_fields_len(flow, load_token, candidate_ordinal, surface_ordinal, source);
        },
        DiagnosticEvent::ImageFetchResult {
            flow,
            load_token,
            candidate_ordinal,
            surface_ordinal,
            source,
            result,
        } => {
            reveal_strlit("image_fetch_result");
            reveal_strlit(",\"outcome\":\"succeeded\"}");
            reveal_strlit(",\"outcome\":\"failed\",\"error\":\"");
            lemma_image_fields_len(flow, load_token, candidate_ordinal, surface_ordinal, source);
            if let ImageFetchResult::Failed(kind) = result {
                lemma_diagnostic_error_kind_name_len(kind);
            }
        },
        DiagnosticEvent::ImageResponse {
            flow,
            load_token,
            candidate_ordinal,
            surface_ordinal,
            source,
            mime,
            signature,
            byte_count,
            preflight,
        } => {
            reveal_strlit("image_response");
            reveal_strlit(",\"mime\":\"");
            reveal_strlit("\",\"signature\":\"");
            reveal_strlit("\",\"bytes\":");
            reveal_strlit(",\"preflight\":\"");
            lemma_image_fields_len(flow, load_token, candidate_ordinal, surface_ordinal, source);
            lemma_response_mime_name_len(mime);
            lemma_image_signature_name_len(signature);
            lemma_image_preflight_name_len(preflight);
            lemma_decimal_len_u64(byte_count as u64);
        },
        DiagnosticEvent::ImageState {
            flow,
            load_token,
            candidate_ordinal,
            surface_ordinal,
            source,
            reason,
        } => {
            reveal_strlit("image_state");
            reveal_strlit(",\"reason\":\"");
            lemma_image_fields_len(flow, load_token, candidate_ordinal, surface_ordinal, source);
            lemma_image_state_reason_name_len(reason);
        },
        DiagnosticEvent::GpuiDecodeFallback {
            flow,
            load_token,
            candidate_ordinal,
            surface_ordinal,
            source,
            reason,
        } => {
            reveal_strlit("gpui_decode_fallback");
            reveal_strlit(",\"reason\":\"");
            lemma_image_fields_len(flow, load_token, candidate_ordinal, surface_ordinal, source);
            lemma_decode_fallback_reason_name_len(reason);
        },
        DiagnosticEvent::AttachmentReadDiagnostic {
            flow,
            load_token,
            candidate_ordinal,
            surface_ordinal,
            source,
            attempt,
            stage,
            status_code,
            mime_class,
            body_class,
            transport_class,
        } => {
            reveal_strlit("attachment_read_diagnostic");
            lemma_image_fields_len(flow, load_token, candidate_ordinal, surface_ordinal, source);
            lemma_attachment_head_len(attempt, stage, status_code);
            lemma_attachment_classes_len(mime_class, body_class, transport_class);
        },
    }
}

/// Every event fits on one line: at any sequence number and time, its JSON
/// object with the newline takes at most `MAX_LINE_BYTES` bytes, so
/// `serialize_event` never refuses an event.
pub proof fn lemma_every_line_fits(event: DiagnosticEvent, sequence: u64, timestamp: u64)
    ensures
        spec_serialize_event(event, sequence, timestamp) is Some,
{
    reveal_strlit("{\"v\":1,\"seq\":");
    reveal_strlit(",\"ts_unix_ms\":");
    reveal_strlit(",\"event\":\"");
    lemma_decimal_len_u64(sequence);
    lemma_decimal_len_u64(timestamp);
    lemma_event_body_len(event);
    let json = event_json(event, sequence, timestamp);
    assert(json.len() <= 507);
    lemma_utf8_len_at_most_four_per_char(json);
}

/// A RIFF container whose form type at bytes 8 to 12 is `WEBP` is a WebP
/// image, whatever its chunk size at bytes 4 to 8 and whatever follows.
pub proof fn lemma_riff_webp_is_webp(bytes: Seq<u8>)
    requires
        bytes.len() >= 12,
        bytes[0] == 0x52u8,
        bytes[1] == 0x49u8,
        bytes[2] == 0x46u8,
        bytes[3] == 0x46u8,
        bytes[8] == 0x57u8,
        bytes[9] == 0x45u8,
        bytes[10] == 0x42u8,
        bytes[11] == 0x50u8,
    ensures
        ImageSignature::spec_classify(bytes) == ImageSignature::Webp,
{
    assert(bytes.subrange(0, 4) =~= riff_magic());
    assert(bytes.subrange(8, 12) =~= webp_magic());
    assert(bytes.subrange(0, 8) != png_magic()) by {
        assert(bytes.subrange(0, 8)[0] != png_magic()[0]);
    }
    assert(bytes.subrange(0, 3) != jpeg_magic()) by {
        assert(bytes.subrange(0, 3)[0] != jpeg_magic()[0]);
    }
    assert(bytes.subrange(0, 6) != gif87_magic()) by {
        assert(bytes.subrange(0, 6)[0] != gif87_magic()[0]);
    }
    assert(bytes.subrange(0, 6) != gif89_magic()) by {
        assert(bytes.subrange(0, 6)[0] != gif89_magic()[0]);
    }
}

/// Every standard image MIME type, however it is cased or padded, is
/// recognised as its own class, and so is the non-standard `image/jpg`;
/// `image/jpeg` and `image/jpg` are the only values that read as JPEG.
pub proof fn lemma_standard_mime_types_are_recognised(value: Seq<char>)
    ensures
        crate::text::normalized_label(value) == "image/png"@ ==> ResponseMime::spec_classify(
            crate::text::normalized_label(value),
        ) == ResponseMime::Png,
        crate::text::normalized_label(value) == "image/jpeg"@ ==> ResponseMime::spec_classify(
            crate::text::normalized_label(value),
        ) == ResponseMime::Jpeg,
        crate::text::normalized_label(value) == "image/jpg"@ ==> ResponseMime::spec_classify(
            crate::text::normalized_label(value),
        ) == ResponseMime::Jpeg,
        crate::text::normalized_label(value) == "image/gif"@ ==> ResponseMime::spec_classify(
            crate::text::normalized_label(value),
        ) == ResponseMime::Gif,
        crate::text::normalized_label(value) == "image/webp"@ ==> ResponseMime::spec_classify(
            crate::text::normalized_label(value),
        ) == ResponseMime::Webp,
        ResponseMime::spec_classify(crate::text::normalized_label(value)) == ResponseMime::Jpeg
            <==> (crate::text::normalized_label(value) == "image/jpeg"@
            || crate::text::normalized_label(value) == "image/jpg"@),
{
    reveal_strlit("image/png");
    reveal_strlit("image/jpeg");
    reveal_strlit("image/jpg");
    reveal_strlit("image/gif");
    reveal_strlit("image/webp");
    reveal_strlit("application/octet-stream");
    assert("image/jpeg"@ != "image/png"@) by {
        assert("image/jpeg"@.len() != "image/png"@.len());
    }
    assert("image/jpg"@ != "image/png"@) by {
        assert("image/jpg"@[6] != "image/png"@[6]);
    }
    assert("image/gif"@ != "image/png"@) by {
        assert("image/gif"@[6] != "image/png"@[6]);
    }
    assert("image/gif"@ != "image/jpeg"@) by {
        assert("image/gif"@.len() != "image/jpeg"@.len());
    }
    assert("image/gif"@ != "image/jpg"@) by {
        assert("image/gif"@[6] != "image/jpg"@[6]);
    }
    assert("image/webp"@ != "image/png"@) by {
        assert("image/webp"@.len() != "image/png"@.len());
    }
    assert("image/webp"@ != "image/jpeg"@) by {
        assert("image/webp"@[6] != "image/jpeg"@[6]);
    }
    assert("image/webp"@ != "image/jpg"@) by {
        assert("image/webp"@.len() != "image/jpg"@.len());
    }
    assert("image/webp"@ != "image/gif"@) by {
        assert("image/webp"@.len() != "image/gif"@.len());
    }
}

} // verus!
