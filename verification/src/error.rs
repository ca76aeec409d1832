//! What can go wrong with bytes and with the channels that carry them.

use vstd::prelude::*;

verus! {

/// The kinds of I/O failure that the rules of this crate tell apart.
#[derive(Debug, Clone, Copy, PartialEq, Eq, Structural)]
pub enum ErrorKind {
    InvalidInput,
    InvalidData,
    UnexpectedEof,
    WriteZero,
    TimedOut,
    Interrupted,
    WouldBlock,
    Other,
}

/// A failure of a channel: its kind and its text.
#[derive(Debug, Clone)]
pub struct IoError {
    pub kind: ErrorKind,
    pub message: String,
}

/// What an [`IoError`] stands for.
pub struct IoErrorView {
    pub kind: ErrorKind,
    pub message: Seq<char>,
}

impl View for IoError {
    type V = IoErrorView;

    open spec fn view(&self) -> IoErrorView {
        IoErrorView { kind: self.kind, message: self.message@ }
    }
}

impl IoError {
    /// A failure of kind `kind` that reads `message`.
    pub fn new(kind: ErrorKind, message: &str) -> (r: IoError)
        ensures
            r@ == (IoErrorView { kind, message: message@ }),
    {
        IoError { kind, message: message.to_string() }
    }
}

/// Why bytes were refused, or could not be produced.
#[derive(Debug, Clone, Copy, PartialEq, Eq, Structural)]
pub enum ProtocolError {
    /// The payload of an IPC frame does not fit its 32-bit length field.
    PayloadTooLarge,
    /// A decrypt payload does not fit its length fields, or its size cannot be computed.
    DecryptPayloadTooLarge,
    /// A batch to be encoded holds no sample.
    EmptyDecryptBatch,
    /// A sample to be encoded is empty or does not fit a 32-bit length field.
    UnencodableSample,
    /// The number of samples does not fit a 32-bit field.
    TooManySamples,
    /// A decrypted sample does not fit a 32-bit length field.
    SampleTooLarge,
    /// The size of a response to be encoded cannot be computed.
    ResponseTooLarge,
    /// An IPC frame does not start with its magic number.
    BadIpcMagic,
    /// An IPC frame has an unknown version.
    BadIpcVersion,
    /// A decrypt frame does not start with its magic number.
    BadDecryptMagic,
    /// A decrypt frame has an unknown version.
    BadDecryptVersion,
    /// A response ends before its sample count.
    ResponseTooShort,
    /// A response announces more bytes than can be addressed.
    ResponseOverflow,
    /// A response ends inside its length table.
    TruncatedLengthTable,
    /// The input ends inside a sample.
    TruncatedSample,
    /// Bytes follow the last sample of a response.
    TrailingResponseBytes,
    /// A batch ends before its three counts.
    BatchTooShort,
    /// One of the three counts of a batch is zero.
    EmptyBatchField,
    /// A batch announces more bytes than can be addressed.
    BatchOverflow,
    /// A batch ends before its first sample.
    TruncatedBatchHeader,
    /// A batch announces an empty or an oversized sample.
    BadSampleLength,
    /// The adam id of a batch is not UTF-8.
    AdamNotUtf8,
    /// The key URI of a batch is not UTF-8.
    UriNotUtf8,
    /// Bytes follow the last sample of a batch.
    TrailingBatchBytes,
    /// The input ends inside a frame.
    UnexpectedEnd,
}

impl ProtocolError {
    /// The kind of this error.
    pub open spec fn spec_kind(self) -> ErrorKind {
        match self {
            ProtocolError::PayloadTooLarge
            | ProtocolError::DecryptPayloadTooLarge
            | ProtocolError::EmptyDecryptBatch
            | ProtocolError::UnencodableSample
            | ProtocolError::TooManySamples
            | ProtocolError::SampleTooLarge
            | ProtocolError::ResponseTooLarge => ErrorKind::InvalidInput,
            ProtocolError::UnexpectedEnd => ErrorKind::UnexpectedEof,
            _ => ErrorKind::InvalidData,
        }
    }

    /// The text of this error.
    pub open spec fn text(self) -> Seq<char> {
        match self {
            ProtocolError::PayloadTooLarge => "payload too large"@,
            ProtocolError::DecryptPayloadTooLarge => "decrypt payload too large"@,
            ProtocolError::EmptyDecryptBatch => "decrypt batch must not be empty"@,
            ProtocolError::UnencodableSample => "invalid decrypt sample length"@,
            ProtocolError::TooManySamples => "too many decrypt samples"@,
            ProtocolError::SampleTooLarge => "decrypt sample too large"@,
            ProtocolError::ResponseTooLarge => "decrypt response too large"@,
            ProtocolError::BadIpcMagic => "bad ipc magic"@,
            ProtocolError::BadIpcVersion => "bad ipc version"@,
            ProtocolError::BadDecryptMagic => "bad decrypt magic"@,
            ProtocolError::BadDecryptVersion => "bad decrypt version"@,
            ProtocolError::ResponseTooShort => "decrypt response too short"@,
            ProtocolError::ResponseOverflow => "decrypt response too large"@,
            ProtocolError::TruncatedLengthTable => "truncated decrypt length table"@,
            ProtocolError::TruncatedSample => "truncated decrypt sample"@,
            ProtocolError::TrailingResponseBytes => "trailing decrypt response bytes"@,
            ProtocolError::BatchTooShort => "decrypt batch too short"@,
            ProtocolError::EmptyBatchField => "empty decrypt batch field"@,
            ProtocolError::BatchOverflow => "decrypt batch too large"@,
            ProtocolError::TruncatedBatchHeader => "truncated decrypt batch header"@,
            ProtocolError::BadSampleLength => "invalid decrypt sample length"@,
            ProtocolError::AdamNotUtf8 => "adam_id is not utf-8"@,
            ProtocolError::UriNotUtf8 => "uri is not utf-8"@,
            ProtocolError::TrailingBatchBytes => "trailing decrypt batch bytes"@,
            ProtocolError::UnexpectedEnd => "failed to fill whole buffer"@,
        }
    }

    /// Tells bad input of the caller, bad bytes and missing bytes apart.
    pub fn kind(&self) -> (r: ErrorKind)
        ensures
            r == self.spec_kind(),
    {
        match self {
            ProtocolError::PayloadTooLarge
            | ProtocolError::DecryptPayloadTooLarge
            | ProtocolError::EmptyDecryptBatch
            | ProtocolError::UnencodableSample
            | ProtocolError::TooManySamples
            | ProtocolError::SampleTooLarge
            | ProtocolError::ResponseTooLarge => ErrorKind::InvalidInput,
            ProtocolError::UnexpectedEnd => ErrorKind::UnexpectedEof,
            _ => ErrorKind::InvalidData,
        }
    }

    /// The text of this error.
    pub fn to_string(&self) -> (r: String)
        ensures
            r@ == self.text(),
    {
        let text = match self {
            ProtocolError::PayloadTooLarge => "payload too large",
            ProtocolError::DecryptPayloadTooLarge => "decrypt payload too large",
            ProtocolError::EmptyDecryptBatch => "decrypt batch must not be empty",
            ProtocolError::UnencodableSample => "invalid decrypt sample length",
            ProtocolError::TooManySamples => "too many decrypt samples",
            ProtocolError::SampleTooLarge => "decrypt sample too large",
            ProtocolError::ResponseTooLarge => "decrypt response too large",
            ProtocolError::BadIpcMagic => "bad ipc magic",
            ProtocolError::BadIpcVersion => "bad ipc version",
            ProtocolError::BadDecryptMagic => "bad decrypt magic",
            ProtocolError::BadDecryptVersion => "bad decrypt version",
            ProtocolError::ResponseTooShort => "decrypt response too short",
            ProtocolError::ResponseOverflow => "decrypt response too large",
            ProtocolError::TruncatedLengthTable => "truncated decrypt length table",
            ProtocolError::TruncatedSample => "truncated decrypt sample",
            ProtocolError::TrailingResponseBytes => "trailing decrypt response bytes",
            ProtocolError::BatchTooShort => "decrypt batch too short",
            ProtocolError::EmptyBatchField => "empty decrypt batch field",
            ProtocolError::BatchOverflow => "decrypt batch too large",
            ProtocolError::TruncatedBatchHeader => "truncated decrypt batch header",
            ProtocolError::BadSampleLength => "invalid decrypt sample length",
            ProtocolError::AdamNotUtf8 => "adam_id is not utf-8",
            ProtocolError::UriNotUtf8 => "uri is not utf-8",
            ProtocolError::TrailingBatchBytes => "trailing decrypt batch bytes",
            ProtocolError::UnexpectedEnd => "failed to fill whole buffer",
        };
        text.to_string()
    }

    /// This error as a failure of the channel that the bytes came from or go to.
    pub fn to_io(&self) -> (r: IoError)
        ensures
            r@ == (IoErrorView { kind: self.spec_kind(), message: self.text() }),
    {
        IoError { kind: self.kind(), message: self.to_string() }
    }
}

/// Why the worker did not do what it was asked.
#[derive(Debug)]
pub enum WorkerError {
    /// A pipe or the process itself failed.
    Io(String),
    /// Bytes that do not mean what they should were received, or asked for.
    Protocol(String),
    /// The worker cannot be had now.
    Unavailable(String),
}

/// What a [`WorkerError`] says.
#[verifier::ext_equal]
pub enum WorkerErrorView {
    Io(Seq<char>),
    Protocol(Seq<char>),
    Unavailable(Seq<char>),
}

impl View for WorkerError {
    type V = WorkerErrorView;

    open spec fn view(&self) -> WorkerErrorView {
        match self {
            WorkerError::Io(e) => WorkerErrorView::Io(e@),
            WorkerError::Protocol(e) => WorkerErrorView::Protocol(e@),
            WorkerError::Unavailable(e) => WorkerErrorView::Unavailable(e@),
        }
    }
}

impl WorkerErrorView {
    /// The text of this error.
    pub open spec fn text(self) -> Seq<char> {
        match self {
            WorkerErrorView::Io(e) => e,
            WorkerErrorView::Protocol(e) => e,
            WorkerErrorView::Unavailable(e) => e,
        }
    }
}

impl WorkerError {
    /// The text of this error, whatever its kind.
    pub fn to_string(&self) -> (r: String)
        ensures
            r@ == self@.text(),
    {
        match self {
            WorkerError::Io(e) => e.clone(),
            WorkerError::Protocol(e) => e.clone(),
            WorkerError::Unavailable(e) => e.clone(),
        }
    }
}

/// A failure of a channel as a failure of the worker behind it.
pub fn io_err(e: IoError) -> (r: WorkerError)
    ensures
        r@ == WorkerErrorView::Io(e@.message),
{
    WorkerError::Io(e.message)
}

/// A failure stands for its kind and its text, and a worker error for its text.
pub proof fn law_error_fields(e: IoError, w: WorkerError)
    ensures
        e@.kind == e.kind,
        e@.message == e.message@,
        w matches WorkerError::Io(s) ==> w@ == WorkerErrorView::Io(s@) && w@.text() == s@,
        w matches WorkerError::Protocol(s) ==> w@ == WorkerErrorView::Protocol(s@) && w@.text()
            == s@,
        w matches WorkerError::Unavailable(s) ==> w@ == WorkerErrorView::Unavailable(s@)
            && w@.text() == s@,
{
}

/// What cannot be encoded is bad input; an input that ends too early is an unexpected end;
/// everything else that is refused is bad data.
pub proof fn law_error_kinds(e: ProtocolError)
    ensures
        e.spec_kind() == ErrorKind::InvalidInput <==> (e is PayloadTooLarge
            || e is DecryptPayloadTooLarge || e is EmptyDecryptBatch || e is UnencodableSample
            || e is TooManySamples || e is SampleTooLarge || e is ResponseTooLarge),
        e.spec_kind() == ErrorKind::UnexpectedEof <==> e is UnexpectedEnd,
        e.spec_kind() == ErrorKind::InvalidInput || e.spec_kind() == ErrorKind::UnexpectedEof
            || e.spec_kind() == ErrorKind::InvalidData,
{
}

} // verus!
