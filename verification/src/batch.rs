//! The payloads that carry samples.
//!
//! A batch for the worker, with 16-bit lengths for the two texts:
//!
//! ```text
//! adam_id_len u16, uri_len u16, sample_count u32, sample_len[sample_count] u32,
//! adam_id bytes, uri bytes, samples
//! ```
//!
//! A batch that a client posts over HTTP, with 32-bit lengths:
//!
//! ```text
//! adam_id_len u32, uri_len u32, sample_count u32, sample_len[sample_count] u32,
//! adam_id bytes, uri bytes, samples
//! ```
//!
//! The samples sent back, by the worker and to a client alike:
//!
//! ```text
//! sample_count u32, sample_len[sample_count] u32, samples
//! ```

use vstd::prelude::*;
use vstd::utf8;

use crate::bytes;
use crate::error::ProtocolError;
use crate::layout;
use crate::layout::CutFault;
use crate::text;

verus! {

/// The longest sample that a batch posted over HTTP may hold: 64 MiB.
pub const MAX_HTTP_SAMPLE_LEN: usize = 0x400_0000;

/// A batch as the client of the HTTP interface means it.
#[verifier::ext_equal]
pub struct BatchView {
    pub adam: Seq<char>,
    pub uri: Seq<char>,
    pub samples: Seq<Seq<u8>>,
}

/// The bytes of a batch for the worker.
pub open spec fn batch_bytes(adam: Seq<u8>, uri: Seq<u8>, samples: Seq<Seq<u8>>) -> Seq<u8> {
    bytes::be_u16(adam.len() as u16) + bytes::be_u16(uri.len() as u16) + bytes::be_u32(
        samples.len() as u32,
    ) + layout::length_table(samples) + adam + uri + layout::joined(samples)
}

/// The number of bytes of a batch for the worker before its first sample.
pub open spec fn batch_head_len(adam: Seq<u8>, uri: Seq<u8>, samples: Seq<Seq<u8>>) -> nat {
    8 + 4 * samples.len() + adam.len() + uri.len()
}

/// Why a batch cannot be encoded for the worker, if it cannot.
pub open spec fn batch_refusal(adam: Seq<u8>, uri: Seq<u8>, samples: Seq<Seq<u8>>) -> Option<
    ProtocolError,
> {
    if adam.len() > u16::MAX || uri.len() > u16::MAX || samples.len() > u32::MAX {
        Some(ProtocolError::DecryptPayloadTooLarge)
    } else if samples.len() == 0 {
        Some(ProtocolError::EmptyDecryptBatch)
    } else if batch_head_len(adam, uri, samples) > usize::MAX {
        Some(ProtocolError::DecryptPayloadTooLarge)
    } else {
        match layout::size_of(
            batch_head_len(adam, uri, samples),
            samples,
            1,
            ProtocolError::UnencodableSample,
            ProtocolError::DecryptPayloadTooLarge,
        ) {
            Err(e) => Some(e),
            Ok(_) => None,
        }
    }
}

/// The bytes of a list of samples sent back.
pub open spec fn response_bytes(samples: Seq<Seq<u8>>) -> Seq<u8> {
    bytes::be_u32(samples.len() as u32) + layout::length_table(samples) + layout::joined(samples)
}

/// Why a list of samples cannot be sent back, if it cannot.
pub open spec fn response_refusal(samples: Seq<Seq<u8>>) -> Option<ProtocolError> {
    if samples.len() > u32::MAX {
        Some(ProtocolError::TooManySamples)
    } else if 4 + 4 * samples.len() > usize::MAX {
        Some(ProtocolError::ResponseTooLarge)
    } else {
        match layout::size_of(
            4 + 4 * samples.len(),
            samples,
            0,
            ProtocolError::SampleTooLarge,
            ProtocolError::ResponseTooLarge,
        ) {
            Err(e) => Some(e),
            Ok(_) => None,
        }
    }
}

/// The samples that the bytes `b` send back.
pub open spec fn decode_response(b: Seq<u8>) -> Result<Seq<Seq<u8>>, ProtocolError> {
    if b.len() < 4 {
        Err(ProtocolError::ResponseTooShort)
    } else {
        let count = bytes::u32_at(b, 0) as nat;
        let table_end = 4 + 4 * count;
        if table_end > usize::MAX {
            Err(ProtocolError::ResponseOverflow)
        } else if b.len() < table_end {
            Err(ProtocolError::TruncatedLengthTable)
        } else {
            match layout::cut(b, table_end, layout::table_lengths(b, 4, count)) {
                Ok(samples) => Ok(samples),
                Err(CutFault::Overflow) => Err(ProtocolError::ResponseOverflow),
                Err(CutFault::Truncated) => Err(ProtocolError::TruncatedSample),
                Err(CutFault::Trailing) => Err(ProtocolError::TrailingResponseBytes),
            }
        }
    }
}

/// The bytes of a batch posted over HTTP.
pub open spec fn http_batch_bytes(adam: Seq<u8>, uri: Seq<u8>, samples: Seq<Seq<u8>>) -> Seq<u8> {
    bytes::be_u32(adam.len() as u32) + bytes::be_u32(uri.len() as u32) + bytes::be_u32(
        samples.len() as u32,
    ) + layout::length_table(samples) + adam + uri + layout::joined(samples)
}

/// A sample length that a batch posted over HTTP may announce.
pub open spec fn http_sample_len_ok(len: nat) -> bool {
    0 < len <= MAX_HTTP_SAMPLE_LEN
}

/// The batch that the bytes `b` post over HTTP.
pub open spec fn decode_http_batch(b: Seq<u8>) -> Result<BatchView, ProtocolError> {
    if b.len() < 12 {
        Err(ProtocolError::BatchTooShort)
    } else {
        let adam_len = bytes::u32_at(b, 0) as nat;
        let uri_len = bytes::u32_at(b, 4) as nat;
        let count = bytes::u32_at(b, 8) as nat;
        let table_end = 12 + 4 * count;
        let adam_end = table_end + adam_len;
        let head_end = adam_end + uri_len;
        let lens = layout::table_lengths(b, 12, count);
        let adam = b.subrange(table_end as int, adam_end as int);
        let uri = b.subrange(adam_end as int, head_end as int);
        if adam_len == 0 || uri_len == 0 || count == 0 {
            Err(ProtocolError::EmptyBatchField)
        } else if head_end > usize::MAX {
            Err(ProtocolError::BatchOverflow)
        } else if b.len() < head_end {
            Err(ProtocolError::TruncatedBatchHeader)
        } else if exists|i: int| 0 <= i < count && !http_sample_len_ok(#[trigger] lens[i]) {
            Err(ProtocolError::BadSampleLength)
        } else if !utf8::valid_utf8(adam) {
            Err(ProtocolError::AdamNotUtf8)
        } else if !utf8::valid_utf8(uri) {
            Err(ProtocolError::UriNotUtf8)
        } else {
            match layout::cut(b, head_end, lens) {
                Ok(samples) => Ok(
                    BatchView {
                        adam: utf8::decode_utf8(adam),
                        uri: utf8::decode_utf8(uri),
                        samples,
                    },
                ),
                Err(CutFault::Overflow) => Err(ProtocolError::BatchOverflow),
                Err(CutFault::Truncated) => Err(ProtocolError::TruncatedSample),
                Err(CutFault::Trailing) => Err(ProtocolError::TrailingBatchBytes),
            }
        }
    }
}

/// Encodes a batch for the worker.
pub fn decrypt_batch_payload(adam: &str, uri: &str, samples: &[Vec<u8>]) -> (r: Result<
    Vec<u8>,
    ProtocolError,
>)
    ensures
        match r {
            Ok(out) => {
                &&& batch_refusal(
                    utf8::encode_utf8(adam@),
                    utf8::encode_utf8(uri@),
                    layout::views(samples@),
                ) is None
                &&& out@ == batch_bytes(
                    utf8::encode_utf8(adam@),
                    utf8::encode_utf8(uri@),
                    layout::views(samples@),
                )
            },
            Err(e) => batch_refusal(
                utf8::encode_utf8(adam@),
                utf8::encode_utf8(uri@),
                layout::views(samples@),
            ) == Some(e),
        },
{
    let adam = adam.as_bytes();
    let uri = uri.as_bytes();
    let adam_len: usize = adam.len();
    let uri_len: usize = uri.len();
    let count: usize = samples.len();
    let ghost all = layout::views(samples@);
    if adam_len > u16::MAX as usize || uri_len > u16::MAX as usize || count > u32::MAX as usize {
        return Err(ProtocolError::DecryptPayloadTooLarge);
    }
    if count == 0 {
        return Err(ProtocolError::EmptyDecryptBatch);
    }
    let table_len: usize = match count.checked_mul(4) {
        Some(n) => n,
        None => {
            return Err(ProtocolError::DecryptPayloadTooLarge);
        },
    };
    let head_len: usize = match table_len.checked_add(8) {
        Some(n) => n,
        None => {
            return Err(ProtocolError::DecryptPayloadTooLarge);
        },
    };
    let with_adam: usize = match head_len.checked_add(adam_len) {
        Some(n) => n,
        None => {
            return Err(ProtocolError::DecryptPayloadTooLarge);
        },
    };
    let base: usize = match with_adam.checked_add(uri_len) {
        Some(n) => n,
        None => {
            return Err(ProtocolError::DecryptPayloadTooLarge);
        },
    };
    let size: usize = match layout::checked_size(
        base,
        samples,
        1,
        ProtocolError::UnencodableSample,
        ProtocolError::DecryptPayloadTooLarge,
    ) {
        Ok(n) => n,
        Err(e) => {
            return Err(e);
        },
    };
    proof {
        layout::lemma_size_of(
            base as nat,
            all,
            1,
            ProtocolError::UnencodableSample,
            ProtocolError::DecryptPayloadTooLarge,
        );
        assert forall|i: int| 0 <= i < all.len() implies 0 <= (#[trigger] all[i]).len()
            <= u32::MAX by {}
    }
    let mut out: Vec<u8> = Vec::with_capacity(size);
    bytes::put_u16(&mut out, adam_len as u16);
    bytes::put_u16(&mut out, uri_len as u16);
    bytes::put_u32(&mut out, count as u32);
    layout::put_length_table(&mut out, samples);
    bytes::put_bytes(&mut out, adam);
    bytes::put_bytes(&mut out, uri);
    layout::put_samples(&mut out, samples);
    assert(out@ =~= batch_bytes(adam@, uri@, all));
    Ok(out)
}

/// Decodes the samples that the worker sends back.
pub fn parse_decrypt_samples_payload(data: &[u8]) -> (r: Result<Vec<Vec<u8>>, ProtocolError>)
    ensures
        match r {
            Ok(samples) => decode_response(data@) == Ok::<Seq<Seq<u8>>, ProtocolError>(
                layout::views(samples@),
            ),
            Err(e) => decode_response(data@) == Err::<Seq<Seq<u8>>, ProtocolError>(e),
        },
{
    if data.len() < 4 {
        return Err(ProtocolError::ResponseTooShort);
    }
    let count: usize = bytes::get_u32(data, 0) as usize;
    let table_len: usize = match count.checked_mul(4) {
        Some(n) => n,
        None => {
            return Err(ProtocolError::ResponseOverflow);
        },
    };
    let table_end: usize = match table_len.checked_add(4) {
        Some(n) => n,
        None => {
            return Err(ProtocolError::ResponseOverflow);
        },
    };
    if data.len() < table_end {
        return Err(ProtocolError::TruncatedLengthTable);
    }
    let mut lens: Vec<usize> = Vec::with_capacity(count);
    let mut i: usize = 0;
    while i < count
        invariant
            i <= count,
            table_end == 4 + 4 * count,
            table_end <= data@.len(),
            lens@.len() == i,
            forall|j: int|
                0 <= j < i ==> #[trigger] lens@[j] == bytes::u32_at(data@, 4 + 4 * j),
        decreases count - i,
    {
        lens.push(bytes::get_u32(data, 4 + i * 4) as usize);
        i += 1;
    }
    proof {
        assert(layout::nats(lens@) =~= layout::table_lengths(data@, 4, count as nat));
    }
    match layout::cut_samples(data, table_end, &lens) {
        Ok(samples) => Ok(samples),
        Err(CutFault::Overflow) => Err(ProtocolError::ResponseOverflow),
        Err(CutFault::Truncated) => Err(ProtocolError::TruncatedSample),
        Err(CutFault::Trailing) => Err(ProtocolError::TrailingResponseBytes),
    }
}

/// Decodes a batch that a client posts over HTTP.
pub fn parse_http_decrypt_batch(body: &[u8]) -> (r: Result<
    (String, String, Vec<Vec<u8>>),
    ProtocolError,
>)
    ensures
        match r {
            Ok(batch) => decode_http_batch(body@) == Ok::<BatchView, ProtocolError>(
                BatchView {
                    adam: batch.0@,
                    uri: batch.1@,
                    samples: layout::views(batch.2@),
                },
            ),
            Err(e) => decode_http_batch(body@) == Err::<BatchView, ProtocolError>(e),
        },
{
    if body.len() < 12 {
        return Err(ProtocolError::BatchTooShort);
    }
    let adam_len: usize = bytes::get_u32(body, 0) as usize;
    let uri_len: usize = bytes::get_u32(body, 4) as usize;
    let count: usize = bytes::get_u32(body, 8) as usize;
    if adam_len == 0 || uri_len == 0 || count == 0 {
        return Err(ProtocolError::EmptyBatchField);
    }
    let table_len: usize = match count.checked_mul(4) {
        Some(n) => n,
        None => {
            return Err(ProtocolError::BatchOverflow);
        },
    };
    let table_end: usize = match table_len.checked_add(12) {
        Some(n) => n,
        None => {
            return Err(ProtocolError::BatchOverflow);
        },
    };
    let adam_end: usize = match table_end.checked_add(adam_len) {
        Some(n) => n,
        None => {
            return Err(ProtocolError::BatchOverflow);
        },
    };
    let head_end: usize = match adam_end.checked_add(uri_len) {
        Some(n) => n,
        None => {
            return Err(ProtocolError::BatchOverflow);
        },
    };
    if body.len() < head_end {
        return Err(ProtocolError::TruncatedBatchHeader);
    }
    let ghost announced = layout::table_lengths(body@, 12, count as nat);
    let mut lens: Vec<usize> = Vec::with_capacity(count);
    let mut i: usize = 0;
    #[verifier::loop_isolation(false)]
    while i < count
        invariant
            i <= count,
            table_end == 12 + 4 * count,
            table_end <= body@.len(),
            lens@.len() == i,
            announced == layout::table_lengths(body@, 12, count as nat),
            forall|j: int| 0 <= j < i ==> #[trigger] lens@[j] == announced[j],
            forall|j: int| 0 <= j < i ==> http_sample_len_ok(#[trigger] announced[j]),
        decreases count - i,
    {
        let len: usize = bytes::get_u32(body, 12 + i * 4) as usize;
        assert(announced[i as int] == len);
        if len == 0 || len > MAX_HTTP_SAMPLE_LEN {
            assert(!http_sample_len_ok(announced[i as int]));
            return Err(ProtocolError::BadSampleLength);
        }
        lens.push(len);
        i += 1;
    }
    assert(layout::nats(lens@) =~= announced);
    let adam = match text::string_from_utf8(
        vstd::slice::slice_to_vec(vstd::slice::slice_subrange(body, table_end, adam_end)),
    ) {
        Some(s) => s,
        None => {
            return Err(ProtocolError::AdamNotUtf8);
        },
    };
    let uri = match text::string_from_utf8(
        vstd::slice::slice_to_vec(vstd::slice::slice_subrange(body, adam_end, head_end)),
    ) {
        Some(s) => s,
        None => {
            return Err(ProtocolError::UriNotUtf8);
        },
    };
    match layout::cut_samples(body, head_end, &lens) {
        Ok(samples) => Ok((adam, uri, samples)),
        Err(CutFault::Overflow) => Err(ProtocolError::BatchOverflow),
        Err(CutFault::Truncated) => Err(ProtocolError::TruncatedSample),
        Err(CutFault::Trailing) => Err(ProtocolError::TrailingBatchBytes),
    }
}

/// Encodes the samples that are sent back to a client over HTTP.
pub fn build_http_decrypt_samples_payload(samples: &[Vec<u8>]) -> (r: Result<
    Vec<u8>,
    ProtocolError,
>)
    ensures
        match r {
            Ok(out) => {
                &&& response_refusal(layout::views(samples@)) is None
                &&& out@ == response_bytes(layout::views(samples@))
            },
            Err(e) => response_refusal(layout::views(samples@)) == Some(e),
        },
{
    let count: usize = samples.len();
    let ghost all = layout::views(samples@);
    if count > u32::MAX as usize {
        return Err(ProtocolError::TooManySamples);
    }
    let table_len: usize = match count.checked_mul(4) {
        Some(n) => n,
        None => {
            return Err(ProtocolError::ResponseTooLarge);
        },
    };
    let base: usize = match table_len.checked_add(4) {
        Some(n) => n,
        None => {
            return Err(ProtocolError::ResponseTooLarge);
        },
    };
    let size: usize = match layout::checked_size(
        base,
        samples,
        0,
        ProtocolError::SampleTooLarge,
        ProtocolError::ResponseTooLarge,
    ) {
        Ok(n) => n,
        Err(e) => {
            return Err(e);
        },
    };
    proof {
        layout::lemma_size_of(
            base as nat,
            all,
            0,
            ProtocolError::SampleTooLarge,
            ProtocolError::ResponseTooLarge,
        );
    }
    let mut out: Vec<u8> = Vec::with_capacity(size);
    bytes::put_u32(&mut out, count as u32);
    layout::put_length_table(&mut out, samples);
    layout::put_samples(&mut out, samples);
    assert(out@ =~= response_bytes(all));
    Ok(out)
}

/// A batch is encoded for the worker exactly when it holds a sample, every
/// length fits its field, no sample is empty, and the size can be addressed;
/// the payload then has that size.
pub proof fn law_batch_accepted(adam: Seq<u8>, uri: Seq<u8>, samples: Seq<Seq<u8>>)
    ensures
        batch_refusal(adam, uri, samples) is None <==> {
            &&& adam.len() <= u16::MAX
            &&& uri.len() <= u16::MAX
            &&& 0 < samples.len() <= u32::MAX
            &&& layout::encodable(samples, 1)
            &&& batch_head_len(adam, uri, samples) + layout::total_len(samples) <= usize::MAX
        },
        batch_bytes(adam, uri, samples).len() == batch_head_len(adam, uri, samples)
            + layout::total_len(samples),
{
    layout::lemma_length_table_len(samples);
    layout::lemma_joined_len(samples);
    if batch_head_len(adam, uri, samples) <= usize::MAX {
        layout::lemma_size_of(
            batch_head_len(adam, uri, samples),
            samples,
            1,
            ProtocolError::UnencodableSample,
            ProtocolError::DecryptPayloadTooLarge,
        );
    }
}

/// Where the parts of a batch for the worker lie in its bytes, and what cutting
/// them out again gives.
proof fn lemma_batch_parts(adam: Seq<u8>, uri: Seq<u8>, samples: Seq<Seq<u8>>)
    requires
        batch_refusal(adam, uri, samples) is None,
    ensures
        ({
            let b = batch_bytes(adam, uri, samples);
            let table_end = 8 + 4 * samples.len() as int;
            let adam_end = table_end + adam.len();
            let head_end = adam_end + uri.len();
            &&& bytes::u16_at(b, 0) == adam.len()
            &&& bytes::u16_at(b, 2) == uri.len()
            &&& bytes::u32_at(b, 4) == samples.len()
            &&& b.subrange(table_end, adam_end) == adam
            &&& b.subrange(adam_end, head_end) == uri
            &&& layout::table_lengths(b, 8, samples.len()) == layout::lengths(samples)
            &&& layout::cut(b, head_end as nat, layout::lengths(samples)) == Ok::<
                Seq<Seq<u8>>,
                CutFault,
            >(samples)
        }),
{
    law_batch_accepted(adam, uri, samples);
    layout::lemma_length_table_len(samples);
    let b = batch_bytes(adam, uri, samples);
    let counts = bytes::be_u16(adam.len() as u16) + bytes::be_u16(uri.len() as u16) + bytes::be_u32(
        samples.len() as u32,
    );
    let table = layout::length_table(samples);
    let body = layout::joined(samples);
    assert(b.subrange(0, 2) =~= bytes::be_u16(adam.len() as u16));
    assert(b.subrange(2, 4) =~= bytes::be_u16(uri.len() as u16));
    assert(b.subrange(4, 8) =~= bytes::be_u32(samples.len() as u32));
    bytes::lemma_u16_placed(b, 0, adam.len() as u16);
    bytes::lemma_u16_placed(b, 2, uri.len() as u16);
    bytes::lemma_u32_placed(b, 4, samples.len() as u32);
    let table_end = 8 + 4 * samples.len() as int;
    let adam_end = table_end + adam.len();
    let head_end = adam_end + uri.len();
    assert(b.subrange(table_end, adam_end) =~= adam);
    assert(b.subrange(adam_end, head_end) =~= uri);
    layout::lemma_table_round_trip(samples, counts, adam + uri + body);
    assert(b =~= counts + table + (adam + uri + body));
    let head = counts + table + adam + uri;
    assert(b =~= head + body);
    layout::lemma_cut_joined(head, samples);
}

/// The payload of a batch says which batch it is: two batches for the worker
/// with one payload are the same batch.
pub proof fn law_batch_unambiguous(
    adam1: Seq<u8>,
    uri1: Seq<u8>,
    samples1: Seq<Seq<u8>>,
    adam2: Seq<u8>,
    uri2: Seq<u8>,
    samples2: Seq<Seq<u8>>,
)
    requires
        batch_refusal(adam1, uri1, samples1) is None,
        batch_refusal(adam2, uri2, samples2) is None,
        batch_bytes(adam1, uri1, samples1) == batch_bytes(adam2, uri2, samples2),
    ensures
        adam1 == adam2,
        uri1 == uri2,
        samples1 == samples2,
{
    lemma_batch_parts(adam1, uri1, samples1);
    lemma_batch_parts(adam2, uri2, samples2);
}

/// Samples are sent back exactly when their number and every length fit a
/// 32-bit field and the size can be addressed; the payload then has that size.
pub proof fn law_response_accepted(samples: Seq<Seq<u8>>)
    ensures
        response_refusal(samples) is None <==> {
            &&& samples.len() <= u32::MAX
            &&& layout::encodable(samples, 0)
            &&& 4 + 4 * samples.len() + layout::total_len(samples) <= usize::MAX
        },
        response_bytes(samples).len() == 4 + 4 * samples.len() + layout::total_len(samples),
{
    layout::lemma_length_table_len(samples);
    layout::lemma_joined_len(samples);
    if 4 + 4 * samples.len() <= usize::MAX {
        layout::lemma_size_of(
            4 + 4 * samples.len(),
            samples,
            0,
            ProtocolError::SampleTooLarge,
            ProtocolError::ResponseTooLarge,
        );
    }
}

/// Samples that were sent back are read as they were sent.
pub proof fn law_response_round_trip(samples: Seq<Seq<u8>>)
    requires
        response_refusal(samples) is None,
    ensures
        decode_response(response_bytes(samples)) == Ok::<Seq<Seq<u8>>, ProtocolError>(samples),
{
    law_response_accepted(samples);
    layout::lemma_length_table_len(samples);
    let b = response_bytes(samples);
    let count = bytes::be_u32(samples.len() as u32);
    let head = count + layout::length_table(samples);
    let body = layout::joined(samples);
    assert(b.subrange(0, 4) =~= count);
    bytes::lemma_u32_placed(b, 0, samples.len() as u32);
    layout::lemma_table_round_trip(samples, count, body);
    assert(b =~= head + body);
    layout::lemma_cut_joined(head, samples);
}

/// What cutting data by a table of 32-bit lengths gives: samples that the table
/// describes, and that are the data from there on.
proof fn lemma_cut_by_table(b: Seq<u8>, table: int, count: nat, at: nat, samples: Seq<Seq<u8>>)
    requires
        0 <= table,
        table + 4 * count <= b.len(),
        at <= b.len() <= usize::MAX,
        layout::cut(b, at, layout::table_lengths(b, table, count)) == Ok::<
            Seq<Seq<u8>>,
            CutFault,
        >(samples),
    ensures
        samples.len() == count,
        layout::lengths(samples) == layout::table_lengths(b, table, count),
        layout::encodable(samples, 0),
        layout::length_table(samples) == b.subrange(table, table + 4 * count),
        layout::joined(samples) == b.subrange(at as int, b.len() as int),
        at + layout::total_len(samples) == b.len(),
{
    let lens = layout::table_lengths(b, table, count);
    layout::lemma_samples_end(b, at, lens);
    layout::lemma_pieces_canonical(b, at as int, lens);
    assert(samples == layout::pieces(b, at as int, lens));
    layout::lemma_sum_lengths(samples);
    assert forall|i: int| 0 <= i < samples.len() implies 0 <= (#[trigger] samples[i]).len()
        <= u32::MAX by {
        assert(layout::lengths(samples)[i] == samples[i].len());
        assert(lens[i] == bytes::u32_at(b, table + 4 * i) as nat);
    }
    layout::lemma_table_canonical(b, table, samples);
}

/// Bytes that read as samples are the bytes of those samples and of no others.
pub proof fn law_response_canonical(b: Seq<u8>)
    requires
        b.len() <= usize::MAX,
    ensures
        decode_response(b) matches Ok(samples) ==> response_refusal(samples) is None
            && response_bytes(samples) == b,
{
    if let Ok(samples) = decode_response(b) {
        let count = bytes::u32_at(b, 0) as nat;
        let at = 4 + 4 * count;
        lemma_cut_by_table(b, 4, count, at, samples);
        bytes::law_u32_bytes(b, 0);
        law_response_accepted(samples);
        lemma_response_parts(b, at as int);
    }
}

/// A byte sequence is the parts that it was cut into, one after another.
proof fn lemma_response_parts(b: Seq<u8>, at: int)
    requires
        4 <= at <= b.len(),
    ensures
        b == b.subrange(0, 4) + b.subrange(4, at) + b.subrange(at, b.len() as int),
{
    assert(b =~= b.subrange(0, 4) + b.subrange(4, at) + b.subrange(at, b.len() as int));
}

/// A batch posted over HTTP that keeps the rules: no empty field, every sample
/// within bounds, every count in its field, and a size that can be addressed.
pub open spec fn http_batch_ok(batch: BatchView) -> bool {
    let adam = utf8::encode_utf8(batch.adam);
    let uri = utf8::encode_utf8(batch.uri);
    &&& 0 < adam.len() <= u32::MAX
    &&& 0 < uri.len() <= u32::MAX
    &&& 0 < batch.samples.len() <= u32::MAX
    &&& forall|i: int|
        0 <= i < batch.samples.len() ==> http_sample_len_ok((#[trigger] batch.samples[i]).len())
    &&& 12 + 4 * batch.samples.len() + adam.len() + uri.len() + layout::total_len(batch.samples)
        <= usize::MAX
}

/// Where the fields of a batch posted over HTTP lie in its bytes.
proof fn lemma_http_batch_fields(adam: Seq<u8>, uri: Seq<u8>, samples: Seq<Seq<u8>>)
    requires
        adam.len() <= u32::MAX,
        uri.len() <= u32::MAX,
        samples.len() <= u32::MAX,
    ensures
        ({
            let b = http_batch_bytes(adam, uri, samples);
            let table_end = 12 + 4 * samples.len() as int;
            let adam_end = table_end + adam.len();
            let head_end = adam_end + uri.len();
            &&& b.len() == head_end + layout::total_len(samples)
            &&& bytes::u32_at(b, 0) == adam.len()
            &&& bytes::u32_at(b, 4) == uri.len()
            &&& bytes::u32_at(b, 8) == samples.len()
            &&& b.subrange(table_end, adam_end) == adam
            &&& b.subrange(adam_end, head_end) == uri
        }),
{
    layout::lemma_length_table_len(samples);
    layout::lemma_joined_len(samples);
    let b = http_batch_bytes(adam, uri, samples);
    let a = bytes::be_u32(adam.len() as u32);
    let u = bytes::be_u32(uri.len() as u32);
    let n = bytes::be_u32(samples.len() as u32);
    assert(b.subrange(0, 4) =~= a);
    assert(b.subrange(4, 8) =~= u);
    assert(b.subrange(8, 12) =~= n);
    bytes::lemma_u32_placed(b, 0, adam.len() as u32);
    bytes::lemma_u32_placed(b, 4, uri.len() as u32);
    bytes::lemma_u32_placed(b, 8, samples.len() as u32);
    let table_end = 12 + 4 * samples.len() as int;
    let adam_end = table_end + adam.len();
    let head_end = adam_end + uri.len();
    assert(b.subrange(table_end, adam_end) =~= adam);
    assert(b.subrange(adam_end, head_end) =~= uri);
}

/// The lengths and the samples of a batch posted over HTTP are read back.
proof fn lemma_http_batch_samples(adam: Seq<u8>, uri: Seq<u8>, samples: Seq<Seq<u8>>)
    requires
        layout::encodable(samples, 0),
        12 + 4 * samples.len() + adam.len() + uri.len() + layout::total_len(samples) <= usize::MAX,
    ensures
        ({
            let b = http_batch_bytes(adam, uri, samples);
            let lens = layout::lengths(samples);
            let head_end = 12 + 4 * samples.len() + adam.len() + uri.len();
            &&& layout::table_lengths(b, 12, samples.len()) == lens
            &&& layout::cut(b, head_end, lens) == Ok::<Seq<Seq<u8>>, CutFault>(samples)
        }),
{
    layout::lemma_length_table_len(samples);
    let b = http_batch_bytes(adam, uri, samples);
    let counts = bytes::be_u32(adam.len() as u32) + bytes::be_u32(uri.len() as u32) + bytes::be_u32(
        samples.len() as u32,
    );
    let table = layout::length_table(samples);
    let body = layout::joined(samples);
    layout::lemma_table_round_trip(samples, counts, adam + uri + body);
    assert(b =~= counts + table + (adam + uri + body));
    let head = counts + table + adam + uri;
    assert(b =~= head + body);
    layout::lemma_cut_joined(head, samples);
}

/// A batch posted over HTTP is read as it was meant.
pub proof fn law_http_batch_round_trip(batch: BatchView)
    requires
        http_batch_ok(batch),
    ensures
        decode_http_batch(
            http_batch_bytes(
                utf8::encode_utf8(batch.adam),
                utf8::encode_utf8(batch.uri),
                batch.samples,
            ),
        ) == Ok::<BatchView, ProtocolError>(batch),
{
    let adam = utf8::encode_utf8(batch.adam);
    let uri = utf8::encode_utf8(batch.uri);
    let samples = batch.samples;
    utf8::encode_utf8_valid_utf8(batch.adam);
    utf8::encode_utf8_valid_utf8(batch.uri);
    utf8::encode_utf8_decode_utf8(batch.adam);
    utf8::encode_utf8_decode_utf8(batch.uri);
    assert forall|i: int| 0 <= i < samples.len() implies 0 <= (#[trigger] samples[i]).len()
        <= u32::MAX by {
        assert(http_sample_len_ok(samples[i].len()));
    }
    lemma_http_batch_fields(adam, uri, samples);
    lemma_http_batch_samples(adam, uri, samples);
    let lens = layout::lengths(samples);
    assert forall|i: int| 0 <= i < samples.len() implies http_sample_len_ok(#[trigger] lens[i]) by {
        assert(lens[i] == samples[i].len());
    }
}

/// Bytes that read as a batch posted over HTTP keep the rules, and are the bytes
/// of that batch and of no other.
pub proof fn law_http_batch_canonical(b: Seq<u8>)
    requires
        b.len() <= usize::MAX,
    ensures
        decode_http_batch(b) matches Ok(batch) ==> http_batch_ok(batch) && http_batch_bytes(
            utf8::encode_utf8(batch.adam),
            utf8::encode_utf8(batch.uri),
            batch.samples,
        ) == b,
{
    if let Ok(batch) = decode_http_batch(b) {
        let samples = batch.samples;
        let count = bytes::u32_at(b, 8) as nat;
        let table_end = 12 + 4 * count as int;
        let adam_end = table_end + bytes::u32_at(b, 0);
        let head_end = adam_end + bytes::u32_at(b, 4);
        let adam = b.subrange(table_end, adam_end);
        let uri = b.subrange(adam_end, head_end);
        let lens = layout::table_lengths(b, 12, count);
        utf8::decode_utf8_encode_utf8(adam);
        utf8::decode_utf8_encode_utf8(uri);
        lemma_cut_by_table(b, 12, count, head_end as nat, samples);
        bytes::law_u32_bytes(b, 0);
        bytes::law_u32_bytes(b, 4);
        bytes::law_u32_bytes(b, 8);
        assert forall|i: int| 0 <= i < samples.len() implies http_sample_len_ok(
            (#[trigger] samples[i]).len(),
        ) by {
            assert(layout::lengths(samples)[i] == samples[i].len());
            assert(http_sample_len_ok(lens[i]));
        }
        lemma_http_batch_parts(b, table_end, adam_end, head_end);
    }
}

/// A byte sequence is the parts that it was cut into, one after another.
proof fn lemma_http_batch_parts(b: Seq<u8>, table_end: int, adam_end: int, head_end: int)
    requires
        12 <= table_end <= adam_end <= head_end <= b.len(),
    ensures
        b == b.subrange(0, 4) + b.subrange(4, 8) + b.subrange(8, 12) + b.subrange(12, table_end)
            + b.subrange(table_end, adam_end) + b.subrange(adam_end, head_end) + b.subrange(
            head_end,
            b.len() as int,
        ),
{
    assert(b =~= b.subrange(0, 4) + b.subrange(4, 8) + b.subrange(8, 12) + b.subrange(12, table_end)
        + b.subrange(table_end, adam_end) + b.subrange(adam_end, head_end) + b.subrange(
        head_end,
        b.len() as int,
    ));
}

/// The lengths of the samples before sample `i` add up to where it starts.
proof fn lemma_start(samples: Seq<Seq<u8>>, i: int)
    requires
        0 <= i <= samples.len(),
    ensures
        layout::sum(layout::lengths(samples).take(i)) == layout::total_len(samples.take(i)),
{
    assert(layout::lengths(samples).take(i) =~= layout::lengths(samples.take(i)));
    layout::lemma_sum_lengths(samples.take(i));
}

/// Each part of a batch for the worker stands at its place: the two 16-bit lengths, the
/// number of samples, the length of each sample in the order of the samples, the id, the
/// URI, and then each sample right after the one before it.
pub proof fn law_batch_layout(adam: Seq<u8>, uri: Seq<u8>, samples: Seq<Seq<u8>>)
    requires
        batch_refusal(adam, uri, samples) is None,
    ensures
        ({
            let b = batch_bytes(adam, uri, samples);
            let n = samples.len() as int;
            let head = 8 + 4 * n + adam.len() + uri.len();
            &&& b.len() == head + layout::total_len(samples)
            &&& bytes::u16_at(b, 0) == adam.len()
            &&& bytes::u16_at(b, 2) == uri.len()
            &&& bytes::u32_at(b, 4) == n
            &&& b.subrange(8 + 4 * n, 8 + 4 * n + adam.len()) == adam
            &&& b.subrange(8 + 4 * n + adam.len(), head) == uri
            &&& forall|i: int|
                0 <= i < n ==> {
                    &&& bytes::u32_at(b, 8 + 4 * i) == (#[trigger] samples[i]).len()
                    &&& b.subrange(
                        head + layout::total_len(samples.take(i)),
                        head + layout::total_len(samples.take(i)) + samples[i].len(),
                    ) == samples[i]
                }
        }),
{
    law_batch_accepted(adam, uri, samples);
    lemma_batch_parts(adam, uri, samples);
    let b = batch_bytes(adam, uri, samples);
    let n = samples.len() as int;
    let head = 8 + 4 * n + adam.len() + uri.len();
    let lens = layout::lengths(samples);
    layout::law_cut(b, head as nat, lens);
    assert forall|i: int| 0 <= i < n implies {
        &&& bytes::u32_at(b, 8 + 4 * i) == (#[trigger] samples[i]).len()
        &&& b.subrange(
            head + layout::total_len(samples.take(i)),
            head + layout::total_len(samples.take(i)) + samples[i].len(),
        ) == samples[i]
    } by {
        lemma_start(samples, i);
        assert(layout::table_lengths(b, 8, samples.len())[i] == bytes::u32_at(b, 8 + 4 * i));
        assert(lens[i] == samples[i].len());
    }
}

/// Each part of a list of samples sent back stands at its place: the number of samples,
/// the length of each in the order of the samples, and then each sample right after the
/// one before it.
pub proof fn law_response_layout(samples: Seq<Seq<u8>>)
    requires
        response_refusal(samples) is None,
    ensures
        ({
            let b = response_bytes(samples);
            let n = samples.len() as int;
            &&& b.len() == 4 + 4 * n + layout::total_len(samples)
            &&& bytes::u32_at(b, 0) == n
            &&& forall|i: int|
                0 <= i < n ==> {
                    &&& bytes::u32_at(b, 4 + 4 * i) == (#[trigger] samples[i]).len()
                    &&& b.subrange(
                        4 + 4 * n + layout::total_len(samples.take(i)),
                        4 + 4 * n + layout::total_len(samples.take(i)) + samples[i].len(),
                    ) == samples[i]
                }
        }),
{
    law_response_accepted(samples);
    law_response_round_trip(samples);
    law_response_read(response_bytes(samples));
}

/// What reads as samples sent back: as many as the bytes announce, each of the length that
/// the table announces for it and each right after the one before it, with nothing left.
/// Otherwise the reason is the first thing that is missing, or what is left over.
pub proof fn law_response_read(b: Seq<u8>)
    requires
        b.len() <= usize::MAX,
    ensures
        ({
            let n = bytes::u32_at(b, 0) as int;
            let at = 4 + 4 * n;
            let lens = layout::table_lengths(b, 4, n as nat);
            let whole = 4 <= b.len() && at <= b.len();
            &&& decode_response(b) is Ok <==> whole && at + layout::sum(lens) == b.len()
            &&& decode_response(b) matches Ok(samples) ==> {
                &&& samples.len() == n
                &&& forall|i: int|
                    0 <= i < n ==> {
                        &&& (#[trigger] samples[i]).len() == bytes::u32_at(b, 4 + 4 * i)
                        &&& samples[i] == b.subrange(
                            at + layout::total_len(samples.take(i)),
                            at + layout::total_len(samples.take(i)) + samples[i].len(),
                        )
                    }
            }
            &&& decode_response(b) == Err::<Seq<Seq<u8>>, ProtocolError>(
                ProtocolError::ResponseTooShort,
            ) <==> b.len() < 4
            &&& decode_response(b) == Err::<Seq<Seq<u8>>, ProtocolError>(
                ProtocolError::TruncatedLengthTable,
            ) <==> 4 <= b.len() < at <= usize::MAX
            &&& decode_response(b) == Err::<Seq<Seq<u8>>, ProtocolError>(
                ProtocolError::TrailingResponseBytes,
            ) <==> whole && at + layout::sum(lens) < b.len()
            &&& decode_response(b) == Err::<Seq<Seq<u8>>, ProtocolError>(
                ProtocolError::TruncatedSample,
            ) <==> whole && exists|i: int|
                0 <= i < n && at + layout::sum(lens.take(i)) <= b.len() < at + layout::sum(
                    lens.take(i),
                ) + #[trigger] lens[i] <= usize::MAX
            &&& decode_response(b) == Err::<Seq<Seq<u8>>, ProtocolError>(
                ProtocolError::ResponseOverflow,
            ) <==> 4 <= b.len() && (at > usize::MAX || whole && exists|i: int|
                0 <= i < n && at + layout::sum(lens.take(i)) <= b.len() && at + layout::sum(
                    lens.take(i),
                ) + #[trigger] lens[i] > usize::MAX)
        }),
{
    if b.len() >= 4 {
        let n = bytes::u32_at(b, 0) as nat;
        let at = 4 + 4 * n;
        let lens = layout::table_lengths(b, 4, n);
        if at <= b.len() {
            layout::law_cut(b, at, lens);
            if let Ok(samples) = layout::cut(b, at, lens) {
                lemma_cut_positions(b, 4, n, at, samples);
            }
        }
    }
}

/// Where the samples lie that a table of lengths cuts from data.
proof fn lemma_cut_positions(b: Seq<u8>, table: int, n: nat, at: nat, samples: Seq<Seq<u8>>)
    requires
        0 <= table,
        table + 4 * n <= b.len(),
        at <= b.len() <= usize::MAX,
        layout::cut(b, at, layout::table_lengths(b, table, n)) == Ok::<Seq<Seq<u8>>, CutFault>(
            samples,
        ),
    ensures
        samples.len() == n,
        forall|i: int|
            0 <= i < n ==> {
                &&& (#[trigger] samples[i]).len() == bytes::u32_at(b, table + 4 * i)
                &&& samples[i] == b.subrange(
                    at as int + layout::total_len(samples.take(i)),
                    at as int + layout::total_len(samples.take(i)) + samples[i].len(),
                )
            },
{
    let lens = layout::table_lengths(b, table, n);
    layout::law_cut(b, at, lens);
    lemma_cut_by_table(b, table, n, at, samples);
    assert forall|i: int| 0 <= i < n implies {
        &&& (#[trigger] samples[i]).len() == bytes::u32_at(b, table + 4 * i)
        &&& samples[i] == b.subrange(
            at as int + layout::total_len(samples.take(i)),
            at as int + layout::total_len(samples.take(i)) + samples[i].len(),
        )
    } by {
        lemma_start(samples, i);
        assert(lens[i] == bytes::u32_at(b, table + 4 * i));
    }
}

/// Each part of a batch posted over HTTP stands at its place: the two 32-bit lengths, the
/// number of samples, the length of each sample in the order of the samples, the id, the
/// URI, and then each sample right after the one before it.
pub proof fn law_http_batch_layout(adam: Seq<u8>, uri: Seq<u8>, samples: Seq<Seq<u8>>)
    requires
        adam.len() <= u32::MAX,
        uri.len() <= u32::MAX,
        samples.len() <= u32::MAX,
        forall|i: int| 0 <= i < samples.len() ==> (#[trigger] samples[i]).len() <= u32::MAX,
        12 + 4 * samples.len() + adam.len() + uri.len() + layout::total_len(samples) <= usize::MAX,
    ensures
        ({
            let b = http_batch_bytes(adam, uri, samples);
            let n = samples.len() as int;
            let head = 12 + 4 * n + adam.len() + uri.len();
            &&& b.len() == head + layout::total_len(samples)
            &&& bytes::u32_at(b, 0) == adam.len()
            &&& bytes::u32_at(b, 4) == uri.len()
            &&& bytes::u32_at(b, 8) == n
            &&& b.subrange(12 + 4 * n, 12 + 4 * n + adam.len()) == adam
            &&& b.subrange(12 + 4 * n + adam.len(), head) == uri
            &&& forall|i: int|
                0 <= i < n ==> {
                    &&& bytes::u32_at(b, 12 + 4 * i) == (#[trigger] samples[i]).len()
                    &&& b.subrange(
                        head + layout::total_len(samples.take(i)),
                        head + layout::total_len(samples.take(i)) + samples[i].len(),
                    ) == samples[i]
                }
        }),
{
    lemma_http_batch_fields(adam, uri, samples);
    assert(layout::encodable(samples, 0));
    lemma_http_batch_samples(adam, uri, samples);
    let b = http_batch_bytes(adam, uri, samples);
    let head = 12 + 4 * samples.len() + adam.len() + uri.len();
    lemma_cut_positions(b, 12, samples.len(), head, samples);
}

/// What reads as a batch posted over HTTP: three counts that are not zero, lengths of one
/// to 67108864 bytes, an id and a URI that are UTF-8 and stand after the table, and the
/// samples that the table announces, each right after the one before it, with nothing left.
pub proof fn law_http_batch_read(b: Seq<u8>)
    requires
        b.len() <= usize::MAX,
    ensures
        ({
            let adam_len = bytes::u32_at(b, 0) as int;
            let uri_len = bytes::u32_at(b, 4) as int;
            let n = bytes::u32_at(b, 8) as int;
            let table_end = 12 + 4 * n;
            let adam_end = table_end + adam_len;
            let head = adam_end + uri_len;
            let lens = layout::table_lengths(b, 12, n as nat);
            let adam = b.subrange(table_end, adam_end);
            let uri = b.subrange(adam_end, head);
            let counted = b.len() >= 12 && adam_len > 0 && uri_len > 0 && n > 0;
            let whole = counted && head <= b.len();
            let sized = whole && forall|i: int| 0 <= i < n ==> 1 <= #[trigger] lens[i] <= 67108864;
            let worded = sized && utf8::valid_utf8(adam) && utf8::valid_utf8(uri);
            &&& decode_http_batch(b) is Ok <==> worded && head + layout::sum(lens) == b.len()
            &&& decode_http_batch(b) matches Ok(batch) ==> {
                &&& batch.adam == utf8::decode_utf8(adam)
                &&& batch.uri == utf8::decode_utf8(uri)
                &&& batch.samples.len() == n
                &&& forall|i: int|
                    0 <= i < n ==> {
                        &&& (#[trigger] batch.samples[i]).len() == bytes::u32_at(b, 12 + 4 * i)
                        &&& batch.samples[i] == b.subrange(
                            head + layout::total_len(batch.samples.take(i)),
                            head + layout::total_len(batch.samples.take(i))
                                + batch.samples[i].len(),
                        )
                    }
            }
        }),
{
    if b.len() >= 12 {
        let n = bytes::u32_at(b, 8) as nat;
        let head = 12 + 4 * n + bytes::u32_at(b, 0) as nat + bytes::u32_at(b, 4) as nat;
        let lens = layout::table_lengths(b, 12, n);
        assert(forall|i: int|
            0 <= i < n ==> (http_sample_len_ok(#[trigger] lens[i]) <==> 1 <= lens[i] <= 67108864));
        if head <= b.len() {
            layout::lemma_samples_end(b, head, lens);
            if let Ok(samples) = layout::cut(b, head, lens) {
                lemma_cut_positions(b, 12, n, head, samples);
            }
        }
    }
}

/// Why bytes are no batch posted over HTTP, where the reason lies in the counts: there are
/// none, one of them is zero, or what they announce cannot be addressed or is not there.
pub proof fn law_http_batch_counts_refused(b: Seq<u8>)
    requires
        b.len() <= usize::MAX,
    ensures
        ({
            let adam_len = bytes::u32_at(b, 0) as int;
            let uri_len = bytes::u32_at(b, 4) as int;
            let n = bytes::u32_at(b, 8) as int;
            let head = 12 + 4 * n + adam_len + uri_len;
            let counted = b.len() >= 12 && adam_len > 0 && uri_len > 0 && n > 0;
            &&& b.len() < 12 <==> decode_http_batch(b) == Err::<BatchView, ProtocolError>(
                ProtocolError::BatchTooShort,
            )
            &&& b.len() >= 12 && (adam_len == 0 || uri_len == 0 || n == 0) <==> decode_http_batch(b)
                == Err::<BatchView, ProtocolError>(ProtocolError::EmptyBatchField)
            &&& counted && head > usize::MAX ==> decode_http_batch(b) == Err::<
                BatchView,
                ProtocolError,
            >(ProtocolError::BatchOverflow)
            &&& counted && b.len() < head && head <= usize::MAX <==> decode_http_batch(b) == Err::<
                BatchView,
                ProtocolError,
            >(ProtocolError::TruncatedBatchHeader)
        }),
{
}

/// Why bytes with good counts are no batch posted over HTTP, where the reason lies before
/// the samples: a length that is zero or more than 67108864, an id that is not UTF-8, or a
/// URI that is not, in this order.
pub proof fn law_http_batch_head_refused(b: Seq<u8>)
    requires
        b.len() <= usize::MAX,
        b.len() >= 12,
        bytes::u32_at(b, 0) > 0,
        bytes::u32_at(b, 4) > 0,
        bytes::u32_at(b, 8) > 0,
        12 + 4 * bytes::u32_at(b, 8) + bytes::u32_at(b, 0) + bytes::u32_at(b, 4) <= b.len(),
    ensures
        ({
            let n = bytes::u32_at(b, 8) as int;
            let table_end = 12 + 4 * n;
            let adam_end = table_end + bytes::u32_at(b, 0);
            let head = adam_end + bytes::u32_at(b, 4);
            let lens = layout::table_lengths(b, 12, n as nat);
            let adam = b.subrange(table_end, adam_end);
            let uri = b.subrange(adam_end, head);
            let sized = forall|i: int| 0 <= i < n ==> 1 <= #[trigger] lens[i] <= 67108864;
            &&& !sized <==> decode_http_batch(b) == Err::<BatchView, ProtocolError>(
                ProtocolError::BadSampleLength,
            )
            &&& sized && !utf8::valid_utf8(adam) <==> decode_http_batch(b) == Err::<
                BatchView,
                ProtocolError,
            >(ProtocolError::AdamNotUtf8)
            &&& sized && utf8::valid_utf8(adam) && !utf8::valid_utf8(uri) <==> decode_http_batch(b)
                == Err::<BatchView, ProtocolError>(ProtocolError::UriNotUtf8)
        }),
{
    let n = bytes::u32_at(b, 8) as int;
    let lens = layout::table_lengths(b, 12, n as nat);
    assert(forall|i: int|
        0 <= i < n ==> (http_sample_len_ok(#[trigger] lens[i]) <==> 1 <= lens[i] <= 67108864));
}

/// Why bytes with a good head are no batch posted over HTTP: bytes are left over, or the
/// first sample that does not end within them ends beyond, or beyond what can be addressed.
pub proof fn law_http_batch_samples_refused(b: Seq<u8>)
    requires
        b.len() <= usize::MAX,
        ({
            let adam_len = bytes::u32_at(b, 0) as int;
            let uri_len = bytes::u32_at(b, 4) as int;
            let n = bytes::u32_at(b, 8) as int;
            let table_end = 12 + 4 * n;
            let adam_end = table_end + adam_len;
            let head = adam_end + uri_len;
            let lens = layout::table_lengths(b, 12, n as nat);
            let adam = b.subrange(table_end, adam_end);
            let uri = b.subrange(adam_end, head);
            let counted = b.len() >= 12 && adam_len > 0 && uri_len > 0 && n > 0;
            let whole = counted && head <= b.len();
            let sized = whole && forall|i: int| 0 <= i < n ==> 1 <= #[trigger] lens[i] <= 67108864;
            sized && utf8::valid_utf8(adam) && utf8::valid_utf8(uri)
        }),
    ensures
        ({
            let n = bytes::u32_at(b, 8) as int;
            let head = 12 + 4 * n + bytes::u32_at(b, 0) + bytes::u32_at(b, 4);
            let lens = layout::table_lengths(b, 12, n as nat);
            &&& decode_http_batch(b) == Err::<BatchView, ProtocolError>(
                ProtocolError::TrailingBatchBytes,
            ) <==> head + layout::sum(lens) < b.len()
            &&& decode_http_batch(b) == Err::<BatchView, ProtocolError>(
                ProtocolError::TruncatedSample,
            ) <==> exists|i: int|
                0 <= i < n && head + layout::sum(lens.take(i)) <= b.len() < head + layout::sum(
                    lens.take(i),
                ) + #[trigger] lens[i] <= usize::MAX
            &&& decode_http_batch(b) == Err::<BatchView, ProtocolError>(
                ProtocolError::BatchOverflow,
            ) <==> exists|i: int|
                0 <= i < n && head + layout::sum(lens.take(i)) <= b.len() && head + layout::sum(
                    lens.take(i),
                ) + #[trigger] lens[i] > usize::MAX
        }),
{
    let n = bytes::u32_at(b, 8) as nat;
    let head = 12 + 4 * n + bytes::u32_at(b, 0) as nat + bytes::u32_at(b, 4) as nat;
    let lens = layout::table_lengths(b, 12, n);
    assert(forall|i: int|
        0 <= i < n ==> (http_sample_len_ok(#[trigger] lens[i]) <==> 1 <= lens[i] <= 67108864));
    layout::law_cut(b, head, lens);
}

/// Why a batch is not encoded for the worker: a text of more than 65535 bytes or more
/// samples than a 32-bit field can count; no sample at all; then the first sample, here
/// `i`, that is empty or too long for its field, or that takes the size beyond what can be
/// addressed.
pub proof fn law_batch_refused(adam: Seq<u8>, uri: Seq<u8>, samples: Seq<Seq<u8>>, i: int)
    ensures
        ({
            let r = batch_refusal(adam, uri, samples);
            let n = samples.len();
            let head = 8 + 4 * n + adam.len() + uri.len();
            let fits = adam.len() <= 65535 && uri.len() <= 65535 && n <= 4294967295;
            let before = head + layout::total_len(samples.take(i));
            let reached = fits && 0 <= i < n && before <= usize::MAX && head <= usize::MAX && (forall|
                j: int,
            |
                0 <= j < i ==> 1 <= (#[trigger] samples[j]).len() <= 4294967295);
            let fine = 1 <= samples[i].len() <= 4294967295;
            &&& r is None <==> fits && n > 0 && head + layout::total_len(samples) <= usize::MAX && (
            forall|j: int| 0 <= j < n ==> 1 <= (#[trigger] samples[j]).len() <= 4294967295)
            &&& r == Some(ProtocolError::EmptyDecryptBatch) <==> fits && n == 0
            &&& !fits ==> r == Some(ProtocolError::DecryptPayloadTooLarge)
            &&& n > 0 && head > usize::MAX ==> r == Some(ProtocolError::DecryptPayloadTooLarge)
            &&& reached && !fine ==> r == Some(ProtocolError::UnencodableSample)
            &&& reached && fine && before + samples[i].len() > usize::MAX ==> r == Some(
                ProtocolError::DecryptPayloadTooLarge,
            )
        }),
{
    law_batch_accepted(adam, uri, samples);
    let head = batch_head_len(adam, uri, samples);
    layout::lemma_size_of_faults(
        head,
        samples,
        1,
        ProtocolError::UnencodableSample,
        ProtocolError::DecryptPayloadTooLarge,
    );
    if head <= usize::MAX && 0 <= i < samples.len() && head + layout::total_len(samples.take(i))
        <= usize::MAX && (forall|j: int|
        0 <= j < i ==> 1 <= (#[trigger] samples[j]).len() <= u32::MAX) && (!(1 <= samples[i].len()
        <= u32::MAX) || head + layout::total_len(samples.take(i)) + samples[i].len() > usize::MAX) {
        layout::law_size_of(
            head,
            samples,
            1,
            ProtocolError::UnencodableSample,
            ProtocolError::DecryptPayloadTooLarge,
            i,
        );
    }
}

/// Why samples are not sent back: more than a 32-bit field can count; then the first
/// sample, here `i`, that is too long for its field, or that takes the size beyond what can
/// be addressed.
pub proof fn law_response_refused(samples: Seq<Seq<u8>>, i: int)
    ensures
        ({
            let r = response_refusal(samples);
            let n = samples.len();
            let head = 4 + 4 * n;
            let fits = n <= 4294967295;
            let before = head + layout::total_len(samples.take(i));
            let reached = fits && 0 <= i < n && before <= usize::MAX && head <= usize::MAX && (forall|
                j: int,
            |
                0 <= j < i ==> (#[trigger] samples[j]).len() <= 4294967295);
            let fine = samples[i].len() <= 4294967295;
            &&& r is None <==> fits && head + layout::total_len(samples) <= usize::MAX && (forall|
                j: int,
            |
                0 <= j < n ==> (#[trigger] samples[j]).len() <= 4294967295)
            &&& !fits <==> r == Some(ProtocolError::TooManySamples)
            &&& fits && head > usize::MAX ==> r == Some(ProtocolError::ResponseTooLarge)
            &&& reached && !fine ==> r == Some(ProtocolError::SampleTooLarge)
            &&& reached && fine && before + samples[i].len() > usize::MAX ==> r == Some(
                ProtocolError::ResponseTooLarge,
            )
        }),
{
    law_response_accepted(samples);
    let head = 4 + 4 * samples.len();
    layout::lemma_size_of_faults(
        head,
        samples,
        0,
        ProtocolError::SampleTooLarge,
        ProtocolError::ResponseTooLarge,
    );
    if head <= usize::MAX && 0 <= i < samples.len() && head + layout::total_len(samples.take(i))
        <= usize::MAX && (forall|j: int|
        0 <= j < i ==> 0 <= (#[trigger] samples[j]).len() <= u32::MAX) && (!(0 <= samples[i].len()
        <= u32::MAX) || head + layout::total_len(samples.take(i)) + samples[i].len() > usize::MAX) {
        layout::law_size_of(
            head,
            samples,
            0,
            ProtocolError::SampleTooLarge,
            ProtocolError::ResponseTooLarge,
            i,
        );
    }
}

} // verus!
