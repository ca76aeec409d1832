//! The shape that every sample list has on the wire: a table of 32-bit lengths,
//! and the samples themselves laid end to end.

use vstd::prelude::*;

use crate::bytes;
use crate::error::ProtocolError;

verus! {

/// The contents of a list of byte vectors.
pub open spec fn views(samples: Seq<Vec<u8>>) -> Seq<Seq<u8>> {
    Seq::new(samples.len(), |i: int| samples[i]@)
}

/// The number of bytes in all samples together.
pub open spec fn total_len(samples: Seq<Seq<u8>>) -> nat
    decreases samples.len(),
{
    if samples.len() == 0 {
        0
    } else {
        total_len(samples.drop_last()) + samples.last().len()
    }
}

/// The length of each sample as a 32-bit integer, in order.
pub open spec fn length_table(samples: Seq<Seq<u8>>) -> Seq<u8>
    decreases samples.len(),
{
    if samples.len() == 0 {
        Seq::empty()
    } else {
        length_table(samples.drop_last()) + bytes::be_u32(samples.last().len() as u32)
    }
}

/// The samples laid end to end.
pub open spec fn joined(samples: Seq<Seq<u8>>) -> Seq<u8>
    decreases samples.len(),
{
    if samples.len() == 0 {
        Seq::empty()
    } else {
        joined(samples.drop_last()) + samples.last()
    }
}

/// The `n` lengths of the table that starts at `at`.
pub open spec fn table_lengths(data: Seq<u8>, at: int, n: nat) -> Seq<nat> {
    Seq::new(n, |i: int| bytes::u32_at(data, at + 4 * i) as nat)
}

/// The sum of a list of lengths.
pub open spec fn sum(lens: Seq<nat>) -> nat
    decreases lens.len(),
{
    if lens.len() == 0 {
        0
    } else {
        sum(lens.drop_last()) + lens.last()
    }
}

/// The length of each sample.
pub open spec fn lengths(samples: Seq<Seq<u8>>) -> Seq<nat> {
    Seq::new(samples.len(), |i: int| samples[i].len())
}

/// The lengths in `lens` as natural numbers.
pub open spec fn nats(lens: Seq<usize>) -> Seq<nat> {
    Seq::new(lens.len(), |i: int| lens[i] as nat)
}

/// Why a run of bytes does not split into samples of given lengths.
#[derive(Debug, Clone, Copy, PartialEq, Eq, Structural)]
pub enum CutFault {
    /// A sample would end beyond what can be addressed.
    Overflow,
    /// A sample would end beyond the data.
    Truncated,
    /// The data goes on after the last sample.
    Trailing,
}

/// Where the last of the samples of lengths `lens` ends that start at `at`; or
/// the fault of the first sample that does not end within `data`.
pub open spec fn samples_end(data: Seq<u8>, at: nat, lens: Seq<nat>) -> Result<nat, CutFault>
    decreases lens.len(),
{
    if lens.len() == 0 {
        Ok(at)
    } else {
        match samples_end(data, at, lens.drop_last()) {
            Err(fault) => Err(fault),
            Ok(start) => if start + lens.last() > usize::MAX {
                Err(CutFault::Overflow)
            } else if start + lens.last() > data.len() {
                Err(CutFault::Truncated)
            } else {
                Ok(start + lens.last())
            },
        }
    }
}

/// The samples of lengths `lens` that lie end to end in `data` from `at` on.
pub open spec fn pieces(data: Seq<u8>, at: int, lens: Seq<nat>) -> Seq<Seq<u8>> {
    Seq::new(
        lens.len(),
        |i: int| data.subrange(at + sum(lens.take(i)), at + sum(lens.take(i + 1))),
    )
}

/// `data` from `at` on as samples of lengths `lens` that use it up exactly.
pub open spec fn cut(data: Seq<u8>, at: nat, lens: Seq<nat>) -> Result<Seq<Seq<u8>>, CutFault> {
    match samples_end(data, at, lens) {
        Err(fault) => Err(fault),
        Ok(end) => if end != data.len() {
            Err(CutFault::Trailing)
        } else {
            Ok(pieces(data, at as int, lens))
        },
    }
}

/// `base` bytes and the bytes of all samples, counted in order: `bad` where a
/// sample is shorter than `min` or longer than a 32-bit length field can say,
/// `over` where the count leaves what can be addressed, whichever comes first.
pub open spec fn size_of(
    base: nat,
    samples: Seq<Seq<u8>>,
    min: nat,
    bad: ProtocolError,
    over: ProtocolError,
) -> Result<nat, ProtocolError>
    decreases samples.len(),
{
    if samples.len() == 0 {
        Ok(base)
    } else {
        match size_of(base, samples.drop_last(), min, bad, over) {
            Err(e) => Err(e),
            Ok(n) => if samples.last().len() < min || samples.last().len() > u32::MAX {
                Err(bad)
            } else if n + samples.last().len() > usize::MAX {
                Err(over)
            } else {
                Ok(n + samples.last().len())
            },
        }
    }
}

/// Every sample has a length that the table can hold, and at least `min` bytes.
pub open spec fn encodable(samples: Seq<Seq<u8>>, min: nat) -> bool {
    forall|i: int| 0 <= i < samples.len() ==> min <= (#[trigger] samples[i]).len() <= u32::MAX
}

/// The sizes add up exactly when every sample can be encoded and the total can
/// be addressed; the size is then that total.
pub proof fn lemma_size_of(
    base: nat,
    samples: Seq<Seq<u8>>,
    min: nat,
    bad: ProtocolError,
    over: ProtocolError,
)
    requires
        base <= usize::MAX,
    ensures
        size_of(base, samples, min, bad, over) is Ok <==> encodable(samples, min) && base
            + total_len(samples) <= usize::MAX,
        size_of(base, samples, min, bad, over) matches Ok(n) ==> n == base + total_len(samples),
    decreases samples.len(),
{
    if samples.len() > 0 {
        let init = samples.drop_last();
        lemma_size_of(base, init, min, bad, over);
        assert(samples =~= init.push(samples.last()));
        if encodable(samples, min) {
            assert forall|i: int| 0 <= i < init.len() implies min <= (#[trigger] init[i]).len()
                <= u32::MAX by {
                assert(init[i] == samples[i]);
            }
            assert(samples[samples.len() - 1] == samples.last());
        }
        if encodable(init, min) && min <= samples.last().len() <= u32::MAX {
            assert forall|i: int| 0 <= i < samples.len() implies min <= (#[trigger] samples[i]).len()
                <= u32::MAX by {
                if i < init.len() {
                    assert(init[i] == samples[i]);
                }
            }
        }
    }
}

/// One more sample adds its own length to the bytes of a prefix.
pub proof fn lemma_total_len_take(samples: Seq<Seq<u8>>, i: int)
    requires
        0 <= i < samples.len(),
    ensures
        total_len(samples.take(i + 1)) == total_len(samples.take(i)) + samples[i].len(),
{
    assert(samples.take(i + 1).drop_last() =~= samples.take(i));
}

/// The lengths of a list of samples add up to its total.
pub proof fn lemma_sum_lengths(samples: Seq<Seq<u8>>)
    ensures
        sum(lengths(samples)) == total_len(samples),
    decreases samples.len(),
{
    if samples.len() > 0 {
        lemma_sum_lengths(samples.drop_last());
        assert(lengths(samples).drop_last() =~= lengths(samples.drop_last()));
    }
}

/// The samples laid end to end have as many bytes as the samples.
pub proof fn lemma_joined_len(samples: Seq<Seq<u8>>)
    ensures
        joined(samples).len() == total_len(samples),
    decreases samples.len(),
{
    if samples.len() > 0 {
        lemma_joined_len(samples.drop_last());
    }
}

/// The table has four bytes for each sample.
pub proof fn lemma_length_table_len(samples: Seq<Seq<u8>>)
    ensures
        length_table(samples).len() == 4 * samples.len(),
    decreases samples.len(),
{
    if samples.len() > 0 {
        lemma_length_table_len(samples.drop_last());
    }
}

/// The table holds the length of sample `i` at its place.
pub proof fn lemma_length_table_at(samples: Seq<Seq<u8>>, i: int)
    requires
        0 <= i < samples.len(),
    ensures
        4 * i + 4 <= length_table(samples).len(),
        length_table(samples).subrange(4 * i, 4 * i + 4) == bytes::be_u32(samples[i].len() as u32),
    decreases samples.len(),
{
    let init = samples.drop_last();
    lemma_length_table_len(samples);
    lemma_length_table_len(init);
    let last = bytes::be_u32(samples.last().len() as u32);
    let table = length_table(samples);
    assert(table == length_table(init) + last);
    if i < init.len() {
        lemma_length_table_at(init, i);
        assert(table.subrange(4 * i, 4 * i + 4) =~= length_table(init).subrange(4 * i, 4 * i + 4));
        assert(init[i] == samples[i]);
    } else {
        assert(table.subrange(4 * i, 4 * i + 4) =~= last);
    }
}

/// What is read back from a table of lengths is the lengths.
pub proof fn lemma_table_round_trip(samples: Seq<Seq<u8>>, head: Seq<u8>, tail: Seq<u8>)
    requires
        encodable(samples, 0),
    ensures
        table_lengths(head + length_table(samples) + tail, head.len() as int, samples.len())
            == lengths(samples),
{
    let data = head + length_table(samples) + tail;
    lemma_length_table_len(samples);
    assert forall|i: int| 0 <= i < samples.len() implies bytes::u32_at(data, head.len() + 4 * i) as nat
        == (#[trigger] samples[i]).len() by {
        lemma_length_table_at(samples, i);
        assert(data.subrange(head.len() + 4 * i, head.len() + 4 * i + 4) =~= length_table(
            samples,
        ).subrange(4 * i, 4 * i + 4));
        bytes::lemma_u32_placed(data, head.len() + 4 * i, samples[i].len() as u32);
    }
    assert(table_lengths(data, head.len() as int, samples.len()) =~= lengths(samples));
}

/// A table of lengths that was read is the table of samples of those lengths.
pub proof fn lemma_table_canonical(data: Seq<u8>, at: int, samples: Seq<Seq<u8>>)
    requires
        0 <= at,
        at + 4 * samples.len() <= data.len(),
        lengths(samples) == table_lengths(data, at, samples.len()),
    ensures
        length_table(samples) == data.subrange(at, at + 4 * samples.len()),
    decreases samples.len(),
{
    if samples.len() == 0 {
        assert(length_table(samples) =~= data.subrange(at, at));
    } else {
        let init = samples.drop_last();
        let n = init.len() as int;
        let read = table_lengths(data, at, samples.len());
        assert forall|i: int| 0 <= i < samples.len() implies (#[trigger] samples[i]).len()
            == bytes::u32_at(data, at + 4 * i) by {
            assert(lengths(samples)[i] == samples[i].len());
            assert(read[i] == bytes::u32_at(data, at + 4 * i) as nat);
        }
        assert forall|i: int| 0 <= i < n implies lengths(init)[i] == table_lengths(
            data,
            at,
            init.len(),
        )[i] by {
            assert(init[i] == samples[i]);
            assert(table_lengths(data, at, init.len())[i] == bytes::u32_at(data, at + 4 * i) as nat);
        }
        assert(lengths(init) =~= table_lengths(data, at, init.len()));
        lemma_table_canonical(data, at, init);
        assert(samples[n] == samples.last());
        bytes::law_u32_bytes(data, at + 4 * n);
        assert(data.subrange(at, at + 4 * samples.len()) =~= data.subrange(at, at + 4 * n)
            + data.subrange(at + 4 * n, at + 4 * n + 4));
    }
}

/// Splitting succeeds exactly when all lengths together end within the data
/// (the size of the data being addressable), and then ends there.
pub proof fn lemma_samples_end(data: Seq<u8>, at: nat, lens: Seq<nat>)
    requires
        at <= data.len() <= usize::MAX,
    ensures
        samples_end(data, at, lens) is Ok <==> at + sum(lens) <= data.len(),
        samples_end(data, at, lens) matches Ok(end) ==> end == at + sum(lens),
    decreases lens.len(),
{
    if lens.len() > 0 {
        lemma_samples_end(data, at, lens.drop_last());
    }
}

/// A fault of a prefix is the fault of the whole.
pub proof fn lemma_samples_end_fault(data: Seq<u8>, at: nat, lens: Seq<nat>, i: int)
    requires
        0 <= i <= lens.len(),
        samples_end(data, at, lens.take(i)) is Err,
    ensures
        samples_end(data, at, lens) == samples_end(data, at, lens.take(i)),
    decreases lens.len(),
{
    if i == lens.len() {
        assert(lens.take(i) =~= lens);
    } else {
        assert(lens.drop_last().take(i) =~= lens.take(i));
        lemma_samples_end_fault(data, at, lens.drop_last(), i);
    }
}

/// A fault of a prefix is the fault of the whole.
pub proof fn lemma_size_of_fault(
    base: nat,
    samples: Seq<Seq<u8>>,
    min: nat,
    bad: ProtocolError,
    over: ProtocolError,
    i: int,
)
    requires
        0 <= i <= samples.len(),
        size_of(base, samples.take(i), min, bad, over) is Err,
    ensures
        size_of(base, samples, min, bad, over) == size_of(base, samples.take(i), min, bad, over),
    decreases samples.len(),
{
    if i == samples.len() {
        assert(samples.take(i) =~= samples);
    } else {
        assert(samples.drop_last().take(i) =~= samples.take(i));
        lemma_size_of_fault(base, samples.drop_last(), min, bad, over, i);
    }
}

/// Sample `i` lies in the joined bytes where the samples before it end.
pub proof fn lemma_joined_at(samples: Seq<Seq<u8>>, i: int)
    requires
        0 <= i < samples.len(),
    ensures
        total_len(samples.take(i)) + samples[i].len() <= joined(samples).len(),
        joined(samples).subrange(
            total_len(samples.take(i)) as int,
            (total_len(samples.take(i)) + samples[i].len()) as int,
        ) == samples[i],
    decreases samples.len(),
{
    let init = samples.drop_last();
    lemma_joined_len(init);
    if i < init.len() {
        lemma_joined_at(init, i);
        assert(init.take(i) =~= samples.take(i));
        let from = total_len(samples.take(i)) as int;
        let to = from + samples[i].len();
        assert(joined(samples).subrange(from, to) =~= joined(init).subrange(from, to));
    } else {
        assert(samples.take(i) =~= init);
        assert(joined(samples).subrange(
            total_len(init) as int,
            (total_len(init) + samples[i].len()) as int,
        ) =~= samples[i]);
    }
}

/// Cutting joined samples by their lengths gives the samples.
pub proof fn lemma_cut_joined(head: Seq<u8>, samples: Seq<Seq<u8>>)
    requires
        head.len() + total_len(samples) <= usize::MAX,
    ensures
        cut(head + joined(samples), head.len(), lengths(samples))
            == Ok::<Seq<Seq<u8>>, CutFault>(samples),
{
    let data = head + joined(samples);
    let lens = lengths(samples);
    lemma_joined_len(samples);
    lemma_sum_lengths(samples);
    lemma_samples_end(data, head.len(), lens);
    assert forall|i: int| 0 <= i < samples.len() implies pieces(data, head.len() as int, lens)[i]
        == #[trigger] samples[i] by {
        lemma_joined_at(samples, i);
        lemma_total_len_take(samples, i);
        assert(lens.take(i) =~= lengths(samples.take(i)));
        assert(lens.take(i + 1) =~= lengths(samples.take(i + 1)));
        lemma_sum_lengths(samples.take(i));
        lemma_sum_lengths(samples.take(i + 1));
        let from = total_len(samples.take(i)) as int;
        let to = from + samples[i].len();
        assert(data.subrange(head.len() + from, head.len() + to) =~= joined(samples).subrange(
            from,
            to,
        ));
    }
    assert(pieces(data, head.len() as int, lens) =~= samples);
}

/// A prefix of a list of lengths adds up to no more than the list.
pub proof fn lemma_sum_take(lens: Seq<nat>, i: int)
    requires
        0 <= i < lens.len(),
    ensures
        sum(lens.take(i + 1)) == sum(lens.take(i)) + lens[i],
        sum(lens.take(i + 1)) <= sum(lens),
    decreases lens.len(),
{
    assert(lens.take(i + 1).drop_last() =~= lens.take(i));
    if i + 1 == lens.len() {
        assert(lens.take(i + 1) =~= lens);
    } else {
        let init = lens.drop_last();
        lemma_sum_take(init, i);
        assert(init.take(i + 1) =~= lens.take(i + 1));
    }
}

/// The pieces cut from data have the lengths asked for, and laid end to end are
/// the data that they were cut from.
pub proof fn lemma_pieces_canonical(data: Seq<u8>, at: int, lens: Seq<nat>)
    requires
        0 <= at,
        at + sum(lens) <= data.len(),
    ensures
        lengths(pieces(data, at, lens)) == lens,
        joined(pieces(data, at, lens)) == data.subrange(at, at + sum(lens)),
    decreases lens.len(),
{
    let all = pieces(data, at, lens);
    assert forall|i: int| 0 <= i < lens.len() implies (#[trigger] all[i]).len() == lens[i] by {
        lemma_sum_take(lens, i);
    }
    assert(lengths(all) =~= lens);
    if lens.len() == 0 {
        assert(joined(all) =~= data.subrange(at, at));
    } else {
        let init = lens.drop_last();
        let n = init.len() as int;
        lemma_pieces_canonical(data, at, init);
        assert forall|i: int| 0 <= i < n implies all[i] == #[trigger] pieces(data, at, init)[i] by {
            assert(init.take(i) =~= lens.take(i));
            assert(init.take(i + 1) =~= lens.take(i + 1));
        }
        assert(all.drop_last() =~= pieces(data, at, init));
        assert(lens.take(n) =~= init);
        assert(lens.take(n + 1) =~= lens);
        assert(data.subrange(at, at + sum(lens)) =~= data.subrange(at, at + sum(init))
            + data.subrange(at + sum(init), at + sum(lens)));
    }
}

/// A list of samples grows by one at its end: its bytes by the bytes of that sample, and
/// its table by the four bytes of that sample's length.
pub proof fn law_sample_list(samples: Seq<Seq<u8>>, x: Seq<u8>)
    ensures
        total_len(Seq::<Seq<u8>>::empty()) == 0,
        total_len(samples.push(x)) == total_len(samples) + x.len(),
        joined(Seq::<Seq<u8>>::empty()) == Seq::<u8>::empty(),
        joined(samples.push(x)) == joined(samples) + x,
        length_table(Seq::<Seq<u8>>::empty()) == Seq::<u8>::empty(),
        length_table(samples.push(x)) == length_table(samples) + bytes::be_u32(x.len() as u32),
        lengths(samples.push(x)) == lengths(samples).push(x.len()),
{
    assert(samples.push(x).drop_last() =~= samples);
    assert(lengths(samples.push(x)) =~= lengths(samples).push(x.len()));
}

/// A list of lengths adds up to nothing when it is empty, and to one length more for each
/// that is added.
pub proof fn law_length_list(lens: Seq<nat>, n: nat)
    ensures
        sum(Seq::<nat>::empty()) == 0,
        sum(lens.push(n)) == sum(lens) + n,
{
    assert(lens.push(n).drop_last() =~= lens);
}

/// What a list of byte vectors holds, what a list of lengths says, and what a table says,
/// each at its index.
pub proof fn law_elementwise(vectors: Seq<Vec<u8>>, lens: Seq<usize>, data: Seq<u8>, at: int, n: nat)
    ensures
        views(vectors).len() == vectors.len(),
        forall|i: int| 0 <= i < vectors.len() ==> #[trigger] views(vectors)[i] == vectors[i]@,
        nats(lens).len() == lens.len(),
        forall|i: int| 0 <= i < lens.len() ==> #[trigger] nats(lens)[i] == lens[i],
        table_lengths(data, at, n).len() == n,
        forall|i: int|
            0 <= i < n ==> #[trigger] table_lengths(data, at, n)[i] == bytes::u32_at(
                data,
                at + 4 * i,
            ),
{
}

/// The fault that a run of lengths meets is met at one of them.
proof fn lemma_samples_end_met(data: Seq<u8>, at: nat, lens: Seq<nat>) -> (i: int)
    requires
        at <= data.len() <= usize::MAX,
        samples_end(data, at, lens) is Err,
    ensures
        0 <= i < lens.len(),
        at + sum(lens.take(i)) <= data.len() < at + sum(lens.take(i)) + lens[i],
        samples_end(data, at, lens) == (if at + sum(lens.take(i)) + lens[i] > usize::MAX {
            Err::<nat, CutFault>(CutFault::Overflow)
        } else {
            Err::<nat, CutFault>(CutFault::Truncated)
        }),
    decreases lens.len(),
{
    let init = lens.drop_last();
    lemma_samples_end(data, at, init);
    if samples_end(data, at, init) is Err {
        let i = lemma_samples_end_met(data, at, init);
        assert(init.take(i) =~= lens.take(i));
        i
    } else {
        let i = lens.len() - 1;
        assert(lens.take(i) =~= init);
        i
    }
}

/// Cutting data from `at` on succeeds exactly when the lengths use it up, and sample `i`
/// is then the bytes that follow those of the samples before it. Lengths that leave bytes
/// over are too short; otherwise the first sample that does not end within the data is at
/// fault, by as much as can be addressed or by less.
pub proof fn law_cut(data: Seq<u8>, at: nat, lens: Seq<nat>)
    requires
        at <= data.len() <= usize::MAX,
    ensures
        cut(data, at, lens) is Ok <==> at + sum(lens) == data.len(),
        cut(data, at, lens) matches Ok(samples) ==> {
            &&& samples.len() == lens.len()
            &&& forall|i: int|
                0 <= i < lens.len() ==> (#[trigger] samples[i]) == data.subrange(
                    at as int + sum(lens.take(i)),
                    at as int + sum(lens.take(i)) + lens[i],
                )
            &&& forall|i: int| 0 <= i < lens.len() ==> (#[trigger] samples[i]).len() == lens[i]
        },
        cut(data, at, lens) == Err::<Seq<Seq<u8>>, CutFault>(CutFault::Trailing) <==> at + sum(lens)
            < data.len(),
        cut(data, at, lens) == Err::<Seq<Seq<u8>>, CutFault>(CutFault::Truncated) <==> exists|i: int|
            0 <= i < lens.len() && at + sum(lens.take(i)) <= data.len() < at + sum(lens.take(i))
                + #[trigger] lens[i] <= usize::MAX,
        cut(data, at, lens) == Err::<Seq<Seq<u8>>, CutFault>(CutFault::Overflow) <==> exists|i: int|
            0 <= i < lens.len() && at + sum(lens.take(i)) <= data.len() && at + sum(lens.take(i))
                + #[trigger] lens[i] > usize::MAX,
{
    lemma_samples_end(data, at, lens);
    if cut(data, at, lens) is Ok {
        let samples = pieces(data, at as int, lens);
        assert forall|i: int| 0 <= i < lens.len() implies (#[trigger] samples[i]) == data.subrange(
            at as int + sum(lens.take(i)),
            at as int + sum(lens.take(i)) + lens[i],
        ) && samples[i].len() == lens[i] by {
            lemma_sum_take(lens, i);
        }
    }
    if samples_end(data, at, lens) is Err {
        let k = lemma_samples_end_met(data, at, lens);
        assert(lens[k] == lens[k]);
    }
    assert forall|i: int|
        0 <= i < lens.len() && at + sum(lens.take(i)) <= data.len() < at + sum(lens.take(i))
            + #[trigger] lens[i] implies samples_end(data, at, lens) == (if at + sum(lens.take(i))
        + lens[i] > usize::MAX {
        Err::<nat, CutFault>(CutFault::Overflow)
    } else {
        Err::<nat, CutFault>(CutFault::Truncated)
    }) by {
        let part = lens.take(i + 1);
        assert(part.drop_last() =~= lens.take(i));
        lemma_samples_end(data, at, lens.take(i));
        lemma_samples_end_fault(data, at, lens, i + 1);
    }
}

/// Counting has no faults but the two that it is told of.
pub proof fn lemma_size_of_faults(
    base: nat,
    samples: Seq<Seq<u8>>,
    min: nat,
    bad: ProtocolError,
    over: ProtocolError,
)
    ensures
        size_of(base, samples, min, bad, over) matches Err(e) ==> e == bad || e == over,
    decreases samples.len(),
{
    if samples.len() > 0 {
        lemma_size_of_faults(base, samples.drop_last(), min, bad, over);
    }
}

/// Counting is at fault at the first sample that cannot be encoded or that takes the count
/// beyond what can be addressed: where sample `i` is such and those before it are not, the
/// fault is that it cannot be encoded, and else that it goes too far.
pub proof fn law_size_of(
    base: nat,
    samples: Seq<Seq<u8>>,
    min: nat,
    bad: ProtocolError,
    over: ProtocolError,
    i: int,
)
    requires
        base <= usize::MAX,
        0 <= i < samples.len(),
        base + total_len(samples.take(i)) <= usize::MAX,
        forall|j: int| 0 <= j < i ==> min <= (#[trigger] samples[j]).len() <= u32::MAX,
        !(min <= samples[i].len() <= u32::MAX) || base + total_len(samples.take(i))
            + samples[i].len() > usize::MAX,
    ensures
        size_of(base, samples, min, bad, over) == (if !(min <= samples[i].len() <= u32::MAX) {
            Err::<nat, ProtocolError>(bad)
        } else {
            Err::<nat, ProtocolError>(over)
        }),
{
    let before = samples.take(i);
    assert forall|j: int| 0 <= j < before.len() implies min <= (#[trigger] before[j]).len()
        <= u32::MAX by {
        assert(before[j] == samples[j]);
    }
    lemma_size_of(base, before, min, bad, over);
    assert(samples.take(i + 1).drop_last() =~= before);
    lemma_size_of_fault(base, samples, min, bad, over, i + 1);
}

/// Appends the length of each sample.
pub(crate) fn put_length_table(out: &mut Vec<u8>, samples: &[Vec<u8>])
    requires
        encodable(views(samples@), 0),
    ensures
        final(out)@ == old(out)@ + length_table(views(samples@)),
{
    let ghost all = views(samples@);
    let mut i: usize = 0;
    assert(all.take(0) =~= Seq::empty());
    assert(out@ =~= old(out)@ + length_table(all.take(0)));
    while i < samples.len()
        invariant
            i <= samples@.len(),
            all == views(samples@),
            encodable(all, 0),
            out@ == old(out)@ + length_table(all.take(i as int)),
        decreases samples@.len() - i,
    {
        proof {
            assert(all[i as int].len() <= u32::MAX);
            assert(all.take(i + 1).drop_last() =~= all.take(i as int));
        }
        bytes::put_u32(out, samples[i].len() as u32);
        i += 1;
        assert(out@ =~= old(out)@ + length_table(all.take(i as int)));
    }
    assert(all.take(i as int) =~= all);
}

/// Appends the samples one after another.
pub(crate) fn put_samples(out: &mut Vec<u8>, samples: &[Vec<u8>])
    ensures
        final(out)@ == old(out)@ + joined(views(samples@)),
{
    let ghost all = views(samples@);
    let mut i: usize = 0;
    assert(all.take(0) =~= Seq::empty());
    assert(out@ =~= old(out)@ + joined(all.take(0)));
    while i < samples.len()
        invariant
            i <= samples@.len(),
            all == views(samples@),
            out@ == old(out)@ + joined(all.take(i as int)),
        decreases samples@.len() - i,
    {
        proof {
            assert(all.take(i + 1).drop_last() =~= all.take(i as int));
        }
        bytes::put_bytes(out, samples[i].as_slice());
        i += 1;
        assert(out@ =~= old(out)@ + joined(all.take(i as int)));
    }
    assert(all.take(i as int) =~= all);
}

/// Counts the bytes of all samples on top of `base`.
pub(crate) fn checked_size(
    base: usize,
    samples: &[Vec<u8>],
    min: usize,
    bad: ProtocolError,
    over: ProtocolError,
) -> (r: Result<usize, ProtocolError>)
    ensures
        match r {
            Ok(n) => size_of(base as nat, views(samples@), min as nat, bad, over) == Ok::<
                nat,
                ProtocolError,
            >(n as nat),
            Err(e) => size_of(base as nat, views(samples@), min as nat, bad, over) == Err::<
                nat,
                ProtocolError,
            >(e),
        },
{
    let ghost all = views(samples@);
    let mut size: usize = base;
    let mut i: usize = 0;
    assert(all.take(0) =~= Seq::empty());
    while i < samples.len()
        invariant
            i <= samples@.len(),
            all == views(samples@),
            size_of(base as nat, all.take(i as int), min as nat, bad, over) == Ok::<
                nat,
                ProtocolError,
            >(size as nat),
        decreases samples@.len() - i,
    {
        let len: usize = samples[i].len();
        proof {
            assert(all.take(i + 1).drop_last() =~= all.take(i as int));
            assert(all.take(i + 1).last() == samples@[i as int]@);
        }
        if len < min || len > u32::MAX as usize {
            proof {
                lemma_size_of_fault(base as nat, all, min as nat, bad, over, i + 1);
            }
            return Err(bad);
        }
        match size.checked_add(len) {
            None => {
                proof {
                    lemma_size_of_fault(base as nat, all, min as nat, bad, over, i + 1);
                }
                return Err(over);
            },
            Some(n) => {
                size = n;
            },
        }
        i += 1;
    }
    assert(all.take(i as int) =~= all);
    Ok(size)
}

/// Splits `data` from `at` on into samples of lengths `lens`.
pub(crate) fn cut_samples(data: &[u8], at: usize, lens: &Vec<usize>) -> (r: Result<Vec<Vec<u8>>, CutFault>)
    requires
        at <= data@.len(),
    ensures
        match r {
            Ok(samples) => cut(data@, at as nat, nats(lens@)) == Ok::<Seq<Seq<u8>>, CutFault>(
                views(samples@),
            ),
            Err(fault) => cut(data@, at as nat, nats(lens@)) == Err::<Seq<Seq<u8>>, CutFault>(fault),
        },
{
    let ghost all = nats(lens@);
    let mut out: Vec<Vec<u8>> = Vec::with_capacity(lens.len());
    let total: usize = data.len();
    let mut offset: usize = at;
    let mut i: usize = 0;
    assert(all.take(0) =~= Seq::empty());
    assert(views(out@) =~= pieces(data@, at as int, all.take(0)));
    while i < lens.len()
        invariant
            i <= lens@.len(),
            all == nats(lens@),
            at <= data@.len(),
            offset <= data@.len(),
            total == data@.len(),
            out@.len() == i,
            samples_end(data@, at as nat, all.take(i as int)) == Ok::<nat, CutFault>(offset as nat),
            views(out@) == pieces(data@, at as int, all.take(i as int)),
        decreases lens@.len() - i,
    {
        let len: usize = lens[i];
        proof {
            assert(all.take(i + 1).drop_last() =~= all.take(i as int));
            assert(all.take(i + 1).last() == len);
        }
        match offset.checked_add(len) {
            None => {
                proof {
                    lemma_samples_end_fault(data@, at as nat, all, i + 1);
                }
                return Err(CutFault::Overflow);
            },
            Some(end) => {
                if end > total {
                    proof {
                        lemma_samples_end_fault(data@, at as nat, all, i + 1);
                    }
                    return Err(CutFault::Truncated);
                }
                let piece = vstd::slice::slice_to_vec(vstd::slice::slice_subrange(data, offset, end));
                let ghost before = out@;
                out.push(piece);
                proof {
                    let now = all.take(i + 1);
                    lemma_samples_end(data@, at as nat, all.take(i as int));
                    lemma_samples_end(data@, at as nat, now);
                    let cutout = pieces(data@, at as int, now);
                    assert forall|j: int| 0 <= j <= i implies #[trigger] views(out@)[j] == cutout[j] by {
                        assert(now.take(j) =~= all.take(j));
                        assert(now.take(j + 1) =~= all.take(j + 1));
                        if j < i {
                            assert(views(out@)[j] == views(before)[j]);
                            assert(views(before)[j] == pieces(data@, at as int, all.take(i as int))[j]);
                            assert(all.take(i as int).take(j) =~= all.take(j));
                            assert(all.take(i as int).take(j + 1) =~= all.take(j + 1));
                        }
                    }
                    assert(views(out@) =~= cutout);
                }
                offset = end;
            },
        }
        i += 1;
    }
    assert(all.take(i as int) =~= all);
    if offset != total {
        return Err(CutFault::Trailing);
    }
    Ok(out)
}

} // verus!
