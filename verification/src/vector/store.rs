//! Layout of the persistent store: one collection of entries, keyed by the
//! position of a record in the corpus.
//!
//! A key is the position as eight bytes, most significant first. The store
//! orders its keys byte by byte, so reading it in key order gives the records
//! back in the order in which they were written.

use crate::vector::error::{ErrorModel, VectorError};
use crate::vector::record::{Record, RecordModel};
use crate::vector::shards::records_model;
use vstd::prelude::*;

verus! {

/// Name of the collection that holds the entries.
pub const ENTRIES: &'static str = "entries";

/// The last `width` base-256 digits of a number, most significant first.
pub open spec fn be_bytes(value: nat, width: nat) -> Seq<u8>
    decreases width,
{
    if width == 0 {
        Seq::empty()
    } else {
        be_bytes(value / 256, (width - 1) as nat).push((value % 256) as u8)
    }
}

/// The key under which the record at a position is stored.
pub open spec fn key_of(position: u64) -> Seq<u8> {
    be_bytes(position as nat, 8)
}

/// `x` comes before `y` in the byte-by-byte order of sequences of one length:
/// at the first place where they differ, `x` has the smaller byte.
pub open spec fn bytes_less(x: Seq<u8>, y: Seq<u8>) -> bool {
    exists|i: int|
        0 <= i < x.len() && i < y.len() && #[trigger] x.take(i) == y.take(i) && x[i] < y[i]
}

/// The digits of a number are as many as were asked for.
pub proof fn lemma_be_bytes_len(value: nat, width: nat)
    ensures
        be_bytes(value, width).len() == width,
    decreases width,
{
    if width > 0 {
        lemma_be_bytes_len(value / 256, (width - 1) as nat);
    }
}

/// Among numbers that agree above their last `width` digits, the smaller
/// number has the digits that come first byte by byte.
proof fn lemma_be_bytes_ordered(a: nat, b: nat, width: nat)
    requires
        a < b,
        a / 256 != b / 256 ==> bytes_less(be_bytes(a / 256, width), be_bytes(b / 256, width)),
    ensures
        bytes_less(be_bytes(a, width + 1), be_bytes(b, width + 1)),
{
    let x = be_bytes(a / 256, width);
    let y = be_bytes(b / 256, width);
    let xs = be_bytes(a, width + 1);
    let ys = be_bytes(b, width + 1);
    lemma_be_bytes_len(a / 256, width);
    lemma_be_bytes_len(b / 256, width);
    assert(xs == x.push((a % 256) as u8));
    assert(ys == y.push((b % 256) as u8));
    if a / 256 == b / 256 {
        assert(a % 256 < b % 256) by (nonlinear_arith)
            requires
                a < b,
                a / 256 == b / 256,
        ;
        assert(xs.take(width as int) =~= x);
        assert(ys.take(width as int) =~= y);
        assert(xs[width as int] < ys[width as int]);
    } else {
        let i = choose|i: int|
            0 <= i < x.len() && i < y.len() && #[trigger] x.take(i) == y.take(i) && x[i] < y[i];
        assert(xs.take(i) =~= x.take(i));
        assert(ys.take(i) =~= y.take(i));
        assert(xs[i] == x[i] && ys[i] == y[i]);
    }
}

/// The number of values that `width` base-256 digits can write.
pub open spec fn span(width: nat) -> nat
    decreases width,
{
    if width == 0 {
        1
    } else {
        256 * span((width - 1) as nat)
    }
}

/// Of two numbers that agree above their last `width` digits, the smaller has
/// the digits that come first.
proof fn lemma_digits_ordered(a: nat, b: nat, width: nat)
    requires
        a < b,
        width > 0,
        a / span(width) == b / span(width),
    ensures
        bytes_less(be_bytes(a, width), be_bytes(b, width)),
    decreases width,
{
    let q = span((width - 1) as nat);
    lemma_span_positive((width - 1) as nat);
    assert(a / 256 <= b / 256) by (nonlinear_arith)
        requires
            a < b,
    ;
    vstd::arithmetic::div_mod::lemma_div_denominator(a as int, 256, q as int);
    vstd::arithmetic::div_mod::lemma_div_denominator(b as int, 256, q as int);
    assert((a / 256) / q == (b / 256) / q);
    if width == 1 {
        assert(a / 256 == b / 256);
        assert(be_bytes(a / 256, 0) =~= be_bytes(b / 256, 0));
        lemma_be_bytes_ordered(a, b, 0);
    } else {
        if a / 256 != b / 256 {
            lemma_digits_ordered(a / 256, b / 256, (width - 1) as nat);
        }
        lemma_be_bytes_ordered(a, b, (width - 1) as nat);
    }
}

/// A span is never zero.
proof fn lemma_span_positive(width: nat)
    ensures
        span(width) > 0,
    decreases width,
{
    if width > 0 {
        lemma_span_positive((width - 1) as nat);
    }
}

/// Keys order as the positions do: the record written at an earlier position
/// is read back before the one written at a later position.
pub proof fn lemma_keys_ordered(a: u64, b: u64)
    requires
        a < b,
    ensures
        key_of(a).len() == 8,
        key_of(b).len() == 8,
        bytes_less(key_of(a), key_of(b)),
        key_of(a) != key_of(b),
{
    lemma_be_bytes_len(a as nat, 8);
    lemma_be_bytes_len(b as nat, 8);
    assert(span(8) == 0x1_0000_0000_0000_0000) by {
        reveal_with_fuel(span, 9);
    }
    assert((a as nat) / 0x1_0000_0000_0000_0000 == 0);
    assert((b as nat) / 0x1_0000_0000_0000_0000 == 0);
    lemma_digits_ordered(a as nat, b as nat, 8);
    let i = choose|i: int|
        0 <= i < key_of(a).len() && i < key_of(b).len() && #[trigger] key_of(a).take(i) == key_of(
            b,
        ).take(i) && key_of(a)[i] < key_of(b)[i];
    assert(key_of(a)[i] != key_of(b)[i]);
}

/// The key under which the record at a position is stored: the position as
/// eight bytes, most significant first.
pub fn entry_key(position: u64) -> (key: [u8; 8])
    ensures
        key@ == key_of(position),
{
    let b7: u8 = (position % 256) as u8;
    let r6: u64 = position / 256;
    let b6: u8 = (r6 % 256) as u8;
    let r5: u64 = r6 / 256;
    let b5: u8 = (r5 % 256) as u8;
    let r4: u64 = r5 / 256;
    let b4: u8 = (r4 % 256) as u8;
    let r3: u64 = r4 / 256;
    let b3: u8 = (r3 % 256) as u8;
    let r2: u64 = r3 / 256;
    let b2: u8 = (r2 % 256) as u8;
    let r1: u64 = r2 / 256;
    let b1: u8 = (r1 % 256) as u8;
    let r0: u64 = r1 / 256;
    let b0: u8 = (r0 % 256) as u8;
    let key = [b0, b1, b2, b3, b4, b5, b6, b7];
    proof {
        reveal_with_fuel(be_bytes, 9);
        assert(key@ =~= key_of(position));
    }
    key
}

/// Model of the outcome of decoding one entry.
pub open spec fn entry_model(entry: Result<Record, VectorError>) -> Result<
    RecordModel,
    ErrorModel,
> {
    match entry {
        Ok(record) => Ok(record@),
        Err(error) => Err(error@),
    }
}

/// Models of the outcomes of decoding a sequence of entries.
pub open spec fn entries_model(entries: Seq<Result<Record, VectorError>>) -> Seq<
    Result<RecordModel, ErrorModel>,
> {
    entries.map_values(|e: Result<Record, VectorError>| entry_model(e))
}

/// Position of the first entry that failed to decode, or the number of
/// entries where none failed.
pub open spec fn first_failure(entries: Seq<Result<RecordModel, ErrorModel>>) -> int
    decreases entries.len(),
{
    if entries.len() == 0 {
        0
    } else if entries[0] is Err {
        0
    } else {
        1 + first_failure(entries.drop_first())
    }
}

/// What reading the store gives: every record in key order, unless an entry
/// failed to decode, in which case the whole read fails with the error of the
/// first such entry.
pub open spec fn loaded_of(entries: Seq<Result<RecordModel, ErrorModel>>) -> Result<
    Seq<RecordModel>,
    ErrorModel,
> {
    let at = first_failure(entries);
    if at < entries.len() {
        Err(entries[at]->Err_0)
    } else {
        Ok(Seq::new(entries.len(), |i: int| entries[i]->Ok_0))
    }
}

/// The first failure lies within the entries, comes after successes only, and
/// is a failure.
pub proof fn lemma_first_failure(entries: Seq<Result<RecordModel, ErrorModel>>)
    ensures
        0 <= first_failure(entries) <= entries.len(),
        forall|i: int| 0 <= i < first_failure(entries) ==> (#[trigger] entries[i]) is Ok,
        first_failure(entries) < entries.len() ==> entries[first_failure(entries)] is Err,
    decreases entries.len(),
{
    if entries.len() > 0 && entries[0] is Ok {
        let rest = entries.drop_first();
        lemma_first_failure(rest);
        assert forall|i: int| 0 <= i < first_failure(entries) implies (
        #[trigger] entries[i]) is Ok by {
            if i > 0 {
                assert(entries[i] == rest[i - 1]);
            }
        }
        if first_failure(entries) < entries.len() {
            assert(entries[first_failure(entries)] == rest[first_failure(rest)]);
        }
    }
}

/// A position that holds a failure after successes only is the first failure.
pub proof fn lemma_first_failure_is(entries: Seq<Result<RecordModel, ErrorModel>>, at: int)
    requires
        0 <= at <= entries.len(),
        forall|i: int| 0 <= i < at ==> (#[trigger] entries[i]) is Ok,
        at < entries.len() ==> entries[at] is Err,
    ensures
        first_failure(entries) == at,
{
    lemma_first_failure(entries);
    let f = first_failure(entries);
    if f < at {
        assert(entries[f] is Ok);
    } else if at < f {
        assert(entries[at] is Ok);
    }
}

/// Collects the entries read from the store, in key order. A single entry
/// that failed to decode fails the whole read.
pub fn collect_entries(entries: Vec<Result<Record, VectorError>>) -> (loaded: Result<
    Vec<Record>,
    VectorError,
>)
    ensures
        match loaded {
            Ok(records) => loaded_of(entries_model(entries@)) == Ok::<
                Seq<RecordModel>,
                ErrorModel,
            >(records_model(records@)),
            Err(error) => loaded_of(entries_model(entries@)) == Err::<
                Seq<RecordModel>,
                ErrorModel,
            >(error@),
        },
{
    let ghost all = entries@;
    let ghost model = entries_model(entries@);
    let mut records: Vec<Record> = Vec::new();
    for entry in it: entries
        invariant
            it.seq() == all,
            model == entries_model(all),
            records.len() == it.index(),
            forall|t: int|
                0 <= t < it.index() ==> (#[trigger] model[t]) == Ok::<RecordModel, ErrorModel>(
                    records[t]@,
                ),
    {
        proof {
            assert(model[it.index() as int] == entry_model(entry));
        }
        match entry {
            Ok(record) => {
                records.push(record);
            },
            Err(error) => {
                proof {
                    lemma_first_failure_is(model, it.index() as int);
                }
                return Err(error);
            },
        }
    }
    proof {
        lemma_first_failure_is(model, model.len() as int);
        assert(records_model(records@) =~= Seq::new(model.len(), |i: int| model[i]->Ok_0));
    }
    Ok(records)
}

} // verus!
