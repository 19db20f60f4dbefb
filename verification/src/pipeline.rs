//! The steps of a run around the geometry: the columns a run asks for, the
//! batches it cuts its rows into, the tokens it puts in the place of labels,
//! and the records it writes.

use vstd::prelude::*;
use vstd::string::*;
use crate::args::Args;
use crate::csv_utils::{hash_with_salt, salted, sha256_hex};
use crate::error::GeomError;
use crate::geometry::{ProcessedPoint, ProcessedPointView};
use crate::save_strategy::Record;

verus! {

/// Rows that are densified and recentered together.
pub const BATCH_SIZE: usize = 15;

/// The columns that a run reads, in the order in which it looks for them:
/// date, battalion, platoon, company, longitude, latitude.
pub fn required_columns(args: &Args) -> (names: Vec<String>)
    ensures
        names.len() == 6,
        names[0]@ == args.date_column@,
        names[1]@ == args.battalion_column@,
        names[2]@ == args.platoon_column@,
        names[3]@ == args.company_column@,
        names[4]@ == args.longitude_column@,
        names[5]@ == args.latitude_column@,
{
    let mut names: Vec<String> = Vec::new();
    names.push(args.date_column.clone());
    names.push(args.battalion_column.clone());
    names.push(args.platoon_column.clone());
    names.push(args.company_column.clone());
    names.push(args.longitude_column.clone());
    names.push(args.latitude_column.clone());
    names
}

/// Accepts the outcome of a header check where every column was found, and
/// fails with `ColumnNotFound` where one was not.
pub fn require_columns(results: &Vec<Result<String, String>>) -> (r: Result<(), GeomError>)
    ensures
        r is Ok <==> forall|i: int| 0 <= i < results.len() ==> (#[trigger] results[i]) is Ok,
        r matches Err(e) ==> e == GeomError::ColumnNotFound,
{
    let mut i: usize = 0;
    while i < results.len()
        invariant
            i <= results.len(),
            forall|j: int| 0 <= j < i ==> (#[trigger] results[j]) is Ok,
        decreases results.len() - i,
    {
        if results[i].is_err() {
            return Err(GeomError::ColumnNotFound);
        }
        i = i + 1;
    }
    Ok(())
}

/// Number of batches that `rows` rows make at `size` rows a batch.
pub open spec fn batch_count(rows: nat, size: nat) -> nat {
    ((rows + size - 1) / (size as int)) as nat
}

/// The rows of batch `b`: from `b * size` up to, not including, the next
/// batch's first row or the end of the rows.
pub open spec fn batch_range(rows: nat, size: nat, b: int) -> (int, int) {
    (b * size, if (b + 1) * size <= rows {
        (b + 1) * size
    } else {
        rows as int
    })
}

/// Cuts `rows` rows into consecutive batches of `size` rows, the last one
/// holding what is left. Each batch is given as the index of its first row
/// and the index after its last.
pub fn batch_ranges(rows: usize, size: usize) -> (ranges: Vec<(usize, usize)>)
    requires
        size > 0,
    ensures
        ranges.len() == batch_count(rows as nat, size as nat),
        forall|b: int|
            0 <= b < ranges.len() ==> (#[trigger] ranges[b]).0 == batch_range(
                rows as nat,
                size as nat,
                b,
            ).0 && ranges[b].1 == batch_range(rows as nat, size as nat, b).1,
        forall|b: int| 0 <= b < ranges.len() ==> (#[trigger] ranges[b]).0 < ranges[b].1 <= rows,
{
    let mut ranges: Vec<(usize, usize)> = Vec::new();
    let mut start: usize = 0;
    assert(0 * size == 0) by (nonlinear_arith);
    while start < rows
        invariant
            size > 0,
            start <= rows,
            start < rows ==> start == ranges.len() * size,
            start == rows ==> (ranges.len() == 0 && rows == 0) || (ranges.len() > 0 && (
            ranges.len() - 1) * size < rows <= ranges.len() * size),
            forall|b: int|
                0 <= b < ranges.len() ==> (#[trigger] ranges[b]).0 == batch_range(
                    rows as nat,
                    size as nat,
                    b,
                ).0 && ranges[b].1 == batch_range(rows as nat, size as nat, b).1,
            forall|b: int|
                0 <= b < ranges.len() ==> (#[trigger] ranges[b]).0 < ranges[b].1 <= rows,
        decreases rows - start,
    {
        let ghost b = ranges.len() as int;
        proof {
            assert((b + 1) * size == b * size + size && (b + 1 - 1) * size == b * size)
                by (nonlinear_arith);
        }
        let end: usize = if rows - start <= size {
            rows
        } else {
            start + size
        };
        ranges.push((start, end));
        start = end;
    }
    proof {
        let count = ranges.len() as int;
        if count == 0 {
            vstd::arithmetic::div_mod::lemma_basic_div(rows + size - 1, size as int);
        } else {
            let r = rows + size - 1 - count * size;
            assert(rows + size - 1 == (size as int) * count + r) by (nonlinear_arith)
                requires
                    r == rows + size - 1 - count * size,
            ;
            assert(0 <= r < size) by (nonlinear_arith)
                requires
                    r == rows + size - 1 - count * size,
                    (count - 1) * size < rows <= count * size,
            ;
            vstd::arithmetic::div_mod::lemma_fundamental_div_mod_converse(
                rows + size - 1,
                size as int,
                count,
                r,
            );
        }
    }
    ranges
}

/// The record of a processed point within the batch `batch_id`.
pub open spec fn record_view(batch_id: Seq<char>, p: ProcessedPointView, r: Record) -> bool {
    &&& r.batch_id@ == batch_id
    &&& r.angle == p.time_angle
    &&& r.action@ == p.label
    &&& r.longitude == p.position.x
    &&& r.latitude == p.position.y
    &&& r.elevation == p.position.z
    &&& r.is_original == p.is_original
}

/// The records of a processed batch: one per point, in order, each with the
/// batch's token, the point's time angle and label, its three coordinates
/// and its origin mark.
pub fn records_of(batch_id: &str, points: &Vec<ProcessedPoint>) -> (records: Vec<Record>)
    ensures
        records.len() == points.len(),
        forall|i: int|
            0 <= i < records.len() ==> record_view(batch_id@, points[i]@, #[trigger] records[i]),
{
    let mut records: Vec<Record> = Vec::new();
    let mut i: usize = 0;
    while i < points.len()
        invariant
            i <= points.len(),
            records.len() == i,
            forall|j: int|
                0 <= j < i ==> record_view(batch_id@, points[j]@, #[trigger] records[j]),
        decreases points.len() - i,
    {
        let p = &points[i];
        records.push(
            Record {
                batch_id: String::from_str(batch_id),
                angle: p.time_angle,
                action: p.label.clone(),
                longitude: p.position.x,
                latitude: p.position.y,
                elevation: p.position.z,
                is_original: p.is_original,
            },
        );
        i = i + 1;
    }
    records
}

/// The tokens given out so far for the labels of one category, in the order
/// in which the labels were first met. It only grows.
pub struct LabelMap {
    salt: String,
    originals: Vec<String>,
    tokens: Vec<String>,
}

impl LabelMap {
    /// The salt that every token of the map is made with.
    pub closed spec fn salt(&self) -> Seq<char> {
        self.salt@
    }

    /// The labels met so far, in the order in which they were first met.
    pub closed spec fn labels(&self) -> Seq<Seq<char>> {
        Seq::new(self.originals@.len(), |i: int| self.originals@[i]@)
    }

    /// The token of each label met so far, in the same order.
    pub closed spec fn tokens(&self) -> Seq<Seq<char>> {
        Seq::new(self.tokens@.len(), |i: int| self.tokens@[i]@)
    }

    /// No label occurs twice, and each has the token that its hash gives.
    pub open spec fn wf(&self) -> bool {
        &&& self.labels().len() == self.tokens().len()
        &&& forall|i: int, j: int|
            0 <= i < j < self.labels().len() ==> self.labels()[i] != self.labels()[j]
        &&& forall|i: int|
            0 <= i < self.labels().len() ==> #[trigger] self.tokens()[i] == sha256_hex(
                salted(self.labels()[i], self.salt()),
            )
    }

    /// An empty map for tokens made with `salt`.
    pub fn new(salt: String) -> (map: LabelMap)
        ensures
            map.wf(),
            map.salt() == salt@,
            map.labels().len() == 0,
    {
        LabelMap { salt, originals: Vec::new(), tokens: Vec::new() }
    }

    /// Number of labels met so far.
    pub fn len(&self) -> (n: usize)
        ensures
            n == self.labels().len(),
    {
        self.originals.len()
    }

    /// The `i`-th label met and its token.
    pub fn entry(&self, i: usize) -> (pair: (String, String))
        requires
            self.wf(),
            i < self.labels().len(),
        ensures
            pair.0@ == self.labels()[i as int],
            pair.1@ == self.tokens()[i as int],
    {
        (self.originals[i].clone(), self.tokens[i].clone())
    }

    /// The token for `label`: the one given out before where the label was
    /// met before, else a new one, which the map then keeps.
    pub fn token_for(&mut self, label: &str) -> (token: String)
        requires
            old(self).wf(),
        ensures
            final(self).wf(),
            final(self).salt() == old(self).salt(),
            token@ == sha256_hex(salted(label@, old(self).salt())),
            old(self).labels().contains(label@) ==> final(self).labels() == old(self).labels()
                && final(self).tokens() == old(self).tokens(),
            !old(self).labels().contains(label@) ==> final(self).labels() == old(
                self,
            ).labels().push(label@) && final(self).tokens() == old(self).tokens().push(token@),
    {
        let wanted = String::from_str(label);
        let mut i: usize = 0;
        while i < self.originals.len()
            invariant
                i <= self.originals.len(),
                self.wf(),
                *self == *old(self),
                wanted@ == label@,
                forall|j: int| 0 <= j < i ==> #[trigger] self.labels()[j] != label@,
            decreases self.originals.len() - i,
        {
            if self.originals[i] == wanted {
                assert(self.labels()[i as int] == label@);
                assert(self.tokens()[i as int] == sha256_hex(salted(label@, self.salt())));
                return self.tokens[i].clone();
            }
            i = i + 1;
        }
        let token = hash_with_salt(label, self.salt.as_str());
        let kept = token.clone();
        self.originals.push(wanted);
        self.tokens.push(kept);
        proof {
            assert(self.labels() =~= old(self).labels().push(label@));
            assert(self.tokens() =~= old(self).tokens().push(token@));
            assert(!old(self).labels().contains(label@));
        }
        token
    }
}

} // verus!
