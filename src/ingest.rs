//! The batch ingest engine: which rows go into which insert, how each value is
//! prepared for storage, and what the run records once every batch is in.

use vstd::prelude::*;
use vstd::arithmetic::div_mod::{
    lemma_fundamental_div_mod, lemma_fundamental_div_mod_converse_div, lemma_mod_bound,
};
use vstd::string::StringExecFns;
use crate::schema::{ColumnConfig, EqlOperation, Identifier, Plaintext, PreparedPlaintext};
use crate::text::{artifact_path, artifact_path_text};
use crate::vecs::reversed;

verus! {

/// The batch size when none is given.
pub const DEFAULT_BATCH_SIZE: usize = 1000;

/// The number of rows when none is given.
pub const DEFAULT_NUM_RECORDS: i32 = 100000;

/// A complete ingest configuration.
pub struct IngestOptions {
    pub bench_name: String,
    pub num_records: i32,
    pub batch_size: usize,
    pub identifier: Identifier,
    pub column_config: ColumnConfig,
}

/// An ingest configuration under construction.
pub struct IngestOptionsBuilder {
    pub bench_name: String,
    pub num_records: Option<i32>,
    pub batch_size: Option<usize>,
    pub identifier: Option<Identifier>,
    pub column_config: Option<ColumnConfig>,
}

/// Why an ingest configuration cannot be built.
#[derive(Clone, Copy, Debug, PartialEq, Eq, Structural)]
pub enum IngestConfigError {
    MissingIdentifier,
    MissingColumnConfig,
    NegativeNumRecords,
    ZeroBatchSize,
}

impl IngestOptions {
    /// A row count that is not negative and a batch size of at least one.
    pub open spec fn wf(&self) -> bool {
        self.num_records >= 0 && self.batch_size >= 1
    }
}

impl IngestOptionsBuilder {
    pub fn new(bench_name: &str) -> (r: IngestOptionsBuilder)
        ensures
            r.bench_name@ == bench_name@,
            r.num_records is None,
            r.batch_size is None,
            r.identifier is None,
            r.column_config is None,
    {
        IngestOptionsBuilder {
            bench_name: String::from_str(bench_name),
            num_records: None,
            batch_size: None,
            identifier: None,
            column_config: None,
        }
    }

    pub fn num_records(self, num_records: i32) -> (r: IngestOptionsBuilder)
        ensures
            r == (IngestOptionsBuilder { num_records: Some(num_records), ..self }),
    {
        IngestOptionsBuilder { num_records: Some(num_records), ..self }
    }

    pub fn batch_size(self, batch_size: usize) -> (r: IngestOptionsBuilder)
        ensures
            r == (IngestOptionsBuilder { batch_size: Some(batch_size), ..self }),
    {
        IngestOptionsBuilder { batch_size: Some(batch_size), ..self }
    }

    pub fn identifier(self, identifier: Identifier) -> (r: IngestOptionsBuilder)
        ensures
            r == (IngestOptionsBuilder { identifier: Some(identifier), ..self }),
    {
        IngestOptionsBuilder { identifier: Some(identifier), ..self }
    }

    pub fn column_config(self, column_config: ColumnConfig) -> (r: IngestOptionsBuilder)
        ensures
            r == (IngestOptionsBuilder { column_config: Some(column_config), ..self }),
    {
        IngestOptionsBuilder { column_config: Some(column_config), ..self }
    }

    /// The row count that `build` settles on.
    pub open spec fn chosen_num_records(&self) -> i32 {
        match self.num_records {
            Some(n) => n,
            None => DEFAULT_NUM_RECORDS,
        }
    }

    /// The batch size that `build` settles on.
    pub open spec fn chosen_batch_size(&self) -> usize {
        match self.batch_size {
            Some(b) => b,
            None => DEFAULT_BATCH_SIZE,
        }
    }

    /// The configuration, with the defaults filled in; fails on the first
    /// missing field (identifier, then column description), then on a negative
    /// row count, then on a zero batch size.
    pub fn build(self) -> (r: Result<IngestOptions, IngestConfigError>)
        ensures
            self.identifier is None ==> r == Err::<IngestOptions, _>(
                IngestConfigError::MissingIdentifier,
            ),
            self.identifier is Some && self.column_config is None ==> r == Err::<IngestOptions, _>(
                IngestConfigError::MissingColumnConfig,
            ),
            self.identifier is Some && self.column_config is Some && self.chosen_num_records() < 0
                ==> r == Err::<IngestOptions, _>(IngestConfigError::NegativeNumRecords),
            self.identifier is Some && self.column_config is Some && self.chosen_num_records() >= 0
                && self.chosen_batch_size() == 0 ==> r == Err::<IngestOptions, _>(
                IngestConfigError::ZeroBatchSize,
            ),
            r is Ok <==> (self.identifier is Some && self.column_config is Some
                && self.chosen_num_records() >= 0 && self.chosen_batch_size() >= 1),
            match r {
                Ok(o) => {
                    &&& o.wf()
                    &&& o.bench_name == self.bench_name
                    &&& o.num_records == self.chosen_num_records()
                    &&& o.batch_size == self.chosen_batch_size()
                    &&& Some(o.identifier) == self.identifier
                    &&& Some(o.column_config) == self.column_config
                },
                Err(_) => true,
            },
    {
        let num_records = match self.num_records {
            Some(n) => n,
            None => DEFAULT_NUM_RECORDS,
        };
        let batch_size = match self.batch_size {
            Some(b) => b,
            None => DEFAULT_BATCH_SIZE,
        };
        let identifier = match self.identifier {
            Some(i) => i,
            None => {
                return Err(IngestConfigError::MissingIdentifier);
            },
        };
        let column_config = match self.column_config {
            Some(c) => c,
            None => {
                return Err(IngestConfigError::MissingColumnConfig);
            },
        };
        if num_records < 0 {
            return Err(IngestConfigError::NegativeNumRecords);
        }
        if batch_size == 0 {
            return Err(IngestConfigError::ZeroBatchSize);
        }
        Ok(IngestOptions {
            bench_name: self.bench_name,
            num_records,
            batch_size,
            identifier,
            column_config,
        })
    }
}

/// The rows `start` (included) to `end` (excluded) of one insert.
#[derive(Clone, Copy, Debug, PartialEq, Eq, Structural)]
pub struct Batch {
    pub start: i32,
    pub end: i32,
}

/// How many inserts a run of `n` rows in batches of `b` makes: `n / b` rounded up.
pub open spec fn batch_count(n: int, b: int) -> int {
    (n + b - 1) / b
}

/// Batch `k` of a run of `n` rows in batches of `b`.
pub open spec fn batch_at(n: int, b: int, k: int) -> Batch {
    Batch {
        start: (k * b) as i32,
        end: (if (k + 1) * b <= n {
            (k + 1) * b
        } else {
            n
        }) as i32,
    }
}

/// All batches of a run of `n` rows in batches of `b`, in the order they are inserted.
pub open spec fn batch_plan(n: int, b: int) -> Seq<Batch> {
    Seq::new(batch_count(n, b) as nat, |k: int| batch_at(n, b, k))
}

/// The number of rows in a sequence of batches.
pub open spec fn rows_in(s: Seq<Batch>) -> int
    decreases s.len(),
{
    if s.len() == 0 {
        0
    } else {
        rows_in(s.drop_last()) + (s.last().end - s.last().start)
    }
}

proof fn lemma_batch_count_exact(n: int, b: int, k: int)
    requires
        b >= 1,
        n >= 0,
        k >= 0,
        k * b >= n,
        k == 0 || (k - 1) * b < n,
    ensures
        batch_count(n, b) == k,
{
    if k == 0 {
        assert(n == 0) by (nonlinear_arith)
            requires
                k == 0,
                k * b >= n,
                n >= 0,
        ;
        lemma_fundamental_div_mod_converse_div(b - 1, b, 0, b - 1);
    } else {
        let r = n + b - 1 - k * b;
        assert(0 <= r < b) by (nonlinear_arith)
            requires
                r == n + b - 1 - k * b,
                k * b >= n,
                (k - 1) * b < n,
        ;
        assert(n + b - 1 == k * b + r);
        lemma_fundamental_div_mod_converse_div(n + b - 1, b, k, r);
    }
}

proof fn lemma_batch_count_bounds(n: int, b: int)
    requires
        b >= 1,
        n >= 0,
    ensures
        batch_count(n, b) >= 0,
        batch_count(n, b) * b >= n,
        batch_count(n, b) == 0 || (batch_count(n, b) - 1) * b < n,
{
    let x = n + b - 1;
    let q = x / b;
    let r = x % b;
    lemma_fundamental_div_mod(x, b);
    lemma_mod_bound(x, b);
    assert(q * b == b * q) by (nonlinear_arith);
    assert(q >= 0) by (nonlinear_arith)
        requires
            x == b * q + r,
            0 <= r < b,
            x >= 0,
            b >= 1,
    ;
    assert((q - 1) * b == q * b - b) by (nonlinear_arith);
}

proof fn lemma_rows_of_prefix(n: int, b: int, k: int)
    requires
        b >= 1,
        0 <= n <= i32::MAX,
        0 <= k <= batch_count(n, b),
    ensures
        rows_in(batch_plan(n, b).subrange(0, k)) == if k * b <= n {
            k * b
        } else {
            n
        },
    decreases k,
{
    lemma_batch_count_bounds(n, b);
    let plan = batch_plan(n, b);
    if k == 0 {
        assert(plan.subrange(0, 0) =~= Seq::<Batch>::empty());
    } else {
        lemma_rows_of_prefix(n, b, k - 1);
        assert(plan.subrange(0, k).drop_last() =~= plan.subrange(0, k - 1));
        assert((k - 1) * b < n) by (nonlinear_arith)
            requires
                k <= batch_count(n, b),
                batch_count(n, b) == 0 || (batch_count(n, b) - 1) * b < n,
                k >= 1,
                b >= 1,
        ;
        assert(k * b == (k - 1) * b + b) by (nonlinear_arith);
    }
}

/// A run inserts exactly its row count: the batches of a run of `n` rows hold
/// `n` rows between them, whatever the batch size.
pub proof fn lemma_batches_cover_workload(n: int, b: int)
    requires
        b >= 1,
        0 <= n <= i32::MAX,
    ensures
        rows_in(batch_plan(n, b)) == n,
        batch_plan(n, b).len() > 0 ==> batch_plan(n, b)[0].start == 0 && batch_plan(n, b).last().end
            == n,
        forall|k: int|
            0 <= k < batch_plan(n, b).len() - 1 ==> (#[trigger] batch_plan(n, b)[k]).end
                == batch_plan(n, b)[k + 1].start,
{
    let plan = batch_plan(n, b);
    let c = batch_count(n, b);
    lemma_batch_count_bounds(n, b);
    lemma_rows_of_prefix(n, b, c);
    assert(plan.subrange(0, c) =~= plan);
    if c > 0 {
        assert((c - 1) * b < n);
        assert(c * b == (c - 1) * b + b) by (nonlinear_arith);
        assert(0 * b == 0);
    }
    assert forall|k: int| 0 <= k < plan.len() - 1 implies (#[trigger] plan[k]).end == plan[k
        + 1].start by {
        assert((k + 1) * b <= (c - 1) * b) by (nonlinear_arith)
            requires
                k + 1 <= c - 1,
                b >= 1,
        ;
    }
}

/// The number of inserts is the row count divided by the batch size, rounded
/// up, and every insert holds at least one row and at most `b`.
pub proof fn lemma_batch_sizes(n: int, b: int)
    requires
        b >= 1,
        0 <= n <= i32::MAX,
    ensures
        batch_plan(n, b).len() == (n + b - 1) / b,
        forall|k: int|
            0 <= k < batch_plan(n, b).len() ==> 1 <= (#[trigger] batch_plan(n, b)[k]).end
                - batch_plan(n, b)[k].start <= b,
{
    let plan = batch_plan(n, b);
    let c = batch_count(n, b);
    lemma_batch_count_bounds(n, b);
    assert forall|k: int| 0 <= k < plan.len() implies 1 <= (#[trigger] plan[k]).end
        - plan[k].start <= b by {
        assert(k * b < n) by (nonlinear_arith)
            requires
                k <= c - 1,
                (c - 1) * b < n,
                b >= 1,
        ;
        assert((k + 1) * b == k * b + b) by (nonlinear_arith);
        assert(k * b >= 0) by (nonlinear_arith)
            requires
                k >= 0,
                b >= 1,
        ;
    }
}

impl IngestOptions {
    /// The batches of the run, in order: consecutive ranges that cover the rows
    /// from zero to `num_records`, each of `batch_size` rows but possibly the last.
    pub fn batches(&self) -> (r: Vec<Batch>)
        requires
            self.wf(),
        ensures
            r@ == batch_plan(self.num_records as int, self.batch_size as int),
    {
        let n = self.num_records;
        let b = self.batch_size;
        let ghost bi = b as int;
        let mut out: Vec<Batch> = Vec::new();
        let mut start: i32 = 0;
        assert(out@.len() * bi == 0);
        while start < n
            invariant
                n == self.num_records,
                b == self.batch_size,
                bi == b as int,
                n >= 0,
                bi >= 1,
                0 <= start <= n,
                start < n ==> start as int == out@.len() * bi,
                start == n ==> out@.len() * bi >= n && (out@.len() == 0 || (out@.len() - 1) * bi
                    < n),
                forall|k: int| 0 <= k < out@.len() ==> #[trigger] out@[k] == batch_at(n as int, bi, k),
            decreases n - start,
        {
            let ghost k = out@.len() as int;
            let end: i32 = if b >= (n - start) as usize {
                n
            } else {
                start + b as i32
            };
            proof {
                assert((k + 1) * bi == k * bi + bi) by (nonlinear_arith);
            }
            assert(Batch { start, end } == batch_at(n as int, bi, k));
            out.push(Batch { start, end });
            start = end;
        }
        proof {
            let len = out@.len() as int;
            lemma_batch_count_exact(n as int, bi, len);
            assert(out@ =~= batch_plan(n as int, bi));
        }
        out
    }

    /// Each generated value, wrapped for storage in this run's column.
    pub fn prepare_batch<'a>(&'a self, values: Vec<Plaintext>) -> (r: Vec<PreparedPlaintext<'a>>)
        ensures
            r@.len() == values@.len(),
            forall|i: int|
                0 <= i < r@.len() ==> {
                    &&& (#[trigger] r@[i]).column_config == &self.column_config
                    &&& r@[i].identifier == &self.identifier
                    &&& r@[i].plaintext == values@[i]
                    &&& r@[i].operation == EqlOperation::Store
                },
    {
        let mut out: Vec<PreparedPlaintext<'a>> = Vec::new();
        let ghost all = values@;
        // Taken from the back of the reversed values, they come out front to back.
        let mut taken = reversed(values);
        while taken.len() > 0
            invariant
                out@.len() + taken@.len() == all.len(),
                taken@.reverse() =~= all.subrange(out@.len() as int, all.len() as int),
                forall|i: int|
                    0 <= i < out@.len() ==> {
                        &&& (#[trigger] out@[i]).column_config == &self.column_config
                        &&& out@[i].identifier == &self.identifier
                        &&& out@[i].plaintext == all[i]
                        &&& out@[i].operation == EqlOperation::Store
                    },
            decreases taken@.len(),
        {
            let ghost j = out@.len() as int;
            let ghost prev = taken@;
            let v = taken.pop().unwrap();
            proof {
                assert(taken@ == prev.drop_last());
                assert(prev.reverse()[0] == v);
                assert(all.subrange(j, all.len() as int)[0] == all[j]);
                assert(taken@.reverse() =~= prev.reverse().drop_first());
                assert(prev.reverse().drop_first() =~= all.subrange(j + 1, all.len() as int));
            }
            out.push(
                PreparedPlaintext {
                    column_config: &self.column_config,
                    identifier: &self.identifier,
                    plaintext: v,
                    operation: EqlOperation::Store,
                },
            );
        }
        out
    }

    /// Where run `run_index` of this configuration records its row count.
    pub fn artifact_path(&self, run_index: u64) -> (r: String)
        requires
            self.wf(),
        ensures
            r@ == artifact_path_text(self.bench_name@, self.num_records as nat, run_index as nat),
    {
        artifact_path(self.bench_name.as_str(), self.num_records as u64, run_index)
    }

    /// Starts a run: no batch is inserted yet.
    pub fn ingest(&self) -> (r: IngestRun<'_>)
        requires
            self.wf(),
        ensures
            r.wf(),
            r.options == self,
            r.next == 0,
    {
        IngestRun { options: self, plan: self.batches(), next: 0 }
    }
}

/// What a run does next.
#[derive(Clone, Copy, Debug, PartialEq, Eq, Structural)]
pub enum IngestStep {
    /// Generate, encrypt and insert the rows of this batch.
    Insert(Batch),
    /// Every batch is in: record that the run inserted this many rows.
    WriteArtifact { inserted: i32 },
}

/// The progress of one ingest run. Batches go in strictly one after the other;
/// a failure ends the run where it stands, with no artifact.
pub struct IngestRun<'a> {
    pub options: &'a IngestOptions,
    pub plan: Vec<Batch>,
    pub next: usize,
}

impl<'a> IngestRun<'a> {
    /// The plan is the batches of the configuration, and `next` is within it.
    pub open spec fn wf(&self) -> bool {
        &&& self.options.wf()
        &&& self.plan@ == batch_plan(self.options.num_records as int, self.options.batch_size as int)
        &&& self.next <= self.plan@.len()
    }

    /// The rows of the batches inserted so far.
    pub open spec fn rows_inserted(&self) -> int {
        rows_in(self.plan@.subrange(0, self.next as int))
    }

    /// The next batch, or the artifact once every batch is in.
    pub fn next_step(&self) -> (r: IngestStep)
        requires
            self.wf(),
        ensures
            self.next < self.plan@.len() ==> r == IngestStep::Insert(self.plan@[self.next as int]),
            self.next == self.plan@.len() ==> r == (IngestStep::WriteArtifact {
                inserted: self.options.num_records,
            }),
    {
        if self.next < self.plan.len() {
            IngestStep::Insert(self.plan[self.next])
        } else {
            IngestStep::WriteArtifact { inserted: self.options.num_records }
        }
    }

    /// Records that the batch that `next_step` named is in.
    pub fn batch_inserted(&mut self)
        requires
            old(self).wf(),
            old(self).next < old(self).plan@.len(),
        ensures
            final(self).wf(),
            final(self).options == old(self).options,
            final(self).plan == old(self).plan,
            final(self).next == old(self).next + 1,
            final(self).rows_inserted() == old(self).rows_inserted() + (
            old(self).plan@[old(self).next as int].end - old(self).plan@[old(self).next as int].start),
    {
        proof {
            let plan = self.plan@;
            let k = self.next as int;
            assert(plan.subrange(0, k + 1).drop_last() =~= plan.subrange(0, k));
        }
        assert(self.next < self.plan.len());
        self.next = self.next + 1;
    }
}

/// The artifact step comes only when every row of the run is in, and it records
/// exactly the run's row count: a run inserts `num_records` rows, no more and no
/// fewer, whatever its batch size.
pub proof fn lemma_run_inserts_workload(run: IngestRun)
    requires
        run.wf(),
        run.next == run.plan@.len(),
    ensures
        run.rows_inserted() == run.options.num_records,
{
    let n = run.options.num_records as int;
    let b = run.options.batch_size as int;
    lemma_batches_cover_workload(n, b);
    assert(run.plan@.subrange(0, run.next as int) =~= run.plan@);
}

} // verus!
