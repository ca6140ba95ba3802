//! The pipeline executor: an ordered sequence of operations, applied in turn.

use crate::config::{OperationConfig, PipelineConfig};
use crate::context::{ExecutionContext, OperationMetrics};
use crate::data::TimeSeriesData;
use crate::error::{ErrorView, IndustrytsError};
use crate::operation::Operation;
use std::time::{Duration, Instant};
use vstd::prelude::*;

verus! {

/// Whether operation `k` of `ops` can turn dataset `k` of `states` into the next one.
pub open spec fn step_passes<T: Operation>(ops: Seq<T>, states: Seq<TimeSeriesData>, k: int) -> bool {
    crate::operation::passes(&ops[k], states[k], states[k + 1])
}

/// Whether `states` can be the datasets of a run of `ops`: the first is what the run
/// starts from, and each operation in turn makes the next from the one before. A run
/// may stop short of the last operation.
pub open spec fn is_run<T: Operation>(ops: Seq<T>, states: Seq<TimeSeriesData>) -> bool {
    &&& 1 <= states.len() <= ops.len() + 1
    &&& forall|k: int| 0 <= k < states.len() - 1 ==> #[trigger] step_passes(ops, states, k)
}

/// Whether a run of all of `ops` from `data` can go through `states` and end in `out`.
pub open spec fn completes<T: Operation>(
    ops: Seq<T>,
    data: TimeSeriesData,
    states: Seq<TimeSeriesData>,
    out: TimeSeriesData,
) -> bool {
    &&& is_run(ops, states)
    &&& states.len() == ops.len() + 1
    &&& states[0] == data
    &&& states.last() == out
}

/// Whether a run of `ops` from `data` can go through `states` and end there because
/// the next operation fails with `failure`.
pub open spec fn aborts<T: Operation>(
    ops: Seq<T>,
    data: TimeSeriesData,
    states: Seq<TimeSeriesData>,
    failure: IndustrytsError,
) -> bool {
    &&& is_run(ops, states)
    &&& states.len() <= ops.len()
    &&& states[0] == data
    &&& crate::operation::fails(&ops[states.len() - 1], states.last(), failure)
}

/// Whether `r` can be what passing `data` through `ops` gives: the dataset that the
/// last operation made when every operation passed, else the failure of the first
/// operation that failed.
pub open spec fn is_outcome<T: Operation>(
    ops: Seq<T>,
    data: TimeSeriesData,
    r: Result<TimeSeriesData, IndustrytsError>,
) -> bool {
    &&& r is Ok ==> exists|states: Seq<TimeSeriesData>| #[trigger]
        completes(ops, data, states, r->Ok_0)
    &&& r is Err ==> exists|states: Seq<TimeSeriesData>| #[trigger]
        aborts(ops, data, states, r->Err_0)
}

/// Whether `duration` is what the clock can measure from a reading of its own to a
/// later moment.
pub open spec fn is_measured(duration: Duration) -> bool {
    exists|start: Instant| #[trigger]
        call_ensures(Instant::now, (), start) && call_ensures(
            Instant::elapsed,
            (&start,),
            duration,
        )
}

/// Whether `metrics` describes a step in which `operation` turned `before` into
/// `after`, with a duration that the clock measured.
pub open spec fn describes_step<T: Operation>(
    metrics: OperationMetrics,
    operation: &T,
    before: TimeSeriesData,
    after: TimeSeriesData,
) -> bool {
    &&& crate::operation::has_name(operation, metrics.operation_name@)
    &&& is_measured(metrics.duration)
    &&& metrics.input_rows == before@.rows()
    &&& metrics.input_columns == before@.feature_columns.len()
    &&& metrics.output_rows == after@.rows()
    &&& metrics.output_columns == after@.feature_columns.len()
}

/// Whether `filled` is `context` with one record appended for each step of the run of
/// `ops` through `states`, in order.
pub open spec fn records_run<T: Operation>(
    context: ExecutionContext,
    filled: ExecutionContext,
    ops: Seq<T>,
    states: Seq<TimeSeriesData>,
) -> bool {
    &&& filled.annotations() == context.annotations()
    &&& filled.started() == context.started()
    &&& filled.recorded().len() == context.recorded().len() + states.len() - 1
    &&& filled.recorded().take(context.recorded().len() as int) == context.recorded()
    &&& forall|j: int|
        context.recorded().len() <= j < filled.recorded().len() ==> describes_step(
            #[trigger] filled.recorded()[j],
            &ops[j - context.recorded().len()],
            states[j - context.recorded().len()],
            states[j - context.recorded().len() + 1],
        )
}

/// Whether `r` can be what passing `data` through `ops` with `context` gives: on
/// success the last dataset and the context with the run's records, else the failure
/// of the first operation that failed.
pub open spec fn is_recorded_outcome<T: Operation>(
    ops: Seq<T>,
    data: TimeSeriesData,
    context: ExecutionContext,
    r: Result<(TimeSeriesData, ExecutionContext), IndustrytsError>,
) -> bool {
    &&& r is Ok ==> exists|states: Seq<TimeSeriesData>| #[trigger]
        completes(ops, data, states, r->Ok_0.0) && records_run(context, r->Ok_0.1, ops, states)
    &&& r is Err ==> exists|states: Seq<TimeSeriesData>| #[trigger]
        aborts(ops, data, states, r->Err_0)
}

/// The text of the failure for a pipeline that was not made from a description.
pub open spec fn no_configuration_text() -> Seq<char> {
    "Pipeline has no configuration to save"@
}

/// The text of the failure for an entry that asks for resampling.
pub open spec fn resample_text() -> Seq<char> {
    "Resample operation is not yet implemented for Polars 0.51+"@
}

/// Whether an operation can be made for the entry: for every kind but resampling,
/// which is recognised but not available.
pub open spec fn is_available(entry: OperationConfig) -> bool {
    !(entry is Resample)
}

/// What exporting a pipeline's description gives: the description it was made from,
/// or a configuration error when it was made from none.
pub open spec fn exported(snapshot: Option<PipelineConfig>) -> Result<PipelineConfig, ErrorView> {
    match snapshot {
        Some(config) => Ok(config),
        None => Err(ErrorView::ConfigError(no_configuration_text())),
    }
}

/// Whether the first `count` of `operations` are what `make` can make of the first
/// `count` of `entries`, one from each, and each of those entries is available.
pub open spec fn made_from<T: Operation, F: Fn(&OperationConfig) -> T>(
    make: F,
    entries: Seq<OperationConfig>,
    operations: Seq<T>,
    count: int,
) -> bool {
    forall|k: int|
        0 <= k < count ==> is_available(#[trigger] entries[k]) && call_ensures(
            make,
            (&entries[k],),
            operations[k],
        )
}

/// Makes the operation that an entry of a description asks for. `make` builds the
/// operation of each available kind from the entry's parameters; an entry that asks
/// for resampling fails with an invalid-operation error and `make` is not called.
pub fn create_operation<T: Operation, F: Fn(&OperationConfig) -> T>(
    config: &OperationConfig,
    make: &F,
) -> (r: Result<T, IndustrytsError>)
    requires
        is_available(*config) ==> call_requires(*make, (config,)),
    ensures
        match r {
            Ok(operation) => is_available(*config) && call_ensures(*make, (config,), operation),
            Err(e) => !is_available(*config) && e@ == ErrorView::InvalidOperation(resample_text()),
        },
{
    match config {
        OperationConfig::FillNull { .. } => Ok(make(config)),
        OperationConfig::Resample { .. } => Err(
            IndustrytsError::InvalidOperation(
                "Resample operation is not yet implemented for Polars 0.51+".to_owned(),
            ),
        ),
        OperationConfig::Lag { .. } => Ok(make(config)),
        OperationConfig::Standardize { .. } => Ok(make(config)),
    }
}

/// The metrics of one step, from what was counted before it, what came out of it and
/// the time it took.
pub fn step_metrics(
    name: &str,
    duration: Duration,
    input_rows: usize,
    input_columns: usize,
    output: &TimeSeriesData,
) -> (r: OperationMetrics)
    ensures
        r.operation_name@ == name@,
        r.duration == duration,
        r.input_rows == input_rows,
        r.input_columns == input_columns,
        r.output_rows == output@.rows(),
        r.output_columns == output@.feature_columns.len(),
{
    let mut metrics = OperationMetrics::new(name.to_owned());
    metrics.duration = duration;
    metrics.input_rows = input_rows;
    metrics.input_columns = input_columns;
    metrics.output_rows = output.len();
    metrics.output_columns = output.feature_columns().len();
    metrics
}

/// A sequence of operations that a dataset is passed through, first to last. A
/// pipeline that was made from a description keeps the description.
pub struct Pipeline<T: Operation = Box<dyn Operation>> {
    operations: Vec<T>,
    config: Option<PipelineConfig>,
}

impl Pipeline<Box<dyn Operation>> {
    /// A pipeline without operations and without a description.
    pub fn new() -> (r: Self)
        ensures
            r.ops() == Seq::<Box<dyn Operation>>::empty(),
            r.snapshot() is None,
    {
        Pipeline { operations: Vec::new(), config: None }
    }
}

impl<T: Operation> Pipeline<T> {
    /// The operations, in the order in which they run.
    pub closed spec fn ops(&self) -> Seq<T> {
        self.operations@
    }

    /// The description that the pipeline was made from, if it was made from one.
    pub closed spec fn snapshot(&self) -> Option<PipelineConfig> {
        self.config
    }

    /// The pipeline of the given operations, in their order, without a description.
    pub fn from_operations(operations: Vec<T>) -> (r: Self)
        ensures
            r.ops() == operations@,
            r.snapshot() is None,
    {
        Pipeline { operations, config: None }
    }

    /// Makes the pipeline that a description asks for: one operation for each entry,
    /// in the order of the entries, made by `make` from the entry. The pipeline keeps
    /// the description. An entry that asks for resampling makes the whole
    /// construction fail.
    pub fn from_config<F: Fn(&OperationConfig) -> T>(config: PipelineConfig, make: F) -> (r: Result<
        Self,
        IndustrytsError,
    >)
        requires
            forall|k: int|
                0 <= k < config.operations@.len() && is_available(
                    #[trigger] config.operations@[k],
                ) ==> call_requires(make, (&config.operations@[k],)),
        ensures
            match r {
                Ok(pipeline) => pipeline.snapshot() == Some(config) && pipeline.ops().len()
                    == config.operations@.len() && made_from(
                    make,
                    config.operations@,
                    pipeline.ops(),
                    config.operations@.len() as int,
                ),
                Err(e) => e@ == ErrorView::InvalidOperation(resample_text()) && exists|k: int|
                    0 <= k < config.operations@.len() && !is_available(
                        #[trigger] config.operations@[k],
                    ),
            },
    {
        let mut operations: Vec<T> = Vec::new();
        let mut i: usize = 0;
        while i < config.operations.len()
            invariant
                i <= config.operations@.len(),
                operations@.len() == i,
                forall|k: int|
                    0 <= k < config.operations@.len() && is_available(
                        #[trigger] config.operations@[k],
                    ) ==> call_requires(make, (&config.operations@[k],)),
                made_from(make, config.operations@, operations@, i as int),
            decreases config.operations@.len() - i,
        {
            let operation = match create_operation(&config.operations[i], &make) {
                Ok(operation) => operation,
                Err(e) => {
                    assert(!is_available(config.operations@[i as int]));
                    return Err(e);
                },
            };
            let ghost before = operations@;
            operations.push(operation);
            proof {
                assert forall|k: int| 0 <= k < i + 1 implies is_available(
                    #[trigger] config.operations@[k],
                ) && call_ensures(make, (&config.operations@[k],), operations@[k]) by {
                    if k < i {
                        assert(operations@[k] == before[k]);
                    }
                }
            }
            i = i + 1;
        }
        Ok(Pipeline { operations, config: Some(config) })
    }

    /// Appends an operation: it runs after those already there. The description, if
    /// there is one, stays as it is.
    pub fn add_operation(&mut self, operation: T)
        ensures
            final(self).ops() == old(self).ops().push(operation),
            final(self).snapshot() == old(self).snapshot(),
    {
        self.operations.push(operation);
    }

    /// Passes the dataset through every operation in order. The first failure ends the
    /// run and is returned; the dataset as it stood then is dropped. Without
    /// operations the dataset comes back as it was given.
    pub fn process(&self, data: TimeSeriesData) -> (r: Result<TimeSeriesData, IndustrytsError>)
        ensures
            is_outcome(self.ops(), data, r),
            self.ops().len() == 0 ==> r == Ok::<TimeSeriesData, IndustrytsError>(data),
    {
        let ghost mut states: Seq<TimeSeriesData> = seq![data];
        let mut current = data;
        let mut i: usize = 0;
        while i < self.operations.len()
            invariant
                i <= self.operations@.len(),
                is_run(self.ops(), states),
                states.len() == i + 1,
                states[0] == data,
                states.last() == current,
            decreases self.operations@.len() - i,
        {
            match self.operations[i].execute(current) {
                Ok(next) => {
                    proof {
                        let longer = states.push(next);
                        assert forall|k: int| 0 <= k < longer.len() - 1 implies #[trigger] step_passes(
                            self.ops(),
                            longer,
                            k,
                        ) by {
                            if k < i {
                                assert(step_passes(self.ops(), states, k));
                            }
                        }
                        states = longer;
                    }
                    current = next;
                },
                Err(e) => {
                    assert(aborts(self.ops(), data, states, e));
                    return Err(e);
                },
            }
            i = i + 1;
        }
        assert(completes(self.ops(), data, states, current));
        let ghost r: Result<TimeSeriesData, IndustrytsError> = Ok(current);
        assert(r->Ok_0 == current);
        Ok(current)
    }

    /// Passes the dataset through every operation in order and appends to `context`,
    /// for each operation, its name, the rows and feature columns before and after
    /// it, and the time it took. On a failure only the failure is returned: the
    /// context is dropped with the metrics recorded so far.
    pub fn process_with_context(&self, data: TimeSeriesData, context: ExecutionContext) -> (r:
        Result<(TimeSeriesData, ExecutionContext), IndustrytsError>)
        ensures
            is_recorded_outcome(self.ops(), data, context, r),
    {
        let ghost mut states: Seq<TimeSeriesData> = seq![data];
        let ghost base = context.recorded().len();
        let mut current = data;
        let mut filled = context;
        let mut i: usize = 0;
        assert(filled.recorded().take(base as int) =~= context.recorded());
        while i < self.operations.len()
            invariant
                i <= self.operations@.len(),
                base == context.recorded().len(),
                is_run(self.ops(), states),
                states.len() == i + 1,
                states[0] == data,
                states.last() == current,
                records_run(context, filled, self.ops(), states),
            decreases self.operations@.len() - i,
        {
            let input_rows = current.len();
            let features = current.feature_columns();
            let input_columns = features.len();
            let ghost before = current;
            let ghost recorded = filled.recorded();
            assert(input_columns == before@.feature_columns.len()) by {
                assert(crate::text::texts(features@).len() == features@.len());
            }
            let started = Instant::now();
            match self.operations[i].execute(current) {
                Ok(next) => {
                    current = next;
                },
                Err(e) => {
                    let ghost r: Result<(TimeSeriesData, ExecutionContext), IndustrytsError> = Err(
                        e,
                    );
                    assert(r->Err_0 == e);
                    assert(aborts(self.ops(), data, states, e));
                    return Err(e);
                },
            }
            let duration = started.elapsed();
            assert(is_measured(duration)) by {
                assert(call_ensures(Instant::now, (), started));
            }
            let name = self.operations[i].name();
            let metrics = step_metrics(name, duration, input_rows, input_columns, &current);
            filled.record_metrics(metrics);
            proof {
                let longer = states.push(current);
                assert forall|k: int| 0 <= k < longer.len() - 1 implies #[trigger] step_passes(
                    self.ops(),
                    longer,
                    k,
                ) by {
                    if k < i {
                        assert(step_passes(self.ops(), states, k));
                    }
                }
                assert(filled.recorded().take(base as int) =~= recorded.take(base as int));
                assert(crate::operation::has_name(&self.ops()[i as int], metrics.operation_name@));
                assert forall|j: int| base <= j < filled.recorded().len() implies describes_step(
                    #[trigger] filled.recorded()[j],
                    &self.ops()[j - base],
                    longer[j - base],
                    longer[j - base + 1],
                ) by {
                    if j < base + i {
                        assert(filled.recorded()[j] == recorded[j]);
                    }
                }
                states = longer;
            }
            i = i + 1;
        }
        let ghost r: Result<(TimeSeriesData, ExecutionContext), IndustrytsError> = Ok(
            (current, filled),
        );
        assert(r->Ok_0.0 == current && r->Ok_0.1 == filled);
        assert(completes(self.ops(), data, states, current));
        Ok((current, filled))
    }

    /// The number of operations.
    pub fn len(&self) -> (r: usize)
        ensures
            r == self.ops().len(),
    {
        self.operations.len()
    }

    /// Whether the pipeline has no operation.
    pub fn is_empty(&self) -> (r: bool)
        ensures
            r == (self.ops().len() == 0),
    {
        self.operations.len() == 0
    }

    /// The description that the pipeline was made from, for saving. A pipeline that
    /// was put together operation by operation has none, and that is a configuration
    /// error.
    pub fn to_config(&self) -> (r: Result<&PipelineConfig, IndustrytsError>)
        ensures
            match exported(self.snapshot()) {
                Ok(config) => r == Ok::<&PipelineConfig, IndustrytsError>(&config),
                Err(e) => r matches Err(err) && err@ == e,
            },
    {
        match &self.config {
            Some(config) => Ok(config),
            None => Err(
                IndustrytsError::ConfigError("Pipeline has no configuration to save".to_owned()),
            ),
        }
    }
}

impl Default for Pipeline<Box<dyn Operation>> {
    fn default() -> (r: Self)
        ensures
            r.ops() == Seq::<Box<dyn Operation>>::empty(),
            r.snapshot() is None,
    {
        Pipeline::new()
    }
}

/// A pipeline without operations can only return the dataset it was given.
pub proof fn lemma_empty_pipeline_changes_nothing<T: Operation>(
    ops: Seq<T>,
    data: TimeSeriesData,
    r: Result<TimeSeriesData, IndustrytsError>,
)
    requires
        ops.len() == 0,
        is_outcome(ops, data, r),
    ensures
        r == Ok::<TimeSeriesData, IndustrytsError>(data),
{
    match r {
        Ok(out) => {
            let states = choose|states: Seq<TimeSeriesData>| completes(ops, data, states, out);
            assert(states.last() == states[0]);
        },
        Err(failure) => {
            let states = choose|states: Seq<TimeSeriesData>| aborts(ops, data, states, failure);
            assert(false);
        },
    }
}

/// A pipeline that was made from a description exports that description; a pipeline
/// that was made from none cannot be exported: that is a configuration error.
pub proof fn lemma_export_returns_the_description(config: PipelineConfig)
    ensures
        exported(Some(config)) == Ok::<PipelineConfig, ErrorView>(config),
        exported(None) == Err::<PipelineConfig, ErrorView>(
            ErrorView::ConfigError(no_configuration_text()),
        ),
{
}

} // verus!
