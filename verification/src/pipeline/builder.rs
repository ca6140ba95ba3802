//! The pipeline builder: collects operations, then hands them to a pipeline.

use crate::operation::Operation;
use crate::pipeline::executor::Pipeline;
use vstd::prelude::*;

verus! {

/// Collects operations in the order in which a pipeline is to run them.
pub struct PipelineBuilder<T: Operation = Box<dyn Operation>> {
    operations: Vec<T>,
}

impl PipelineBuilder<Box<dyn Operation>> {
    /// A builder that holds no operation.
    pub fn new() -> (r: Self)
        ensures
            r.ops() == Seq::<Box<dyn Operation>>::empty(),
    {
        PipelineBuilder { operations: Vec::new() }
    }
}

impl<T: Operation> PipelineBuilder<T> {
    /// The operations collected so far, oldest first.
    pub closed spec fn ops(&self) -> Seq<T> {
        self.operations@
    }

    /// A builder that holds no operation, for operations of any one type.
    pub fn empty() -> (r: Self)
        ensures
            r.ops() == Seq::<T>::empty(),
    {
        PipelineBuilder { operations: Vec::new() }
    }

    /// Adds an operation after those already collected and returns the builder.
    pub fn add_operation(self, operation: T) -> (r: Self)
        ensures
            r.ops() == self.ops().push(operation),
    {
        let mut builder = self;
        builder.operations.push(operation);
        builder
    }

    /// Adds an operation after those already collected, in place, and hands the
    /// builder back for the next addition.
    pub fn add_operation_mut(&mut self, operation: T) -> (r: &mut Self)
        ensures
            r.ops() == old(self).ops().push(operation),
            *final(self) == *final(r),
    {
        self.operations.push(operation);
        self
    }

    /// Makes the pipeline of the collected operations, in the order in which they
    /// were added. The pipeline has no description. Nothing is checked: whether the
    /// operations fit each other shows when the pipeline runs.
    pub fn build(self) -> (r: Pipeline<T>)
        ensures
            r.ops() == self.ops(),
            r.snapshot() is None,
    {
        Pipeline::from_operations(self.operations)
    }

    /// The number of operations collected so far.
    pub fn len(&self) -> (r: usize)
        ensures
            r == self.ops().len(),
    {
        self.operations.len()
    }

    /// Whether no operation has been collected.
    pub fn is_empty(&self) -> (r: bool)
        ensures
            r == (self.ops().len() == 0),
    {
        self.operations.len() == 0
    }
}

impl Default for PipelineBuilder<Box<dyn Operation>> {
    fn default() -> (r: Self)
        ensures
            r.ops() == Seq::<Box<dyn Operation>>::empty(),
    {
        PipelineBuilder::new()
    }
}

} // verus!
