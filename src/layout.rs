use vstd::prelude::*;

verus! {

/// The two ways a call on the network can be refused.
#[derive(Debug, Clone, Copy, PartialEq, Eq, Structural)]
pub enum NetError {
    /// A layer size given at construction was zero.
    InvalidDimension,
    /// A vector's length disagrees with the layer it is meant for.
    DimensionMismatch,
}

/// The fixed sizes of a network's three layers.
///
/// Input-to-hidden weights form a `nhid x nips` matrix, `weight[h][i]`;
/// hidden-to-output weights form a `nops x nhid` matrix, `weight[o][h]`.
#[derive(Debug, Clone, Copy, PartialEq, Eq, Structural)]
pub struct Layout {
    nips: usize,
    nhid: usize,
    nops: usize,
}

/// Sizes that a layout admits: every layer non-empty, both weight matrices
/// small enough to be indexed by `usize`.
pub open spec fn valid_dims(nips: int, nhid: int, nops: int) -> bool {
    &&& 0 < nips
    &&& 0 < nhid
    &&& 0 < nops
    &&& nhid * nips <= usize::MAX
    &&& nops * nhid <= usize::MAX
}

impl Layout {
    pub closed spec fn inputs(self) -> int {
        self.nips as int
    }

    pub closed spec fn hidden(self) -> int {
        self.nhid as int
    }

    pub closed spec fn outputs(self) -> int {
        self.nops as int
    }

    pub open spec fn wf(self) -> bool {
        valid_dims(self.inputs(), self.hidden(), self.outputs())
    }

    /// Builds the layout of a network with `nips` inputs, `nhid` hidden
    /// neurons and `nops` outputs; a zero size is refused.
    pub fn new(nips: usize, nhid: usize, nops: usize) -> (r: Result<Layout, NetError>)
        requires
            nhid as int * nips as int <= usize::MAX,
            nops as int * nhid as int <= usize::MAX,
        ensures
            r is Ok <==> (nips > 0 && nhid > 0 && nops > 0),
            r is Err ==> r == Err::<Layout, NetError>(NetError::InvalidDimension),
            r matches Ok(l) ==> l.wf() && l.inputs() == nips && l.hidden() == nhid
                && l.outputs() == nops,
    {
        if nips == 0 || nhid == 0 || nops == 0 {
            Err(NetError::InvalidDimension)
        } else {
            Ok(Layout { nips, nhid, nops })
        }
    }

    /// Number of inputs.
    pub fn nips(&self) -> (r: usize)
        ensures
            r == self.inputs(),
    {
        self.nips
    }

    /// Number of hidden neurons.
    pub fn nhid(&self) -> (r: usize)
        ensures
            r == self.hidden(),
    {
        self.nhid
    }

    /// Number of outputs.
    pub fn nops(&self) -> (r: usize)
        ensures
            r == self.outputs(),
    {
        self.nops
    }

    /// Accepts an input vector of length `len` only if it has one entry per input.
    pub fn check_input(&self, len: usize) -> (r: Result<(), NetError>)
        ensures
            r is Ok <==> len == self.inputs(),
            r is Err ==> r == Err::<(), NetError>(NetError::DimensionMismatch),
    {
        if len == self.nips {
            Ok(())
        } else {
            Err(NetError::DimensionMismatch)
        }
    }

    /// Accepts a target vector of length `len` only if it has one entry per output.
    pub fn check_target(&self, len: usize) -> (r: Result<(), NetError>)
        ensures
            r is Ok <==> len == self.outputs(),
            r is Err ==> r == Err::<(), NetError>(NetError::DimensionMismatch),
    {
        if len == self.nops {
            Ok(())
        } else {
            Err(NetError::DimensionMismatch)
        }
    }

    /// Accepts a training sample only if both its vectors fit the layout.
    pub fn check_sample(&self, input_len: usize, target_len: usize) -> (r: Result<(), NetError>)
        ensures
            r is Ok <==> (input_len == self.inputs() && target_len == self.outputs()),
            r is Err ==> r == Err::<(), NetError>(NetError::DimensionMismatch),
    {
        match self.check_input(input_len) {
            Ok(()) => self.check_target(target_len),
            Err(e) => Err(e),
        }
    }
}

} // verus!
