use crate::layout::{Layout, NetError};
use crate::matrix::Matrix;
use rand::rngs::SmallRng;
use vstd::prelude::*;

verus! {

/// The number type a network computes with.
///
/// Each operation is a function of its arguments alone, named by a spec
/// function; the contracts of the network are stated over those names.
pub trait Scalar: Copy + Sized {
    spec fn spec_zero() -> Self;

    spec fn spec_one() -> Self;

    spec fn spec_half() -> Self;

    spec fn spec_plus(self, other: Self) -> Self;

    spec fn spec_minus(self, other: Self) -> Self;

    spec fn spec_times(self, other: Self) -> Self;

    /// The logistic function `1 / (1 + e^-a)`.
    spec fn spec_sigmoid(self) -> Self;

    fn zero() -> (r: Self)
        ensures
            r == Self::spec_zero(),
    ;

    fn one() -> (r: Self)
        ensures
            r == Self::spec_one(),
    ;

    fn half() -> (r: Self)
        ensures
            r == Self::spec_half(),
    ;

    fn plus(self, other: Self) -> (r: Self)
        ensures
            r == self.spec_plus(other),
    ;

    fn minus(self, other: Self) -> (r: Self)
        ensures
            r == self.spec_minus(other),
    ;

    fn times(self, other: Self) -> (r: Self)
        ensures
            r == self.spec_times(other),
    ;

    fn sigmoid(self) -> (r: Self)
        ensures
            r == self.spec_sigmoid(),
    ;

    /// A fresh initial weight, uniform in `[-0.5, 0.5)`.
    fn draw_weight(rng: &mut SmallRng) -> Self;
}

/// `((0 + a[0] * b[0]) + a[1] * b[1]) + ...` over the first `n` entries, summed in that order.
pub open spec fn dot<T: Scalar>(a: Seq<T>, b: Seq<T>, n: nat) -> T
    decreases n,
{
    if n == 0 {
        T::spec_zero()
    } else {
        dot(a, b, (n - 1) as nat).spec_plus(a[n - 1].spec_times(b[n - 1]))
    }
}

/// The activation of a neuron with incoming weights `row` and shared `bias` on `inp`.
pub open spec fn neuron<T: Scalar>(inp: Seq<T>, row: Seq<T>, bias: T) -> T {
    dot(inp, row, inp.len()).spec_plus(bias).spec_sigmoid()
}

/// The activations of a layer of `width` neurons, neuron `k` with incoming weights `weights[k]`.
pub open spec fn layer<T: Scalar>(inp: Seq<T>, weights: Seq<Seq<T>>, bias: T, width: nat) -> Seq<T> {
    Seq::new(width, |k: int| neuron(inp, weights[k], bias))
}

/// The derivative of the logistic function at a point where it has value `v`: `v * (1 - v)`.
pub open spec fn slope<T: Scalar>(v: T) -> T {
    v.spec_times(T::spec_one().spec_minus(v))
}

/// Half the sum of squared differences `(tg[k] - out[k])` over the first `n` entries, in order.
pub open spec fn half_sq_error<T: Scalar>(tg: Seq<T>, out: Seq<T>, n: nat) -> T
    decreases n,
{
    if n == 0 {
        T::spec_zero()
    } else {
        let d = tg[n - 1].spec_minus(out[n - 1]);
        half_sq_error(tg, out, (n - 1) as nat).spec_plus(T::spec_half().spec_times(d.spec_times(d)))
    }
}

/// The error back-propagated to hidden neuron `h` from the first `n` outputs:
/// the sum of `(out[o] - tg[o]) * slope(out[o]) * x[o][h]`, in order.
pub open spec fn error_signal<T: Scalar>(out: Seq<T>, tg: Seq<T>, x: Seq<Seq<T>>, h: int, n: nat) -> T
    decreases n,
{
    if n == 0 {
        T::spec_zero()
    } else {
        let o = n - 1;
        error_signal(out, tg, x, h, (n - 1) as nat).spec_plus(
            out[o].spec_minus(tg[o]).spec_times(slope(out[o])).spec_times(x[o][h]),
        )
    }
}

/// A hidden-to-output weight after one step: `xv - rate * (ov - t) * slope(ov) * hv`.
pub open spec fn stepped_output_weight<T: Scalar>(xv: T, rate: T, ov: T, t: T, hv: T) -> T {
    xv.spec_minus(rate.spec_times(ov.spec_minus(t)).spec_times(slope(ov)).spec_times(hv))
}

/// An input-to-hidden weight after one step: `wv - rate * e * slope(hv) * iv`.
pub open spec fn stepped_input_weight<T: Scalar>(wv: T, rate: T, e: T, hv: T, iv: T) -> T {
    wv.spec_minus(rate.spec_times(e).spec_times(slope(hv)).spec_times(iv))
}

/// A fully connected network with one hidden layer and one shared bias per layer.
pub struct Tinn<T> {
    layout: Layout,
    /// Input-to-hidden weights, `nhid x nips`.
    w: Matrix<T>,
    /// Hidden-to-output weights, `nops x nhid`.
    x: Matrix<T>,
    b_hidden: T,
    b_output: T,
    /// Hidden activations of the last forward pass.
    h: Vec<T>,
    /// Output activations of the last forward pass.
    o: Vec<T>,
}

/// `n` copies of zero.
fn zeros<T: Scalar>(n: usize) -> (v: Vec<T>)
    ensures
        v.len() == n,
        forall|k: int| 0 <= k < n ==> #[trigger] v@[k] == T::spec_zero(),
{
    let z = T::zero();
    let mut v: Vec<T> = Vec::new();
    while v.len() < n
        invariant
            v.len() <= n,
            z == T::spec_zero(),
            forall|k: int| 0 <= k < v.len() ==> #[trigger] v@[k] == T::spec_zero(),
        decreases n - v.len(),
    {
        v.push(z);
    }
    v
}

/// `n` weights drawn one after another from `rng`.
fn draw_weights<T: Scalar>(n: usize, rng: &mut SmallRng) -> (v: Vec<T>)
    ensures
        v.len() == n,
{
    let mut v: Vec<T> = Vec::new();
    while v.len() < n
        invariant
            v.len() <= n,
        decreases n - v.len(),
    {
        v.push(T::draw_weight(rng));
    }
    v
}

impl<T: Scalar> Tinn<T> {
    pub closed spec fn shape(self) -> Layout {
        self.layout
    }

    /// `weight[h][i]` from input `i` to hidden neuron `h`.
    pub closed spec fn input_weights(self) -> Seq<Seq<T>> {
        self.w@
    }

    /// `weight[o][h]` from hidden neuron `h` to output `o`.
    pub closed spec fn output_weights(self) -> Seq<Seq<T>> {
        self.x@
    }

    /// The bias of the hidden layer and the bias of the output layer.
    pub closed spec fn biases(self) -> (T, T) {
        (self.b_hidden, self.b_output)
    }

    pub closed spec fn hidden_activations(self) -> Seq<T> {
        self.h@
    }

    pub closed spec fn output_activations(self) -> Seq<T> {
        self.o@
    }

    /// Every buffer has exactly the size that the layout gives it.
    pub closed spec fn wf(self) -> bool {
        &&& self.layout.wf()
        &&& self.w.wf()
        &&& self.w.nrows() == self.layout.hidden()
        &&& self.w.ncols() == self.layout.inputs()
        &&& self.x.wf()
        &&& self.x.nrows() == self.layout.outputs()
        &&& self.x.ncols() == self.layout.hidden()
        &&& self.h.len() == self.layout.hidden()
        &&& self.o.len() == self.layout.outputs()
    }

    /// The learned parameters and the layout of `self` and `other` agree.
    pub open spec fn same_parameters(self, other: Self) -> bool {
        &&& self.shape() == other.shape()
        &&& self.input_weights() == other.input_weights()
        &&& self.output_weights() == other.output_weights()
        &&& self.biases() == other.biases()
    }

    /// The hidden activations that a forward pass on `inp` computes.
    pub open spec fn forward_hidden(self, inp: Seq<T>) -> Seq<T> {
        layer(inp, self.input_weights(), self.biases().0, self.shape().hidden() as nat)
    }

    /// The output activations that a forward pass on `inp` computes.
    pub open spec fn forward_output(self, inp: Seq<T>) -> Seq<T> {
        layer(
            self.forward_hidden(inp),
            self.output_weights(),
            self.biases().1,
            self.shape().outputs() as nat,
        )
    }

    /// A forward pass depends on the parameters and the input alone: two
    /// networks with the same layout, weights and biases compute the same
    /// activations on the same input, whatever their earlier activations. As
    /// `predict` leaves the parameters as they were, two predictions on one
    /// input with no training between them agree.
    pub proof fn lemma_forward_depends_on_parameters(a: Self, b: Self, inp: Seq<T>)
        requires
            a.same_parameters(b),
        ensures
            a.forward_hidden(inp) == b.forward_hidden(inp),
            a.forward_output(inp) == b.forward_output(inp),
    {
    }

    /// Sizes of the activation buffers as the layout fixes them.
    pub proof fn lemma_buffer_sizes(self)
        requires
            self.wf(),
        ensures
            self.hidden_activations().len() == self.shape().hidden(),
            self.output_activations().len() == self.shape().outputs(),
            self.input_weights().len() == self.shape().hidden(),
            self.output_weights().len() == self.shape().outputs(),
            forall|h: int| 0 <= h < self.shape().hidden()
                ==> (#[trigger] self.input_weights()[h]).len() == self.shape().inputs(),
            forall|o: int| 0 <= o < self.shape().outputs()
                ==> (#[trigger] self.output_weights()[o]).len() == self.shape().hidden(),
    {
        self.w.lemma_shape();
        self.x.lemma_shape();
    }

    /// A network with the given weights and biases and zeroed activations.
    ///
    /// A zero layer size gives `InvalidDimension`; otherwise a weight buffer
    /// whose length is not `nhid * nips`, or `nops * nhid`, gives `DimensionMismatch`.
    pub fn from_parameters(
        nips: usize,
        nhid: usize,
        nops: usize,
        input_weights: Vec<T>,
        output_weights: Vec<T>,
        b_hidden: T,
        b_output: T,
    ) -> (r: Result<Tinn<T>, NetError>)
        ensures
            (nips == 0 || nhid == 0 || nops == 0) ==> r == Err::<Tinn<T>, NetError>(
                NetError::InvalidDimension,
            ),
            (nips > 0 && nhid > 0 && nops > 0) ==> (r is Ok <==> (input_weights.len() == nhid
                * nips && output_weights.len() == nops * nhid)),
            (nips > 0 && nhid > 0 && nops > 0 && r is Err) ==> r == Err::<Tinn<T>, NetError>(
                NetError::DimensionMismatch,
            ),
            r matches Ok(t) ==> {
                &&& t.wf()
                &&& t.shape().inputs() == nips
                &&& t.shape().hidden() == nhid
                &&& t.shape().outputs() == nops
                &&& t.biases() == (b_hidden, b_output)
                &&& forall|h: int, i: int|
                    0 <= h < nhid && 0 <= i < nips ==> #[trigger] t.input_weights()[h][i]
                        == input_weights@[h * nips + i]
                &&& forall|o: int, h: int|
                    0 <= o < nops && 0 <= h < nhid ==> #[trigger] t.output_weights()[o][h]
                        == output_weights@[o * nhid + h]
                &&& forall|k: int| 0 <= k < nhid ==> #[trigger] t.hidden_activations()[k] == T::spec_zero()
                &&& forall|k: int| 0 <= k < nops ==> #[trigger] t.output_activations()[k] == T::spec_zero()
            },
    {
        if nips == 0 || nhid == 0 || nops == 0 {
            return Err(NetError::InvalidDimension);
        }
        let w = match Matrix::from_flat(nhid, nips, input_weights) {
            Ok(m) => m,
            Err(e) => return Err(e),
        };
        let x = match Matrix::from_flat(nops, nhid, output_weights) {
            Ok(m) => m,
            Err(e) => return Err(e),
        };
        let layout = match Layout::new(nips, nhid, nops) {
            Ok(l) => l,
            Err(e) => return Err(e),
        };
        let h = zeros(nhid);
        let o = zeros(nops);
        Ok(Tinn { layout, w, x, b_hidden, b_output, h, o })
    }

    /// A network with `nips` inputs, `nhid` hidden neurons and `nops` outputs,
    /// whose weights and two biases are drawn from `rng`: first the
    /// input-to-hidden weights row by row, then the hidden-to-output weights,
    /// then the hidden bias and the output bias. A zero size gives `InvalidDimension`.
    pub fn new(nips: usize, nhid: usize, nops: usize, rng: &mut SmallRng) -> (r: Result<Tinn<T>, NetError>)
        requires
            nhid * nips <= usize::MAX,
            nops * nhid <= usize::MAX,
        ensures
            r is Ok <==> (nips > 0 && nhid > 0 && nops > 0),
            r is Err ==> r == Err::<Tinn<T>, NetError>(NetError::InvalidDimension),
            r matches Ok(t) ==> {
                &&& t.wf()
                &&& t.shape().inputs() == nips
                &&& t.shape().hidden() == nhid
                &&& t.shape().outputs() == nops
                &&& forall|k: int| 0 <= k < nhid ==> #[trigger] t.hidden_activations()[k] == T::spec_zero()
                &&& forall|k: int| 0 <= k < nops ==> #[trigger] t.output_activations()[k] == T::spec_zero()
            },
    {
        if nips == 0 || nhid == 0 || nops == 0 {
            return Err(NetError::InvalidDimension);
        }
        let w = draw_weights(nhid * nips, rng);
        let x = draw_weights(nops * nhid, rng);
        let b_hidden = T::draw_weight(rng);
        let b_output = T::draw_weight(rng);
        Self::from_parameters(nips, nhid, nops, w, x, b_hidden, b_output)
    }

    /// Recomputes both activation buffers from `inp`; the parameters stay.
    fn forward_unchecked(&mut self, inp: &Vec<T>)
        requires
            old(self).wf(),
            inp.len() == old(self).shape().inputs(),
        ensures
            final(self).wf(),
            final(self).same_parameters(*old(self)),
            final(self).hidden_activations() == old(self).forward_hidden(inp@),
            final(self).output_activations() == old(self).forward_output(inp@),
    {
        let nips = self.layout.nips();
        let nhid = self.layout.nhid();
        let nops = self.layout.nops();
        proof {
            self.w.lemma_shape();
            self.x.lemma_shape();
        }
        let mut hh: usize = 0;
        while hh < nhid
            invariant
                self.wf(),
                self.same_parameters(*old(self)),
                nips == self.shape().inputs(),
                nhid == self.shape().hidden(),
                nops == self.shape().outputs(),
                inp.len() == nips,
                hh <= nhid,
                forall|k: int|
                    0 <= k < hh ==> #[trigger] self.h@[k] == neuron(inp@, self.w@[k], self.b_hidden),
            decreases nhid - hh,
        {
            let mut sum = T::zero();
            let mut i: usize = 0;
            while i < nips
                invariant
                    self.wf(),
                    nips == self.shape().inputs(),
                    nhid == self.shape().hidden(),
                    inp.len() == nips,
                    hh < nhid,
                    i <= nips,
                    sum == dot(inp@, self.w@[hh as int], i as nat),
                decreases nips - i,
            {
                sum = sum.plus(inp[i].times(self.w.get(hh, i)));
                i = i + 1;
            }
            self.h.set(hh, sum.plus(self.b_hidden).sigmoid());
            hh = hh + 1;
        }
        let ghost hid = self.h@;
        assert(hid =~= old(self).forward_hidden(inp@));
        let mut oo: usize = 0;
        while oo < nops
            invariant
                self.wf(),
                self.same_parameters(*old(self)),
                self.h@ == hid,
                nhid == self.shape().hidden(),
                nops == self.shape().outputs(),
                oo <= nops,
                forall|k: int|
                    0 <= k < oo ==> #[trigger] self.o@[k] == neuron(hid, self.x@[k], self.b_output),
            decreases nops - oo,
        {
            let mut sum = T::zero();
            let mut j: usize = 0;
            while j < nhid
                invariant
                    self.wf(),
                    self.h@ == hid,
                    nhid == self.shape().hidden(),
                    nops == self.shape().outputs(),
                    oo < nops,
                    j <= nhid,
                    sum == dot(hid, self.x@[oo as int], j as nat),
                decreases nhid - j,
            {
                sum = sum.plus(self.h[j].times(self.x.get(oo, j)));
                j = j + 1;
            }
            self.o.set(oo, sum.plus(self.b_output).sigmoid());
            oo = oo + 1;
        }
        assert(self.o@ =~= old(self).forward_output(inp@));
    }

    /// Runs the network on `inp`, refreshing the hidden and output
    /// activations; the weights and biases are not touched. An input whose
    /// length is not the number of inputs gives `DimensionMismatch` and
    /// changes nothing.
    pub fn forward(&mut self, inp: &Vec<T>) -> (r: Result<(), NetError>)
        requires
            old(self).wf(),
        ensures
            final(self).wf(),
            final(self).same_parameters(*old(self)),
            r is Ok <==> inp.len() == old(self).shape().inputs(),
            r is Ok ==> final(self).hidden_activations() == old(self).forward_hidden(inp@)
                && final(self).output_activations() == old(self).forward_output(inp@),
            r is Err ==> r == Err::<(), NetError>(NetError::DimensionMismatch) && *final(self)
                == *old(self),
    {
        match self.layout.check_input(inp.len()) {
            Ok(()) => {
                self.forward_unchecked(inp);
                Ok(())
            },
            Err(e) => Err(e),
        }
    }

    /// Half the sum of squared differences between `tg` and the output activations.
    fn error_unchecked(&self, tg: &Vec<T>) -> (e: T)
        requires
            self.wf(),
            tg.len() == self.shape().outputs(),
        ensures
            e == half_sq_error(tg@, self.output_activations(), self.shape().outputs() as nat),
    {
        let nops = self.layout.nops();
        let mut sum = T::zero();
        let mut oo: usize = 0;
        while oo < nops
            invariant
                self.wf(),
                nops == self.shape().outputs(),
                tg.len() == nops,
                oo <= nops,
                sum == half_sq_error(tg@, self.o@, oo as nat),
            decreases nops - oo,
        {
            let d = tg[oo].minus(self.o[oo]);
            sum = sum.plus(T::half().times(d.times(d)));
            oo = oo + 1;
        }
        sum
    }

    /// The error of the last forward pass against `tg`: half the sum of the
    /// squared differences. A target whose length is not the number of
    /// outputs gives `DimensionMismatch`.
    pub fn error_score(&self, tg: &Vec<T>) -> (r: Result<T, NetError>)
        requires
            self.wf(),
        ensures
            r is Ok <==> tg.len() == self.shape().outputs(),
            r matches Ok(e) ==> e == half_sq_error(
                tg@,
                self.output_activations(),
                self.shape().outputs() as nat,
            ),
            r is Err ==> r == Err::<T, NetError>(NetError::DimensionMismatch),
    {
        match self.layout.check_target(tg.len()) {
            Ok(()) => Ok(self.error_unchecked(tg)),
            Err(e) => Err(e),
        }
    }

    /// One gradient-descent step on the weights, from the activations of the
    /// forward pass on `inp`. For each hidden neuron the back-propagated error
    /// is summed over the outputs with the hidden-to-output weights as they
    /// were before this step touched them; the biases are not learned.
    fn backward_unchecked(&mut self, inp: &Vec<T>, tg: &Vec<T>, rate: T)
        requires
            old(self).wf(),
            inp.len() == old(self).shape().inputs(),
            tg.len() == old(self).shape().outputs(),
        ensures
            final(self).wf(),
            final(self).shape() == old(self).shape(),
            final(self).biases() == old(self).biases(),
            final(self).hidden_activations() == old(self).hidden_activations(),
            final(self).output_activations() == old(self).output_activations(),
            forall|o: int, h: int|
                0 <= o < old(self).shape().outputs() && 0 <= h < old(self).shape().hidden()
                    ==> #[trigger] final(self).output_weights()[o][h] == stepped_output_weight(
                    old(self).output_weights()[o][h],
                    rate,
                    old(self).output_activations()[o],
                    tg@[o],
                    old(self).hidden_activations()[h],
                ),
            forall|h: int, i: int|
                0 <= h < old(self).shape().hidden() && 0 <= i < old(self).shape().inputs()
                    ==> #[trigger] final(self).input_weights()[h][i] == stepped_input_weight(
                    old(self).input_weights()[h][i],
                    rate,
                    error_signal(
                        old(self).output_activations(),
                        tg@,
                        old(self).output_weights(),
                        h,
                        old(self).shape().outputs() as nat,
                    ),
                    old(self).hidden_activations()[h],
                    inp@[i],
                ),
    {
        let nips = self.layout.nips();
        let nhid = self.layout.nhid();
        let nops = self.layout.nops();
        let ghost w0 = self.w@;
        let ghost x0 = self.x@;
        let ghost h0 = self.h@;
        let ghost o0 = self.o@;
        let one = T::one();
        proof {
            self.w.lemma_shape();
            self.x.lemma_shape();
        }
        let mut hh: usize = 0;
        while hh < nhid
            invariant
                self.wf(),
                self.shape() == old(self).shape(),
                self.biases() == old(self).biases(),
                self.h@ == h0,
                self.o@ == o0,
                nips == self.shape().inputs(),
                nhid == self.shape().hidden(),
                nops == self.shape().outputs(),
                inp.len() == nips,
                tg.len() == nops,
                one == T::spec_one(),
                hh <= nhid,
                forall|o: int, h: int|
                    0 <= o < nops && 0 <= h < nhid ==> #[trigger] self.x@[o][h] == if h < hh {
                        stepped_output_weight(x0[o][h], rate, o0[o], tg@[o], h0[h])
                    } else {
                        x0[o][h]
                    },
                forall|h: int, i: int|
                    0 <= h < nhid && 0 <= i < nips ==> #[trigger] self.w@[h][i] == if h < hh {
                        stepped_input_weight(
                            w0[h][i],
                            rate,
                            error_signal(o0, tg@, x0, h, nops as nat),
                            h0[h],
                            inp@[i],
                        )
                    } else {
                        w0[h][i]
                    },
            decreases nhid - hh,
        {
            proof {
                self.w.lemma_shape();
                self.x.lemma_shape();
            }
            let hv = self.h[hh];
            let mut sum = T::zero();
            let mut oo: usize = 0;
            while oo < nops
                invariant
                    self.wf(),
                    self.shape() == old(self).shape(),
                    self.biases() == old(self).biases(),
                    self.h@ == h0,
                    self.o@ == o0,
                    nips == self.shape().inputs(),
                    nhid == self.shape().hidden(),
                    nops == self.shape().outputs(),
                    tg.len() == nops,
                    one == T::spec_one(),
                    hh < nhid,
                    hv == h0[hh as int],
                    oo <= nops,
                    sum == error_signal(o0, tg@, x0, hh as int, oo as nat),
                    forall|o: int, h: int|
                        0 <= o < nops && 0 <= h < nhid ==> #[trigger] self.x@[o][h] == if h < hh
                            || (h == hh && o < oo) {
                            stepped_output_weight(x0[o][h], rate, o0[o], tg@[o], h0[h])
                        } else {
                            x0[o][h]
                        },
                    forall|h: int, i: int|
                        0 <= h < nhid && 0 <= i < nips ==> #[trigger] self.w@[h][i] == if h < hh {
                            stepped_input_weight(
                                w0[h][i],
                                rate,
                                error_signal(o0, tg@, x0, h, nops as nat),
                                h0[h],
                                inp@[i],
                            )
                        } else {
                            w0[h][i]
                        },
                decreases nops - oo,
            {
                proof {
                    self.x.lemma_shape();
                }
                let ov = self.o[oo];
                let a = ov.minus(tg[oo]);
                let b = ov.times(one.minus(ov));
                let xv = self.x.get(oo, hh);
                sum = sum.plus(a.times(b).times(xv));
                self.x.set(oo, hh, xv.minus(rate.times(a).times(b).times(hv)));
                proof {
                    self.x.lemma_shape();
                }
                oo = oo + 1;
            }
            let dh = hv.times(one.minus(hv));
            let mut i: usize = 0;
            while i < nips
                invariant
                    self.wf(),
                    self.shape() == old(self).shape(),
                    self.biases() == old(self).biases(),
                    self.h@ == h0,
                    self.o@ == o0,
                    nips == self.shape().inputs(),
                    nhid == self.shape().hidden(),
                    nops == self.shape().outputs(),
                    inp.len() == nips,
                    hh < nhid,
                    hv == h0[hh as int],
                    dh == slope(hv),
                    sum == error_signal(o0, tg@, x0, hh as int, nops as nat),
                    i <= nips,
                    forall|o: int, h: int|
                        0 <= o < nops && 0 <= h < nhid ==> #[trigger] self.x@[o][h] == if h <= hh {
                            stepped_output_weight(x0[o][h], rate, o0[o], tg@[o], h0[h])
                        } else {
                            x0[o][h]
                        },
                    forall|h: int, j: int|
                        0 <= h < nhid && 0 <= j < nips ==> #[trigger] self.w@[h][j] == if h < hh
                            || (h == hh && j < i) {
                            stepped_input_weight(
                                w0[h][j],
                                rate,
                                error_signal(o0, tg@, x0, h, nops as nat),
                                h0[h],
                                inp@[j],
                            )
                        } else {
                            w0[h][j]
                        },
                decreases nips - i,
            {
                proof {
                    self.w.lemma_shape();
                }
                let wv = self.w.get(hh, i);
                self.w.set(hh, i, wv.minus(rate.times(sum).times(dh).times(inp[i])));
                proof {
                    self.w.lemma_shape();
                }
                i = i + 1;
            }
            hh = hh + 1;
        }
    }

    /// One training step on the sample `(inp, tg)`: a forward pass, one
    /// gradient-descent step on the weights with learning rate `rate`, and the
    /// error of the forward pass against `tg`. The biases are never changed.
    /// A sample whose lengths do not fit the layout gives `DimensionMismatch`
    /// and changes nothing.
    pub fn train(&mut self, inp: &Vec<T>, tg: &Vec<T>, rate: T) -> (r: Result<T, NetError>)
        requires
            old(self).wf(),
        ensures
            final(self).wf(),
            final(self).shape() == old(self).shape(),
            final(self).biases() == old(self).biases(),
            r is Ok <==> (inp.len() == old(self).shape().inputs() && tg.len() == old(
                self,
            ).shape().outputs()),
            r matches Ok(e) ==> {
                let hid = old(self).forward_hidden(inp@);
                let out = old(self).forward_output(inp@);
                &&& final(self).hidden_activations() == hid
                &&& final(self).output_activations() == out
                &&& e == half_sq_error(tg@, out, old(self).shape().outputs() as nat)
                &&& forall|o: int, h: int|
                    0 <= o < old(self).shape().outputs() && 0 <= h < old(self).shape().hidden()
                        ==> #[trigger] final(self).output_weights()[o][h] == stepped_output_weight(
                        old(self).output_weights()[o][h],
                        rate,
                        out[o],
                        tg@[o],
                        hid[h],
                    )
                &&& forall|h: int, i: int|
                    0 <= h < old(self).shape().hidden() && 0 <= i < old(self).shape().inputs()
                        ==> #[trigger] final(self).input_weights()[h][i] == stepped_input_weight(
                        old(self).input_weights()[h][i],
                        rate,
                        error_signal(
                            out,
                            tg@,
                            old(self).output_weights(),
                            h,
                            old(self).shape().outputs() as nat,
                        ),
                        hid[h],
                        inp@[i],
                    )
            },
            r is Err ==> r == Err::<T, NetError>(NetError::DimensionMismatch) && *final(self)
                == *old(self),
    {
        match self.layout.check_sample(inp.len(), tg.len()) {
            Ok(()) => {
                self.forward_unchecked(inp);
                self.backward_unchecked(inp, tg, rate);
                Ok(self.error_unchecked(tg))
            },
            Err(e) => Err(e),
        }
    }

    /// Runs the network on `inp` and returns a copy of the output activations;
    /// the weights and biases are not touched. An input whose length is not
    /// the number of inputs gives `DimensionMismatch` and changes nothing.
    pub fn predict(&mut self, inp: &Vec<T>) -> (r: Result<Vec<T>, NetError>)
        requires
            old(self).wf(),
        ensures
            final(self).wf(),
            final(self).same_parameters(*old(self)),
            r is Ok <==> inp.len() == old(self).shape().inputs(),
            r is Err ==> r == Err::<Vec<T>, NetError>(NetError::DimensionMismatch) && *final(self)
                == *old(self),
            r matches Ok(out) ==> out@ == final(self).output_activations() && out@ == old(
                self,
            ).forward_output(inp@),
    {
        match self.forward(inp) {
            Ok(()) => Ok(self.outputs()),
            Err(e) => Err(e),
        }
    }

    /// A copy of the output activations of the last forward pass.
    pub fn outputs(&self) -> (out: Vec<T>)
        ensures
            out@ == self.output_activations(),
    {
        let mut out: Vec<T> = Vec::new();
        let mut k: usize = 0;
        while k < self.o.len()
            invariant
                k <= self.o.len(),
                out@ == self.o@.subrange(0, k as int),
            decreases self.o.len() - k,
        {
            out.push(self.o[k]);
            k = k + 1;
            proof {
                assert(out@ =~= self.o@.subrange(0, k as int));
            }
        }
        proof {
            assert(out@ =~= self.o@);
        }
        out
    }

    /// A copy of the hidden activations of the last forward pass.
    pub fn hidden(&self) -> (out: Vec<T>)
        ensures
            out@ == self.hidden_activations(),
    {
        let mut out: Vec<T> = Vec::new();
        let mut k: usize = 0;
        while k < self.h.len()
            invariant
                k <= self.h.len(),
                out@ == self.h@.subrange(0, k as int),
            decreases self.h.len() - k,
        {
            out.push(self.h[k]);
            k = k + 1;
            proof {
                assert(out@ =~= self.h@.subrange(0, k as int));
            }
        }
        proof {
            assert(out@ =~= self.h@);
        }
        out
    }

    /// The layer sizes.
    pub fn layout(&self) -> (l: Layout)
        ensures
            l == self.shape(),
    {
        self.layout
    }

    /// The bias of the hidden layer and the bias of the output layer.
    pub fn bias_pair(&self) -> (b: (T, T))
        ensures
            b == self.biases(),
    {
        (self.b_hidden, self.b_output)
    }

    /// The weight from input `i` to hidden neuron `h`.
    pub fn input_weight(&self, h: usize, i: usize) -> (v: T)
        requires
            self.wf(),
            h < self.shape().hidden(),
            i < self.shape().inputs(),
        ensures
            v == self.input_weights()[h as int][i as int],
    {
        self.w.get(h, i)
    }

    /// The weight from hidden neuron `h` to output `o`.
    pub fn output_weight(&self, o: usize, h: usize) -> (v: T)
        requires
            self.wf(),
            o < self.shape().outputs(),
            h < self.shape().hidden(),
        ensures
            v == self.output_weights()[o as int][h as int],
    {
        self.x.get(o, h)
    }
}

} // verus!
