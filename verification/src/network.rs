//! A stack of dense layers that share one activation and one learning rate.
//!
//! [`Network::feed_forward`] is pure inference; [`Network::train`] updates
//! weights and biases in place, one example at a time, by backpropagation.
//! Both are stated over the model in [`crate::model`].
use crate::activation::Activation;
use crate::error::NetworkError;
use crate::grid::{height, is_grid, width};
use crate::matrix::Matrix;
use crate::model::{
    examples_fit, has_shape, lemma_learned_well_formed, lemma_trained_keeps_shape, valid_topology,
    NetworkModel,
};
use crate::scalar::Scalar;
use vstd::prelude::*;

verus! {

/// The grids of a sequence of matrices.
pub open spec fn grids_of<T>(ms: Seq<Matrix<T>>) -> Seq<Seq<Seq<T>>> {
    Seq::new(ms.len(), |i: int| ms[i]@)
}

/// The contents of a sequence of vectors.
pub open spec fn views_of<T>(vs: Seq<Vec<T>>) -> Seq<Seq<T>> {
    Seq::new(vs.len(), |i: int| vs[i]@)
}

/// A feed-forward network over scalars of type `T`.
#[verifier::reject_recursive_types(T)]
pub struct Network<T: Scalar, F: Fn(T) -> T, D: Fn(T) -> T> {
    layer_sizes: Vec<usize>,
    weights: Vec<Matrix<T>>,
    biases: Vec<Matrix<T>>,
    learning_rate: T,
    activation: Activation<T, F, D>,
}

impl<T: Scalar, F: Fn(T) -> T, D: Fn(T) -> T> View for Network<T, F, D> {
    type V = NetworkModel<T>;

    closed spec fn view(&self) -> NetworkModel<T> {
        NetworkModel {
            layer_sizes: self.layer_sizes@,
            weights: grids_of(self.weights@),
            biases: grids_of(self.biases@),
            learning_rate: self.learning_rate,
            forward: self.activation.forward_fn(),
            derivative: self.activation.derivative_fn(),
        }
    }
}

/// Whether `sizes` names at least two layers, none of them empty.
fn check_topology(sizes: &Vec<usize>) -> (ok: bool)
    ensures
        ok == valid_topology(sizes@),
{
    if sizes.len() < 2 {
        return false;
    }
    let mut i: usize = 0;
    while i < sizes.len()
        invariant
            i <= sizes.len(),
            forall|k: int| 0 <= k < i ==> #[trigger] sizes@[k] > 0,
        decreases sizes.len() - i,
    {
        if sizes[i] == 0 {
            return false;
        }
        i = i + 1;
    }
    true
}

/// Whether every vector of `vs` has `n` elements.
fn all_of_length<T>(vs: &Vec<Vec<T>>, n: usize) -> (ok: bool)
    ensures
        ok == forall|k: int| 0 <= k < vs@.len() ==> (#[trigger] views_of(vs@)[k]).len() == n,
{
    let mut i: usize = 0;
    while i < vs.len()
        invariant
            i <= vs.len(),
            forall|k: int| 0 <= k < i ==> (#[trigger] views_of(vs@)[k]).len() == n,
        decreases vs.len() - i,
    {
        if vs[i].len() != n {
            assert(views_of(vs@)[i as int].len() != n);
            return false;
        }
        i = i + 1;
    }
    true
}

impl<T: Scalar, F: Fn(T) -> T, D: Fn(T) -> T> Network<T, F, D> {
    #[verifier::type_invariant]
    spec fn shapes_fit(&self) -> bool {
        self@.well_formed()
    }

    /// The model `from_parameters` is asked to assemble.
    pub open spec fn assembled(
        layer_sizes: Seq<usize>,
        weights: Seq<Matrix<T>>,
        biases: Seq<Matrix<T>>,
        learning_rate: T,
        activation: Activation<T, F, D>,
    ) -> NetworkModel<T> {
        NetworkModel {
            layer_sizes,
            weights: grids_of(weights),
            biases: grids_of(biases),
            learning_rate,
            forward: activation.forward_fn(),
            derivative: activation.derivative_fn(),
        }
    }

    /// A network with the given weights and biases. Fails with
    /// `InvalidTopology` on fewer than two layers or an empty layer, and with
    /// `DimensionMismatch` when the weights and biases do not have the shapes
    /// the topology asks for.
    pub fn from_parameters(
        layer_sizes: Vec<usize>,
        weights: Vec<Matrix<T>>,
        biases: Vec<Matrix<T>>,
        learning_rate: T,
        activation: Activation<T, F, D>,
    ) -> (r: Result<Self, NetworkError>)
        ensures
            match r {
                Ok(net) => {
                    &&& net@ == Self::assembled(
                        layer_sizes@,
                        weights@,
                        biases@,
                        learning_rate,
                        activation,
                    )
                    &&& net@.well_formed()
                },
                Err(e) => {
                    &&& !Self::assembled(
                        layer_sizes@,
                        weights@,
                        biases@,
                        learning_rate,
                        activation,
                    ).well_formed()
                    &&& e == if valid_topology(layer_sizes@) {
                        NetworkError::DimensionMismatch
                    } else {
                        NetworkError::InvalidTopology
                    }
                },
            },
    {
        let ghost model = Self::assembled(
            layer_sizes@,
            weights@,
            biases@,
            learning_rate,
            activation,
        );
        if !check_topology(&layer_sizes) {
            return Err(NetworkError::InvalidTopology);
        }
        let depth = layer_sizes.len() - 1;
        if weights.len() != depth || biases.len() != depth {
            return Err(NetworkError::DimensionMismatch);
        }
        let mut i: usize = 0;
        while i < depth
            invariant
                i <= depth,
                depth == layer_sizes@.len() - 1,
                valid_topology(layer_sizes@),
                weights@.len() == depth,
                biases@.len() == depth,
                model == Self::assembled(
                    layer_sizes@,
                    weights@,
                    biases@,
                    learning_rate,
                    activation,
                ),
                forall|k: int|
                    0 <= k < i ==> has_shape(
                        #[trigger] model.weights[k],
                        layer_sizes@[k + 1] as nat,
                        layer_sizes@[k] as nat,
                    ),
                forall|k: int|
                    0 <= k < i ==> has_shape(
                        #[trigger] model.biases[k],
                        layer_sizes@[k + 1] as nat,
                        1,
                    ),
            decreases depth - i,
        {
            let w = &weights[i];
            let b = &biases[i];
            if w.rows() != layer_sizes[i + 1] || w.cols() != layer_sizes[i] || b.rows()
                != layer_sizes[i + 1] || b.cols() != 1 {
                assert(model.weights[i as int] == w@);
                assert(model.biases[i as int] == b@);
                assert(!has_shape(
                    model.weights[i as int],
                    layer_sizes@[i + 1] as nat,
                    layer_sizes@[i as int] as nat,
                ) || !has_shape(model.biases[i as int], layer_sizes@[i + 1] as nat, 1));
                return Err(NetworkError::DimensionMismatch);
            }
            assert(model.weights[i as int] == w@);
            assert(model.biases[i as int] == b@);
            i = i + 1;
        }
        Ok(Network { layer_sizes, weights, biases, learning_rate, activation })
    }

    /// A network whose weights and biases are drawn one by one from
    /// `sample`. Fails with `InvalidTopology` on fewer than two layers or an
    /// empty layer.
    pub fn new<S: Fn() -> T>(
        layer_sizes: Vec<usize>,
        learning_rate: T,
        activation: Activation<T, F, D>,
        sample: S,
    ) -> (r: Result<Self, NetworkError>)
        requires
            sample.requires(()),
        ensures
            match r {
                Ok(net) => {
                    &&& valid_topology(layer_sizes@)
                    &&& net@.well_formed()
                    &&& net@.layer_sizes == layer_sizes@
                    &&& net@.learning_rate == learning_rate
                    &&& net@.forward == activation.forward_fn()
                    &&& net@.derivative == activation.derivative_fn()
                    &&& forall|k: int, i: int, j: int|
                        0 <= k < net@.weights.len() && 0 <= i < height(net@.weights[k]) && 0 <= j
                            < width(net@.weights[k]) ==> sample.ensures(
                            (),
                            #[trigger] net@.weights[k][i][j],
                        )
                    &&& forall|k: int, i: int|
                        0 <= k < net@.biases.len() && 0 <= i < height(net@.biases[k])
                            ==> sample.ensures((), #[trigger] net@.biases[k][i][0])
                },
                Err(e) => e == NetworkError::InvalidTopology && !valid_topology(layer_sizes@),
            },
    {
        if !check_topology(&layer_sizes) {
            return Err(NetworkError::InvalidTopology);
        }
        let depth = layer_sizes.len() - 1;
        let mut weights: Vec<Matrix<T>> = Vec::new();
        let mut biases: Vec<Matrix<T>> = Vec::new();
        let mut k: usize = 0;
        while k < depth
            invariant
                k <= depth,
                depth == layer_sizes@.len() - 1,
                valid_topology(layer_sizes@),
                sample.requires(()),
                weights@.len() == k,
                biases@.len() == k,
                forall|q: int|
                    0 <= q < k ==> has_shape(
                        (#[trigger] weights@[q])@,
                        layer_sizes@[q + 1] as nat,
                        layer_sizes@[q] as nat,
                    ),
                forall|q: int|
                    0 <= q < k ==> has_shape(
                        (#[trigger] biases@[q])@,
                        layer_sizes@[q + 1] as nat,
                        1,
                    ),
                forall|q: int, i: int, j: int|
                    0 <= q < k && 0 <= i < height(weights@[q]@) && 0 <= j < width(weights@[q]@)
                        ==> sample.ensures((), #[trigger] weights@[q]@[i][j]),
                forall|q: int, i: int|
                    0 <= q < k && 0 <= i < height(biases@[q]@) ==> sample.ensures(
                        (),
                        #[trigger] biases@[q]@[i][0],
                    ),
            decreases depth - k,
        {
            let w = Matrix::random(layer_sizes[k + 1], layer_sizes[k], &sample);
            let b = Matrix::random(layer_sizes[k + 1], 1, &sample);
            weights.push(w.unwrap());
            biases.push(b.unwrap());
            k = k + 1;
        }
        let net = Network { layer_sizes, weights, biases, learning_rate, activation };
        Ok(net)
    }

    /// The number of units of each layer, input layer first.
    pub fn layer_sizes(&self) -> (sizes: &Vec<usize>)
        ensures
            sizes@ == self@.layer_sizes,
            self@.well_formed(),
    {
        proof {
            use_type_invariant(self);
        }
        &self.layer_sizes
    }

    /// The weight matrices, first layer first.
    pub fn weights(&self) -> (ws: &Vec<Matrix<T>>)
        ensures
            grids_of(ws@) == self@.weights,
            self@.well_formed(),
    {
        proof {
            use_type_invariant(self);
        }
        &self.weights
    }

    /// The bias columns, first layer first.
    pub fn biases(&self) -> (bs: &Vec<Matrix<T>>)
        ensures
            grids_of(bs@) == self@.biases,
            self@.well_formed(),
    {
        proof {
            use_type_invariant(self);
        }
        &self.biases
    }

    /// The factor applied to every correction.
    pub fn learning_rate(&self) -> (k: T)
        ensures
            k == self@.learning_rate,
    {
        self.learning_rate
    }

    /// The signals of all layers for `input`, input layer first.
    fn sweep(&self, input: &Vec<T>) -> (signals: Vec<Matrix<T>>)
        requires
            input@.len() == self@.input_size(),
        ensures
            signals@.len() == self@.depth() + 1,
            forall|k: int|
                0 <= k <= self@.depth() ==> (#[trigger] signals@[k])@ == self@.signal(
                    input@,
                    k as nat,
                ),
            forall|k: int|
                0 <= k <= self@.depth() ==> has_shape(
                    (#[trigger] signals@[k])@,
                    self@.layer_sizes[k] as nat,
                    1,
                ),
    {
        proof {
            use_type_invariant(self);
        }
        let depth = self.weights.len();
        let mut signals: Vec<Matrix<T>> = Vec::new();
        let first = Matrix::from_column_vector(input);
        signals.push(first.unwrap());
        let mut k: usize = 0;
        while k < depth
            invariant
                k <= depth,
                depth == self@.depth(),
                self@.well_formed(),
                signals@.len() == k + 1,
                forall|q: int|
                    0 <= q <= k ==> (#[trigger] signals@[q])@ == self@.signal(input@, q as nat),
                forall|q: int|
                    0 <= q <= k ==> has_shape(
                        (#[trigger] signals@[q])@,
                        self@.layer_sizes[q] as nat,
                        1,
                    ),
            decreases depth - k,
        {
            assert(self@.weights[k as int] == self.weights@[k as int]@);
            assert(self@.biases[k as int] == self.biases@[k as int]@);
            assert(has_shape(
                self@.weights[k as int],
                self@.layer_sizes[k + 1] as nat,
                self@.layer_sizes[k as int] as nat,
            ));
            assert(has_shape(self@.biases[k as int], self@.layer_sizes[k + 1] as nat, 1));
            let weighted = self.weights[k].multiply(&signals[k]);
            let shifted = weighted.unwrap().add(&self.biases[k]);
            let next = self.activation.forward_all(&shifted.unwrap());
            signals.push(next);
            k = k + 1;
        }
        signals
    }

    /// Inference: the output of the network for `input`. Fails with
    /// `DimensionMismatch`, before anything is computed, unless `input` is as
    /// long as the input layer. The network is not changed, and the result
    /// depends on nothing but the network and `input`.
    pub fn feed_forward(&self, input: Vec<T>) -> (r: Result<Vec<T>, NetworkError>)
        ensures
            match r {
                Ok(output) => {
                    &&& input@.len() == self@.input_size()
                    &&& output@ == self@.output(input@)
                    &&& output@.len() == self@.output_size()
                },
                Err(e) => {
                    &&& e == NetworkError::DimensionMismatch
                    &&& input@.len() != self@.input_size()
                },
            },
    {
        proof {
            use_type_invariant(self);
        }
        if input.len() != self.layer_sizes[0] {
            return Err(NetworkError::DimensionMismatch);
        }
        let signals = self.sweep(&input);
        let last = &signals[self.weights.len()];
        let output = last.to_flat_vector();
        Ok(output.unwrap())
    }

    /// One step of gradient descent on one example.
    fn learn(&mut self, input: &Vec<T>, target: &Vec<T>)
        requires
            input@.len() == old(self)@.input_size(),
            target@.len() == old(self)@.output_size(),
        ensures
            final(self)@ == old(self)@.learned(input@, target@),
    {
        proof {
            use_type_invariant(&*self);
        }
        let ghost before = self@;
        let depth = self.weights.len();
        let rate = self.learning_rate;
        let signals = self.sweep(input);
        let wanted = Matrix::from_column_vector(target);
        let miss = wanted.unwrap().subtract(&signals[depth]);
        let mut error = miss.unwrap();
        // The corrected layers, last layer first: the sweep runs backwards.
        let mut late_weights: Vec<Matrix<T>> = Vec::new();
        let mut late_biases: Vec<Matrix<T>> = Vec::new();
        let mut i: usize = depth;
        while i > 0
            invariant
                i <= depth,
                depth == before.depth(),
                before == self@,
                before.well_formed(),
                rate == before.learning_rate,
                signals@.len() == depth + 1,
                forall|k: int|
                    0 <= k <= depth ==> (#[trigger] signals@[k])@ == before.signal(
                        input@,
                        k as nat,
                    ),
                forall|k: int|
                    0 <= k <= depth ==> has_shape(
                        (#[trigger] signals@[k])@,
                        before.layer_sizes[k] as nat,
                        1,
                    ),
                error@ == before.error(input@, target@, i as nat),
                has_shape(error@, before.layer_sizes[i as int] as nat, 1),
                late_weights@.len() == depth - i,
                late_biases@.len() == depth - i,
                forall|q: int|
                    0 <= q < depth - i ==> (#[trigger] late_weights@[q])@ == before.learned_weight(
                        input@,
                        target@,
                        depth - 1 - q,
                    ),
                forall|q: int|
                    0 <= q < depth - i ==> (#[trigger] late_biases@[q])@ == before.learned_bias(
                        input@,
                        target@,
                        depth - 1 - q,
                    ),
            decreases i,
        {
            let layer = i - 1;
            assert(before.weights[layer as int] == self.weights@[layer as int]@);
            assert(before.biases[layer as int] == self.biases@[layer as int]@);
            assert(has_shape(
                before.weights[layer as int],
                before.layer_sizes[layer + 1] as nat,
                before.layer_sizes[layer as int] as nat,
            ));
            assert(has_shape(before.biases[layer as int], before.layer_sizes[layer + 1] as nat, 1));
            let slope = self.activation.derivative_all(&signals[i]);
            let gradient = error.hadamard(&slope).unwrap();
            assert(gradient@ == before.gradient(input@, target@, layer as nat));
            let outer = gradient.multiply(&signals[layer].transpose()).unwrap();
            let carried = self.weights[layer].transpose().multiply(&gradient).unwrap();
            assert(carried@ == before.error(input@, target@, layer as nat));
            let weight = self.weights[layer].add(&outer.scale(rate)).unwrap();
            let bias = self.biases[layer].add(&gradient.scale(rate)).unwrap();
            assert(weight@ == before.learned_weight(input@, target@, layer as int));
            assert(bias@ == before.learned_bias(input@, target@, layer as int));
            late_weights.push(weight);
            late_biases.push(bias);
            error = carried;
            i = layer;
        }
        let mut weights: Vec<Matrix<T>> = Vec::new();
        let mut biases: Vec<Matrix<T>> = Vec::new();
        let mut k: usize = 0;
        while k < depth
            invariant
                k <= depth,
                weights@.len() == k,
                biases@.len() == k,
                late_weights@.len() == depth - k,
                late_biases@.len() == depth - k,
                forall|q: int|
                    0 <= q < depth - k ==> (#[trigger] late_weights@[q])@ == before.learned_weight(
                        input@,
                        target@,
                        depth - 1 - q,
                    ),
                forall|q: int|
                    0 <= q < depth - k ==> (#[trigger] late_biases@[q])@ == before.learned_bias(
                        input@,
                        target@,
                        depth - 1 - q,
                    ),
                forall|q: int|
                    0 <= q < k ==> (#[trigger] weights@[q])@ == before.learned_weight(
                        input@,
                        target@,
                        q,
                    ),
                forall|q: int|
                    0 <= q < k ==> (#[trigger] biases@[q])@ == before.learned_bias(
                        input@,
                        target@,
                        q,
                    ),
            decreases depth - k,
        {
            let weight = late_weights.pop().unwrap();
            let bias = late_biases.pop().unwrap();
            weights.push(weight);
            biases.push(bias);
            k = k + 1;
        }
        proof {
            let after = before.learned(input@, target@);
            assert(grids_of(weights@) =~= after.weights);
            assert(grids_of(biases@) =~= after.biases);
            lemma_learned_well_formed(before, input@, target@);
        }
        self.weights = weights;
        self.biases = biases;
    }

    /// Whether the examples fit the network.
    fn fits(&self, inputs: &Vec<Vec<T>>, targets: &Vec<Vec<T>>) -> (ok: bool)
        ensures
            ok == examples_fit(self@, views_of(inputs@), views_of(targets@)),
    {
        proof {
            use_type_invariant(self);
        }
        if inputs.len() != targets.len() {
            return false;
        }
        let first = self.layer_sizes[0];
        let last = self.layer_sizes[self.layer_sizes.len() - 1];
        all_of_length(inputs, first) && all_of_length(targets, last)
    }

    /// Training: `epochs` passes over the examples, each pass learning every
    /// example in the given order, each example changing weights and biases
    /// at once. Fails with `DimensionMismatch`, and changes nothing, unless
    /// there are as many targets as inputs, every input is as long as the
    /// input layer and every target as long as the output layer.
    pub fn train(&mut self, inputs: Vec<Vec<T>>, targets: Vec<Vec<T>>, epochs: usize) -> (r: Result<
        (),
        NetworkError,
    >)
        ensures
            match r {
                Ok(_) => {
                    &&& examples_fit(old(self)@, views_of(inputs@), views_of(targets@))
                    &&& final(self)@ == old(self)@.trained(
                        views_of(inputs@),
                        views_of(targets@),
                        epochs as nat,
                    )
                    &&& final(self)@.well_formed()
                    &&& final(self)@.layer_sizes == old(self)@.layer_sizes
                    &&& final(self)@.learning_rate == old(self)@.learning_rate
                    &&& final(self)@.forward == old(self)@.forward
                    &&& final(self)@.derivative == old(self)@.derivative
                },
                Err(e) => {
                    &&& e == NetworkError::DimensionMismatch
                    &&& !examples_fit(old(self)@, views_of(inputs@), views_of(targets@))
                    &&& final(self)@ == old(self)@
                },
            },
    {
        if !self.fits(&inputs, &targets) {
            return Err(NetworkError::DimensionMismatch);
        }
        proof {
            use_type_invariant(&*self);
        }
        let ghost before = self@;
        let ghost xs = views_of(inputs@);
        let ghost ts = views_of(targets@);
        let mut epoch: usize = 0;
        while epoch < epochs
            invariant
                epoch <= epochs,
                xs == views_of(inputs@),
                ts == views_of(targets@),
                examples_fit(before, xs, ts),
                self@ == before.trained(xs, ts, epoch as nat),
                self@.layer_sizes == before.layer_sizes,
            decreases epochs - epoch,
        {
            let ghost start = self@;
            let mut n: usize = 0;
            while n < inputs.len()
                invariant
                    n <= inputs@.len(),
                    xs == views_of(inputs@),
                    ts == views_of(targets@),
                    examples_fit(before, xs, ts),
                    self@ == start.trained_on(xs, ts, n as nat),
                    self@.layer_sizes == before.layer_sizes,
                decreases inputs@.len() - n,
            {
                assert(xs[n as int] == inputs@[n as int]@);
                assert(ts[n as int] == targets@[n as int]@);
                self.learn(&inputs[n], &targets[n]);
                n = n + 1;
            }
            epoch = epoch + 1;
        }
        proof {
            lemma_trained_keeps_shape(before, xs, ts, epochs as nat);
        }
        Ok(())
    }
}

} // verus!
