//! The mathematical model of a network and of what inference and training
//! compute.
use crate::grid::{
    column_of, difference_of, flattened, hadamard_of, height, is_grid, mapped, product_of, scaled,
    sum_of, transposed, width,
};
use crate::scalar::Scalar;
use vstd::prelude::*;

verus! {

/// `g` is a matrix of `rows` rows and `cols` columns.
pub open spec fn has_shape<T>(g: Seq<Seq<T>>, rows: nat, cols: nat) -> bool {
    is_grid(g) && height(g) == rows && width(g) == cols
}

/// At least two layers, none of them empty.
pub open spec fn valid_topology(sizes: Seq<usize>) -> bool {
    &&& sizes.len() >= 2
    &&& forall|i: int| 0 <= i < sizes.len() ==> #[trigger] sizes[i] > 0
}

/// The state of a network as plain mathematical values.
#[verifier::reject_recursive_types(T)]
pub struct NetworkModel<T> {
    /// The number of units of each layer, input layer first.
    pub layer_sizes: Seq<usize>,
    /// `weights[i]` maps the signal of layer `i` to layer `i + 1`.
    pub weights: Seq<Seq<Seq<T>>>,
    /// `biases[i]` is the column added on the way to layer `i + 1`.
    pub biases: Seq<Seq<Seq<T>>>,
    /// The factor applied to every correction.
    pub learning_rate: T,
    /// The activation function.
    pub forward: spec_fn(T) -> T,
    /// Its derivative, in terms of the activation's output.
    pub derivative: spec_fn(T) -> T,
}

impl<T: Scalar> NetworkModel<T> {
    /// The number of weight layers.
    pub open spec fn depth(self) -> nat {
        self.weights.len()
    }

    /// The number of inputs the network takes.
    pub open spec fn input_size(self) -> nat {
        self.layer_sizes[0] as nat
    }

    /// The number of outputs the network gives.
    pub open spec fn output_size(self) -> nat {
        self.layer_sizes[self.layer_sizes.len() - 1] as nat
    }

    /// The topology is valid, and every weight matrix and bias column has the
    /// shape the topology asks for.
    pub open spec fn well_formed(self) -> bool {
        &&& valid_topology(self.layer_sizes)
        &&& self.weights.len() == self.layer_sizes.len() - 1
        &&& self.biases.len() == self.layer_sizes.len() - 1
        &&& forall|i: int|
            0 <= i < self.weights.len() ==> has_shape(
                #[trigger] self.weights[i],
                self.layer_sizes[i + 1] as nat,
                self.layer_sizes[i] as nat,
            )
        &&& forall|i: int|
            0 <= i < self.biases.len() ==> has_shape(
                #[trigger] self.biases[i],
                self.layer_sizes[i + 1] as nat,
                1,
            )
    }

    /// The signal of layer `k` for `input`: the input itself as a column for
    /// `k == 0`, and after that the activation of the weighted signal of the
    /// layer before plus the bias.
    pub open spec fn signal(self, input: Seq<T>, k: nat) -> Seq<Seq<T>>
        decreases k,
    {
        if k == 0 {
            column_of(input)
        } else {
            mapped(
                sum_of(
                    product_of(self.weights[k - 1], self.signal(input, (k - 1) as nat)),
                    self.biases[k - 1],
                ),
                self.forward,
            )
        }
    }

    /// What inference returns for `input`: the signal of the last layer.
    pub open spec fn output(self, input: Seq<T>) -> Seq<T> {
        flattened(self.signal(input, self.depth()))
    }

    /// The error attributed to layer `k` for one example: target minus
    /// prediction at the last layer, and below that the error of the layer
    /// above, scaled by the derivative there and carried back through the
    /// weights as they were before the example.
    pub open spec fn error(self, input: Seq<T>, target: Seq<T>, k: nat) -> Seq<Seq<T>>
        decreases self.depth() - k,
    {
        if k >= self.depth() {
            difference_of(column_of(target), self.signal(input, self.depth()))
        } else {
            product_of(transposed(self.weights[k as int]), self.gradient(input, target, k))
        }
    }

    /// The gradient of weight layer `i` for one example: the error of layer
    /// `i + 1` times, elementwise, the derivative at that layer's signal.
    pub open spec fn gradient(self, input: Seq<T>, target: Seq<T>, i: nat) -> Seq<Seq<T>>
        decreases self.depth() - i, 0nat,
    {
        if i >= self.depth() {
            Seq::empty()
        } else {
            hadamard_of(
                self.error(input, target, i + 1),
                mapped(self.signal(input, i + 1), self.derivative),
            )
        }
    }

    /// Weight layer `i` after one example.
    pub open spec fn learned_weight(self, input: Seq<T>, target: Seq<T>, i: int) -> Seq<Seq<T>> {
        sum_of(
            self.weights[i],
            scaled(
                self.learning_rate,
                product_of(
                    self.gradient(input, target, i as nat),
                    transposed(self.signal(input, i as nat)),
                ),
            ),
        )
    }

    /// Bias column `i` after one example.
    pub open spec fn learned_bias(self, input: Seq<T>, target: Seq<T>, i: int) -> Seq<Seq<T>> {
        sum_of(self.biases[i], scaled(self.learning_rate, self.gradient(input, target, i as nat)))
    }

    /// The network after one step of gradient descent on one example.
    pub open spec fn learned(self, input: Seq<T>, target: Seq<T>) -> NetworkModel<T> {
        NetworkModel {
            weights: Seq::new(self.depth(), |i: int| self.learned_weight(input, target, i)),
            biases: Seq::new(self.depth(), |i: int| self.learned_bias(input, target, i)),
            ..self
        }
    }

    /// The network after learning the first `n` examples, one after the
    /// other in the given order.
    pub open spec fn trained_on(self, inputs: Seq<Seq<T>>, targets: Seq<Seq<T>>, n: nat)
        -> NetworkModel<T>
        decreases n,
    {
        if n == 0 {
            self
        } else {
            self.trained_on(inputs, targets, (n - 1) as nat).learned(inputs[n - 1], targets[n - 1])
        }
    }

    /// The network after `epochs` passes over all examples.
    pub open spec fn trained(self, inputs: Seq<Seq<T>>, targets: Seq<Seq<T>>, epochs: nat)
        -> NetworkModel<T>
        decreases epochs,
    {
        if epochs == 0 {
            self
        } else {
            self.trained(inputs, targets, (epochs - 1) as nat).trained_on(
                inputs,
                targets,
                inputs.len(),
            )
        }
    }
}

/// The examples fit the network: as many targets as inputs, every input as
/// long as the input layer, every target as long as the output layer.
pub open spec fn examples_fit<T: Scalar>(
    net: NetworkModel<T>,
    inputs: Seq<Seq<T>>,
    targets: Seq<Seq<T>>,
) -> bool {
    &&& inputs.len() == targets.len()
    &&& forall|n: int| 0 <= n < inputs.len() ==> (#[trigger] inputs[n]).len() == net.input_size()
    &&& forall|n: int| 0 <= n < targets.len() ==> (#[trigger] targets[n]).len() == net.output_size()
}

/// The signal of every layer is a column as long as the layer.
pub proof fn lemma_signal_shape<T: Scalar>(net: NetworkModel<T>, input: Seq<T>, k: nat)
    requires
        net.well_formed(),
        input.len() == net.input_size(),
        k <= net.depth(),
    ensures
        has_shape(net.signal(input, k), net.layer_sizes[k as int] as nat, 1),
    decreases k,
{
    if k > 0 {
        lemma_signal_shape(net, input, (k - 1) as nat);
        assert(has_shape(
            net.weights[k - 1],
            net.layer_sizes[k - 1 + 1] as nat,
            net.layer_sizes[k - 1] as nat,
        ));
        assert(has_shape(net.biases[k - 1], net.layer_sizes[k - 1 + 1] as nat, 1));
    }
}

/// The error attributed to every layer is a column as long as the layer.
pub proof fn lemma_error_shape<T: Scalar>(
    net: NetworkModel<T>,
    input: Seq<T>,
    target: Seq<T>,
    k: nat,
)
    requires
        net.well_formed(),
        input.len() == net.input_size(),
        target.len() == net.output_size(),
        k <= net.depth(),
    ensures
        has_shape(net.error(input, target, k), net.layer_sizes[k as int] as nat, 1),
    decreases net.depth() - k,
{
    if k < net.depth() {
        lemma_error_shape(net, input, target, k + 1);
        lemma_signal_shape(net, input, k + 1);
        assert(has_shape(
            net.weights[k as int],
            net.layer_sizes[k as int + 1] as nat,
            net.layer_sizes[k as int] as nat,
        ));
    } else {
        lemma_signal_shape(net, input, net.depth());
    }
}

/// Learning an example that fits keeps every shape: the network stays well
/// formed, with the topology, learning rate and activation it had.
pub proof fn lemma_learned_well_formed<T: Scalar>(
    net: NetworkModel<T>,
    input: Seq<T>,
    target: Seq<T>,
)
    requires
        net.well_formed(),
        input.len() == net.input_size(),
        target.len() == net.output_size(),
    ensures
        net.learned(input, target).well_formed(),
        net.learned(input, target).layer_sizes == net.layer_sizes,
        net.learned(input, target).learning_rate == net.learning_rate,
        net.learned(input, target).forward == net.forward,
        net.learned(input, target).derivative == net.derivative,
{
    let after = net.learned(input, target);
    assert forall|i: int| 0 <= i < after.weights.len() implies has_shape(
        #[trigger] after.weights[i],
        after.layer_sizes[i + 1] as nat,
        after.layer_sizes[i] as nat,
    ) by {
        assert(has_shape(
            net.weights[i],
            net.layer_sizes[i + 1] as nat,
            net.layer_sizes[i] as nat,
        ));
    }
    assert forall|i: int| 0 <= i < after.biases.len() implies has_shape(
        #[trigger] after.biases[i],
        after.layer_sizes[i + 1] as nat,
        1,
    ) by {
        assert(has_shape(net.biases[i], net.layer_sizes[i + 1] as nat, 1));
    }
}

/// Learning the first `n` of a set of examples that fit keeps the network
/// well formed, with the topology, learning rate and activation it had.
pub proof fn lemma_trained_on_keeps_shape<T: Scalar>(
    net: NetworkModel<T>,
    inputs: Seq<Seq<T>>,
    targets: Seq<Seq<T>>,
    n: nat,
)
    requires
        net.well_formed(),
        examples_fit(net, inputs, targets),
        n <= inputs.len(),
    ensures
        net.trained_on(inputs, targets, n).well_formed(),
        net.trained_on(inputs, targets, n).layer_sizes == net.layer_sizes,
        net.trained_on(inputs, targets, n).learning_rate == net.learning_rate,
        net.trained_on(inputs, targets, n).forward == net.forward,
        net.trained_on(inputs, targets, n).derivative == net.derivative,
    decreases n,
{
    if n > 0 {
        lemma_trained_on_keeps_shape(net, inputs, targets, (n - 1) as nat);
        let earlier = net.trained_on(inputs, targets, (n - 1) as nat);
        assert(inputs[n - 1].len() == net.input_size());
        assert(targets[n - 1].len() == net.output_size());
        lemma_learned_well_formed(earlier, inputs[n - 1], targets[n - 1]);
    }
}

/// Training on examples that fit, for any number of epochs, keeps the
/// network well formed, with the topology, learning rate and activation it
/// had: only weights and biases change.
pub proof fn lemma_trained_keeps_shape<T: Scalar>(
    net: NetworkModel<T>,
    inputs: Seq<Seq<T>>,
    targets: Seq<Seq<T>>,
    epochs: nat,
)
    requires
        net.well_formed(),
        examples_fit(net, inputs, targets),
    ensures
        net.trained(inputs, targets, epochs).well_formed(),
        net.trained(inputs, targets, epochs).layer_sizes == net.layer_sizes,
        net.trained(inputs, targets, epochs).learning_rate == net.learning_rate,
        net.trained(inputs, targets, epochs).forward == net.forward,
        net.trained(inputs, targets, epochs).derivative == net.derivative,
    decreases epochs,
{
    if epochs > 0 {
        lemma_trained_keeps_shape(net, inputs, targets, (epochs - 1) as nat);
        let earlier = net.trained(inputs, targets, (epochs - 1) as nat);
        lemma_trained_on_keeps_shape(earlier, inputs, targets, inputs.len());
    }
}

/// Training for zero epochs changes nothing, whatever the examples.
pub proof fn lemma_no_epochs_no_change<T: Scalar>(
    net: NetworkModel<T>,
    inputs: Seq<Seq<T>>,
    targets: Seq<Seq<T>>,
)
    ensures
        net.trained(inputs, targets, 0) == net,
{
}

/// Inference is a function of the network's state and the input alone: two
/// networks in the same state give the same output for the same input, and
/// the output of a well-formed network for an input that fits is as long as
/// the output layer.
pub proof fn lemma_output_is_determined<T: Scalar>(
    first: NetworkModel<T>,
    second: NetworkModel<T>,
    input: Seq<T>,
)
    requires
        first == second,
        first.well_formed(),
        input.len() == first.input_size(),
    ensures
        first.output(input) == second.output(input),
        first.output(input).len() == first.output_size(),
{
    lemma_signal_shape(first, input, first.depth());
}

} // verus!
