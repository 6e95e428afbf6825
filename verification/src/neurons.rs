//! The fixed-topology feed-forward neural controller.
//!
//! Three dense layers carry a typed input buffer to a typed output
//! buffer; every named slot has a fixed offset into the flat vectors.

use vstd::prelude::*;

verus! {

use crate::random::RandomSource;
use crate::scalar::{fadd, fmul, Scalar, SCALE};
use crate::transcend::{frelu, fsigmoid, fswish, ftanh};

/// Number of molecule channels a cell metabolises.
pub const NUM_MOLECULES: usize = 8;

/// Number of neural input slots.
pub const NUM_INPUTS: usize = 29;

/// Number of hidden neurons: half the input count.
pub const NUM_PROCESSING: usize = 14;

/// Number of neural output slots.
pub const NUM_OUTPUTS: usize = 13;

/// The activation a dense layer applies to each of its sums.
#[derive(Clone, Copy, PartialEq, Eq, Structural, Debug)]
pub enum ActivationFunction {
    Linear,
    Sigmoid,
    Tanh,
    Relu,
    Swish,
}

/// The value an activation yields on a raw input.
pub open spec fn act_value(a: ActivationFunction, x: int) -> int {
    match a {
        ActivationFunction::Linear => x,
        ActivationFunction::Sigmoid => fsigmoid(x),
        ActivationFunction::Tanh => ftanh(x),
        ActivationFunction::Relu => frelu(x),
        ActivationFunction::Swish => fswish(x),
    }
}

impl ActivationFunction {
    /// Draws one of the activation choices offered to new layers.
    pub fn random(rng: &mut RandomSource) -> (r: ActivationFunction)
        ensures
            r == ActivationFunction::Linear || r == ActivationFunction::Sigmoid || r
                == ActivationFunction::Relu || r == ActivationFunction::Swish,
    {
        let k = rng.index_below(4);
        if k == 0 {
            ActivationFunction::Linear
        } else if k == 1 {
            ActivationFunction::Sigmoid
        } else if k == 2 {
            ActivationFunction::Relu
        } else {
            ActivationFunction::Swish
        }
    }

    /// Applies the activation to one value.
    pub fn process(&self, x: Scalar) -> (r: Scalar)
        ensures
            r.raw == act_value(*self, x.raw as int),
    {
        match self {
            ActivationFunction::Linear => x,
            ActivationFunction::Sigmoid => x.sigmoid(),
            ActivationFunction::Tanh => x.tanh(),
            ActivationFunction::Relu => x.relu(),
            ActivationFunction::Swish => x.swish(),
        }
    }

    /// The scalar this variant is encoded as in a genome.
    pub fn encoding(&self) -> (r: Scalar)
        ensures
            r.raw == match *self {
                ActivationFunction::Linear => 1 * SCALE,
                ActivationFunction::Sigmoid => 2 * SCALE,
                ActivationFunction::Tanh => 3 * SCALE,
                ActivationFunction::Relu => 4 * SCALE,
                ActivationFunction::Swish => 5 * SCALE,
            },
    {
        match self {
            ActivationFunction::Linear => Scalar { raw: 1 * SCALE },
            ActivationFunction::Sigmoid => Scalar { raw: 2 * SCALE },
            ActivationFunction::Tanh => Scalar { raw: 3 * SCALE },
            ActivationFunction::Relu => Scalar { raw: 4 * SCALE },
            ActivationFunction::Swish => Scalar { raw: 5 * SCALE },
        }
    }
}

/// The weighted sum of the first `k` inputs under a weight row.
pub open spec fn dot_k(row: Seq<Scalar>, input: Seq<Scalar>, k: nat) -> int
    decreases k,
{
    if k == 0 {
        0
    } else {
        fadd(dot_k(row, input, (k - 1) as nat), fmul(row[k - 1].raw as int, input[k - 1].raw as int))
    }
}

/// The raw sum a neuron sees: its weight row against the whole input,
/// plus its bias.
pub open spec fn neuron_sum(row: Seq<Scalar>, input: Seq<Scalar>, bias: Scalar) -> int {
    fadd(dot_k(row, input, row.len()), bias.raw as int)
}

/// Whether a weight row has any non-zero entry over its first `k` slots.
pub open spec fn row_active_k(row: Seq<Scalar>, k: nat) -> bool
    decreases k,
{
    if k == 0 {
        false
    } else {
        row_active_k(row, (k - 1) as nat) || row[k - 1].raw != 0
    }
}

/// Number of working neurons over the first `k` rows: rows with at
/// least one non-zero incoming weight.
pub open spec fn active_rows_k(weights: Seq<Vec<Scalar>>, k: nat) -> nat
    decreases k,
{
    if k == 0 {
        0
    } else {
        active_rows_k(weights, (k - 1) as nat) + if row_active_k(
            weights[k - 1]@,
            weights[k - 1]@.len(),
        ) {
            1nat
        } else {
            0nat
        }
    }
}

/// One dense layer.
#[derive(Debug)]
pub struct Layer {
    pub weights: Vec<Vec<Scalar>>,
    pub bias: Vec<Scalar>,
    pub activation: ActivationFunction,
    pub outputs: Vec<Scalar>,
}

impl Layer {
    /// Shape consistency for the given fan-in and fan-out.
    pub open spec fn wf(self, fan_in: nat, fan_out: nat) -> bool {
        &&& self.weights@.len() == fan_out
        &&& forall|i: int| 0 <= i < fan_out ==> (#[trigger] self.weights@[i])@.len() == fan_in
        &&& self.bias@.len() == fan_out
        &&& self.outputs@.len() == fan_out
    }

    /// What the layer's output buffer holds after processing an input.
    pub open spec fn out_spec(self, input: Seq<Scalar>) -> Seq<Scalar> {
        Seq::new(
            self.weights@.len(),
            |i: int| Scalar {
                raw: act_value(
                    self.activation,
                    neuron_sum(self.weights@[i]@, input, self.bias@[i]),
                ) as i64,
            },
        )
    }

    /// A layer with weights and biases drawn uniformly from `[-1, 1]`
    /// and a random activation; the output buffer starts zeroed.
    pub fn random(rng: &mut RandomSource, fan_in: usize, fan_out: usize) -> (r: Layer)
        ensures
            r.wf(fan_in as nat, fan_out as nat),
            forall|i: int, j: int|
                0 <= i < fan_out && 0 <= j < fan_in ==> -SCALE <= (#[trigger] r.weights@[i]@[j]).raw
                    <= SCALE,
            forall|i: int| 0 <= i < fan_out ==> -SCALE <= (#[trigger] r.bias@[i]).raw <= SCALE,
            forall|i: int| 0 <= i < fan_out ==> (#[trigger] r.outputs@[i]).raw == 0,
    {
        let mut weights: Vec<Vec<Scalar>> = Vec::new();
        let mut bias: Vec<Scalar> = Vec::new();
        let mut i: usize = 0;
        while i < fan_out
            invariant
                i <= fan_out,
                weights@.len() == i,
                bias@.len() == i,
                forall|k: int| 0 <= k < i ==> (#[trigger] weights@[k])@.len() == fan_in,
                forall|k: int, l: int|
                    0 <= k < i && 0 <= l < fan_in ==> -SCALE <= (
                    #[trigger] weights@[k]@[l]).raw <= SCALE,
                forall|k: int| 0 <= k < i ==> -SCALE <= (#[trigger] bias@[k]).raw <= SCALE,
            decreases fan_out - i,
        {
            let mut row: Vec<Scalar> = Vec::new();
            let mut j: usize = 0;
            while j < fan_in
                invariant
                    j <= fan_in,
                    row@.len() == j,
                    forall|l: int| 0 <= l < j ==> -SCALE <= (#[trigger] row@[l]).raw <= SCALE,
                decreases fan_in - j,
            {
                row.push(rng.unit_symmetric());
                j = j + 1;
            }
            weights.push(row);
            bias.push(rng.unit_symmetric());
            i = i + 1;
        }
        let mut outputs: Vec<Scalar> = Vec::new();
        let mut k: usize = 0;
        while k < fan_out
            invariant
                k <= fan_out,
                outputs@.len() == k,
                forall|l: int| 0 <= l < k ==> (#[trigger] outputs@[l]).raw == 0,
            decreases fan_out - k,
        {
            outputs.push(Scalar { raw: 0 });
            k = k + 1;
        }
        Layer { weights, bias, activation: ActivationFunction::random(rng), outputs }
    }

    /// Feeds an input through the layer, filling the output buffer with
    /// the activated weighted sums.
    pub fn process(&mut self, input: &Vec<Scalar>)
        requires
            old(self).weights@.len() == old(self).bias@.len(),
            forall|i: int|
                0 <= i < old(self).weights@.len() ==> (#[trigger] old(self).weights@[i])@.len()
                    == input@.len(),
        ensures
            final(self).outputs@ == old(self).out_spec(input@),
            *final(self) == (Layer { outputs: final(self).outputs, ..*old(self) }),
    {
        let n = self.weights.len();
        let mut out: Vec<Scalar> = Vec::new();
        let mut i: usize = 0;
        while i < n
            invariant
                n == self.weights@.len(),
                n == self.bias@.len(),
                forall|k: int|
                    0 <= k < n ==> (#[trigger] self.weights@[k])@.len() == input@.len(),
                i <= n,
                out@.len() == i,
                forall|k: int|
                    0 <= k < i ==> (#[trigger] out@[k]).raw == act_value(
                        self.activation,
                        neuron_sum(self.weights@[k]@, input@, self.bias@[k]),
                    ),
            decreases n - i,
        {
            let m = input.len();
            let mut acc = Scalar { raw: 0 };
            let mut j: usize = 0;
            while j < m
                invariant
                    n == self.weights@.len(),
                    i < n,
                    m == input@.len(),
                    self.weights@[i as int]@.len() == m,
                    j <= m,
                    acc.raw as int == dot_k(self.weights@[i as int]@, input@, j as nat),
                decreases m - j,
            {
                acc = acc.plus(self.weights[i][j].times(input[j]));
                j = j + 1;
            }
            let summed = acc.plus(self.bias[i]);
            out.push(self.activation.process(summed));
            i = i + 1;
        }
        self.outputs = out;
        proof {
            assert(self.outputs@ =~= old(self).out_spec(input@));
        }
    }

    /// The output buffer.
    pub fn outputs(&self) -> (r: &Vec<Scalar>)
        ensures
            *r == self.outputs,
    {
        &self.outputs
    }

    /// Counts the working neurons: rows of the weight matrix with at
    /// least one non-zero entry.  The weights are left untouched.
    pub fn num_working_neurons(&self) -> (r: usize)
        ensures
            r as nat == active_rows_k(self.weights@, self.weights@.len() as nat),
            r <= self.weights@.len(),
    {
        let n = self.weights.len();
        let mut count: usize = 0;
        let mut i: usize = 0;
        while i < n
            invariant
                n == self.weights@.len(),
                i <= n,
                count <= i,
                count as nat == active_rows_k(self.weights@, i as nat),
            decreases n - i,
        {
            let row = &self.weights[i];
            let m = row.len();
            let mut active = false;
            let mut j: usize = 0;
            while j < m
                invariant
                    m == row@.len(),
                    j <= m,
                    active == row_active_k(row@, j as nat),
                decreases m - j,
            {
                if row[j].raw != 0 {
                    active = true;
                }
                j = j + 1;
            }
            if active {
                count = count + 1;
            }
            i = i + 1;
        }
        count
    }
}

/// The three-layer controller with its typed input buffer.
#[derive(Debug)]
pub struct Neurons {
    pub inputs: Vec<Scalar>,
    pub input_layer: Layer,
    pub processing_layer: Layer,
    pub output_layer: Layer,
    pub working_neurons: usize,
}

impl Neurons {
    /// Shape consistency of the whole stack, with the cached working-
    /// neuron count tied to the weight matrices.
    pub open spec fn wf(self) -> bool {
        &&& self.inputs@.len() == NUM_INPUTS
        &&& self.input_layer.wf(NUM_INPUTS as nat, NUM_PROCESSING as nat)
        &&& self.processing_layer.wf(NUM_PROCESSING as nat, NUM_PROCESSING as nat)
        &&& self.output_layer.wf(NUM_PROCESSING as nat, NUM_OUTPUTS as nat)
        &&& self.working_neurons as nat == active_rows_k(
            self.input_layer.weights@,
            self.input_layer.weights@.len() as nat,
        ) + active_rows_k(
            self.processing_layer.weights@,
            self.processing_layer.weights@.len() as nat,
        ) + active_rows_k(
            self.output_layer.weights@,
            self.output_layer.weights@.len() as nat,
        )
    }

    /// What the output buffer holds after a full forward pass over a
    /// given input buffer.
    pub open spec fn forward(self, input: Seq<Scalar>) -> Seq<Scalar> {
        self.output_layer.out_spec(
            self.processing_layer.out_spec(self.input_layer.out_spec(input)),
        )
    }

    /// A randomly initialised controller: sigmoid input layer, tanh
    /// hidden and output layers, weights and biases uniform in `[-1, 1]`,
    /// input buffer zeroed.
    pub fn random(rng: &mut RandomSource) -> (r: Neurons)
        ensures
            r.wf(),
            r.input_layer.activation == ActivationFunction::Sigmoid,
            r.processing_layer.activation == ActivationFunction::Tanh,
            r.output_layer.activation == ActivationFunction::Tanh,
            forall|i: int| 0 <= i < NUM_INPUTS ==> (#[trigger] r.inputs@[i]).raw == 0,
            forall|i: int, j: int|
                0 <= i < NUM_PROCESSING && 0 <= j < NUM_INPUTS ==> -SCALE <= (
                #[trigger] r.input_layer.weights@[i]@[j]).raw <= SCALE,
            forall|i: int, j: int|
                0 <= i < NUM_PROCESSING && 0 <= j < NUM_PROCESSING ==> -SCALE <= (
                #[trigger] r.processing_layer.weights@[i]@[j]).raw <= SCALE,
            forall|i: int, j: int|
                0 <= i < NUM_OUTPUTS && 0 <= j < NUM_PROCESSING ==> -SCALE <= (
                #[trigger] r.output_layer.weights@[i]@[j]).raw <= SCALE,
            forall|i: int|
                0 <= i < NUM_PROCESSING ==> -SCALE <= (#[trigger] r.input_layer.bias@[i]).raw
                    <= SCALE && -SCALE <= r.processing_layer.bias@[i].raw <= SCALE,
            forall|i: int|
                0 <= i < NUM_OUTPUTS ==> -SCALE <= (#[trigger] r.output_layer.bias@[i]).raw
                    <= SCALE,
    {
        let mut input_layer = Layer::random(rng, NUM_INPUTS, NUM_PROCESSING);
        input_layer.activation = ActivationFunction::Sigmoid;
        let mut processing_layer = Layer::random(rng, NUM_PROCESSING, NUM_PROCESSING);
        processing_layer.activation = ActivationFunction::Tanh;
        let mut output_layer = Layer::random(rng, NUM_PROCESSING, NUM_OUTPUTS);
        output_layer.activation = ActivationFunction::Tanh;
        let working_neurons = input_layer.num_working_neurons()
            + processing_layer.num_working_neurons() + output_layer.num_working_neurons();
        let mut inputs: Vec<Scalar> = Vec::new();
        let mut k: usize = 0;
        while k < NUM_INPUTS
            invariant
                k <= NUM_INPUTS,
                inputs@.len() == k,
                forall|l: int| 0 <= l < k ==> (#[trigger] inputs@[l]).raw == 0,
            decreases NUM_INPUTS - k,
        {
            inputs.push(Scalar { raw: 0 });
            k = k + 1;
        }
        Neurons { inputs, input_layer, processing_layer, output_layer, working_neurons }
    }

    /// The cached working-neuron count, the cost proxy of the stack.
    pub fn num_working_neurons(&self) -> (r: usize)
        ensures
            r == self.working_neurons,
    {
        self.working_neurons
    }

    /// Runs the full forward pass: each layer computes its activated
    /// weighted sums and hands them to the next.
    pub fn process(&mut self)
        requires
            old(self).wf(),
        ensures
            final(self).wf(),
            final(self).output_layer.outputs@ == old(self).forward(old(self).inputs@),
            final(self).inputs == old(self).inputs,
            final(self).working_neurons == old(self).working_neurons,
            forall|i: int|
                0 <= i < NUM_OUTPUTS ==> (#[trigger] final(self).output_layer.outputs@[i]).raw
                    == old(self).forward(old(self).inputs@)[i].raw,
            // only the output buffers are written: weights, biases and
            // activations stay
            final(self).input_layer == (Layer {
                outputs: final(self).input_layer.outputs,
                ..old(self).input_layer
            }),
            final(self).processing_layer == (Layer {
                outputs: final(self).processing_layer.outputs,
                ..old(self).processing_layer
            }),
            final(self).output_layer == (Layer {
                outputs: final(self).output_layer.outputs,
                ..old(self).output_layer
            }),
    {
        let inputs = copy_scalars(&self.inputs);
        self.input_layer.process(&inputs);
        let h1 = copy_scalars(&self.input_layer.outputs);
        self.processing_layer.process(&h1);
        let h2 = copy_scalars(&self.processing_layer.outputs);
        self.output_layer.process(&h2);
    }

    /// Writes one input slot.
    pub fn set_input(&mut self, slot: usize, value: Scalar)
        requires
            old(self).wf(),
            slot < NUM_INPUTS,
        ensures
            final(self).wf(),
            final(self).inputs@ == old(self).inputs@.update(slot as int, value),
            *final(self) == (Neurons { inputs: final(self).inputs, ..*old(self) }),
    {
        let slot_ref = &mut self.inputs[slot];
        *slot_ref = value;
    }

    /// Reads one output slot.
    pub fn get_output(&self, slot: usize) -> (r: Scalar)
        requires
            self.wf(),
            slot < NUM_OUTPUTS,
        ensures
            r == self.output_layer.outputs@[slot as int],
    {
        self.output_layer.outputs[slot]
    }
}

/// A fresh vector holding the same scalars.
pub fn copy_scalars(v: &Vec<Scalar>) -> (r: Vec<Scalar>)
    ensures
        r@ == v@,
{
    let n = v.len();
    let mut out: Vec<Scalar> = Vec::new();
    let mut i: usize = 0;
    while i < n
        invariant
            n == v@.len(),
            i <= n,
            out@.len() == i,
            forall|k: int| 0 <= k < i ==> (#[trigger] out@[k]) == v@[k],
        decreases n - i,
    {
        out.push(v[i]);
        i = i + 1;
    }
    proof {
        assert(out@ =~= v@);
    }
    out
}

/// Two layers hold the same weights, biases, activation and outputs.
pub open spec fn layer_matches(a: Layer, b: Layer) -> bool {
    &&& a.weights@.len() == b.weights@.len()
    &&& forall|i: int| 0 <= i < a.weights@.len() ==> (#[trigger] a.weights@[i])@ == b.weights@[i]@
    &&& a.bias@ == b.bias@
    &&& a.activation == b.activation
    &&& a.outputs@ == b.outputs@
}

/// Two controllers hold the same brain: equal inputs, layer contents
/// and working-neuron count.
pub open spec fn neurons_match(a: Neurons, b: Neurons) -> bool {
    &&& a.inputs@ == b.inputs@
    &&& layer_matches(a.input_layer, b.input_layer)
    &&& layer_matches(a.processing_layer, b.processing_layer)
    &&& layer_matches(a.output_layer, b.output_layer)
    &&& a.working_neurons == b.working_neurons
}

/// Matching layers compute the same outputs on every input.
pub proof fn lemma_layer_matches_out(a: Layer, b: Layer, input: Seq<Scalar>)
    requires
        layer_matches(a, b),
    ensures
        a.out_spec(input) == b.out_spec(input),
{
    assert(a.out_spec(input) =~= b.out_spec(input));
}

/// The forward pass is a function of the brain contents alone: two
/// controllers with matching layers yield bit-identical outputs for
/// identical inputs.
pub proof fn lemma_forward_deterministic(a: Neurons, b: Neurons, input: Seq<Scalar>)
    requires
        layer_matches(a.input_layer, b.input_layer),
        layer_matches(a.processing_layer, b.processing_layer),
        layer_matches(a.output_layer, b.output_layer),
    ensures
        a.forward(input) == b.forward(input),
{
    lemma_layer_matches_out(a.input_layer, b.input_layer, input);
    lemma_layer_matches_out(
        a.processing_layer,
        b.processing_layer,
        a.input_layer.out_spec(input),
    );
    lemma_layer_matches_out(
        a.output_layer,
        b.output_layer,
        a.processing_layer.out_spec(a.input_layer.out_spec(input)),
    );
}

impl Layer {
    /// A deep copy of the layer.
    pub fn duplicate(&self) -> (r: Layer)
        ensures
            layer_matches(r, *self),
    {
        let n = self.weights.len();
        let mut weights: Vec<Vec<Scalar>> = Vec::new();
        let mut i: usize = 0;
        while i < n
            invariant
                n == self.weights@.len(),
                i <= n,
                weights@.len() == i,
                forall|k: int|
                    0 <= k < i ==> (#[trigger] weights@[k])@ == self.weights@[k]@,
            decreases n - i,
        {
            weights.push(copy_scalars(&self.weights[i]));
            i = i + 1;
        }
        Layer {
            weights,
            bias: copy_scalars(&self.bias),
            activation: self.activation,
            outputs: copy_scalars(&self.outputs),
        }
    }
}

impl Neurons {
    /// A deep copy of the whole controller.
    pub fn duplicate(&self) -> (r: Neurons)
        ensures
            neurons_match(r, *self),
            self.wf() ==> r.wf(),
    {
        let r = Neurons {
            inputs: copy_scalars(&self.inputs),
            input_layer: self.input_layer.duplicate(),
            processing_layer: self.processing_layer.duplicate(),
            output_layer: self.output_layer.duplicate(),
            working_neurons: self.working_neurons,
        };
        proof {
            lemma_active_rows_same(
                r.input_layer.weights@,
                self.input_layer.weights@,
                r.input_layer.weights@.len(),
            );
            lemma_active_rows_same(
                r.processing_layer.weights@,
                self.processing_layer.weights@,
                r.processing_layer.weights@.len(),
            );
            lemma_active_rows_same(
                r.output_layer.weights@,
                self.output_layer.weights@,
                r.output_layer.weights@.len(),
            );
        }
        r
    }
}

/// At most every row can be working.
pub proof fn lemma_active_rows_le(weights: Seq<Vec<Scalar>>, k: nat)
    requires
        k <= weights.len(),
    ensures
        active_rows_k(weights, k) <= k,
    decreases k,
{
    if k > 0 {
        lemma_active_rows_le(weights, (k - 1) as nat);
    }
}

/// Weight matrices with elementwise equal rows count the same working
/// neurons, over every prefix.
pub proof fn lemma_active_rows_same(a: Seq<Vec<Scalar>>, b: Seq<Vec<Scalar>>, k: nat)
    requires
        a.len() == b.len(),
        forall|i: int| 0 <= i < a.len() ==> (#[trigger] a[i])@ == b[i]@,
        k <= a.len(),
    ensures
        active_rows_k(a, k) == active_rows_k(b, k),
    decreases k,
{
    if k > 0 {
        lemma_active_rows_same(a, b, (k - 1) as nat);
    }
}

/// Offset of the velocity-magnitude input slot.
pub const IN_VELOCITY_MAGNITUDE: usize = 0;

/// Offset of the acceleration-magnitude input slot.
pub const IN_ACCELERATION_MAGNITUDE: usize = 1;

/// Offset of the radius input slot.
pub const IN_RADIUS: usize = 2;

/// Offset of the age input slot.
pub const IN_AGE: usize = 3;

/// Offset of the energy-amount input slot.
pub const IN_ENERGY_AMOUNT: usize = 4;

/// Offset of the stored-energy input slot.
pub const IN_ENERGY_STORED: usize = 5;

/// Offset of the energy-delta input slot.
pub const IN_ENERGY_DELTA: usize = 6;

/// Offset of the zero-energy-timer input slot.
pub const IN_ZERO_ENERGY: usize = 7;

/// Offset of the division-reserve input slot.
pub const IN_DIVISION_ENERGY_RESERVE: usize = 8;

/// Offset of the division-grow-factor input slot.
pub const IN_DIVISION_GROW_FACTOR: usize = 9;

/// Offset of the first molecule-proportion input slot; one follows for
/// each molecule channel.
pub const IN_MOLECULES_PROPORTION: usize = 10;

/// Offset of the molecules-total input slot.
pub const IN_MOLECULES_TOTAL: usize = 18;

/// Offset of the movement-direction input slot.
pub const IN_MOVEMENT_DIRECTION: usize = 19;

/// Offset of the movement-speed input slot.
pub const IN_MOVEMENT_SPEED: usize = 20;

/// Offset of the two movement-velocity input slots.
pub const IN_MOVEMENT_VELOCITY: usize = 21;

/// Offset of the movement-velocity-magnitude input slot.
pub const IN_MOVEMENT_VELOCITY_MAGNITUDE: usize = 23;

/// Offset of the contact-absorption input slot.
pub const IN_CONTACT_ENERGY_ABSORPTION: usize = 24;

/// Offset of the contact-count input slot.
pub const IN_CONTACT_COUNT: usize = 25;

/// Offset of the two contact-normal input slots.
pub const IN_CONTACT_NORMAL: usize = 26;

/// Offset of the contact-normal-magnitude input slot.
pub const IN_CONTACT_NORMAL_MAGNITUDE: usize = 28;

/// Offset of the first energy-metabolism output slot; one follows for
/// each molecule channel.
pub const OUT_ENERGY_METABOLISM: usize = 0;

/// Offset of the division-reserve output slot.
pub const OUT_DIVISION_ENERGY_RESERVE: usize = 8;

/// Offset of the contraction-amount output slot.
pub const OUT_CONTRACTION_AMOUNT: usize = 9;

/// Offset of the angular-speed output slot.
pub const OUT_MOVEMENT_ANGULAR_SPEED: usize = 10;

/// Offset of the kinetic-speed output slot.
pub const OUT_MOVEMENT_KINETIC_SPEED: usize = 11;

/// Offset of the contact-absorption output slot.
pub const OUT_CONTACT_ENERGY_ABSORPTION: usize = 12;


impl crate::genome::BuildGenome for ActivationFunction {
    /// Writes the variant's encoding under `activation_function`.
    fn build_genome(&self, builder: &mut crate::genome::GenomeBuilder) {
        self.write_genome(builder);
    }
}

impl ActivationFunction {
    /// Writes exactly one gene: `activation_function` under the
    /// builder's path, carrying this variant's encoding.  No other gene
    /// changes.
    pub fn write_genome(&self, builder: &mut crate::genome::GenomeBuilder)
        requires
            old(builder).wf(),
        ensures
            final(builder).wf(),
            final(builder).path == old(builder).path,
            final(builder).genes@.len() >= old(builder).genes@.len(),
            crate::genome::genes_at(
                final(builder).genes@,
                crate::genome::joined_key(old(builder).path, "activation_function"@),
            ).value.raw == match *self {
                ActivationFunction::Linear => 1 * SCALE,
                ActivationFunction::Sigmoid => 2 * SCALE,
                ActivationFunction::Tanh => 3 * SCALE,
                ActivationFunction::Relu => 4 * SCALE,
                ActivationFunction::Swish => 5 * SCALE,
            },
            forall|k: Seq<char>|
                #[trigger] crate::genome::genes_has(final(builder).genes@, k) <==> (
                crate::genome::genes_has(old(builder).genes@, k) || k
                    == crate::genome::joined_key(old(builder).path, "activation_function"@)),
            forall|k: Seq<char>|
                crate::genome::genes_has(old(builder).genes@, k) && k
                    != crate::genome::joined_key(old(builder).path, "activation_function"@)
                    ==> #[trigger] crate::genome::genes_at(final(builder).genes@, k)
                    == crate::genome::genes_at(old(builder).genes@, k),
    {
        proof {
            reveal_strlit("activation_function");
        }
        builder.add("activation_function", crate::genome::Gen { value: self.encoding() });
    }
}

impl crate::genome::BuildGenome for Layer {
    /// Writes the weight matrix as `weights/row/col`, the biases as
    /// `bias/index`, and the activation encoding.
    fn build_genome(&self, builder: &mut crate::genome::GenomeBuilder) {
        self.write_genome(builder);
    }
}

impl Layer {
    /// Writes the weight matrix as `weights/row/col`, the biases as
    /// `bias/index`, and the activation encoding, all under the
    /// builder's path; afterwards the activation gene is present with
    /// this layer's encoding.
    pub fn write_genome(&self, builder: &mut crate::genome::GenomeBuilder)
        requires
            old(builder).wf(),
        ensures
            final(builder).wf(),
            final(builder).path == old(builder).path,
            final(builder).genes@.len() >= old(builder).genes@.len(),
            crate::genome::genes_has(
                final(builder).genes@,
                crate::genome::joined_key(old(builder).path, "activation_function"@),
            ),
            crate::genome::genes_at(
                final(builder).genes@,
                crate::genome::joined_key(old(builder).path, "activation_function"@),
            ).value.raw == match self.activation {
                ActivationFunction::Linear => 1 * SCALE,
                ActivationFunction::Sigmoid => 2 * SCALE,
                ActivationFunction::Tanh => 3 * SCALE,
                ActivationFunction::Relu => 4 * SCALE,
                ActivationFunction::Swish => 5 * SCALE,
            },
    {
        proof {
            reveal_strlit("weights");
            reveal_strlit("bias");
        }
        let mut wb = builder.nested("weights");
        let n = self.weights.len();
        let mut r: usize = 0;
        while r < n
            invariant
                n == self.weights@.len(),
                r <= n,
                wb.wf(),
            decreases n - r,
        {
            let row_key = crate::genome::dec3((r % 1000) as u64);
            let mut rb = wb.nested(row_key.as_str());
            let row = &self.weights[r];
            let m = row.len();
            let mut c: usize = 0;
            while c < m
                invariant
                    m == row@.len(),
                    c <= m,
                    rb.wf(),
                decreases m - c,
            {
                let col_key = crate::genome::dec3((c % 1000) as u64);
                rb.add(col_key.as_str(), crate::genome::Gen { value: row[c] });
                c = c + 1;
            }
            wb.absorb(rb);
            r = r + 1;
        }
        builder.absorb(wb);
        let mut bb = builder.nested("bias");
        let nb = self.bias.len();
        let mut i: usize = 0;
        while i < nb
            invariant
                nb == self.bias@.len(),
                i <= nb,
                bb.wf(),
            decreases nb - i,
        {
            let key = crate::genome::dec3((i % 1000) as u64);
            bb.add(key.as_str(), crate::genome::Gen { value: self.bias[i] });
            i = i + 1;
        }
        builder.absorb(bb);
        self.activation.write_genome(builder);
    }
}

impl crate::genome::BuildGenome for Neurons {
    /// Writes each layer under its own nested path.
    fn build_genome(&self, builder: &mut crate::genome::GenomeBuilder) {
        self.write_genome(builder);
    }
}

impl Neurons {
    /// Writes each layer under its own nested path; afterwards every
    /// layer's activation gene is present.
    pub fn write_genome(&self, builder: &mut crate::genome::GenomeBuilder)
        requires
            old(builder).wf(),
        ensures
            final(builder).wf(),
            final(builder).path == old(builder).path,
            final(builder).genes@.len() >= old(builder).genes@.len(),
            crate::genome::genes_has(
                final(builder).genes@,
                crate::genome::joined_key(old(builder).path, "input_layer"@) + seq!['/']
                    + "activation_function"@,
            ),
            crate::genome::genes_has(
                final(builder).genes@,
                crate::genome::joined_key(old(builder).path, "processing_layer"@) + seq!['/']
                    + "activation_function"@,
            ),
            crate::genome::genes_has(
                final(builder).genes@,
                crate::genome::joined_key(old(builder).path, "output_layer"@) + seq!['/']
                    + "activation_function"@,
            ),
    {
        proof {
            reveal_strlit("input_layer");
            reveal_strlit("processing_layer");
            reveal_strlit("output_layer");
        }
        let mut b1 = builder.nested("input_layer");
        self.input_layer.write_genome(&mut b1);
        proof {
            assert(crate::genome::joined_key(b1.path, "activation_function"@)
                =~= crate::genome::joined_key(old(builder).path, "input_layer"@) + seq!['/']
                + "activation_function"@);
        }
        builder.absorb(b1);
        let mut b2 = builder.nested("processing_layer");
        self.processing_layer.write_genome(&mut b2);
        proof {
            assert(crate::genome::joined_key(b2.path, "activation_function"@)
                =~= crate::genome::joined_key(old(builder).path, "processing_layer"@) + seq!['/']
                + "activation_function"@);
        }
        builder.absorb(b2);
        let mut b3 = builder.nested("output_layer");
        self.output_layer.write_genome(&mut b3);
        proof {
            assert(crate::genome::joined_key(b3.path, "activation_function"@)
                =~= crate::genome::joined_key(old(builder).path, "output_layer"@) + seq!['/']
                + "activation_function"@);
        }
        builder.absorb(b3);
    }
}
} // verus!
