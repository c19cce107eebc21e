//! Model kinds, their configuration, and what is decided from their outputs.
use crate::ml::float_bits::{F32Bits, TENTH};
use crate::ml::ranking::{stable_sort, stable_sorted};
use crate::ratio::Ratio;
use vstd::prelude::*;

verus! {

/// The kinds of models.
#[derive(Clone, Copy, Debug, PartialEq, Eq, Structural)]
pub enum ModelType {
    /// Predicts retrieval latency.
    RouterOptimization,
    /// Chooses among congestion control actions.
    CongestionControl,
    /// Tells unusual input by its reconstruction error.
    AnomalyDetection,
}

/// Shape and training parameters of a model.
#[derive(Debug)]
pub struct ModelConfig {
    pub model_type: ModelType,
    pub input_dim: usize,
    pub output_dim: usize,
    pub hidden_dims: Vec<usize>,
    pub dropout_rate: Ratio,
    pub learning_rate: Ratio,
}

impl Default for ModelConfig {
    fn default() -> (c: Self)
        ensures
            c.model_type == ModelType::RouterOptimization,
            c.input_dim == 16,
            c.output_dim == 1,
            c.hidden_dims@ == seq![64usize, 32usize, 16usize],
            c.dropout_rate.is(2, 10),
            c.learning_rate.is(1, 1000),
    {
        let hidden_dims: Vec<usize> = vec![64, 32, 16];
        assert(hidden_dims@ =~= seq![64usize, 32usize, 16usize]);
        ModelConfig {
            model_type: ModelType::RouterOptimization,
            input_dim: 16,
            output_dim: 1,
            hidden_dims,
            dropout_rate: Ratio { numer: 2, denom: 10 },
            learning_rate: Ratio { numer: 1, denom: 1000 },
        }
    }
}

/// No value is NaN.
pub open spec fn no_nan(values: Seq<F32Bits>) -> bool {
    forall|i: int| 0 <= i < values.len() ==> !(#[trigger] values[i]).is_nan_spec()
}

/// The action has the highest value, and is the last one that has it; it is the
/// first one where there are no values.
pub open spec fn is_best_action(q_values: Seq<F32Bits>, best: int) -> bool {
    &&& q_values.len() == 0 ==> best == 0
    &&& q_values.len() > 0 ==> 0 <= best < q_values.len()
    &&& forall|j: int|
        0 <= j < q_values.len() ==> q_values[best].ge_spec(#[trigger] q_values[j])
    &&& forall|j: int| best < j < q_values.len() ==> (#[trigger] q_values[j]).lt_spec(q_values[best])
}

/// The action of the highest value, the last one of several; the first action
/// where there are no values.
pub fn best_action(q_values: &Vec<F32Bits>) -> (best: usize)
    requires
        no_nan(q_values@),
    ensures
        is_best_action(q_values@, best as int),
{
    let mut best: usize = 0;
    let mut i: usize = 0;
    while i < q_values.len()
        invariant
            i <= q_values@.len(),
            no_nan(q_values@),
            i == 0 ==> best == 0,
            i > 0 ==> best < i,
            forall|j: int| 0 <= j < i ==> q_values@[best as int].ge_spec(#[trigger] q_values@[j]),
            forall|j: int|
                best < j < i ==> (#[trigger] q_values@[j]).lt_spec(q_values@[best as int]),
        decreases q_values@.len() - i,
    {
        assert(!q_values@[i as int].is_nan_spec());
        assert(!q_values@[best as int].is_nan_spec());
        if i == 0 || q_values[i].ge(q_values[best]) {
            best = i;
        }
        i += 1;
    }
    best
}

/// How many congestion control actions there are.
pub const ACTION_COUNT: usize = 9;

/// The action to take: any one, as a random word has it, where a draw is below
/// the exploration rate, and the best one otherwise.
pub fn select_action(draw: F32Bits, epsilon: F32Bits, word: usize, q_values: &Vec<F32Bits>) -> (action:
    usize)
    requires
        no_nan(q_values@),
    ensures
        draw.lt_spec(epsilon) ==> action == word % ACTION_COUNT,
        !draw.lt_spec(epsilon) ==> is_best_action(q_values@, action as int),
{
    if draw.lt(epsilon) {
        word % ACTION_COUNT
    } else {
        best_action(q_values)
    }
}

/// The reconstruction error above which input counts as unusual.
#[derive(Clone, Copy, Debug, PartialEq, Eq, Structural)]
pub struct AnomalyThreshold {
    pub threshold: F32Bits,
}

impl AnomalyThreshold {
    /// The threshold to start with: one tenth.
    pub fn new() -> (t: Self)
        ensures
            t.threshold.bits == TENTH,
    {
        AnomalyThreshold { threshold: F32Bits { bits: TENTH } }
    }

    /// Whether a reconstruction error is above the threshold.
    pub fn detect_anomaly(&self, error: F32Bits) -> (b: bool)
        ensures
            b == self.threshold.lt_spec(error),
    {
        self.threshold.lt(error)
    }

    /// Sets the threshold to the error at an index among the sorted errors of
    /// usual input; leaves it where there is no such index.
    pub fn update_threshold(&mut self, normal_errors: Vec<F32Bits>, index: usize)
        requires
            no_nan(normal_errors@),
        ensures
            final(self).threshold == (if index < normal_errors@.len() {
                stable_sorted(normal_errors@)[index as int]
            } else {
                old(self).threshold
            }),
    {
        let sorted = stable_sort(normal_errors);
        if index < sorted.len() {
            self.threshold = sorted[index];
        }
    }
}

/// The action with the highest value is taken, and of several the last one: no other has
/// a higher value, and none behind it has the same.
pub proof fn best_action_is_the_last_highest(q: Seq<F32Bits>, best: int, i: int)
    requires
        no_nan(q),
        is_best_action(q, best),
        0 <= i < q.len(),
    ensures
        0 <= best < q.len(),
        !q[best].lt_spec(q[i]),
        i > best ==> q[i].lt_spec(q[best]),
{
}

/// There is one best action.
pub proof fn best_action_is_unique(q: Seq<F32Bits>, a: int, b: int)
    requires
        no_nan(q),
        is_best_action(q, a),
        is_best_action(q, b),
    ensures
        a == b,
{
    if a < b {
        assert(q[b].lt_spec(q[a]));
        assert(q[b].ge_spec(q[a]));
    } else if b < a {
        assert(q[a].lt_spec(q[b]));
        assert(q[a].ge_spec(q[b]));
    }
}

} // verus!
