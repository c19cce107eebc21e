//! Inference backends: what is made of their answers, and what is answered in
//! their place.
use crate::ml::float_bits::{F32Bits, EIGHT_TENTHS, HUNDRED, NINE_TENTHS, TENTH, ZERO};
use crate::ml::Prediction;
use crate::time::Duration;
use vstd::prelude::*;

verus! {

/// Every value is a finite number.
pub open spec fn all_finite(values: Seq<F32Bits>) -> bool {
    forall|i: int| 0 <= i < values.len() ==> (#[trigger] values[i]).is_finite_spec()
}

/// How sure a Candle model is of its values.
pub open spec fn confidence_in(values: Seq<F32Bits>) -> F32Bits {
    if all_finite(values) {
        F32Bits { bits: EIGHT_TENTHS }
    } else {
        F32Bits { bits: ZERO }
    }
}

/// The answer of a Candle model: confident where all values are finite.
pub fn candle_prediction(values: Vec<F32Bits>, version: String, latency: Duration) -> (p: Prediction)
    ensures
        p.values == values,
        p.confidence == confidence_in(values@),
        p.confidence.bits == (if all_finite(values@) {
            EIGHT_TENTHS
        } else {
            ZERO
        }),
        p.model_version == version,
        p.latency == latency,
{
    let mut finite = true;
    let mut i: usize = 0;
    while i < values.len()
        invariant
            i <= values@.len(),
            finite <==> forall|j: int| 0 <= j < i ==> (#[trigger] values@[j]).is_finite_spec(),
        decreases values@.len() - i,
    {
        if !values[i].is_finite() {
            finite = false;
        }
        i += 1;
    }
    let confidence = F32Bits {
        bits: if finite {
            EIGHT_TENTHS
        } else {
            ZERO
        },
    };
    Prediction::new(values, confidence, version, latency)
}

/// The answer of an ONNX model.
pub fn onnx_prediction(values: Vec<F32Bits>, version: String, latency: Duration) -> (p: Prediction)
    ensures
        p.values == values,
        p.confidence.bits == NINE_TENTHS,
        p.model_version == version,
        p.latency == latency,
{
    Prediction::new(values, F32Bits { bits: NINE_TENTHS }, version, latency)
}

/// What a prediction by default looks like: one value, little confidence.
pub open spec fn is_default_prediction(p: Prediction, value: F32Bits) -> bool {
    &&& p.values@ == seq![value]
    &&& p.confidence.bits == TENTH
    &&& p.model_version@ == "fallback-v1"@
    &&& p.latency.nanos == 1_000
}

/// A backend that always answers the same.
#[derive(Clone, Copy, Debug, PartialEq, Eq, Structural)]
pub struct FallbackBackend {
    pub default_prediction: F32Bits,
}

impl FallbackBackend {
    /// A backend that always answers the given value.
    pub fn new(default_prediction: F32Bits) -> (b: Self)
        ensures
            b.default_prediction == default_prediction,
    {
        FallbackBackend { default_prediction }
    }

    /// The answer, whatever was asked.
    pub fn predict(&self) -> (p: Prediction)
        ensures
            is_default_prediction(p, self.default_prediction),
    {
        let values: Vec<F32Bits> = vec![self.default_prediction];
        assert(values@ =~= seq![self.default_prediction]);
        Prediction::new(
            values,
            F32Bits { bits: TENTH },
            "fallback-v1".to_owned(),
            Duration::from_micros(1),
        )
    }

    /// What the backend is called.
    pub fn backend_info(&self) -> (s: &'static str)
        ensures
            s@ == "fallback"@,
    {
        "fallback"
    }
}

/// What came of asking the primary backend.
#[derive(Debug)]
pub enum PrimaryOutcome {
    /// There is none.
    Absent,
    /// It answered in time.
    Answered(Prediction),
    /// It failed.
    Failed,
    /// It did not answer in time.
    TimedOut,
}

/// What is predicted, given what came of asking the primary backend and what is
/// predicted by default.
pub open spec fn answered(primary: PrimaryOutcome, value: F32Bits, p: Prediction) -> bool {
    if primary is Answered {
        p == primary->Answered_0
    } else {
        is_default_prediction(p, value)
    }
}

/// A primary backend with a fallback.
#[derive(Clone, Copy, Debug, PartialEq, Eq, Structural)]
pub struct BackendManager {
    pub fallback: FallbackBackend,
    /// How long the primary backend may take.
    pub max_latency: Duration,
}

impl BackendManager {
    /// A manager whose fallback predicts a hundred milliseconds.
    pub fn new(max_latency: Duration) -> (m: Self)
        ensures
            m.max_latency == max_latency,
            m.fallback.default_prediction.bits == HUNDRED,
    {
        BackendManager { fallback: FallbackBackend::new(F32Bits { bits: HUNDRED }), max_latency }
    }

    /// The primary backend's answer, or the fallback's where there is none.
    pub fn predict(&self, primary: PrimaryOutcome) -> (p: Prediction)
        ensures
            match primary {
                PrimaryOutcome::Answered(a) => p == a,
                _ => is_default_prediction(p, self.fallback.default_prediction),
            },
            answered(primary, self.fallback.default_prediction, p),
    {
        match primary {
            PrimaryOutcome::Answered(a) => a,
            PrimaryOutcome::Absent => self.fallback.predict(),
            PrimaryOutcome::Failed => self.fallback.predict(),
            PrimaryOutcome::TimedOut => self.fallback.predict(),
        }
    }
}

/// An answer by default is one value with a tenth of confidence: less than any operation
/// asks for, and less than models that answer are sure.
pub proof fn default_predictions_are_unsure(p: Prediction, value: F32Bits)
    requires
        is_default_prediction(p, value),
    ensures
        p.values@.len() == 1,
        p.primary() == value,
        p.confidence.lt_spec(F32Bits { bits: 0x3f00_0000 }),
        p.confidence.lt_spec(F32Bits { bits: EIGHT_TENTHS }),
        (F32Bits { bits: ZERO }).lt_spec(p.confidence),
        p.latency.nanos == 1_000,
        p.model_version@ == "fallback-v1"@,
{
}

/// Values are all finite exactly where none of them is infinite or no number.
pub proof fn one_bad_value_spoils_all(values: Seq<F32Bits>, i: int)
    requires
        0 <= i < values.len(),
    ensures
        values[i].is_nan_spec() ==> !all_finite(values),
        !values[i].is_finite_spec() ==> !all_finite(values),
        all_finite(values) ==> values[i].is_finite_spec(),
{
}

/// A model with one value that is infinite or no number is not sure at all; one
/// without such a value is surer than one half, and never quite sure.
pub proof fn bad_values_take_confidence(values: Seq<F32Bits>, i: int)
    requires
        0 <= i < values.len(),
    ensures
        !values[i].is_finite_spec() ==> confidence_in(values).bits == 0,
        all_finite(values) ==> (F32Bits { bits: 0x3f00_0000 }).lt_spec(confidence_in(values))
            && confidence_in(values).lt_spec(F32Bits { bits: 0x3f80_0000 }),
        confidence_in(Seq::empty()).bits == 0x3f4c_cccd,
{
    assert(all_finite(Seq::empty()));
}

/// An answer in time is taken as it is, however it is; a backend that is absent, fails
/// or is too late is stood in for by the default.
pub proof fn answers_in_time_count(primary: PrimaryOutcome, value: F32Bits, p: Prediction)
    requires
        answered(primary, value, p),
    ensures
        primary matches PrimaryOutcome::Answered(a) ==> p == a,
        primary is Absent || primary is Failed || primary is TimedOut ==> p.primary() == value
            && p.model_version@ == "fallback-v1"@,
{
}

} // verus!
