//! Machine learning around the node: routing and congestion control that use
//! predictions where there are any, and the classical algorithms otherwise.
//!
//! Models run outside the library. What is asked of them, and what is made of
//! their answers, is decided here.
pub mod backend;
pub mod congestion;
pub mod features;
pub mod float_bits;
pub mod models;
pub mod ranking;
pub mod routing;

use crate::ml::float_bits::{F32Bits, ZERO};
use crate::ratio::Ratio;
use crate::ring::Location;
use crate::time::{Duration, Instant};
use std::sync::Arc;
use vstd::prelude::*;

verus! {

/// Configuration of the enhancements.
#[derive(Debug)]
pub struct MLConfig {
    /// Whether enhancements are used at all.
    pub enabled: bool,
    /// Whether a failed prediction makes way for the classical algorithm.
    pub fallback_on_error: bool,
    /// Where trained models are kept.
    pub model_path: Option<String>,
    /// How long a prediction may take, in milliseconds.
    pub max_inference_latency_ms: u64,
}

impl Default for MLConfig {
    fn default() -> (c: Self)
        ensures
            c.enabled,
            c.fallback_on_error,
            c.model_path is None,
            c.max_inference_latency_ms == 100,
    {
        MLConfig {
            enabled: true,
            fallback_on_error: true,
            model_path: None,
            max_inference_latency_ms: 100,
        }
    }
}

impl MLConfig {
    /// The same configuration once more.
    pub fn duplicate(&self) -> (c: Self)
        ensures
            c == *self,
    {
        MLConfig {
            enabled: self.enabled,
            fallback_on_error: self.fallback_on_error,
            model_path: match &self.model_path {
                Some(p) => Some(p.clone()),
                None => None,
            },
            max_inference_latency_ms: self.max_inference_latency_ms,
        }
    }
}

/// A component with an optional enhancement.
#[derive(Debug)]
pub struct Enhanced<T, E> {
    /// The classical component.
    pub base: T,
    /// What enhances it.
    pub enhancement: Option<Arc<E>>,
    pub config: MLConfig,
}

/// What to do about a request to an enhanced component.
#[derive(Debug)]
pub enum EnhancedOutcome<R, X> {
    /// Take the enhancement's result.
    Use(R),
    /// Ask the classical component.
    Fallback,
    /// Fail with the enhancement's error.
    Fail(X),
}

impl<T, E> Enhanced<T, E> {
    /// A component with an enhancement, where there is one.
    pub fn new(base: T, enhancement: Option<E>, config: MLConfig) -> (r: Self)
        ensures
            r.base == base,
            r.config == config,
            r.enhancement is Some <==> enhancement is Some,
            enhancement is Some ==> *r.enhancement->0 == enhancement->0,
    {
        let enhancement = match enhancement {
            Some(e) => Some(Arc::new(e)),
            None => None,
        };
        Enhanced { base, enhancement, config }
    }

    /// A component without enhancement.
    pub fn fallback_only(base: T) -> (r: Self)
        ensures
            r.base == base,
            r.enhancement is None,
            !r.config.enabled,
            r.config.fallback_on_error,
            r.config.model_path is None,
            r.config.max_inference_latency_ms == 100,
            !r.enhanced(),
    {
        let config = MLConfig::default();
        Enhanced {
            base,
            enhancement: None,
            config: MLConfig {
                enabled: false,
                fallback_on_error: config.fallback_on_error,
                model_path: config.model_path,
                max_inference_latency_ms: config.max_inference_latency_ms,
            },
        }
    }

    /// There is an enhancement, and it is enabled.
    pub open spec fn enhanced(&self) -> bool {
        self.config.enabled && self.enhancement is Some
    }

    /// Whether there is an enhancement that is enabled.
    pub fn has_enhancement(&self) -> (b: bool)
        ensures
            b == self.enhanced(),
    {
        self.config.enabled && self.enhancement.is_some()
    }

    /// What becomes of a request. `attempt` is what the enhancement returned,
    /// `None` where there is none to ask.
    pub fn resolve<R, X>(&self, attempt: Option<Result<R, X>>) -> (out: EnhancedOutcome<R, X>)
        requires
            self.enhancement is Some <==> attempt is Some,
        ensures
            out == resolved(self.config.fallback_on_error, attempt),
    {
        match attempt {
            None => EnhancedOutcome::Fallback,
            Some(Ok(r)) => EnhancedOutcome::Use(r),
            Some(Err(e)) => if self.config.fallback_on_error {
                EnhancedOutcome::Fallback
            } else {
                EnhancedOutcome::Fail(e)
            },
        }
    }
}

/// What becomes of a request to a component, given what its enhancement
/// returned (`None` where it has none): without an enhancement the classical
/// component serves it; with one its result counts, and its failure is passed
/// on only where falling back is not configured.
pub open spec fn resolved<R, X>(fallback_on_error: bool, attempt: Option<Result<R, X>>) -> EnhancedOutcome<R, X> {
    match attempt {
        None => EnhancedOutcome::Fallback,
        Some(Ok(r)) => EnhancedOutcome::Use(r),
        Some(Err(e)) => if fallback_on_error {
            EnhancedOutcome::Fallback
        } else {
            EnhancedOutcome::Fail(e)
        },
    }
}

/// A component that falls back on errors never fails for its enhancement.
pub proof fn fallback_never_fails<R, X>(attempt: Option<Result<R, X>>)
    ensures
        !(resolved(true, attempt) is Fail),
{
}

/// A signed fraction; `0 / 0` stands for no number at all.
#[derive(Clone, Copy, Debug, PartialEq, Eq, Structural)]
pub struct SignedRatio {
    pub numer: i128,
    pub denom: u128,
}

/// The value of a feature, before it is rounded to single precision.
#[derive(Clone, Copy, Debug, PartialEq, Eq, Structural)]
pub enum Feature {
    /// A number that was given in single precision.
    Single(F32Bits),
    /// A whole number.
    Whole(u128),
    /// A quotient.
    Quotient(Ratio),
    /// One minus a quotient.
    Complement(Ratio),
    /// A signed quotient, held between minus one and one.
    Trend(SignedRatio),
    /// The slope of the regression line through five numbers in a row.
    Slope { y0: F32Bits, y1: F32Bits, y2: F32Bits, y3: F32Bits, y4: F32Bits },
    /// The slope of the regression line through five whole numbers in a row.
    WholeSlope { w0: u128, w1: u128, w2: u128, w3: u128, w4: u128 },
    /// The inverse of one plus the coefficient of variation of some spans with
    /// the given variance and mean in milliseconds, held between zero and one.
    Stability { variance: Ratio, mean_ms: u128 },
    /// The coefficient of variation times the share of failures, held between
    /// zero and one.
    Load { variance: Ratio, mean_ms: u128, success: Ratio },
    /// The distance of two positions on the ring.
    Distance { from: Location, to: Location },
}

/// The input of a model.
#[derive(Debug)]
pub struct FeatureVector {
    pub features: Vec<Feature>,
    pub names: Vec<String>,
    /// When the features were taken.
    pub timestamp: Instant,
}

/// The texts of some strings.
pub open spec fn texts(names: Seq<String>) -> Seq<Seq<char>> {
    names.map_values(|s: String| s@)
}

impl FeatureVector {
    /// Each feature has a name.
    pub open spec fn wf(&self) -> bool {
        self.features@.len() == self.names@.len()
    }

    /// Features with their names.
    pub fn new(features: Vec<Feature>, names: Vec<String>, timestamp: Instant) -> (v: Self)
        requires
            features@.len() == names@.len(),
        ensures
            v.wf(),
            v.features == features,
            v.names == names,
            v.timestamp == timestamp,
    {
        FeatureVector { features, names, timestamp }
    }

    /// The number of features.
    pub fn dim(&self) -> (n: usize)
        ensures
            n == self.features@.len(),
    {
        self.features.len()
    }

    /// Whether the features are older than allowed.
    pub fn is_stale(&self, max_age: Duration, now: Instant) -> (b: bool)
        ensures
            b == (now.since_spec(self.timestamp).nanos > max_age.nanos),
    {
        now.since(self.timestamp).nanos > max_age.nanos
    }
}

/// What a model answers.
#[derive(Debug)]
pub struct Prediction {
    pub values: Vec<F32Bits>,
    /// How sure the model is, from zero to one.
    pub confidence: F32Bits,
    pub model_version: String,
    /// How long the answer took.
    pub latency: Duration,
}

impl Prediction {
    /// The first of the values, zero where there is none.
    pub open spec fn primary(&self) -> F32Bits {
        if self.values@.len() > 0 {
            self.values@[0]
        } else {
            F32Bits { bits: ZERO }
        }
    }

    /// An answer with its parts.
    pub fn new(
        values: Vec<F32Bits>,
        confidence: F32Bits,
        model_version: String,
        latency: Duration,
    ) -> (p: Self)
        ensures
            p.values == values,
            p.confidence == confidence,
            p.model_version == model_version,
            p.latency == latency,
    {
        Prediction { values, confidence, model_version, latency }
    }

    /// The first of the values, zero where there is none.
    pub fn primary_value(&self) -> (v: F32Bits)
        ensures
            v == self.primary(),
    {
        if self.values.len() > 0 {
            self.values[0]
        } else {
            F32Bits { bits: ZERO }
        }
    }

    /// Whether the model is at least as sure as asked.
    pub fn is_high_confidence(&self, threshold: F32Bits) -> (b: bool)
        ensures
            b == self.confidence.ge_spec(threshold),
    {
        self.confidence.ge(threshold)
    }

    /// The same answer once more.
    pub fn duplicate(&self) -> (p: Self)
        ensures
            p.values@ == self.values@,
            p.confidence == self.confidence,
            p.model_version@ == self.model_version@,
            p.latency == self.latency,
    {
        let mut values: Vec<F32Bits> = Vec::new();
        let mut i: usize = 0;
        while i < self.values.len()
            invariant
                i <= self.values@.len(),
                values@ == self.values@.subrange(0, i as int),
            decreases self.values@.len() - i,
        {
            values.push(self.values[i]);
            i += 1;
            assert(values@ =~= self.values@.subrange(0, i as int));
        }
        assert(values@ =~= self.values@);
        Prediction {
            values,
            confidence: self.confidence,
            model_version: self.model_version.clone(),
            latency: self.latency,
        }
    }
}

/// An enhancement is asked first: its result counts, its failure makes way for the
/// classical component where that is configured and is passed on otherwise, and without
/// one the classical component serves.
pub proof fn enhancements_come_first<R, X>(fallback_on_error: bool, r: R, e: X)
    ensures
        resolved::<R, X>(fallback_on_error, Some(Ok(r))) == EnhancedOutcome::<R, X>::Use(r),
        resolved::<R, X>(true, Some(Err(e))) == EnhancedOutcome::<R, X>::Fallback,
        resolved::<R, X>(false, Some(Err(e))) == EnhancedOutcome::<R, X>::Fail(e),
        resolved::<R, X>(fallback_on_error, None) == EnhancedOutcome::<R, X>::Fallback,
{
}

/// The value of a prediction is its first one.
pub proof fn first_value_counts(p: Prediction, q: Prediction)
    ensures
        p.values@.len() > 0 ==> p.primary() == p.values@[0],
        p.values@.len() == 0 ==> p.primary().bits == 0,
        p.values@.len() > 0 && q.values@.len() > 0 && p.values@[0] == q.values@[0] ==> p.primary()
            == q.primary(),
{
}

/// An enhancement is used where there is one and it is enabled.
pub proof fn enhancements_are_used_where_enabled<T, E>(c: Enhanced<T, E>)
    ensures
        !c.config.enabled ==> !c.enhanced(),
        c.enhancement is None ==> !c.enhanced(),
        c.config.enabled && c.enhancement is Some ==> c.enhanced(),
{
}

} // verus!
