//! Labels for calibration methods and uncertainty levels.
use vstd::prelude::*;

verus! {

/// Method used to calibrate model confidence.
#[derive(Debug, Clone, Copy, PartialEq, Eq, Structural)]
pub enum CalibrationMethod {
    /// Platt scaling: fits a sigmoid to the scores.
    PlattScaling,
    /// Isotonic regression: a non-parametric monotonic fit.
    IsotonicRegression,
    /// Temperature scaling: a single scaling parameter.
    TemperatureScaling,
    /// No calibration applied.
    Uncalibrated,
}

/// How uncertain a prediction is.
#[derive(Debug, Clone, Copy, PartialEq, Eq, Structural)]
pub enum UncertaintyLevel {
    /// High confidence in the prediction.
    VeryLow,
    /// Reasonable confidence.
    Low,
    /// Proceed with caution.
    Moderate,
    /// Significant doubt.
    High,
    /// The prediction is unreliable.
    VeryHigh,
}

/// The display name of each level.
pub open spec fn level_name(l: UncertaintyLevel) -> Seq<char> {
    match l {
        UncertaintyLevel::VeryLow => "Very Low"@,
        UncertaintyLevel::Low => "Low"@,
        UncertaintyLevel::Moderate => "Moderate"@,
        UncertaintyLevel::High => "High"@,
        UncertaintyLevel::VeryHigh => "Very High"@,
    }
}

/// The display color of each level.
pub open spec fn level_color(l: UncertaintyLevel) -> Seq<char> {
    match l {
        UncertaintyLevel::VeryLow => "#00cc88"@,
        UncertaintyLevel::Low => "#00ccff"@,
        UncertaintyLevel::Moderate => "#ffcc00"@,
        UncertaintyLevel::High => "#ff8800"@,
        UncertaintyLevel::VeryHigh => "#ff4444"@,
    }
}

impl UncertaintyLevel {
    pub fn as_str(&self) -> (r: &'static str)
        ensures
            r@ == level_name(*self),
    {
        match self {
            UncertaintyLevel::VeryLow => "Very Low",
            UncertaintyLevel::Low => "Low",
            UncertaintyLevel::Moderate => "Moderate",
            UncertaintyLevel::High => "High",
            UncertaintyLevel::VeryHigh => "Very High",
        }
    }

    pub fn color(&self) -> (r: &'static str)
        ensures
            r@ == level_color(*self),
    {
        match self {
            UncertaintyLevel::VeryLow => "#00cc88",
            UncertaintyLevel::Low => "#00ccff",
            UncertaintyLevel::Moderate => "#ffcc00",
            UncertaintyLevel::High => "#ff8800",
            UncertaintyLevel::VeryHigh => "#ff4444",
        }
    }
}

/// The kind of an uncertainty source.
#[derive(Debug, Clone, Copy, PartialEq, Eq, Structural)]
pub enum UncertaintyType {
    /// Model uncertainty, reducible with more data.
    Epistemic,
    /// Irreducible noise in the data.
    Aleatoric,
}

} // verus!
