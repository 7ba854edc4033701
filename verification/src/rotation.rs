//! Sector rotation patterns, flow directions and market trends, with their
//! display labels.
use crate::text::str_equal;
use vstd::prelude::*;

verus! {

/// Type of rotation pattern.
#[derive(Debug, Clone, Copy, PartialEq, Eq, Structural)]
pub enum RotationType {
    /// Growth to Value rotation.
    GrowthToValue,
    /// Value to Growth rotation.
    ValueToGrowth,
    /// Cyclical to Defensive rotation (risk-off).
    CyclicalToDefensive,
    /// Defensive to Cyclical rotation (risk-on).
    DefensiveToCyclical,
    /// Large Cap to Small Cap.
    LargeToSmall,
    /// Small Cap to Large Cap.
    SmallToLarge,
    /// US to International.
    DomesticToInternational,
    /// International to US.
    InternationalToDomestic,
    /// No clear rotation.
    NoRotation,
}

/// The short label of each rotation.
pub open spec fn rotation_label(r: RotationType) -> Seq<char> {
    match r {
        RotationType::GrowthToValue => "Growth → Value"@,
        RotationType::ValueToGrowth => "Value → Growth"@,
        RotationType::CyclicalToDefensive => "Risk-Off (Cyclical → Defensive)"@,
        RotationType::DefensiveToCyclical => "Risk-On (Defensive → Cyclical)"@,
        RotationType::LargeToSmall => "Large Cap → Small Cap"@,
        RotationType::SmallToLarge => "Small Cap → Large Cap"@,
        RotationType::DomesticToInternational => "US → International"@,
        RotationType::InternationalToDomestic => "International → US"@,
        RotationType::NoRotation => "No Clear Rotation"@,
    }
}

/// The one-sentence description of each rotation.
pub open spec fn rotation_description(r: RotationType) -> Seq<char> {
    match r {
        RotationType::GrowthToValue => "Money flowing from high-growth tech stocks to value/dividend stocks"@,
        RotationType::ValueToGrowth => "Money flowing from value/dividend stocks to high-growth tech"@,
        RotationType::CyclicalToDefensive => "Risk-off move: investors seeking safety in utilities, staples, healthcare"@,
        RotationType::DefensiveToCyclical => "Risk-on move: investors seeking growth in financials, industrials, tech"@,
        RotationType::LargeToSmall => "Rotation from mega-caps to small/mid-cap stocks"@,
        RotationType::SmallToLarge => "Flight to safety in large, established companies"@,
        RotationType::DomesticToInternational => "Capital flowing from US markets to international"@,
        RotationType::InternationalToDomestic => "Capital flowing back to US markets"@,
        RotationType::NoRotation => "No significant rotation pattern detected"@,
    }
}

/// Rotations toward risk: value to growth, defensive to cyclical, large to
/// small caps.
pub open spec fn risk_on(r: RotationType) -> bool {
    r == RotationType::ValueToGrowth || r == RotationType::DefensiveToCyclical || r
        == RotationType::LargeToSmall
}

/// Rotations away from risk: growth to value, cyclical to defensive, small
/// to large caps.
pub open spec fn risk_off(r: RotationType) -> bool {
    r == RotationType::GrowthToValue || r == RotationType::CyclicalToDefensive || r
        == RotationType::SmallToLarge
}

impl RotationType {
    pub fn as_str(&self) -> (r: &'static str)
        ensures
            r@ == rotation_label(*self),
    {
        match self {
            RotationType::GrowthToValue => "Growth → Value",
            RotationType::ValueToGrowth => "Value → Growth",
            RotationType::CyclicalToDefensive => "Risk-Off (Cyclical → Defensive)",
            RotationType::DefensiveToCyclical => "Risk-On (Defensive → Cyclical)",
            RotationType::LargeToSmall => "Large Cap → Small Cap",
            RotationType::SmallToLarge => "Small Cap → Large Cap",
            RotationType::DomesticToInternational => "US → International",
            RotationType::InternationalToDomestic => "International → US",
            RotationType::NoRotation => "No Clear Rotation",
        }
    }

    pub fn description(&self) -> (r: &'static str)
        ensures
            r@ == rotation_description(*self),
    {
        match self {
            RotationType::GrowthToValue => {
                "Money flowing from high-growth tech stocks to value/dividend stocks"
            },
            RotationType::ValueToGrowth => {
                "Money flowing from value/dividend stocks to high-growth tech"
            },
            RotationType::CyclicalToDefensive => {
                "Risk-off move: investors seeking safety in utilities, staples, healthcare"
            },
            RotationType::DefensiveToCyclical => {
                "Risk-on move: investors seeking growth in financials, industrials, tech"
            },
            RotationType::LargeToSmall => "Rotation from mega-caps to small/mid-cap stocks",
            RotationType::SmallToLarge => "Flight to safety in large, established companies",
            RotationType::DomesticToInternational => {
                "Capital flowing from US markets to international"
            },
            RotationType::InternationalToDomestic => "Capital flowing back to US markets",
            RotationType::NoRotation => "No significant rotation pattern detected",
        }
    }

    pub fn is_risk_on(&self) -> (r: bool)
        ensures
            r == risk_on(*self),
    {
        match self {
            RotationType::ValueToGrowth | RotationType::DefensiveToCyclical
            | RotationType::LargeToSmall => true,
            _ => false,
        }
    }

    pub fn is_risk_off(&self) -> (r: bool)
        ensures
            r == risk_off(*self),
    {
        match self {
            RotationType::GrowthToValue | RotationType::CyclicalToDefensive
            | RotationType::SmallToLarge => true,
            _ => false,
        }
    }
}

/// No rotation is both toward and away from risk.
pub proof fn law_risk_on_and_off_exclusive(r: RotationType)
    ensures
        !(risk_on(r) && risk_off(r)),
{
}

/// Direction of money flow for a sector.
#[derive(Debug, Clone, Copy, PartialEq, Eq, Structural)]
pub enum FlowDirection {
    Inflow,
    Outflow,
    Neutral,
}

/// Overall market trend.
#[derive(Debug, Clone, Copy, PartialEq, Eq, Structural)]
pub enum MarketTrend {
    RiskOn,
    RiskOff,
    SectorRotation,
    Mixed,
}

/// The display color of each standard sector, gray for any other name.
pub open spec fn sector_color_of(sector: Seq<char>) -> Seq<char> {
    if sector == "Technology"@ {
        "#00ccff"@
    } else if sector == "Financials"@ {
        "#00cc88"@
    } else if sector == "Healthcare"@ {
        "#ff6699"@
    } else if sector == "Energy"@ {
        "#ff9933"@
    } else if sector == "Consumer Discretionary"@ {
        "#9966ff"@
    } else if sector == "Consumer Staples"@ {
        "#66cc99"@
    } else if sector == "Industrials"@ {
        "#cc9933"@
    } else if sector == "Materials"@ {
        "#999999"@
    } else if sector == "Utilities"@ {
        "#ffcc00"@
    } else if sector == "Real Estate"@ {
        "#cc6666"@
    } else if sector == "Communication Services"@ {
        "#6699ff"@
    } else {
        "#888888"@
    }
}

/// The display color of a sector.
pub fn sector_color(sector: &str) -> (r: &'static str)
    ensures
        r@ == sector_color_of(sector@),
{
    if str_equal(sector, "Technology") {
        "#00ccff"
    } else if str_equal(sector, "Financials") {
        "#00cc88"
    } else if str_equal(sector, "Healthcare") {
        "#ff6699"
    } else if str_equal(sector, "Energy") {
        "#ff9933"
    } else if str_equal(sector, "Consumer Discretionary") {
        "#9966ff"
    } else if str_equal(sector, "Consumer Staples") {
        "#66cc99"
    } else if str_equal(sector, "Industrials") {
        "#cc9933"
    } else if str_equal(sector, "Materials") {
        "#999999"
    } else if str_equal(sector, "Utilities") {
        "#ffcc00"
    } else if str_equal(sector, "Real Estate") {
        "#cc6666"
    } else if str_equal(sector, "Communication Services") {
        "#6699ff"
    } else {
        "#888888"
    }
}

} // verus!
