use backtest_core::rotation::{sector_color, FlowDirection, MarketTrend, RotationType};
use backtest_core::uncertainty::{CalibrationMethod, UncertaintyLevel, UncertaintyType};

#[test]
fn test_rotation_type_properties() {
    assert!(RotationType::ValueToGrowth.is_risk_on());
    assert!(RotationType::CyclicalToDefensive.is_risk_off());
    assert!(!RotationType::NoRotation.is_risk_on());
}

#[test]
fn rotation_labels() {
    assert_eq!(RotationType::GrowthToValue.as_str(), "Growth → Value");
    assert_eq!(
        RotationType::CyclicalToDefensive.as_str(),
        "Risk-Off (Cyclical → Defensive)"
    );
    assert_eq!(RotationType::NoRotation.as_str(), "No Clear Rotation");
    assert_eq!(
        RotationType::SmallToLarge.description(),
        "Flight to safety in large, established companies"
    );
    assert_eq!(
        RotationType::NoRotation.description(),
        "No significant rotation pattern detected"
    );
}

#[test]
fn rotation_risk_sides_are_exclusive() {
    let all = [
        RotationType::GrowthToValue,
        RotationType::ValueToGrowth,
        RotationType::CyclicalToDefensive,
        RotationType::DefensiveToCyclical,
        RotationType::LargeToSmall,
        RotationType::SmallToLarge,
        RotationType::DomesticToInternational,
        RotationType::InternationalToDomestic,
        RotationType::NoRotation,
    ];
    let mut on = 0;
    let mut off = 0;
    for r in all.iter() {
        assert!(!(r.is_risk_on() && r.is_risk_off()));
        if r.is_risk_on() {
            on += 1;
        }
        if r.is_risk_off() {
            off += 1;
        }
    }
    assert_eq!(on, 3);
    assert_eq!(off, 3);
    assert!(!RotationType::DomesticToInternational.is_risk_on());
    assert!(!RotationType::DomesticToInternational.is_risk_off());
}

#[test]
fn sector_colors() {
    assert_eq!(sector_color("Technology"), "#00ccff");
    assert_eq!(sector_color("Real Estate"), "#cc6666");
    assert_eq!(sector_color("Communication Services"), "#6699ff");
    assert_eq!(sector_color("technology"), "#888888");
    assert_eq!(sector_color(""), "#888888");
}

#[test]
fn uncertainty_labels() {
    assert_eq!(UncertaintyLevel::VeryLow.as_str(), "Very Low");
    assert_eq!(UncertaintyLevel::Moderate.as_str(), "Moderate");
    assert_eq!(UncertaintyLevel::VeryHigh.as_str(), "Very High");
    assert_eq!(UncertaintyLevel::VeryLow.color(), "#00cc88");
    assert_eq!(UncertaintyLevel::High.color(), "#ff8800");
    assert_eq!(UncertaintyLevel::VeryHigh.color(), "#ff4444");
}

#[test]
fn enums_compare() {
    assert_eq!(FlowDirection::Inflow, FlowDirection::Inflow);
    assert_ne!(FlowDirection::Inflow, FlowDirection::Outflow);
    assert_ne!(MarketTrend::RiskOn, MarketTrend::Mixed);
    assert_ne!(CalibrationMethod::PlattScaling, CalibrationMethod::Uncalibrated);
    assert_ne!(UncertaintyType::Epistemic, UncertaintyType::Aleatoric);
}

#[test]
fn test_standard_sectors() {
    let etfs = backtest_core::sector_etfs::standard_sectors();
    assert_eq!(etfs.len(), 11);
    assert!(etfs.iter().any(|e| e.symbol == "XLK"));
}

#[test]
fn sector_table_and_lookup() {
    let etfs = backtest_core::sector_etfs::standard_sectors();
    assert_eq!(etfs[0].name, "Technology Select Sector");
    assert_eq!(etfs[9].symbol, "XLRE");
    assert_eq!(etfs[10].sector, "Communication Services");
    assert_eq!(
        backtest_core::sector_etfs::sector_of(&etfs, "XLU"),
        Some("Utilities".to_string())
    );
    assert_eq!(backtest_core::sector_etfs::sector_of(&etfs, "SPY"), None);
}
