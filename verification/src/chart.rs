//! Which result chart a node kind gets.

use vstd::prelude::*;
use crate::nodes::NodeKind;

verus! {

/// The chart drawn for a computed node.
#[derive(Clone, Copy, PartialEq, Eq, Structural, Debug)]
pub enum ChartKind {
    /// Inflow and outflow hydrographs.
    Hydrograph,
    /// Monthly rainfall and runoff bars.
    MonthlyBars,
    /// Pollutant load bars.
    PollutantBars,
    /// Soil-loss gauge.
    ErosionGauge,
    /// Pipe capacity gauge.
    CapacityGauge,
    /// Runoff summary panel.
    RunoffSummary,
    /// Water-quality volume summary panel.
    WqvSummary,
    /// Rational-method summary panel.
    RationalSummary,
    /// No chart for this kind.
    Placeholder,
}

/// The chart for nodes of `kind`.
pub fn chart_for(kind: NodeKind) -> (c: ChartKind)
    ensures
        c == match kind {
            NodeKind::DetentionPond | NodeKind::PondChain => ChartKind::Hydrograph,
            NodeKind::ContinuousSim => ChartKind::MonthlyBars,
            NodeKind::TreatmentTrain | NodeKind::TreatmentBmp => ChartKind::PollutantBars,
            NodeKind::RusleErosion => ChartKind::ErosionGauge,
            NodeKind::ManningPipe => ChartKind::CapacityGauge,
            NodeKind::ScsRunoff | NodeKind::LossMethod => ChartKind::RunoffSummary,
            NodeKind::WaterQualityVolume => ChartKind::WqvSummary,
            NodeKind::RationalMethod => ChartKind::RationalSummary,
            _ => ChartKind::Placeholder,
        },
{
    match kind {
        NodeKind::DetentionPond | NodeKind::PondChain => ChartKind::Hydrograph,
        NodeKind::ContinuousSim => ChartKind::MonthlyBars,
        NodeKind::TreatmentTrain | NodeKind::TreatmentBmp => ChartKind::PollutantBars,
        NodeKind::RusleErosion => ChartKind::ErosionGauge,
        NodeKind::ManningPipe => ChartKind::CapacityGauge,
        NodeKind::ScsRunoff | NodeKind::LossMethod => ChartKind::RunoffSummary,
        NodeKind::WaterQualityVolume => ChartKind::WqvSummary,
        NodeKind::RationalMethod => ChartKind::RationalSummary,
        _ => ChartKind::Placeholder,
    }
}

} // verus!
