use hydrocomplete_dag::chart::{chart_for, ChartKind};
use hydrocomplete_dag::nodes::{Category, Decimal, NodeKind};

#[test]
fn config_fields_populated_for_all_kinds() {
    // Every node kind except Outfall must have at least one config field.
    for kind in NodeKind::all() {
        let def = kind.def();
        if kind == NodeKind::Outfall {
            assert!(def.config_fields.is_empty(), "Outfall should have no config fields");
        } else {
            assert!(
                !def.config_fields.is_empty(),
                "NodeKind {:?} has no config fields defined",
                kind
            );
        }
    }
}

#[test]
fn all_select_fields_have_options() {
    for kind in NodeKind::all() {
        for f in &kind.def().config_fields {
            if f.field_type == "select" {
                assert!(
                    !f.options.is_empty(),
                    "NodeKind {:?} field '{}' is 'select' but has no options",
                    kind, f.key
                );
            }
        }
    }
}

#[test]
fn palette_json_is_valid_json_with_all_kinds() {
    // The palette description built by the same calls the editor makes.
    let items: Vec<serde_json::Value> = NodeKind::all().iter().map(|&kind| {
        let def = kind.def();
        let fields: Vec<serde_json::Value> = def.config_fields.iter().map(|f| {
            let mut m = serde_json::Map::new();
            m.insert("key".to_string(), serde_json::Value::String(f.key.to_string()));
            m.insert("field_type".to_string(), serde_json::Value::String(f.field_type.to_string()));
            serde_json::Value::Object(m)
        }).collect();
        let mut m = serde_json::Map::new();
        m.insert("kind".to_string(), serde_json::Value::String(format!("{:?}", kind)));
        m.insert("n_fields".to_string(), serde_json::Value::from(fields.len()));
        serde_json::Value::Object(m)
    }).collect();
    assert_eq!(items.len(), NodeKind::all().len());
    // Every item serializes cleanly
    assert!(serde_json::to_string(&items).is_ok());
}

#[test]
fn all_lists_twenty_distinct_kinds() {
    let all = NodeKind::all();
    assert_eq!(all.len(), 20);
    for (i, a) in all.iter().enumerate() {
        for b in &all[i + 1..] {
            assert_ne!(a, b);
        }
    }
    assert_eq!(all[0], NodeKind::Catchment);
    assert_eq!(all[19], NodeKind::Outfall);
}

#[test]
fn category_colours_and_names() {
    assert_eq!(Category::Hydrology.header_fill(), "#1976d2");
    assert_eq!(Category::Hydraulics.body_fill(), "#fff3e0");
    assert_eq!(Category::WaterQuality.border(), "#1b5e20");
    assert_eq!(Category::WaterQuality.name(), "Water Quality");
    assert_eq!(Category::Sink.header_fill(), "#546e7a");
}

#[test]
fn catchment_entry() {
    let d = NodeKind::Catchment.def();
    assert_eq!(d.label, "Catchment");
    assert!(d.category == Category::Hydrology);
    assert_eq!(d.inputs.len(), 0);
    assert_eq!(d.outputs.len(), 1);
    assert_eq!(d.outputs[0].label, "Site data");
    assert_eq!(d.config_fields.len(), 3);
    assert_eq!(d.config_fields[0].key, "area_acres");
    assert_eq!(d.config_fields[0].default_num, Decimal { units: 50, scale: 1 });
    assert_eq!(d.config_fields[2].field_type, "select");
    assert_eq!(d.config_fields[2].default_str, "residential-medium");
    assert_eq!(d.config_fields[2].options.len(), 10);
}

#[test]
fn manning_pipe_defaults_keep_their_digits() {
    let d = NodeKind::ManningPipe.def();
    assert_eq!(d.config_fields[1].key, "slope");
    assert_eq!(d.config_fields[1].default_num, Decimal { units: 5, scale: 3 });
    assert_eq!(d.config_fields[2].default_num, Decimal { units: 13, scale: 3 });
    assert_eq!(d.outputs.len(), 2);
}

#[test]
fn outfall_is_a_sink_without_outputs() {
    let d = NodeKind::Outfall.def();
    assert!(d.category == Category::Sink);
    assert_eq!(d.inputs.len(), 1);
    assert!(d.outputs.is_empty());
}

#[test]
fn charts_by_kind() {
    assert_eq!(chart_for(NodeKind::DetentionPond), ChartKind::Hydrograph);
    assert_eq!(chart_for(NodeKind::PondChain), ChartKind::Hydrograph);
    assert_eq!(chart_for(NodeKind::ContinuousSim), ChartKind::MonthlyBars);
    assert_eq!(chart_for(NodeKind::TreatmentBmp), ChartKind::PollutantBars);
    assert_eq!(chart_for(NodeKind::RusleErosion), ChartKind::ErosionGauge);
    assert_eq!(chart_for(NodeKind::ManningPipe), ChartKind::CapacityGauge);
    assert_eq!(chart_for(NodeKind::LossMethod), ChartKind::RunoffSummary);
    assert_eq!(chart_for(NodeKind::WaterQualityVolume), ChartKind::WqvSummary);
    assert_eq!(chart_for(NodeKind::RationalMethod), ChartKind::RationalSummary);
    assert_eq!(chart_for(NodeKind::Catchment), ChartKind::Placeholder);
}

#[test]
fn schema_exposes_fields_the_engine_reads() {
    let labels = |k: NodeKind| -> Vec<&'static str> { k.def().config_fields.iter().map(|f| f.label).collect() };
    let pond = labels(NodeKind::PondChain);
    assert!(pond.contains(&"Tc"));
    assert!(pond.contains(&"Ponds in series"));
    assert!(labels(NodeKind::GvfProfile).contains(&"Reach length"));
    let train = NodeKind::TreatmentTrain.def();
    let chain = train.config_fields.iter().find(|f| f.key == "bmp_chain").unwrap();
    assert_eq!(chain.label, "BMP chain");
    assert_eq!(chain.field_type, "text");
    assert!(chain.options.is_empty());
}
