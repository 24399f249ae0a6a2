//! The node catalog: kinds of node, their palette categories, ports and
//! configuration fields.

use vstd::prelude::*;

verus! {

/// The kinds of node a model can hold, grouped by palette category.
#[derive(Clone, Copy, PartialEq, Eq, Structural, Hash, Debug)]
pub enum NodeKind {
    Catchment,
    RainfallEvent,
    RationalMethod,
    ScsRunoff,
    TimeOfConcentration,
    UnitHydrograph,
    LossMethod,
    ContinuousSim,
    ManningPipe,
    ManningChannel,
    GvfProfile,
    DetentionPond,
    PondChain,
    WaterQualityVolume,
    BmpSizing,
    TreatmentBmp,
    TreatmentTrain,
    SedimentBasin,
    RusleErosion,
    Outfall,
}

/// Palette category of a node kind; it decides the colours a node is drawn with.
#[derive(Clone, Copy, PartialEq, Eq, Structural, Debug)]
pub enum Category {
    Hydrology,
    Hydraulics,
    WaterQuality,
    Sink,
}

impl Category {
    pub fn header_fill(self) -> (r: &'static str)
        ensures
            r == match self {
                Category::Hydrology => "#1976d2",
                Category::Hydraulics => "#e65100",
                Category::WaterQuality => "#2e7d32",
                Category::Sink => "#546e7a",
            },
    {
        match self {
            Category::Hydrology => "#1976d2",
            Category::Hydraulics => "#e65100",
            Category::WaterQuality => "#2e7d32",
            Category::Sink => "#546e7a",
        }
    }

    pub fn body_fill(self) -> (r: &'static str)
        ensures
            r == match self {
                Category::Hydrology => "#e3f2fd",
                Category::Hydraulics => "#fff3e0",
                Category::WaterQuality => "#e8f5e9",
                Category::Sink => "#eceff1",
            },
    {
        match self {
            Category::Hydrology => "#e3f2fd",
            Category::Hydraulics => "#fff3e0",
            Category::WaterQuality => "#e8f5e9",
            Category::Sink => "#eceff1",
        }
    }

    pub fn border(self) -> (r: &'static str)
        ensures
            r == match self {
                Category::Hydrology => "#1565c0",
                Category::Hydraulics => "#bf360c",
                Category::WaterQuality => "#1b5e20",
                Category::Sink => "#455a64",
            },
    {
        match self {
            Category::Hydrology => "#1565c0",
            Category::Hydraulics => "#bf360c",
            Category::WaterQuality => "#1b5e20",
            Category::Sink => "#455a64",
        }
    }

    pub fn name(self) -> (r: &'static str)
        ensures
            r == match self {
                Category::Hydrology => "Hydrology",
                Category::Hydraulics => "Hydraulics",
                Category::WaterQuality => "Water Quality",
                Category::Sink => "Sink",
            },
    {
        match self {
            Category::Hydrology => "Hydrology",
            Category::Hydraulics => "Hydraulics",
            Category::WaterQuality => "Water Quality",
            Category::Sink => "Sink",
        }
    }
}

/// A decimal number written as `units` times ten to the power `-scale`:
/// 0.013 is 13 with scale 3.
#[derive(Clone, Copy, PartialEq, Eq, Structural, Debug)]
pub struct Decimal {
    pub units: i64,
    pub scale: u32,
}

pub struct PortDef {
    pub label: &'static str,
}

/// A single user-editable parameter on a node.
pub struct ConfigFieldDef {
    pub key: &'static str,
    pub label: &'static str,
    /// "number", "text" or "select"
    pub field_type: &'static str,
    pub default_num: Decimal,
    pub default_str: &'static str,
    pub unit: &'static str,
    /// (value, display label) pairs; non-empty only for "select"
    pub options: Vec<(&'static str, &'static str)>,
}

pub struct NodeDef {
    pub label: &'static str,
    pub category: Category,
    pub inputs: Vec<PortDef>,
    pub outputs: Vec<PortDef>,
    pub description: &'static str,
    pub config_fields: Vec<ConfigFieldDef>,
}

#[verifier::ext_equal]
pub struct ConfigFieldView {
    pub key: &'static str,
    pub label: &'static str,
    pub field_type: &'static str,
    pub default_num: Decimal,
    pub default_str: &'static str,
    pub unit: &'static str,
    pub options: Seq<(&'static str, &'static str)>,
}

#[verifier::ext_equal]
pub struct NodeDefView {
    pub label: &'static str,
    pub category: Category,
    /// Labels of the input ports, in port order.
    pub inputs: Seq<&'static str>,
    /// Labels of the output ports, in port order.
    pub outputs: Seq<&'static str>,
    pub description: &'static str,
    pub config_fields: Seq<ConfigFieldView>,
}

impl View for ConfigFieldDef {
    type V = ConfigFieldView;

    open spec fn view(&self) -> ConfigFieldView {
        ConfigFieldView {
            key: self.key,
            label: self.label,
            field_type: self.field_type,
            default_num: self.default_num,
            default_str: self.default_str,
            unit: self.unit,
            options: self.options@,
        }
    }
}

impl View for NodeDef {
    type V = NodeDefView;

    open spec fn view(&self) -> NodeDefView {
        NodeDefView {
            label: self.label,
            category: self.category,
            inputs: self.inputs@.map_values(|p: PortDef| p.label),
            outputs: self.outputs@.map_values(|p: PortDef| p.label),
            description: self.description,
            config_fields: self.config_fields@.map_values(|f: ConfigFieldDef| f@),
        }
    }
}

pub open spec fn number_field_view(key: &'static str, label: &'static str, default_num: Decimal, unit: &'static str) -> ConfigFieldView {
    ConfigFieldView { key, label, field_type: "number", default_num, default_str: "", unit, options: Seq::empty() }
}

pub open spec fn select_field_view(
    key: &'static str,
    label: &'static str,
    default_str: &'static str,
    options: Seq<(&'static str, &'static str)>,
) -> ConfigFieldView {
    ConfigFieldView {
        key,
        label,
        field_type: "select",
        default_num: Decimal { units: 0, scale: 0 },
        default_str,
        unit: "",
        options,
    }
}

/// A free-text field, such as a comma-separated list.
pub open spec fn text_field_view(key: &'static str, label: &'static str, default_str: &'static str) -> ConfigFieldView {
    ConfigFieldView {
        key,
        label,
        field_type: "text",
        default_num: Decimal { units: 0, scale: 0 },
        default_str,
        unit: "",
        options: Seq::empty(),
    }
}

fn text_field(key: &'static str, label: &'static str, default_str: &'static str) -> (f: ConfigFieldDef)
    ensures
        f@ == text_field_view(key, label, default_str),
{
    let f = ConfigFieldDef {
        key,
        label,
        field_type: "text",
        default_num: Decimal { units: 0, scale: 0 },
        default_str,
        unit: "",
        options: Vec::new(),
    };
    assert(f@ =~~= text_field_view(key, label, default_str));
    f
}

fn number_field(key: &'static str, label: &'static str, default_num: Decimal, unit: &'static str) -> (f: ConfigFieldDef)
    ensures
        f@ == number_field_view(key, label, default_num, unit),
{
    let f = ConfigFieldDef { key, label, field_type: "number", default_num, default_str: "", unit, options: Vec::new() };
    assert(f@ =~~= number_field_view(key, label, default_num, unit));
    f
}

fn select_field(
    key: &'static str,
    label: &'static str,
    default_str: &'static str,
    options: Vec<(&'static str, &'static str)>,
) -> (f: ConfigFieldDef)
    ensures
        f@ == select_field_view(key, label, default_str, options@),
{
    ConfigFieldDef {
        key,
        label,
        field_type: "select",
        default_num: Decimal { units: 0, scale: 0 },
        default_str,
        unit: "",
        options,
    }
}

/// The choices of the `land_use` select fields.
pub open spec fn land_use_options_view() -> Seq<(&'static str, &'static str)> {
    seq![
        ("residential-low", "Res. Low Density"),
        ("residential-medium", "Res. Medium Density"),
        ("residential-high", "Res. High Density"),
        ("commercial", "Commercial"),
        ("industrial", "Industrial"),
        ("roadway", "Roadway"),
        ("parking", "Parking Lot"),
        ("open-space", "Open Space / Park"),
        ("construction", "Construction Site"),
        ("agricultural", "Agricultural"),
    ]
}

fn land_use_options() -> (r: Vec<(&'static str, &'static str)>)
    ensures
        r@ == land_use_options_view(),
{
    let r = vec![
        ("residential-low", "Res. Low Density"),
        ("residential-medium", "Res. Medium Density"),
        ("residential-high", "Res. High Density"),
        ("commercial", "Commercial"),
        ("industrial", "Industrial"),
        ("roadway", "Roadway"),
        ("parking", "Parking Lot"),
        ("open-space", "Open Space / Park"),
        ("construction", "Construction Site"),
        ("agricultural", "Agricultural"),
    ];
    assert(r@ =~= land_use_options_view());
    r
}

/// The choices of the `bmp_type` select fields.
pub open spec fn bmp_type_options_view() -> Seq<(&'static str, &'static str)> {
    seq![
        ("bioretention", "Bioretention / Rain Garden"),
        ("wet-pond", "Wet Retention Pond"),
        ("constructed-wetland", "Constructed Wetland"),
        ("vegetated-swale", "Vegetated Swale"),
        ("sand-filter", "Sand Filter"),
        ("infiltration-trench", "Infiltration Trench"),
        ("permeable-pavement", "Permeable Pavement"),
        ("green-roof", "Green Roof"),
        ("cistern", "Cistern / RWH"),
    ]
}

fn bmp_type_options() -> (r: Vec<(&'static str, &'static str)>)
    ensures
        r@ == bmp_type_options_view(),
{
    let r = vec![
        ("bioretention", "Bioretention / Rain Garden"),
        ("wet-pond", "Wet Retention Pond"),
        ("constructed-wetland", "Constructed Wetland"),
        ("vegetated-swale", "Vegetated Swale"),
        ("sand-filter", "Sand Filter"),
        ("infiltration-trench", "Infiltration Trench"),
        ("permeable-pavement", "Permeable Pavement"),
        ("green-roof", "Green Roof"),
        ("cistern", "Cistern / RWH"),
    ];
    assert(r@ =~= bmp_type_options_view());
    r
}

/// The choices of the `loss_method` select fields.
pub open spec fn loss_method_options_view() -> Seq<(&'static str, &'static str)> {
    seq![
        ("curve_number", "SCS Curve Number"),
        ("green_ampt", "Green-Ampt"),
        ("horton", "Horton"),
        ("init_const", "Initial + Constant"),
        ("const_rate", "Constant Rate"),
    ]
}

fn loss_method_options() -> (r: Vec<(&'static str, &'static str)>)
    ensures
        r@ == loss_method_options_view(),
{
    let r = vec![
        ("curve_number", "SCS Curve Number"),
        ("green_ampt", "Green-Ampt"),
        ("horton", "Horton"),
        ("init_const", "Initial + Constant"),
        ("const_rate", "Constant Rate"),
    ];
    assert(r@ =~= loss_method_options_view());
    r
}

/// The choices of the `hsg` select fields.
pub open spec fn hsg_options_view() -> Seq<(&'static str, &'static str)> {
    seq![
        ("A", "A — Well drained (sand)"),
        ("B", "B — Moderately drained"),
        ("C", "C — Poorly drained"),
        ("D", "D — Very poorly drained"),
    ]
}

fn hsg_options() -> (r: Vec<(&'static str, &'static str)>)
    ensures
        r@ == hsg_options_view(),
{
    let r = vec![
        ("A", "A — Well drained (sand)"),
        ("B", "B — Moderately drained"),
        ("C", "C — Poorly drained"),
        ("D", "D — Very poorly drained"),
    ];
    assert(r@ =~= hsg_options_view());
    r
}

/// The choices of the `location` select fields.
pub open spec fn location_options_view() -> Seq<(&'static str, &'static str)> {
    seq![
        ("charlotte-nc", "Charlotte NC"),
        ("raleigh-nc", "Raleigh NC"),
        ("atlanta-ga", "Atlanta GA"),
        ("new-york-ny", "New York NY"),
        ("los-angeles-ca", "Los Angeles CA"),
        ("chicago-il", "Chicago IL"),
        ("dallas-tx", "Dallas TX"),
        ("houston-tx", "Houston TX"),
        ("washington-dc", "Washington DC"),
        ("miami-fl", "Miami FL"),
        ("philadelphia-pa", "Philadelphia PA"),
        ("phoenix-az", "Phoenix AZ"),
        ("boston-ma", "Boston MA"),
        ("detroit-mi", "Detroit MI"),
        ("seattle-wa", "Seattle WA"),
        ("minneapolis-mn", "Minneapolis MN"),
        ("denver-co", "Denver CO"),
    ]
}

fn location_options() -> (r: Vec<(&'static str, &'static str)>)
    ensures
        r@ == location_options_view(),
{
    let r = vec![
        ("charlotte-nc", "Charlotte NC"),
        ("raleigh-nc", "Raleigh NC"),
        ("atlanta-ga", "Atlanta GA"),
        ("new-york-ny", "New York NY"),
        ("los-angeles-ca", "Los Angeles CA"),
        ("chicago-il", "Chicago IL"),
        ("dallas-tx", "Dallas TX"),
        ("houston-tx", "Houston TX"),
        ("washington-dc", "Washington DC"),
        ("miami-fl", "Miami FL"),
        ("philadelphia-pa", "Philadelphia PA"),
        ("phoenix-az", "Phoenix AZ"),
        ("boston-ma", "Boston MA"),
        ("detroit-mi", "Detroit MI"),
        ("seattle-wa", "Seattle WA"),
        ("minneapolis-mn", "Minneapolis MN"),
        ("denver-co", "Denver CO"),
    ];
    assert(r@ =~= location_options_view());
    r
}

/// What `NodeKind::def` returns for each kind, as a mathematical value.
pub open spec fn catalog(kind: NodeKind) -> NodeDefView {
    match kind {
        NodeKind::Catchment => NodeDefView {
            label: "Catchment",
            category: Category::Hydrology,
            inputs: seq![],
            outputs: seq!["Site data"],
            description: "Drainage area + CN",
            config_fields: seq![
                number_field_view("area_acres", "Area", Decimal { units: 50, scale: 1 }, "ac"),
                number_field_view("curve_number", "Curve Number", Decimal { units: 750, scale: 1 }, ""),
                select_field_view("land_use", "Land Use", "residential-medium", land_use_options_view()),
            ],
        },
        NodeKind::RainfallEvent => NodeDefView {
            label: "Rainfall Event",
            category: Category::Hydrology,
            inputs: seq![],
            outputs: seq!["P (in)"],
            description: "Storm depth + duration",
            config_fields: seq![
                number_field_view("depth_in", "Rainfall depth", Decimal { units: 35, scale: 1 }, "in"),
                number_field_view("duration_hr", "Duration", Decimal { units: 240, scale: 1 }, "hr"),
            ],
        },
        NodeKind::RationalMethod => NodeDefView {
            label: "Rational Method",
            category: Category::Hydrology,
            inputs: seq!["Catchment", "IDF curve"],
            outputs: seq!["Q (cfs)"],
            description: "Q = C·i·A",
            config_fields: seq![
                number_field_view("area_acres", "Area", Decimal { units: 50, scale: 1 }, "ac"),
                number_field_view("runoff_c", "Runoff C", Decimal { units: 70, scale: 2 }, ""),
                number_field_view("intensity_in_hr", "Intensity", Decimal { units: 25, scale: 1 }, "in/hr"),
            ],
        },
        NodeKind::ScsRunoff => NodeDefView {
            label: "SCS CN Runoff",
            category: Category::Hydrology,
            inputs: seq!["Catchment", "Rainfall"],
            outputs: seq!["Q (in)"],
            description: "Curve-number runoff depth",
            config_fields: seq![
                number_field_view("curve_number", "Curve Number", Decimal { units: 750, scale: 1 }, ""),
                number_field_view("rainfall_in", "Rainfall", Decimal { units: 35, scale: 1 }, "in"),
                number_field_view("area_acres", "Area", Decimal { units: 50, scale: 1 }, "ac"),
            ],
        },
        NodeKind::TimeOfConcentration => NodeDefView {
            label: "Time of Conc.",
            category: Category::Hydrology,
            inputs: seq!["Flow path"],
            outputs: seq!["Tc (min)"],
            description: "TR-55 segmented Tc",
            config_fields: seq![
                number_field_view("tc_min", "Tc (override)", Decimal { units: 200, scale: 1 }, "min"),
            ],
        },
        NodeKind::UnitHydrograph => NodeDefView {
            label: "Unit Hydrograph",
            category: Category::Hydrology,
            inputs: seq!["Q runoff", "Tc (min)"],
            outputs: seq!["Peak Q (cfs)"],
            description: "SCS triangular UH",
            config_fields: seq![
                number_field_view("area_acres", "Area", Decimal { units: 50, scale: 1 }, "ac"),
                number_field_view("tc_min", "Tc", Decimal { units: 200, scale: 1 }, "min"),
            ],
        },
        NodeKind::LossMethod => NodeDefView {
            label: "Loss Method",
            category: Category::Hydrology,
            inputs: seq!["Rainfall"],
            outputs: seq!["Excess (in)"],
            description: "Green-Ampt / Horton / CN",
            config_fields: seq![
                select_field_view("method", "Method", "curve_number", loss_method_options_view()),
                number_field_view("curve_number", "Curve Number", Decimal { units: 750, scale: 1 }, ""),
                select_field_view("hsg", "Soil Group", "B", hsg_options_view()),
                number_field_view("rainfall_in", "Rainfall", Decimal { units: 35, scale: 1 }, "in"),
                number_field_view("duration_hr", "Duration", Decimal { units: 240, scale: 1 }, "hr"),
            ],
        },
        NodeKind::ContinuousSim => NodeDefView {
            label: "Continuous Sim",
            category: Category::Hydrology,
            inputs: seq!["Site"],
            outputs: seq!["Q (ac-in/yr)"],
            description: "Multi-year Hargreaves ET",
            config_fields: seq![
                select_field_view("location", "City", "charlotte-nc", location_options_view()),
                number_field_view("area_acres", "Area", Decimal { units: 50, scale: 1 }, "ac"),
                number_field_view("curve_number", "Curve Number", Decimal { units: 750, scale: 1 }, ""),
                select_field_view("land_use", "Land Use", "residential-medium", land_use_options_view()),
                number_field_view("years", "Years", Decimal { units: 30, scale: 1 }, "yr"),
            ],
        },
        NodeKind::ManningPipe => NodeDefView {
            label: "Manning Pipe",
            category: Category::Hydraulics,
            inputs: seq!["Q design (cfs)"],
            outputs: seq!["Q full (cfs)", "Depth (ft)"],
            description: "Circular pipe capacity",
            config_fields: seq![
                number_field_view("diameter_ft", "Diameter", Decimal { units: 15, scale: 1 }, "ft"),
                number_field_view("slope", "Slope", Decimal { units: 5, scale: 3 }, "ft/ft"),
                number_field_view("manning_n", "Manning n", Decimal { units: 13, scale: 3 }, ""),
                number_field_view("design_q_cfs", "Design Q", Decimal { units: 50, scale: 1 }, "cfs"),
            ],
        },
        NodeKind::ManningChannel => NodeDefView {
            label: "Manning Channel",
            category: Category::Hydraulics,
            inputs: seq!["Q (cfs)"],
            outputs: seq!["Depth (ft)", "V (fps)"],
            description: "Trapezoidal normal depth",
            config_fields: seq![
                number_field_view("bottom_width_ft", "Bottom width", Decimal { units: 40, scale: 1 }, "ft"),
                number_field_view("side_slope", "Side slope", Decimal { units: 30, scale: 1 }, "H:V"),
                number_field_view("slope", "Slope", Decimal { units: 1, scale: 2 }, "ft/ft"),
                number_field_view("manning_n", "Manning n", Decimal { units: 35, scale: 3 }, ""),
                number_field_view("design_q_cfs", "Design Q", Decimal { units: 50, scale: 1 }, "cfs"),
            ],
        },
        NodeKind::GvfProfile => NodeDefView {
            label: "GVF Profile",
            category: Category::Hydraulics,
            inputs: seq!["Q (cfs)", "Tailwater (ft)"],
            outputs: seq!["WSP depth (ft)"],
            description: "Standard Step GVF",
            config_fields: seq![
                number_field_view("design_q_cfs", "Design Q", Decimal { units: 50, scale: 1 }, "cfs"),
                number_field_view("bottom_width_ft", "Bottom width", Decimal { units: 40, scale: 1 }, "ft"),
                number_field_view("side_slope", "Side slope", Decimal { units: 30, scale: 1 }, "H:V"),
                number_field_view("slope", "Bed slope", Decimal { units: 1, scale: 2 }, "ft/ft"),
                number_field_view("manning_n", "Manning n", Decimal { units: 35, scale: 3 }, ""),
                number_field_view("tailwater_ft", "Tailwater", Decimal { units: 0, scale: 1 }, "ft"),
                number_field_view("reach_length_ft", "Reach length", Decimal { units: 5000, scale: 1 }, "ft"),
            ],
        },
        NodeKind::DetentionPond => NodeDefView {
            label: "Detention Pond",
            category: Category::Hydraulics,
            inputs: seq!["Inflow hydrograph"],
            outputs: seq!["Peak Q out (cfs)", "Storage (cf)"],
            description: "Modified Puls routing",
            config_fields: seq![
                number_field_view("area_acres", "Drainage area", Decimal { units: 50, scale: 1 }, "ac"),
                number_field_view("curve_number", "Curve Number", Decimal { units: 800, scale: 1 }, ""),
                number_field_view("rainfall_in", "Design storm", Decimal { units: 42, scale: 1 }, "in"),
                number_field_view("tc_min", "Tc", Decimal { units: 200, scale: 1 }, "min"),
                number_field_view("bottom_area_sf", "Pond bottom area", Decimal { units: 50000, scale: 1 }, "sf"),
                number_field_view("side_slope", "Side slope", Decimal { units: 30, scale: 1 }, "H:V"),
                number_field_view("max_depth_ft", "Max depth", Decimal { units: 60, scale: 1 }, "ft"),
                number_field_view("orifice_dia_in", "Orifice dia.", Decimal { units: 60, scale: 1 }, "in"),
                number_field_view("orifice_invert_ft", "Orifice invert", Decimal { units: 0, scale: 1 }, "ft"),
            ],
        },
        NodeKind::PondChain => NodeDefView {
            label: "Pond Chain",
            category: Category::Hydraulics,
            inputs: seq!["Inflow"],
            outputs: seq!["Peak Q out (cfs)"],
            description: "Series pond routing",
            config_fields: seq![
                number_field_view("area_acres", "Drainage area", Decimal { units: 50, scale: 1 }, "ac"),
                number_field_view("curve_number", "Curve Number", Decimal { units: 800, scale: 1 }, ""),
                number_field_view("rainfall_in", "Design storm", Decimal { units: 42, scale: 1 }, "in"),
                number_field_view("tc_min", "Tc", Decimal { units: 200, scale: 1 }, "min"),
                number_field_view("n_ponds", "Ponds in series", Decimal { units: 20, scale: 1 }, ""),
            ],
        },
        NodeKind::WaterQualityVolume => NodeDefView {
            label: "WQ Volume",
            category: Category::WaterQuality,
            inputs: seq!["Catchment", "Design storm"],
            outputs: seq!["WQV (cf)"],
            description: "WQV = Rv·P·A·3630",
            config_fields: seq![
                number_field_view("area_acres", "Area", Decimal { units: 50, scale: 1 }, "ac"),
                number_field_view("impervious_pct", "Impervious", Decimal { units: 500, scale: 1 }, "%"),
                number_field_view("design_storm_in", "Design storm", Decimal { units: 10, scale: 1 }, "in"),
            ],
        },
        NodeKind::BmpSizing => NodeDefView {
            label: "BMP Sizing",
            category: Category::WaterQuality,
            inputs: seq!["WQV (cf)"],
            outputs: seq!["Surface area (sf)"],
            description: "Area from treated volume",
            config_fields: seq![
                select_field_view("bmp_type", "BMP type", "bioretention", bmp_type_options_view()),
                number_field_view("area_acres", "Area", Decimal { units: 50, scale: 1 }, "ac"),
                number_field_view("impervious_pct", "Impervious", Decimal { units: 500, scale: 1 }, "%"),
                number_field_view("design_storm_in", "Design storm", Decimal { units: 10, scale: 1 }, "in"),
            ],
        },
        NodeKind::TreatmentBmp => NodeDefView {
            label: "Treatment BMP",
            category: Category::WaterQuality,
            inputs: seq!["Influent loads"],
            outputs: seq!["Effluent loads"],
            description: "Single BMP mass balance",
            config_fields: seq![
                select_field_view("bmp_type", "BMP type", "bioretention", bmp_type_options_view()),
                number_field_view("area_acres", "Area", Decimal { units: 50, scale: 1 }, "ac"),
                select_field_view("land_use", "Land Use", "residential-medium", land_use_options_view()),
                number_field_view("runoff_in", "Runoff", Decimal { units: 5, scale: 1 }, "in"),
            ],
        },
        NodeKind::TreatmentTrain => NodeDefView {
            label: "Treatment Train",
            category: Category::WaterQuality,
            inputs: seq!["Influent loads"],
            outputs: seq!["Effluent loads", "TSS η (%)"],
            description: "Series BMPs in chain",
            config_fields: seq![
                number_field_view("area_acres", "Area", Decimal { units: 50, scale: 1 }, "ac"),
                select_field_view("land_use", "Land Use", "residential-medium", land_use_options_view()),
                number_field_view("runoff_in", "Runoff", Decimal { units: 5, scale: 1 }, "in"),
                text_field_view("bmp_chain", "BMP chain", "bioretention,wet-pond"),
            ],
        },
        NodeKind::SedimentBasin => NodeDefView {
            label: "Sediment Basin",
            category: Category::WaterQuality,
            inputs: seq!["Q design (cfs)", "Soil loss (t/ac/yr)"],
            outputs: seq!["Trap η (%)", "Volume (cf)"],
            description: "NCDEQ 435 sf/cfs method",
            config_fields: seq![
                number_field_view("area_acres", "Area", Decimal { units: 50, scale: 1 }, "ac"),
                number_field_view("design_q_cfs", "Design Q", Decimal { units: 50, scale: 1 }, "cfs"),
                number_field_view("sed_yield_tons_ac_yr", "Sed. yield", Decimal { units: 100, scale: 1 }, "t/ac/yr"),
            ],
        },
        NodeKind::RusleErosion => NodeDefView {
            label: "RUSLE Erosion",
            category: Category::WaterQuality,
            inputs: seq!["Catchment", "Soil/slope"],
            outputs: seq!["A (t/ac/yr)"],
            description: "A = R·K·LS·C·P",
            config_fields: seq![
                select_field_view("region", "Region", "charlotte-nc", location_options_view()),
                number_field_view("area_acres", "Area", Decimal { units: 10, scale: 1 }, "ac"),
                number_field_view("slope_length_ft", "Slope length", Decimal { units: 1000, scale: 1 }, "ft"),
                number_field_view("slope_pct", "Slope", Decimal { units: 50, scale: 1 }, "%"),
            ],
        },
        NodeKind::Outfall => NodeDefView {
            label: "Outfall",
            category: Category::Sink,
            inputs: seq!["Flow / loads"],
            outputs: seq![],
            description: "System discharge point",
            config_fields: Seq::empty(),
        },
    }
}

/// Every kind but the outfall carries at least one configuration field; the
/// outfall carries none.
pub proof fn lemma_config_fields_present(kind: NodeKind)
    ensures
        (catalog(kind).config_fields.len() == 0) <==> kind == NodeKind::Outfall,
{
}

/// Every "select" field offers at least one choice, and every "number" or
/// "text" field none.
pub proof fn lemma_select_fields_have_options(kind: NodeKind)
    ensures
        forall|i: int| 0 <= i < catalog(kind).config_fields.len() ==>
            (#[trigger] catalog(kind).config_fields[i]).field_type == "select" ==> catalog(kind).config_fields[i].options.len() > 0,
        forall|i: int| 0 <= i < catalog(kind).config_fields.len() ==>
            (#[trigger] catalog(kind).config_fields[i]).field_type == "number" ==> catalog(kind).config_fields[i].options.len() == 0,
        forall|i: int| 0 <= i < catalog(kind).config_fields.len() ==>
            (#[trigger] catalog(kind).config_fields[i]).field_type == "text" ==> catalog(kind).config_fields[i].options.len() == 0,
{
    reveal_strlit("select");
    reveal_strlit("number");
    reveal_strlit("text");
    assert("select"@[0] != "number"@[0]);
    assert("select"@[0] != "text"@[0]);
    assert(land_use_options_view().len() > 0);
    assert(bmp_type_options_view().len() > 0);
    assert(loss_method_options_view().len() > 0);
    assert(hsg_options_view().len() > 0);
    assert(location_options_view().len() > 0);
}

/// Every kind appears in `all_kinds` exactly once.
pub proof fn lemma_all_kinds_each_once(kind: NodeKind)
    ensures
        all_kinds().contains(kind),
        all_kinds().no_duplicates(),
{
    let a = all_kinds();
    assert(a.contains(kind)) by {
        match kind {
            NodeKind::Catchment => assert(a[0] == kind),
            NodeKind::RainfallEvent => assert(a[1] == kind),
            NodeKind::RationalMethod => assert(a[2] == kind),
            NodeKind::ScsRunoff => assert(a[3] == kind),
            NodeKind::TimeOfConcentration => assert(a[4] == kind),
            NodeKind::UnitHydrograph => assert(a[5] == kind),
            NodeKind::LossMethod => assert(a[6] == kind),
            NodeKind::ContinuousSim => assert(a[7] == kind),
            NodeKind::ManningPipe => assert(a[8] == kind),
            NodeKind::ManningChannel => assert(a[9] == kind),
            NodeKind::GvfProfile => assert(a[10] == kind),
            NodeKind::DetentionPond => assert(a[11] == kind),
            NodeKind::PondChain => assert(a[12] == kind),
            NodeKind::WaterQualityVolume => assert(a[13] == kind),
            NodeKind::BmpSizing => assert(a[14] == kind),
            NodeKind::TreatmentBmp => assert(a[15] == kind),
            NodeKind::TreatmentTrain => assert(a[16] == kind),
            NodeKind::SedimentBasin => assert(a[17] == kind),
            NodeKind::RusleErosion => assert(a[18] == kind),
            NodeKind::Outfall => assert(a[19] == kind),
        }
    }
}

/// The keys of configuration fields, in order.
pub open spec fn field_keys(fields: Seq<ConfigFieldView>) -> Seq<&'static str> {
    fields.map_values(|f: ConfigFieldView| f.key)
}

/// The catalog entry of every kind: its label, category, input and output
/// port labels (one per result port the engines read and write), description
/// and the keys of its configuration fields, in order.
pub proof fn law_catalog_entries(kind: NodeKind)
    ensures
        match kind {
            NodeKind::Catchment => {
                &&& catalog(kind).label == "Catchment"
                &&& catalog(kind).category == Category::Hydrology
                &&& catalog(kind).inputs == Seq::<&'static str>::empty()
                &&& catalog(kind).outputs == seq!["Site data"]
                &&& catalog(kind).description == "Drainage area + CN"
                &&& field_keys(catalog(kind).config_fields) == seq!["area_acres", "curve_number", "land_use"]
            },
            NodeKind::RainfallEvent => {
                &&& catalog(kind).label == "Rainfall Event"
                &&& catalog(kind).category == Category::Hydrology
                &&& catalog(kind).inputs == Seq::<&'static str>::empty()
                &&& catalog(kind).outputs == seq!["P (in)"]
                &&& catalog(kind).description == "Storm depth + duration"
                &&& field_keys(catalog(kind).config_fields) == seq!["depth_in", "duration_hr"]
            },
            NodeKind::RationalMethod => {
                &&& catalog(kind).label == "Rational Method"
                &&& catalog(kind).category == Category::Hydrology
                &&& catalog(kind).inputs == seq!["Catchment", "IDF curve"]
                &&& catalog(kind).outputs == seq!["Q (cfs)"]
                &&& catalog(kind).description == "Q = C·i·A"
                &&& field_keys(catalog(kind).config_fields) == seq!["area_acres", "runoff_c", "intensity_in_hr"]
            },
            NodeKind::ScsRunoff => {
                &&& catalog(kind).label == "SCS CN Runoff"
                &&& catalog(kind).category == Category::Hydrology
                &&& catalog(kind).inputs == seq!["Catchment", "Rainfall"]
                &&& catalog(kind).outputs == seq!["Q (in)"]
                &&& catalog(kind).description == "Curve-number runoff depth"
                &&& field_keys(catalog(kind).config_fields) == seq!["curve_number", "rainfall_in", "area_acres"]
            },
            NodeKind::TimeOfConcentration => {
                &&& catalog(kind).label == "Time of Conc."
                &&& catalog(kind).category == Category::Hydrology
                &&& catalog(kind).inputs == seq!["Flow path"]
                &&& catalog(kind).outputs == seq!["Tc (min)"]
                &&& catalog(kind).description == "TR-55 segmented Tc"
                &&& field_keys(catalog(kind).config_fields) == seq!["tc_min"]
            },
            NodeKind::UnitHydrograph => {
                &&& catalog(kind).label == "Unit Hydrograph"
                &&& catalog(kind).category == Category::Hydrology
                &&& catalog(kind).inputs == seq!["Q runoff", "Tc (min)"]
                &&& catalog(kind).outputs == seq!["Peak Q (cfs)"]
                &&& catalog(kind).description == "SCS triangular UH"
                &&& field_keys(catalog(kind).config_fields) == seq!["area_acres", "tc_min"]
            },
            NodeKind::LossMethod => {
                &&& catalog(kind).label == "Loss Method"
                &&& catalog(kind).category == Category::Hydrology
                &&& catalog(kind).inputs == seq!["Rainfall"]
                &&& catalog(kind).outputs == seq!["Excess (in)"]
                &&& catalog(kind).description == "Green-Ampt / Horton / CN"
                &&& field_keys(catalog(kind).config_fields) == seq!["method", "curve_number", "hsg", "rainfall_in", "duration_hr"]
            },
            NodeKind::ContinuousSim => {
                &&& catalog(kind).label == "Continuous Sim"
                &&& catalog(kind).category == Category::Hydrology
                &&& catalog(kind).inputs == seq!["Site"]
                &&& catalog(kind).outputs == seq!["Q (ac-in/yr)"]
                &&& catalog(kind).description == "Multi-year Hargreaves ET"
                &&& field_keys(catalog(kind).config_fields) == seq!["location", "area_acres", "curve_number", "land_use", "years"]
            },
            NodeKind::ManningPipe => {
                &&& catalog(kind).label == "Manning Pipe"
                &&& catalog(kind).category == Category::Hydraulics
                &&& catalog(kind).inputs == seq!["Q design (cfs)"]
                &&& catalog(kind).outputs == seq!["Q full (cfs)", "Depth (ft)"]
                &&& catalog(kind).description == "Circular pipe capacity"
                &&& field_keys(catalog(kind).config_fields) == seq!["diameter_ft", "slope", "manning_n", "design_q_cfs"]
            },
            NodeKind::ManningChannel => {
                &&& catalog(kind).label == "Manning Channel"
                &&& catalog(kind).category == Category::Hydraulics
                &&& catalog(kind).inputs == seq!["Q (cfs)"]
                &&& catalog(kind).outputs == seq!["Depth (ft)", "V (fps)"]
                &&& catalog(kind).description == "Trapezoidal normal depth"
                &&& field_keys(catalog(kind).config_fields) == seq!["bottom_width_ft", "side_slope", "slope", "manning_n", "design_q_cfs"]
            },
            NodeKind::GvfProfile => {
                &&& catalog(kind).label == "GVF Profile"
                &&& catalog(kind).category == Category::Hydraulics
                &&& catalog(kind).inputs == seq!["Q (cfs)", "Tailwater (ft)"]
                &&& catalog(kind).outputs == seq!["WSP depth (ft)"]
                &&& catalog(kind).description == "Standard Step GVF"
                &&& field_keys(catalog(kind).config_fields) == seq!["design_q_cfs", "bottom_width_ft", "side_slope", "slope", "manning_n", "tailwater_ft", "reach_length_ft"]
            },
            NodeKind::DetentionPond => {
                &&& catalog(kind).label == "Detention Pond"
                &&& catalog(kind).category == Category::Hydraulics
                &&& catalog(kind).inputs == seq!["Inflow hydrograph"]
                &&& catalog(kind).outputs == seq!["Peak Q out (cfs)", "Storage (cf)"]
                &&& catalog(kind).description == "Modified Puls routing"
                &&& field_keys(catalog(kind).config_fields) == seq!["area_acres", "curve_number", "rainfall_in", "tc_min", "bottom_area_sf", "side_slope", "max_depth_ft", "orifice_dia_in", "orifice_invert_ft"]
            },
            NodeKind::PondChain => {
                &&& catalog(kind).label == "Pond Chain"
                &&& catalog(kind).category == Category::Hydraulics
                &&& catalog(kind).inputs == seq!["Inflow"]
                &&& catalog(kind).outputs == seq!["Peak Q out (cfs)"]
                &&& catalog(kind).description == "Series pond routing"
                &&& field_keys(catalog(kind).config_fields) == seq!["area_acres", "curve_number", "rainfall_in", "tc_min", "n_ponds"]
            },
            NodeKind::WaterQualityVolume => {
                &&& catalog(kind).label == "WQ Volume"
                &&& catalog(kind).category == Category::WaterQuality
                &&& catalog(kind).inputs == seq!["Catchment", "Design storm"]
                &&& catalog(kind).outputs == seq!["WQV (cf)"]
                &&& catalog(kind).description == "WQV = Rv·P·A·3630"
                &&& field_keys(catalog(kind).config_fields) == seq!["area_acres", "impervious_pct", "design_storm_in"]
            },
            NodeKind::BmpSizing => {
                &&& catalog(kind).label == "BMP Sizing"
                &&& catalog(kind).category == Category::WaterQuality
                &&& catalog(kind).inputs == seq!["WQV (cf)"]
                &&& catalog(kind).outputs == seq!["Surface area (sf)"]
                &&& catalog(kind).description == "Area from treated volume"
                &&& field_keys(catalog(kind).config_fields) == seq!["bmp_type", "area_acres", "impervious_pct", "design_storm_in"]
            },
            NodeKind::TreatmentBmp => {
                &&& catalog(kind).label == "Treatment BMP"
                &&& catalog(kind).category == Category::WaterQuality
                &&& catalog(kind).inputs == seq!["Influent loads"]
                &&& catalog(kind).outputs == seq!["Effluent loads"]
                &&& catalog(kind).description == "Single BMP mass balance"
                &&& field_keys(catalog(kind).config_fields) == seq!["bmp_type", "area_acres", "land_use", "runoff_in"]
            },
            NodeKind::TreatmentTrain => {
                &&& catalog(kind).label == "Treatment Train"
                &&& catalog(kind).category == Category::WaterQuality
                &&& catalog(kind).inputs == seq!["Influent loads"]
                &&& catalog(kind).outputs == seq!["Effluent loads", "TSS η (%)"]
                &&& catalog(kind).description == "Series BMPs in chain"
                &&& field_keys(catalog(kind).config_fields) == seq!["area_acres", "land_use", "runoff_in", "bmp_chain"]
            },
            NodeKind::SedimentBasin => {
                &&& catalog(kind).label == "Sediment Basin"
                &&& catalog(kind).category == Category::WaterQuality
                &&& catalog(kind).inputs == seq!["Q design (cfs)", "Soil loss (t/ac/yr)"]
                &&& catalog(kind).outputs == seq!["Trap η (%)", "Volume (cf)"]
                &&& catalog(kind).description == "NCDEQ 435 sf/cfs method"
                &&& field_keys(catalog(kind).config_fields) == seq!["area_acres", "design_q_cfs", "sed_yield_tons_ac_yr"]
            },
            NodeKind::RusleErosion => {
                &&& catalog(kind).label == "RUSLE Erosion"
                &&& catalog(kind).category == Category::WaterQuality
                &&& catalog(kind).inputs == seq!["Catchment", "Soil/slope"]
                &&& catalog(kind).outputs == seq!["A (t/ac/yr)"]
                &&& catalog(kind).description == "A = R·K·LS·C·P"
                &&& field_keys(catalog(kind).config_fields) == seq!["region", "area_acres", "slope_length_ft", "slope_pct"]
            },
            NodeKind::Outfall => {
                &&& catalog(kind).label == "Outfall"
                &&& catalog(kind).category == Category::Sink
                &&& catalog(kind).inputs == seq!["Flow / loads"]
                &&& catalog(kind).outputs == Seq::<&'static str>::empty()
                &&& catalog(kind).description == "System discharge point"
                &&& field_keys(catalog(kind).config_fields) == Seq::<&'static str>::empty()
            },
        },
{
    match kind {
        NodeKind::Catchment => {
            assert(field_keys(catalog(kind).config_fields) =~= seq!["area_acres", "curve_number", "land_use"]);
        },
        NodeKind::RainfallEvent => {
            assert(field_keys(catalog(kind).config_fields) =~= seq!["depth_in", "duration_hr"]);
        },
        NodeKind::RationalMethod => {
            assert(field_keys(catalog(kind).config_fields) =~= seq!["area_acres", "runoff_c", "intensity_in_hr"]);
        },
        NodeKind::ScsRunoff => {
            assert(field_keys(catalog(kind).config_fields) =~= seq!["curve_number", "rainfall_in", "area_acres"]);
        },
        NodeKind::TimeOfConcentration => {
            assert(field_keys(catalog(kind).config_fields) =~= seq!["tc_min"]);
        },
        NodeKind::UnitHydrograph => {
            assert(field_keys(catalog(kind).config_fields) =~= seq!["area_acres", "tc_min"]);
        },
        NodeKind::LossMethod => {
            assert(field_keys(catalog(kind).config_fields) =~= seq!["method", "curve_number", "hsg", "rainfall_in", "duration_hr"]);
        },
        NodeKind::ContinuousSim => {
            assert(field_keys(catalog(kind).config_fields) =~= seq!["location", "area_acres", "curve_number", "land_use", "years"]);
        },
        NodeKind::ManningPipe => {
            assert(field_keys(catalog(kind).config_fields) =~= seq!["diameter_ft", "slope", "manning_n", "design_q_cfs"]);
        },
        NodeKind::ManningChannel => {
            assert(field_keys(catalog(kind).config_fields) =~= seq!["bottom_width_ft", "side_slope", "slope", "manning_n", "design_q_cfs"]);
        },
        NodeKind::GvfProfile => {
            assert(field_keys(catalog(kind).config_fields) =~= seq!["design_q_cfs", "bottom_width_ft", "side_slope", "slope", "manning_n", "tailwater_ft", "reach_length_ft"]);
        },
        NodeKind::DetentionPond => {
            assert(field_keys(catalog(kind).config_fields) =~= seq!["area_acres", "curve_number", "rainfall_in", "tc_min", "bottom_area_sf", "side_slope", "max_depth_ft", "orifice_dia_in", "orifice_invert_ft"]);
        },
        NodeKind::PondChain => {
            assert(field_keys(catalog(kind).config_fields) =~= seq!["area_acres", "curve_number", "rainfall_in", "tc_min", "n_ponds"]);
        },
        NodeKind::WaterQualityVolume => {
            assert(field_keys(catalog(kind).config_fields) =~= seq!["area_acres", "impervious_pct", "design_storm_in"]);
        },
        NodeKind::BmpSizing => {
            assert(field_keys(catalog(kind).config_fields) =~= seq!["bmp_type", "area_acres", "impervious_pct", "design_storm_in"]);
        },
        NodeKind::TreatmentBmp => {
            assert(field_keys(catalog(kind).config_fields) =~= seq!["bmp_type", "area_acres", "land_use", "runoff_in"]);
        },
        NodeKind::TreatmentTrain => {
            assert(field_keys(catalog(kind).config_fields) =~= seq!["area_acres", "land_use", "runoff_in", "bmp_chain"]);
        },
        NodeKind::SedimentBasin => {
            assert(field_keys(catalog(kind).config_fields) =~= seq!["area_acres", "design_q_cfs", "sed_yield_tons_ac_yr"]);
        },
        NodeKind::RusleErosion => {
            assert(field_keys(catalog(kind).config_fields) =~= seq!["region", "area_acres", "slope_length_ft", "slope_pct"]);
        },
        NodeKind::Outfall => {
            assert(field_keys(catalog(kind).config_fields) =~= Seq::<&'static str>::empty());
        },
    }
}

/// Every kind, in palette order.
pub open spec fn all_kinds() -> Seq<NodeKind> {
    seq![
        NodeKind::Catchment,
        NodeKind::RainfallEvent,
        NodeKind::RationalMethod,
        NodeKind::ScsRunoff,
        NodeKind::TimeOfConcentration,
        NodeKind::UnitHydrograph,
        NodeKind::LossMethod,
        NodeKind::ContinuousSim,
        NodeKind::ManningPipe,
        NodeKind::ManningChannel,
        NodeKind::GvfProfile,
        NodeKind::DetentionPond,
        NodeKind::PondChain,
        NodeKind::WaterQualityVolume,
        NodeKind::BmpSizing,
        NodeKind::TreatmentBmp,
        NodeKind::TreatmentTrain,
        NodeKind::SedimentBasin,
        NodeKind::RusleErosion,
        NodeKind::Outfall,
    ]
}

impl NodeKind {
    /// The catalog entry of this kind: label, category, ports, description
    /// and configuration fields.
    pub fn def(self) -> (d: NodeDef)
        ensures
            d@ == catalog(self),
    {
        let d = match self {
            NodeKind::Catchment => NodeDef {
                label: "Catchment",
                category: Category::Hydrology,
                inputs: vec![],
                outputs: vec![PortDef { label: "Site data" }],
                description: "Drainage area + CN",
                config_fields: vec![
                    number_field("area_acres", "Area", Decimal { units: 50, scale: 1 }, "ac"),
                    number_field("curve_number", "Curve Number", Decimal { units: 750, scale: 1 }, ""),
                    select_field("land_use", "Land Use", "residential-medium", land_use_options()),
                ],
            },
            NodeKind::RainfallEvent => NodeDef {
                label: "Rainfall Event",
                category: Category::Hydrology,
                inputs: vec![],
                outputs: vec![PortDef { label: "P (in)" }],
                description: "Storm depth + duration",
                config_fields: vec![
                    number_field("depth_in", "Rainfall depth", Decimal { units: 35, scale: 1 }, "in"),
                    number_field("duration_hr", "Duration", Decimal { units: 240, scale: 1 }, "hr"),
                ],
            },
            NodeKind::RationalMethod => NodeDef {
                label: "Rational Method",
                category: Category::Hydrology,
                inputs: vec![PortDef { label: "Catchment" }, PortDef { label: "IDF curve" }],
                outputs: vec![PortDef { label: "Q (cfs)" }],
                description: "Q = C·i·A",
                config_fields: vec![
                    number_field("area_acres", "Area", Decimal { units: 50, scale: 1 }, "ac"),
                    number_field("runoff_c", "Runoff C", Decimal { units: 70, scale: 2 }, ""),
                    number_field("intensity_in_hr", "Intensity", Decimal { units: 25, scale: 1 }, "in/hr"),
                ],
            },
            NodeKind::ScsRunoff => NodeDef {
                label: "SCS CN Runoff",
                category: Category::Hydrology,
                inputs: vec![PortDef { label: "Catchment" }, PortDef { label: "Rainfall" }],
                outputs: vec![PortDef { label: "Q (in)" }],
                description: "Curve-number runoff depth",
                config_fields: vec![
                    number_field("curve_number", "Curve Number", Decimal { units: 750, scale: 1 }, ""),
                    number_field("rainfall_in", "Rainfall", Decimal { units: 35, scale: 1 }, "in"),
                    number_field("area_acres", "Area", Decimal { units: 50, scale: 1 }, "ac"),
                ],
            },
            NodeKind::TimeOfConcentration => NodeDef {
                label: "Time of Conc.",
                category: Category::Hydrology,
                inputs: vec![PortDef { label: "Flow path" }],
                outputs: vec![PortDef { label: "Tc (min)" }],
                description: "TR-55 segmented Tc",
                config_fields: vec![
                    number_field("tc_min", "Tc (override)", Decimal { units: 200, scale: 1 }, "min"),
                ],
            },
            NodeKind::UnitHydrograph => NodeDef {
                label: "Unit Hydrograph",
                category: Category::Hydrology,
                inputs: vec![PortDef { label: "Q runoff" }, PortDef { label: "Tc (min)" }],
                outputs: vec![PortDef { label: "Peak Q (cfs)" }],
                description: "SCS triangular UH",
                config_fields: vec![
                    number_field("area_acres", "Area", Decimal { units: 50, scale: 1 }, "ac"),
                    number_field("tc_min", "Tc", Decimal { units: 200, scale: 1 }, "min"),
                ],
            },
            NodeKind::LossMethod => NodeDef {
                label: "Loss Method",
                category: Category::Hydrology,
                inputs: vec![PortDef { label: "Rainfall" }],
                outputs: vec![PortDef { label: "Excess (in)" }],
                description: "Green-Ampt / Horton / CN",
                config_fields: vec![
                    select_field("method", "Method", "curve_number", loss_method_options()),
                    number_field("curve_number", "Curve Number", Decimal { units: 750, scale: 1 }, ""),
                    select_field("hsg", "Soil Group", "B", hsg_options()),
                    number_field("rainfall_in", "Rainfall", Decimal { units: 35, scale: 1 }, "in"),
                    number_field("duration_hr", "Duration", Decimal { units: 240, scale: 1 }, "hr"),
                ],
            },
            NodeKind::ContinuousSim => NodeDef {
                label: "Continuous Sim",
                category: Category::Hydrology,
                inputs: vec![PortDef { label: "Site" }],
                outputs: vec![PortDef { label: "Q (ac-in/yr)" }],
                description: "Multi-year Hargreaves ET",
                config_fields: vec![
                    select_field("location", "City", "charlotte-nc", location_options()),
                    number_field("area_acres", "Area", Decimal { units: 50, scale: 1 }, "ac"),
                    number_field("curve_number", "Curve Number", Decimal { units: 750, scale: 1 }, ""),
                    select_field("land_use", "Land Use", "residential-medium", land_use_options()),
                    number_field("years", "Years", Decimal { units: 30, scale: 1 }, "yr"),
                ],
            },
            NodeKind::ManningPipe => NodeDef {
                label: "Manning Pipe",
                category: Category::Hydraulics,
                inputs: vec![PortDef { label: "Q design (cfs)" }],
                outputs: vec![PortDef { label: "Q full (cfs)" }, PortDef { label: "Depth (ft)" }],
                description: "Circular pipe capacity",
                config_fields: vec![
                    number_field("diameter_ft", "Diameter", Decimal { units: 15, scale: 1 }, "ft"),
                    number_field("slope", "Slope", Decimal { units: 5, scale: 3 }, "ft/ft"),
                    number_field("manning_n", "Manning n", Decimal { units: 13, scale: 3 }, ""),
                    number_field("design_q_cfs", "Design Q", Decimal { units: 50, scale: 1 }, "cfs"),
                ],
            },
            NodeKind::ManningChannel => NodeDef {
                label: "Manning Channel",
                category: Category::Hydraulics,
                inputs: vec![PortDef { label: "Q (cfs)" }],
                outputs: vec![PortDef { label: "Depth (ft)" }, PortDef { label: "V (fps)" }],
                description: "Trapezoidal normal depth",
                config_fields: vec![
                    number_field("bottom_width_ft", "Bottom width", Decimal { units: 40, scale: 1 }, "ft"),
                    number_field("side_slope", "Side slope", Decimal { units: 30, scale: 1 }, "H:V"),
                    number_field("slope", "Slope", Decimal { units: 1, scale: 2 }, "ft/ft"),
                    number_field("manning_n", "Manning n", Decimal { units: 35, scale: 3 }, ""),
                    number_field("design_q_cfs", "Design Q", Decimal { units: 50, scale: 1 }, "cfs"),
                ],
            },
            NodeKind::GvfProfile => NodeDef {
                label: "GVF Profile",
                category: Category::Hydraulics,
                inputs: vec![PortDef { label: "Q (cfs)" }, PortDef { label: "Tailwater (ft)" }],
                outputs: vec![PortDef { label: "WSP depth (ft)" }],
                description: "Standard Step GVF",
                config_fields: vec![
                    number_field("design_q_cfs", "Design Q", Decimal { units: 50, scale: 1 }, "cfs"),
                    number_field("bottom_width_ft", "Bottom width", Decimal { units: 40, scale: 1 }, "ft"),
                    number_field("side_slope", "Side slope", Decimal { units: 30, scale: 1 }, "H:V"),
                    number_field("slope", "Bed slope", Decimal { units: 1, scale: 2 }, "ft/ft"),
                    number_field("manning_n", "Manning n", Decimal { units: 35, scale: 3 }, ""),
                    number_field("tailwater_ft", "Tailwater", Decimal { units: 0, scale: 1 }, "ft"),
                    number_field("reach_length_ft", "Reach length", Decimal { units: 5000, scale: 1 }, "ft"),
                ],
            },
            NodeKind::DetentionPond => NodeDef {
                label: "Detention Pond",
                category: Category::Hydraulics,
                inputs: vec![PortDef { label: "Inflow hydrograph" }],
                outputs: vec![PortDef { label: "Peak Q out (cfs)" }, PortDef { label: "Storage (cf)" }],
                description: "Modified Puls routing",
                config_fields: vec![
                    number_field("area_acres", "Drainage area", Decimal { units: 50, scale: 1 }, "ac"),
                    number_field("curve_number", "Curve Number", Decimal { units: 800, scale: 1 }, ""),
                    number_field("rainfall_in", "Design storm", Decimal { units: 42, scale: 1 }, "in"),
                    number_field("tc_min", "Tc", Decimal { units: 200, scale: 1 }, "min"),
                    number_field("bottom_area_sf", "Pond bottom area", Decimal { units: 50000, scale: 1 }, "sf"),
                    number_field("side_slope", "Side slope", Decimal { units: 30, scale: 1 }, "H:V"),
                    number_field("max_depth_ft", "Max depth", Decimal { units: 60, scale: 1 }, "ft"),
                    number_field("orifice_dia_in", "Orifice dia.", Decimal { units: 60, scale: 1 }, "in"),
                    number_field("orifice_invert_ft", "Orifice invert", Decimal { units: 0, scale: 1 }, "ft"),
                ],
            },
            NodeKind::PondChain => NodeDef {
                label: "Pond Chain",
                category: Category::Hydraulics,
                inputs: vec![PortDef { label: "Inflow" }],
                outputs: vec![PortDef { label: "Peak Q out (cfs)" }],
                description: "Series pond routing",
                config_fields: vec![
                    number_field("area_acres", "Drainage area", Decimal { units: 50, scale: 1 }, "ac"),
                    number_field("curve_number", "Curve Number", Decimal { units: 800, scale: 1 }, ""),
                    number_field("rainfall_in", "Design storm", Decimal { units: 42, scale: 1 }, "in"),
                    number_field("tc_min", "Tc", Decimal { units: 200, scale: 1 }, "min"),
                    number_field("n_ponds", "Ponds in series", Decimal { units: 20, scale: 1 }, ""),
                ],
            },
            NodeKind::WaterQualityVolume => NodeDef {
                label: "WQ Volume",
                category: Category::WaterQuality,
                inputs: vec![PortDef { label: "Catchment" }, PortDef { label: "Design storm" }],
                outputs: vec![PortDef { label: "WQV (cf)" }],
                description: "WQV = Rv·P·A·3630",
                config_fields: vec![
                    number_field("area_acres", "Area", Decimal { units: 50, scale: 1 }, "ac"),
                    number_field("impervious_pct", "Impervious", Decimal { units: 500, scale: 1 }, "%"),
                    number_field("design_storm_in", "Design storm", Decimal { units: 10, scale: 1 }, "in"),
                ],
            },
            NodeKind::BmpSizing => NodeDef {
                label: "BMP Sizing",
                category: Category::WaterQuality,
                inputs: vec![PortDef { label: "WQV (cf)" }],
                outputs: vec![PortDef { label: "Surface area (sf)" }],
                description: "Area from treated volume",
                config_fields: vec![
                    select_field("bmp_type", "BMP type", "bioretention", bmp_type_options()),
                    number_field("area_acres", "Area", Decimal { units: 50, scale: 1 }, "ac"),
                    number_field("impervious_pct", "Impervious", Decimal { units: 500, scale: 1 }, "%"),
                    number_field("design_storm_in", "Design storm", Decimal { units: 10, scale: 1 }, "in"),
                ],
            },
            NodeKind::TreatmentBmp => NodeDef {
                label: "Treatment BMP",
                category: Category::WaterQuality,
                inputs: vec![PortDef { label: "Influent loads" }],
                outputs: vec![PortDef { label: "Effluent loads" }],
                description: "Single BMP mass balance",
                config_fields: vec![
                    select_field("bmp_type", "BMP type", "bioretention", bmp_type_options()),
                    number_field("area_acres", "Area", Decimal { units: 50, scale: 1 }, "ac"),
                    select_field("land_use", "Land Use", "residential-medium", land_use_options()),
                    number_field("runoff_in", "Runoff", Decimal { units: 5, scale: 1 }, "in"),
                ],
            },
            NodeKind::TreatmentTrain => NodeDef {
                label: "Treatment Train",
                category: Category::WaterQuality,
                inputs: vec![PortDef { label: "Influent loads" }],
                outputs: vec![PortDef { label: "Effluent loads" }, PortDef { label: "TSS η (%)" }],
                description: "Series BMPs in chain",
                config_fields: vec![
                    number_field("area_acres", "Area", Decimal { units: 50, scale: 1 }, "ac"),
                    select_field("land_use", "Land Use", "residential-medium", land_use_options()),
                    number_field("runoff_in", "Runoff", Decimal { units: 5, scale: 1 }, "in"),
                    text_field("bmp_chain", "BMP chain", "bioretention,wet-pond"),
                ],
            },
            NodeKind::SedimentBasin => NodeDef {
                label: "Sediment Basin",
                category: Category::WaterQuality,
                inputs: vec![PortDef { label: "Q design (cfs)" }, PortDef { label: "Soil loss (t/ac/yr)" }],
                outputs: vec![PortDef { label: "Trap η (%)" }, PortDef { label: "Volume (cf)" }],
                description: "NCDEQ 435 sf/cfs method",
                config_fields: vec![
                    number_field("area_acres", "Area", Decimal { units: 50, scale: 1 }, "ac"),
                    number_field("design_q_cfs", "Design Q", Decimal { units: 50, scale: 1 }, "cfs"),
                    number_field("sed_yield_tons_ac_yr", "Sed. yield", Decimal { units: 100, scale: 1 }, "t/ac/yr"),
                ],
            },
            NodeKind::RusleErosion => NodeDef {
                label: "RUSLE Erosion",
                category: Category::WaterQuality,
                inputs: vec![PortDef { label: "Catchment" }, PortDef { label: "Soil/slope" }],
                outputs: vec![PortDef { label: "A (t/ac/yr)" }],
                description: "A = R·K·LS·C·P",
                config_fields: vec![
                    select_field("region", "Region", "charlotte-nc", location_options()),
                    number_field("area_acres", "Area", Decimal { units: 10, scale: 1 }, "ac"),
                    number_field("slope_length_ft", "Slope length", Decimal { units: 1000, scale: 1 }, "ft"),
                    number_field("slope_pct", "Slope", Decimal { units: 50, scale: 1 }, "%"),
                ],
            },
            NodeKind::Outfall => NodeDef {
                label: "Outfall",
                category: Category::Sink,
                inputs: vec![PortDef { label: "Flow / loads" }],
                outputs: vec![],
                description: "System discharge point",
                config_fields: Vec::new(),
            },
        };
        assert(d@ =~= catalog(self));
        d
    }

    /// Every kind, in palette order.
    pub fn all() -> (r: Vec<NodeKind>)
        ensures
            r@ == all_kinds(),
    {
        let r = vec![
            NodeKind::Catchment,
            NodeKind::RainfallEvent,
            NodeKind::RationalMethod,
            NodeKind::ScsRunoff,
            NodeKind::TimeOfConcentration,
            NodeKind::UnitHydrograph,
            NodeKind::LossMethod,
            NodeKind::ContinuousSim,
            NodeKind::ManningPipe,
            NodeKind::ManningChannel,
            NodeKind::GvfProfile,
            NodeKind::DetentionPond,
            NodeKind::PondChain,
            NodeKind::WaterQualityVolume,
            NodeKind::BmpSizing,
            NodeKind::TreatmentBmp,
            NodeKind::TreatmentTrain,
            NodeKind::SedimentBasin,
            NodeKind::RusleErosion,
            NodeKind::Outfall,
        ];
        assert(r@ =~= all_kinds());
        r
    }
}

} // verus!
