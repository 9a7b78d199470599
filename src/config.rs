//! Configuration records and the classifier of configuration changes.
use vstd::prelude::*;

use crate::curve::{CurveKind, Point};
use crate::event::ConfigChangeType;

verus! {

/// The one configuration schema version this library reads.
pub const SUPPORTED_VERSION: u8 = 1;

/// Default monitoring period, in seconds.
pub const DEFAULT_TICK_SECONDS: u16 = 2;

/// Default broadcast period, in seconds.
pub const DEFAULT_BROADCAST_INTERVAL: u16 = 2;

/// The whole service configuration.
#[derive(Debug, Clone)]
pub struct Config {
    pub version: u8,
    pub tick_seconds: u16,
    pub enable_broadcast: bool,
    pub broadcast_interval: u16,
    pub controllers: Vec<ControllerCfg>,
    pub curves: Vec<CurveCfg>,
    pub sensors: Vec<SensorCfg>,
    pub mappings: Vec<MappingCfg>,
    pub colors: Vec<ColorCfg>,
    pub color_mappings: Vec<ColorMappingCfg>,
}

/// A fan controller entry.
#[derive(Debug, Clone)]
pub enum ControllerCfg {
    RiingQuad { id: String, usb: UsbSelector, fans: Vec<FanCfg> },
}

/// A fan entry of a controller: 1-based channel, name, active curve and the
/// curves it may use.
#[derive(Debug, Clone)]
pub struct FanCfg {
    pub idx: u8,
    pub name: String,
    pub active_curve: String,
    pub curve: Vec<String>,
}

/// A named curve entry. Temperatures are in thousandths of a degree Celsius.
#[derive(Debug, Clone)]
pub enum CurveCfg {
    Constant { id: String, speed: u8 },
    StepCurve { id: String, tmps: Vec<i32>, spds: Vec<u8> },
    Bezier { id: String, points: Vec<Point> },
}

/// A sensor-to-fans mapping entry.
#[derive(Debug, Clone)]
pub struct MappingCfg {
    pub sensor: String,
    pub targets: Vec<FanTarget>,
}

/// A color-to-fans mapping entry.
#[derive(Debug, Clone)]
pub struct ColorMappingCfg {
    pub color: String,
    pub targets: Vec<FanTarget>,
}

/// A fan addressed by 1-based controller and 1-based fan index.
#[derive(Debug, Clone, Copy, PartialEq, Eq, Structural)]
pub struct FanTarget {
    pub controller: u8,
    pub fan_idx: u8,
}

/// USB identification of a controller.
#[derive(Debug, Clone)]
pub struct UsbSelector {
    pub vid: u16,
    pub pid: u16,
    pub serial: Option<String>,
}

/// A temperature sensor entry.
#[derive(Debug, Clone)]
pub enum SensorCfg {
    LmSensors { id: String, chip: String, feature: String },
}

/// A named color, `rgb` being red, green, blue.
#[derive(Debug, Clone)]
pub struct ColorCfg {
    pub color: String,
    pub rgb: [u8; 3],
}

/// Default monitoring period, in seconds.
pub fn tick_seconds() -> (r: u16)
    ensures
        r == DEFAULT_TICK_SECONDS,
{
    DEFAULT_TICK_SECONDS
}

/// Broadcasting is off unless configured.
pub fn enable_broadcast() -> (r: bool)
    ensures
        r == false,
{
    false
}

/// Default broadcast period, in seconds.
pub fn broadcast_interval() -> (r: u16)
    ensures
        r == DEFAULT_BROADCAST_INTERVAL,
{
    DEFAULT_BROADCAST_INTERVAL
}

pub struct UsbModel {
    pub vid: u16,
    pub pid: u16,
    pub serial: Option<Seq<char>>,
}

pub struct FanModel {
    pub idx: u8,
    pub name: Seq<char>,
    pub active_curve: Seq<char>,
    pub curve: Seq<Seq<char>>,
}

pub struct ControllerModel {
    pub id: Seq<char>,
    pub usb: UsbModel,
    pub fans: Seq<FanModel>,
}

pub struct SensorModel {
    pub id: Seq<char>,
    pub chip: Seq<char>,
    pub feature: Seq<char>,
}

pub open spec fn strings_view(v: Seq<String>) -> Seq<Seq<char>> {
    v.map_values(|s: String| s@)
}

impl View for UsbSelector {
    type V = UsbModel;

    open spec fn view(&self) -> UsbModel {
        UsbModel {
            vid: self.vid,
            pid: self.pid,
            serial: match self.serial {
                Some(s) => Some(s@),
                None => None,
            },
        }
    }
}

impl View for FanCfg {
    type V = FanModel;

    open spec fn view(&self) -> FanModel {
        FanModel {
            idx: self.idx,
            name: self.name@,
            active_curve: self.active_curve@,
            curve: strings_view(self.curve@),
        }
    }
}

impl View for ControllerCfg {
    type V = ControllerModel;

    open spec fn view(&self) -> ControllerModel {
        match *self {
            ControllerCfg::RiingQuad { id, usb, fans } => ControllerModel {
                id: id@,
                usb: usb@,
                fans: fans@.map_values(|f: FanCfg| f@),
            },
        }
    }
}

impl View for SensorCfg {
    type V = SensorModel;

    open spec fn view(&self) -> SensorModel {
        match *self {
            SensorCfg::LmSensors { id, chip, feature } => SensorModel {
                id: id@,
                chip: chip@,
                feature: feature@,
            },
        }
    }
}

pub open spec fn controllers_view(v: Seq<ControllerCfg>) -> Seq<ControllerModel> {
    v.map_values(|c: ControllerCfg| c@)
}

pub open spec fn sensors_view(v: Seq<SensorCfg>) -> Seq<SensorModel> {
    v.map_values(|s: SensorCfg| s@)
}

fn same_strings(a: &Vec<String>, b: &Vec<String>) -> (r: bool)
    ensures
        r == (strings_view(a@) == strings_view(b@)),
{
    if a.len() != b.len() {
        assert(strings_view(a@).len() != strings_view(b@).len());
        return false;
    }
    let mut i: usize = 0;
    while i < a.len()
        invariant
            a@.len() == b@.len(),
            i <= a@.len(),
            forall|k: int| 0 <= k < i ==> a@[k]@ == b@[k]@,
        decreases a@.len() - i,
    {
        if a[i] != b[i] {
            assert(strings_view(a@)[i as int] != strings_view(b@)[i as int]);
            return false;
        }
        i = i + 1;
    }
    assert(strings_view(a@) =~= strings_view(b@));
    true
}

impl UsbSelector {
    /// Whether two selectors name the same device.
    pub fn same_as(&self, other: &UsbSelector) -> (r: bool)
        ensures
            r == (self@ == other@),
    {
        let serial_same = match (&self.serial, &other.serial) {
            (Some(a), Some(b)) => *a == *b,
            (None, None) => true,
            _ => false,
        };
        self.vid == other.vid && self.pid == other.pid && serial_same
    }
}

impl FanCfg {
    /// Whether two fan entries are equal field by field.
    pub fn same_as(&self, other: &FanCfg) -> (r: bool)
        ensures
            r == (self@ == other@),
    {
        self.idx == other.idx && self.name == other.name && self.active_curve == other.active_curve
            && same_strings(&self.curve, &other.curve)
    }
}

fn same_fans(a: &Vec<FanCfg>, b: &Vec<FanCfg>) -> (r: bool)
    ensures
        r == (a@.map_values(|f: FanCfg| f@) == b@.map_values(|f: FanCfg| f@)),
{
    if a.len() != b.len() {
        assert(a@.map_values(|f: FanCfg| f@).len() != b@.map_values(|f: FanCfg| f@).len());
        return false;
    }
    let mut i: usize = 0;
    while i < a.len()
        invariant
            a@.len() == b@.len(),
            i <= a@.len(),
            forall|k: int| 0 <= k < i ==> a@[k]@ == b@[k]@,
        decreases a@.len() - i,
    {
        if !a[i].same_as(&b[i]) {
            assert(a@.map_values(|f: FanCfg| f@)[i as int] != b@.map_values(|f: FanCfg| f@)[i as int]);
            return false;
        }
        i = i + 1;
    }
    assert(a@.map_values(|f: FanCfg| f@) =~= b@.map_values(|f: FanCfg| f@));
    true
}

impl ControllerCfg {
    /// Whether two controller entries are equal field by field.
    pub fn same_as(&self, other: &ControllerCfg) -> (r: bool)
        ensures
            r == (self@ == other@),
    {
        match (self, other) {
            (
                ControllerCfg::RiingQuad { id: a_id, usb: a_usb, fans: a_fans },
                ControllerCfg::RiingQuad { id: b_id, usb: b_usb, fans: b_fans },
            ) => *a_id == *b_id && a_usb.same_as(b_usb) && same_fans(a_fans, b_fans),
        }
    }
}

impl SensorCfg {
    /// Whether two sensor entries are equal field by field.
    pub fn same_as(&self, other: &SensorCfg) -> (r: bool)
        ensures
            r == (self@ == other@),
    {
        match (self, other) {
            (
                SensorCfg::LmSensors { id: a_id, chip: a_chip, feature: a_feature },
                SensorCfg::LmSensors { id: b_id, chip: b_chip, feature: b_feature },
            ) => *a_id == *b_id && *a_chip == *b_chip && *a_feature == *b_feature,
        }
    }
}

fn same_controllers(a: &Vec<ControllerCfg>, b: &Vec<ControllerCfg>) -> (r: bool)
    ensures
        r == (controllers_view(a@) == controllers_view(b@)),
{
    if a.len() != b.len() {
        assert(controllers_view(a@).len() != controllers_view(b@).len());
        return false;
    }
    let mut i: usize = 0;
    while i < a.len()
        invariant
            a@.len() == b@.len(),
            i <= a@.len(),
            forall|k: int| 0 <= k < i ==> a@[k]@ == b@[k]@,
        decreases a@.len() - i,
    {
        if !a[i].same_as(&b[i]) {
            assert(controllers_view(a@)[i as int] != controllers_view(b@)[i as int]);
            return false;
        }
        i = i + 1;
    }
    assert(controllers_view(a@) =~= controllers_view(b@));
    true
}

fn same_sensors(a: &Vec<SensorCfg>, b: &Vec<SensorCfg>) -> (r: bool)
    ensures
        r == (sensors_view(a@) == sensors_view(b@)),
{
    if a.len() != b.len() {
        assert(sensors_view(a@).len() != sensors_view(b@).len());
        return false;
    }
    let mut i: usize = 0;
    while i < a.len()
        invariant
            a@.len() == b@.len(),
            i <= a@.len(),
            forall|k: int| 0 <= k < i ==> a@[k]@ == b@[k]@,
        decreases a@.len() - i,
    {
        if !a[i].same_as(&b[i]) {
            assert(sensors_view(a@)[i as int] != sensors_view(b@)[i as int]);
            return false;
        }
        i = i + 1;
    }
    assert(sensors_view(a@) =~= sensors_view(b@));
    true
}

/// Sections whose change needs the hardware set rebuilt, in order.
pub open spec fn changed_sections(old: Config, new: Config) -> Seq<Seq<char>> {
    let c: Seq<Seq<char>> = if controllers_view(old.controllers@) != controllers_view(new.controllers@) {
        seq!["controllers"@]
    } else {
        Seq::empty()
    };
    let s: Seq<Seq<char>> = if sensors_view(old.sensors@) != sensors_view(new.sensors@) {
        seq!["sensors"@]
    } else {
        Seq::empty()
    };
    c + s
}

/// Which configuration file to use when none is given: the override from
/// the environment as it is; else the per-user file if it exists; else the
/// system-wide file if it exists; else none.
pub fn choose_config_path(
    env_override: Option<String>,
    user_path: Option<String>,
    user_exists: bool,
    system_path: String,
    system_exists: bool,
) -> (r: Option<String>)
    ensures
        r == (if env_override is Some {
            env_override
        } else if user_path is Some && user_exists {
            user_path
        } else if system_exists {
            Some(system_path)
        } else {
            None
        }),
{
    if env_override.is_some() {
        return env_override;
    }
    if user_path.is_some() && user_exists {
        return user_path;
    }
    if system_exists {
        Some(system_path)
    } else {
        None
    }
}

/// Errors on reading a configuration.
#[derive(Debug, Clone, PartialEq, Eq)]
pub enum ConfigError {
    NotFound,
    UnsupportedVersion { found: u8 },
    ParseError(String),
}

impl Config {
    /// Classifies the change from `self` to `other`: a cold restart naming
    /// each of `controllers` and `sensors` that differs, else a hot reload.
    pub fn analyze_changes(&self, other: &Config) -> (r: ConfigChangeType)
        ensures
            changed_sections(*self, *other).len() == 0 ==> r is HotReload,
            changed_sections(*self, *other).len() > 0 ==> (r is ColdRestart && strings_view(
                r->changed_sections@,
            ) == changed_sections(*self, *other)),
    {
        let mut sections: Vec<String> = Vec::new();
        if !same_controllers(&self.controllers, &other.controllers) {
            sections.push("controllers".to_owned());
        }
        if !same_sensors(&self.sensors, &other.sensors) {
            sections.push("sensors".to_owned());
        }
        proof {
            reveal_strlit("controllers");
            reveal_strlit("sensors");
            assert(strings_view(sections@) =~= changed_sections(*self, *other));
        }
        if sections.len() == 0 {
            ConfigChangeType::HotReload
        } else {
            ConfigChangeType::ColdRestart { changed_sections: sections }
        }
    }

    /// Accepts a parsed configuration only in the supported schema version.
    pub fn validate(&self) -> (r: Result<(), ConfigError>)
        ensures
            r is Ok <==> self.version == SUPPORTED_VERSION,
            r is Err ==> r == Err::<(), ConfigError>(ConfigError::UnsupportedVersion { found: self.version }),
    {
        if self.version != SUPPORTED_VERSION {
            Err(ConfigError::UnsupportedVersion { found: self.version })
        } else {
            Ok(())
        }
    }
}

/// The classification is symmetric; a configuration compared with itself,
/// or with one of equal controllers and sensors, needs no restart.
pub proof fn lemma_equal_configs_hot_reload(a: Config, b: Config)
    ensures
        changed_sections(a, b) == changed_sections(b, a),
        changed_sections(a, a).len() == 0,
        (controllers_view(a.controllers@) == controllers_view(b.controllers@) && sensors_view(a.sensors@)
            == sensors_view(b.sensors@)) <==> changed_sections(a, b).len() == 0,
{
}

impl Default for Config {
    fn default() -> (r: Config)
        ensures
            r.version == SUPPORTED_VERSION,
            r.tick_seconds == DEFAULT_TICK_SECONDS,
            r.enable_broadcast == false,
            r.broadcast_interval == DEFAULT_BROADCAST_INTERVAL,
            r.controllers@.len() == 0,
            r.curves@.len() == 0,
            r.sensors@.len() == 0,
            r.mappings@.len() == 0,
            r.colors@.len() == 0,
            r.color_mappings@.len() == 0,
    {
        Config {
            version: SUPPORTED_VERSION,
            tick_seconds: tick_seconds(),
            enable_broadcast: enable_broadcast(),
            broadcast_interval: broadcast_interval(),
            controllers: Vec::new(),
            curves: Vec::new(),
            sensors: Vec::new(),
            mappings: Vec::new(),
            colors: Vec::new(),
            color_mappings: Vec::new(),
        }
    }
}

impl CurveCfg {
    pub open spec fn kind_spec(&self) -> CurveKind {
        match *self {
            CurveCfg::Constant { .. } => CurveKind::Constant,
            CurveCfg::StepCurve { .. } => CurveKind::Step,
            CurveCfg::Bezier { .. } => CurveKind::Bezier,
        }
    }

    pub open spec fn id_spec(&self) -> String {
        match *self {
            CurveCfg::Constant { id, .. } => id,
            CurveCfg::StepCurve { id, .. } => id,
            CurveCfg::Bezier { id, .. } => id,
        }
    }

    /// The curve's name.
    pub fn get_id(&self) -> (r: String)
        ensures
            r@ == self.id_spec()@,
    {
        match self {
            CurveCfg::Constant { id, .. } => id.clone(),
            CurveCfg::StepCurve { id, .. } => id.clone(),
            CurveCfg::Bezier { id, .. } => id.clone(),
        }
    }
}

} // verus!
