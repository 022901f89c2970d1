//! The sensor catalog and the registration descriptor sent to Home Assistant.

use crate::string_map::{lemma_sorted_same_keys, sorted, StringMap};
use crate::text::{decimal, decimal_text, json_string, json_string_text};
use convert_case::{Case, Casing};
use vstd::prelude::*;

verus! {

/// Name under which this program announces itself as the origin of its messages.
pub const ORIGIN_NAME: &'static str = "mqtt-system-monitor";

/// Version announced in the origin of the messages.
pub const ORIGIN_VERSION: &'static str = "0.5.0";

/// Homepage announced in the origin of the messages.
pub const ORIGIN_URL: &'static str = "https://github.com/mqtt-system-monitor/mqtt-system-monitor";

/// The different types of sensors that are available.
#[derive(Debug, Clone, PartialEq, Eq)]
pub enum Sensor {
    /// Tells if the monitored host is available
    Available,
    /// Sends the CPU usage in %
    CpuUsage,
    /// Sends a temperature in °C: the probe's identifier and its label
    Temperature(String, String),
    /// Sends the memory usage in %
    MemoryUsage,
    /// Sends the download network rate in KiB/s of an interface
    NetRx(String),
    /// Sends the upload network rate in KiB/s of an interface
    NetTx(String),
}

/// What a device component holds, as plain text and numbers.
pub struct ComponentView {
    pub name: Option<Seq<char>>,
    pub platform: Seq<char>,
    pub device_class: Option<Seq<char>>,
    pub icon: Option<Seq<char>>,
    pub state_class: Option<Seq<char>>,
    pub unit_of_measurement: Option<Seq<char>>,
    pub unique_id: Seq<char>,
    pub value_template: Seq<char>,
    pub expire_after: Option<u64>,
}

/// A sensor as plain text: the view of a `Sensor`.
pub enum SensorView {
    Available,
    CpuUsage,
    Temperature(Seq<char>, Seq<char>),
    MemoryUsage,
    NetRx(Seq<char>),
    NetTx(Seq<char>),
}

impl View for Sensor {
    type V = SensorView;

    open spec fn view(&self) -> SensorView {
        match self {
            Sensor::Available => SensorView::Available,
            Sensor::CpuUsage => SensorView::CpuUsage,
            Sensor::Temperature(id, label) => SensorView::Temperature(id@, label@),
            Sensor::MemoryUsage => SensorView::MemoryUsage,
            Sensor::NetRx(interface) => SensorView::NetRx(interface@),
            Sensor::NetTx(interface) => SensorView::NetTx(interface@),
        }
    }
}

impl SensorView {
    /// The key of the sensor: its key in the components of the registration
    /// descriptor and the end of its unique identifier.
    pub open spec fn key(self) -> Seq<char> {
        match self {
            SensorView::Available => "available"@,
            SensorView::CpuUsage => "cpu_usage"@,
            SensorView::Temperature(id, _) => id + "_temp"@,
            SensorView::MemoryUsage => "memory_usage"@,
            SensorView::NetRx(interface) => interface + "_net_rx"@,
            SensorView::NetTx(interface) => interface + "_net_tx"@,
        }
    }

    /// The top-level key of the status message under which the sensor's value stands.
    pub open spec fn status_key(self) -> Seq<char> {
        match self {
            SensorView::Available => "available"@,
            SensorView::CpuUsage => "cpu_usage"@,
            SensorView::Temperature(_, _) => "temperature"@,
            SensorView::MemoryUsage => "memory_usage"@,
            SensorView::NetRx(_) => "network"@,
            SensorView::NetTx(_) => "network"@,
        }
    }

    /// The group of the status message that holds the sensor's value, for a
    /// sensor that belongs to a probe or an interface: the top-level key, a
    /// dot and the probe's or the interface's identifier.
    pub open spec fn status_group(self) -> Seq<char> {
        match self {
            SensorView::Temperature(id, _) => "value_json."@ + self.status_key() + "."@ + id,
            SensorView::NetRx(interface) => "value_json."@ + self.status_key() + "."@ + interface,
            SensorView::NetTx(interface) => "value_json."@ + self.status_key() + "."@ + interface,
            _ => "value_json."@ + self.status_key(),
        }
    }

    /// The path that leads from the status message to the sensor's value.
    pub open spec fn value_path(self) -> Seq<char> {
        match self {
            SensorView::NetRx(_) => self.status_group() + ".rx"@,
            SensorView::NetTx(_) => self.status_group() + ".tx"@,
            _ => self.status_group(),
        }
    }

    /// The template by which Home Assistant reads the sensor's value out of the
    /// status message. Every variant's template is made of its value path.
    pub open spec fn value_template(self) -> Seq<char> {
        match self {
            SensorView::Temperature(_, _) => "{{ "@ + self.value_path()
                + " if value_json.temperature and "@ + self.value_path() + " else None }}"@,
            SensorView::NetRx(_) => "{{ "@ + self.value_path() + " if "@ + self.status_group()
                + " else None }}"@,
            SensorView::NetTx(_) => "{{ "@ + self.value_path() + " if "@ + self.status_group()
                + " else None }}"@,
            _ => "{{ "@ + self.value_path() + " }}"@,
        }
    }

    /// The name shown in Home Assistant.
    pub open spec fn display_name(self) -> Option<Seq<char>> {
        match self {
            SensorView::Available => None,
            SensorView::CpuUsage => Some("CPU usage"@),
            SensorView::Temperature(_, label) => Some(label),
            SensorView::MemoryUsage => Some("Memory usage"@),
            SensorView::NetRx(interface) => Some(interface + " Network RX rate"@),
            SensorView::NetTx(interface) => Some(interface + " Network TX rate"@),
        }
    }

    /// The component that describes the sensor for the device `entity`.
    pub open spec fn component(self, entity: Seq<char>) -> ComponentView {
        ComponentView {
            name: self.display_name(),
            platform: match self {
                SensorView::Available => "binary_sensor"@,
                _ => "sensor"@,
            },
            device_class: match self {
                SensorView::Available => Some("connectivity"@),
                SensorView::Temperature(_, _) => Some("temperature"@),
                SensorView::NetRx(_) => Some("data_rate"@),
                SensorView::NetTx(_) => Some("data_rate"@),
                _ => None,
            },
            icon: match self {
                SensorView::CpuUsage => Some("mdi:cpu-64-bit"@),
                SensorView::MemoryUsage => Some("mdi:memory"@),
                _ => None,
            },
            state_class: match self {
                SensorView::Available => None,
                _ => Some("measurement"@),
            },
            unit_of_measurement: match self {
                SensorView::Available => None,
                SensorView::CpuUsage => Some("%"@),
                SensorView::MemoryUsage => Some("%"@),
                SensorView::Temperature(_, _) => Some("°C"@),
                SensorView::NetRx(_) => Some("KiB/s"@),
                SensorView::NetTx(_) => Some("KiB/s"@),
            },
            unique_id: entity + "_"@ + self.key(),
            value_template: self.value_template(),
            expire_after: match self {
                SensorView::Available => None,
                _ => Some(60u64),
            },
        }
    }

}

impl Sensor {
    /// Name of the sensor type as sent in the status.
    pub fn as_string(&self) -> (key: String)
        ensures
            key@ == self@.key(),
    {
        match self {
            Sensor::Available => String::from_str("available"),
            Sensor::CpuUsage => String::from_str("cpu_usage"),
            Sensor::Temperature(id, _) => id.clone().concat("_temp"),
            Sensor::MemoryUsage => String::from_str("memory_usage"),
            Sensor::NetRx(interface) => interface.clone().concat("_net_rx"),
            Sensor::NetTx(interface) => interface.clone().concat("_net_tx"),
        }
    }
}

/// Configured device component
#[derive(Debug, Clone)]
pub struct DeviceComponent {
    /// Name of the component, shown in Home Assistant
    pub name: Option<String>,
    /// Type of platform
    pub platform: &'static str,
    /// Device class: how Home Assistant interprets the reported values
    pub device_class: Option<&'static str>,
    /// An icon for the sensors that have no device class
    pub icon: Option<&'static str>,
    /// How Home Assistant stores the data
    pub state_class: Option<&'static str>,
    /// Unit used in the report
    pub unit_of_measurement: Option<&'static str>,
    /// Unique identifier of the component, made of the entity and the sensor's key
    pub unique_id: String,
    /// Tells Home Assistant where to find the value in the status message
    pub value_template: String,
    /// How long Home Assistant keeps a value when no other arrives, in seconds
    pub expire_after: Option<u64>,
}

/// The text of an optional constant.
pub open spec fn opt_text(s: Option<&'static str>) -> Option<Seq<char>> {
    match s {
        Some(t) => Some(t@),
        None => None,
    }
}

impl View for DeviceComponent {
    type V = ComponentView;

    open spec fn view(&self) -> ComponentView {
        ComponentView {
            name: match self.name {
                Some(n) => Some(n@),
                None => None,
            },
            platform: self.platform@,
            device_class: opt_text(self.device_class),
            icon: opt_text(self.icon),
            state_class: opt_text(self.state_class),
            unit_of_measurement: opt_text(self.unit_of_measurement),
            unique_id: self.unique_id@,
            value_template: self.value_template@,
            expire_after: self.expire_after,
        }
    }
}

/// The JSON text of an optional string: the string, or `null`.
pub open spec fn opt_string_text(s: Option<Seq<char>>) -> Seq<char> {
    match s {
        Some(t) => json_string_text(t),
        None => "null"@,
    }
}

/// The JSON text of a member that is left out when it has no value: `label`
/// and the string, or nothing.
pub open spec fn opt_member_text(label: Seq<char>, s: Option<Seq<char>>) -> Seq<char> {
    match s {
        Some(t) => label + json_string_text(t),
        None => Seq::empty(),
    }
}

/// The JSON text of the expiry, which is left out when there is none.
pub open spec fn expiry_text(expire_after: Option<u64>) -> Seq<char> {
    match expire_after {
        Some(n) => ",\"expire_after\":"@ + decimal_text(n as nat),
        None => Seq::empty(),
    }
}

impl ComponentView {
    /// The component as a JSON object.
    pub open spec fn json_text(self) -> Seq<char> {
        "{\"name\":"@ + opt_string_text(self.name) + ",\"platform\":"@ + json_string_text(
            self.platform,
        ) + ",\"device_class\":"@ + opt_string_text(self.device_class) + opt_member_text(
            ",\"icon\":"@,
            self.icon,
        ) + opt_member_text(",\"state_class\":"@, self.state_class) + opt_member_text(
            ",\"unit_of_measurement\":"@,
            self.unit_of_measurement,
        ) + ",\"unique_id\":"@ + json_string_text(self.unique_id) + ",\"value_template\":"@
            + json_string_text(self.value_template) + expiry_text(self.expire_after) + "}"@
    }
}

/// Appends to `out` the JSON text of an optional string.
fn push_opt_string(out: &mut String, s: Option<&str>)
    ensures
        final(out)@ == old(out)@ + opt_string_text(
            match s {
                Some(t) => Some(t@),
                None => None,
            },
        ),
{
    match s {
        Some(t) => {
            let text = json_string(t);
            out.append(text.as_str());
        },
        None => {
            out.append("null");
        },
    }
}

/// Appends to `out` the JSON text of a member that is left out when it has no value.
fn push_opt_member(out: &mut String, label: &str, s: Option<&'static str>)
    ensures
        final(out)@ == old(out)@ + opt_member_text(label@, opt_text(s)),
{
    match s {
        Some(t) => {
            let text = json_string(t);
            out.append(label);
            out.append(text.as_str());
            assert(final(out)@ =~= old(out)@ + opt_member_text(label@, opt_text(s)));
        },
        None => {
            assert(final(out)@ =~= old(out)@ + opt_member_text(label@, opt_text(s)));
        },
    }
}

impl DeviceComponent {
    /// Creates a new device component from a sensor type
    pub fn new(sensor: Sensor, entity: &str) -> (c: DeviceComponent)
        ensures
            c@ == sensor@.component(entity@),
    {
        match sensor {
            Sensor::Available => Self::available(entity),
            Sensor::CpuUsage => Self::cpu_usage(entity),
            Sensor::MemoryUsage => Self::memory_usage(entity),
            Sensor::NetRx(interface) => Self::net_rx(entity, interface.as_str()),
            Sensor::NetTx(interface) => Self::net_tx(entity, interface.as_str()),
            Sensor::Temperature(id, label) => Self::temperature(
                entity,
                id.as_str(),
                label.as_str(),
            ),
        }
    }

    /// Creates the availability sensor
    fn available(entity: &str) -> (c: DeviceComponent)
        ensures
            c@ == SensorView::Available.component(entity@),
    {
        let c = DeviceComponent {
            name: None,
            platform: "binary_sensor",
            device_class: Some("connectivity"),
            icon: None,
            state_class: None,
            unit_of_measurement: None,
            unique_id: String::from_str(entity).concat("_").concat("available"),
            value_template: String::from_str("{{ ").concat("value_json.").concat(
                "available",
            ).concat(" }}"),
            expire_after: None,
        };
        assert(c@.unique_id =~= SensorView::Available.component(entity@).unique_id);
        assert(c@.value_template =~= SensorView::Available.value_template());
        c
    }

    /// Creates a CPU usage sensor
    fn cpu_usage(entity: &str) -> (c: DeviceComponent)
        ensures
            c@ == SensorView::CpuUsage.component(entity@),
    {
        let c = DeviceComponent {
            name: Some(String::from_str("CPU usage")),
            platform: "sensor",
            device_class: None,
            state_class: Some("measurement"),
            icon: Some("mdi:cpu-64-bit"),
            unit_of_measurement: Some("%"),
            unique_id: String::from_str(entity).concat("_").concat("cpu_usage"),
            value_template: String::from_str("{{ ").concat("value_json.").concat(
                "cpu_usage",
            ).concat(" }}"),
            expire_after: Some(60),
        };
        assert(c@.unique_id =~= SensorView::CpuUsage.component(entity@).unique_id);
        assert(c@.value_template =~= SensorView::CpuUsage.value_template());
        c
    }

    /// Creates a memory usage sensor
    fn memory_usage(entity: &str) -> (c: DeviceComponent)
        ensures
            c@ == SensorView::MemoryUsage.component(entity@),
    {
        let c = DeviceComponent {
            name: Some(String::from_str("Memory usage")),
            platform: "sensor",
            device_class: None,
            state_class: Some("measurement"),
            icon: Some("mdi:memory"),
            unit_of_measurement: Some("%"),
            unique_id: String::from_str(entity).concat("_").concat("memory_usage"),
            value_template: String::from_str("{{ ").concat("value_json.").concat(
                "memory_usage",
            ).concat(" }}"),
            expire_after: Some(60),
        };
        assert(c@.unique_id =~= SensorView::MemoryUsage.component(entity@).unique_id);
        assert(c@.value_template =~= SensorView::MemoryUsage.value_template());
        c
    }

    /// Creates a temperature sensor for the probe `id`, shown as `label`
    fn temperature(entity: &str, id: &str, label: &str) -> (c: DeviceComponent)
        ensures
            c@ == SensorView::Temperature(id@, label@).component(entity@),
    {
        let path = String::from_str("value_json.").concat("temperature").concat(".").concat(id);
        let c = DeviceComponent {
            name: Some(String::from_str(label)),
            platform: "sensor",
            device_class: Some("temperature"),
            icon: None,
            state_class: Some("measurement"),
            unit_of_measurement: Some("°C"),
            unique_id: String::from_str(entity).concat("_").concat(id).concat("_temp"),
            value_template: String::from_str("{{ ").concat(path.as_str()).concat(
                " if value_json.temperature and ",
            ).concat(path.as_str()).concat(" else None }}"),
            expire_after: Some(60),
        };
        proof {
            let s = SensorView::Temperature(id@, label@);
            assert(path@ =~= s.value_path());
            assert(c@.unique_id =~= s.component(entity@).unique_id);
            assert(c@.value_template =~= s.value_template());
        }
        c
    }

    /// Creates a network RX sensor for `interface`
    fn net_rx(entity: &str, interface: &str) -> (c: DeviceComponent)
        ensures
            c@ == SensorView::NetRx(interface@).component(entity@),
    {
        let group = String::from_str("value_json.").concat("network").concat(".").concat(
            interface,
        );
        let path = group.clone().concat(".rx");
        let c = DeviceComponent {
            name: Some(String::from_str(interface).concat(" Network RX rate")),
            platform: "sensor",
            device_class: Some("data_rate"),
            state_class: Some("measurement"),
            icon: None,
            unit_of_measurement: Some("KiB/s"),
            unique_id: String::from_str(entity).concat("_").concat(interface).concat("_net_rx"),
            value_template: String::from_str("{{ ").concat(path.as_str()).concat(" if ").concat(
                group.as_str(),
            ).concat(" else None }}"),
            expire_after: Some(60),
        };
        proof {
            let s = SensorView::NetRx(interface@);
            assert(group@ =~= s.status_group());
            assert(c@.unique_id =~= s.component(entity@).unique_id);
            assert(c@.value_template =~= s.value_template());
        }
        c
    }

    /// Creates a network TX sensor for `interface`
    fn net_tx(entity: &str, interface: &str) -> (c: DeviceComponent)
        ensures
            c@ == SensorView::NetTx(interface@).component(entity@),
    {
        let group = String::from_str("value_json.").concat("network").concat(".").concat(
            interface,
        );
        let path = group.clone().concat(".tx");
        let c = DeviceComponent {
            name: Some(String::from_str(interface).concat(" Network TX rate")),
            platform: "sensor",
            device_class: Some("data_rate"),
            state_class: Some("measurement"),
            icon: None,
            unit_of_measurement: Some("KiB/s"),
            unique_id: String::from_str(entity).concat("_").concat(interface).concat("_net_tx"),
            value_template: String::from_str("{{ ").concat(path.as_str()).concat(" if ").concat(
                group.as_str(),
            ).concat(" else None }}"),
            expire_after: Some(60),
        };
        proof {
            let s = SensorView::NetTx(interface@);
            assert(group@ =~= s.status_group());
            assert(c@.unique_id =~= s.component(entity@).unique_id);
            assert(c@.value_template =~= s.value_template());
        }
        c
    }

    /// The component as a JSON object
    pub fn to_json(&self) -> (text: String)
        ensures
            text@ == self@.json_text(),
    {
        let mut out = String::from_str("{\"name\":");
        match &self.name {
            Some(n) => push_opt_string(&mut out, Some(n.as_str())),
            None => push_opt_string(&mut out, None),
        }
        out.append(",\"platform\":");
        out.append(json_string(self.platform).as_str());
        out.append(",\"device_class\":");
        match self.device_class {
            Some(c) => push_opt_string(&mut out, Some(c)),
            None => push_opt_string(&mut out, None),
        }
        push_opt_member(&mut out, ",\"icon\":", self.icon);
        push_opt_member(&mut out, ",\"state_class\":", self.state_class);
        push_opt_member(&mut out, ",\"unit_of_measurement\":", self.unit_of_measurement);
        out.append(",\"unique_id\":");
        out.append(json_string(self.unique_id.as_str()).as_str());
        out.append(",\"value_template\":");
        out.append(json_string(self.value_template.as_str()).as_str());
        match self.expire_after {
            Some(n) => {
                out.append(",\"expire_after\":");
                out.append(decimal(n).as_str());
            },
            None => {},
        }
        out.append("}");
        assert(out@ =~= self@.json_text());
        out
    }

    /// The template by which Home Assistant reads the value
    pub fn value_template(&self) -> (t: &str)
        ensures
            t@ == self@.value_template,
    {
        self.value_template.as_str()
    }
}

/// Device sent to Home Assistant
#[derive(Debug, Clone)]
pub struct Device {
    /// Name of the device: the configured entity
    pub name: String,
    /// Identifier of the device: the configured entity in snake case
    pub identifiers: String,
}

/// Describes the origin of the messages
#[derive(Debug, Clone)]
pub struct Origin {
    /// Name of the origin
    pub name: &'static str,
    /// Version of the origin
    pub sw_version: &'static str,
    /// URL of the origin
    pub url: &'static str,
}

/// Registration descriptor sent to Home Assistant
///
/// This describes the device and its components (the sensors that are configured)
#[derive(Debug)]
pub struct RegistrationDescriptor {
    /// Device sent to Home Assistant
    device: Device,
    /// Describes the origin of the messages
    origin: Origin,
    /// Configured device components, by the key of their sensor
    components: StringMap<DeviceComponent>,
    /// Topic to which the status messages are sent
    state_topic: String,
}

/// What a registration descriptor holds, as plain text.
pub struct DescriptorView {
    pub name: Seq<char>,
    pub identifier: Seq<char>,
    pub origin_name: Seq<char>,
    pub origin_version: Seq<char>,
    pub origin_url: Seq<char>,
    pub components: Map<Seq<char>, ComponentView>,
    pub state_topic: Seq<char>,
}

/// The identifier that `convert_case` derives from an entity name: the name in
/// snake case.
pub uninterp spec fn snake_case(name: Seq<char>) -> Seq<char>;

/// Converts `name` to snake case with `convert_case`: `Casing::to_case` with
/// `Case::Snake`, which splits the text into words at the default boundaries,
/// puts each word in lower case and joins the words with underscores. The
/// contract only names the result as `snake_case` of the input.
#[verifier::external_body]
fn to_snake_case(name: &str) -> (r: String)
    ensures
        r@ == snake_case(name@),
{
    name.to_case(Case::Snake)
}

/// The topic to which the device `identifier` sends its status messages.
pub open spec fn state_topic_of(identifier: Seq<char>) -> Seq<char> {
    "mqtt-system-monitor/"@ + identifier + "/state"@
}

/// The topic under `prefix` to which the device `identifier` sends its
/// registration descriptor.
pub open spec fn discovery_topic_of(prefix: Seq<char>, identifier: Seq<char>) -> Seq<char> {
    prefix + "/device/"@ + identifier + "/config"@
}

/// Whether `component` is the component of `sensor` for the device
/// `identifier`, and `key` the key of that sensor.
pub open spec fn describes(
    sensor: SensorView,
    key: Seq<char>,
    component: ComponentView,
    identifier: Seq<char>,
) -> bool {
    sensor.key() == key && component == sensor.component(identifier)
}

impl DescriptorView {
    /// The descriptor of the device `name` with the identifier `identifier`
    /// and no component.
    pub open spec fn empty(name: Seq<char>, identifier: Seq<char>) -> DescriptorView {
        DescriptorView {
            name,
            identifier,
            origin_name: ORIGIN_NAME@,
            origin_version: ORIGIN_VERSION@,
            origin_url: ORIGIN_URL@,
            components: Map::empty(),
            state_topic: state_topic_of(identifier),
        }
    }

    /// The descriptor after `sensor` was registered.
    pub open spec fn registered(self, sensor: SensorView) -> DescriptorView {
        DescriptorView {
            components: self.components.insert(sensor.key(), sensor.component(self.identifier)),
            ..self
        }
    }

    /// The descriptor after `sensor` was taken out.
    pub open spec fn unregistered(self, sensor: SensorView) -> DescriptorView {
        DescriptorView { components: self.components.remove(sensor.key()), ..self }
    }

    /// Whether `sensor` is registered.
    pub open spec fn has(self, sensor: SensorView) -> bool {
        self.components.contains_key(sensor.key())
    }

    /// What every descriptor keeps: the state topic belongs to the device, and
    /// each component is the component of a sensor that has the key under
    /// which the component stands.
    pub open spec fn consistent(self) -> bool {
        &&& self.state_topic == state_topic_of(self.identifier)
        &&& forall|k: Seq<char>| #[trigger]
            self.components.contains_key(k) ==> exists|sensor: SensorView| #[trigger]
                describes(sensor, k, self.components[k], self.identifier)
    }
}

/// The JSON text of the components under `keys`, in that order, with commas
/// between them.
pub open spec fn members_text(keys: Seq<Seq<char>>, components: Map<Seq<char>, ComponentView>) -> Seq<
    char,
>
    decreases keys.len(),
{
    if keys.len() == 0 {
        Seq::empty()
    } else {
        members_text(keys.drop_last(), components) + (if keys.len() == 1 {
            Seq::<char>::empty()
        } else {
            ","@
        }) + json_string_text(keys.last()) + ":"@ + components[keys.last()].json_text()
    }
}

impl DescriptorView {
    /// The descriptor as a JSON object, with the components written in the
    /// order of `keys`.
    pub open spec fn json_text(self, keys: Seq<Seq<char>>) -> Seq<char> {
        "{\"device\":{\"name\":"@ + json_string_text(self.name) + ",\"identifiers\":"@
            + json_string_text(self.identifier) + "},\"origin\":{\"name\":"@ + json_string_text(
            self.origin_name,
        ) + ",\"sw_version\":"@ + json_string_text(self.origin_version) + ",\"url\":"@
            + json_string_text(self.origin_url) + "},\"components\":{"@ + members_text(
            keys,
            self.components,
        ) + "},\"state_topic\":"@ + json_string_text(self.state_topic) + "}"@
    }
}

impl View for RegistrationDescriptor {
    type V = DescriptorView;

    closed spec fn view(&self) -> DescriptorView {
        DescriptorView {
            name: self.device.name@,
            identifier: self.device.identifiers@,
            origin_name: self.origin.name@,
            origin_version: self.origin.sw_version@,
            origin_url: self.origin.url@,
            components: self.components@.map_values(|c: DeviceComponent| c@),
            state_topic: self.state_topic@,
        }
    }
}

impl RegistrationDescriptor {
    /// The keys of the components, in the order in which they are held and
    /// written: the order of the keys.
    pub closed spec fn keys(self) -> Seq<Seq<char>> {
        self.components.keys()
    }

    /// The descriptor is well formed: no key is held twice, the keys held are
    /// those of the components, and the descriptor is consistent.
    pub closed spec fn wf(self) -> bool {
        &&& self.components.wf()
        &&& self@.consistent()
    }

    /// In a well-formed descriptor the keys are sorted, so distinct, and are
    /// exactly the keys of the components.
    pub proof fn lemma_keys(self)
        requires
            self.wf(),
        ensures
            self@.consistent(),
            sorted(self.keys()),
            self.keys().no_duplicates(),
            forall|k: Seq<char>| self.keys().contains(k) <==> self@.components.contains_key(k),
    {
        assert forall|i: int, j: int|
            0 <= i < self.keys().len() && 0 <= j < self.keys().len() && i != j implies self.keys()[i]
            != self.keys()[j] by {
            self.components.lemma_entry(i);
            self.components.lemma_entry(j);
        }
        assert forall|k: Seq<char>| self.keys().contains(k) <==> self@.components.contains_key(
            k,
        ) by {
            if self.keys().contains(k) {
                let i = choose|i: int| 0 <= i < self.keys().len() && self.keys()[i] == k;
                self.components.lemma_entry(i);
            }
            if self@.components.contains_key(k) {
                assert(self.components.has(k));
                let i = self.components.index_of(k);
                assert(self.keys()[i] == k);
            }
        }
    }

    /// Creates a new registration descriptor for the entity `name`, with no
    /// sensor configured. The identifier of the device is the name in snake case.
    pub fn new(name: &str) -> (d: RegistrationDescriptor)
        ensures
            d.wf(),
            d@ == DescriptorView::empty(name@, snake_case(name@)),
            d.keys().len() == 0,
    {
        let entity = to_snake_case(name);
        Self::with_identifier(name, entity)
    }

    /// Creates a new registration descriptor for the entity `name` whose
    /// identifier is `identifier`, with no sensor configured.
    pub fn with_identifier(name: &str, identifier: String) -> (d: RegistrationDescriptor)
        ensures
            d.wf(),
            d@ == DescriptorView::empty(name@, identifier@),
            d.keys().len() == 0,
    {
        let state_topic = String::from_str("mqtt-system-monitor/").concat(
            identifier.as_str(),
        ).concat("/state");
        let d = RegistrationDescriptor {
            device: Device { name: String::from_str(name), identifiers: identifier },
            origin: Origin { name: ORIGIN_NAME, sw_version: ORIGIN_VERSION, url: ORIGIN_URL },
            components: StringMap::new(),
            state_topic,
        };
        proof {
            assert(d@.components =~= Map::<Seq<char>, ComponentView>::empty());
            assert(d@.state_topic =~= state_topic_of(d@.identifier));
        }
        d
    }

    /// Adds a component to the descriptor, in place of the one that stood
    /// under the sensor's key before.
    pub fn add_component(&mut self, sensor: Sensor)
        requires
            old(self).wf(),
        ensures
            final(self).wf(),
            final(self)@ == old(self)@.registered(sensor@),
            final(self).keys().len() == if old(self)@.has(sensor@) {
                old(self).keys().len()
            } else {
                old(self).keys().len() + 1
            },
    {
        let ghost before = *self;
        let key = sensor.as_string();
        let component = DeviceComponent::new(sensor, self.device.identifiers.as_str());
        self.components.insert(key, component);
        proof {
            let after = final(self)@;
            assert(after.components =~= before@.components.insert(
                sensor@.key(),
                sensor@.component(before@.identifier),
            ));
            assert forall|k: Seq<char>| #[trigger] after.components.contains_key(k) implies exists|
                s: SensorView,
            | #[trigger] describes(s, k, after.components[k], after.identifier) by {
                if k == sensor@.key() {
                    assert(describes(sensor@, k, after.components[k], after.identifier));
                } else {
                    let s = choose|s: SensorView| #[trigger]
                        describes(s, k, before@.components[k], before@.identifier);
                    assert(describes(s, k, after.components[k], after.identifier));
                }
            }
        }
    }

    /// Returns `true` if the sensor is configured
    pub fn has_sensor(&self, sensor: Sensor) -> (b: bool)
        ensures
            b == self@.has(sensor@),
    {
        let key = sensor.as_string();
        self.components.contains_key(&key)
    }

    /// Removes the sensor from this descriptor
    pub fn remove_sensor(&mut self, sensor: Sensor)
        requires
            old(self).wf(),
        ensures
            final(self).wf(),
            final(self)@ == old(self)@.unregistered(sensor@),
            final(self).keys().len() == if old(self)@.has(sensor@) {
                old(self).keys().len() - 1
            } else {
                old(self).keys().len() as int
            },
    {
        let ghost before = *self;
        let key = sensor.as_string();
        self.components.remove(&key);
        proof {
            assert(final(self)@.components =~= before@.components.remove(sensor@.key()));
            before@.lemma_unregister_absent(sensor@);
        }
    }

    /// Topic under `prefix` to which the registration descriptor is sent
    pub fn discovery_topic(&self, prefix: &str) -> (topic: String)
        ensures
            topic@ == discovery_topic_of(prefix@, self@.identifier),
    {
        String::from_str(prefix).concat("/device/").concat(self.device.identifiers.as_str()).concat(
            "/config",
        )
    }

    /// Topic to which the status messages are sent
    pub fn state_topic(&self) -> (topic: &str)
        ensures
            topic@ == self@.state_topic,
            self.wf() ==> topic@ == state_topic_of(self@.identifier),
    {
        self.state_topic.as_str()
    }

    /// Returns the configured components, by the key of their sensor
    pub fn components(&self) -> (c: &StringMap<DeviceComponent>)
        ensures
            c@.map_values(|d: DeviceComponent| d@) == self@.components,
            self.wf() ==> c.wf(),
            c.entries().len() == self.keys().len(),
            forall|i: int| 0 <= i < self.keys().len() ==> c.entries()[i].0 == self.keys()[i],
    {
        &self.components
    }

    /// Formats the descriptor in JSON format: an object with the device, the
    /// origin, the components by their keys and the state topic.
    pub fn to_string(&self) -> (text: String)
        requires
            self.wf(),
        ensures
            text@ == self@.json_text(self.keys()),
    {
        let mut out = String::from_str("{\"device\":{\"name\":");
        out.append(json_string(self.device.name.as_str()).as_str());
        out.append(",\"identifiers\":");
        out.append(json_string(self.device.identifiers.as_str()).as_str());
        out.append("},\"origin\":{\"name\":");
        out.append(json_string(self.origin.name).as_str());
        out.append(",\"sw_version\":");
        out.append(json_string(self.origin.sw_version).as_str());
        out.append(",\"url\":");
        out.append(json_string(self.origin.url).as_str());
        out.append("},\"components\":{");
        let ghost head = out@;
        let n = self.components.len();
        let mut i: usize = 0;
        assert(self.keys().take(0) =~= Seq::<Seq<char>>::empty());
        while i < n
            invariant
                self.wf(),
                n == self.keys().len(),
                i <= n,
                out@ == head + members_text(self.keys().take(i as int), self@.components),
            decreases n - i,
        {
            let ghost before = out@;
            if i > 0 {
                out.append(",");
            }
            let key = self.components.key_at(i);
            let component = self.components.value_at(i);
            out.append(json_string(key.as_str()).as_str());
            out.append(":");
            out.append(component.to_json().as_str());
            proof {
                let keys = self.keys().take(i + 1);
                assert(keys.drop_last() =~= self.keys().take(i as int));
                assert(keys.last() == key@);
                self.components.lemma_entry(i as int);
                assert(self@.components[key@] == component@);
                assert(out@ =~= head + members_text(keys, self@.components));
            }
            i = i + 1;
        }
        assert(self.keys().take(n as int) =~= self.keys());
        out.append("},\"state_topic\":");
        out.append(json_string(self.state_topic.as_str()).as_str());
        out.append("}");
        assert(out@ =~= self@.json_text(self.keys()));
        out
    }

    /// The JSON text of a descriptor does not depend on the order in which
    /// its sensors were registered: two well-formed descriptors that hold the
    /// same device and the same components give the same text.
    pub proof fn lemma_text_independent_of_order(self, other: RegistrationDescriptor)
        requires
            self.wf(),
            other.wf(),
            self@ == other@,
        ensures
            self.keys() == other.keys(),
            self@.json_text(self.keys()) == other@.json_text(other.keys()),
    {
        self.lemma_keys();
        other.lemma_keys();
        assert(sorted(self.keys()));
        assert(sorted(other.keys()));
        lemma_sorted_same_keys(self.keys(), other.keys());
    }

    /// Returns the device
    pub fn device(&self) -> (d: &Device)
        ensures
            d.name@ == self@.name,
            d.identifiers@ == self@.identifier,
    {
        &self.device
    }

    /// Returns the origin of the messages
    pub fn origin(&self) -> (o: &Origin)
        ensures
            o.name@ == self@.origin_name,
            o.sw_version@ == self@.origin_version,
            o.url@ == self@.origin_url,
    {
        &self.origin
    }
}

/// Two texts that are equal after the same ending was put behind each are equal.
pub proof fn lemma_same_ending(a: Seq<char>, b: Seq<char>, ending: Seq<char>)
    requires
        a + ending == b + ending,
    ensures
        a == b,
{
    assert(a.len() == b.len()) by {
        assert((a + ending).len() == a.len() + ending.len());
        assert((b + ending).len() == b.len() + ending.len());
    }
    assert forall|i: int| 0 <= i < a.len() implies a[i] == b[i] by {
        assert((a + ending)[i] == a[i]);
        assert((b + ending)[i] == b[i]);
    }
    assert(a =~= b);
}

impl SensorView {
    /// Whether the two sensors read the same value: they are of the same
    /// kind and belong to the same probe or interface. Two temperature
    /// sensors of one probe may differ in their label.
    pub open spec fn same_source(self, other: SensorView) -> bool {
        match (self, other) {
            (SensorView::Available, SensorView::Available) => true,
            (SensorView::CpuUsage, SensorView::CpuUsage) => true,
            (SensorView::MemoryUsage, SensorView::MemoryUsage) => true,
            (SensorView::Temperature(a, _), SensorView::Temperature(b, _)) => a == b,
            (SensorView::NetRx(a), SensorView::NetRx(b)) => a == b,
            (SensorView::NetTx(a), SensorView::NetTx(b)) => a == b,
            _ => false,
        }
    }

    /// How the key of each kind of sensor begins and ends.
    proof fn lemma_key_ending(self)
        ensures
            self.key().len() >= 5,
            match self {
                SensorView::Available => self.key().len() == 9 && self.key()[0] == 'a'
                    && self.key().last() == 'e',
                SensorView::CpuUsage => self.key().len() == 9 && self.key()[0] == 'c'
                    && self.key().last() == 'e',
                SensorView::MemoryUsage => self.key().len() == 12 && self.key().last() == 'e',
                SensorView::Temperature(_, _) => self.key().last() == 'p',
                SensorView::NetRx(_) => self.key().last() == 'x' && self.key()[self.key().len()
                    - 2] == 'r',
                SensorView::NetTx(_) => self.key().last() == 'x' && self.key()[self.key().len()
                    - 2] == 't',
            },
    {
        reveal_strlit("available");
        reveal_strlit("cpu_usage");
        reveal_strlit("memory_usage");
        reveal_strlit("_temp");
        reveal_strlit("_net_rx");
        reveal_strlit("_net_tx");
        match self {
            SensorView::Temperature(id, _) => {
                assert(self.key()[id.len() as int + 4] == "_temp"@[4]);
            },
            SensorView::NetRx(interface) => {
                assert(self.key()[interface.len() as int + 6] == "_net_rx"@[6]);
                assert(self.key()[interface.len() as int + 5] == "_net_rx"@[5]);
            },
            SensorView::NetTx(interface) => {
                assert(self.key()[interface.len() as int + 6] == "_net_tx"@[6]);
                assert(self.key()[interface.len() as int + 5] == "_net_tx"@[5]);
            },
            _ => {},
        }
    }

    /// The key of a sensor tells where its value stands: two sensors with the
    /// same key read the same value, by the same path and the same template,
    /// under the same top-level key of the status message.
    pub proof fn lemma_key_determines_source(self, other: SensorView)
        requires
            self.key() == other.key(),
        ensures
            self.same_source(other),
            self.status_key() == other.status_key(),
            self.value_path() == other.value_path(),
            self.value_template() == other.value_template(),
    {
        self.lemma_key_ending();
        other.lemma_key_ending();
        match (self, other) {
            (SensorView::Temperature(a, _), SensorView::Temperature(b, _)) => {
                lemma_same_ending(a, b, "_temp"@);
            },
            (SensorView::NetRx(a), SensorView::NetRx(b)) => {
                lemma_same_ending(a, b, "_net_rx"@);
            },
            (SensorView::NetTx(a), SensorView::NetTx(b)) => {
                lemma_same_ending(a, b, "_net_tx"@);
            },
            _ => {},
        }
    }
}

impl DescriptorView {
    /// Registering a sensor twice leaves what registering it once leaves: one
    /// component under the sensor's key. A consistent descriptor stays so.
    pub proof fn lemma_register_idempotent(self, sensor: SensorView)
        ensures
            self.registered(sensor).registered(sensor) == self.registered(sensor),
            self.registered(sensor).has(sensor),
            self.registered(sensor).components.dom() == self.components.dom().insert(sensor.key()),
            self.has(sensor) ==> self.registered(sensor).components.dom() == self.components.dom(),
            self.consistent() ==> self.registered(sensor).consistent(),
    {
        let once = self.registered(sensor);
        assert(once.registered(sensor).components =~= once.components);
        assert(once.components.dom() =~= self.components.dom().insert(sensor.key()));
        if self.has(sensor) {
            assert(once.components.dom() =~= self.components.dom());
        }
        if self.consistent() {
            assert forall|k: Seq<char>| #[trigger] once.components.contains_key(k) implies exists|
                s: SensorView,
            | #[trigger] describes(s, k, once.components[k], once.identifier) by {
                if k == sensor.key() {
                    assert(describes(sensor, k, once.components[k], once.identifier));
                } else {
                    let s = choose|s: SensorView| #[trigger]
                        describes(s, k, self.components[k], self.identifier);
                    assert(describes(s, k, once.components[k], once.identifier));
                }
            }
        }
    }

    /// Taking out a sensor that is not registered changes nothing, and taking
    /// one out twice is taking it out once.
    pub proof fn lemma_unregister_absent(self, sensor: SensorView)
        ensures
            !self.has(sensor) ==> self.unregistered(sensor) == self,
            self.unregistered(sensor).unregistered(sensor) == self.unregistered(sensor),
            !self.unregistered(sensor).has(sensor),
            self.consistent() ==> self.unregistered(sensor).consistent(),
    {
        let gone = self.unregistered(sensor);
        if !self.has(sensor) {
            assert(gone.components =~= self.components);
        }
        assert(gone.unregistered(sensor).components =~= gone.components);
        if self.consistent() {
            assert forall|k: Seq<char>| #[trigger] gone.components.contains_key(k) implies exists|
                s: SensorView,
            | #[trigger] describes(s, k, gone.components[k], gone.identifier) by {
                let s = choose|s: SensorView| #[trigger]
                    describes(s, k, self.components[k], self.identifier);
                assert(describes(s, k, gone.components[k], gone.identifier));
            }
        }
    }

    /// In a consistent descriptor the component of every registered sensor
    /// stands under the sensor's key, ends its unique identifier with that
    /// key, and reads the sensor's value by the sensor's own template.
    pub proof fn lemma_registered_component(self, sensor: SensorView)
        requires
            self.consistent(),
            self.has(sensor),
        ensures
            self.components[sensor.key()].unique_id == self.identifier + "_"@ + sensor.key(),
            self.components[sensor.key()].value_template == sensor.value_template(),
    {
        let k = sensor.key();
        let s = choose|s: SensorView| #[trigger]
            describes(s, k, self.components[k], self.identifier);
        s.lemma_key_determines_source(sensor);
    }
}

} // verus!
