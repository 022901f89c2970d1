//! The status message that is sent to the broker at each cycle.

use crate::home_assistant::{Sensor, SensorView};
use crate::rate::Rate;
use crate::string_map::StringMap;
use vstd::prelude::*;

verus! {

/// A measured value as the sampler hands it over: the bit pattern of a
/// single-precision number. The library carries it and never computes on it.
#[derive(Debug, Clone, Copy, PartialEq, Eq, Structural)]
pub struct Reading {
    /// The 32 bits of the number
    pub bits: u32,
}

/// Network status of one interface
#[derive(Debug, Clone, Copy, PartialEq, Eq, Structural)]
pub struct NetworkStatus {
    /// Upload rate
    pub tx: Rate,
    /// Download rate
    pub rx: Rate,
}

/// Message sent to the broker, which forwards it to Home Assistant
///
/// This holds the values that Home Assistant reads. A value that is not known
/// is left out.
#[derive(Debug)]
pub struct StatusMessage {
    /// `"ON"` while the monitor runs, `"OFF"` when it leaves
    pub available: &'static str,
    /// CPU usage in %
    pub cpu_usage: Option<Reading>,
    /// Memory usage in %
    pub memory_usage: Option<Reading>,
    /// Temperatures in °C, by the identifier of the probe
    pub temperature: StringMap<Reading>,
    /// Rates of the network interfaces, by the name of the interface
    pub network: StringMap<NetworkStatus>,
}

/// What a status message holds, as plain values.
pub struct StatusView {
    pub available: Seq<char>,
    pub cpu_usage: Option<Reading>,
    pub memory_usage: Option<Reading>,
    pub temperature: Map<Seq<char>, Reading>,
    pub network: Map<Seq<char>, NetworkStatus>,
}

impl StatusView {
    /// The message of a monitor that leaves: `"OFF"` and no value.
    pub open spec fn off() -> StatusView {
        StatusView {
            available: "OFF"@,
            cpu_usage: None,
            memory_usage: None,
            temperature: Map::empty(),
            network: Map::empty(),
        }
    }

    /// The top-level keys that a status message can hold.
    pub open spec fn top_level_keys() -> Set<Seq<char>> {
        set!["available"@, "cpu_usage"@, "memory_usage"@, "temperature"@, "network"@]
    }

    /// Whether the message holds a value where the value path of `sensor` leads.
    pub open spec fn holds(self, sensor: SensorView) -> bool {
        match sensor {
            SensorView::Available => true,
            SensorView::CpuUsage => self.cpu_usage is Some,
            SensorView::MemoryUsage => self.memory_usage is Some,
            SensorView::Temperature(id, _) => self.temperature.contains_key(id),
            SensorView::NetRx(interface) => self.network.contains_key(interface),
            SensorView::NetTx(interface) => self.network.contains_key(interface),
        }
    }
}

impl View for StatusMessage {
    type V = StatusView;

    open spec fn view(&self) -> StatusView {
        StatusView {
            available: self.available@,
            cpu_usage: self.cpu_usage,
            memory_usage: self.memory_usage,
            temperature: self.temperature@,
            network: self.network@,
        }
    }
}

impl StatusMessage {
    /// Both maps of the message hold each key once.
    pub open spec fn wf(self) -> bool {
        self.temperature.wf() && self.network.wf()
    }

    /// Produces the status when we're disconnecting
    pub fn off() -> (status: StatusMessage)
        ensures
            status.wf(),
            status@ == StatusView::off(),
    {
        StatusMessage {
            available: "OFF",
            cpu_usage: None,
            memory_usage: None,
            temperature: StringMap::new(),
            network: StringMap::new(),
        }
    }

    /// Whether the message holds a value for `sensor`
    pub fn has_value(&self, sensor: &Sensor) -> (b: bool)
        ensures
            b == self@.holds(sensor@),
    {
        match sensor {
            Sensor::Available => true,
            Sensor::CpuUsage => self.cpu_usage.is_some(),
            Sensor::MemoryUsage => self.memory_usage.is_some(),
            Sensor::Temperature(id, _) => self.temperature.contains_key(id),
            Sensor::NetRx(interface) => self.network.contains_key(interface),
            Sensor::NetTx(interface) => self.network.contains_key(interface),
        }
    }
}

/// The message of a monitor that leaves holds no value but its availability.
pub proof fn lemma_off_holds_nothing(sensor: SensorView)
    ensures
        StatusView::off().holds(sensor) <==> sensor == SensorView::Available,
        StatusView::off().available == "OFF"@,
{
}

/// The value path and the value template of every sensor start at a top-level
/// key of the status message: the key that `holds` looks under.
pub proof fn lemma_template_reads_status_key(sensor: SensorView)
    ensures
        StatusView::top_level_keys().contains(sensor.status_key()),
        ("value_json."@ + sensor.status_key()).is_prefix_of(sensor.value_path()),
        ("{{ value_json."@ + sensor.status_key()).is_prefix_of(sensor.value_template()),
{
    reveal_strlit("{{ value_json.");
    reveal_strlit("{{ ");
    reveal_strlit("value_json.");
    let head = "value_json."@ + sensor.status_key();
    assert(head.is_prefix_of(sensor.status_group())) by {
        assert(sensor.status_group().subrange(0, head.len() as int) =~= head);
    }
    assert(head.is_prefix_of(sensor.value_path())) by {
        assert(sensor.value_path().subrange(0, head.len() as int) =~= head);
    }
    assert("{{ value_json."@ =~= "{{ "@ + "value_json."@);
    let long = "{{ value_json."@ + sensor.status_key();
    assert(long =~= "{{ "@ + head);
    assert(long.is_prefix_of(sensor.value_template())) by {
        assert(sensor.value_template().subrange(0, long.len() as int) =~= long);
    }
}

} // verus!
