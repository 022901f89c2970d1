//! The reporting engine: which sensors are registered, and what a cycle reports.

use crate::configuration::{valid_period, ConfigError, Configuration};
use crate::home_assistant::{
    discovery_topic_of, snake_case, DescriptorView, RegistrationDescriptor, Sensor, SensorView,
};
use crate::lifecycle::ReportingLoop;
use crate::names::{distinct, distinct_names, contains_name, lemma_distinct, texts};
use crate::rate::RateTracker;
use crate::status::{NetworkStatus, Reading, StatusMessage, StatusView};
use crate::string_map::StringMap;
use vstd::prelude::*;

verus! {

/// A temperature probe that the sampler has found
#[derive(Debug, Clone)]
pub struct Probe {
    /// Identifier of the probe
    pub id: String,
    /// Label of the probe, shown in Home Assistant
    pub label: String,
}

/// A probe as plain text.
pub struct ProbeView {
    pub id: Seq<char>,
    pub label: Seq<char>,
}

impl View for Probe {
    type V = ProbeView;

    open spec fn view(&self) -> ProbeView {
        ProbeView { id: self.id@, label: self.label@ }
    }
}

/// The probes of a list as plain text.
pub open spec fn probe_views(list: Seq<Probe>) -> Seq<ProbeView> {
    Seq::new(list.len(), |i: int| list[i]@)
}

/// The cumulative counters of a network interface
#[derive(Debug, Clone, Copy, PartialEq, Eq, Structural)]
pub struct Counters {
    /// Bytes sent since the interface came up
    pub transmitted: u64,
    /// Bytes received since the interface came up
    pub received: u64,
}

/// The two trackers of a network interface
#[derive(Debug, Clone, Copy, PartialEq, Eq, Structural)]
pub struct InterfaceTrackers {
    /// Tracker of the bytes sent
    pub tx: RateTracker,
    /// Tracker of the bytes received
    pub rx: RateTracker,
}

/// What the sampler has read at one cycle. What it could not read is left out.
#[derive(Debug)]
pub struct Sample {
    /// CPU usage in %
    pub cpu_usage: Option<Reading>,
    /// Memory usage in %
    pub memory_usage: Option<Reading>,
    /// Temperatures in °C, by the identifier of the probe
    pub temperatures: StringMap<Reading>,
    /// Counters of the network interfaces, by the name of the interface
    pub interfaces: StringMap<Counters>,
}

/// The metrics that a cycle needs the sampler to refresh
#[derive(Debug, Clone, Copy, PartialEq, Eq, Structural)]
pub struct RefreshPlan {
    /// The CPU usage
    pub cpu: bool,
    /// The memory usage
    pub memory: bool,
    /// The counters of the network interfaces
    pub network: bool,
    /// The temperature probes
    pub temperature: bool,
}

/// The probes among `discovered` whose identifier is one of `configured`, in
/// the order in which they were discovered.
pub open spec fn selected(discovered: Seq<ProbeView>, configured: Seq<Seq<char>>) -> Seq<ProbeView>
    decreases discovered.len(),
{
    if discovered.len() == 0 {
        Seq::empty()
    } else {
        let head = selected(discovered.drop_last(), configured);
        if configured.contains(discovered.last().id) {
            head.push(discovered.last())
        } else {
            head
        }
    }
}

/// The descriptor after the temperature sensors of `probes` were registered.
pub open spec fn with_probes(d: DescriptorView, probes: Seq<ProbeView>) -> DescriptorView
    decreases probes.len(),
{
    if probes.len() == 0 {
        d
    } else {
        with_probes(d, probes.drop_last()).registered(
            SensorView::Temperature(probes.last().id, probes.last().label),
        )
    }
}

/// The descriptor after the two rate sensors of each of `interfaces` were registered.
pub open spec fn with_interfaces(d: DescriptorView, interfaces: Seq<Seq<char>>) -> DescriptorView
    decreases interfaces.len(),
{
    if interfaces.len() == 0 {
        d
    } else {
        with_interfaces(d, interfaces.drop_last()).registered(
            SensorView::NetTx(interfaces.last()),
        ).registered(SensorView::NetRx(interfaces.last()))
    }
}

/// The descriptor after the whole catalog was registered: the availability,
/// the two scalar sensors, a temperature sensor for each probe and two rate
/// sensors for each interface.
pub open spec fn with_catalog(
    d: DescriptorView,
    probes: Seq<ProbeView>,
    interfaces: Seq<Seq<char>>,
) -> DescriptorView {
    with_interfaces(
        with_probes(
            d.registered(SensorView::Available).registered(SensorView::CpuUsage).registered(
                SensorView::MemoryUsage,
            ),
            probes,
        ),
        interfaces,
    )
}

/// Whether one of `probes` has the identifier `id`.
pub open spec fn has_probe(probes: Seq<ProbeView>, id: Seq<char>) -> bool {
    exists|i: int| 0 <= i < probes.len() && #[trigger] probes[i].id == id
}

/// The temperatures that a cycle reports: for each probe whose sensor is
/// registered and for which the sampler has a reading, that reading.
pub open spec fn temperatures_of(
    d: DescriptorView,
    probes: Seq<ProbeView>,
    readings: Map<Seq<char>, Reading>,
) -> Map<Seq<char>, Reading> {
    Map::new(
        |id: Seq<char>|
            has_probe(probes, id) && d.has(SensorView::Temperature(id, Seq::empty()))
                && readings.contains_key(id),
        |id: Seq<char>| readings[id],
    )
}

/// The trackers of the interface `name` before a cycle: those held for it, or
/// two fresh ones.
pub open spec fn prior(trackers: Map<Seq<char>, InterfaceTrackers>, name: Seq<char>) -> InterfaceTrackers {
    if trackers.contains_key(name) {
        trackers[name]
    } else {
        InterfaceTrackers { tx: RateTracker::fresh(), rx: RateTracker::fresh() }
    }
}

/// Whether the interface `name` is monitored and the sampler has its counters.
pub open spec fn sampled(
    interfaces: Seq<Seq<char>>,
    counters: Map<Seq<char>, Counters>,
    name: Seq<char>,
) -> bool {
    interfaces.contains(name) && counters.contains_key(name)
}

/// The trackers after a cycle: those of each sampled interface have stored
/// its counters, the others are as before.
pub open spec fn trackers_after(
    trackers: Map<Seq<char>, InterfaceTrackers>,
    interfaces: Seq<Seq<char>>,
    counters: Map<Seq<char>, Counters>,
) -> Map<Seq<char>, InterfaceTrackers> {
    Map::new(
        |name: Seq<char>| trackers.contains_key(name) || sampled(interfaces, counters, name),
        |name: Seq<char>|
            if sampled(interfaces, counters, name) {
                InterfaceTrackers {
                    tx: prior(trackers, name).tx.updated(counters[name].transmitted),
                    rx: prior(trackers, name).rx.updated(counters[name].received),
                }
            } else {
                trackers[name]
            },
    )
}

/// The rates of an interface with the trackers `before` and the counters
/// `now`, read `period` seconds later: both rates, or nothing where one of
/// them is missing.
pub open spec fn rates_of(before: InterfaceTrackers, now: Counters, period: u64) -> Option<NetworkStatus> {
    match (before.tx.rate(now.transmitted, period), before.rx.rate(now.received, period)) {
        (Some(tx), Some(rx)) => Some(NetworkStatus { tx, rx }),
        _ => None,
    }
}

/// The network rates that a cycle reports: for each sampled interface that
/// has both rates, those rates.
pub open spec fn network_of(
    trackers: Map<Seq<char>, InterfaceTrackers>,
    interfaces: Seq<Seq<char>>,
    counters: Map<Seq<char>, Counters>,
    period: u64,
) -> Map<Seq<char>, NetworkStatus> {
    Map::new(
        |name: Seq<char>|
            sampled(interfaces, counters, name) && rates_of(
                prior(trackers, name),
                counters[name],
                period,
            ) is Some,
        |name: Seq<char>| rates_of(prior(trackers, name), counters[name], period).unwrap(),
    )
}

/// A name is among the first `i + 1` names exactly if it is among the first
/// `i` or is the one at `i`.
pub proof fn lemma_take_contains(names: Seq<Seq<char>>, i: int, name: Seq<char>)
    requires
        0 <= i < names.len(),
    ensures
        names.take(i + 1).contains(name) <==> names.take(i).contains(name) || names[i] == name,
        names.no_duplicates() ==> !names.take(i).contains(names[i]),
{
    let long = names.take(i + 1);
    let short = names.take(i);
    if long.contains(name) {
        let j = choose|j: int| 0 <= j < long.len() && long[j] == name;
        if j < i {
            assert(short[j] == name);
        }
    }
    if short.contains(name) {
        let j = choose|j: int| 0 <= j < short.len() && short[j] == name;
        assert(long[j] == name);
    }
    if names[i] == name {
        assert(long[i] == name);
    }
    if names.no_duplicates() && short.contains(names[i]) {
        let j = choose|j: int| 0 <= j < short.len() && short[j] == names[i];
        assert(names[j] == names[i]);
    }
}

/// Selects the probes that correspond to the configured identifiers, in the
/// order in which they were discovered.
pub fn select_temp_components(discovered: &Vec<Probe>, configured: &Vec<String>) -> (out: Vec<Probe>)
    ensures
        probe_views(out@) == selected(probe_views(discovered@), texts(configured@)),
{
    let n = discovered.len();
    let mut out: Vec<Probe> = Vec::new();
    let mut i: usize = 0;
    assert(probe_views(discovered@).take(0) =~= Seq::<ProbeView>::empty());
    assert(probe_views(out@) =~= Seq::<ProbeView>::empty());
    while i < n
        invariant
            n == discovered@.len(),
            i <= n,
            probe_views(out@) == selected(
                probe_views(discovered@).take(i as int),
                texts(configured@),
            ),
        decreases n - i,
    {
        let ghost before = out@;
        let probe = &discovered[i];
        let found = contains_name(configured, &probe.id);
        if found {
            out.push(Probe { id: probe.id.clone(), label: probe.label.clone() });
        }
        proof {
            let upto = probe_views(discovered@).take(i + 1);
            assert(upto.drop_last() =~= probe_views(discovered@).take(i as int));
            assert(upto.last() == discovered@[i as int]@);
            if found {
                assert(probe_views(out@) =~= probe_views(before).push(discovered@[i as int]@));
            }
        }
        i = i + 1;
    }
    assert(probe_views(discovered@).take(n as int) =~= probe_views(discovered@));
    out
}

/// Registers a temperature sensor for each of `probes`.
pub fn register_probes(descriptor: &mut RegistrationDescriptor, probes: &Vec<Probe>)
    requires
        old(descriptor).wf(),
    ensures
        final(descriptor).wf(),
        final(descriptor)@ == with_probes(old(descriptor)@, probe_views(probes@)),
{
    let n = probes.len();
    let mut i: usize = 0;
    assert(probe_views(probes@).take(0) =~= Seq::<ProbeView>::empty());
    while i < n
        invariant
            n == probes@.len(),
            i <= n,
            descriptor.wf(),
            descriptor@ == with_probes(old(descriptor)@, probe_views(probes@).take(i as int)),
        decreases n - i,
    {
        let probe = &probes[i];
        descriptor.add_component(Sensor::Temperature(probe.id.clone(), probe.label.clone()));
        proof {
            let upto = probe_views(probes@).take(i + 1);
            assert(upto.drop_last() =~= probe_views(probes@).take(i as int));
            assert(upto.last() == probes@[i as int]@);
        }
        i = i + 1;
    }
    assert(probe_views(probes@).take(n as int) =~= probe_views(probes@));
}

/// Registers the two rate sensors of each of `interfaces`.
pub fn register_interfaces(descriptor: &mut RegistrationDescriptor, interfaces: &Vec<String>)
    requires
        old(descriptor).wf(),
    ensures
        final(descriptor).wf(),
        final(descriptor)@ == with_interfaces(old(descriptor)@, texts(interfaces@)),
{
    let n = interfaces.len();
    let mut i: usize = 0;
    assert(texts(interfaces@).take(0) =~= Seq::<Seq<char>>::empty());
    while i < n
        invariant
            n == interfaces@.len(),
            i <= n,
            descriptor.wf(),
            descriptor@ == with_interfaces(old(descriptor)@, texts(interfaces@).take(i as int)),
        decreases n - i,
    {
        descriptor.add_component(Sensor::NetTx(interfaces[i].clone()));
        descriptor.add_component(Sensor::NetRx(interfaces[i].clone()));
        proof {
            let upto = texts(interfaces@).take(i + 1);
            assert(upto.drop_last() =~= texts(interfaces@).take(i as int));
            assert(upto.last() == interfaces@[i as int]@);
        }
        i = i + 1;
    }
    assert(texts(interfaces@).take(n as int) =~= texts(interfaces@));
}

/// Selects the temperatures to report: the readings of the probes whose
/// sensor is registered.
pub fn select_temperatures(
    descriptor: &RegistrationDescriptor,
    probes: &Vec<Probe>,
    readings: &StringMap<Reading>,
) -> (out: StringMap<Reading>)
    requires
        readings.wf(),
    ensures
        out.wf(),
        out@ == temperatures_of(descriptor@, probe_views(probes@), readings@),
{
    let n = probes.len();
    let mut out: StringMap<Reading> = StringMap::new();
    let mut i: usize = 0;
    assert(out@ =~= temperatures_of(
        descriptor@,
        probe_views(probes@).take(0),
        readings@,
    ));
    while i < n
        invariant
            n == probes@.len(),
            i <= n,
            readings.wf(),
            out.wf(),
            out@ == temperatures_of(
                descriptor@,
                probe_views(probes@).take(i as int),
                readings@,
            ),
        decreases n - i,
    {
        let ghost before = out@;
        let probe = &probes[i];
        let registered = descriptor.has_sensor(
            Sensor::Temperature(probe.id.clone(), String::new()),
        );
        if registered {
            match readings.get(&probe.id) {
                Some(reading) => {
                    out.insert(probe.id.clone(), *reading);
                },
                None => {},
            }
        }
        proof {
            let short = probe_views(probes@).take(i as int);
            let long = probe_views(probes@).take(i + 1);
            let id = probes@[i as int].id@;
            assert(long[i as int].id == id);
            assert forall|q: Seq<char>| has_probe(long, q) <==> has_probe(short, q) || q
                == id by {
                if has_probe(long, q) {
                    let j = choose|j: int| 0 <= j < long.len() && #[trigger] long[j].id == q;
                    if j < i {
                        assert(short[j].id == q);
                    }
                }
                if has_probe(short, q) {
                    let j = choose|j: int| 0 <= j < short.len() && #[trigger] short[j].id == q;
                    assert(long[j].id == q);
                }
            }
            assert(SensorView::Temperature(id, Seq::<char>::empty()).key()
                == SensorView::Temperature(id, probes@[i as int].label@).key());
            assert(out@ =~= temperatures_of(descriptor@, long, readings@));
        }
        i = i + 1;
    }
    assert(probe_views(probes@).take(n as int) =~= probe_views(probes@));
    out
}

/// Selects the network rates to report, for the monitored interfaces whose
/// counters the sampler has read, and stores those counters in the trackers.
pub fn select_network(
    trackers: &mut StringMap<InterfaceTrackers>,
    interfaces: &Vec<String>,
    counters: &StringMap<Counters>,
    period: u64,
) -> (out: StringMap<NetworkStatus>)
    requires
        old(trackers).wf(),
        counters.wf(),
        texts(interfaces@).no_duplicates(),
        period >= 1,
    ensures
        out.wf(),
        final(trackers).wf(),
        out@ == network_of(old(trackers)@, texts(interfaces@), counters@, period),
        final(trackers)@ == trackers_after(old(trackers)@, texts(interfaces@), counters@),
{
    let ghost start = trackers@;
    let ghost names = texts(interfaces@);
    let n = interfaces.len();
    let mut out: StringMap<NetworkStatus> = StringMap::new();
    let mut i: usize = 0;
    proof {
        assert(names.take(0) =~= Seq::<Seq<char>>::empty());
        assert(out@ =~= network_of(start, names.take(0), counters@, period));
        assert(trackers@ =~= trackers_after(start, names.take(0), counters@));
    }
    while i < n
        invariant
            n == interfaces@.len(),
            names == texts(interfaces@),
            names.no_duplicates(),
            i <= n,
            period >= 1,
            counters.wf(),
            out.wf(),
            trackers.wf(),
            out@ == network_of(start, names.take(i as int), counters@, period),
            trackers@ == trackers_after(start, names.take(i as int), counters@),
        decreases n - i,
    {
        let ghost name = names[i as int];
        let ghost out_before = out@;
        let ghost trackers_before = trackers@;
        proof {
            lemma_take_contains(names, i as int, name);
            assert(!sampled(names.take(i as int), counters@, name));
        }
        match counters.get(&interfaces[i]) {
            Some(now) => {
                let mut pair = match trackers.get(&interfaces[i]) {
                    Some(held) => *held,
                    None => InterfaceTrackers { tx: RateTracker::new(), rx: RateTracker::new() },
                };
                assert(pair == prior(start, name));
                let tx = pair.tx.update(now.transmitted, period);
                let rx = pair.rx.update(now.received, period);
                trackers.insert(interfaces[i].clone(), pair);
                match (tx, rx) {
                    (Some(tx), Some(rx)) => {
                        out.insert(interfaces[i].clone(), NetworkStatus { tx, rx });
                    },
                    _ => {},
                }
            },
            None => {},
        }
        proof {
            assert forall|q: Seq<char>|
                sampled(names.take(i + 1), counters@, q) <==> sampled(
                    names.take(i as int),
                    counters@,
                    q,
                ) || (q == name && counters@.contains_key(name)) by {
                lemma_take_contains(names, i as int, q);
            }
            assert(out@ =~= network_of(start, names.take(i + 1), counters@, period));
            assert(trackers@ =~= trackers_after(start, names.take(i + 1), counters@));
        }
        i = i + 1;
    }
    assert(names.take(n as int) =~= names);
    out
}

impl Sample {
    /// Both maps of the sample hold each key once.
    pub open spec fn wf(self) -> bool {
        self.temperatures.wf() && self.interfaces.wf()
    }

    /// A sample in which nothing was read.
    pub fn new() -> (sample: Sample)
        ensures
            sample.wf(),
            sample.cpu_usage is None,
            sample.memory_usage is None,
            sample.temperatures@ == Map::<Seq<char>, Reading>::empty(),
            sample.interfaces@ == Map::<Seq<char>, Counters>::empty(),
    {
        Sample {
            cpu_usage: None,
            memory_usage: None,
            temperatures: StringMap::new(),
            interfaces: StringMap::new(),
        }
    }
}

/// Whether the temperature sensor of one of `probes` is registered in `d`.
pub open spec fn any_probe_registered(d: DescriptorView, probes: Seq<ProbeView>) -> bool {
    exists|i: int|
        0 <= i < probes.len() && d.has(
            SensorView::Temperature(#[trigger] probes[i].id, Seq::empty()),
        )
}

/// Whether the temperature sensor of one of `probes` is registered.
pub fn has_registered_probe(descriptor: &RegistrationDescriptor, probes: &Vec<Probe>) -> (found: bool)
    ensures
        found == any_probe_registered(descriptor@, probe_views(probes@)),
{
    let n = probes.len();
    let mut i: usize = 0;
    while i < n
        invariant
            n == probes@.len(),
            i <= n,
            forall|j: int|
                0 <= j < i ==> !descriptor@.has(
                    SensorView::Temperature(#[trigger] probe_views(probes@)[j].id, Seq::empty()),
                ),
        decreases n - i,
    {
        if descriptor.has_sensor(Sensor::Temperature(probes[i].id.clone(), String::new())) {
            assert(probe_views(probes@)[i as int].id == probes@[i as int].id@);
            return true;
        }
        i = i + 1;
    }
    false
}

/// Daemon that periodically sends reports to the broker
#[derive(Debug)]
pub struct Daemon {
    config: Configuration,
    interfaces: Vec<String>,
    registration_descriptor: RegistrationDescriptor,
    temp_components: Vec<Probe>,
    trackers: StringMap<InterfaceTrackers>,
}

/// What a daemon holds, as plain values.
pub struct DaemonView {
    /// Seconds between two reports
    pub period: u64,
    /// Prefix of the topic to which the registration is sent
    pub prefix: Seq<char>,
    /// The monitored network interfaces, each once
    pub interfaces: Seq<Seq<char>>,
    /// The temperature probes that are reported
    pub probes: Seq<ProbeView>,
    /// The registration descriptor
    pub descriptor: DescriptorView,
    /// The trackers of the interfaces that were sampled so far
    pub trackers: Map<Seq<char>, InterfaceTrackers>,
}

impl DaemonView {
    /// The daemon made of `config` and of the probes that were discovered,
    /// before any sensor is registered.
    pub open spec fn initial(config: Configuration, discovered: Seq<ProbeView>) -> DaemonView {
        DaemonView {
            period: config.mqtt.update_period,
            prefix: config.mqtt.registration_prefix@,
            interfaces: distinct(texts(config.sensors.network@)),
            probes: selected(discovered, texts(config.sensors.temperature@)),
            descriptor: DescriptorView::empty(
                config.mqtt.entity@,
                snake_case(config.mqtt.entity@),
            ),
            trackers: Map::empty(),
        }
    }

    /// The status message of a cycle in which the sampler has read `sample`.
    pub open spec fn status(self, sample: Sample) -> StatusView {
        StatusView {
            available: "ON"@,
            cpu_usage: if self.descriptor.has(SensorView::CpuUsage) {
                sample.cpu_usage
            } else {
                None
            },
            memory_usage: if self.descriptor.has(SensorView::MemoryUsage) {
                sample.memory_usage
            } else {
                None
            },
            temperature: temperatures_of(self.descriptor, self.probes, sample.temperatures@),
            network: network_of(self.trackers, self.interfaces, sample.interfaces@, self.period),
        }
    }

    /// The daemon after a cycle in which the sampler has read `sample`.
    pub open spec fn sampled(self, sample: Sample) -> DaemonView {
        DaemonView {
            trackers: trackers_after(self.trackers, self.interfaces, sample.interfaces@),
            ..self
        }
    }

    /// The metrics that the next cycle needs.
    pub open spec fn refresh_plan(self) -> RefreshPlan {
        RefreshPlan {
            cpu: self.descriptor.has(SensorView::CpuUsage),
            memory: self.descriptor.has(SensorView::MemoryUsage),
            network: self.interfaces.len() > 0,
            temperature: any_probe_registered(self.descriptor, self.probes),
        }
    }
}

/// Whether `sensor` belongs to the catalog of a daemon with the probes
/// `probes` and the interfaces `interfaces`.
pub open spec fn in_catalog(
    sensor: SensorView,
    probes: Seq<ProbeView>,
    interfaces: Seq<Seq<char>>,
) -> bool {
    match sensor {
        SensorView::Temperature(id, label) => probes.contains(ProbeView { id, label }),
        SensorView::NetRx(interface) => interfaces.contains(interface),
        SensorView::NetTx(interface) => interfaces.contains(interface),
        _ => true,
    }
}

/// Whether the descriptors differ in nothing but their components.
pub open spec fn same_device(a: DescriptorView, b: DescriptorView) -> bool {
    a == (DescriptorView { components: a.components, ..b })
}

/// Registering the temperature sensors keeps the device, keeps what was
/// registered, and registers the sensor of every probe.
pub proof fn lemma_with_probes(d: DescriptorView, probes: Seq<ProbeView>)
    ensures
        same_device(with_probes(d, probes), d),
        d.consistent() ==> with_probes(d, probes).consistent(),
        forall|k: Seq<char>|
            d.components.contains_key(k) ==> with_probes(d, probes).components.contains_key(k),
        forall|i: int|
            0 <= i < probes.len() ==> with_probes(d, probes).has(
                SensorView::Temperature(#[trigger] probes[i].id, probes[i].label),
            ),
    decreases probes.len(),
{
    if probes.len() > 0 {
        let front = probes.drop_last();
        let last = SensorView::Temperature(probes.last().id, probes.last().label);
        lemma_with_probes(d, front);
        with_probes(d, front).lemma_register_idempotent(last);
        let r = with_probes(d, probes);
        assert forall|i: int| 0 <= i < probes.len() implies r.has(
            SensorView::Temperature(#[trigger] probes[i].id, probes[i].label),
        ) by {
            if i < front.len() {
                assert(front[i] == probes[i]);
                assert(with_probes(d, front).has(
                    SensorView::Temperature(front[i].id, front[i].label),
                ));
            }
        }
    }
}

/// Registering the rate sensors keeps the device, keeps what was registered,
/// and registers both sensors of every interface.
pub proof fn lemma_with_interfaces(d: DescriptorView, interfaces: Seq<Seq<char>>)
    ensures
        same_device(with_interfaces(d, interfaces), d),
        d.consistent() ==> with_interfaces(d, interfaces).consistent(),
        forall|k: Seq<char>|
            d.components.contains_key(k) ==> with_interfaces(d, interfaces).components.contains_key(
                k,
            ),
        forall|i: int|
            0 <= i < interfaces.len() ==> with_interfaces(d, interfaces).has(
                SensorView::NetRx(#[trigger] interfaces[i]),
            ) && with_interfaces(d, interfaces).has(SensorView::NetTx(interfaces[i])),
    decreases interfaces.len(),
{
    if interfaces.len() > 0 {
        let front = interfaces.drop_last();
        let tx = SensorView::NetTx(interfaces.last());
        let rx = SensorView::NetRx(interfaces.last());
        lemma_with_interfaces(d, front);
        let before = with_interfaces(d, front);
        before.lemma_register_idempotent(tx);
        before.registered(tx).lemma_register_idempotent(rx);
        let r = with_interfaces(d, interfaces);
        assert forall|i: int| 0 <= i < interfaces.len() implies r.has(
            SensorView::NetRx(#[trigger] interfaces[i]),
        ) && r.has(SensorView::NetTx(interfaces[i])) by {
            if i < front.len() {
                assert(front[i] == interfaces[i]);
                assert(before.has(SensorView::NetRx(front[i])));
                assert(before.has(SensorView::NetTx(front[i])));
            }
        }
    }
}

/// After the catalog was registered, every sensor of the catalog is
/// registered, under its key and with its own template; the device is the
/// same, and what was registered before still is.
pub proof fn lemma_catalog_registered(
    d: DescriptorView,
    probes: Seq<ProbeView>,
    interfaces: Seq<Seq<char>>,
    sensor: SensorView,
)
    requires
        d.consistent(),
    ensures
        same_device(with_catalog(d, probes, interfaces), d),
        with_catalog(d, probes, interfaces).consistent(),
        d.has(sensor) ==> with_catalog(d, probes, interfaces).has(sensor),
        in_catalog(sensor, probes, interfaces) ==> {
            let r = with_catalog(d, probes, interfaces);
            &&& r.has(sensor)
            &&& r.components[sensor.key()].value_template == sensor.value_template()
            &&& r.components[sensor.key()].unique_id == d.identifier + "_"@ + sensor.key()
        },
{
    let d1 = d.registered(SensorView::Available);
    let d2 = d1.registered(SensorView::CpuUsage);
    let d3 = d2.registered(SensorView::MemoryUsage);
    d.lemma_register_idempotent(SensorView::Available);
    d1.lemma_register_idempotent(SensorView::CpuUsage);
    d2.lemma_register_idempotent(SensorView::MemoryUsage);
    lemma_with_probes(d3, probes);
    let d4 = with_probes(d3, probes);
    lemma_with_interfaces(d4, interfaces);
    let r = with_catalog(d, probes, interfaces);
    assert(d3.components.contains_key(SensorView::Available.key()));
    assert(d3.components.contains_key(SensorView::CpuUsage.key()));
    assert(d3.components.contains_key(SensorView::MemoryUsage.key()));
    if d.has(sensor) {
        assert(d3.components.contains_key(sensor.key()));
        assert(d4.components.contains_key(sensor.key()));
    }
    if in_catalog(sensor, probes, interfaces) {
        match sensor {
            SensorView::Temperature(id, label) => {
                let i = choose|i: int|
                    0 <= i < probes.len() && probes[i] == (ProbeView { id, label });
                assert(d4.has(SensorView::Temperature(probes[i].id, probes[i].label)));
                assert(d4.components.contains_key(sensor.key()));
            },
            SensorView::NetRx(interface) => {
                let i = choose|i: int| 0 <= i < interfaces.len() && interfaces[i] == interface;
                assert(r.has(SensorView::NetRx(interfaces[i])));
            },
            SensorView::NetTx(interface) => {
                let i = choose|i: int| 0 <= i < interfaces.len() && interfaces[i] == interface;
                assert(r.has(SensorView::NetRx(interfaces[i])));
            },
            _ => {
                assert(d3.components.contains_key(sensor.key()));
                assert(d4.components.contains_key(sensor.key()));
            },
        }
        r.lemma_registered_component(sensor);
    }
}

/// Registering the temperature sensors adds no key but those of the probes' sensors.
pub proof fn lemma_with_probes_only(d: DescriptorView, probes: Seq<ProbeView>, key: Seq<char>)
    requires
        with_probes(d, probes).components.contains_key(key),
        !d.components.contains_key(key),
    ensures
        exists|i: int|
            0 <= i < probes.len() && SensorView::Temperature(
                #[trigger] probes[i].id,
                probes[i].label,
            ).key() == key,
    decreases probes.len(),
{
    if probes.len() > 0 {
        let front = probes.drop_last();
        let last = SensorView::Temperature(probes.last().id, probes.last().label);
        if last.key() == key {
            let i = probes.len() - 1;
            assert(SensorView::Temperature(probes[i].id, probes[i].label).key() == key);
        } else {
            assert(with_probes(d, front).components.contains_key(key));
            lemma_with_probes_only(d, front, key);
            let i: int = choose|i: int|
                0 <= i < front.len() && SensorView::Temperature(
                    #[trigger] front[i].id,
                    front[i].label,
                ).key() == key;
            assert(front[i] == probes[i]);
            assert(SensorView::Temperature(probes[i].id, probes[i].label).key() == key);
        }
    }
}

/// Registering the rate sensors adds no key but those of the interfaces' sensors.
pub proof fn lemma_with_interfaces_only(
    d: DescriptorView,
    interfaces: Seq<Seq<char>>,
    key: Seq<char>,
)
    requires
        with_interfaces(d, interfaces).components.contains_key(key),
        !d.components.contains_key(key),
    ensures
        exists|i: int|
            0 <= i < interfaces.len() && (SensorView::NetRx(#[trigger] interfaces[i]).key() == key
                || SensorView::NetTx(interfaces[i]).key() == key),
    decreases interfaces.len(),
{
    if interfaces.len() > 0 {
        let front = interfaces.drop_last();
        let tx = SensorView::NetTx(interfaces.last());
        let rx = SensorView::NetRx(interfaces.last());
        if tx.key() == key || rx.key() == key {
            let i = interfaces.len() - 1;
            assert(SensorView::NetRx(interfaces[i]).key() == key || SensorView::NetTx(
                interfaces[i],
            ).key() == key);
        } else {
            assert(with_interfaces(d, front).components.contains_key(key));
            lemma_with_interfaces_only(d, front, key);
            let i: int = choose|i: int|
                0 <= i < front.len() && (SensorView::NetRx(#[trigger] front[i]).key() == key
                    || SensorView::NetTx(front[i]).key() == key);
            assert(front[i] == interfaces[i]);
            assert(SensorView::NetRx(interfaces[i]).key() == key || SensorView::NetTx(
                interfaces[i],
            ).key() == key);
        }
    }
}

/// Registering the catalog registers no sensor beyond the catalog: every key
/// that it adds is the key of a sensor of the catalog, whose value the status
/// message can hold.
pub proof fn lemma_catalog_only(
    d: DescriptorView,
    probes: Seq<ProbeView>,
    interfaces: Seq<Seq<char>>,
    key: Seq<char>,
)
    requires
        with_catalog(d, probes, interfaces).components.contains_key(key),
        !d.components.contains_key(key),
    ensures
        exists|sensor: SensorView|
            in_catalog(sensor, probes, interfaces) && #[trigger] sensor.key() == key,
{
    let d3 = d.registered(SensorView::Available).registered(SensorView::CpuUsage).registered(
        SensorView::MemoryUsage,
    );
    let d4 = with_probes(d3, probes);
    if d4.components.contains_key(key) {
        if d3.components.contains_key(key) {
            if key == SensorView::Available.key() {
                assert(in_catalog(SensorView::Available, probes, interfaces)
                    && SensorView::Available.key() == key);
            } else if key == SensorView::CpuUsage.key() {
                assert(in_catalog(SensorView::CpuUsage, probes, interfaces)
                    && SensorView::CpuUsage.key() == key);
            } else {
                assert(in_catalog(SensorView::MemoryUsage, probes, interfaces)
                    && SensorView::MemoryUsage.key() == key);
            }
        } else {
            lemma_with_probes_only(d3, probes, key);
            let i: int = choose|i: int|
                0 <= i < probes.len() && SensorView::Temperature(
                    #[trigger] probes[i].id,
                    probes[i].label,
                ).key() == key;
            let sensor = SensorView::Temperature(probes[i].id, probes[i].label);
            assert(probes[i] == (ProbeView { id: probes[i].id, label: probes[i].label }));
            assert(in_catalog(sensor, probes, interfaces) && sensor.key() == key);
        }
    } else {
        lemma_with_interfaces_only(d4, interfaces, key);
        let i: int = choose|i: int|
            0 <= i < interfaces.len() && (SensorView::NetRx(#[trigger] interfaces[i]).key() == key
                || SensorView::NetTx(interfaces[i]).key() == key);
        if SensorView::NetRx(interfaces[i]).key() == key {
            let sensor = SensorView::NetRx(interfaces[i]);
            assert(in_catalog(sensor, probes, interfaces) && sensor.key() == key);
        } else {
            let sensor = SensorView::NetTx(interfaces[i]);
            assert(in_catalog(sensor, probes, interfaces) && sensor.key() == key);
        }
    }
}

impl DaemonView {
    /// Whether the sampler has handed over what the value of `sensor` is made of.
    pub open spec fn data_available(self, sample: Sample, sensor: SensorView) -> bool {
        match sensor {
            SensorView::Available => true,
            SensorView::CpuUsage => sample.cpu_usage is Some,
            SensorView::MemoryUsage => sample.memory_usage is Some,
            SensorView::Temperature(id, _) => has_probe(self.probes, id)
                && sample.temperatures@.contains_key(id),
            SensorView::NetRx(interface) => self.rates_available(sample, interface),
            SensorView::NetTx(interface) => self.rates_available(sample, interface),
        }
    }

    /// Whether `interface` is monitored, the sampler has its counters, and
    /// neither counter is below the value stored at an earlier cycle.
    pub open spec fn rates_available(self, sample: Sample, interface: Seq<char>) -> bool {
        &&& sampled(self.interfaces, sample.interfaces@, interface)
        &&& self.trackers.contains_key(interface)
        &&& self.trackers[interface].tx.last_value is Some
        &&& self.trackers[interface].rx.last_value is Some
        &&& self.trackers[interface].tx.last_value.unwrap()
            <= sample.interfaces@[interface].transmitted
        &&& self.trackers[interface].rx.last_value.unwrap()
            <= sample.interfaces@[interface].received
    }

    /// The status message of a cycle holds a value for a registered sensor
    /// exactly when the sampler has handed over what the value is made of,
    /// and it holds that value under the top-level key that the sensor's
    /// template reads.
    pub proof fn lemma_registered_sensors_are_reported(self, sample: Sample, sensor: SensorView)
        requires
            self.descriptor.has(sensor),
            valid_period(self.period),
        ensures
            self.status(sample).holds(sensor) <==> self.data_available(sample, sensor),
            StatusView::top_level_keys().contains(sensor.status_key()),
            self.status(sample).holds(sensor) ==> match sensor {
                SensorView::Available => self.status(sample).available == "ON"@,
                SensorView::CpuUsage => self.status(sample).cpu_usage == sample.cpu_usage,
                SensorView::MemoryUsage => self.status(sample).memory_usage == sample.memory_usage,
                SensorView::Temperature(id, _) => self.status(sample).temperature[id]
                    == sample.temperatures@[id],
                SensorView::NetRx(interface) => Some(self.status(sample).network[interface].rx)
                    == self.trackers[interface].rx.rate(
                    sample.interfaces@[interface].received,
                    self.period,
                ),
                SensorView::NetTx(interface) => Some(self.status(sample).network[interface].tx)
                    == self.trackers[interface].tx.rate(
                    sample.interfaces@[interface].transmitted,
                    self.period,
                ),
            },
    {
        crate::status::lemma_template_reads_status_key(sensor);
        match sensor {
            SensorView::Temperature(id, label) => {
                assert(SensorView::Temperature(id, Seq::<char>::empty()).key() == sensor.key());
            },
            _ => {},
        }
    }
}

impl View for Daemon {
    type V = DaemonView;

    closed spec fn view(&self) -> DaemonView {
        DaemonView {
            period: self.config.mqtt.update_period,
            prefix: self.config.mqtt.registration_prefix@,
            interfaces: texts(self.interfaces@),
            probes: probe_views(self.temp_components@),
            descriptor: self.registration_descriptor@,
            trackers: self.trackers@,
        }
    }
}

impl Daemon {
    /// The daemon is well formed: its period is valid, no interface is held
    /// twice, and its descriptor and its trackers are well formed.
    pub closed spec fn wf(self) -> bool {
        &&& valid_period(self.config.mqtt.update_period)
        &&& texts(self.interfaces@).no_duplicates()
        &&& self.registration_descriptor.wf()
        &&& self.trackers.wf()
    }

    /// The configuration that the daemon was made of.
    pub closed spec fn configuration(self) -> Configuration {
        self.config
    }

    /// The keys of the registered components, in the order in which they are written.
    pub closed spec fn component_keys(self) -> Seq<Seq<char>> {
        self.registration_descriptor.keys()
    }

    /// What a well-formed daemon shows of itself.
    pub proof fn lemma_wf(self)
        requires
            self.wf(),
        ensures
            valid_period(self@.period),
            self@.interfaces.no_duplicates(),
            self@.descriptor.consistent(),
    {
        self.registration_descriptor.lemma_keys();
    }

    /// Constructs a daemon from the specified configuration and from the
    /// probes that the sampler has discovered. A configuration that is not
    /// valid is refused.
    pub fn new(config: Configuration, discovered: &Vec<Probe>) -> (r: Result<Daemon, ConfigError>)
        ensures
            match r {
                Ok(daemon) => config.validity() is Ok && daemon.wf() && daemon.configuration()
                    == config && daemon@ == DaemonView::initial(config, probe_views(discovered@)),
                Err(e) => config.validity() == Err::<(), ConfigError>(e),
            },
    {
        match config.validate() {
            Err(e) => Err(e),
            Ok(()) => {
                let interfaces = distinct_names(&config.sensors.network);
                let temp_components = select_temp_components(
                    discovered,
                    &config.sensors.temperature,
                );
                let registration_descriptor = RegistrationDescriptor::new(
                    config.mqtt.entity.as_str(),
                );
                proof {
                    lemma_distinct(texts(config.sensors.network@));
                }
                Ok(
                    Daemon {
                        config,
                        interfaces,
                        registration_descriptor,
                        temp_components,
                        trackers: StringMap::new(),
                    },
                )
            },
        }
    }

    /// Registers the configured sensors in the descriptor
    pub fn register_sensors(&mut self)
        requires
            old(self).wf(),
        ensures
            final(self).wf(),
            final(self)@ == (DaemonView {
                descriptor: with_catalog(
                    old(self)@.descriptor,
                    old(self)@.probes,
                    old(self)@.interfaces,
                ),
                ..old(self)@
            }),
    {
        self.registration_descriptor.add_component(Sensor::Available);
        self.registration_descriptor.add_component(Sensor::CpuUsage);
        self.registration_descriptor.add_component(Sensor::MemoryUsage);
        register_probes(&mut self.registration_descriptor, &self.temp_components);
        register_interfaces(&mut self.registration_descriptor, &self.interfaces);
    }

    /// The metrics that the sampler has to refresh before the next call of
    /// `update_data`: those of the sensors that are registered.
    pub fn refresh_plan(&self) -> (plan: RefreshPlan)
        ensures
            plan == self@.refresh_plan(),
    {
        RefreshPlan {
            cpu: self.registration_descriptor.has_sensor(Sensor::CpuUsage),
            memory: self.registration_descriptor.has_sensor(Sensor::MemoryUsage),
            network: self.interfaces.len() > 0,
            temperature: has_registered_probe(&self.registration_descriptor, &self.temp_components),
        }
    }

    /// Updates the data with what the sampler has read and returns a status message
    pub fn update_data(&mut self, sample: &Sample) -> (status: StatusMessage)
        requires
            old(self).wf(),
            sample.wf(),
        ensures
            final(self).wf(),
            status.wf(),
            status@ == old(self)@.status(*sample),
            final(self)@ == old(self)@.sampled(*sample),
    {
        let cpu_usage = if self.registration_descriptor.has_sensor(Sensor::CpuUsage) {
            sample.cpu_usage
        } else {
            None
        };
        let memory_usage = if self.registration_descriptor.has_sensor(Sensor::MemoryUsage) {
            sample.memory_usage
        } else {
            None
        };
        let temperature = select_temperatures(
            &self.registration_descriptor,
            &self.temp_components,
            &sample.temperatures,
        );
        let network = select_network(
            &mut self.trackers,
            &self.interfaces,
            &sample.interfaces,
            self.config.mqtt.update_period,
        );
        StatusMessage { available: "ON", cpu_usage, memory_usage, temperature, network }
    }

    /// The reporting loop of this daemon, before anything was done.
    pub fn reporting_loop(&self) -> (state: ReportingLoop)
        requires
            self.wf(),
        ensures
            state == ReportingLoop::initial(self@.period),
            state.wf(),
    {
        ReportingLoop::begin(self.config.mqtt.update_period)
    }

    /// Returns the registration descriptor
    pub fn registration_descriptor(&self) -> (d: &RegistrationDescriptor)
        ensures
            d@ == self@.descriptor,
            d.keys() == self.component_keys(),
            self.wf() ==> d.wf(),
    {
        &self.registration_descriptor
    }

    /// Returns the configuration
    pub fn config(&self) -> (c: &Configuration)
        ensures
            *c == self.configuration(),
            c.mqtt.update_period == self@.period,
            c.mqtt.registration_prefix@ == self@.prefix,
    {
        &self.config
    }

    /// The registration as it is published: the discovery topic and the
    /// descriptor in JSON format.
    pub fn registration_message(&self) -> (message: (String, String))
        requires
            self.wf(),
        ensures
            message.0@ == discovery_topic_of(self@.prefix, self@.descriptor.identifier),
            message.1@ == self@.descriptor.json_text(self.component_keys()),
    {
        let descriptor = self.registration_descriptor();
        (
            descriptor.discovery_topic(self.config.mqtt.registration_prefix.as_str()),
            descriptor.to_string(),
        )
    }
}

} // verus!
