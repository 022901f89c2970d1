//! The configuration of the monitor.

use vstd::prelude::*;

verus! {

/// Configuration for communicating with the MQTT broker
#[derive(Debug, Clone)]
pub struct Mqtt {
    /// Hostname or IP address. Default: localhost
    pub host: String,
    /// Port of the connection to the broker. Default: 1883
    pub port: u16,
    /// Username for the connection to the broker. Default: empty
    pub user: String,
    /// Password for the connection to the broker. Default: empty
    pub password: String,
    /// Prefix for the registration topic sent to Home Assistant. Default: homeassistant
    pub registration_prefix: String,
    /// Delay between each sensor report in seconds. Default: 10 seconds
    pub update_period: u64,
    /// Name of the device entity. It should be unique in Home Assistant.
    pub entity: String,
}

/// Configuration for the sensors
#[derive(Debug, Clone)]
pub struct Sensors {
    /// Identifiers of the temperature probes to report
    pub temperature: Vec<String>,
    /// Names of the network interfaces to monitor
    pub network: Vec<String>,
}

/// All the configuration of the monitor
#[derive(Debug, Clone)]
pub struct Configuration {
    /// Configuration for communicating with the MQTT broker
    pub mqtt: Mqtt,
    /// Configuration for the sensors
    pub sensors: Sensors,
    /// Verbosity of the logs, from 1 (errors) to 5 (traces)
    pub log_verbosity: usize,
}

/// Why a configuration is refused.
#[derive(Debug, Clone, Copy, PartialEq, Eq, Structural)]
pub enum ConfigError {
    /// The update period is zero
    ZeroPeriod,
    /// The update period leaves no whole cycle between two registrations
    PeriodTooLong,
}

/// Seconds after which the registration is announced again.
pub const ANNOUNCE_SECONDS: u64 = 60;

/// Number of cycles after which the registration is announced again, for an
/// update period of `period` seconds.
pub open spec fn announce_cycles(period: u64) -> int {
    ANNOUNCE_SECONDS / period - 1
}

/// The update periods that are accepted: at least one second, and short
/// enough for `announce_cycles` to be at least one.
pub open spec fn valid_period(period: u64) -> bool {
    period >= 1 && announce_cycles(period) >= 1
}

/// The accepted periods are those from 1 to 30 seconds.
pub proof fn lemma_valid_period(period: u64)
    ensures
        valid_period(period) <==> 1 <= period <= 30,
        period >= 60 ==> !valid_period(period),
{
    if period >= 1 {
        if period <= 30 {
            assert(60int / (period as int) >= 2) by (nonlinear_arith)
                requires
                    1 <= period <= 30,
            ;
        } else {
            assert(60int / (period as int) <= 1) by (nonlinear_arith)
                requires
                    period > 30,
            ;
        }
    }
}

/// Checks an update period: `Ok` exactly for the valid ones.
pub fn check_period(period: u64) -> (r: Result<(), ConfigError>)
    ensures
        r is Ok <==> valid_period(period),
        r is Err ==> r->Err_0 == (if period == 0 {
            ConfigError::ZeroPeriod
        } else {
            ConfigError::PeriodTooLong
        }),
{
    proof {
        lemma_valid_period(period);
    }
    if period == 0 {
        Err(ConfigError::ZeroPeriod)
    } else if period > 30 {
        Err(ConfigError::PeriodTooLong)
    } else {
        Ok(())
    }
}

/// Number of cycles after which the registration is announced again.
pub fn expire_cycles(period: u64) -> (n: u64)
    requires
        valid_period(period),
    ensures
        n == announce_cycles(period),
        1 <= n <= 59,
{
    proof {
        lemma_valid_period(period);
        assert(60int / (period as int) <= 60) by (nonlinear_arith)
            requires
                1 <= period,
        ;
    }
    ANNOUNCE_SECONDS / period - 1
}

impl Mqtt {
    /// The broker configuration of the entity `entity` with every other
    /// setting at its default.
    pub fn with_defaults(entity: String) -> (mqtt: Mqtt)
        ensures
            mqtt.host@ == "localhost"@,
            mqtt.port == 1883,
            mqtt.user@ == Seq::<char>::empty(),
            mqtt.password@ == Seq::<char>::empty(),
            mqtt.registration_prefix@ == "homeassistant"@,
            mqtt.update_period == 10,
            mqtt.entity == entity,
    {
        Mqtt {
            host: String::from_str("localhost"),
            port: 1883,
            user: String::new(),
            password: String::new(),
            registration_prefix: String::from_str("homeassistant"),
            update_period: 10,
            entity,
        }
    }
}

impl Configuration {
    /// The configuration of the entity `entity` with every other setting at
    /// its default: no sensor beyond the scalar ones, warnings logged.
    pub fn with_defaults(entity: String) -> (config: Configuration)
        ensures
            config.mqtt.host@ == "localhost"@,
            config.mqtt.port == 1883,
            config.mqtt.user@ == Seq::<char>::empty(),
            config.mqtt.password@ == Seq::<char>::empty(),
            config.mqtt.registration_prefix@ == "homeassistant"@,
            config.mqtt.update_period == 10,
            config.mqtt.entity == entity,
            config.sensors.temperature@.len() == 0,
            config.sensors.network@.len() == 0,
            config.log_verbosity == 2,
            config.validity() is Ok,
    {
        proof {
            lemma_valid_period(10);
        }
        Configuration {
            mqtt: Mqtt::with_defaults(entity),
            sensors: Sensors { temperature: Vec::new(), network: Vec::new() },
            log_verbosity: 2,
        }
    }

    /// Whether the configuration is accepted, and why it is not.
    pub open spec fn validity(self) -> Result<(), ConfigError> {
        if self.mqtt.update_period == 0 {
            Err(ConfigError::ZeroPeriod)
        } else if !valid_period(self.mqtt.update_period) {
            Err(ConfigError::PeriodTooLong)
        } else {
            Ok(())
        }
    }

    /// Checks the configuration before anything is sent: the update period
    /// must be valid.
    pub fn validate(&self) -> (r: Result<(), ConfigError>)
        ensures
            r == self.validity(),
            r is Ok <==> valid_period(self.mqtt.update_period),
    {
        proof {
            lemma_valid_period(self.mqtt.update_period);
        }
        match check_period(self.mqtt.update_period) {
            Ok(()) => Ok(()),
            Err(e) => Err(e),
        }
    }
}

} // verus!
