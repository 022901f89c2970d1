//! Reporting engine of a host monitor that announces itself to Home Assistant
//! over MQTT: the sensor catalog and the registration descriptor, the rates
//! of cumulative counters, the status message, and the lifecycle of the
//! reporting loop.

pub use self::configuration::Configuration;
pub use self::configuration::Mqtt;
pub use self::configuration::Sensors;
pub use self::daemon::Daemon;
pub use self::home_assistant::DeviceComponent;
pub use self::home_assistant::RegistrationDescriptor;
pub use self::home_assistant::Sensor;
pub use self::status::StatusMessage;
pub use self::string_map::StringMap;

/// Contains the configuration and its validation
pub mod configuration;
/// Contains the reporting engine
pub mod daemon;
/// Contains the sensor catalog and the Home Assistant registration data
pub mod home_assistant;
/// Contains the state machine of the reporting loop
pub mod lifecycle;
/// Contains helpers for lists of names
pub mod names;
/// Contains the rate computation
pub mod rate;
/// Contains the status that is sent to MQTT
pub mod status;
/// Contains the map type that holds the components and the values
pub mod string_map;
/// Contains helpers for decimal and JSON text
pub mod text;
