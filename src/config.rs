//! Adapter configuration: the polling table and the settings around it,
//! and the checks a configuration must pass before polling starts.
use vstd::prelude::*;

verus! {

/// The whole adapter configuration.
#[derive(Clone, Debug)]
pub struct AdapterConfig {
    pub general_config: GeneralConfig,
    pub can_config: CanConfig,
    pub pid_table: Vec<PidEntry>,
}

/// Where the data broker and the signal database are.
#[derive(Clone, Debug)]
pub struct GeneralConfig {
    pub broker_ip: String,
    pub broker_port: String,
    pub dbcfile: String,
}

/// The CAN interface and the transport socket opened on it.
#[derive(Clone, Debug)]
pub struct CanConfig {
    pub can_interface: String,
    pub use_extended_id: bool,
    pub tx_id: u32,
    pub rx_id: u32,
    pub socket_can_type: String,
    pub socket_can_protocol: String,
}

/// One row of the polling table: a request, the prefix that marks its
/// response, its timing, and where the decoded value goes.
#[derive(Clone, Debug)]
pub struct PidEntry {
    /// Bytes written verbatim on the transport.
    pub request_pid: Vec<u8>,
    /// Leading bytes that a response to this request carries.
    pub response_pid: Vec<u8>,
    /// Delay before the response is read, in milliseconds.
    pub response_timeout_ms: u32,
    pub description: String,
    pub expected_response_length: u32,
    /// Minimum time between two requests of this entry, in milliseconds.
    pub interval_ms: u32,
    /// Name of the signal in the signal database.
    pub dbc_signal_name: String,
    pub vss_signal: VssSignal,
}

/// Destination of a decoded value in the data broker's vocabulary.
#[derive(Clone, Debug)]
pub struct VssSignal {
    pub signal_name: String,
    pub datatype: String,
    pub unit: String,
}

/// Why a configuration was refused.
#[derive(Clone, Copy, Debug, PartialEq, Eq, Structural)]
pub enum ConfigError {
    MissingDbcFile,
    MissingBrokerIp,
    MissingBrokerPort,
    MissingCanInterface,
    MissingSocketType,
    MissingSocketProtocol,
    EmptyPidTable,
    NoValidPidEntry,
}

impl ConfigError {
    /// Human-readable description of the error.
    pub fn message(&self) -> &'static str {
        match self {
            ConfigError::MissingDbcFile => "DBC file not specified in configuration",
            ConfigError::MissingBrokerIp => "Broker IP address not specified in configuration",
            ConfigError::MissingBrokerPort => "Invalid Broker port specified in configuration",
            ConfigError::MissingCanInterface => "CAN interface not specified in CAN configuration",
            ConfigError::MissingSocketType => "Socket CAN type not specified in CAN configuration",
            ConfigError::MissingSocketProtocol => "Socket CAN protocol not specified in CAN configuration",
            ConfigError::EmptyPidTable => "No PID entries found in configuration",
            ConfigError::NoValidPidEntry => "No valid PID entries found in configuration",
        }
    }
}

/// Some entry of the table has a non-empty request.
pub open spec fn has_valid_entry(table: Seq<PidEntry>) -> bool {
    exists|i: int| 0 <= i < table.len() && table[i].request_pid@.len() > 0
}

/// Outcome of checking a configuration: the first missing setting, in the
/// order general settings, CAN settings, polling table.
pub open spec fn config_check(c: AdapterConfig) -> Result<(), ConfigError> {
    if c.general_config.dbcfile@.len() == 0 {
        Err(ConfigError::MissingDbcFile)
    } else if c.general_config.broker_ip@.len() == 0 {
        Err(ConfigError::MissingBrokerIp)
    } else if c.general_config.broker_port@.len() == 0 {
        Err(ConfigError::MissingBrokerPort)
    } else if c.can_config.can_interface@.len() == 0 {
        Err(ConfigError::MissingCanInterface)
    } else if c.can_config.socket_can_type@.len() == 0 {
        Err(ConfigError::MissingSocketType)
    } else if c.can_config.socket_can_protocol@.len() == 0 {
        Err(ConfigError::MissingSocketProtocol)
    } else if c.pid_table@.len() == 0 {
        Err(ConfigError::EmptyPidTable)
    } else if !has_valid_entry(c.pid_table@) {
        Err(ConfigError::NoValidPidEntry)
    } else {
        Ok(())
    }
}

/// Checks that every required setting is present and that the polling
/// table holds at least one entry with a non-empty request.
pub fn validate_adapter_config(config: &AdapterConfig) -> (r: Result<(), ConfigError>)
    ensures
        r == config_check(*config),
{
    if config.general_config.dbcfile.as_str().is_empty() {
        return Err(ConfigError::MissingDbcFile);
    }
    if config.general_config.broker_ip.as_str().is_empty() {
        return Err(ConfigError::MissingBrokerIp);
    }
    if config.general_config.broker_port.as_str().is_empty() {
        return Err(ConfigError::MissingBrokerPort);
    }
    if config.can_config.can_interface.as_str().is_empty() {
        return Err(ConfigError::MissingCanInterface);
    }
    if config.can_config.socket_can_type.as_str().is_empty() {
        return Err(ConfigError::MissingSocketType);
    }
    if config.can_config.socket_can_protocol.as_str().is_empty() {
        return Err(ConfigError::MissingSocketProtocol);
    }
    if config.pid_table.len() == 0 {
        return Err(ConfigError::EmptyPidTable);
    }
    let mut i: usize = 0;
    while i < config.pid_table.len()
        invariant
            i <= config.pid_table@.len(),
            config.pid_table@.len() > 0,
            config.general_config.dbcfile@.len() > 0,
            config.general_config.broker_ip@.len() > 0,
            config.general_config.broker_port@.len() > 0,
            config.can_config.can_interface@.len() > 0,
            config.can_config.socket_can_type@.len() > 0,
            config.can_config.socket_can_protocol@.len() > 0,
            forall|j: int| 0 <= j < i ==> config.pid_table@[j].request_pid@.len() == 0,
        decreases config.pid_table@.len() - i,
    {
        if config.pid_table[i].request_pid.len() > 0 {
            assert(config.pid_table@[i as int].request_pid@.len() > 0);
            assert(has_valid_entry(config.pid_table@));
            return Ok(());
        }
        i += 1;
    }
    Err(ConfigError::NoValidPidEntry)
}

} // verus!
