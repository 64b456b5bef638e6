//! Event devices: their configuration, and what the driver's answers to it
//! mean.

use vstd::prelude::*;
use crate::dpdk::device::eth::EventQueueId;
use crate::dpdk::eal::RteErrnoValue;
use crate::dpdk::errno::{EDQUOT, ENOLINK, ESTALE};
use super::event::EventScheduleType;
use super::{EventDeviceId, EventPortId};

verus! {

/// The priority of a queue that is neither preferred nor put back.
pub const RTE_EVENT_DEV_PRIORITY_NORMAL: u8 = 128;

/// Why an event device could not be configured.
#[derive(Debug, Clone, Copy, PartialEq, Eq, Structural)]
pub enum EventDevConfigDriverError {
    DriverConfigurationFailureError { eventdev_id: EventDeviceId, driver_error: i32 },
    InvalidConfiguration,
}

/// What the driver's answer to a request for device information means.
pub fn get_eventdev_info(device_id: EventDeviceId, answer: i32) -> (r: Result<
    (),
    EventDevConfigDriverError,
>)
    ensures
        answer == 0 ==> r is Ok,
        answer != 0 ==> r == Err::<(), EventDevConfigDriverError>(
            EventDevConfigDriverError::DriverConfigurationFailureError {
                eventdev_id: device_id,
                driver_error: answer,
            },
        ),
{
    if answer != 0 {
        Err(
            EventDevConfigDriverError::DriverConfigurationFailureError {
                eventdev_id: device_id,
                driver_error: answer,
            },
        )
    } else {
        Ok(())
    }
}

/// The limits that an event device reports of itself.
#[derive(Debug, Clone, Copy, PartialEq, Eq, Structural)]
pub struct EventDevLimits {
    pub max_num_events: i32,
    pub max_event_queues: u8,
    pub max_event_ports: u8,
    pub max_event_queue_flows: u32,
    pub max_event_port_dequeue_depth: u8,
    pub max_event_port_enqueue_depth: u32,
}

/// The configuration of an event device.
#[derive(Debug, Clone, Copy, PartialEq, Eq, Structural)]
pub struct EventDevConfig {
    pub dequeue_timeout: u32,
    pub event_limit_amount: i32,
    pub num_event_queues: u8,
    pub num_ports: u8,
    pub num_event_queue_flows: u32,
    pub port_dequeue_depth: u32,
    pub port_enqueue_depth: u32,
    pub event_dev_cfg: u32,
    pub num_single_link_port_event_queues: u8,
}

impl EventDevConfig {
    /// The configuration that uses a device to its limits.
    pub fn from_limits(info: EventDevLimits) -> (config: Self)
        ensures
            config == (EventDevConfig {
                dequeue_timeout: 0,
                event_limit_amount: info.max_num_events,
                num_event_queues: info.max_event_queues,
                num_ports: info.max_event_ports,
                num_event_queue_flows: info.max_event_queue_flows,
                port_dequeue_depth: info.max_event_port_dequeue_depth as u32,
                port_enqueue_depth: info.max_event_port_enqueue_depth,
                event_dev_cfg: 0,
                num_single_link_port_event_queues: 0,
            }),
    {
        EventDevConfig {
            dequeue_timeout: 0,
            event_limit_amount: info.max_num_events,
            num_event_queues: info.max_event_queues,
            num_ports: info.max_event_ports,
            num_event_queue_flows: info.max_event_queue_flows,
            port_dequeue_depth: info.max_event_port_dequeue_depth as u32,
            port_enqueue_depth: info.max_event_port_enqueue_depth,
            event_dev_cfg: 0,
            num_single_link_port_event_queues: 0,
        }
    }
}

/// The configuration of a device with `num_ports` ports and
/// `num_event_queues` queues that otherwise uses the device to its limits.
pub fn setup_eventdev_simple(info: EventDevLimits, num_ports: u8, num_event_queues: u8) -> (config:
    EventDevConfig)
    ensures
        config == (EventDevConfig {
            num_ports,
            num_event_queues,
            ..EventDevConfig {
                dequeue_timeout: 0,
                event_limit_amount: info.max_num_events,
                num_event_queues: info.max_event_queues,
                num_ports: info.max_event_ports,
                num_event_queue_flows: info.max_event_queue_flows,
                port_dequeue_depth: info.max_event_port_dequeue_depth as u32,
                port_enqueue_depth: info.max_event_port_enqueue_depth,
                event_dev_cfg: 0,
                num_single_link_port_event_queues: 0,
            }
        }),
{
    let mut config = EventDevConfig::from_limits(info);
    config.num_ports = num_ports;
    config.num_event_queues = num_event_queues;
    config
}

/// What the driver's answer to the configuration of a device means.
pub fn configure_eventdev(device_id: EventDeviceId, answer: i32) -> (r: Result<
    (),
    EventDevConfigDriverError,
>)
    ensures
        answer == 0 ==> r is Ok,
        answer != 0 ==> r == Err::<(), EventDevConfigDriverError>(
            EventDevConfigDriverError::DriverConfigurationFailureError {
                eventdev_id: device_id,
                driver_error: answer,
            },
        ),
{
    get_eventdev_info(device_id, answer)
}

/// Why a queue of an event device could not be configured.
#[derive(Debug, Clone, Copy, PartialEq, Eq, Structural)]
pub enum EventDevQueueConfigError {
    ConfigurationFailure { device_id: EventDeviceId, queue_id: EventQueueId, code: i32 },
}

/// How a queue schedules its events.
#[derive(Debug, Clone, Copy, PartialEq, Eq, Structural)]
pub enum EventQueueConfigType {
    ORDERED,
    ATOMIC { num_flows: u32, num_order_sequences: u32 },
    PARALLEL,
}

/// The configuration of a queue of an event device.
#[derive(Debug, Clone, Copy, PartialEq, Eq, Structural)]
pub struct EventQueueConfig {
    pub config_type: EventQueueConfigType,
    pub is_single_link: bool,
    pub priority: u8,
}

/// The configuration of a queue as the driver takes it.
#[derive(Debug, Clone, Copy, PartialEq, Eq, Structural)]
pub struct DriverQueueConfig {
    pub nb_atomic_flows: u32,
    pub nb_atomic_order_sequences: u32,
    pub single_link: bool,
    pub schedule_type: EventScheduleType,
    pub priority: u8,
}

impl Default for EventQueueConfig {
    fn default() -> (config: Self)
        ensures
            config == (EventQueueConfig {
                config_type: EventQueueConfigType::ORDERED,
                is_single_link: true,
                priority: RTE_EVENT_DEV_PRIORITY_NORMAL,
            }),
    {
        EventQueueConfig {
            config_type: EventQueueConfigType::ORDERED,
            is_single_link: true,
            priority: RTE_EVENT_DEV_PRIORITY_NORMAL,
        }
    }
}

impl EventQueueConfig {
    /// The configuration as the driver takes it: only an atomic queue has
    /// flows and order sequences.
    pub fn into_driver_config(&self) -> (raw: DriverQueueConfig)
        ensures
            raw.single_link == self.is_single_link,
            raw.priority == self.priority,
            match self.config_type {
                EventQueueConfigType::ORDERED => raw.schedule_type == EventScheduleType::Ordered
                    && raw.nb_atomic_flows == 0 && raw.nb_atomic_order_sequences == 0,
                EventQueueConfigType::ATOMIC { num_flows, num_order_sequences } => raw.schedule_type
                    == EventScheduleType::Atomic && raw.nb_atomic_flows == num_flows
                    && raw.nb_atomic_order_sequences == num_order_sequences,
                EventQueueConfigType::PARALLEL => raw.schedule_type == EventScheduleType::Parallel
                    && raw.nb_atomic_flows == 0 && raw.nb_atomic_order_sequences == 0,
            },
    {
        match self.config_type {
            EventQueueConfigType::ORDERED => DriverQueueConfig {
                nb_atomic_flows: 0,
                nb_atomic_order_sequences: 0,
                single_link: self.is_single_link,
                schedule_type: EventScheduleType::Ordered,
                priority: self.priority,
            },
            EventQueueConfigType::ATOMIC { num_flows, num_order_sequences } => DriverQueueConfig {
                nb_atomic_flows: num_flows,
                nb_atomic_order_sequences: num_order_sequences,
                single_link: self.is_single_link,
                schedule_type: EventScheduleType::Atomic,
                priority: self.priority,
            },
            EventQueueConfigType::PARALLEL => DriverQueueConfig {
                nb_atomic_flows: 0,
                nb_atomic_order_sequences: 0,
                single_link: self.is_single_link,
                schedule_type: EventScheduleType::Parallel,
                priority: self.priority,
            },
        }
    }

    /// What the driver's answer to the setup of a queue means.
    pub fn apply_to_eventdev_queue(device_id: EventDeviceId, queue_id: EventQueueId, answer: i32) -> (r:
        Result<(), EventDevQueueConfigError>)
        ensures
            answer == 0 ==> r is Ok,
            answer != 0 ==> r == Err::<(), EventDevQueueConfigError>(
                EventDevQueueConfigError::ConfigurationFailure { device_id, queue_id, code: answer },
            ),
    {
        if answer == 0 {
            Ok(())
        } else {
            Err(EventDevQueueConfigError::ConfigurationFailure { device_id, queue_id, code: answer })
        }
    }
}

/// Why a port of an event device could not be configured or linked.
#[derive(Debug, Clone, Copy, PartialEq, Eq, Structural)]
pub enum EventPortConfigError {
    TooManyLinksToQueue { device_id: EventDeviceId, port_id: EventPortId },
    GenericPortConfigError { device_id: EventDeviceId, port_id: EventPortId, error_code: i32 },
    InvalidLinkParameters { device_id: EventDeviceId, port_id: EventPortId, num_linked: u32 },
}

/// The configuration of a port of an event device.
#[derive(Debug, Clone, Copy, PartialEq, Eq, Structural)]
pub struct EventPortConfig {
    pub new_event_threshold: i32,
    pub dequeue_depth: u16,
    pub enqueue_depth: u16,
    pub event_port_cfg: u32,
}

impl EventPortConfig {
    /// The configuration for a port from the defaults that the driver
    /// reports for it, without any port flag.
    pub fn default_for_port(driver_default: EventPortConfig) -> (config: Self)
        ensures
            config == (EventPortConfig { event_port_cfg: 0, ..driver_default }),
    {
        EventPortConfig {
            new_event_threshold: driver_default.new_event_threshold,
            dequeue_depth: driver_default.dequeue_depth,
            enqueue_depth: driver_default.enqueue_depth,
            event_port_cfg: 0,
        }
    }

    /// What the driver's answer to the setup of a port means.
    pub fn setup_port(device_id: EventDeviceId, port_id: EventPortId, answer: i32) -> (r: Result<
        (),
        EventPortConfigError,
    >)
        ensures
            answer >= 0 ==> r is Ok,
            answer == -EDQUOT ==> r == Err::<(), EventPortConfigError>(
                EventPortConfigError::TooManyLinksToQueue { device_id, port_id },
            ),
            answer < 0 && answer != -EDQUOT ==> r == Err::<(), EventPortConfigError>(
                EventPortConfigError::GenericPortConfigError {
                    device_id,
                    port_id,
                    error_code: answer,
                },
            ),
    {
        if answer == -EDQUOT {
            Err(EventPortConfigError::TooManyLinksToQueue { device_id, port_id })
        } else if answer < 0 {
            Err(
                EventPortConfigError::GenericPortConfigError {
                    device_id,
                    port_id,
                    error_code: answer,
                },
            )
        } else {
            Ok(())
        }
    }
}

/// What the driver's answer to the linking of a port to `wanted` queues
/// means: `linked` is the number of queues that it linked, and `errno` the
/// error number that it left where it linked fewer.
pub fn link_port_to_queue(
    device_id: EventDeviceId,
    port_id: EventPortId,
    wanted: u16,
    linked: i32,
    errno: RteErrnoValue,
) -> (r: Result<(), EventPortConfigError>)
    requires
        linked != wanted ==> (errno == RteErrnoValue::EDQUOT || errno == RteErrnoValue::EINVAL)
            && linked >= 0,
    ensures
        linked == wanted ==> r is Ok,
        linked != wanted && errno == RteErrnoValue::EDQUOT ==> r == Err::<
            (),
            EventPortConfigError,
        >(EventPortConfigError::TooManyLinksToQueue { device_id, port_id }),
        linked != wanted && errno == RteErrnoValue::EINVAL ==> r == Err::<(), EventPortConfigError>(
            EventPortConfigError::InvalidLinkParameters {
                device_id,
                port_id,
                num_linked: linked as u32,
            },
        ),
{
    if linked != wanted as i32 {
        if errno == RteErrnoValue::EDQUOT {
            Err(EventPortConfigError::TooManyLinksToQueue { device_id, port_id })
        } else {
            Err(
                EventPortConfigError::InvalidLinkParameters {
                    device_id,
                    port_id,
                    num_linked: linked as u32,
                },
            )
        }
    } else {
        Ok(())
    }
}

/// Why an event device did not start.
#[derive(Debug, Clone, Copy, PartialEq, Eq, Structural)]
pub enum EventDevStartErrors {
    NotAllPortsStartedError,
    NotAllQueuesLinkedError,
}

/// What the driver's answer to the start of a device means.
pub fn start_event_dev(answer: i32) -> (r: Result<(), EventDevStartErrors>)
    requires
        answer == 0 || answer == -ESTALE || answer == -ENOLINK,
    ensures
        answer == 0 ==> r is Ok,
        answer == -ESTALE ==> r == Err::<(), EventDevStartErrors>(
            EventDevStartErrors::NotAllPortsStartedError,
        ),
        answer == -ENOLINK ==> r == Err::<(), EventDevStartErrors>(
            EventDevStartErrors::NotAllQueuesLinkedError,
        ),
{
    if answer == 0 {
        Ok(())
    } else if answer == -ESTALE {
        Err(EventDevStartErrors::NotAllPortsStartedError)
    } else {
        Err(EventDevStartErrors::NotAllQueuesLinkedError)
    }
}

} // verus!
