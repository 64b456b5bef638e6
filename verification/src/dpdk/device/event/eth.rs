//! The adapters between ethernet ports and event devices.

use vstd::prelude::*;
use crate::dpdk::device::eth::EthdevPortId;
use crate::dpdk::errno::{EINVAL, EIO, ENOMEM};
use super::dev::EventDevConfigDriverError;
use super::EventDeviceId;

verus! {

/// What an event device can do for the packets of an ethernet port, as a set
/// of flags.
#[derive(Debug, Clone, Copy, PartialEq, Eq, Structural)]
pub struct EventDevRxCapabilities {
    pub bits: u32,
}

/// The packet transfer is done in hardware.
pub const HW_PACKET_TRANSFER: u32 = 0b0001;

/// Every receive queue of a port can have an event queue of its own.
pub const MULTIPLE_EVENT_QUEUES_PER_ETHDEV: u32 = 0b0010;

/// The flow id that the adapter generates can be replaced.
pub const ALLOW_OVERRIDE_GENERATED_FLOW_ID: u32 = 0b0100;

/// Events can be gathered into vectors per port.
pub const PER_ETHDEV_EVENT_VECTORIZATION: u32 = 0b1000;

/// Every flag that is defined.
pub const ALL_RX_CAPABILITIES: u32 = 0b1111;

impl EventDevRxCapabilities {
    /// No capability.
    pub fn empty() -> (caps: Self)
        ensures
            caps.bits == 0,
    {
        EventDevRxCapabilities { bits: 0 }
    }

    /// The capabilities that `bits` spells, without the bits that spell
    /// none.
    pub fn from_bits_truncate(bits: u32) -> (caps: Self)
        ensures
            caps.bits == bits & ALL_RX_CAPABILITIES,
    {
        EventDevRxCapabilities { bits: bits & ALL_RX_CAPABILITIES }
    }

    /// The capabilities that both have.
    pub fn intersection(self, other: Self) -> (caps: Self)
        ensures
            caps.bits == self.bits & other.bits,
    {
        EventDevRxCapabilities { bits: self.bits & other.bits }
    }

    /// The capabilities that either has.
    pub fn union(self, other: Self) -> (caps: Self)
        ensures
            caps.bits == self.bits | other.bits,
    {
        EventDevRxCapabilities { bits: self.bits | other.bits }
    }

    /// Whether all capabilities of `other` are among these.
    pub fn contains(self, other: Self) -> (all: bool)
        ensures
            all == (self.bits & other.bits == other.bits),
    {
        self.bits & other.bits == other.bits
    }
}

/// The capabilities that the pipeline works with, given those of each port:
/// starting from none, what is common to all ports is kept, and hardware
/// packet transfer is added. That leaves hardware packet transfer alone.
pub fn do_capability_setup(per_port: &Vec<EventDevRxCapabilities>) -> (caps: EventDevRxCapabilities)
    ensures
        caps.bits == HW_PACKET_TRANSFER,
{
    let mut capabilities = EventDevRxCapabilities::empty();
    let mut port: usize = 0;
    while port < per_port.len()
        invariant
            port <= per_port@.len(),
            capabilities.bits == 0,
        decreases per_port@.len() - port,
    {
        let ghost other = per_port@[port as int].bits;
        capabilities = capabilities.intersection(per_port[port]);
        assert(0u32 & other == 0) by (bit_vector);
        port = port + 1;
    }
    assert(0u32 | 1u32 == 1u32) by (bit_vector);
    capabilities.union(EventDevRxCapabilities { bits: HW_PACKET_TRANSFER })
}

/// The number of a receive adapter.
pub type RxAdapterId = u8;

/// The number of a transmit adapter.
pub type TxAdapterId = u8;

/// Why a receive adapter could not be made.
#[derive(Debug, Clone, Copy, PartialEq, Eq, Structural)]
pub enum NewRxAdapterErrors {
    InvalidEtherDevice { ethdev_id: u8 },
    OOM,
    EventDevInfoError(EventDevConfigDriverError),
}

/// A pool of packet buffers, by the handle under which the driver knows it.
#[derive(Debug, Clone, Copy, PartialEq, Eq, Structural)]
pub struct MempoolHandle(pub usize);

/// What a receive queue adds to its plain configuration.
#[derive(Debug, Clone, Copy, PartialEq, Eq, Structural)]
pub enum RxAdapterQueueConfigExtensions {
    Plain,
    Vector { vector_size: u16, vector_timeout_ns: u64, vector_mempool: MempoolHandle },
}

/// The vector settings of a receive queue as the driver takes them.
#[derive(Debug, Clone, Copy, PartialEq, Eq, Structural)]
pub struct DriverVectorSettings {
    pub vector_sz: u16,
    pub vector_timeout_ns: u64,
    pub vector_mp: Option<MempoolHandle>,
}

impl RxAdapterQueueConfigExtensions {
    /// The vector settings as the driver takes them: all zero, and no pool,
    /// for a queue without vectors.
    pub fn into_driver_settings(self) -> (raw: DriverVectorSettings)
        ensures
            match self {
                RxAdapterQueueConfigExtensions::Plain => raw == (DriverVectorSettings {
                    vector_sz: 0,
                    vector_timeout_ns: 0,
                    vector_mp: None,
                }),
                RxAdapterQueueConfigExtensions::Vector {
                    vector_size,
                    vector_timeout_ns,
                    vector_mempool,
                } => raw == (DriverVectorSettings {
                    vector_sz: vector_size,
                    vector_timeout_ns,
                    vector_mp: Some(vector_mempool),
                }),
            },
    {
        match self {
            RxAdapterQueueConfigExtensions::Plain => DriverVectorSettings {
                vector_sz: 0,
                vector_timeout_ns: 0,
                vector_mp: None,
            },
            RxAdapterQueueConfigExtensions::Vector {
                vector_size,
                vector_timeout_ns,
                vector_mempool,
            } => DriverVectorSettings {
                vector_sz: vector_size,
                vector_timeout_ns,
                vector_mp: Some(vector_mempool),
            },
        }
    }
}

/// Why a queue could not be added to a receive adapter.
#[derive(Debug, Clone, Copy, PartialEq, Eq, Structural)]
pub enum AddQueueToRxAdapterErrors {
    ConfigurationAndRestartError {
        adapter_id: RxAdapterId,
        event_device_id: EventDeviceId,
        ether_device_id: EthdevPortId,
    },
}

/// An adapter that turns the packets of an ethernet port into events.
#[derive(Debug, Clone, Copy, PartialEq, Eq, Structural)]
pub struct RxAdapter {
    adapter_id: RxAdapterId,
    event_device_id: EventDeviceId,
    ether_device_id: EthdevPortId,
}

impl RxAdapter {
    /// The number of the adapter.
    pub closed spec fn spec_adapter_id(&self) -> RxAdapterId {
        self.adapter_id
    }

    /// The event device that the adapter feeds.
    pub closed spec fn spec_event_device_id(&self) -> EventDeviceId {
        self.event_device_id
    }

    /// The ethernet port that the adapter reads.
    pub closed spec fn spec_ether_device_id(&self) -> EthdevPortId {
        self.ether_device_id
    }

    /// The adapter, where the driver made it: `info` is what the request for
    /// device information came to, `answer` the driver's answer to the
    /// making of the adapter.
    pub fn new(
        adapter_id: RxAdapterId,
        eventdev_id: EventDeviceId,
        ethdev_id: EthdevPortId,
        info: Result<(), EventDevConfigDriverError>,
        answer: i32,
    ) -> (r: Result<RxAdapter, NewRxAdapterErrors>)
        requires
            info is Ok ==> answer == 0 || answer == -EINVAL || answer == -ENOMEM,
        ensures
            info is Err ==> r == Err::<RxAdapter, NewRxAdapterErrors>(
                NewRxAdapterErrors::EventDevInfoError(info->Err_0),
            ),
            info is Ok && answer == -EINVAL ==> r == Err::<RxAdapter, NewRxAdapterErrors>(
                NewRxAdapterErrors::InvalidEtherDevice { ethdev_id: (ethdev_id % 256) as u8 },
            ),
            info is Ok && answer == -ENOMEM ==> r == Err::<RxAdapter, NewRxAdapterErrors>(
                NewRxAdapterErrors::OOM,
            ),
            info is Ok && answer == 0 ==> r is Ok && r->Ok_0.spec_adapter_id() == adapter_id
                && r->Ok_0.spec_event_device_id() == eventdev_id
                && r->Ok_0.spec_ether_device_id() == ethdev_id,
    {
        match info {
            Err(e) => Err(NewRxAdapterErrors::EventDevInfoError(e)),
            Ok(()) => {
                if answer == -EINVAL {
                    Err(NewRxAdapterErrors::InvalidEtherDevice { ethdev_id: (ethdev_id % 256) as u8 })
                } else if answer == -ENOMEM {
                    Err(NewRxAdapterErrors::OOM)
                } else {
                    Ok(
                        RxAdapter {
                            adapter_id,
                            event_device_id: eventdev_id,
                            ether_device_id: ethdev_id,
                        },
                    )
                }
            },
        }
    }

    /// What the driver's answer to the adding of a queue means.
    pub fn add_rx_queue(&self, answer: i32) -> (r: Result<(), AddQueueToRxAdapterErrors>)
        requires
            answer == 0 || answer == -EIO,
        ensures
            answer == 0 ==> r is Ok,
            answer == -EIO ==> r == Err::<(), AddQueueToRxAdapterErrors>(
                AddQueueToRxAdapterErrors::ConfigurationAndRestartError {
                    adapter_id: self.spec_adapter_id(),
                    event_device_id: self.spec_event_device_id(),
                    ether_device_id: self.spec_ether_device_id(),
                },
            ),
    {
        if answer == 0 {
            Ok(())
        } else {
            Err(
                AddQueueToRxAdapterErrors::ConfigurationAndRestartError {
                    adapter_id: self.adapter_id,
                    event_device_id: self.event_device_id,
                    ether_device_id: self.ether_device_id,
                },
            )
        }
    }
}

/// Why a transmit adapter could not be made.
#[derive(Debug, Clone, Copy, PartialEq, Eq, Structural)]
pub enum NewTxAdapterErrors {
    InvalidEtherDevice { ethdev_id: u8 },
    OOM,
    EventDevInfoError(EventDevConfigDriverError),
}

/// Why a queue could not be added to a transmit adapter.
#[derive(Debug, Clone, Copy, PartialEq, Eq, Structural)]
pub enum AddQueueToTxAdapterErrors {
    ConfigurationAndRestartError {
        adapter_id: TxAdapterId,
        event_device_id: EventDeviceId,
        ether_device_id: EthdevPortId,
    },
}

/// An adapter that sends the packets of events out of an ethernet port.
#[derive(Debug, Clone, Copy, PartialEq, Eq, Structural)]
pub struct TxAdapter {
    id: TxAdapterId,
}

impl TxAdapter {
    /// The number of the adapter.
    pub closed spec fn spec_id(&self) -> TxAdapterId {
        self.id
    }

    /// The adapter, where the driver made it: `info` is what the request for
    /// device information came to, `answer` the driver's answer to the
    /// making of the adapter.
    pub fn new(
        adapter_id: TxAdapterId,
        info: Result<(), EventDevConfigDriverError>,
        answer: i32,
    ) -> (r: Result<TxAdapter, NewTxAdapterErrors>)
        requires
            info is Ok ==> answer == 0 || answer == -ENOMEM,
        ensures
            info is Err ==> r == Err::<TxAdapter, NewTxAdapterErrors>(
                NewTxAdapterErrors::EventDevInfoError(info->Err_0),
            ),
            info is Ok && answer == -ENOMEM ==> r == Err::<TxAdapter, NewTxAdapterErrors>(
                NewTxAdapterErrors::OOM,
            ),
            info is Ok && answer == 0 ==> r is Ok && r->Ok_0.spec_id() == adapter_id,
    {
        match info {
            Err(e) => Err(NewTxAdapterErrors::EventDevInfoError(e)),
            Ok(()) => {
                if answer == -ENOMEM {
                    Err(NewTxAdapterErrors::OOM)
                } else {
                    Ok(TxAdapter { id: adapter_id })
                }
            },
        }
    }

    /// The number of the adapter.
    pub fn id(&self) -> (id: TxAdapterId)
        ensures
            id == self.spec_id(),
    {
        self.id
    }
}

} // verus!
