//! Ethernet ports: what the driver's answers to their setup mean.

use vstd::prelude::*;
use std::ops::Range;
use crate::dpdk::errno::{EINVAL, ENODEV, ENOTSUP};

verus! {

/// The number of an ethernet port.
pub type EthdevPortId = u16;

/// The number of a queue of a port.
pub type EventQueueId = u16;

/// The largest cache that a packet buffer pool can have per core.
pub const RTE_MEMPOOL_CACHE_MAX_SIZE: u32 = 512;

/// How many packet buffers the pool of a port holds.
pub const PORT_POOL_SIZE: u32 = 8196;

/// Why a port could not be brought up.
#[derive(Debug, Clone, Copy, PartialEq, Eq, Structural)]
pub enum EthDriverError {
    PortRxQueueStartError { port: EthdevPortId, queue: EventQueueId, driver_error: i32 },
    PortTxQueueStartError { port: EthdevPortId, queue: EventQueueId, driver_error: i32 },
    PortConfigureError { port: EthdevPortId, driver_error: i32 },
    PortStartError { port: EthdevPortId, driver_error: i32 },
}

/// Why the driver gave no information on a port.
#[derive(Debug, Clone, Copy, PartialEq, Eq, Structural)]
pub enum EthdevPortInfoError {
    NoSupportedInfoError { port: EthdevPortId },
    PortDoesNotExistError { port: EthdevPortId },
    InvalidParameterError { port: EthdevPortId },
}

/// Why the driver gave no transmission unit of a port.
#[derive(Debug, Clone, Copy, PartialEq, Eq, Structural)]
pub enum EthdevGetPortMtuError {
    PortDoesNotExistError { port: EthdevPortId },
}

/// The ports, where `available` of them are available.
pub fn iter_ports(available: u16) -> (ports: Range<u16>)
    ensures
        ports.start == 0,
        ports.end == available,
{
    0..available
}

/// The cache size of the packet buffer pool of a port: the pool's size,
/// capped at the largest cache that a pool can have.
pub fn port_pool_cache_size() -> (size: u32)
    ensures
        size == RTE_MEMPOOL_CACHE_MAX_SIZE,
{
    if PORT_POOL_SIZE < RTE_MEMPOOL_CACHE_MAX_SIZE {
        PORT_POOL_SIZE
    } else {
        RTE_MEMPOOL_CACHE_MAX_SIZE
    }
}

/// A signed driver answer read as an unsigned number of the same 32 bits.
pub open spec fn as_unsigned(answer: i32) -> u32 {
    if answer >= 0 {
        answer as u32
    } else {
        (answer + 0x1_0000_0000) as u32
    }
}

/// The socket of a port, from the driver's answer: none where the answer is
/// `-1`, else the answer read as an unsigned number.
pub fn socket_id_for_port(socket: i32) -> (id: Option<u32>)
    ensures
        socket == -1 ==> id is None,
        socket != -1 ==> id == Some(as_unsigned(socket)),
{
    if socket == -1 {
        None
    } else if socket >= 0 {
        Some(socket as u32)
    } else {
        Some((socket as i64 + 0x1_0000_0000) as u32)
    }
}

/// What the driver's answer to a request for port information means.
pub fn get_ethdev_port_info(port: EthdevPortId, answer: i32) -> (r: Result<
    (),
    EthdevPortInfoError,
>)
    requires
        answer == 0 || answer == -ENOTSUP || answer == -ENODEV || answer == -EINVAL,
    ensures
        answer == 0 ==> r is Ok,
        answer == -ENOTSUP ==> r == Err::<(), EthdevPortInfoError>(
            EthdevPortInfoError::NoSupportedInfoError { port },
        ),
        answer == -ENODEV ==> r == Err::<(), EthdevPortInfoError>(
            EthdevPortInfoError::PortDoesNotExistError { port },
        ),
        answer == -EINVAL ==> r == Err::<(), EthdevPortInfoError>(
            EthdevPortInfoError::InvalidParameterError { port },
        ),
{
    if answer == 0 {
        Ok(())
    } else if answer == -ENOTSUP {
        Err(EthdevPortInfoError::NoSupportedInfoError { port })
    } else if answer == -ENODEV {
        Err(EthdevPortInfoError::PortDoesNotExistError { port })
    } else {
        Err(EthdevPortInfoError::InvalidParameterError { port })
    }
}

/// What the driver's answer to a request for the transmission unit of a port
/// means; `mtu` is the unit that came with the answer.
pub fn get_port_mtu(port: EthdevPortId, answer: i32, mtu: u16) -> (r: Result<
    u16,
    EthdevGetPortMtuError,
>)
    requires
        answer == 0 || answer == -ENODEV,
    ensures
        answer == 0 ==> r == Ok::<u16, EthdevGetPortMtuError>(mtu),
        answer != 0 ==> r == Err::<u16, EthdevGetPortMtuError>(
            EthdevGetPortMtuError::PortDoesNotExistError { port },
        ),
{
    if answer == 0 {
        Ok(mtu)
    } else {
        Err(EthdevGetPortMtuError::PortDoesNotExistError { port })
    }
}

/// What the driver's answer to the configuration of a port means.
pub fn configure_port(port: EthdevPortId, answer: i32) -> (r: Result<(), EthDriverError>)
    ensures
        answer >= 0 ==> r is Ok,
        answer < 0 ==> r == Err::<(), EthDriverError>(
            EthDriverError::PortConfigureError { port, driver_error: answer },
        ),
{
    if answer < 0 {
        Err(EthDriverError::PortConfigureError { port, driver_error: answer })
    } else {
        Ok(())
    }
}

/// What the driver's answers to the setup of the queues of a port mean:
/// `rx_answers[q]` is the answer for receive queue `q`, `tx_answers[q]` the
/// one for transmit queue `q`. The receive queues are set up first; the
/// first queue with a negative answer decides.
pub fn setup_port_queues(port: EthdevPortId, rx_answers: &Vec<i32>, tx_answers: &Vec<i32>) -> (r:
    Result<(), EthDriverError>)
    requires
        rx_answers@.len() <= u16::MAX,
        tx_answers@.len() <= u16::MAX,
    ensures
        match r {
            Ok(()) => {
                &&& forall|q: int| 0 <= q < rx_answers@.len() ==> rx_answers@[q] >= 0
                &&& forall|q: int| 0 <= q < tx_answers@.len() ==> tx_answers@[q] >= 0
            },
            Err(EthDriverError::PortRxQueueStartError { port: p, queue, driver_error }) => {
                &&& p == port
                &&& queue < rx_answers@.len()
                &&& driver_error == rx_answers@[queue as int]
                &&& driver_error < 0
                &&& forall|q: int| 0 <= q < queue ==> rx_answers@[q] >= 0
            },
            Err(EthDriverError::PortTxQueueStartError { port: p, queue, driver_error }) => {
                &&& p == port
                &&& queue < tx_answers@.len()
                &&& driver_error == tx_answers@[queue as int]
                &&& driver_error < 0
                &&& forall|q: int| 0 <= q < rx_answers@.len() ==> rx_answers@[q] >= 0
                &&& forall|q: int| 0 <= q < queue ==> tx_answers@[q] >= 0
            },
            Err(_) => false,
        },
{
    let mut queue: usize = 0;
    while queue < rx_answers.len()
        invariant
            queue <= rx_answers@.len() <= u16::MAX,
            forall|q: int| 0 <= q < queue ==> rx_answers@[q] >= 0,
        decreases rx_answers@.len() - queue,
    {
        let driver_error = rx_answers[queue];
        if driver_error < 0 {
            return Err(
                EthDriverError::PortRxQueueStartError {
                    port,
                    queue: queue as EventQueueId,
                    driver_error,
                },
            );
        }
        queue = queue + 1;
    }
    let mut queue: usize = 0;
    while queue < tx_answers.len()
        invariant
            queue <= tx_answers@.len() <= u16::MAX,
            forall|q: int| 0 <= q < rx_answers@.len() ==> rx_answers@[q] >= 0,
            forall|q: int| 0 <= q < queue ==> tx_answers@[q] >= 0,
        decreases tx_answers@.len() - queue,
    {
        let driver_error = tx_answers[queue];
        if driver_error < 0 {
            return Err(
                EthDriverError::PortTxQueueStartError {
                    port,
                    queue: queue as EventQueueId,
                    driver_error,
                },
            );
        }
        queue = queue + 1;
    }
    Ok(())
}

/// What the driver's answer to the start of a port means.
pub fn start_port(port: EthdevPortId, answer: i32) -> (r: Result<(), EthDriverError>)
    ensures
        answer >= 0 ==> r is Ok,
        answer < 0 ==> r == Err::<(), EthDriverError>(
            EthDriverError::PortStartError { port, driver_error: answer },
        ),
{
    if answer < 0 {
        Err(EthDriverError::PortStartError { port, driver_error: answer })
    } else {
        Ok(())
    }
}

} // verus!
