use thesis::dpdk::config::{DPDKConfig, CoreConfig, MultiprocessingProcType, PCIOptions, VirtualDevice};
use thesis::dpdk::device::eth::{
    configure_port, get_ethdev_port_info, get_port_mtu, iter_ports, port_pool_cache_size,
    setup_port_queues, socket_id_for_port, start_port, EthDriverError, EthdevGetPortMtuError,
    EthdevPortInfoError,
};
use thesis::dpdk::device::event::dev::{
    configure_eventdev, get_eventdev_info, link_port_to_queue, setup_eventdev_simple,
    start_event_dev, EventDevConfig, EventDevConfigDriverError, EventDevLimits,
    EventDevQueueConfigError, EventDevStartErrors, EventPortConfig, EventPortConfigError,
    EventQueueConfig, EventQueueConfigType,
};
use thesis::dpdk::device::event::eth::{
    do_capability_setup, AddQueueToRxAdapterErrors, EventDevRxCapabilities, MempoolHandle,
    NewRxAdapterErrors, NewTxAdapterErrors, RxAdapter, RxAdapterQueueConfigExtensions, TxAdapter,
};
use thesis::dpdk::device::event::event::{EventOp, EventScheduleType, EventType, EventWordZero};
use thesis::dpdk::eal::RteErrnoValue;
use thesis::dpdk::ring::{DequeueFailureState, Ring, RingDataRequirements};

#[test]
fn ports_are_counted_from_zero() {
    assert_eq!(iter_ports(3).collect::<Vec<u16>>(), vec![0, 1, 2]);
    assert_eq!(iter_ports(0).count(), 0);
    assert_eq!(port_pool_cache_size(), 512);
}

#[test]
fn socket_of_a_port() {
    assert_eq!(socket_id_for_port(-1), None);
    assert_eq!(socket_id_for_port(0), Some(0));
    assert_eq!(socket_id_for_port(3), Some(3));
    assert_eq!(socket_id_for_port(-2), Some(u32::MAX - 1));
}

#[test]
fn port_information_answers() {
    assert_eq!(get_ethdev_port_info(1, 0), Ok(()));
    assert_eq!(
        get_ethdev_port_info(1, -95),
        Err(EthdevPortInfoError::NoSupportedInfoError { port: 1 })
    );
    assert_eq!(
        get_ethdev_port_info(2, -19),
        Err(EthdevPortInfoError::PortDoesNotExistError { port: 2 })
    );
    assert_eq!(
        get_ethdev_port_info(3, -22),
        Err(EthdevPortInfoError::InvalidParameterError { port: 3 })
    );
    assert_eq!(get_port_mtu(0, 0, 9001), Ok(9001));
    assert_eq!(
        get_port_mtu(4, -19, 0),
        Err(EthdevGetPortMtuError::PortDoesNotExistError { port: 4 })
    );
}

#[test]
fn port_setup_answers() {
    assert_eq!(configure_port(0, 0), Ok(()));
    assert_eq!(configure_port(0, 5), Ok(()));
    assert_eq!(
        configure_port(7, -3),
        Err(EthDriverError::PortConfigureError { port: 7, driver_error: -3 })
    );
    assert_eq!(start_port(0, 0), Ok(()));
    assert_eq!(
        start_port(7, -1),
        Err(EthDriverError::PortStartError { port: 7, driver_error: -1 })
    );
    assert_eq!(setup_port_queues(0, &vec![0, 0], &vec![0]), Ok(()));
    assert_eq!(setup_port_queues(0, &vec![], &vec![]), Ok(()));
    assert_eq!(
        setup_port_queues(2, &vec![0, -5, -6], &vec![-7]),
        Err(EthDriverError::PortRxQueueStartError { port: 2, queue: 1, driver_error: -5 })
    );
    assert_eq!(
        setup_port_queues(2, &vec![0, 1], &vec![0, 0, -9]),
        Err(EthDriverError::PortTxQueueStartError { port: 2, queue: 2, driver_error: -9 })
    );
}

fn limits() -> EventDevLimits {
    EventDevLimits {
        max_num_events: 4096,
        max_event_queues: 64,
        max_event_ports: 32,
        max_event_queue_flows: 1024,
        max_event_port_dequeue_depth: 128,
        max_event_port_enqueue_depth: 256,
    }
}

#[test]
fn event_device_configuration() {
    let full = EventDevConfig::from_limits(limits());
    assert_eq!(
        full,
        EventDevConfig {
            dequeue_timeout: 0,
            event_limit_amount: 4096,
            num_event_queues: 64,
            num_ports: 32,
            num_event_queue_flows: 1024,
            port_dequeue_depth: 128,
            port_enqueue_depth: 256,
            event_dev_cfg: 0,
            num_single_link_port_event_queues: 0,
        }
    );
    let simple = setup_eventdev_simple(limits(), 3, 2);
    assert_eq!(simple, EventDevConfig { num_ports: 3, num_event_queues: 2, ..full });
    assert_eq!(get_eventdev_info(1, 0), Ok(()));
    assert_eq!(
        get_eventdev_info(1, -22),
        Err(EventDevConfigDriverError::DriverConfigurationFailureError {
            eventdev_id: 1,
            driver_error: -22,
        })
    );
    assert_eq!(configure_eventdev(1, 0), Ok(()));
    assert_eq!(
        configure_eventdev(2, 4),
        Err(EventDevConfigDriverError::DriverConfigurationFailureError {
            eventdev_id: 2,
            driver_error: 4,
        })
    );
}

#[test]
fn event_queue_configuration() {
    let plain = EventQueueConfig::default();
    assert_eq!(plain.config_type, EventQueueConfigType::ORDERED);
    assert!(plain.is_single_link);
    assert_eq!(plain.priority, 128);
    let raw = plain.into_driver_config();
    assert_eq!(raw.schedule_type, EventScheduleType::Ordered);
    assert_eq!((raw.nb_atomic_flows, raw.nb_atomic_order_sequences), (0, 0));
    assert!(raw.single_link);
    assert_eq!(raw.priority, 128);
    let atomic = EventQueueConfig {
        config_type: EventQueueConfigType::ATOMIC { num_flows: 7, num_order_sequences: 9 },
        is_single_link: false,
        priority: 1,
    };
    let raw = atomic.into_driver_config();
    assert_eq!(raw.schedule_type, EventScheduleType::Atomic);
    assert_eq!((raw.nb_atomic_flows, raw.nb_atomic_order_sequences), (7, 9));
    assert!(!raw.single_link);
    let parallel = EventQueueConfig { config_type: EventQueueConfigType::PARALLEL, ..atomic };
    let raw = parallel.into_driver_config();
    assert_eq!(raw.schedule_type, EventScheduleType::Parallel);
    assert_eq!((raw.nb_atomic_flows, raw.nb_atomic_order_sequences), (0, 0));
    assert_eq!(EventQueueConfig::apply_to_eventdev_queue(1, 2, 0), Ok(()));
    assert_eq!(
        EventQueueConfig::apply_to_eventdev_queue(1, 2, -22),
        Err(EventDevQueueConfigError::ConfigurationFailure { device_id: 1, queue_id: 2, code: -22 })
    );
}

#[test]
fn event_port_configuration() {
    let reported = EventPortConfig {
        new_event_threshold: 10,
        dequeue_depth: 20,
        enqueue_depth: 30,
        event_port_cfg: 40,
    };
    assert_eq!(
        EventPortConfig::default_for_port(reported),
        EventPortConfig { event_port_cfg: 0, ..reported }
    );
    assert_eq!(EventPortConfig::setup_port(1, 2, 0), Ok(()));
    assert_eq!(
        EventPortConfig::setup_port(1, 2, -122),
        Err(EventPortConfigError::TooManyLinksToQueue { device_id: 1, port_id: 2 })
    );
    assert_eq!(
        EventPortConfig::setup_port(1, 2, -5),
        Err(EventPortConfigError::GenericPortConfigError {
            device_id: 1,
            port_id: 2,
            error_code: -5,
        })
    );
    assert_eq!(link_port_to_queue(1, 2, 3, 3, RteErrnoValue::EPERM), Ok(()));
    assert_eq!(
        link_port_to_queue(1, 2, 3, 1, RteErrnoValue::EDQUOT),
        Err(EventPortConfigError::TooManyLinksToQueue { device_id: 1, port_id: 2 })
    );
    assert_eq!(
        link_port_to_queue(1, 2, 3, 1, RteErrnoValue::EINVAL),
        Err(EventPortConfigError::InvalidLinkParameters { device_id: 1, port_id: 2, num_linked: 1 })
    );
}

#[test]
fn event_device_start() {
    assert_eq!(start_event_dev(0), Ok(()));
    assert_eq!(start_event_dev(-116), Err(EventDevStartErrors::NotAllPortsStartedError));
    assert_eq!(start_event_dev(-67), Err(EventDevStartErrors::NotAllQueuesLinkedError));
}

#[test]
fn capabilities_are_flags() {
    assert_eq!(EventDevRxCapabilities::empty().bits, 0);
    assert_eq!(EventDevRxCapabilities::from_bits_truncate(0xff).bits, 0b1111);
    assert_eq!(EventDevRxCapabilities::from_bits_truncate(0b10110).bits, 0b0110);
    let a = EventDevRxCapabilities { bits: 0b0011 };
    let b = EventDevRxCapabilities { bits: 0b0110 };
    assert_eq!(a.intersection(b).bits, 0b0010);
    assert_eq!(a.union(b).bits, 0b0111);
    assert!(a.contains(EventDevRxCapabilities { bits: 0b0001 }));
    assert!(!a.contains(b));
    assert_eq!(do_capability_setup(&vec![]).bits, 0b0001);
    assert_eq!(do_capability_setup(&vec![a, b]).bits, 0b0001);
    assert_eq!(
        do_capability_setup(&vec![EventDevRxCapabilities { bits: 0b1110 }]).bits,
        0b0001
    );
}

#[test]
fn receive_adapter_answers() {
    let failed = EventDevConfigDriverError::DriverConfigurationFailureError {
        eventdev_id: 1,
        driver_error: -5,
    };
    assert_eq!(
        RxAdapter::new(1, 2, 3, Err(failed), 0),
        Err(NewRxAdapterErrors::EventDevInfoError(failed))
    );
    assert_eq!(
        RxAdapter::new(1, 2, 0x0103, Ok(()), -22),
        Err(NewRxAdapterErrors::InvalidEtherDevice { ethdev_id: 3 })
    );
    assert_eq!(RxAdapter::new(1, 2, 3, Ok(()), -12), Err(NewRxAdapterErrors::OOM));
    let adapter = RxAdapter::new(1, 2, 3, Ok(()), 0).unwrap();
    assert_eq!(adapter.add_rx_queue(0), Ok(()));
    assert_eq!(
        adapter.add_rx_queue(-5),
        Err(AddQueueToRxAdapterErrors::ConfigurationAndRestartError {
            adapter_id: 1,
            event_device_id: 2,
            ether_device_id: 3,
        })
    );
}

#[test]
fn transmit_adapter_answers() {
    let failed = EventDevConfigDriverError::InvalidConfiguration;
    assert_eq!(
        TxAdapter::new(1, Err(failed), 0),
        Err(NewTxAdapterErrors::EventDevInfoError(failed))
    );
    assert_eq!(TxAdapter::new(1, Ok(()), -12), Err(NewTxAdapterErrors::OOM));
    assert_eq!(TxAdapter::new(9, Ok(()), 0).unwrap().id(), 9);
}

#[test]
fn vector_settings() {
    let plain = RxAdapterQueueConfigExtensions::Plain.into_driver_settings();
    assert_eq!((plain.vector_sz, plain.vector_timeout_ns, plain.vector_mp), (0, 0, None));
    let vector = RxAdapterQueueConfigExtensions::Vector {
        vector_size: 8,
        vector_timeout_ns: 1000,
        vector_mempool: MempoolHandle(77),
    }
    .into_driver_settings();
    assert_eq!(
        (vector.vector_sz, vector.vector_timeout_ns, vector.vector_mp),
        (8, 1000, Some(MempoolHandle(77)))
    );
}

#[test]
fn defaults() {
    assert_eq!(EventType::default(), EventType::EthDev);
    assert_eq!(EventOp::default(), EventOp::New);
    assert_eq!(EventScheduleType::default(), EventScheduleType::Ordered);
    assert_eq!(EventWordZero::default(), EventWordZero::Event(0));
    assert_eq!(MultiprocessingProcType::default(), MultiprocessingProcType::Auto);
    assert!(matches!(PCIOptions::default(), PCIOptions::NoPCI));
    let config = DPDKConfig::default();
    assert!(matches!(config.cores, CoreConfig::Mask(1)));
    assert!(config.main_lcore.is_none());
    assert!(config.virtual_devices.is_empty());
    assert!(!config.enable_telemetry);
    let device = VirtualDevice::with_driver("event_sw".to_string());
    assert_eq!(device.driver, "event_sw");
    assert_eq!(device.id, 0);
    assert!(device.options.is_empty());
}

#[derive(Clone, Copy)]
struct Token(u32);

impl RingDataRequirements for Token {}

struct Countdown {
    left: std::cell::Cell<u64>,
}

impl Ring<Token> for Countdown {
    fn try_enqueue(&self, val: Token) -> Result<(), Token> {
        Err(val)
    }

    fn try_dequeue(&self) -> Option<Token> {
        if self.left.get() == 0 {
            Some(Token(5))
        } else {
            self.left.set(self.left.get() - 1);
            None
        }
    }
}

#[test]
fn dequeue_gives_up_after_its_cycles() {
    let ring = Countdown { left: std::cell::Cell::new(3) };
    assert_eq!(ring.dequeue(3).err(), Some(DequeueFailureState::Timeout));
    let ring = Countdown { left: std::cell::Cell::new(3) };
    assert_eq!(ring.dequeue(4).unwrap().unwrap().0, 5);
    let ring = Countdown { left: std::cell::Cell::new(0) };
    assert_eq!(ring.dequeue(0).err(), Some(DequeueFailureState::Timeout));
    assert!(ring.try_enqueue(Token(1)).is_err());
}

#[test]
fn error_numbers_have_names() {
    assert_eq!(RteErrnoValue::from_u32(1), Some(RteErrnoValue::EPERM));
    assert_eq!(RteErrnoValue::from_u32(22), Some(RteErrnoValue::EINVAL));
    assert_eq!(RteErrnoValue::from_u32(122), Some(RteErrnoValue::EDQUOT));
    assert_eq!(RteErrnoValue::from_u32(133), Some(RteErrnoValue::EHWPOISON));
    assert_eq!(RteErrnoValue::from_u32(1001), Some(RteErrnoValue::ERteSecondary));
    assert_eq!(RteErrnoValue::from_u32(0), None);
    assert_eq!(RteErrnoValue::from_u32(41), None);
    assert_eq!(RteErrnoValue::from_u32(134), None);
    assert_eq!(RteErrnoValue::from_u32(1004), None);
    assert_eq!(RteErrnoValue::most_recent(12), RteErrnoValue::ENOMEM);
    for code in 0..2000 {
        if let Some(error) = RteErrnoValue::from_u32(code) {
            assert_eq!(error.code(), code);
        }
    }
    assert_eq!(RteErrnoValue::ENODEV.code(), 19);
    assert_eq!(RteErrnoValue::RteMaxErrno.code(), 1003);
}
