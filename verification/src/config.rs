//! Configuration of both ends of the link, and the checks it must pass.

use vstd::prelude::*;

verus! {

/// Largest MTU of the UDP link, and size of a receive buffer.
pub const MAX_MTU: usize = 9000;

/// Why a configuration is refused.
#[derive(Clone, Copy, Debug, PartialEq, Eq, Structural)]
pub enum ConfigError {
    /// The MTU is above [`MAX_MTU`].
    InvalidMtu,
    /// The list of UDP ports is empty.
    EmptyPortList,
    /// A UDP port is listed twice.
    DuplicatedPort,
    /// A core is listed twice.
    DuplicatedCore,
    /// There are not as many cores as UDP ports.
    CoreCountMismatch,
    /// The cores of this machine cannot be listed.
    NoCoreList,
    /// A listed core is not one this process may run on.
    UnknownCore,
    /// No block of the wanted size can be cut into symbols for this MTU.
    InvalidBlockSize,
    /// A block would be sent as more packets than can be numbered.
    TooManyPackets,
    /// The sender's part is missing.
    MissingSender,
    /// The receiver's part is missing.
    MissingReceiver,
}

/// What only the sender reads.
pub struct DiodeSenderConfig {
    /// TCP address on which clients are accepted.
    pub bind_tcp: String,
    /// UDP address from which datagrams are sent.
    pub bind_udp: String,
    /// Limit on the rate at which a client is read, in bits per second.
    pub max_bandwidth: Option<u64>,
    /// Address of the metrics listener.
    pub metrics: Option<String>,
}

/// What only the receiver reads.
pub struct DiodeReceiverConfig {
    /// TCP address to which the stream is delivered.
    pub to_tcp: String,
    /// Milliseconds after which an incomplete block is released. Defaults to
    /// the heartbeat period.
    pub block_expiration_timeout: Option<u32>,
    /// Milliseconds after which pending blocks are dropped. Defaults to five
    /// heartbeat periods.
    pub session_expiration_timeout: Option<u32>,
    /// Cores to pin the UDP readers to, one per UDP port.
    pub core_affinity: Option<Vec<usize>>,
    /// Address of the metrics listener.
    pub metrics: Option<String>,
    /// Length of the queue between UDP readers and reorder buffer.
    pub udp_packets_queue_size: Option<usize>,
    /// Length of the queue between decoder and downstream writer.
    pub tcp_blocks_queue_size: Option<usize>,
}

/// The whole configuration.
pub struct DiodeConfig {
    /// Wanted size of a block, in bytes.
    pub encoding_block_size: u64,
    /// Bytes of repair data added to each block.
    pub repair_block_size: u32,
    /// IP address of the receiving side of the UDP link.
    pub udp_addr: String,
    /// UDP ports, one per lane.
    pub udp_port: Vec<u16>,
    /// MTU of the UDP link.
    pub udp_mtu: u16,
    /// Heartbeat period, in milliseconds.
    pub heartbeat: u32,
    /// Path of the logging configuration.
    pub log_config: Option<String>,
    pub sender: Option<DiodeSenderConfig>,
    pub receiver: Option<DiodeReceiverConfig>,
}

/// `core_affinity::get_core_ids`: the cores this process may run on, if the
/// system tells. Nothing is claimed of them.
#[verifier::external_body]
fn available_cores() -> (r: Option<Vec<usize>>) {
    core_affinity::get_core_ids().map(|cores| cores.iter().map(|core| core.id).collect())
}

/// Tells whether no port is listed twice.
pub fn ports_are_distinct(ports: &Vec<u16>) -> (r: bool)
    ensures
        r == ports@.no_duplicates(),
{
    let mut i: usize = 0;
    while i < ports.len()
        invariant
            i <= ports.len(),
            forall|a: int, b: int| 0 <= a < i && 0 <= b < ports.len() && a != b ==> ports[a] != ports[b],
        decreases ports.len() - i,
    {
        let mut j: usize = 0;
        while j < ports.len()
            invariant
                i < ports.len(),
                j <= ports.len(),
                forall|b: int| 0 <= b < j && i != b ==> ports[i as int] != ports[b],
            decreases ports.len() - j,
        {
            if i != j && ports[i] == ports[j] {
                return false;
            }
            j += 1;
        }
        i += 1;
    }
    true
}

/// Tells whether no core is listed twice.
pub fn cores_are_distinct(cores: &Vec<usize>) -> (r: bool)
    ensures
        r == cores@.no_duplicates(),
{
    let mut i: usize = 0;
    while i < cores.len()
        invariant
            i <= cores.len(),
            forall|a: int, b: int| 0 <= a < i && 0 <= b < cores.len() && a != b ==> cores[a] != cores[b],
        decreases cores.len() - i,
    {
        let mut j: usize = 0;
        while j < cores.len()
            invariant
                i < cores.len(),
                j <= cores.len(),
                forall|b: int| 0 <= b < j && i != b ==> cores[i as int] != cores[b],
            decreases cores.len() - j,
        {
            if i != j && cores[i] == cores[j] {
                return false;
            }
            j += 1;
        }
        i += 1;
    }
    true
}

/// Tells whether `core` is among `available`.
pub fn is_available(available: &Vec<usize>, core: usize) -> (r: bool)
    ensures
        r == available@.contains(core),
{
    let mut i: usize = 0;
    while i < available.len()
        invariant
            i <= available.len(),
            forall|k: int| 0 <= k < i ==> available[k] != core,
        decreases available.len() - i,
    {
        if available[i] == core {
            return true;
        }
        i += 1;
    }
    false
}

/// What is found of an MTU: at most [`MAX_MTU`], or refused.
pub open spec fn mtu_verdict(mtu: u16) -> Result<(), ConfigError> {
    if mtu > 9000 {
        Err(ConfigError::InvalidMtu)
    } else {
        Ok(())
    }
}

/// What is found of a list of ports: there is one at least and none twice.
pub open spec fn ports_verdict(ports: Seq<u16>) -> Result<(), ConfigError> {
    if ports.len() == 0 {
        Err(ConfigError::EmptyPortList)
    } else if !ports.no_duplicates() {
        Err(ConfigError::DuplicatedPort)
    } else {
        Ok(())
    }
}

/// What is found of a list of cores for `lanes` UDP readers on a machine whose
/// usable cores are `available`: no core twice, one core per reader, and every
/// core usable.
pub open spec fn cores_verdict(cores: Seq<usize>, lanes: nat, available: Option<Seq<usize>>) -> Result<
    (),
    ConfigError,
> {
    if !cores.no_duplicates() {
        Err(ConfigError::DuplicatedCore)
    } else if cores.len() != lanes {
        Err(ConfigError::CoreCountMismatch)
    } else {
        match available {
            None => Err(ConfigError::NoCoreList),
            Some(usable) => if forall|i: int| 0 <= i < cores.len() ==> usable.contains(cores[i]) {
                Ok(())
            } else {
                Err(ConfigError::UnknownCore)
            },
        }
    }
}

/// The cores that a configuration pins its readers to, if it names any.
pub open spec fn pinned_cores(config: DiodeConfig) -> Option<Seq<usize>> {
    match config.receiver {
        Some(receiver) => match receiver.core_affinity {
            Some(cores) => Some(cores@),
            None => None,
        },
        None => None,
    }
}

/// The usable cores as a sequence.
pub open spec fn core_list(available: Option<Vec<usize>>) -> Option<Seq<usize>> {
    match available {
        Some(cores) => Some(cores@),
        None => None,
    }
}

/// Checks a list of cores against the cores of the machine.
#[verifier::loop_isolation(false)]
pub fn check_cores(cores: &Vec<usize>, lanes: usize, available: &Option<Vec<usize>>) -> (r: Result<
    (),
    ConfigError,
>)
    ensures
        r == cores_verdict(cores@, lanes as nat, core_list(*available)),
{
    if !cores_are_distinct(cores) {
        return Err(ConfigError::DuplicatedCore);
    }
    if cores.len() != lanes {
        return Err(ConfigError::CoreCountMismatch);
    }
    match available {
        None => Err(ConfigError::NoCoreList),
        Some(usable_cores) => {
            assert(core_list(*available) == Some(usable_cores@));
            let mut i: usize = 0;
            while i < cores.len()
                invariant
                    i <= cores.len(),
                    forall|k: int| 0 <= k < i ==> usable_cores@.contains(cores@[k]),
                decreases cores.len() - i,
            {
                if !is_available(usable_cores, cores[i]) {
                    assert(!usable_cores@.contains(cores@[i as int]));
                    assert(!(forall|k: int|
                        0 <= k < cores@.len() ==> usable_cores@.contains(cores@[k])));
                    return Err(ConfigError::UnknownCore);
                }
                i += 1;
            }
            Ok(())
        },
    }
}

impl DiodeConfig {
    /// Refuses an MTU above [`MAX_MTU`].
    pub fn check_mtu(mtu: u16) -> (r: Result<(), ConfigError>)
        ensures
            r == mtu_verdict(mtu),
    {
        if mtu as usize > MAX_MTU {
            return Err(ConfigError::InvalidMtu);
        }
        Ok(())
    }

    /// Refuses an empty list of ports and a list that names a port twice.
    pub fn check_threads_and_ports(config: &DiodeConfig) -> (r: Result<(), ConfigError>)
        ensures
            r == ports_verdict(config.udp_port@),
    {
        if config.udp_port.len() == 0 {
            return Err(ConfigError::EmptyPortList);
        }
        if !ports_are_distinct(&config.udp_port) {
            return Err(ConfigError::DuplicatedPort);
        }
        Ok(())
    }

    /// Checks the cores that the readers are pinned to, if any, against the
    /// cores that the system reports: see [`cores_verdict`]. A configuration
    /// that pins nothing passes.
    pub fn check_threads_and_core_affinity(config: &DiodeConfig) -> (r: Result<(), ConfigError>)
        ensures
            pinned_cores(*config) is None ==> r == Ok::<(), ConfigError>(()),
            pinned_cores(*config) is Some ==> exists|available: Option<Seq<usize>>|
                r == #[trigger] cores_verdict(
                    pinned_cores(*config)->Some_0,
                    config.udp_port@.len(),
                    available,
                ),
    {
        match &config.receiver {
            Some(receiver) => match &receiver.core_affinity {
                Some(cores) => {
                    let available = available_cores();
                    let r = check_cores(cores, config.udp_port.len(), &available);
                    proof {
                        let lanes = config.udp_port@.len();
                        assert(pinned_cores(*config) == Some(cores@));
                        assert(r == cores_verdict(cores@, lanes, core_list(available)));
                        assert(exists|usable: Option<Seq<usize>>|
                            r == #[trigger] cores_verdict(
                                pinned_cores(*config)->Some_0,
                                lanes,
                                usable,
                            ));
                    }
                    r
                },
                None => {
                    assert(pinned_cores(*config) is None);
                    Ok(())
                },
            },
            None => {
                assert(pinned_cores(*config) is None);
                Ok(())
            },
        }
    }

    /// What [`DiodeConfig::validate`] finds when the usable cores are `available`.
    pub open spec fn verdict(self, available: Option<Seq<usize>>) -> Result<(), ConfigError> {
        if mtu_verdict(self.udp_mtu) is Err {
            mtu_verdict(self.udp_mtu)
        } else if ports_verdict(self.udp_port@) is Err {
            ports_verdict(self.udp_port@)
        } else {
            match pinned_cores(self) {
                Some(cores) => cores_verdict(cores, self.udp_port@.len(), available),
                None => Ok(()),
            }
        }
    }

    /// The checks that a configuration passes before it is used: MTU, ports,
    /// cores, in this order.
    pub fn validate(&self) -> (r: Result<(), ConfigError>)
        ensures
            exists|available: Option<Seq<usize>>| r == #[trigger] self.verdict(available),
            mtu_verdict(self.udp_mtu) is Err ==> r == mtu_verdict(self.udp_mtu),
            mtu_verdict(self.udp_mtu) is Ok && (ports_verdict(self.udp_port@) is Err || pinned_cores(
                *self,
            ) is None) ==> r == ports_verdict(self.udp_port@),
    {
        match DiodeConfig::check_mtu(self.udp_mtu) {
            Err(e) => {
                assert(Err::<(), ConfigError>(e) == self.verdict(None));
                return Err(e);
            },
            Ok(_) => {},
        }
        match DiodeConfig::check_threads_and_ports(self) {
            Err(e) => {
                assert(Err::<(), ConfigError>(e) == self.verdict(None));
                return Err(e);
            },
            Ok(_) => {},
        }
        let r = DiodeConfig::check_threads_and_core_affinity(self);
        proof {
            if pinned_cores(*self) is None {
                assert(r == self.verdict(None));
            } else {
                let cores = pinned_cores(*self)->Some_0;
                let available = choose|available: Option<Seq<usize>>|
                    r == #[trigger] cores_verdict(cores, self.udp_port@.len(), available);
                assert(r == self.verdict(available));
            }
        }
        r
    }
}

} // verus!
