//! Configuration of the virtual network device that carries VPN packets.

use crate::addr::{netmask_to_cidr, spec_netmask_to_cidr, AddrError};
use vstd::prelude::*;
use vstd::string::{StringExecFns, StringSliceAdditionalSpecFns};

verus! {

/// How the virtual network device is set up.
#[derive(Debug, Clone)]
pub struct TunConfig {
    /// Name of the interface.
    pub name: String,
    /// IPv4 address of the interface.
    pub address: String,
    /// Netmask of the interface, in dotted form.
    pub netmask: String,
    /// Largest packet that the interface carries.
    pub mtu: u16,
}

impl Default for TunConfig {
    fn default() -> (c: Self)
        ensures
            c.name@ == "cryprq0"@,
            c.address@ == "10.0.0.1"@,
            c.netmask@ == "255.255.255.0"@,
            c.mtu == 1420,
    {
        Self {
            name: String::from_str("cryprq0"),
            address: String::from_str("10.0.0.1"),
            netmask: String::from_str("255.255.255.0"),
            mtu: 1420,
        }
    }
}

/// A virtual network device by its name and configuration. The device itself belongs to
/// whoever opened it.
#[derive(Debug, Clone)]
pub struct TunInterface {
    config: TunConfig,
    interface_name: String,
}

impl TunInterface {
    /// The configuration of the interface.
    pub closed spec fn spec_config(&self) -> TunConfig {
        self.config
    }

    /// The name of the interface.
    pub closed spec fn spec_name(&self) -> Seq<char> {
        self.interface_name@
    }

    /// An interface that goes by the name in its configuration.
    pub fn new(config: TunConfig) -> (t: Self)
        ensures
            t.spec_config() == config,
            t.spec_name() == config.name@,
    {
        let interface_name = config.name.clone();
        Self { config, interface_name }
    }

    /// The name of the interface.
    pub fn name(&self) -> (n: &str)
        ensures
            n@ == self.spec_name(),
    {
        self.interface_name.as_str()
    }

    /// The configuration of the interface.
    pub fn config(&self) -> (c: &TunConfig)
        ensures
            *c == self.spec_config(),
    {
        &self.config
    }

    /// Computes the prefix length of a netmask in dotted form.
    ///
    /// Fails with `InvalidNetmask` where the text is not four numbers from 0 to 255 with dots
    /// between them.
    pub fn netmask_to_cidr(&self, netmask: &str) -> (res: Result<u8, AddrError>)
        ensures
            match spec_netmask_to_cidr(netmask.spec_bytes()) {
                Some(n) => res == Ok::<u8, AddrError>(n as u8) && n <= 32,
                None => res == Err::<u8, AddrError>(AddrError::InvalidNetmask),
            },
    {
        netmask_to_cidr(netmask)
    }
}

} // verus!
