//! A discovered receiver.
use crate::address::IpAddress;
use vstd::prelude::*;

verus! {

/// A receiver found on the network: its host name, its address and the TCP port it offers.
#[derive(Debug)]
pub struct Device {
    pub name: String,
    pub ip_address: IpAddress,
    pub port: u16,
}

impl Device {
    pub fn new(name: String, ip_address: IpAddress, port: u16) -> (device: Device)
        ensures
            device.name@ == name@,
            device.ip_address == ip_address,
            device.port == port,
    {
        Device { name, ip_address, port }
    }
}

} // verus!
