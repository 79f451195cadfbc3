//! The server's configuration.

use crate::text::{decimal, push_decimal};
use vstd::prelude::*;

verus! {

/// Where the server listens and where its files are.
#[derive(Clone, Debug)]
pub struct Settings {
    pub host: String,
    pub port: u16,
    pub templates_dir: String,
    pub static_dir: String,
}

impl Settings {
    /// The address to listen on: host, colon, port.
    pub open spec fn address_text(self) -> Seq<char> {
        self.host@ + seq![':'] + decimal(self.port as nat)
    }

    /// The address to listen on, as the listener takes it.
    pub fn address(&self) -> (address: String)
        ensures
            address@ == self.address_text(),
    {
        let mut address = self.host.clone();
        address.push(':');
        let address = push_decimal(address, self.port as u64);
        assert(address@ =~= self.address_text());
        address
    }
}

} // verus!
