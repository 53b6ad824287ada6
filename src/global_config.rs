use vstd::prelude::*;

verus! {

/// Identity of a liteserver: the key type tag and its base64 public key.
#[derive(Clone, Debug)]
pub struct LiteServerId {
    pub _type: String,
    pub key: String,
}

/// One entry of the published directory of liteservers.
#[derive(Clone, Debug)]
pub struct LiteServer {
    /// IPv4 address as a signed 32-bit integer (the bit pattern of the address).
    pub ip: i32,
    pub port: u16,
    pub id: LiteServerId,
}

/// The published network configuration: the directory of liteservers.
#[derive(Clone, Debug)]
pub struct GlobalConfig {
    pub liteservers: Vec<LiteServer>,
}

} // verus!
