//! [`ChiaPeerConfig`]: which network a client speaks to, and whether it dials the operator's own
//! node.

use vstd::prelude::*;

use crate::address::SocketAddr;
use crate::bytes::Bytes32;

verus! {

/// The Chia network a client speaks to.
#[derive(Debug, Clone, Copy, PartialEq, Eq, Structural)]
pub enum ChiaNetwork {
    /// Chia mainnet.
    Mainnet,
    /// The public testnet, testnet11.
    Testnet11,
}

const MAINNET_PORT: u16 = 8444;

const TESTNET11_PORT: u16 = 58444;

/// Reads `chia_wallet_sdk::types::MAINNET_CONSTANTS.genesis_challenge`, a fixed 32-byte value.
#[verifier::external_body]
fn mainnet_genesis_challenge() -> (challenge: Bytes32)
    ensures
        challenge.bytes@ == ChiaNetwork::Mainnet.genesis_bytes(),
{
    Bytes32 { bytes: chia_wallet_sdk::types::MAINNET_CONSTANTS.genesis_challenge.to_bytes() }
}

/// Reads `chia_wallet_sdk::types::TESTNET11_CONSTANTS.genesis_challenge`, a fixed 32-byte value.
#[verifier::external_body]
fn testnet11_genesis_challenge() -> (challenge: Bytes32)
    ensures
        challenge.bytes@ == ChiaNetwork::Testnet11.genesis_bytes(),
{
    Bytes32 { bytes: chia_wallet_sdk::types::TESTNET11_CONSTANTS.genesis_challenge.to_bytes() }
}

impl ChiaNetwork {
    /// The name the network goes by in the handshake.
    pub open spec fn spec_network_id(self) -> Seq<char> {
        match self {
            ChiaNetwork::Mainnet => "mainnet"@,
            ChiaNetwork::Testnet11 => "testnet11"@,
        }
    }

    /// The name the network goes by in the handshake.
    pub fn network_id(self) -> (id: &'static str)
        ensures
            id@ == self.spec_network_id(),
    {
        match self {
            ChiaNetwork::Mainnet => "mainnet",
            ChiaNetwork::Testnet11 => "testnet11",
        }
    }

    /// The port full nodes of this network listen on by default.
    pub fn default_port(self) -> (port: u16)
        ensures
            port == (match self {
                ChiaNetwork::Mainnet => 8444u16,
                ChiaNetwork::Testnet11 => 58444u16,
            }),
    {
        match self {
            ChiaNetwork::Mainnet => MAINNET_PORT,
            ChiaNetwork::Testnet11 => TESTNET11_PORT,
        }
    }

    /// The bytes of the network's genesis challenge.
    pub open spec fn genesis_bytes(self) -> Seq<u8> {
        match self {
            ChiaNetwork::Mainnet => seq![
                0xccu8, 0xd5, 0xbb, 0x71, 0x18, 0x35, 0x32, 0xbf,
                0xf2, 0x20, 0xba, 0x46, 0xc2, 0x68, 0x99, 0x1a,
                0x3f, 0xf0, 0x7e, 0xb3, 0x58, 0xe8, 0x25, 0x5a,
                0x65, 0xc3, 0x0a, 0x2d, 0xce, 0x0e, 0x5f, 0xbb,
            ],
            ChiaNetwork::Testnet11 => seq![
                0x37u8, 0xa9, 0x0e, 0xb5, 0x18, 0x5a, 0x9c, 0x44,
                0x39, 0xa9, 0x1d, 0xdc, 0x98, 0xbb, 0xad, 0xce,
                0x7b, 0x4f, 0xeb, 0xa0, 0x60, 0xd5, 0x01, 0x16,
                0xa0, 0x67, 0xde, 0x66, 0xbf, 0x23, 0x66, 0x15,
            ],
        }
    }

    /// The genesis challenge, which stands for the header hash when coin state is read from height
    /// zero.
    pub fn genesis_challenge(self) -> (challenge: Bytes32)
        ensures
            challenge.bytes@ == self.genesis_bytes(),
    {
        match self {
            ChiaNetwork::Mainnet => mainnet_genesis_challenge(),
            ChiaNetwork::Testnet11 => testnet11_genesis_challenge(),
        }
    }
}

/// Different networks have different genesis challenges.
pub proof fn law_genesis_challenge_tells_networks_apart(a: ChiaNetwork, b: ChiaNetwork)
    requires
        a != b,
    ensures
        a.genesis_bytes() != b.genesis_bytes(),
{
    assert(a.genesis_bytes()[0] != b.genesis_bytes()[0]);
}

/// How long to wait.
#[derive(Debug, Clone, Copy, PartialEq, Eq, Structural)]
pub struct Timeout {
    /// Whole seconds.
    pub secs: u64,
    /// Nanoseconds on top.
    pub nanos: u32,
}

impl Timeout {
    /// A whole number of seconds.
    pub fn from_secs(secs: u64) -> (timeout: Self)
        ensures
            timeout == (Timeout { secs, nanos: 0 }),
    {
        Timeout { secs, nanos: 0 }
    }
}

/// How a light client connects and whom it trusts.
#[derive(Debug, Clone, PartialEq, Eq)]
pub struct ChiaPeerConfig {
    /// The network to connect to.
    pub network: ChiaNetwork,
    /// The operator's own node, dialed alone. Without one, peers are discovered.
    pub endpoint: Option<SocketAddr>,
    /// Whether `endpoint` is the operator's own trusted node.
    pub trusted: bool,
    /// How long one connection attempt may take.
    pub connect_timeout: Timeout,
    /// How long one request may take.
    pub request_timeout: Timeout,
    /// The path of the client's TLS certificate.
    pub tls_cert_path: Option<String>,
    /// The path of the client's TLS key.
    pub tls_key_path: Option<String>,
}

impl ChiaPeerConfig {
    /// A configuration that discovers untrusted public peers of `network`.
    pub open spec fn discovers(network: ChiaNetwork) -> Self {
        ChiaPeerConfig {
            network,
            endpoint: None,
            trusted: false,
            connect_timeout: Timeout { secs: 5, nanos: 0 },
            request_timeout: Timeout { secs: 15, nanos: 0 },
            tls_cert_path: None,
            tls_key_path: None,
        }
    }

    /// A configuration that discovers public mainnet peers.
    pub fn mainnet() -> (config: Self)
        ensures
            config == Self::discovers(ChiaNetwork::Mainnet),
    {
        Self::discovering(ChiaNetwork::Mainnet)
    }

    /// A configuration that discovers public testnet11 peers.
    pub fn testnet11() -> (config: Self)
        ensures
            config == Self::discovers(ChiaNetwork::Testnet11),
    {
        Self::discovering(ChiaNetwork::Testnet11)
    }

    /// A configuration that discovers untrusted public peers of `network`.
    pub fn discovering(network: ChiaNetwork) -> (config: Self)
        ensures
            config == Self::discovers(network),
    {
        ChiaPeerConfig {
            network,
            endpoint: None,
            trusted: false,
            connect_timeout: Timeout::from_secs(5),
            request_timeout: Timeout::from_secs(15),
            tls_cert_path: None,
            tls_key_path: None,
        }
    }

    /// Points the client at the operator's own trusted node.
    pub fn with_trusted_endpoint(self, endpoint: SocketAddr) -> (config: Self)
        ensures
            config == (ChiaPeerConfig { endpoint: Some(endpoint), trusted: true, ..self }),
    {
        ChiaPeerConfig { endpoint: Some(endpoint), trusted: true, ..self }
    }

    /// Sets the paths of the client's TLS certificate and key.
    pub fn with_tls(self, cert_path: &str, key_path: &str) -> (config: Self)
        ensures
            config == (ChiaPeerConfig {
                tls_cert_path: config.tls_cert_path,
                tls_key_path: config.tls_key_path,
                ..self
            }),
            config.tls_cert_path is Some,
            config.tls_cert_path->0@ == cert_path@,
            config.tls_key_path is Some,
            config.tls_key_path->0@ == key_path@,
    {
        ChiaPeerConfig {
            tls_cert_path: Some(cert_path.to_string()),
            tls_key_path: Some(key_path.to_string()),
            ..self
        }
    }
}

/// The names the networks go by in the handshake.
pub proof fn law_what_the_networks_are_called()
    ensures
        ChiaNetwork::Mainnet.spec_network_id() == "mainnet"@,
        ChiaNetwork::Testnet11.spec_network_id() == "testnet11"@,
{
}

/// A configuration that discovers peers trusts none and names none, waits five seconds for a
/// connection and fifteen for a reply, and presents a throw-away identity.
pub proof fn law_what_a_discovering_configuration_holds(network: ChiaNetwork)
    ensures
        ({
            let config = ChiaPeerConfig::discovers(network);
            &&& config.network == network
            &&& config.endpoint is None
            &&& !config.trusted
            &&& config.connect_timeout.secs == 5 && config.connect_timeout.nanos == 0
            &&& config.request_timeout.secs == 15 && config.request_timeout.nanos == 0
            &&& config.tls_cert_path is None
            &&& config.tls_key_path is None
        }),
{
}

} // verus!
