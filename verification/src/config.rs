//! Configuration of the two ends of a connection.

use vstd::prelude::*;

use crate::bytes::{copy_bytes, copy_list, list_view, option_list_view, option_view};
use crate::keys::{Keypair, KeypairView, PublicKey};
use crate::model::{SessionView, State};
use crate::params::TransportParameters;
use crate::session::NoiseSession;
use crate::side::Side;

verus! {

/// Configuration of a client.
pub struct NoiseClientConfig {
    /// Keypair to use.
    pub keypair: Keypair,
    /// Optional private shared key usable as a password for private networks.
    pub psk: Option<[u8; 32]>,
    /// Enables keylogging for debugging purposes.
    pub keylogger: bool,
    /// The remote public key. This needs to be set.
    pub remote_public_key: PublicKey,
    /// ALPN string to use.
    pub alpn: Vec<u8>,
}

/// Configuration of a server.
pub struct NoiseServerConfig {
    /// Keypair to use.
    pub keypair: Keypair,
    /// Optional private shared key usable as a password for private networks.
    pub psk: Option<[u8; 32]>,
    /// Enables keylogging for debugging purposes.
    pub keylogger: bool,
    /// Supported ALPN identifiers.
    pub supported_protocols: Vec<Vec<u8>>,
}

/// Noise configuration struct.
pub struct NoiseConfig {
    keypair: Option<Keypair>,
    psk: Option<[u8; 32]>,
    keylogger: bool,
    remote_public_key: Option<PublicKey>,
    alpn: Option<Vec<u8>>,
    supported_protocols: Option<Vec<Vec<u8>>>,
}

/// What a configuration says.
#[verifier::ext_equal]
pub struct ConfigView {
    pub keypair: Option<KeypairView>,
    pub psk: Option<Seq<u8>>,
    pub keylogger: bool,
    pub remote_public_key: Option<Seq<u8>>,
    pub alpn: Option<Seq<u8>>,
    pub supported_protocols: Option<Seq<Seq<u8>>>,
}

impl ConfigView {
    /// The shared key that sessions use: the one that is configured, or else all zero.
    pub open spec fn shared_key(self) -> Seq<u8> {
        match self.psk {
            Some(psk) => psk,
            None => Seq::new(32, |i: int| 0u8),
        }
    }

    /// The session that starts from this configuration with the given static and ephemeral key
    /// pair: it hashes from nothing.
    pub open spec fn session(
        self,
        side: Side,
        transport_parameters: Seq<u8>,
        s: KeypairView,
        e: KeypairView,
    ) -> SessionView {
        SessionView {
            duplex: Seq::new(50, |i: int| 0u8),
            state: State::Initial,
            side,
            e,
            s,
            psk: self.shared_key(),
            alpn: self.alpn,
            supported_protocols: self.supported_protocols,
            transport_parameters,
            remote_transport_parameters: None,
            remote_e: None,
            remote_s: self.remote_public_key,
            zero_rtt_key: None,
            key_log: if self.keylogger {
                Some(seq![])
            } else {
                None
            },
        }
    }

    /// The session that starts from this configuration with key pairs that were drawn for it: the
    /// one for its static key pair counts only where none is configured.
    pub open spec fn drawn_session(
        self,
        side: Side,
        transport_parameters: Seq<u8>,
        drawn_s: KeypairView,
        drawn_e: KeypairView,
    ) -> SessionView {
        let s = match self.keypair {
            Some(keypair) => keypair,
            None => drawn_s,
        };
        self.session(side, transport_parameters, s, drawn_e)
    }
}

impl View for NoiseClientConfig {
    type V = ConfigView;

    open spec fn view(&self) -> ConfigView {
        ConfigView {
            keypair: Some(self.keypair@),
            psk: option_view(self.psk),
            keylogger: self.keylogger,
            remote_public_key: Some(self.remote_public_key@),
            alpn: Some(self.alpn@),
            supported_protocols: None,
        }
    }
}

impl View for NoiseServerConfig {
    type V = ConfigView;

    open spec fn view(&self) -> ConfigView {
        ConfigView {
            keypair: Some(self.keypair@),
            psk: option_view(self.psk),
            keylogger: self.keylogger,
            remote_public_key: None,
            alpn: None,
            supported_protocols: Some(list_view(self.supported_protocols@)),
        }
    }
}

impl View for NoiseConfig {
    type V = ConfigView;

    closed spec fn view(&self) -> ConfigView {
        ConfigView {
            keypair: option_view(self.keypair),
            psk: option_view(self.psk),
            keylogger: self.keylogger,
            remote_public_key: option_view(self.remote_public_key),
            alpn: option_view(self.alpn),
            supported_protocols: option_list_view(self.supported_protocols),
        }
    }
}

impl From<NoiseClientConfig> for NoiseConfig {
    fn from(config: NoiseClientConfig) -> (result: Self)
        ensures
            result@ == config@,
    {
        NoiseConfig {
            keypair: Some(config.keypair),
            psk: config.psk,
            keylogger: config.keylogger,
            remote_public_key: Some(config.remote_public_key),
            alpn: Some(config.alpn),
            supported_protocols: None,
        }
    }
}

impl vstd::std_specs::convert::FromSpecImpl<NoiseClientConfig> for NoiseConfig {
    open spec fn obeys_from_spec() -> bool {
        true
    }

    closed spec fn from_spec(config: NoiseClientConfig) -> NoiseConfig {
        NoiseConfig {
            keypair: Some(config.keypair),
            psk: config.psk,
            keylogger: config.keylogger,
            remote_public_key: Some(config.remote_public_key),
            alpn: Some(config.alpn),
            supported_protocols: None,
        }
    }
}

impl From<NoiseServerConfig> for NoiseConfig {
    fn from(config: NoiseServerConfig) -> (result: Self)
        ensures
            result@ == config@,
    {
        NoiseConfig {
            keypair: Some(config.keypair),
            psk: config.psk,
            keylogger: config.keylogger,
            remote_public_key: None,
            alpn: None,
            supported_protocols: Some(config.supported_protocols),
        }
    }
}

impl vstd::std_specs::convert::FromSpecImpl<NoiseServerConfig> for NoiseConfig {
    open spec fn obeys_from_spec() -> bool {
        true
    }

    closed spec fn from_spec(config: NoiseServerConfig) -> NoiseConfig {
        NoiseConfig {
            keypair: Some(config.keypair),
            psk: config.psk,
            keylogger: config.keylogger,
            remote_public_key: None,
            alpn: None,
            supported_protocols: Some(config.supported_protocols),
        }
    }
}

/// The configuration in which nothing is set.
pub open spec fn empty_config() -> ConfigView {
    ConfigView {
        keypair: None,
        psk: None,
        keylogger: false,
        remote_public_key: None,
        alpn: None,
        supported_protocols: None,
    }
}

impl Default for NoiseConfig {
    fn default() -> (config: Self)
        ensures
            config@ == empty_config(),
    {
        NoiseConfig {
            keypair: None,
            psk: None,
            keylogger: false,
            remote_public_key: None,
            alpn: None,
            supported_protocols: None,
        }
    }
}

impl Clone for NoiseConfig {
    fn clone(&self) -> (same: Self)
        ensures
            same@ == self@,
    {
        NoiseConfig {
            keypair: self.keypair,
            psk: self.psk,
            keylogger: self.keylogger,
            remote_public_key: self.remote_public_key,
            alpn: match &self.alpn {
                Some(alpn) => Some(copy_bytes(alpn)),
                None => None,
            },
            supported_protocols: match &self.supported_protocols {
                Some(protocols) => Some(copy_list(protocols)),
                None => None,
            },
        }
    }
}

impl NoiseConfig {
    /// The configuration in which nothing is set.
    pub fn new() -> (config: Self)
        ensures
            config@ == empty_config(),
    {
        Default::default()
    }

    /// Starts a session with the given static and ephemeral key pair.
    pub fn start_session_with(
        &self,
        side: Side,
        params: &TransportParameters,
        s: Keypair,
        e: Keypair,
    ) -> (session: NoiseSession)
        ensures
            session@ == self@.session(side, params@, s@, e@),
            session@.s == s@,
            session@.e == e@,
            self@.psk matches Some(key) ==> session@.psk == key,
            session@.wf(),
    {
        let config = self.clone();
        let psk: [u8; 32] = match config.psk {
            Some(psk) => psk,
            None => [0u8; 32],
        };
        assert(config.psk is None ==> psk@ =~= Seq::new(32, |i: int| 0u8));
        NoiseSession::start(
            side,
            e,
            s,
            psk,
            config.alpn,
            config.supported_protocols,
            params.clone(),
            config.remote_public_key,
            config.keylogger,
        )
    }

    /// Starts a session with key pairs that were drawn for it: the ephemeral key pair is `drawn_e`,
    /// and the static key pair is the one that is configured, or else `drawn_s`.
    pub fn start_session_drawn(
        &self,
        side: Side,
        params: &TransportParameters,
        drawn_s: Keypair,
        drawn_e: Keypair,
    ) -> (session: NoiseSession)
        ensures
            session@ == self@.drawn_session(side, params@, drawn_s@, drawn_e@),
            self@.keypair matches Some(keypair) ==> session@.s == keypair,
            self@.keypair is None ==> session@.s == drawn_s@,
            session@.e == drawn_e@,
            self@.psk matches Some(key) ==> session@.psk == key,
            session@.wf(),
    {
        let s: Keypair = match self.keypair {
            Some(keypair) => keypair,
            None => drawn_s,
        };
        self.start_session_with(side, params, s, drawn_e)
    }

    /// Starts a session. The static key pair is the one that is configured, or else a new one; the
    /// ephemeral key pair is always new.
    pub fn start_session(&self, side: Side, params: &TransportParameters) -> (session: NoiseSession)
        ensures
            session@ == self@.session(side, params@, session@.s, session@.e),
            session@.wf(),
            session@.e.matched(),
            match self@.keypair {
                Some(keypair) => session@.s == keypair,
                None => session@.s.matched(),
            },
            self@.psk matches Some(key) ==> session@.psk == key,
    {
        let drawn_s = Keypair::generate();
        let drawn_e = Keypair::generate();
        self.start_session_drawn(side, params, drawn_s, drawn_e)
    }
}

} // verus!
