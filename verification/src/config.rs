//! Explicit configuration: the block size and batch size of a session, the
//! address of the peer, and the account under which key material is drawn.

use crate::text::{append_decimal, append_signed_decimal, decimal, signed_decimal};
use vstd::prelude::*;

verus! {

/// Which end of the channel a process plays.
#[derive(Debug, Clone, Copy, PartialEq, Eq, Structural)]
pub enum Role {
    /// Binds, accepts one connection and opens what arrives.
    Receiver,
    /// Connects and seals what it reads from its source.
    Sender,
}

impl Role {
    /// The role that an application entity number stands for, if any.
    pub open spec fn of_entity(sae_id: int) -> Option<Role> {
        if sae_id == 1 {
            Some(Role::Receiver)
        } else if sae_id == 2 {
            Some(Role::Sender)
        } else {
            None
        }
    }

    /// Entity 1 receives and entity 2 sends; no other number has a role.
    pub fn from_sae_id(sae_id: i32) -> (r: Option<Role>)
        ensures
            r == Role::of_entity(sae_id as int),
    {
        if sae_id == 1 {
            Some(Role::Receiver)
        } else if sae_id == 2 {
            Some(Role::Sender)
        } else {
            None
        }
    }
}

/// The parameters of one session.
#[derive(Debug, Clone, PartialEq, Eq)]
pub struct ChannelConfig {
    /// How many keys one request to the key manager asks for.
    pub keys_per_request: usize,
    /// The size of one key and of one plaintext block, in bytes.
    pub key_size_bytes: usize,
    /// The host on which the receiver listens.
    pub server_ip: String,
    /// The port on which the receiver listens.
    pub server_port: usize,
    /// The file that the sender reads its plaintext from.
    pub text_file: String,
}

impl ChannelConfig {
    /// Both counts are positive and the key size in bits fits a `usize`.
    pub open spec fn wf(&self) -> bool {
        &&& self.keys_per_request > 0
        &&& self.key_size_bytes > 0
        &&& self.key_size_bytes * 8 <= usize::MAX
    }

    /// Whether the configuration is well formed.
    pub fn is_valid(&self) -> (b: bool)
        ensures
            b == self.wf(),
    {
        self.keys_per_request > 0 && self.key_size_bytes > 0 && self.key_size_bytes <= usize::MAX
            / 8
    }

    /// The key size in bits, as requests to the key manager state it.
    pub fn key_size_bits(&self) -> (bits: usize)
        requires
            self.wf(),
        ensures
            bits == self.key_size_bytes * 8,
    {
        self.key_size_bytes * 8
    }

    /// The address that the receiver binds: every interface, at the
    /// configured port.
    pub fn listen_address(&self) -> (addr: String)
        ensures
            addr@ == "0.0.0.0:"@ + decimal(self.server_port as nat),
    {
        let mut addr = String::from_str("0.0.0.0:");
        append_decimal(&mut addr, self.server_port as u64);
        addr
    }

    /// The address that the sender connects to: the configured host and port.
    pub fn peer_address(&self) -> (addr: String)
        ensures
            addr@ == self.server_ip@ + ":"@ + decimal(self.server_port as nat),
    {
        let mut addr = self.server_ip.clone();
        addr.append(":");
        append_decimal(&mut addr, self.server_port as u64);
        addr
    }
}

impl Default for ChannelConfig {
    /// Five keys of 1024 bytes per request, towards `192.168.8.2:8080`, reading
    /// `lorem.txt`.
    fn default() -> (c: Self)
        ensures
            c.wf(),
            c.keys_per_request == 5,
            c.key_size_bytes == 1024,
            c.server_ip@ == "192.168.8.2"@,
            c.server_port == 8080,
            c.text_file@ == "lorem.txt"@,
    {
        ChannelConfig {
            keys_per_request: 5,
            key_size_bytes: 1024,
            server_ip: String::from_str("192.168.8.2"),
            server_port: 8080,
            text_file: String::from_str("lorem.txt"),
        }
    }
}

/// The account and entity under which a process talks to its key manager, and
/// the directory that holds its certificates.
#[derive(Debug, Clone, PartialEq, Eq)]
pub struct KmeAccount {
    pub account_id: i32,
    pub sae_id: i32,
    pub cert_dir: String,
}

impl KmeAccount {
    /// The entity at the other end: 2 for entity 1, and 1 for every other.
    pub open spec fn peer_of(sae_id: int) -> int {
        if sae_id == 1 {
            2
        } else {
            1
        }
    }

    /// The text of the account's CA certificate path.
    pub open spec fn ca_cert_path_text(&self) -> Seq<char> {
        self.cert_dir@ + "/account-"@ + signed_decimal(self.account_id as int)
            + "-server-ca-qukaydee-com.crt"@
    }

    /// The text of the entity's certificate path.
    pub open spec fn sae_cert_path_text(&self) -> Seq<char> {
        self.cert_dir@ + "/sae-"@ + signed_decimal(self.sae_id as int) + ".crt"@
    }

    /// The text of the entity's private key path.
    pub open spec fn sae_key_path_text(&self) -> Seq<char> {
        self.cert_dir@ + "/sae-"@ + signed_decimal(self.sae_id as int) + ".key"@
    }

    /// The text of the key manager's base URL.  The key manager carries the
    /// entity's own number, the last path segment that of its peer.
    pub open spec fn base_url_text(&self) -> Seq<char> {
        "https://kme-"@ + signed_decimal(self.sae_id as int) + ".acct-"@ + signed_decimal(
            self.account_id as int,
        ) + ".etsi-qkd-api.qukaydee.com/api/v1/keys/sae-"@ + signed_decimal(
            Self::peer_of(self.sae_id as int),
        ) + "/"@
    }

    /// The entity at the other end of the channel.
    pub fn peer_sae_id(&self) -> (peer: i32)
        ensures
            peer == Self::peer_of(self.sae_id as int),
    {
        if self.sae_id == 1 {
            2
        } else {
            1
        }
    }

    /// Where the CA certificate of the account's key managers lies.
    pub fn ca_cert_path(&self) -> (path: String)
        ensures
            path@ == self.ca_cert_path_text(),
    {
        let mut path = self.cert_dir.clone();
        path.append("/account-");
        append_signed_decimal(&mut path, self.account_id);
        path.append("-server-ca-qukaydee-com.crt");
        path
    }

    /// Where the entity's certificate lies.
    pub fn sae_cert_path(&self) -> (path: String)
        ensures
            path@ == self.sae_cert_path_text(),
    {
        let mut path = self.cert_dir.clone();
        path.append("/sae-");
        append_signed_decimal(&mut path, self.sae_id);
        path.append(".crt");
        path
    }

    /// Where the entity's private key lies.
    pub fn sae_key_path(&self) -> (path: String)
        ensures
            path@ == self.sae_key_path_text(),
    {
        let mut path = self.cert_dir.clone();
        path.append("/sae-");
        append_signed_decimal(&mut path, self.sae_id);
        path.append(".key");
        path
    }

    /// The URL under which the entity's key manager serves keys shared with
    /// the peer entity.
    pub fn base_url(&self) -> (url: String)
        ensures
            url@ == self.base_url_text(),
    {
        let mut url = String::from_str("https://kme-");
        append_signed_decimal(&mut url, self.sae_id);
        url.append(".acct-");
        append_signed_decimal(&mut url, self.account_id);
        url.append(".etsi-qkd-api.qukaydee.com/api/v1/keys/sae-");
        append_signed_decimal(&mut url, self.peer_sae_id());
        url.append("/");
        url
    }
}

} // verus!
