//! The login for one remote host, and the address it is reached at.

use crate::text::{
    chars_of, find_from, parse_u16, parse_u16_between, position, repeated_prefix_end,
    strip_repeated_prefix, sub_string, trim, trim_bounds,
};
use vstd::prelude::*;

verus! {

/// The login for one remote host: where it listens and who signs in.
#[derive(Debug, Clone, PartialEq, Eq)]
pub struct Ssh {
    /// `host:port`, without surrounding whitespace and without a scheme.
    pub host: String,
    pub username: String,
    pub password: String,
}

/// What an `Ssh` holds, as character sequences.
pub struct SshView {
    pub host: Seq<char>,
    pub username: Seq<char>,
    pub password: Seq<char>,
}

impl View for Ssh {
    type V = SshView;

    open spec fn view(&self) -> SshView {
        SshView { host: self.host@, username: self.username@, password: self.password@ }
    }
}

/// The scheme that an address may carry in front: `sftp://`.
pub open spec fn scheme() -> Seq<char> {
    seq!['s', 'f', 't', 'p', ':', '/', '/']
}

/// An address as the connection code wants it: whitespace trimmed from both
/// ends, then every leading `sftp://` taken off.
pub open spec fn normalize_host(host: Seq<char>) -> Seq<char> {
    strip_repeated_prefix(trim(host), scheme())
}

/// Why an address cannot be split into host and port.
#[derive(Debug, Clone, Copy, PartialEq, Eq, Structural)]
pub enum AddressError {
    /// The address holds no `:`.
    MissingPort,
    /// What follows the first `:` does not write a port number.
    InvalidPort,
}

/// A host name and the port to reach it at.
#[derive(Debug, Clone, PartialEq, Eq)]
pub struct Endpoint {
    pub host: String,
    pub port: u16,
}

/// What an `Endpoint` holds, the host as a character sequence.
pub struct EndpointView {
    pub host: Seq<char>,
    pub port: u16,
}

impl View for Endpoint {
    type V = EndpointView;

    open spec fn view(&self) -> EndpointView {
        EndpointView { host: self.host@, port: self.port }
    }
}

/// The text of the port in `address`: what stands between the first `:` and
/// the next one, or the end.
pub open spec fn port_text(address: Seq<char>) -> Seq<char> {
    let rest = address.skip(position(address, ':') + 1);
    rest.take(position(rest, ':'))
}

/// Host and port of `address`. The host is what stands before the first `:`;
/// the port is the decimal number written between that `:` and the next one
/// (or the end), and must fit in 16 bits.
pub open spec fn endpoint_of(address: Seq<char>) -> Result<EndpointView, AddressError> {
    let colon = position(address, ':');
    if colon >= address.len() {
        Err(AddressError::MissingPort)
    } else {
        match parse_u16(port_text(address)) {
            Some(port) => Ok(EndpointView { host: address.take(colon), port }),
            None => Err(AddressError::InvalidPort),
        }
    }
}

impl Ssh {
    /// A login for `host`, given as `host:port` with or without a leading
    /// `sftp://` and surrounding whitespace.
    pub fn new(host: String, username: String, password: String) -> (ssh: Ssh)
        ensures
            ssh@ == (SshView {
                host: normalize_host(host@),
                username: username@,
                password: password@,
            }),
    {
        let raw = chars_of(host.as_str());
        let (a, b) = trim_bounds(&raw);
        let trimmed: &str = host.as_str().substring_char(a, b);
        let text = chars_of(trimmed);
        let prefix = chars_of("sftp://");
        proof {
            reveal_strlit("sftp://");
            assert(prefix@ =~= scheme());
        }
        let k = repeated_prefix_end(&text, &prefix);
        assert(text@.subrange(k as int, text@.len() as int) =~= text@.skip(k as int));
        let host = sub_string(trimmed, k, text.len());
        Ssh { host, username, password }
    }

    /// Splits the address into the host to dial and the port to dial it at.
    pub fn endpoint(&self) -> (r: Result<Endpoint, AddressError>)
        ensures
            match r {
                Ok(e) => endpoint_of(self@.host) == Ok::<EndpointView, AddressError>(e@),
                Err(e) => endpoint_of(self@.host) == Err::<EndpointView, AddressError>(e),
            },
    {
        let text = chars_of(self.host.as_str());
        let n = text.len();
        assert(text@.skip(0) =~= text@);
        let colon = find_from(&text, 0, ':');
        if colon >= n {
            return Err(AddressError::MissingPort);
        }
        let end = find_from(&text, colon + 1, ':');
        proof {
            let rest = text@.skip(colon + 1);
            assert(rest.take(end - (colon + 1)) =~= text@.subrange(colon + 1, end as int));
        }
        match parse_u16_between(&text, colon + 1, end) {
            Some(port) => {
                assert(text@.subrange(0, colon as int) =~= text@.take(colon as int));
                let host = sub_string(self.host.as_str(), 0, colon);
                Ok(Endpoint { host, port })
            },
            None => Err(AddressError::InvalidPort),
        }
    }
}

} // verus!
