//! The client side of the SOCKS5 handshake (RFC 1928, RFC 1929) as byte messages: what to
//! send, and what each reply from the upstream proxy means.

use vstd::prelude::*;
use vstd::utf8::encode_utf8;
use crate::text::{chars_of, is_text, join2, join3, nat_text, opt_view, u64_text};

verus! {

/// An upstream SOCKS5 proxy and the credentials to present to it.
#[derive(Clone)]
pub struct UpstreamProxy {
    pub scheme: String,
    pub host: String,
    pub port: u16,
    pub username: Option<String>,
    pub password: Option<String>,
}

/// The authentication method the proxy picked.
#[derive(PartialEq, Eq, Structural, Debug, Clone, Copy)]
pub enum Socks5Method {
    NoAuthentication,
    UsernamePassword,
}

/// How much follows the first four bytes of the reply to a CONNECT request.
#[derive(PartialEq, Eq, Structural, Debug, Clone, Copy)]
pub enum BoundAddress {
    /// This many more bytes.
    Fixed(usize),
    /// One length byte, then that many bytes and two more.
    LengthPrefixed,
}

fn push_bytes(out: &mut Vec<u8>, bytes: &[u8])
    ensures
        final(out)@ == old(out)@ + bytes@,
{
    let ghost start = out@;
    for i in 0..bytes.len()
        invariant
            out@ == start + bytes@.take(i as int),
    {
        out.push(bytes[i]);
        assert(out@ =~= start + bytes@.take(i + 1));
    }
    assert(bytes@.take(bytes@.len() as int) =~= bytes@);
}

/// What the greeting to `upstream` is: version 5 offering one method, username/password when
/// a username is configured, else none; only a SOCKS5 upstream is accepted.
pub open spec fn spec_greeting(scheme: Seq<char>, has_username: bool) -> Result<Seq<u8>, Seq<char>> {
    if scheme != "socks5"@ {
        Err("Local proxy relay currently supports SOCKS5 upstream proxies only."@)
    } else if has_username {
        Ok(seq![5u8, 1u8, 2u8])
    } else {
        Ok(seq![5u8, 1u8, 0u8])
    }
}

pub open spec fn bytes_res_view(r: Result<Vec<u8>, String>) -> Result<Seq<u8>, Seq<char>> {
    match r {
        Ok(b) => Ok(b@),
        Err(e) => Err(e@),
    }
}

/// The first message to send to an upstream SOCKS5 proxy.
pub fn socks5_greeting(upstream: &UpstreamProxy) -> (out: Result<Vec<u8>, String>)
    ensures
        bytes_res_view(out) == spec_greeting(upstream.scheme@, upstream.username is Some),
{
    let scheme = chars_of(upstream.scheme.as_str());
    if !is_text(&scheme, "socks5") {
        return Err("Local proxy relay currently supports SOCKS5 upstream proxies only.".to_string());
    }
    let method: u8 = if upstream.username.is_some() { 2 } else { 0 };
    let out = vec![5u8, 1u8, method];
    assert(out@ =~= spec_greeting(upstream.scheme@, upstream.username is Some)->Ok_0);
    Ok(out)
}

/// What the proxy's reply to the greeting means.
pub open spec fn spec_method_reply(version: u8, method: u8) -> Result<Socks5Method, Seq<char>> {
    if version != 5 {
        Err("Upstream proxy returned an invalid SOCKS5 version."@)
    } else if method == 0 {
        Ok(Socks5Method::NoAuthentication)
    } else if method == 2 {
        Ok(Socks5Method::UsernamePassword)
    } else if method == 0xff {
        Err("Upstream SOCKS5 proxy rejected available auth methods."@)
    } else {
        Err("Unsupported SOCKS5 auth method: "@ + nat_text(method as nat))
    }
}

pub open spec fn method_res_view(r: Result<Socks5Method, String>) -> Result<Socks5Method, Seq<char>> {
    match r {
        Ok(m) => Ok(m),
        Err(e) => Err(e@),
    }
}

/// The method the proxy picked, from its two-byte reply to the greeting.
pub fn socks5_method_reply(reply: [u8; 2]) -> (out: Result<Socks5Method, String>)
    ensures
        method_res_view(out) == spec_method_reply(reply@[0], reply@[1]),
{
    let version = reply[0];
    let method = reply[1];
    if version != 5 {
        return Err("Upstream proxy returned an invalid SOCKS5 version.".to_string());
    }
    if method == 0 {
        Ok(Socks5Method::NoAuthentication)
    } else if method == 2 {
        Ok(Socks5Method::UsernamePassword)
    } else if method == 0xff {
        Err("Upstream SOCKS5 proxy rejected available auth methods.".to_string())
    } else {
        Err(join2("Unsupported SOCKS5 auth method: ", &u64_text(method as u64)))
    }
}

/// The username/password request: version 1, then each of the two as a length byte and its
/// UTF-8 bytes; each must fit in 255 bytes.
pub open spec fn spec_auth_request(username: Option<Seq<char>>, password: Option<Seq<char>>) -> Result<Seq<u8>, Seq<char>> {
    match username {
        None => Err("SOCKS5 proxy requested auth but no username is configured."@),
        Some(u) => match password {
            None => Err("SOCKS5 proxy requested auth but no password is saved."@),
            Some(p) => {
                let ub = encode_utf8(u);
                let pb = encode_utf8(p);
                if ub.len() > 255 || pb.len() > 255 {
                    Err("SOCKS5 username/password must be 255 bytes or fewer."@)
                } else {
                    Ok(seq![1u8, ub.len() as u8] + ub + seq![pb.len() as u8] + pb)
                }
            },
        },
    }
}

/// The username/password request for `upstream`.
pub fn socks5_auth_request(upstream: &UpstreamProxy) -> (out: Result<Vec<u8>, String>)
    ensures
        bytes_res_view(out) == spec_auth_request(opt_view(upstream.username), opt_view(upstream.password)),
{
    let username = match &upstream.username {
        Some(u) => u,
        None => return Err("SOCKS5 proxy requested auth but no username is configured.".to_string()),
    };
    let password = match &upstream.password {
        Some(p) => p,
        None => return Err("SOCKS5 proxy requested auth but no password is saved.".to_string()),
    };
    let ub = username.as_str().as_bytes();
    let pb = password.as_str().as_bytes();
    if ub.len() > 255 || pb.len() > 255 {
        return Err("SOCKS5 username/password must be 255 bytes or fewer.".to_string());
    }
    let mut request: Vec<u8> = vec![1u8, ub.len() as u8];
    push_bytes(&mut request, ub);
    request.push(pb.len() as u8);
    push_bytes(&mut request, pb);
    assert(request@ =~= spec_auth_request(opt_view(upstream.username), opt_view(upstream.password))->Ok_0);
    Ok(request)
}

/// Whether the proxy accepted the username and password, from its two-byte reply.
pub fn socks5_auth_reply(reply: [u8; 2]) -> (out: Result<(), String>)
    ensures
        out is Ok <==> (reply@[0] == 1 && reply@[1] == 0),
        out matches Err(e) ==> e@ == "SOCKS5 username/password authentication failed."@,
{
    if reply[0] == 1 && reply[1] == 0 {
        Ok(())
    } else {
        Err("SOCKS5 username/password authentication failed.".to_string())
    }
}

/// The address of the target in a CONNECT request: an IPv4 or IPv6 address by its octets
/// (`ip`, the octets of the address `host` denotes, if it denotes one), else a domain name by
/// its length and UTF-8 bytes.
pub open spec fn spec_socks5_address(host: Seq<char>, ip: Option<Seq<u8>>) -> Result<Seq<u8>, Seq<char>> {
    match ip {
        Some(o) => if o.len() == 4 {
            Ok(seq![1u8] + o)
        } else {
            Ok(seq![4u8] + o)
        },
        None => {
            let hb = encode_utf8(host);
            if hb.len() > 255 {
                Err("SOCKS5 target hostname is too long."@)
            } else {
                Ok(seq![3u8, hb.len() as u8] + hb)
            }
        },
    }
}

pub open spec fn octets_view(ip: Option<Vec<u8>>) -> Option<Seq<u8>> {
    match ip {
        Some(o) => Some(o@),
        None => None,
    }
}

/// Appends the address of `host`, as a CONNECT request gives it, to `request`; `ip` holds the
/// octets of the IPv4 or IPv6 address that `host` denotes, when it denotes one.
pub fn append_socks5_address(request: &mut Vec<u8>, host: &str, ip: Option<Vec<u8>>) -> (out: Result<(), String>)
    requires
        ip matches Some(o) ==> o@.len() == 4 || o@.len() == 16,
    ensures
        match spec_socks5_address(host@, octets_view(ip)) {
            Ok(a) => out is Ok && final(request)@ == old(request)@ + a,
            Err(m) => (out matches Err(e) && e@ == m) && final(request)@ == old(request)@,
        },
{
    let ghost ipv = octets_view(ip);
    if let Some(octets) = ip {
        if octets.len() == 4 {
            request.push(1u8);
        } else {
            request.push(4u8);
        }
        push_bytes(request, octets.as_slice());
        assert(request@ =~= old(request)@ + spec_socks5_address(host@, ipv)->Ok_0);
        return Ok(());
    }
    let hb = host.as_bytes();
    if hb.len() > 255 {
        return Err("SOCKS5 target hostname is too long.".to_string());
    }
    request.push(3u8);
    request.push(hb.len() as u8);
    push_bytes(request, hb);
    assert(request@ =~= old(request)@ + spec_socks5_address(host@, ipv)->Ok_0);
    Ok(())
}

/// The CONNECT request for `host` and `port`: version 5, command 1, a reserved zero, the
/// address, and the port in network byte order.
pub open spec fn spec_connect_request(host: Seq<char>, ip: Option<Seq<u8>>, port: u16) -> Result<Seq<u8>, Seq<char>> {
    match spec_socks5_address(host, ip) {
        Ok(a) => Ok(seq![5u8, 1u8, 0u8] + a + seq![(port / 256) as u8, (port % 256) as u8]),
        Err(e) => Err(e),
    }
}

/// The CONNECT request for `host` (whose address octets are `ip`, if it is an address) and `port`.
pub fn socks5_connect_request(host: &str, ip: Option<Vec<u8>>, port: u16) -> (out: Result<Vec<u8>, String>)
    requires
        ip matches Some(o) ==> o@.len() == 4 || o@.len() == 16,
    ensures
        bytes_res_view(out) == spec_connect_request(host@, octets_view(ip), port),
{
    let ghost ipv = octets_view(ip);
    let mut request: Vec<u8> = vec![5u8, 1u8, 0u8];
    match append_socks5_address(&mut request, host, ip) {
        Ok(()) => {},
        Err(e) => return Err(e),
    }
    request.push((port / 256) as u8);
    request.push((port % 256) as u8);
    assert(request@ =~= spec_connect_request(host@, ipv, port)->Ok_0);
    Ok(request)
}

/// What the first four bytes of the reply to a CONNECT request mean.
pub open spec fn spec_connect_reply(version: u8, status: u8, address_type: u8) -> Result<BoundAddress, Seq<char>> {
    if version != 5 {
        Err("Upstream proxy returned an invalid SOCKS5 response."@)
    } else if status != 0 {
        Err("SOCKS5 connect failed with code "@ + nat_text(status as nat) + "."@)
    } else if address_type == 1 {
        Ok(BoundAddress::Fixed(6))
    } else if address_type == 3 {
        Ok(BoundAddress::LengthPrefixed)
    } else if address_type == 4 {
        Ok(BoundAddress::Fixed(18))
    } else {
        Err("Unsupported SOCKS5 address type in response: "@ + nat_text(address_type as nat))
    }
}

pub open spec fn bound_res_view(r: Result<BoundAddress, String>) -> Result<BoundAddress, Seq<char>> {
    match r {
        Ok(b) => Ok(b),
        Err(e) => Err(e@),
    }
}

/// What follows the first four bytes of the reply to a CONNECT request, or why it failed.
pub fn socks5_connect_reply(header: [u8; 4]) -> (out: Result<BoundAddress, String>)
    ensures
        bound_res_view(out) == spec_connect_reply(header@[0], header@[1], header@[3]),
{
    if header[0] != 5 {
        return Err("Upstream proxy returned an invalid SOCKS5 response.".to_string());
    }
    if header[1] != 0 {
        return Err(join3("SOCKS5 connect failed with code ", &u64_text(header[1] as u64), "."));
    }
    let address_type = header[3];
    if address_type == 1 {
        Ok(BoundAddress::Fixed(6))
    } else if address_type == 3 {
        Ok(BoundAddress::LengthPrefixed)
    } else if address_type == 4 {
        Ok(BoundAddress::Fixed(18))
    } else {
        Err(join2("Unsupported SOCKS5 address type in response: ", &u64_text(address_type as u64)))
    }
}

// ---------------------------------------------------------------------------
// The handshake, step by step
// ---------------------------------------------------------------------------

/// Which reply of the upstream proxy the handshake waits for.
#[derive(PartialEq, Eq, Structural, Debug, Clone, Copy)]
pub enum HandshakeStage {
    /// The method the proxy picked (two bytes).
    Method,
    /// The verdict on the username and password (two bytes).
    Auth,
    /// The first four bytes of the reply to the CONNECT request.
    Connect,
}

/// What the relay does next in a handshake with the upstream proxy.
pub enum HandshakeAction {
    /// Send `send`, then read `reply_len` bytes and hand them back at `stage`.
    Exchange { send: Vec<u8>, reply_len: usize, stage: HandshakeStage },
    /// The tunnel is open once the bound address, of this length, has been read off.
    Open(BoundAddress),
}

/// A handshake action, by the values it holds.
pub enum ActionView {
    Exchange(Seq<u8>, nat, HandshakeStage),
    Open(BoundAddress),
}

pub open spec fn action_view(r: Result<HandshakeAction, String>) -> Result<ActionView, Seq<char>> {
    match r {
        Ok(HandshakeAction::Exchange { send, reply_len, stage }) => Ok(ActionView::Exchange(send@, reply_len as nat, stage)),
        Ok(HandshakeAction::Open(b)) => Ok(ActionView::Open(b)),
        Err(e) => Err(e@),
    }
}

/// How long the reply awaited at `stage` is.
pub open spec fn reply_len(stage: HandshakeStage) -> nat {
    match stage {
        HandshakeStage::Connect => 4,
        _ => 2,
    }
}

/// Sending the CONNECT request for the target, then awaiting its reply.
pub open spec fn connect_step(host: Seq<char>, ip: Option<Seq<u8>>, port: u16) -> Result<ActionView, Seq<char>> {
    match spec_connect_request(host, ip, port) {
        Ok(req) => Ok(ActionView::Exchange(req, 4, HandshakeStage::Connect)),
        Err(e) => Err(e),
    }
}

/// The first step of a handshake with `upstream`: the greeting, then its reply.
pub open spec fn spec_handshake_start(scheme: Seq<char>, has_username: bool) -> Result<ActionView, Seq<char>> {
    match spec_greeting(scheme, has_username) {
        Ok(g) => Ok(ActionView::Exchange(g, 2, HandshakeStage::Method)),
        Err(e) => Err(e),
    }
}

/// The step after the proxy gave `reply` at `stage`: after the method, the username and
/// password when asked for, else the CONNECT request; after the verdict on the credentials,
/// the CONNECT request; after the reply to that, the tunnel is open.
pub open spec fn spec_handshake_next(
    stage: HandshakeStage,
    reply: Seq<u8>,
    username: Option<Seq<char>>,
    password: Option<Seq<char>>,
    host: Seq<char>,
    ip: Option<Seq<u8>>,
    port: u16,
) -> Result<ActionView, Seq<char>> {
    match stage {
        HandshakeStage::Method => match spec_method_reply(reply[0], reply[1]) {
            Err(e) => Err(e),
            Ok(Socks5Method::NoAuthentication) => connect_step(host, ip, port),
            Ok(Socks5Method::UsernamePassword) => match spec_auth_request(username, password) {
                Ok(req) => Ok(ActionView::Exchange(req, 2, HandshakeStage::Auth)),
                Err(e) => Err(e),
            },
        },
        HandshakeStage::Auth => if reply[0] == 1 && reply[1] == 0 {
            connect_step(host, ip, port)
        } else {
            Err("SOCKS5 username/password authentication failed."@)
        },
        HandshakeStage::Connect => match spec_connect_reply(reply[0], reply[1], reply[3]) {
            Ok(b) => Ok(ActionView::Open(b)),
            Err(e) => Err(e),
        },
    }
}

/// The first step of a handshake with `upstream`.
pub fn socks5_handshake_start(upstream: &UpstreamProxy) -> (out: Result<HandshakeAction, String>)
    ensures
        action_view(out) == spec_handshake_start(upstream.scheme@, upstream.username is Some),
{
    match socks5_greeting(upstream) {
        Ok(g) => Ok(HandshakeAction::Exchange { send: g, reply_len: 2, stage: HandshakeStage::Method }),
        Err(e) => Err(e),
    }
}

fn connect_action(host: &str, ip: Option<Vec<u8>>, port: u16) -> (out: Result<HandshakeAction, String>)
    requires
        ip matches Some(o) ==> o@.len() == 4 || o@.len() == 16,
    ensures
        action_view(out) == connect_step(host@, octets_view(ip), port),
{
    match socks5_connect_request(host, ip, port) {
        Ok(req) => Ok(HandshakeAction::Exchange { send: req, reply_len: 4, stage: HandshakeStage::Connect }),
        Err(e) => Err(e),
    }
}

/// The next step of a handshake with `upstream` for a tunnel to `host` and `port` (`ip`
/// holding the octets of the address `host` denotes, if any), after the proxy gave `reply`
/// at `stage`.
pub fn socks5_handshake_next(
    stage: HandshakeStage,
    reply: &[u8],
    upstream: &UpstreamProxy,
    host: &str,
    ip: Option<Vec<u8>>,
    port: u16,
) -> (out: Result<HandshakeAction, String>)
    requires
        reply@.len() == reply_len(stage),
        ip matches Some(o) ==> o@.len() == 4 || o@.len() == 16,
    ensures
        action_view(out) == spec_handshake_next(
            stage,
            reply@,
            opt_view(upstream.username),
            opt_view(upstream.password),
            host@,
            octets_view(ip),
            port,
        ),
{
    match stage {
        HandshakeStage::Method => match socks5_method_reply([reply[0], reply[1]]) {
            Err(e) => Err(e),
            Ok(Socks5Method::NoAuthentication) => connect_action(host, ip, port),
            Ok(Socks5Method::UsernamePassword) => match socks5_auth_request(upstream) {
                Ok(req) => Ok(HandshakeAction::Exchange { send: req, reply_len: 2, stage: HandshakeStage::Auth }),
                Err(e) => Err(e),
            },
        },
        HandshakeStage::Auth => match socks5_auth_reply([reply[0], reply[1]]) {
            Ok(()) => connect_action(host, ip, port),
            Err(e) => Err(e),
        },
        HandshakeStage::Connect => match socks5_connect_reply([reply[0], reply[1], reply[2], reply[3]]) {
            Ok(b) => Ok(HandshakeAction::Open(b)),
            Err(e) => Err(e),
        },
    }
}

/// Whichever way the proxy authenticates, the tunnel it is asked for is the same: the
/// CONNECT request sent after the method reply (no authentication) and after a successful
/// username/password exchange are the same bytes.
pub proof fn law_connect_request_independent_of_auth(
    username: Option<Seq<char>>,
    password: Option<Seq<char>>,
    host: Seq<char>,
    ip: Option<Seq<u8>>,
    port: u16,
)
    ensures
        spec_handshake_next(HandshakeStage::Method, seq![5u8, 0u8], username, password, host, ip, port)
            == spec_handshake_next(HandshakeStage::Auth, seq![1u8, 0u8], username, password, host, ip, port),
        spec_handshake_next(HandshakeStage::Method, seq![5u8, 0u8], username, password, host, ip, port)
            == connect_step(host, ip, port),
{
}

} // verus!
