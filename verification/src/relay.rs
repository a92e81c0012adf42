//! The local relay that carries Chrome's traffic to an authenticated SOCKS5 proxy: when a
//! profile needs it, what it connects to, how the profile is pointed at it, and what each
//! request from Chrome asks of it.

use vstd::prelude::*;
use crate::http::{parse_http_proxy_target, spec_proxy_target, spec_split_host_port, split_host_port, sv};
use crate::launch::{
    base_args, custom_sets_proxy, identity_args, kept_args, page_args, proxy_args, spec_launch_args,
    webrtc_args, Profile,
};
use crate::socks5::UpstreamProxy;
use crate::text::{chars_of, concat, has_prefix, int_text, is_text, is_whitespace, is_ws, opt_view, starts_with, to_string, trim_chars, trim_seq, upper_chars, upper_seq};

verus! {

/// A profile is opened through the local relay when its proxy is SOCKS5 with a username:
/// Chrome cannot present SOCKS5 credentials itself.
pub open spec fn needs_relay(p: Profile) -> bool {
    opt_view(p.proxy_scheme) == Some("socks5"@) && p.proxy_username is Some
}

/// Whether `profile` is opened through the local relay.
pub fn needs_proxy_relay(profile: &Profile) -> (r: bool)
    ensures
        r == needs_relay(*profile),
{
    match &profile.proxy_scheme {
        Some(s) => is_text(&chars_of(s.as_str()), "socks5") && profile.proxy_username.is_some(),
        None => false,
    }
}

/// The keychain item that holds the relay's password, which must be known.
pub fn relay_secret_ref(secret_ref: Option<String>) -> (out: Result<String, String>)
    ensures
        match secret_ref {
            Some(s) => out matches Ok(r) && r@ == s@,
            None => out matches Err(e) && e@ == "This profile has a proxy username but no saved Keychain password."@,
        },
{
    match secret_ref {
        Some(s) => Ok(s),
        None => Err("This profile has a proxy username but no saved Keychain password.".to_string()),
    }
}

/// Why no upstream can be made of profile `p`, if none can: its proxy host and port must be
/// set, and the port must fit in 16 bits.
pub open spec fn relay_upstream_error(p: Profile) -> Option<Seq<char>> {
    if p.proxy_host is None {
        Some("Proxy host is missing."@)
    } else if p.proxy_port is None {
        Some("Proxy port is missing."@)
    } else if !(0 <= p.proxy_port->Some_0 <= 0xffff) {
        Some("Proxy port is invalid."@)
    } else {
        None
    }
}

/// The SOCKS5 upstream the relay for `profile` connects to, with the password read from the
/// keychain.
pub fn relay_upstream(profile: &Profile, password: String) -> (out: Result<UpstreamProxy, String>)
    ensures
        match relay_upstream_error(*profile) {
            Some(m) => out matches Err(e) && e@ == m,
            None => out matches Ok(u) && {
                &&& u.scheme@ == "socks5"@
                &&& Some(u.host@) == opt_view(profile.proxy_host)
                &&& Some(u.port as i64) == profile.proxy_port
                &&& opt_view(u.username) == opt_view(profile.proxy_username)
                &&& opt_view(u.password) == Some(password@)
            },
        },
{
    let host = match &profile.proxy_host {
        Some(h) => h.clone(),
        None => return Err("Proxy host is missing.".to_string()),
    };
    let port = match profile.proxy_port {
        Some(p) => p,
        None => return Err("Proxy port is missing.".to_string()),
    };
    if port < 0 || port > 0xffff {
        return Err("Proxy port is invalid.".to_string());
    }
    let username = match &profile.proxy_username {
        Some(u) => Some(u.clone()),
        None => None,
    };
    Ok(UpstreamProxy {
        scheme: "socks5".to_string(),
        host,
        port: port as u16,
        username,
        password: Some(password),
    })
}

/// `after` is profile `before` pointed at the local relay on `port`: an HTTP proxy on
/// 127.0.0.1 at that port, with no username; everything else is kept.
pub open spec fn relayed(before: Profile, after: Profile, port: u16) -> bool {
    &&& opt_view(after.proxy_scheme) == Some("http"@)
    &&& opt_view(after.proxy_host) == Some("127.0.0.1"@)
    &&& after.proxy_port == Some(port as i64)
    &&& after.proxy_username is None
    &&& after == (Profile {
        proxy_scheme: after.proxy_scheme,
        proxy_host: after.proxy_host,
        proxy_port: after.proxy_port,
        proxy_username: after.proxy_username,
        ..before
    })
}

/// Points `profile` at the local relay listening on `port`.
pub fn apply_relay_port(profile: &mut Profile, port: u16)
    ensures
        relayed(*old(profile), *final(profile), port),
{
    profile.proxy_scheme = Some("http".to_string());
    profile.proxy_host = Some("127.0.0.1".to_string());
    profile.proxy_port = Some(port as i64);
    profile.proxy_username = None;
}

/// A profile pointed at the relay needs no relay of its own, and opens Chrome with the same
/// command line as before except that the proxy flag, unless the user's own arguments set a
/// proxy, names the relay: `--proxy-server=http://127.0.0.1:<port>`.
pub proof fn law_relay_replaces_the_proxy_flag(before: Profile, after: Profile, port: u16)
    requires
        relayed(before, after, port),
    ensures
        !needs_relay(after),
        base_args(after) == base_args(before),
        identity_args(after) == identity_args(before),
        webrtc_args(after) == webrtc_args(before),
        kept_args(sv(after.launch_args@)) == kept_args(sv(before.launch_args@)),
        page_args(after) == page_args(before),
        custom_sets_proxy(sv(after.launch_args@)) ==> proxy_args(after) == proxy_args(before),
        !custom_sets_proxy(sv(after.launch_args@)) ==> proxy_args(after) == seq![
            "--proxy-server=http://127.0.0.1:"@ + int_text(port as int),
        ],
        spec_launch_args(after) == base_args(before) + identity_args(before) + webrtc_args(before)
            + proxy_args(after) + kept_args(sv(before.launch_args@)) + page_args(before),
{
    reveal_strlit("--proxy-server=");
    reveal_strlit("http");
    reveal_strlit("://");
    reveal_strlit("127.0.0.1");
    reveal_strlit(":");
    reveal_strlit("--proxy-server=http://127.0.0.1:");
    assert("--proxy-server="@ + "http"@ + "://"@ + "127.0.0.1"@ + ":"@ =~= "--proxy-server=http://127.0.0.1:"@);
}

// ---------------------------------------------------------------------------
// Requests from Chrome
// ---------------------------------------------------------------------------

/// The words of `s` ended so far, and the word still open.
pub open spec fn words_state(s: Seq<char>) -> (Seq<Seq<char>>, Seq<char>)
    decreases s.len(),
{
    if s.len() == 0 {
        (Seq::empty(), Seq::empty())
    } else {
        let (done, cur) = words_state(s.drop_last());
        if is_ws(s.last()) {
            if cur.len() > 0 {
                (done.push(cur), Seq::empty())
            } else {
                (done, Seq::empty())
            }
        } else {
            (done, cur.push(s.last()))
        }
    }
}

/// The words of `s`, as `str::split_whitespace` gives them.
pub open spec fn words(s: Seq<char>) -> Seq<Seq<char>> {
    let (done, cur) = words_state(s);
    if cur.len() > 0 {
        done.push(cur)
    } else {
        done
    }
}

/// The words of `s`.
pub fn split_words(s: &Vec<char>) -> (out: Vec<Vec<char>>)
    ensures
        crate::text::vv(out@) == words(s@),
{
    let mut done: Vec<Vec<char>> = Vec::new();
    let mut cur: Vec<char> = Vec::new();
    for i in 0..s.len()
        invariant
            (crate::text::vv(done@), cur@) == words_state(s@.take(i as int)),
    {
        assert(s@.take(i + 1).drop_last() =~= s@.take(i as int));
        assert(s@.take(i + 1).last() == s@[i as int]);
        let c = s[i];
        if is_whitespace(c) {
            if cur.len() > 0 {
                let ghost before = done@;
                done.push(cur);
                assert(crate::text::vv(done@) =~= crate::text::vv(before).push(words_state(s@.take(i as int)).1));
            }
            cur = Vec::new();
        } else {
            cur.push(c);
        }
    }
    assert(s@.take(s.len() as int) =~= s@);
    if cur.len() > 0 {
        let ghost before = done@;
        done.push(cur);
        assert(crate::text::vv(done@) =~= crate::text::vv(before).push(words_state(s@).1));
    }
    done
}

/// A request line that is blank asks nothing; the relay reads no headers after it.
pub fn request_line_is_blank(first_line: &str) -> (r: bool)
    ensures
        r == (trim_seq(first_line@).len() == 0),
{
    trim_chars(&chars_of(first_line)).len() == 0
}

/// What a request from Chrome asks of the relay.
pub enum RelayRequest {
    /// Nothing: the connection is closed.
    Empty,
    /// A tunnel (`CONNECT`) to a host and port: the relay answers
    /// `HTTP/1.1 200 Connection Established` and then carries bytes both ways.
    Tunnel { host: String, port: u16 },
    /// A plain HTTP request for a host and port, sent on with `head` as its request line
    /// and headers.
    Forward { host: String, port: u16, head: String },
}

/// A request from Chrome, by the values it holds.
pub enum RequestView {
    Empty,
    Tunnel(Seq<char>, u16),
    Forward(Seq<char>, u16, Seq<char>),
}

pub open spec fn request_view(r: Result<RelayRequest, String>) -> Result<RequestView, Seq<char>> {
    match r {
        Ok(RelayRequest::Empty) => Ok(RequestView::Empty),
        Ok(RelayRequest::Tunnel { host, port }) => Ok(RequestView::Tunnel(host@, port)),
        Ok(RelayRequest::Forward { host, port, head }) => Ok(RequestView::Forward(host@, port, head@)),
        Err(e) => Err(e@),
    }
}

/// What the request with request line `first_line` and header lines `headers` (each as read,
/// with its line end) asks: nothing when the line is blank; a tunnel when it starts with
/// `CONNECT ` in any ASCII case, to the host and port of its second word (port 443 by
/// default); else a forwarded request, whose request line names only the path, to the host
/// and port that the target or the `Host` header gives.
pub open spec fn spec_relay_request(first_line: Seq<char>, headers: Seq<Seq<char>>) -> Result<RequestView, Seq<char>> {
    let w = words(first_line);
    if trim_seq(first_line).len() == 0 {
        Ok(RequestView::Empty)
    } else if has_prefix(upper_seq(first_line), "CONNECT "@) {
        if w.len() < 2 {
            Err("CONNECT request is missing target."@)
        } else {
            match spec_split_host_port(w[1], 443) {
                Ok((host, port)) => Ok(RequestView::Tunnel(host, port)),
                Err(e) => Err(e),
            }
        }
    } else if w.len() < 3 {
        Err("HTTP proxy request has an invalid request line."@)
    } else {
        match spec_proxy_target(w[1], headers) {
            Ok((host, port, path)) => Ok(RequestView::Forward(
                host,
                port,
                w[0] + " "@ + path + " "@ + w[2] + "\r\n"@ + headers.flatten_alt() + "\r\n"@,
            )),
            Err(e) => Err(e),
        }
    }
}

/// All of `headers`, one after another.
fn join_lines(headers: &[String]) -> (out: Vec<char>)
    ensures
        out@ == sv(headers@).flatten_alt(),
{
    let mut out: Vec<char> = Vec::new();
    for i in 0..headers.len()
        invariant
            out@ == sv(headers@.take(i as int)).flatten_alt(),
    {
        assert(sv(headers@.take(i + 1)).drop_last() =~= sv(headers@.take(i as int)));
        out = concat(&out, &chars_of(headers[i].as_str()));
    }
    assert(headers@.take(headers@.len() as int) =~= headers@);
    out
}

/// What the request with request line `first_line` and header lines `headers` asks of the
/// relay.
pub fn relay_request(first_line: &str, headers: &[String]) -> (out: Result<RelayRequest, String>)
    ensures
        request_view(out) == spec_relay_request(first_line@, sv(headers@)),
{
    let line = chars_of(first_line);
    if trim_chars(&line).len() == 0 {
        return Ok(RelayRequest::Empty);
    }
    let w = split_words(&line);
    assert(forall|i: int| 0 <= i < w@.len() ==> crate::text::vv(w@)[i] == #[trigger] w@[i]@);
    if starts_with(&upper_chars(&line), &chars_of("CONNECT ")) {
        if w.len() < 2 {
            return Err("CONNECT request is missing target.".to_string());
        }
        let target = to_string(&w[1]);
        return match split_host_port(target.as_str(), 443) {
            Ok((host, port)) => Ok(RelayRequest::Tunnel { host, port }),
            Err(e) => Err(e),
        };
    }
    if w.len() < 3 {
        return Err("HTTP proxy request has an invalid request line.".to_string());
    }
    let target = to_string(&w[1]);
    match parse_http_proxy_target(target.as_str(), headers) {
        Ok((host, port, path)) => {
            let head = concat(
                &concat(
                    &concat(
                        &concat(
                            &concat(&concat(&w[0], &chars_of(" ")), &chars_of(path.as_str())),
                            &chars_of(" "),
                        ),
                        &w[2],
                    ),
                    &chars_of("\r\n"),
                ),
                &concat(&join_lines(headers), &chars_of("\r\n")),
            );
            assert(head@ =~= w@[0]@ + " "@ + path@ + " "@ + w@[2]@ + "\r\n"@ + sv(headers@).flatten_alt() + "\r\n"@);
            Ok(RelayRequest::Forward { host, port, head: to_string(&head) })
        },
        Err(e) => Err(e),
    }
}

/// A header line read from Chrome ends the headers when it is blank or nothing was read.
pub fn ends_headers(line: &str) -> (r: bool)
    ensures
        r == (line@ == "\r\n"@ || line@ == "\n"@ || line@.len() == 0),
{
    let l = chars_of(line);
    is_text(&l, "\r\n") || is_text(&l, "\n") || l.len() == 0
}

/// No character of `s` is whitespace.
pub open spec fn no_ws(s: Seq<char>) -> bool {
    forall|i: int| 0 <= i < s.len() ==> !is_ws(#[trigger] s[i])
}

proof fn lemma_word_grows(s: Seq<char>, done: Seq<Seq<char>>, cur: Seq<char>, t: Seq<char>)
    requires
        words_state(s) == (done, cur),
        no_ws(t),
    ensures
        words_state(s + t) == (done, cur + t),
    decreases t.len(),
{
    if t.len() == 0 {
        assert(s + t =~= s);
        assert(cur + t =~= cur);
    } else {
        lemma_word_grows(s, done, cur, t.drop_last());
        assert((s + t).drop_last() =~= s + t.drop_last());
        assert(!is_ws(t[t.len() - 1]));
        assert((cur + t.drop_last()).push(t.last()) =~= cur + t);
    }
}

proof fn lemma_word_ends(s: Seq<char>, done: Seq<Seq<char>>, cur: Seq<char>, c: char)
    requires
        words_state(s) == (done, cur),
        is_ws(c),
    ensures
        words_state(s.push(c)) == (if cur.len() > 0 { (done.push(cur), Seq::<char>::empty()) } else { (done, Seq::<char>::empty()) }),
{
    assert(s.push(c).drop_last() =~= s);
}

proof fn lemma_trim_keeps_a_leading_word(s: Seq<char>)
    requires
        s.len() > 0,
        !is_ws(s[0]),
    ensures
        trim_seq(s).len() > 0,
    decreases s.len(),
{
    assert(crate::text::trim_start_seq(s) == s);
    lemma_trim_end_keeps_first(s);
}

proof fn lemma_trim_end_keeps_first(s: Seq<char>)
    requires
        s.len() > 0,
        !is_ws(s[0]),
    ensures
        crate::text::trim_end_seq(s).len() > 0,
    decreases s.len(),
{
    if s.len() > 1 && is_ws(s.last()) {
        lemma_trim_end_keeps_first(s.drop_last());
    }
}

/// A tunnel asked for as `CONNECT host:port HTTP/1.1` goes to that host and port, for a host
/// without whitespace, `:`, `[` or `]`.
pub proof fn law_connect_opens_tunnel_to_target(host: Seq<char>, port: u16, headers: Seq<Seq<char>>)
    requires
        no_ws(host),
        !host.contains(':'),
        !host.contains('['),
        !host.contains(']'),
    ensures
        spec_relay_request(
            "CONNECT "@ + host + ":"@ + crate::text::nat_text(port as nat) + " HTTP/1.1\r\n"@,
            headers,
        ) == Ok::<RequestView, Seq<char>>(RequestView::Tunnel(host, port)),
{
    reveal_strlit("CONNECT ");
    reveal_strlit(":");
    reveal_strlit(" HTTP/1.1\r\n");
    let digits = crate::text::nat_text(port as nat);
    crate::text::lemma_nat_text_reads_back(port as nat);
    let target = host + ":"@ + digits;
    assert(no_ws(target)) by {
        assert forall|i: int| 0 <= i < target.len() implies !is_ws(#[trigger] target[i]) by {
            if i < host.len() {
                assert(target[i] == host[i]);
            } else if i > host.len() {
                assert(target[i] == digits[i - host.len() - 1]);
                assert(crate::text::is_digit_c(digits[i - host.len() - 1]));
            }
        }
    }
    let connect = seq!['C', 'O', 'N', 'N', 'E', 'C', 'T'];
    let tail = seq!['H', 'T', 'T', 'P', '/', '1', '.', '1'];
    assert("CONNECT "@ =~= connect.push(' '));
    assert(" HTTP/1.1\r\n"@ =~= seq![' '] + tail + seq!['\r', '\n']);
    let line = "CONNECT "@ + target + " HTTP/1.1\r\n"@;
    assert("CONNECT "@ + host + ":"@ + digits =~= "CONNECT "@ + target);
    let empty = Seq::<Seq<char>>::empty();
    assert(words_state(Seq::<char>::empty()) == (empty, Seq::<char>::empty()));
    assert(no_ws(connect));
    assert(no_ws(tail));
    lemma_word_grows(Seq::<char>::empty(), empty, Seq::<char>::empty(), connect);
    assert(Seq::<char>::empty() + connect =~= connect);
    lemma_word_ends(connect, empty, connect, ' ');
    let s1 = connect.push(' ');
    let d1 = empty.push(connect);
    lemma_word_grows(s1, d1, Seq::<char>::empty(), target);
    assert(Seq::<char>::empty() + target =~= target);
    let s2 = s1 + target;
    lemma_word_ends(s2, d1, target, ' ');
    let s3 = s2.push(' ');
    let d2 = d1.push(target);
    lemma_word_grows(s3, d2, Seq::<char>::empty(), tail);
    let s4 = s3 + tail;
    lemma_word_ends(s4, d2, tail, '\r');
    let s5 = s4.push('\r');
    let d3 = d2.push(tail);
    lemma_word_ends(s5, d3, Seq::<char>::empty(), '\n');
    let s6 = s5.push('\n');
    assert(s6 =~= line);
    assert(words(line) == d3);
    assert(words(line)[1] == target);
    assert(line[0] == 'C');
    lemma_trim_keeps_a_leading_word(line);
    assert(upper_seq(line).subrange(0, 8) =~= "CONNECT "@);
    crate::http::law_host_port_round_trip(host, port, 443);
}

proof fn lemma_words_of_three(a: Seq<char>, b: Seq<char>, c: Seq<char>)
    requires
        a.len() > 0,
        b.len() > 0,
        c.len() > 0,
        no_ws(a),
        no_ws(b),
        no_ws(c),
    ensures
        words(a + " "@ + b + " "@ + c + "\r\n"@) == seq![a, b, c],
{
    reveal_strlit(" ");
    reveal_strlit("\r\n");
    let e = Seq::<char>::empty();
    let none = Seq::<Seq<char>>::empty();
    lemma_word_grows(e, none, e, a);
    assert(e + a =~= a);
    assert(e + b =~= b);
    assert(e + c =~= c);
    lemma_word_ends(a, none, a, ' ');
    let s1 = a.push(' ');
    lemma_word_grows(s1, seq![a], e, b);
    let s2 = s1 + b;
    lemma_word_ends(s2, seq![a], b, ' ');
    let s3 = s2.push(' ');
    assert(seq![a].push(b) =~= seq![a, b]);
    lemma_word_grows(s3, seq![a, b], e, c);
    let s4 = s3 + c;
    lemma_word_ends(s4, seq![a, b], c, '\r');
    let s5 = s4.push('\r');
    assert(seq![a, b].push(c) =~= seq![a, b, c]);
    lemma_word_ends(s5, seq![a, b, c], e, '\n');
    assert(s5.push('\n') =~= a + " "@ + b + " "@ + c + "\r\n"@);
    assert(seq![a].push(b) =~= seq![a, b]);
    assert(seq![a, b].push(c) =~= seq![a, b, c]);
    assert(none.push(a) =~= seq![a]);
}

/// A plain request through the relay for an absolute `http://host/path` target goes to that
/// host on port 80, and is sent on with the same method, the path alone, the same version and
/// the same headers, for a host without `/`, `:`, `[`, `]` or whitespace, and a method other
/// than `CONNECT`.
pub proof fn law_forward_names_only_the_path(
    method: Seq<char>,
    host: Seq<char>,
    path: Seq<char>,
    version: Seq<char>,
    headers: Seq<Seq<char>>,
)
    requires
        method.len() > 0,
        version.len() > 0,
        no_ws(method),
        no_ws(host),
        no_ws(path),
        no_ws(version),
        upper_seq(method) != "CONNECT"@,
        !host.contains('/'),
        !host.contains(':'),
        !host.contains('['),
        !host.contains(']'),
    ensures
        spec_relay_request(method + " "@ + ("http://"@ + host + "/"@ + path) + " "@ + version + "\r\n"@, headers)
            == Ok::<RequestView, Seq<char>>(RequestView::Forward(
                host,
                80,
                method + " "@ + ("/"@ + path) + " "@ + version + "\r\n"@ + headers.flatten_alt() + "\r\n"@,
            )),
{
    reveal_strlit("http://");
    reveal_strlit("/");
    reveal_strlit(" ");
    reveal_strlit("CONNECT");
    reveal_strlit("CONNECT ");
    let target = "http://"@ + host + "/"@ + path;
    assert(no_ws(target)) by {
        assert forall|i: int| 0 <= i < target.len() implies !is_ws(#[trigger] target[i]) by {
            if 7 <= i < 7 + host.len() {
                assert(target[i] == host[i - 7]);
            } else if i > 7 + host.len() {
                assert(target[i] == path[i - 8 - host.len()]);
            }
        }
    }
    lemma_words_of_three(method, target, version);
    let line = method + " "@ + target + " "@ + version + "\r\n"@;
    assert(line[0] == method[0]);
    lemma_trim_keeps_a_leading_word(line);
    assert(!has_prefix(upper_seq(line), "CONNECT "@)) by {
        if has_prefix(upper_seq(line), "CONNECT "@) {
            let n = method.len() as int;
            let u = upper_seq(line);
            if n < 7 {
                assert(line[n] == ' ');
                assert(u.subrange(0, 8)[n] == u[n]);
                assert(u[n] == "CONNECT "@[n]);
            } else if n > 7 {
                assert(line[7] == method[7]);
                assert(u.subrange(0, 8)[7] == u[7]);
                assert(u[7] == ' ');
                assert(!is_ws(method[7]));
            } else {
                assert forall|i: int| 0 <= i < 7 implies upper_seq(method)[i] == "CONNECT"@[i] by {
                    assert(u.subrange(0, 8)[i] == u[i]);
                    assert(u[i] == "CONNECT "@[i]);
                    assert(line[i] == method[i]);
                }
                assert(upper_seq(method) =~= "CONNECT"@);
            }
        }
    }
    let rest = target.skip(7);
    assert(rest =~= host + "/"@ + path);
    assert(has_prefix(target, "http://"@)) by {
        assert(target.subrange(0, 7) =~= "http://"@);
    }
    let k = host.len() as int;
    assert(crate::text::is_first_char(rest, '/', k)) by {
        assert forall|j: int| 0 <= j < k implies rest[j] != '/' by {
            assert(rest[j] == host[j]);
            if host[j] == '/' {
                assert(host.contains('/'));
            }
        }
    }
    crate::text::lemma_first_char(rest, '/', k);
    assert(rest.take(k) =~= host);
    assert(rest.skip(k) =~= "/"@ + path);
    assert(crate::http::strip_start_brackets(host) == host) by {
        if host.len() > 0 && crate::http::is_bracket(host[0]) {
            assert(host.contains(host[0]));
        }
    }
    assert(crate::http::strip_end_brackets(host) == host) by {
        if host.len() > 0 && crate::http::is_bracket(host.last()) {
            assert(host.contains(host[host.len() - 1]));
        }
    }
    assert(rest.contains('/'));
}

} // verus!
