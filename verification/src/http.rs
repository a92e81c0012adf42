//! HTTP text handling: proxy request targets, `host:port` pairs and response bodies.

use vstd::prelude::*;
use vstd::utf8::{decode_utf8, encode_utf8, valid_utf8};
use crate::external::{json_string_field, json_string_member, string_from_utf8, utf8_error_text};
use crate::text::{chars_of, find_char, find_seq, first_char, first_occ, has_prefix, join2, last_char, lines_of, lines_seq, lower_chars, lower_seq, occurs_in, parse_unsigned, parse_unsigned_chars, rfind_char, slice_chars, starts_with, to_string, trim_chars, trim_seq, unsigned_error, vv};

verus! {

pub open spec fn is_bracket(c: char) -> bool {
    c == '[' || c == ']'
}

/// `s` without leading brackets.
pub open spec fn strip_start_brackets(s: Seq<char>) -> Seq<char>
    decreases s.len(),
{
    if s.len() > 0 && is_bracket(s[0]) {
        strip_start_brackets(s.drop_first())
    } else {
        s
    }
}

/// `s` without trailing brackets.
pub open spec fn strip_end_brackets(s: Seq<char>) -> Seq<char>
    decreases s.len(),
{
    if s.len() > 0 && is_bracket(s.last()) {
        strip_end_brackets(s.drop_last())
    } else {
        s
    }
}

/// `s` with all leading and trailing `[` and `]` removed, as `trim_matches(['[', ']'])` gives it.
pub open spec fn trim_brackets_seq(s: Seq<char>) -> Seq<char> {
    strip_end_brackets(strip_start_brackets(s))
}

fn trim_brackets(s: &Vec<char>) -> (out: Vec<char>)
    ensures
        out@ == trim_brackets_seq(s@),
{
    let mut i: usize = 0;
    assert(s@.skip(0) =~= s@);
    while i < s.len() && (s[i] == '[' || s[i] == ']')
        invariant
            i <= s.len(),
            strip_start_brackets(s@) == strip_start_brackets(s@.skip(i as int)),
        decreases s.len() - i,
    {
        assert(s@.skip(i as int).drop_first() =~= s@.skip(i + 1));
        i += 1;
    }
    assert(strip_start_brackets(s@) == s@.subrange(i as int, s@.len() as int)) by {
        assert(s@.skip(i as int) =~= s@.subrange(i as int, s@.len() as int));
    }
    let mut j: usize = s.len();
    while j > i && (s[j - 1] == '[' || s[j - 1] == ']')
        invariant
            i <= j <= s.len(),
            trim_brackets_seq(s@) == strip_end_brackets(s@.subrange(i as int, j as int)),
        decreases j,
    {
        assert(s@.subrange(i as int, j as int).drop_last() =~= s@.subrange(i as int, j - 1));
        j -= 1;
    }
    slice_chars(s, i, j)
}

/// What `split_host_port` gives: after the last `:` a port, unless what precedes that `:`
/// holds a `]` (an IPv6 address without port); brackets trimmed from the host.
pub open spec fn spec_split_host_port(v: Seq<char>, default_port: u16) -> Result<(Seq<char>, u16), Seq<char>> {
    if v.contains(':') && !v.take(last_char(v, ':')).contains(']') {
        let i = last_char(v, ':');
        match parse_unsigned(v.skip(i + 1), 10, 65535) {
            Some(p) => Ok((trim_brackets_seq(v.take(i)), p as u16)),
            None => Err("Invalid port in proxy target: "@ + v),
        }
    } else {
        Ok((trim_brackets_seq(v), default_port))
    }
}

pub open spec fn host_port_view(r: Result<(String, u16), String>) -> Result<(Seq<char>, u16), Seq<char>> {
    match r {
        Ok((h, p)) => Ok((h@, p)),
        Err(e) => Err(e@),
    }
}

fn split_host_port_chars(v: &Vec<char>, default_port: u16) -> (out: Result<(String, u16), String>)
    ensures
        host_port_view(out) == spec_split_host_port(v@, default_port),
{
    if let Some(i) = rfind_char(v, ':') {
        assert(crate::text::is_last_char(v@, ':', i as int));
        assert(i < v.len());
        let host = slice_chars(v, 0, i);
        assert(host@ =~= v@.take(i as int));
        if !crate::text::contains_char(&host, ']') {
            let port = slice_chars(v, i + 1, v.len());
            assert(port@ =~= v@.skip(i + 1));
            return match parse_unsigned_chars(&port, 10, 65535) {
                Ok(p) => Ok((to_string(&trim_brackets(&host)), p as u16)),
                Err(_) => Err(join2("Invalid port in proxy target: ", v)),
            };
        }
    }
    Ok((to_string(&trim_brackets(v)), default_port))
}

/// A `host:port` pair, with `default_port` when no port is given; an IPv6 host may stand in brackets.
pub fn split_host_port(value: &str, default_port: u16) -> (out: Result<(String, u16), String>)
    ensures
        host_port_view(out) == spec_split_host_port(value@, default_port),
{
    let v = chars_of(value);
    split_host_port_chars(&v, default_port)
}


/// A target written as `host:port` reads back as that host and port, for a host without
/// `:`, `[` or `]`.
pub proof fn law_host_port_round_trip(host: Seq<char>, port: u16, default_port: u16)
    requires
        !host.contains(':'),
        !host.contains('['),
        !host.contains(']'),
    ensures
        spec_split_host_port(host + ":"@ + crate::text::nat_text(port as nat), default_port)
            == Ok::<(Seq<char>, u16), Seq<char>>((host, port)),
{
    reveal_strlit(":");
    let digits = crate::text::nat_text(port as nat);
    crate::text::lemma_nat_text_reads_back(port as nat);
    let v = host + ":"@ + digits;
    let i = host.len() as int;
    assert(v[i] == ':');
    assert(!digits.contains(':')) by {
        if digits.contains(':') {
            let k = choose|k: int| 0 <= k < digits.len() && digits[k] == ':';
            assert(crate::text::is_digit_c(digits[k]));
        }
    }
    assert(crate::text::is_last_char(v, ':', i)) by {
        assert forall|k: int| i < k < v.len() implies v[k] != ':' by {
            assert(v[k] == digits[k - i - 1]);
        }
    }
    crate::text::lemma_last_char(v, ':', i);
    assert(v.take(i) =~= host);
    assert(v.skip(i + 1) =~= digits);
    assert(crate::text::unsigned_digits(digits) == digits) by {
        assert(crate::text::is_digit_c(digits[0]));
    }
    assert(strip_start_brackets(host) == host) by {
        if host.len() > 0 {
            assert(!is_bracket(host[0])) by {
                if is_bracket(host[0]) {
                    assert(host.contains(host[0]));
                }
            }
        }
    }
    assert(strip_end_brackets(host) == host) by {
        if host.len() > 0 {
            assert(!is_bracket(host.last())) by {
                if is_bracket(host.last()) {
                    assert(host.contains(host[host.len() - 1]));
                }
            }
        }
    }
    assert(v.contains(':'));
}

// ---------------------------------------------------------------------------
// Proxy request targets
// ---------------------------------------------------------------------------

/// The views of a sequence of strings.
pub open spec fn sv(v: Seq<String>) -> Seq<Seq<char>> {
    Seq::new(v.len(), |i: int| v[i]@)
}

/// `h` is a `Host:` header line, in any letter case.
pub open spec fn is_host_header(h: Seq<char>) -> bool {
    has_prefix(lower_seq(h), "host:"@)
}

pub open spec fn is_first_host_header(hs: Seq<Seq<char>>, i: int) -> bool {
    0 <= i < hs.len() && is_host_header(hs[i]) && forall|k: int| 0 <= k < i ==> !is_host_header(#[trigger] hs[k])
}

pub open spec fn has_host_header(hs: Seq<Seq<char>>) -> bool {
    exists|i: int| 0 <= i < hs.len() && is_host_header(#[trigger] hs[i])
}

/// The first `Host:` header (meaningful when there is one).
pub open spec fn first_host_header(hs: Seq<Seq<char>>) -> int {
    choose|i: int| is_first_host_header(hs, i)
}

proof fn lemma_first_host_header(hs: Seq<Seq<char>>, i: int)
    requires
        is_first_host_header(hs, i),
    ensures
        first_host_header(hs) == i,
{
    let j = first_host_header(hs);
    assert(is_first_host_header(hs, j));
    if j < i {
        assert(!is_host_header(hs[j]));
    } else if i < j {
        assert(!is_host_header(hs[i]));
    }
}

/// What `parse_http_proxy_target` gives: for an absolute `http://` target, the host, port
/// (80 by default) and path (`/` by default) it names; otherwise the host and port of the
/// first `Host:` header, with the target kept as the path.
pub open spec fn spec_proxy_target(target: Seq<char>, headers: Seq<Seq<char>>) -> Result<(Seq<char>, u16, Seq<char>), Seq<char>> {
    if has_prefix(target, "http://"@) {
        let rest = target.skip("http://"@.len() as int);
        let authority = if rest.contains('/') { rest.take(first_char(rest, '/')) } else { rest };
        let path = if rest.contains('/') { rest.skip(first_char(rest, '/')) } else { "/"@ };
        match spec_split_host_port(authority, 80) {
            Ok((h, p)) => Ok((h, p, path)),
            Err(e) => Err(e),
        }
    } else if !has_host_header(headers) {
        Err("HTTP proxy request is missing Host header."@)
    } else {
        let h = headers[first_host_header(headers)];
        if !h.contains(':') {
            Err("HTTP proxy Host header is invalid."@)
        } else {
            match spec_split_host_port(trim_seq(h.skip(first_char(h, ':') + 1)), 80) {
                Ok((hh, p)) => Ok((hh, p, target)),
                Err(e) => Err(e),
            }
        }
    }
}

pub open spec fn target_view(r: Result<(String, u16, String), String>) -> Result<(Seq<char>, u16, Seq<char>), Seq<char>> {
    match r {
        Ok((h, p, path)) => Ok((h@, p, path@)),
        Err(e) => Err(e@),
    }
}

/// The host, port and path an HTTP proxy request is for.
pub fn parse_http_proxy_target(target: &str, headers: &[String]) -> (out: Result<(String, u16, String), String>)
    ensures
        target_view(out) == spec_proxy_target(target@, sv(headers@)),
{
    let t = chars_of(target);
    let prefix = chars_of("http://");
    if starts_with(&t, &prefix) {
        let rest = slice_chars(&t, prefix.len(), t.len());
        assert(rest@ =~= t@.skip(prefix@.len() as int));
        let (authority, path) = match find_char(&rest, '/') {
            Some(i) => {
                let a = slice_chars(&rest, 0, i);
                let p = slice_chars(&rest, i, rest.len());
                assert(a@ =~= rest@.take(i as int));
                assert(p@ =~= rest@.skip(i as int));
                (a, to_string(&p))
            },
            None => (rest, "/".to_string()),
        };
        return match split_host_port_chars(&authority, 80) {
            Ok((h, p)) => Ok((h, p, path)),
            Err(e) => Err(e),
        };
    }
    let host_prefix = chars_of("host:");
    let mut found: Option<usize> = None;
    for i in 0..headers.len()
        invariant
            found is None ==> forall|k: int| 0 <= k < i ==> !is_host_header(#[trigger] sv(headers@)[k]),
            found matches Some(j) ==> is_first_host_header(sv(headers@), j as int),
            host_prefix@ == "host:"@,
    {
        if found.is_none() {
            let h = chars_of(headers[i].as_str());
            assert(h@ == sv(headers@)[i as int]);
            if starts_with(&lower_chars(&h), &host_prefix) {
                found = Some(i);
            }
        }
    }
    let idx = match found {
        Some(j) => j,
        None => return Err("HTTP proxy request is missing Host header.".to_string()),
    };
    proof {
        lemma_first_host_header(sv(headers@), idx as int);
    }
    let h = chars_of(headers[idx].as_str());
    assert(h@ == sv(headers@)[idx as int]);
    let colon = match find_char(&h, ':') {
        Some(c) => c,
        None => return Err("HTTP proxy Host header is invalid.".to_string()),
    };
    assert(crate::text::is_first_char(h@, ':', colon as int));
    assert(colon < h.len());
    let value = slice_chars(&h, colon + 1, h.len());
    assert(value@ =~= h@.skip(colon + 1));
    let authority = trim_chars(&value);
    match split_host_port_chars(&authority, 80) {
        Ok((hh, p)) => Ok((hh, p, target.to_string())),
        Err(e) => Err(e),
    }
}


/// A header value padded as `Host: ` and CR LF leave it: one space before, CR LF after.
proof fn lemma_trim_header_value(x: Seq<char>)
    requires
        x.len() == 0 || (!crate::text::is_ws(x[0]) && !crate::text::is_ws(x.last())),
    ensures
        trim_seq(" "@ + x + "\r\n"@) == x,
{
    reveal_strlit(" ");
    reveal_strlit("\r\n");
    let s = " "@ + x + "\r\n"@;
    let tail = x + "\r\n"@;
    assert(s.drop_first() =~= tail);
    assert(crate::text::trim_start_seq(s) == crate::text::trim_start_seq(tail));
    if x.len() == 0 {
        assert(tail.drop_first() =~= seq!['\n']);
        assert(seq!['\n'].drop_first() =~= Seq::<char>::empty());
        assert(crate::text::trim_start_seq(seq!['\n']) == crate::text::trim_start_seq(Seq::<char>::empty()));
        assert(crate::text::trim_start_seq(tail) == crate::text::trim_start_seq(seq!['\n']));
        assert(x =~= Seq::<char>::empty());
    } else {
        assert(tail[0] == x[0]);
        assert(crate::text::trim_start_seq(tail) == tail);
        assert(tail.drop_last() =~= x + seq!['\r']);
        assert((x + seq!['\r']).drop_last() =~= x);
        assert(crate::text::trim_end_seq(tail) == crate::text::trim_end_seq(x + seq!['\r']));
        assert(crate::text::trim_end_seq(x + seq!['\r']) == crate::text::trim_end_seq(x));
    }
}

/// The header line `Host: <value>` CR LF is a `Host:` header, and the text after its colon is
/// the value with one space before it and CR LF after it.
proof fn lemma_host_line(value: Seq<char>)
    ensures
        is_host_header("Host: "@ + value + "\r\n"@),
        ("Host: "@ + value + "\r\n"@).contains(':'),
        first_char("Host: "@ + value + "\r\n"@, ':') == 4,
        ("Host: "@ + value + "\r\n"@).skip(5) == " "@ + value + "\r\n"@,
{
    reveal_strlit("Host: ");
    reveal_strlit("host:");
    reveal_strlit(" ");
    reveal_strlit("\r\n");
    let line = "Host: "@ + value + "\r\n"@;
    assert(line[0] == 'H' && line[1] == 'o' && line[2] == 's' && line[3] == 't' && line[4] == ':');
    assert(lower_seq(line).subrange(0, 5) =~= "host:"@);
    assert(crate::text::is_first_char(line, ':', 4));
    crate::text::lemma_first_char(line, ':', 4);
    assert(line.skip(5) =~= " "@ + value + "\r\n"@);
}

/// A host without `:`, `[` or `]` is a whole authority that names no port.
proof fn lemma_plain_host(h: Seq<char>)
    requires
        !h.contains(':'),
        !h.contains('['),
        !h.contains(']'),
    ensures
        spec_split_host_port(h, 80) == Ok::<(Seq<char>, u16), Seq<char>>((h, 80u16)),
{
    assert(strip_start_brackets(h) == h) by {
        if h.len() > 0 && is_bracket(h[0]) {
            assert(h.contains(h[0]));
        }
    }
    assert(strip_end_brackets(h) == h) by {
        if h.len() > 0 && is_bracket(h.last()) {
            assert(h.contains(h[h.len() - 1]));
        }
    }
}

/// An absolute `http://` target whose authority names no port goes to that host on port 80,
/// with the path that follows the authority, or `/` when none does; the headers do not matter.
pub proof fn law_absolute_target_default_port(host: Seq<char>, path: Seq<char>, headers: Seq<Seq<char>>)
    requires
        !host.contains(':'),
        !host.contains('['),
        !host.contains(']'),
        !host.contains('/'),
        path.len() == 0 || path[0] == '/',
    ensures
        spec_proxy_target("http://"@ + host + path, headers) == Ok::<(Seq<char>, u16, Seq<char>), Seq<char>>(
            (host, 80u16, if path.len() == 0 { "/"@ } else { path }),
        ),
{
    reveal_strlit("http://");
    let target = "http://"@ + host + path;
    assert(target.subrange(0, 7) =~= "http://"@);
    let rest = target.skip(7);
    assert(rest =~= host + path);
    if path.len() == 0 {
        assert(rest =~= host);
    } else {
        let k = host.len() as int;
        assert(rest[k] == '/');
        assert forall|j: int| 0 <= j < k implies rest[j] != '/' by {
            assert(rest[j] == host[j]);
            if host[j] == '/' {
                assert(host.contains(host[j]));
            }
        }
        assert(crate::text::is_first_char(rest, '/', k));
        crate::text::lemma_first_char(rest, '/', k);
        assert(rest.contains('/'));
        assert(rest.take(k) =~= host);
        assert(rest.skip(k) =~= path);
    }
    lemma_plain_host(host);
}

/// A request whose target is not an absolute `http://` URL goes to the host its first `Host:`
/// header names, on port 80 when that header names no port, with the target kept as the path.
pub proof fn law_host_header_default_port(target: Seq<char>, headers: Seq<Seq<char>>, i: int, host: Seq<char>)
    requires
        !has_prefix(target, "http://"@),
        0 <= i < headers.len(),
        forall|k: int| 0 <= k < i ==> !is_host_header(#[trigger] headers[k]),
        headers[i] == "Host: "@ + host + "\r\n"@,
        forall|k: int|
            0 <= k < host.len() ==> {
                let c = #[trigger] host[k];
                c != ':' && c != '[' && c != ']' && !crate::text::is_ws(c)
            },
    ensures
        spec_proxy_target(target, headers) == Ok::<(Seq<char>, u16, Seq<char>), Seq<char>>((host, 80u16, target)),
{
    lemma_host_line(host);
    assert(is_first_host_header(headers, i));
    lemma_first_host_header(headers, i);
    assert(has_host_header(headers));
    if host.len() > 0 {
        assert(!crate::text::is_ws(host[0]));
        assert(!crate::text::is_ws(host[host.len() - 1]));
    }
    lemma_trim_header_value(host);
    assert(!host.contains(':') && !host.contains('[') && !host.contains(']')) by {
        if host.contains(':') || host.contains('[') || host.contains(']') {
            let k = choose|k: int| 0 <= k < host.len() && (host[k] == ':' || host[k] == '[' || host[k] == ']');
            assert(host[k] != ':');
        }
    }
    lemma_plain_host(host);
}

/// A request whose target is not an absolute `http://` URL goes to the host and port its first
/// `Host:` header names as `host:port`, with the target kept as the path.
pub proof fn law_host_header_port(target: Seq<char>, headers: Seq<Seq<char>>, i: int, host: Seq<char>, port: u16)
    requires
        !has_prefix(target, "http://"@),
        0 <= i < headers.len(),
        forall|k: int| 0 <= k < i ==> !is_host_header(#[trigger] headers[k]),
        headers[i] == "Host: "@ + host + ":"@ + crate::text::nat_text(port as nat) + "\r\n"@,
        forall|k: int|
            0 <= k < host.len() ==> {
                let c = #[trigger] host[k];
                c != ':' && c != '[' && c != ']' && !crate::text::is_ws(c)
            },
    ensures
        spec_proxy_target(target, headers) == Ok::<(Seq<char>, u16, Seq<char>), Seq<char>>((host, port, target)),
{
    reveal_strlit(":");
    let digits = crate::text::nat_text(port as nat);
    crate::text::lemma_nat_text_reads_back(port as nat);
    let value = host + ":"@ + digits;
    assert(headers[i] == "Host: "@ + value + "\r\n"@);
    lemma_host_line(value);
    assert(is_first_host_header(headers, i));
    lemma_first_host_header(headers, i);
    assert(has_host_header(headers));
    if host.len() > 0 {
        assert(value[0] == host[0]);
        assert(!crate::text::is_ws(host[0]));
    } else {
        assert(value[0] == ':');
    }
    assert(value.last() == digits.last());
    assert(crate::text::is_digit_c(digits[digits.len() - 1]));
    lemma_trim_header_value(value);
    assert(!host.contains(':') && !host.contains('[') && !host.contains(']')) by {
        if host.contains(':') || host.contains('[') || host.contains(']') {
            let k = choose|k: int| 0 <= k < host.len() && (host[k] == ':' || host[k] == '[' || host[k] == ']');
            assert(host[k] != ':');
        }
    }
    law_host_port_round_trip(host, port, 80);
}

// ---------------------------------------------------------------------------
// Response bodies
// ---------------------------------------------------------------------------

/// A CR LF pair stands in `b` at `i`.
pub open spec fn crlf_at(b: Seq<u8>, i: int) -> bool {
    0 <= i && i + 1 < b.len() && b[i] == 13 && b[i + 1] == 10
}

pub open spec fn has_crlf(b: Seq<u8>) -> bool {
    exists|i: int| crlf_at(b, i)
}

pub open spec fn is_first_crlf(b: Seq<u8>, i: int) -> bool {
    crlf_at(b, i) && forall|k: int| 0 <= k < i ==> !crlf_at(b, k)
}

/// Where the first CR LF pair of `b` stands (meaningful when there is one).
pub open spec fn first_crlf(b: Seq<u8>) -> int {
    choose|i: int| is_first_crlf(b, i)
}

proof fn lemma_first_crlf(b: Seq<u8>, i: int)
    requires
        is_first_crlf(b, i),
    ensures
        first_crlf(b) == i,
{
    let j = first_crlf(b);
    assert(is_first_crlf(b, j));
    if j < i {
        assert(!crlf_at(b, j));
    } else if i < j {
        assert(!crlf_at(b, i));
    }
}

pub proof fn lemma_first_crlf_exists(b: Seq<u8>)
    requires
        has_crlf(b),
    ensures
        is_first_crlf(b, first_crlf(b)),
    decreases b.len(),
{
    let i = choose|i: int| crlf_at(b, i);
    if exists|k: int| 0 <= k < i && crlf_at(b, k) {
        let k = choose|k: int| 0 <= k < i && crlf_at(b, k);
        assert(crlf_at(b.take(i + 1), k));
        lemma_first_crlf_exists(b.take(i + 1));
        let f = first_crlf(b.take(i + 1));
        assert(crlf_at(b, f));
        assert forall|m: int| 0 <= m < f implies !crlf_at(b, m) by {
            if crlf_at(b, m) {
                assert(crlf_at(b.take(i + 1), m));
            }
        }
        assert(is_first_crlf(b, f));
    } else {
        assert(is_first_crlf(b, i));
    }
}

/// The first CR LF pair in `b` at or after `from`.
fn find_crlf(b: &[u8], from: usize) -> (r: Option<usize>)
    requires
        from <= b@.len(),
    ensures
        match r {
            Some(j) => from <= j && is_first_crlf(b@.skip(from as int), j - from)
                && first_crlf(b@.skip(from as int)) == j - from,
            None => !has_crlf(b@.skip(from as int)),
        },
{
    let ghost rest = b@.skip(from as int);
    let mut j = from;
    while b.len() > 1 && j < b.len() - 1
        invariant
            from <= j <= b@.len(),
            rest == b@.skip(from as int),
            forall|k: int| 0 <= k < j - from ==> !crlf_at(rest, k),
        decreases b.len() - j,
    {
        if b[j] == 13 && b[j + 1] == 10 {
            assert(crlf_at(rest, j - from));
            proof {
                lemma_first_crlf(rest, j - from);
            }
            return Some(j);
        }
        assert(!crlf_at(rest, j - from));
        j += 1;
    }
    assert forall|k: int| !crlf_at(rest, k) by {
        if 0 <= k < j - from {
        }
    }
    None
}

/// The text before the first `;` of `s`, as `split(';').next()` gives it.
pub open spec fn before_semicolon(s: Seq<char>) -> Seq<char> {
    if s.contains(';') {
        s.take(first_char(s, ';'))
    } else {
        s
    }
}

/// Where decoding a chunked body ends.
pub enum ChunkedOutcome {
    /// The bytes of all chunks, up to the chunk of size zero.
    Decoded(Seq<u8>),
    /// Decoding stops with this message.
    Failed(Seq<char>),
    /// A chunk announces a size so large that its length check cannot be computed.
    Oversized,
}

/// Decodes the chunks in `rest`, after the bytes `acc` already decoded.
pub open spec fn chunked_from(rest: Seq<u8>, acc: Seq<u8>) -> ChunkedOutcome
    decreases rest.len(),
{
    if !has_crlf(rest) {
        ChunkedOutcome::Failed("Invalid chunked response."@)
    } else {
        let e = first_crlf(rest);
        let line = rest.take(e);
        if !valid_utf8(line) {
            ChunkedOutcome::Failed(utf8_error_text(line))
        } else {
            let field = trim_seq(before_semicolon(decode_utf8(line)));
            match parse_unsigned(field, 16, usize::MAX as nat) {
                None => ChunkedOutcome::Failed(unsigned_error(field, 16, usize::MAX as nat)),
                Some(size) => {
                    let after = rest.skip(e + 2);
                    if size == 0 {
                        ChunkedOutcome::Decoded(acc)
                    } else if size > usize::MAX - 2 {
                        ChunkedOutcome::Oversized
                    } else if after.len() < size + 2 {
                        ChunkedOutcome::Failed("Invalid chunked response length."@)
                    } else {
                        proof {
                            lemma_first_crlf_exists(rest);
                        }
                        chunked_from(after.skip(size + 2int), acc + after.take(size as int))
                    }
                },
            }
        }
    }
}

/// Where decoding the chunked body `body` ends.
pub open spec fn chunked_outcome(body: Seq<char>) -> ChunkedOutcome {
    chunked_from(encode_utf8(body), Seq::empty())
}

/// What `decode_chunked_body` gives, when no chunk is oversized.
pub open spec fn spec_decode_chunked(body: Seq<char>) -> Result<Seq<char>, Seq<char>> {
    match chunked_outcome(body) {
        ChunkedOutcome::Decoded(b) => if valid_utf8(b) {
            Ok(decode_utf8(b))
        } else {
            Err(utf8_error_text(b))
        },
        ChunkedOutcome::Failed(m) => Err(m),
        ChunkedOutcome::Oversized => Err(Seq::empty()),
    }
}

/// The hexadecimal text of `n` in lower case, as `{:x}` writes it.
pub open spec fn hex_text(n: nat) -> Seq<char>
    decreases n,
{
    if n < 16 {
        seq![crate::color::hex_digit(n, false)]
    } else {
        hex_text(n / 16).push(crate::color::hex_digit(n % 16, false))
    }
}

/// A lower-case hexadecimal digit.
pub open spec fn is_lower_hex(c: char) -> bool {
    ('0' <= c && c <= '9') || ('a' <= c && c <= 'f')
}

proof fn lemma_hex_text(n: nat)
    ensures
        hex_text(n).len() > 0,
        forall|i: int| 0 <= i < hex_text(n).len() ==> is_lower_hex(#[trigger] hex_text(n)[i]),
        crate::text::all_radix_digits(hex_text(n), 16),
        crate::text::radix_value(hex_text(n), 16) == n,
    decreases n,
{
    let d = crate::color::hex_digit(n % 16, false);
    assert(crate::text::char_digit(d) == n % 16);
    assert(crate::text::radix_value(Seq::<char>::empty(), 16) == 0);
    if n < 16 {
        assert(hex_text(n).drop_last() =~= Seq::<char>::empty());
        assert(crate::text::radix_value(hex_text(n), 16) == crate::text::radix_value(hex_text(n).drop_last(), 16) * 16
            + crate::text::char_digit(hex_text(n).last()));
    } else {
        lemma_hex_text(n / 16);
        let prefix = hex_text(n / 16);
        assert(hex_text(n).drop_last() =~= prefix);
        assert(crate::text::radix_value(hex_text(n), 16) == crate::text::radix_value(prefix, 16) * 16
            + crate::text::char_digit(d));
        assert(crate::text::radix_value(prefix, 16) * 16 + n % 16 == n);
        assert forall|i: int| 0 <= i < hex_text(n).len() implies is_lower_hex(#[trigger] hex_text(n)[i]) by {
            if i < prefix.len() {
                assert(hex_text(n)[i] == prefix[i]);
            }
        }
    }
    assert forall|i: int| 0 <= i < hex_text(n).len() implies crate::text::char_digit(#[trigger] hex_text(n)[i]) < 16 by {
        assert(is_lower_hex(hex_text(n)[i]));
    }
}

proof fn lemma_encode_concat(a: Seq<char>, b: Seq<char>)
    ensures
        encode_utf8(a + b) == encode_utf8(a) + encode_utf8(b),
    decreases a.len(),
{
    if a.len() == 0 {
        assert(a + b =~= b);
        assert(encode_utf8(a) =~= Seq::<u8>::empty());
        assert(encode_utf8(a) + encode_utf8(b) =~= encode_utf8(b));
    } else {
        lemma_encode_concat(a.drop_first(), b);
        assert((a + b).drop_first() =~= a.drop_first() + b);
        assert((a + b)[0] == a[0]);
        assert(encode_utf8(a + b) =~= encode_utf8(a) + encode_utf8(b));
    }
}

proof fn lemma_encode_empty(s: Seq<char>)
    requires
        encode_utf8(s).len() == 0,
    ensures
        s.len() == 0,
{
    if s.len() > 0 {
        assert(encode_utf8(s) == vstd::utf8::encode_scalar(s[0] as u32) + encode_utf8(s.drop_first()));
    }
}

/// The bytes of ASCII text are its characters' codes.
proof fn lemma_ascii_bytes(c: Seq<char>)
    requires
        vstd::utf8::is_ascii_chars(c),
    ensures
        encode_utf8(c).len() == c.len(),
        forall|i: int| 0 <= i < c.len() ==> encode_utf8(c)[i] as int == #[trigger] c[i] as int,
        valid_utf8(encode_utf8(c)),
        decode_utf8(encode_utf8(c)) == c,
{
    vstd::utf8::is_ascii_chars_encode_utf8(c);
    vstd::utf8::encode_utf8_valid_utf8(c);
    vstd::utf8::encode_utf8_decode_utf8(c);
    assert forall|i: int| 0 <= i < c.len() implies encode_utf8(c)[i] as int == #[trigger] c[i] as int by {
        assert(c[i] as u8 == encode_utf8(c)[i]);
    }
}

proof fn lemma_zero_chunk(acc: Seq<u8>)
    ensures
        chunked_from(seq![48u8, 13u8, 10u8, 13u8, 10u8], acc) == ChunkedOutcome::Decoded(acc),
{
    let r = seq![48u8, 13u8, 10u8, 13u8, 10u8];
    assert(is_first_crlf(r, 1));
    lemma_first_crlf(r, 1);
    let zero = seq!['0'];
    lemma_ascii_bytes(zero);
    assert(r.take(1) =~= encode_utf8(zero));
    assert(!zero.contains(';'));
    assert(before_semicolon(zero) == zero);
    assert(crate::text::trim_start_seq(zero) == zero);
    assert(crate::text::trim_end_seq(zero) == zero);
    assert(trim_seq(zero) == zero);
    assert(crate::text::unsigned_digits(zero) == zero);
    assert(zero.drop_last() =~= Seq::<char>::empty());
    assert(crate::text::radix_value(Seq::<char>::empty(), 16) == 0);
    assert(crate::text::radix_value(zero, 16) == 0);
    assert(parse_unsigned(zero, 16, usize::MAX as nat) == Some(0nat));
}

/// A body of one chunk, written as its length in lower-case hexadecimal, CR LF, the text,
/// CR LF and the closing chunk of size zero, decodes back to the text.
pub proof fn law_single_chunk_round_trip(s: Seq<char>)
    requires
        encode_utf8(s).len() <= usize::MAX - 2,
    ensures
        spec_decode_chunked(hex_text(encode_utf8(s).len()) + "\r\n"@ + s + "\r\n0\r\n\r\n"@)
            == Ok::<Seq<char>, Seq<char>>(s),
{
    reveal_strlit("\r\n");
    reveal_strlit("\r\n0\r\n\r\n");
    let n = encode_utf8(s).len();
    let h = hex_text(n);
    lemma_hex_text(n);
    let crlf = "\r\n"@;
    let tail = "\r\n0\r\n\r\n"@;
    assert(crlf =~= seq!['\r', '\n']);
    assert(tail =~= seq!['\r', '\n', '0', '\r', '\n', '\r', '\n']);
    assert forall|i: int| 0 <= i < h.len() implies '\0' <= #[trigger] h[i] <= '\u{7f}' by {
        assert(is_lower_hex(h[i]));
    }
    lemma_ascii_bytes(h);
    lemma_ascii_bytes(crlf);
    lemma_ascii_bytes(tail);
    let eh = encode_utf8(h);
    let es = encode_utf8(s);
    let ec = encode_utf8(crlf);
    let et = encode_utf8(tail);
    assert(ec =~= seq![13u8, 10u8]);
    assert(et =~= seq![13u8, 10u8, 48u8, 13u8, 10u8, 13u8, 10u8]);
    lemma_encode_concat(h, crlf);
    lemma_encode_concat(h + crlf, s);
    lemma_encode_concat(h + crlf + s, tail);
    let body = h + crlf + s + tail;
    let b = encode_utf8(body);
    assert(b =~= eh + ec + es + et);
    let e = h.len() as int;
    assert(is_first_crlf(b, e)) by {
        assert(b[e] == 13u8);
        assert(b[e + 1] == 10u8);
        assert forall|k: int| 0 <= k < e implies !crlf_at(b, k) by {
            assert(b[k] == eh[k]);
            assert(is_lower_hex(h[k]));
        }
    }
    lemma_first_crlf(b, e);
    assert(has_crlf(b));
    assert(b.take(e) =~= eh);
    assert(!h.contains(';')) by {
        if h.contains(';') {
            let k = choose|k: int| 0 <= k < h.len() && h[k] == ';';
            assert(is_lower_hex(h[k]));
        }
    }
    assert(before_semicolon(h) == h);
    assert(is_lower_hex(h[0]));
    assert(is_lower_hex(h.last()));
    assert(crate::text::trim_start_seq(h) == h);
    assert(crate::text::trim_end_seq(h) == h);
    assert(trim_seq(h) == h);
    assert(crate::text::unsigned_digits(h) == h);
    assert(parse_unsigned(h, 16, usize::MAX as nat) == Some(n));
    let after = b.skip(e + 2);
    assert(after =~= es + et);
    vstd::utf8::encode_utf8_valid_utf8(s);
    vstd::utf8::encode_utf8_decode_utf8(s);
    if n == 0 {
        lemma_encode_empty(s);
        assert(chunked_from(b, Seq::empty()) == ChunkedOutcome::Decoded(Seq::<u8>::empty()));
        assert(es =~= Seq::<u8>::empty());
    } else {
        let rest2 = after.skip(n + 2int);
        let acc2 = Seq::<u8>::empty() + after.take(n as int);
        assert(rest2 =~= seq![48u8, 13u8, 10u8, 13u8, 10u8]);
        assert(acc2 =~= es);
        lemma_zero_chunk(acc2);
        assert(chunked_from(b, Seq::empty()) == chunked_from(rest2, acc2));
    }
}

proof fn lemma_scalar_no_cr(c: char)
    requires
        c != '\r',
    ensures
        forall|k: int| 0 <= k < vstd::utf8::encode_scalar(c as u32).len() ==> #[trigger] vstd::utf8::encode_scalar(c as u32)[k] != 13u8,
{
    let v = c as u32;
    vstd::utf8::char_is_scalar(c);
    assert(forall|x: u8| #[trigger] (0x80u8 | x) != 13u8) by (bit_vector);
    assert(forall|x: u8| #[trigger] (0xC0u8 | x) != 13u8) by (bit_vector);
    assert(forall|x: u8| #[trigger] (0xE0u8 | x) != 13u8) by (bit_vector);
    assert(forall|x: u8| #[trigger] (0xF0u8 | x) != 13u8) by (bit_vector);
    if vstd::utf8::has_width_1_encoding(v) {
        assert(v != 13u32);
        assert(((v & 0x7F) as u8) != 13u8) by (bit_vector)
            requires
                v <= 0x7F,
                v != 13u32,
        ;
    }
}

proof fn lemma_no_cr_byte(s: Seq<char>)
    requires
        !s.contains('\r'),
    ensures
        forall|k: int| 0 <= k < encode_utf8(s).len() ==> #[trigger] encode_utf8(s)[k] != 13u8,
    decreases s.len(),
{
    if s.len() > 0 {
        assert(s[0] != '\r') by {
            if s[0] == '\r' {
                assert(s.contains(s[0]));
            }
        }
        assert(!s.drop_first().contains('\r')) by {
            if s.drop_first().contains('\r') {
                let k = choose|k: int| 0 <= k < s.drop_first().len() && s.drop_first()[k] == '\r';
                assert(s[k + 1] == '\r');
            }
        }
        lemma_scalar_no_cr(s[0]);
        lemma_no_cr_byte(s.drop_first());
        let a = vstd::utf8::encode_scalar(s[0] as u32);
        let b = encode_utf8(s.drop_first());
        assert(encode_utf8(s) == a + b);
        assert forall|k: int| 0 <= k < encode_utf8(s).len() implies #[trigger] encode_utf8(s)[k] != 13u8 by {
            if k < a.len() {
                assert(encode_utf8(s)[k] == a[k]);
            } else {
                assert(encode_utf8(s)[k] == b[k - a.len()]);
            }
        }
    }
}

/// Where a size line of `size` without CR starts a chunked body, the rest after it read.
proof fn lemma_size_line(line: Seq<char>, rest: Seq<char>)
    requires
        !line.contains('\r'),
    ensures
        has_crlf(encode_utf8(line + "\r\n"@ + rest)),
        first_crlf(encode_utf8(line + "\r\n"@ + rest)) == encode_utf8(line).len(),
        encode_utf8(line + "\r\n"@ + rest).take(encode_utf8(line).len() as int) == encode_utf8(line),
        encode_utf8(line + "\r\n"@ + rest).skip(encode_utf8(line).len() + 2int) == encode_utf8(rest),
{
    reveal_strlit("\r\n");
    let crlf = "\r\n"@;
    assert(crlf =~= seq!['\r', '\n']);
    lemma_ascii_bytes(crlf);
    let ec = encode_utf8(crlf);
    assert(ec =~= seq![13u8, 10u8]);
    lemma_encode_concat(line, crlf);
    lemma_encode_concat(line + crlf, rest);
    let el = encode_utf8(line);
    let b = encode_utf8(line + crlf + rest);
    assert(b =~= el + ec + encode_utf8(rest));
    lemma_no_cr_byte(line);
    let e = el.len() as int;
    assert(is_first_crlf(b, e)) by {
        assert(b[e] == 13u8);
        assert(b[e + 1] == 10u8);
        assert forall|k: int| 0 <= k < e implies !crlf_at(b, k) by {
            assert(b[k] == el[k]);
        }
    }
    lemma_first_crlf(b, e);
    assert(b.take(e) =~= el);
    assert(b.skip(e + 2) =~= encode_utf8(rest));
}

/// Extensions after `;` on a chunk's size line change nothing: the body decodes as if the
/// size line held the size alone.
pub proof fn law_chunk_extension_ignored(size: Seq<char>, ext: Seq<char>, rest: Seq<char>)
    requires
        !size.contains('\r'),
        !size.contains(';'),
        !ext.contains('\r'),
    ensures
        spec_decode_chunked(size + ";"@ + ext + "\r\n"@ + rest) == spec_decode_chunked(size + "\r\n"@ + rest),
{
    reveal_strlit(";");
    let l1 = size + ";"@ + ext;
    assert(!l1.contains('\r')) by {
        if l1.contains('\r') {
            let k = choose|k: int| 0 <= k < l1.len() && l1[k] == '\r';
            if k < size.len() {
                assert(size[k] == '\r');
            } else if k > size.len() {
                assert(ext[k - size.len() - 1] == '\r');
            }
        }
    }
    lemma_size_line(l1, rest);
    lemma_size_line(size, rest);
    vstd::utf8::encode_utf8_valid_utf8(l1);
    vstd::utf8::encode_utf8_decode_utf8(l1);
    vstd::utf8::encode_utf8_valid_utf8(size);
    vstd::utf8::encode_utf8_decode_utf8(size);
    let i = size.len() as int;
    assert(crate::text::is_first_char(l1, ';', i)) by {
        assert forall|k: int| 0 <= k < i implies l1[k] != ';' by {
            assert(l1[k] == size[k]);
            if size[k] == ';' {
                assert(size.contains(';'));
            }
        }
    }
    crate::text::lemma_first_char(l1, ';', i);
    assert(l1.take(i) =~= size);
    assert(before_semicolon(l1) == size);
    assert(before_semicolon(size) == size);
    assert(size + ";"@ + ext + "\r\n"@ + rest =~= l1 + "\r\n"@ + rest);
}

pub open spec fn text_res_view(r: Result<String, String>) -> Result<Seq<char>, Seq<char>> {
    match r {
        Ok(s) => Ok(s@),
        Err(e) => Err(e@),
    }
}

/// Whether some chunk of `body` announces a size so large that decoding it would overflow.
pub fn chunk_size_overflows(body: &str) -> (r: bool)
    ensures
        r == (chunked_outcome(body@) is Oversized),
{
    match decode_chunks(body) {
        Err(None) => true,
        _ => false,
    }
}

/// The text of an HTTP body sent with chunked transfer encoding.
pub fn decode_chunked_body(body: &str) -> (out: Result<String, String>)
    requires
        !(chunked_outcome(body@) is Oversized),
    ensures
        text_res_view(out) == spec_decode_chunked(body@),
{
    match decode_chunks(body) {
        Ok(bytes) => string_from_utf8(bytes),
        Err(Some(m)) => Err(m),
        Err(None) => Err(String::new()),
    }
}

/// The bytes of the chunks of `body`; `Err(None)` for an oversized chunk.
fn decode_chunks(body: &str) -> (out: Result<Vec<u8>, Option<String>>)
    ensures
        match chunked_outcome(body@) {
            ChunkedOutcome::Decoded(b) => out matches Ok(v) && v@ == b,
            ChunkedOutcome::Failed(m) => out matches Err(Some(e)) && e@ == m,
            ChunkedOutcome::Oversized => out matches Err(None),
        },
{
    let b: &[u8] = body.as_bytes();
    let mut decoded: Vec<u8> = Vec::new();
    let mut pos: usize = 0;
    assert(b@.skip(0) =~= b@);
    loop
        invariant
            pos <= b@.len(),
            chunked_outcome(body@) == chunked_from(b@.skip(pos as int), decoded@),
            b@ == encode_utf8(body@),
        decreases b@.len() - pos,
    {
        let ghost rest = b@.skip(pos as int);
        let line_end = match find_crlf(b, pos) {
            Some(j) => j,
            None => return Err(Some("Invalid chunked response.".to_string())),
        };
        assert(crlf_at(rest, line_end - pos));
        let blen = b.len();
        assert(line_end + 1 < blen);
        let mut line: Vec<u8> = Vec::new();
        let mut k = pos;
        while k < line_end
            invariant
                pos <= k <= line_end,
                line_end < b@.len(),
                line@ == b@.subrange(pos as int, k as int),
            decreases line_end - k,
        {
            line.push(b[k]);
            k += 1;
        }
        assert(line@ =~= rest.take(line_end - pos));
        let size_line = match string_from_utf8(line) {
            Ok(s) => s,
            Err(e) => return Err(Some(e)),
        };
        let chars = chars_of(size_line.as_str());
        let head = match find_char(&chars, ';') {
            Some(i) => {
                let h = slice_chars(&chars, 0, i);
                assert(h@ =~= chars@.take(i as int));
                h
            },
            None => chars,
        };
        let field = trim_chars(&head);
        let size = match parse_unsigned_chars(&field, 16, usize::MAX as u64) {
            Ok(v) => v as usize,
            Err(e) => return Err(Some(e)),
        };
        let after = line_end + 2;
        assert(rest.skip(line_end - pos + 2) =~= b@.skip(after as int));
        if size == 0 {
            return Ok(decoded);
        }
        if size > usize::MAX - 2 {
            return Err(None);
        }
        if b.len() - after < size + 2 {
            return Err(Some("Invalid chunked response length.".to_string()));
        }
        let mut k2 = after;
        let end = after + size;
        let ghost before = decoded@;
        while k2 < end
            invariant
                end == after + size,
                after <= k2 <= end,
                after + size + 2 <= b@.len(),
                decoded@ == before + b@.subrange(after as int, k2 as int),
            decreases end - k2,
        {
            decoded.push(b[k2]);
            k2 += 1;
        }
        assert(decoded@ =~= before + b@.skip(after as int).take(size as int));
        assert(b@.skip(after as int).skip(size + 2) =~= b@.skip(after + size + 2));
        pos = after + size + 2;
    }
}

/// The header block and the body of an HTTP response: split at the first blank line,
/// the body empty when there is none.
pub open spec fn response_parts(s: Seq<char>) -> (Seq<char>, Seq<char>) {
    if occurs_in(s, "\r\n\r\n"@) {
        let i = first_occ(s, "\r\n\r\n"@);
        (s.take(i), s.skip(i + "\r\n\r\n"@.len()))
    } else {
        (s, Seq::empty())
    }
}

/// Some line of `headers` reads `transfer-encoding: chunked`, in any ASCII letter case.
pub open spec fn declares_chunked(headers: Seq<char>) -> bool {
    exists|k: int|
        0 <= k < lines_seq(headers).len() && lower_seq(#[trigger] lines_seq(headers)[k]) == lower_seq(
            "transfer-encoding: chunked"@,
        )
}

/// What `http_response_body` gives: the body, decoded when the headers declare chunked
/// encoding and it decodes, else as sent.
pub open spec fn spec_response_body(response: Seq<char>) -> Seq<char> {
    let (headers, body) = response_parts(response);
    if declares_chunked(headers) {
        match spec_decode_chunked(body) {
            Ok(d) => d,
            Err(_) => body,
        }
    } else {
        body
    }
}

/// `response` would make `http_response_body` decode a chunk too large to check.
pub open spec fn response_overflows(response: Seq<char>) -> bool {
    declares_chunked(response_parts(response).0) && chunked_outcome(response_parts(response).1) is Oversized
}

/// The body of `response`, and whether its headers declare chunked encoding.
fn split_response(response: &str) -> (out: (String, bool))
    ensures
        out.0@ == response_parts(response@).1,
        out.1 == declares_chunked(response_parts(response@).0),
{
    let r = chars_of(response);
    let sep = chars_of("\r\n\r\n");
    let (headers, body) = match find_seq(&r, &sep) {
        Some(i) => {
            assert(crate::text::occurs_at(r@, sep@, i as int));
            let n = r.len();
            let m = sep.len();
            assert(i + m <= n);
            let h = slice_chars(&r, 0, i);
            let b = slice_chars(&r, i + sep.len(), r.len());
            assert(h@ =~= r@.take(i as int));
            assert(b@ =~= r@.skip(i + sep@.len()));
            (h, b)
        },
        None => (r, Vec::new()),
    };
    let body_text = to_string(&body);
    let lines = lines_of(&headers);
    let wanted = lower_chars(&chars_of("transfer-encoding: chunked"));
    let mut chunked = false;
    for k in 0..lines.len()
        invariant
            vv(lines@) == lines_seq(headers@),
            wanted@ == lower_seq("transfer-encoding: chunked"@),
            chunked == exists|m: int| 0 <= m < k && lower_seq(#[trigger] lines_seq(headers@)[m]) == wanted@,
    {
        assert(lines@[k as int]@ == lines_seq(headers@)[k as int]);
        if crate::text::chars_eq(&lower_chars(&lines[k]), &wanted) {
            chunked = true;
        }
    }
    (body_text, chunked)
}

/// Whether `response` declares a chunked body with a chunk too large to check, on which
/// `http_response_body` cannot be asked.
pub fn response_body_overflows(response: &str) -> (r: bool)
    ensures
        r == response_overflows(response@),
{
    let (body, chunked) = split_response(response);
    chunked && chunk_size_overflows(body.as_str())
}

/// The body of a raw HTTP response.
pub fn http_response_body(response: &str) -> (out: String)
    requires
        !response_overflows(response@),
    ensures
        out@ == spec_response_body(response@),
{
    let (body_text, chunked) = split_response(response);
    if chunked {
        match decode_chunked_body(body_text.as_str()) {
            Ok(d) => d,
            Err(_) => body_text,
        }
    } else {
        body_text
    }
}


// ---------------------------------------------------------------------------
// The address an IP echo service reports
// ---------------------------------------------------------------------------

/// Characters that may stand in an IPv4 or IPv6 address.
pub open spec fn is_ip_char(c: char) -> bool {
    crate::text::is_alnum_c(c) || c == '.' || c == ':'
}

/// A piece of text that looks like an address: it holds a `.` or at least two `:`.
pub open spec fn ip_like(p: Seq<char>) -> bool {
    p.contains('.') || crate::text::count_char(p, ':') >= 2
}

/// The pieces of `s` between characters that cannot stand in an address, finished so far,
/// and the piece still open.
pub open spec fn ip_pieces_state(s: Seq<char>) -> (Seq<Seq<char>>, Seq<char>)
    decreases s.len(),
{
    if s.len() == 0 {
        (Seq::empty(), Seq::empty())
    } else {
        let (done, cur) = ip_pieces_state(s.drop_last());
        if is_ip_char(s.last()) {
            (done, cur.push(s.last()))
        } else {
            (done.push(cur), Seq::empty())
        }
    }
}

/// The pieces of `s` between characters that cannot stand in an address, empty ones included.
pub open spec fn ip_pieces(s: Seq<char>) -> Seq<Seq<char>> {
    ip_pieces_state(s).0.push(ip_pieces_state(s).1)
}

/// The first piece that looks like an address.
pub open spec fn first_ip_like(parts: Seq<Seq<char>>) -> Option<Seq<char>>
    decreases parts.len(),
{
    if parts.len() == 0 {
        None
    } else if ip_like(parts[0]) {
        Some(parts[0])
    } else {
        first_ip_like(parts.drop_first())
    }
}

/// What `extract_ip_from_body` gives: the string member `ip` when the trimmed body is JSON,
/// else the first piece of it that looks like an address.
pub open spec fn spec_extract_ip(body: Seq<char>) -> Option<Seq<char>> {
    let t = trim_seq(body);
    match json_string_member(t, "ip"@) {
        Some(member) => member,
        None => first_ip_like(ip_pieces(t)),
    }
}

fn ip_pieces_of(s: &Vec<char>) -> (out: Vec<Vec<char>>)
    ensures
        vv(out@) == ip_pieces(s@),
{
    let mut done: Vec<Vec<char>> = Vec::new();
    let mut cur: Vec<char> = Vec::new();
    for i in 0..s.len()
        invariant
            (vv(done@), cur@) == ip_pieces_state(s@.take(i as int)),
    {
        assert(s@.take(i + 1).drop_last() =~= s@.take(i as int));
        assert(s@.take(i + 1).last() == s@[i as int]);
        let c = s[i];
        if crate::text::is_alnum(c) || c == '.' || c == ':' {
            cur.push(c);
            assert(vv(done@) =~= ip_pieces_state(s@.take(i + 1)).0);
        } else {
            let piece = cur;
            done.push(piece);
            cur = Vec::new();
            assert(vv(done@) =~= ip_pieces_state(s@.take(i as int)).0.push(ip_pieces_state(s@.take(i as int)).1));
        }
    }
    assert(s@.take(s.len() as int) =~= s@);
    done.push(cur);
    assert(vv(done@) =~= ip_pieces(s@));
    done
}

/// The address reported in a response body whose trimmed text is `trimmed`, given what
/// reading it as JSON for a string member `ip` gave (`parsed`, as `json_string_field` gives
/// it): that member when the text is JSON, else the first piece of the text that looks like an
/// address.
pub fn ip_from_parsed_body(trimmed: &str, parsed: Option<Option<String>>) -> (out: Option<String>)
    ensures
        match parsed {
            Some(member) => opt_view_s(out) == opt_view_s(member),
            None => opt_view_s(out) == first_ip_like(ip_pieces(trimmed@)),
        },
{
    if let Some(member) = parsed {
        return member;
    }
    let t = chars_of(trimmed);
    let parts = ip_pieces_of(&t);
    let mut i: usize = 0;
    assert(vv(parts@).skip(0) =~= vv(parts@));
    while i < parts.len()
        invariant
            i <= parts.len(),
            vv(parts@) == ip_pieces(t@),
            t@ == trimmed@,
            parsed is None,
            first_ip_like(vv(parts@)) == first_ip_like(vv(parts@).skip(i as int)),
        decreases parts.len() - i,
    {
        let p = &parts[i];
        assert(vv(parts@).skip(i as int)[0] == p@);
        if crate::text::contains_char(p, '.') || crate::text::count_of(p, ':') >= 2 {
            assert(ip_like(p@));
            assert(first_ip_like(vv(parts@).skip(i as int)) == Some(p@));
            return Some(to_string(p));
        }
        assert(vv(parts@).skip(i as int).drop_first() =~= vv(parts@).skip(i + 1));
        i += 1;
    }
    None
}

/// The address an IP echo service reports in its response body.
pub fn extract_ip_from_body(body: &str) -> (out: Option<String>)
    ensures
        opt_view_s(out) == spec_extract_ip(body@),
{
    let trimmed = crate::text::trim(body);
    let parsed = json_string_field(trimmed.as_str(), "ip");
    ip_from_parsed_body(trimmed.as_str(), parsed)
}

pub open spec fn opt_view_s(o: Option<String>) -> Option<Seq<char>> {
    match o {
        Some(s) => Some(s@),
        None => None,
    }
}

} // verus!
