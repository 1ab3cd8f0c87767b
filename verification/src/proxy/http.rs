//! The HTTP front end: reading a request head, and what is forwarded and answered.
use vstd::prelude::*;
use vstd::slice::slice_subrange;
use vstd::utf8::{decode_utf8, encode_utf8, valid_utf8};

use crate::ipc::{Host, Port};
use crate::net::{socket_text, SocketAddr};
use crate::proxy::events::{DialsItself, Loop, UpstreamDown};
use crate::readback;
use crate::text;
use crate::text::{
    ascii_lowered, begins, decimal, fields, first_of, last_of, line_end, lines, number, trimmed,
    views,
};

verus! {

/// Largest request head the front end reads, in bytes.
pub const HEAD_LIMIT: usize = 8192;

/// What the client asked the front end to do with its connection.
#[derive(Debug, Clone, Copy, PartialEq, Eq, Structural)]
pub enum Method {
    /// `CONNECT host:port`, an opaque tunnel.
    Connect,
    /// Any other method, carrying its authority in the request target or the `Host` header.
    Absolute,
}

/// How much of what arrived behind the head belongs to the request the head opened.
#[derive(Debug, Clone, Copy, PartialEq, Eq, Structural)]
pub enum Body {
    /// A `Content-Length` body; anything past it is a later request.
    Sized(usize),
    /// A body only its own framing delimits, so everything already read belongs to it.
    Streamed,
}

/// The single request one client connection carries.
#[derive(Debug, Clone, PartialEq, Eq)]
pub struct Request {
    /// What is asked for.
    pub method: Method,
    /// Destination host.
    pub host: Host,
    /// Destination port.
    pub port: Port,
    /// What follows the head.
    pub body: Body,
}

/// What one read of the client left in the buffer.
#[derive(Debug, Clone, Copy, PartialEq, Eq, Structural)]
pub struct Head {
    /// Where the head ends.
    pub end: usize,
    /// How much has been read.
    pub read: usize,
}

/// How much of the request body has still to come from the client.
#[derive(Debug, Clone, Copy, PartialEq, Eq, Structural)]
pub enum Rest {
    /// After this many bytes the client has nothing more to say about this request.
    Bytes(usize),
    /// Only the client can end it.
    Streamed,
}

impl Rest {
    /// Returns how many bytes are read from the client at most.
    pub fn limit(self) -> (r: u64)
        ensures
            r == match self {
                Rest::Bytes(bytes) => bytes as u64,
                Rest::Streamed => u64::MAX,
            },
    {
        match self {
            Self::Bytes(bytes) => bytes as u64,
            Self::Streamed => u64::MAX,
        }
    }
}

/// What to do once the client has been read.
#[derive(Debug, Clone, Copy, PartialEq, Eq, Structural)]
pub enum Reading {
    /// Reads on.
    More,
    /// The head is complete.
    Ended(Head),
    /// The client closed, or its head does not fit; the connection ends without a word.
    Abandoned,
}

/// A request as the next hop receives it.
#[derive(Debug, Clone, PartialEq, Eq)]
pub struct Forward {
    /// What is asked for.
    pub method: Method,
    /// Destination host.
    pub host: Host,
    /// Destination port.
    pub port: Port,
    /// The head the origin receives, empty for a tunnel.
    pub head: Vec<u8>,
    /// What has been read of the body.
    pub behind: Vec<u8>,
    /// What has still to be read of it.
    pub rest: Rest,
}

/// Whether an empty line stands at position `i`: two line ends in a row.
pub open spec fn blank_at(buffer: Seq<u8>, i: int) -> bool {
    &&& 0 <= i <= buffer.len() - 4
    &&& buffer[i] == 13
    &&& buffer[i + 1] == 10
    &&& buffer[i + 2] == 13
    &&& buffer[i + 3] == 10
}

/// Whether the first empty line of a buffer ends at `end`.
pub open spec fn ends_at(buffer: Seq<u8>, end: int) -> bool {
    blank_at(buffer, end - 4) && forall|i: int| 0 <= i < end - 4 ==> !#[trigger] blank_at(buffer, i)
}

/// Returns where the head in a buffer ends: behind its first empty line.
pub fn head_end(buffer: &[u8]) -> (r: Option<usize>)
    ensures
        match r {
            Some(end) => ends_at(buffer@, end as int),
            None => forall|i: int| !#[trigger] blank_at(buffer@, i),
        },
{
    let n = buffer.len();
    if n < 4 {
        return None;
    }
    let last: usize = n - 4;
    let mut i: usize = 0;
    while i <= last
        invariant
            n == buffer.len(),
            last == n - 4,
            i <= last + 1,
            forall|j: int| 0 <= j < i ==> !#[trigger] blank_at(buffer@, j),
        decreases last + 1 - i,
    {
        if buffer[i] == 13 && buffer[i + 1] == 10 && buffer[i + 2] == 13 && buffer[i + 3] == 10 {
            assert(blank_at(buffer@, i as int));
            return Some(i + 4);
        }
        i += 1;
    }
    None
}

/// Decides what to do with what has been read of a client, the last read having brought `taken`
/// bytes.
pub fn read_head(buffer: &[u8], taken: usize) -> (r: Reading)
    ensures
        taken == 0 ==> r == Reading::Abandoned,
        taken > 0 ==> match r {
            Reading::Ended(head) => head.read == buffer@.len() && ends_at(
                buffer@,
                head.end as int,
            ),
            Reading::More => buffer@.len() < HEAD_LIMIT && forall|i: int|
                !#[trigger] blank_at(buffer@, i),
            Reading::Abandoned => buffer@.len() >= HEAD_LIMIT && forall|i: int|
                !#[trigger] blank_at(buffer@, i),
        },
{
    if taken == 0 {
        return Reading::Abandoned;
    }
    match head_end(buffer) {
        Some(end) => Reading::Ended(Head { end, read: buffer.len() }),
        None => {
            if buffer.len() >= HEAD_LIMIT {
                Reading::Abandoned
            } else {
                Reading::More
            }
        },
    }
}

/// A request as a value.
pub struct RequestModel {
    /// What is asked for.
    pub method: Method,
    /// Destination host.
    pub host: Seq<char>,
    /// Destination port.
    pub port: u16,
    /// What follows the head.
    pub body: Body,
}

impl Request {
    /// The request as a value.
    pub open spec fn model(&self) -> RequestModel {
        RequestModel {
            method: self.method,
            host: self.host.0@,
            port: self.port.0,
            body: self.body,
        }
    }
}

/// A host that is not empty, and a port.
pub open spec fn named_as(host: Seq<char>, port: Option<u16>) -> Option<(Seq<char>, u16)> {
    match port {
        Some(port) if host.len() > 0 => Some((host, port)),
        _ => None,
    }
}

/// A port that may carry a plus sign.
pub open spec fn port_of(s: Seq<char>) -> Option<u16> {
    match number(s, 0xffff) {
        Some(n) => Some(n as u16),
        None => None,
    }
}

/// Host and port of an authority; a host in brackets may hold colons, and a port left out is the
/// fallback where there is one.
pub open spec fn authority(s: Seq<char>, fallback: Option<u16>) -> Option<(Seq<char>, u16)> {
    if s.len() > 0 && s[0] == '[' {
        let b = s.skip(1);
        let k = first_of(b, ']') as int;
        let rest = b.skip(k + 1);
        if k >= b.len() {
            None
        } else if rest.len() > 0 && rest[0] == ':' {
            named_as(b.take(k), port_of(rest.skip(1)))
        } else {
            named_as(b.take(k), fallback)
        }
    } else {
        let k = last_of(s, ':');
        if k < 0 {
            named_as(s, fallback)
        } else {
            named_as(s.take(k), port_of(s.skip(k + 1)))
        }
    }
}

/// The authority of an absolute target, absent where the target is in another form.
pub open spec fn target_authority(target: Seq<char>) -> Option<Seq<char>> {
    if begins(target, "http://"@) {
        let rest = target.skip("http://"@.len() as int);
        Some(rest.take(first_of(rest, '/') as int))
    } else {
        None
    }
}

/// The path of a target as an origin receives it.
pub open spec fn origin_path(target: Seq<char>) -> Seq<char> {
    if begins(target, "http://"@) {
        let rest = target.skip("http://"@.len() as int);
        if first_of(rest, '/') >= rest.len() {
            "/"@
        } else {
            rest.skip(first_of(rest, '/') as int)
        }
    } else {
        target
    }
}

/// The label of a header line, absent where it has no colon.
pub open spec fn label_of(line: Seq<char>) -> Option<Seq<char>> {
    let k = first_of(line, ':') as int;
    if k >= line.len() {
        None
    } else {
        Some(ascii_lowered(trimmed(line.take(k))))
    }
}

/// The value of the first header line with this label.
pub open spec fn field_value(ls: Seq<Seq<char>>, name: Seq<char>) -> Option<Seq<char>>
    decreases ls.len(),
{
    if ls.len() == 0 {
        None
    } else if label_of(ls[0]) == Some(ascii_lowered(name)) {
        Some(trimmed(ls[0].skip(first_of(ls[0], ':') as int + 1)))
    } else {
        field_value(ls.skip(1), name)
    }
}

/// How the header lines frame the body.
pub open spec fn framing(headers: Seq<char>) -> Body {
    if field_value(lines(headers), "transfer-encoding"@) is Some {
        Body::Streamed
    } else {
        match field_value(lines(headers), "content-length"@) {
            None => Body::Sized(0),
            Some(len) => match number(len, usize::MAX as nat) {
                None => Body::Sized(0),
                Some(len) => Body::Sized(len as usize),
            },
        }
    }
}

/// The request a head opens: a request line of three words, the last naming HTTP, and an authority
/// in the target or, failing that, in the `Host` header.
pub open spec fn request_read(head: Seq<char>) -> Option<RequestModel> {
    let k = line_end(head) as int;
    let f = fields(head.take(k), ' ');
    let headers = head.skip(k + 2);
    if k + 2 > head.len() || f.len() != 3 || !begins(f[2], "HTTP/"@) {
        None
    } else if f[0] == "CONNECT"@ {
        match authority(f[1], None) {
            Some((host, port)) => Some(
                RequestModel { method: Method::Connect, host, port, body: Body::Streamed },
            ),
            None => None,
        }
    } else {
        let written = match target_authority(f[1]) {
            Some(written) => Some(written),
            None => field_value(lines(headers), "host"@),
        };
        match written {
            None => None,
            Some(written) => match authority(written, Some(80u16)) {
                Some((host, port)) => Some(
                    RequestModel { method: Method::Absolute, host, port, body: framing(headers) },
                ),
                None => None,
            },
        }
    }
}

/// Reads the request a head opens.
pub fn parse_head(head: &[u8]) -> (r: Option<Request>)
    ensures
        match r {
            Some(request) => valid_utf8(head@) && request_read(decode_utf8(head@)) == Some(
                request.model(),
            ),
            None => !valid_utf8(head@) || request_read(decode_utf8(head@)) is None,
        },
{
    let head = match text::utf8(head) {
        Some(head) => head,
        None => {
            return None;
        },
    };
    let (line, headers) = match text::split_line(head) {
        Some(split) => split,
        None => {
            return None;
        },
    };
    let f = text::split(line, ' ');
    if f.len() != 3 {
        assert(fields(line@, ' ').len() != 3);
        return None;
    }
    assert(fields(line@, ' ') =~= seq![f@[0]@, f@[1]@, f@[2]@]);
    let method = f[0];
    let target = f[1];
    match text::strip_prefix(f[2], "HTTP/") {
        Some(_) => {},
        None => {
            return None;
        },
    }
    if text::same(method, "CONNECT") {
        return match split_authority(target, None) {
            Some((host, port)) => Some(
                Request { method: Method::Connect, host, port, body: Body::Streamed },
            ),
            None => None,
        };
    }
    let written = match absolute_authority(target) {
        Some(written) => written,
        None => match header(headers, "host") {
            Some(written) => written,
            None => {
                return None;
            },
        },
    };
    match split_authority(written, Some(Port(80))) {
        Some((host, port)) => Some(
            Request { method: Method::Absolute, host, port, body: body_of(headers) },
        ),
        None => None,
    }
}

/// Whether a label belongs to one hop and must not reach the origin.
///
/// `transfer-encoding` is none of them: the body is forwarded with its framing intact, so the
/// origin needs the header that describes it.
pub open spec fn is_hop_by_hop(label: Seq<char>) -> bool {
    ||| label == "connection"@
    ||| label == "proxy-connection"@
    ||| label == "keep-alive"@
    ||| label == "proxy-authenticate"@
    ||| label == "proxy-authorization"@
    ||| label == "te"@
    ||| label == "trailer"@
    ||| label == "upgrade"@
}

/// Whether a header line is forwarded: it has a label, which is neither `Host` nor of one hop.
pub open spec fn survives(line: Seq<char>) -> bool {
    match label_of(line) {
        None => false,
        Some(label) => label != "host"@ && !is_hop_by_hop(label),
    }
}

/// The header lines that are forwarded.
pub open spec fn survivors(ls: Seq<Seq<char>>) -> Seq<Seq<char>>
    decreases ls.len(),
{
    if ls.len() == 0 {
        Seq::empty()
    } else if survives(ls.last()) {
        survivors(ls.drop_last()).push(ls.last())
    } else {
        survivors(ls.drop_last())
    }
}

/// Lines with a line end behind each.
pub open spec fn ended(ls: Seq<Seq<char>>) -> Seq<char>
    decreases ls.len(),
{
    if ls.len() == 0 {
        Seq::empty()
    } else {
        ended(ls.drop_last()) + ls.last() + "\r\n"@
    }
}

/// An authority as the `Host` header names it, the port only where it is not the default.
pub open spec fn host_value(host: Seq<char>, port: u16) -> Seq<char> {
    if port != 80 {
        host + ":"@ + decimal(port as nat)
    } else {
        host
    }
}

/// A head as the origin must receive it.
pub open spec fn rebuilt(head: Seq<char>, host: Seq<char>, port: u16) -> Option<Seq<char>> {
    let k = line_end(head) as int;
    let f = fields(head.take(k), ' ');
    if k + 2 > head.len() || f.len() < 2 {
        None
    } else {
        Some(
            f[0] + " "@ + origin_path(f[1]) + " HTTP/1.1\r\nHost: "@ + host_value(host, port)
                + "\r\n"@ + ended(survivors(lines(head.skip(k + 2)))) + "Connection: close\r\n\r\n"@,
        )
    }
}

fn forwards(line: &str) -> (r: bool)
    ensures
        r == survives(line@),
{
    proof {
        lemma_lowered_literals();
    }
    match text::split_once(line, ':') {
        None => false,
        Some((label, _)) => {
            let label = text::trim(label);
            !text::same_ignoring_case(label, "host") && !hop_by_hop(label)
        },
    }
}

proof fn lemma_lowered_literals()
    ensures
        ascii_lowered("host"@) == "host"@,
        ascii_lowered("connection"@) == "connection"@,
        ascii_lowered("proxy-connection"@) == "proxy-connection"@,
        ascii_lowered("keep-alive"@) == "keep-alive"@,
        ascii_lowered("proxy-authenticate"@) == "proxy-authenticate"@,
        ascii_lowered("proxy-authorization"@) == "proxy-authorization"@,
        ascii_lowered("te"@) == "te"@,
        ascii_lowered("trailer"@) == "trailer"@,
        ascii_lowered("upgrade"@) == "upgrade"@,
{
    reveal_strlit("host");
    reveal_strlit("connection");
    reveal_strlit("proxy-connection");
    reveal_strlit("keep-alive");
    reveal_strlit("proxy-authenticate");
    reveal_strlit("proxy-authorization");
    reveal_strlit("te");
    reveal_strlit("trailer");
    reveal_strlit("upgrade");
    assert(ascii_lowered("host"@) =~= "host"@);
    assert(ascii_lowered("connection"@) =~= "connection"@);
    assert(ascii_lowered("proxy-connection"@) =~= "proxy-connection"@);
    assert(ascii_lowered("keep-alive"@) =~= "keep-alive"@);
    assert(ascii_lowered("proxy-authenticate"@) =~= "proxy-authenticate"@);
    assert(ascii_lowered("proxy-authorization"@) =~= "proxy-authorization"@);
    assert(ascii_lowered("te"@) =~= "te"@);
    assert(ascii_lowered("trailer"@) =~= "trailer"@);
    assert(ascii_lowered("upgrade"@) =~= "upgrade"@);
}

fn hop_by_hop(label: &str) -> (r: bool)
    ensures
        r == is_hop_by_hop(ascii_lowered(label@)),
{
    proof {
        lemma_lowered_literals();
    }
    text::same_ignoring_case(label, "connection") || text::same_ignoring_case(
        label,
        "proxy-connection",
    ) || text::same_ignoring_case(label, "keep-alive") || text::same_ignoring_case(
        label,
        "proxy-authenticate",
    ) || text::same_ignoring_case(label, "proxy-authorization") || text::same_ignoring_case(
        label,
        "te",
    ) || text::same_ignoring_case(label, "trailer") || text::same_ignoring_case(label, "upgrade")
}

/// Rebuilds an absolute-form request as the origin must receive it.
///
/// The target becomes origin-form and `Host` is regenerated from it, which a proxy owes the origin
/// and which forwarding the head unchanged would violate. Hop-by-hop fields are dropped and
/// `Connection: close` is added, so the origin ends the response by closing.
pub fn rewritten(head: &[u8], host: &Host, port: Port) -> (r: Option<Vec<u8>>)
    ensures
        match r {
            Some(out) => valid_utf8(head@) && rebuilt(decode_utf8(head@), host.0@, port.0) is Some
                && out@ == encode_utf8(rebuilt(decode_utf8(head@), host.0@, port.0)->0),
            None => !valid_utf8(head@) || rebuilt(decode_utf8(head@), host.0@, port.0) is None,
        },
{
    let head = match text::utf8(head) {
        Some(head) => head,
        None => {
            return None;
        },
    };
    let (line, headers) = match text::split_line(head) {
        Some(split) => split,
        None => {
            return None;
        },
    };
    let f = text::split(line, ' ');
    if f.len() < 2 {
        assert(fields(line@, ' ').len() < 2);
        return None;
    }
    assert(fields(line@, ' ')[0] == f@[0]@);
    assert(fields(line@, ' ')[1] == f@[1]@);
    let mut out = f[0].to_owned();
    out.append(" ");
    out.append(origin_form(f[1]));
    out.append(" HTTP/1.1\r\nHost: ");
    out.append(host_field(host, port).as_str());
    out.append("\r\n");
    out.append(surviving(headers).as_str());
    out.append("Connection: close\r\n\r\n");
    Some(out.as_str().as_bytes_vec())
}

fn host_field(host: &Host, port: Port) -> (r: String)
    ensures
        r@ == host_value(host.0@, port.0),
{
    let mut r = host.0.clone();
    if port.0 != 80 {
        r.append(":");
        r.append(text::decimal_text(port.0 as u64).as_str());
    }
    r
}

fn surviving(headers: &str) -> (r: String)
    ensures
        r@ == ended(survivors(lines(headers@))),
{
    let ls = text::split_lines(headers);
    let ghost all = lines(headers@);
    let mut r = String::new();
    let mut i: usize = 0;
    assert(all.take(0) =~= Seq::<Seq<char>>::empty());
    while i < ls.len()
        invariant
            views(ls@) == all,
            i <= ls.len(),
            r@ == ended(survivors(all.take(i as int))),
        decreases ls.len() - i,
    {
        let ghost longer = all.take(i + 1);
        assert(longer.drop_last() =~= all.take(i as int));
        assert(longer.last() == ls@[i as int]@);
        if forwards(ls[i]) {
            let ghost before = survivors(all.take(i as int));
            assert(before.push(longer.last()).drop_last() =~= before);
            r.append(ls[i]);
            r.append("\r\n");
        }
        i += 1;
    }
    assert(all.take(i as int) =~= all);
    r
}

/// Returns the path of a target as an origin receives it.
pub fn origin_form(target: &str) -> (r: &str)
    ensures
        r@ == origin_path(target@),
{
    match text::strip_prefix(target, "http://") {
        None => target,
        Some(rest) => {
            let chars = text::chars_of(rest);
            let slash = text::find(&chars, '/');
            if slash >= chars.len() {
                return "/";
            }
            let path = rest.substring_char(slash, chars.len());
            assert(path@ =~= rest@.skip(slash as int));
            path
        },
    }
}

/// Returns how the header lines frame the body.
pub fn body_of(headers: &str) -> (r: Body)
    ensures
        r == framing(headers@),
{
    match header(headers, "transfer-encoding") {
        Some(_) => {
            return Body::Streamed;
        },
        None => {},
    }
    match header(headers, "content-length") {
        None => Body::Sized(0),
        Some(len) => match text::read_number(len, usize::MAX as u64) {
            None => Body::Sized(0),
            Some(len) => Body::Sized(len as usize),
        },
    }
}

/// Returns the authority of an absolute target, absent where the target is in another form.
pub fn absolute_authority(target: &str) -> (r: Option<&str>)
    ensures
        match r {
            Some(written) => target_authority(target@) == Some(written@),
            None => target_authority(target@) is None,
        },
{
    match text::strip_prefix(target, "http://") {
        None => None,
        Some(rest) => {
            let chars = text::chars_of(rest);
            let slash = text::find(&chars, '/');
            let written = rest.substring_char(0, slash);
            assert(written@ =~= rest@.take(slash as int));
            Some(written)
        },
    }
}

/// Returns the value of the first header line with this label.
pub fn header<'a>(headers: &'a str, name: &str) -> (r: Option<&'a str>)
    ensures
        match r {
            Some(value) => field_value(lines(headers@), name@) == Some(value@),
            None => field_value(lines(headers@), name@) is None,
        },
{
    let ls = text::split_lines(headers);
    let ghost all = lines(headers@);
    let mut i: usize = 0;
    assert(all.skip(0) =~= all);
    while i < ls.len()
        invariant
            all == lines(headers@),
            views(ls@) == all,
            i <= ls.len(),
            field_value(all, name@) == field_value(all.skip(i as int), name@),
        decreases ls.len() - i,
    {
        let line: &'a str = ls[i];
        let ghost rest = all.skip(i as int);
        assert(rest[0] == line@);
        assert(rest.skip(1) =~= all.skip(i + 1));
        match text::split_once(line, ':') {
            None => {},
            Some((label, value)) => {
                if text::same_ignoring_case(text::trim(label), name) {
                    return Some(text::trim(value));
                }
            },
        }
        i += 1;
    }
    None
}

fn read_port(s: &str) -> (r: Option<Port>)
    ensures
        r == match port_of(s@) {
            Some(port) => Some(Port(port)),
            None => None,
        },
{
    match text::read_number(s, 0xffff) {
        Some(n) => Some(Port(n as u16)),
        None => None,
    }
}

/// Splits an authority into its host and port.
pub fn split_authority(written: &str, fallback: Option<Port>) -> (r: Option<(Host, Port)>)
    ensures
        ({
            let fallback = match fallback {
                Some(port) => Some(port.0),
                None => None,
            };
            match r {
                Some((host, port)) => authority(written@, fallback) == Some((host.0@, port.0)),
                None => authority(written@, fallback) is None,
            }
        }),
{
    let chars = text::chars_of(written);
    if chars.len() == 0 || chars[0] != '[' {
        return match text::rsplit_once(written, ':') {
            None => named(written, fallback),
            Some((host, port)) => named(host, read_port(port)),
        };
    }
    let bracketed = written.substring_char(1, chars.len());
    assert(bracketed@ =~= written@.skip(1));
    match text::split_once(bracketed, ']') {
        None => None,
        Some((host, rest)) => {
            let tail = text::chars_of(rest);
            if tail.len() == 0 || tail[0] != ':' {
                return named(host, fallback);
            }
            let port = rest.substring_char(1, tail.len());
            assert(port@ =~= rest@.skip(1));
            named(host, read_port(port))
        },
    }
}

fn named(host: &str, port: Option<Port>) -> (r: Option<(Host, Port)>)
    ensures
        ({
            let port = match port {
                Some(port) => Some(port.0),
                None => None,
            };
            match r {
                Some((h, p)) => named_as(host@, port) == Some((h.0@, p.0)),
                None => named_as(host@, port) is None,
            }
        }),
{
    match port {
        None => None,
        Some(port) => {
            if host.is_empty() {
                return None;
            }
            Some((Host(host.to_owned()), port))
        },
    }
}

/// How much of what has been read belongs to a request.
pub open spec fn body_len(rest: nat, method: Method, body: Body) -> nat {
    match (method, body) {
        (Method::Absolute, Body::Sized(len)) => if len <= rest {
            len as nat
        } else {
            rest
        },
        _ => rest,
    }
}

/// Returns the part of what has been read behind a head that belongs to its request.
pub fn behind_the_head(rest: &[u8], method: Method, body: Body) -> (r: &[u8])
    ensures
        r@ == rest@.take(body_len(rest@.len(), method, body) as int),
{
    match method {
        Method::Connect => {
            assert(rest@.take(rest@.len() as int) =~= rest@);
            rest
        },
        Method::Absolute => match body {
            Body::Streamed => {
                assert(rest@.take(rest@.len() as int) =~= rest@);
                rest
            },
            Body::Sized(len) => {
                let len: usize = if len <= rest.len() {
                    len
                } else {
                    rest.len()
                };
                let r = slice_subrange(rest, 0, len);
                assert(r@ =~= rest@.take(len as int));
                r
            },
        },
    }
}

/// What has still to be read of a body of which so many bytes are here.
pub open spec fn outstanding(method: Method, body: Body, here: nat) -> Rest {
    match (method, body) {
        (Method::Absolute, Body::Sized(len)) => if here <= len {
            Rest::Bytes((len - here) as usize)
        } else {
            Rest::Bytes(0)
        },
        _ => Rest::Streamed,
    }
}

/// Returns what has still to be read of a body.
pub fn rest_of_body(method: Method, body: Body, behind: &[u8]) -> (r: Rest)
    ensures
        r == outstanding(method, body, behind@.len()),
{
    match method {
        Method::Connect => Rest::Streamed,
        Method::Absolute => match body {
            Body::Streamed => Rest::Streamed,
            Body::Sized(len) => Rest::Bytes(len.saturating_sub(behind.len())),
        },
    }
}

/// Prepares the request whose head is complete for its next hop, absent where it is malformed.
///
/// Exactly one request is routed per connection, so what the client sends behind its body can never
/// inherit this one's next hop.
pub fn prepare(buffer: &[u8], head: Head) -> (r: Option<Forward>)
    requires
        head.end <= head.read <= buffer@.len(),
    ensures
        ({
            let text = decode_utf8(buffer@.take(head.end as int));
            let behind = buffer@.subrange(head.end as int, head.read as int);
            match r {
                Some(forward) => {
                    &&& valid_utf8(buffer@.take(head.end as int))
                    &&& request_read(text) matches Some(request) && {
                        &&& forward.method == request.method
                        &&& forward.host.0@ == request.host
                        &&& forward.port.0 == request.port
                        &&& forward.head@ == match request.method {
                            Method::Connect => Seq::<u8>::empty(),
                            Method::Absolute => encode_utf8(
                                rebuilt(text, request.host, request.port)->0,
                            ),
                        }
                        &&& forward.behind@ == behind.take(
                            body_len(behind.len(), request.method, request.body) as int,
                        )
                        &&& forward.rest == outstanding(
                            request.method,
                            request.body,
                            forward.behind@.len(),
                        )
                    }
                },
                None => !valid_utf8(buffer@.take(head.end as int)) || request_read(text) is None,
            }
        }),
{
    let written = slice_subrange(buffer, 0, head.end);
    assert(written@ =~= buffer@.take(head.end as int));
    let Request { method, host, port, body } = match parse_head(written) {
        Some(request) => request,
        None => {
            return None;
        },
    };
    let behind = behind_the_head(slice_subrange(buffer, head.end, head.read), method, body);
    let rebuilt: Vec<u8> = match method {
        Method::Connect => Vec::new(),
        Method::Absolute => match rewritten(written, &host, port) {
            Some(rebuilt) => rebuilt,
            None => {
                return None;
            },
        },
    };
    let rest = rest_of_body(method, body, behind);
    Some(Forward { method, host, port, head: rebuilt, behind: vstd::slice::slice_to_vec(behind), rest })
}

/// An answer of the front end itself: a status, a text and the end of the connection.
pub open spec fn answer(status: Seq<char>, body: Seq<char>) -> Seq<char> {
    "HTTP/1.1 "@ + status + "\r\nContent-Type: text/plain\r\nContent-Length: "@ + decimal(
        encode_utf8(body).len() as usize as nat,
    ) + "\r\nConnection: close\r\n\r\n"@ + body
}

fn respond(status: &str, body: &str) -> (r: Vec<u8>)
    ensures
        r@ == encode_utf8(answer(status@, body@)),
{
    let mut out = "HTTP/1.1 ".to_owned();
    out.append(status);
    out.append("\r\nContent-Type: text/plain\r\nContent-Length: ");
    out.append(text::decimal_text(body.len() as u64).as_str());
    out.append("\r\nConnection: close\r\n\r\n");
    out.append(body);
    out.as_str().as_bytes_vec()
}

/// Returns the answer to a request that cannot be read.
pub fn malformed() -> (r: Vec<u8>)
    ensures
        r@ == encode_utf8(answer("400 Bad Request"@, "nhop: malformed request"@)),
{
    respond("400 Bad Request", "nhop: malformed request")
}

/// The answer to a request for the front end itself, which was reached on this address.
pub open spec fn loop_answer(listening: SocketAddr) -> Seq<char> {
    answer(
        "502 Bad Gateway"@,
        "nhop: refusing to dial my own listening address "@ + socket_text(listening),
    )
}

/// The answer to a request whose dial failed.
pub open spec fn failure_answer(
    down: Option<UpstreamDown>,
    host: Seq<char>,
    port: u16,
) -> Seq<char> {
    answer(
        "502 Bad Gateway"@,
        match down {
            Some(down) => "nhop: upstream "@ + socket_text(down.upstream())
                + " is down (require rule "@ + decimal(down.required_by().0 as nat) + ")"@,
            None => "nhop: cannot reach "@ + host + ":"@ + decimal(port as nat),
        },
    )
}

/// What a request that can be served is answered with by the front end itself: nothing where the
/// answer is the destination's.
pub open spec fn replied(
    looped: Loop,
    dialled: Result<(), Option<UpstreamDown>>,
    method: Method,
    host: Seq<char>,
    port: u16,
) -> Option<Seq<char>> {
    match looped {
        Loop::Own(listening) => Some(loop_answer(listening)),
        Loop::Elsewhere => match (dialled, method) {
            (Err(down), _) => Some(failure_answer(down, host, port)),
            (Ok(_), Method::Connect) => Some("HTTP/1.1 200 Connection established\r\n\r\n"@),
            (Ok(_), Method::Absolute) => None,
        },
    }
}

/// Returns the answer to a request for the front end itself.
pub fn refuse_loop(refusal: &DialsItself) -> (r: Vec<u8>)
    ensures
        r@ == encode_utf8(loop_answer(refusal.addr())),
{
    respond("502 Bad Gateway", refusal.message().as_str())
}

/// Returns the answer to a request whose dial failed: the refusal it carries where an upstream is
/// down, otherwise the destination that cannot be reached.
pub fn refuse(down: Option<UpstreamDown>, host: &Host, port: Port) -> (r: Vec<u8>)
    ensures
        r@ == encode_utf8(failure_answer(down, host.0@, port.0)),
{
    match down {
        Some(down) => respond("502 Bad Gateway", down.message().as_str()),
        None => {
            let mut body = "nhop: cannot reach ".to_owned();
            body.append(host.0.as_str());
            body.append(":");
            body.append(text::decimal_text(port.0 as u64).as_str());
            respond("502 Bad Gateway", body.as_str())
        },
    }
}

/// Returns the answer that opens a tunnel.
pub fn established() -> (r: Vec<u8>)
    ensures
        r@ == encode_utf8("HTTP/1.1 200 Connection established\r\n\r\n"@),
{
    "HTTP/1.1 200 Connection established\r\n\r\n".as_bytes_vec()
}

/// Returns what a request that can be served is answered with by the front end itself, once the
/// destination has been dialled or, where it is the front end itself, turned away without a dial.
pub fn reply(
    looped: Loop,
    dialled: Result<(), Option<UpstreamDown>>,
    method: Method,
    host: &Host,
    port: Port,
) -> (r: Option<Vec<u8>>)
    ensures
        match replied(looped, dialled, method, host.0@, port.0) {
            Some(text) => r matches Some(bytes) && bytes@ == encode_utf8(text),
            None => r is None,
        },
{
    match looped {
        Loop::Own(listening) => Some(refuse_loop(&DialsItself::new(listening))),
        Loop::Elsewhere => match dialled {
            Err(down) => Some(refuse(down, host, port)),
            Ok(_) => match method {
                Method::Connect => Some(established()),
                Method::Absolute => None,
            },
        },
    }
}

/// The end of a head does not move when more bytes arrive.
pub proof fn law_the_head_end_stays(buffer: Seq<u8>, more: Seq<u8>, end: int)
    requires
        ends_at(buffer, end),
    ensures
        ends_at(buffer + more, end),
{
    let longer = buffer + more;
    assert(blank_at(longer, end - 4));
    assert forall|i: int| 0 <= i < end - 4 implies !#[trigger] blank_at(longer, i) by {
        assert(!blank_at(buffer, i));
    }
}

/// Of a body with a length, what is forwarded from the buffer and what is still read from the
/// client make up exactly that length, and nothing behind it is forwarded.
pub proof fn law_a_sized_body_is_forwarded_exactly(here: nat, len: usize)
    ensures
        outstanding(Method::Absolute, Body::Sized(len), body_len(here, Method::Absolute, Body::Sized(len)))
            matches Rest::Bytes(more) && body_len(here, Method::Absolute, Body::Sized(len)) + more
            == len,
{
}

proof fn lemma_ended_lines(ls: Seq<Seq<char>>, tail: Seq<char>)
    requires
        forall|i: int| 0 <= i < ls.len() ==> line_end(#[trigger] ls[i]) == ls[i].len(),
    ensures
        lines(ended(ls) + tail) == ls + lines(tail),
    decreases ls.len(),
{
    if ls.len() == 0 {
        assert(ended(ls) + tail =~= tail);
        assert(ls + lines(tail) =~= lines(tail));
    } else {
        let shorter = ls.drop_last();
        let last = ls.last();
        assert(line_end(ls[ls.len() - 1]) == ls[ls.len() - 1].len());
        let rest = last + "\r\n"@ + tail;
        assert forall|i: int| 0 <= i < shorter.len() implies line_end(#[trigger] shorter[i])
            == shorter[i].len() by {
            assert(shorter[i] == ls[i]);
        }
        lemma_ended_lines(shorter, rest);
        text::lemma_lines_prepend(last, tail);
        assert(ended(ls) + tail =~= ended(shorter) + rest);
        assert(shorter + (seq![last] + lines(tail)) =~= ls + lines(tail));
    }
}

proof fn lemma_survivors(ls: Seq<Seq<char>>, i: int)
    requires
        0 <= i < survivors(ls).len(),
    ensures
        survives(survivors(ls)[i]),
        ls.contains(survivors(ls)[i]),
    decreases ls.len(),
{
    let shorter = ls.drop_last();
    if survives(ls.last()) && i == survivors(ls).len() - 1 {
        assert(ls[ls.len() - 1] == ls.last());
    } else {
        lemma_survivors(shorter, i);
        let j = choose|j: int| 0 <= j < shorter.len() && shorter[j] == survivors(shorter)[i];
        assert(ls[j] == survivors(ls)[i]);
    }
}

proof fn lemma_decimal_holds_no_line_end(n: nat)
    ensures
        line_end(decimal(n)) == decimal(n).len(),
        decimal(n).len() > 0,
        decimal(n)[0] != '\n',
{
    text::law_decimal_reads_back(n);
    let s = decimal(n);
    assert(text::is_digit(s[0]));
    assert forall|j: int| 0 <= j < s.len() && j + 1 < s.len() implies !(#[trigger] s[j] == '\r'
        && s[j + 1] == '\n') by {
        assert(text::is_digit(s[j]));
    }
    text::lemma_line_end_is(s, s.len() as int);
}

proof fn lemma_host_value_holds_no_line_end(host: Seq<char>, port: u16)
    requires
        line_end(host) == host.len(),
    ensures
        line_end(host_value(host, port)) == host_value(host, port).len(),
{
    if port != 80 {
        reveal_strlit(":");
        text::lemma_line_end_is(":"@, 1);
        text::lemma_joined_holds_no_line_end(host, ":"@);
        lemma_decimal_holds_no_line_end(port as nat);
        text::lemma_joined_holds_no_line_end(host + ":"@, decimal(port as nat));
    }
}

proof fn lemma_request_line_holds_no_line_end(method: Seq<char>, target: Seq<char>)
    requires
        line_end(method) == method.len(),
        line_end(target) == target.len(),
    ensures
        line_end(method + " "@ + origin_path(target) + " HTTP/1.1"@) == (method + " "@
            + origin_path(target) + " HTTP/1.1"@).len(),
{
    reveal_strlit(" ");
    reveal_strlit("/");
    reveal_strlit(" HTTP/1.1");
    reveal_strlit("http://");
    let path = origin_path(target);
    if begins(target, "http://"@) {
        let rest = target.skip(7);
        text::lemma_first_of(rest, '/');
        let k = first_of(rest, '/') as int;
        if k < rest.len() {
            assert(path =~= target.subrange(7 + k, target.len() as int));
            text::lemma_part_holds_no_line_end(target, 7 + k, target.len() as int);
        } else {
            text::lemma_line_end_is("/"@, 1);
        }
    }
    text::lemma_line_end_is(" HTTP/1.1"@, " HTTP/1.1"@.len() as int);
    text::lemma_joined_holds_no_line_end(path, " HTTP/1.1"@);
    text::lemma_line_end_is(" "@, 1);
    text::lemma_joined_holds_no_line_end(method, " "@);
    text::lemma_line_end(method + " "@);
    let a = method + " "@;
    let b = path + " HTTP/1.1"@;
    let s = a + b;
    text::lemma_line_end(a);
    text::lemma_line_end(b);
    assert forall|j: int| 0 <= j < s.len() && j + 1 < s.len() implies !(#[trigger] s[j] == '\r'
        && s[j + 1] == '\n') by {
        if j + 1 < a.len() {
            assert(s[j] == a[j] && s[j + 1] == a[j + 1]);
        } else if j >= a.len() {
            assert(s[j] == b[j - a.len()] && s[j + 1] == b[j - a.len() + 1]);
        } else {
            assert(s[j] == ' ');
        }
    }
    text::lemma_line_end_is(s, s.len() as int);
    assert(s =~= method + " "@ + path + " HTTP/1.1"@);
}

/// A rebuilt head is the request line, one `Host` line, the header lines of the request that
/// survive in their order, `Connection: close` and an empty line. No forwarded line names a host or
/// belongs to one hop.
pub proof fn law_a_rebuilt_head_line_by_line(head: Seq<char>, host: Seq<char>, port: u16)
    requires
        rebuilt(head, host, port) is Some,
        line_end(host) == host.len(),
    ensures
        ({
            let f = fields(head.take(line_end(head) as int), ' ');
            let kept = survivors(lines(head.skip(line_end(head) as int + 2)));
            &&& lines(rebuilt(head, host, port)->0) == seq![
                f[0] + " "@ + origin_path(f[1]) + " HTTP/1.1"@,
                "Host: "@ + host_value(host, port),
            ] + kept + seq!["Connection: close"@, Seq::<char>::empty(), Seq::<char>::empty()]
            &&& forall|i: int| 0 <= i < kept.len() ==> survives(#[trigger] kept[i])
        }),
{
    let k = line_end(head) as int;
    let f = fields(head.take(k), ' ');
    let headers = lines(head.skip(k + 2));
    let kept = survivors(headers);
    let value = host_value(host, port);
    let first = f[0] + " "@ + origin_path(f[1]) + " HTTP/1.1"@;
    let second = "Host: "@ + value;
    reveal_strlit(" HTTP/1.1\r\nHost: ");
    reveal_strlit(" HTTP/1.1");
    reveal_strlit("Host: ");
    reveal_strlit("\r\n");
    reveal_strlit("Connection: close\r\n\r\n");
    reveal_strlit("Connection: close");
    lemma_host_value_holds_no_line_end(host, port);
    text::lemma_line_end(head);
    let line = head.take(k);
    assert(line =~= head.subrange(0, k));
    text::lemma_line_end(line);
    assert forall|j: int| 0 <= j < line.len() && j + 1 < line.len() implies !(#[trigger] line[j]
        == '\r' && line[j + 1] == '\n') by {
        assert(line[j] == head[j] && line[j + 1] == head[j + 1]);
    }
    text::lemma_line_end_is(line, k);
    text::lemma_fields_hold_no_line_end(line, ' ', 0);
    text::lemma_fields_hold_no_line_end(line, ' ', 1);
    lemma_request_line_holds_no_line_end(f[0], f[1]);
    assert forall|i: int| 0 <= i < kept.len() implies survives(#[trigger] kept[i]) && line_end(
        kept[i],
    ) == kept[i].len() by {
        lemma_survivors(headers, i);
        let j = choose|j: int| 0 <= j < headers.len() && headers[j] == kept[i];
        text::lemma_lines_hold_no_line_end(head.skip(k + 2), j);
    }
    let none = Seq::<char>::empty();
    let tail = "Connection: close"@ + "\r\n"@ + (none + "\r\n"@ + none);
    text::lemma_line_end_is("Connection: close"@, "Connection: close"@.len() as int);
    text::lemma_lines_prepend("Connection: close"@, none + "\r\n"@ + none);
    text::lemma_lines_prepend(none, none);
    assert(lines(none) =~= seq![none]);
    assert("Connection: close\r\n\r\n"@ =~= tail);
    lemma_ended_lines(kept, tail);
    text::lemma_line_end(value);
    assert forall|j: int| 0 <= j < second.len() && j + 1 < second.len() implies !(#[trigger] second[j]
        == '\r' && second[j + 1] == '\n') by {
        if j >= 6 {
            assert(second[j] == value[j - 6] && second[j + 1] == value[j - 5]);
        }
    }
    text::lemma_line_end_is(second, second.len() as int);
    let behind = ended(kept) + tail;
    text::lemma_lines_prepend(second, behind);
    text::lemma_lines_prepend(first, second + "\r\n"@ + behind);
    let whole = first + "\r\n"@ + (second + "\r\n"@ + behind);
    assert(" HTTP/1.1\r\nHost: "@ =~= " HTTP/1.1"@ + "\r\n"@ + "Host: "@);
    assert(rebuilt(head, host, port)->0 =~= whole);
    assert(lines(whole) =~= seq![first, second] + kept + seq!["Connection: close"@, none, none]);
}

proof fn lemma_survivors_of_both(a: Seq<Seq<char>>, b: Seq<Seq<char>>)
    ensures
        survivors(a + b) == survivors(a) + survivors(b),
    decreases b.len(),
{
    if b.len() == 0 {
        assert(a + b =~= a);
        assert(survivors(a) + survivors(b) =~= survivors(a));
    } else {
        lemma_survivors_of_both(a, b.drop_last());
        assert((a + b).drop_last() =~= a + b.drop_last());
        assert((a + b).last() == b.last());
        assert(survivors(a + b) =~= survivors(a) + survivors(b));
    }
}

proof fn lemma_one_survivor(line: Seq<char>)
    ensures
        survivors(seq![line]) == if survives(line) {
            seq![line]
        } else {
            Seq::empty()
        },
{
    let ls = seq![line];
    assert(ls.drop_last() =~= Seq::<Seq<char>>::empty());
    reveal_with_fuel(survivors, 2);
    assert(survivors(ls) =~= if survives(line) {
        seq![line]
    } else {
        Seq::empty()
    });
}

/// The label of a header line is what stands before its first colon, without white space round it
/// and without its case; a line without a colon has none.
pub proof fn law_the_label_stands_before_the_colon(label: Seq<char>, rest: Seq<char>)
    requires
        !label.contains(':'),
    ensures
        label_of(label.push(':') + rest) == Some(ascii_lowered(trimmed(label))),
        label_of(label) is None,
{
    let line = label.push(':') + rest;
    let k = label.len() as int;
    assert forall|j: int| 0 <= j < k implies label[j] != ':' by {
        assert(label.contains(label[j]));
    }
    assert forall|j: int| 0 <= j < k implies line[j] != ':' by {
        assert(line[j] == label[j]);
    }
    assert(line[k] == ':');
    text::lemma_first_of_is(line, ':', k);
    text::lemma_first_of_is(label, ':', k);
    assert(line.take(k) =~= label);
}

/// Every header line of a request is forwarded as it stands and where it stands, unless it names the
/// host or one of the eight headers that are for one hop alone; those, and lines without a colon, are
/// left out, and so is nothing else.
pub proof fn law_every_header_but_those_for_one_hop_is_forwarded(
    before: Seq<Seq<char>>,
    label: Seq<char>,
    rest: Seq<char>,
    after: Seq<Seq<char>>,
)
    requires
        !label.contains(':'),
    ensures
        ({
            let line = label.push(':') + rest;
            let name = ascii_lowered(trimmed(label));
            survivors(before + seq![line] + after) == if name == "host"@ || name == "connection"@ || name
                == "proxy-connection"@ || name == "keep-alive"@ || name == "proxy-authenticate"@
                || name == "proxy-authorization"@ || name == "te"@ || name == "trailer"@ || name
                == "upgrade"@ {
                survivors(before) + survivors(after)
            } else {
                survivors(before) + seq![line] + survivors(after)
            }
        }),
        survivors(before + seq![label] + after) == survivors(before) + survivors(after),
        survivors(Seq::empty()) == Seq::<Seq<char>>::empty(),
{
    let line = label.push(':') + rest;
    law_the_label_stands_before_the_colon(label, rest);
    lemma_survivors_of_both(before + seq![line], after);
    lemma_survivors_of_both(before, seq![line]);
    lemma_one_survivor(line);
    lemma_survivors_of_both(before + seq![label], after);
    lemma_survivors_of_both(before, seq![label]);
    lemma_one_survivor(label);
    assert(survivors(before) + Seq::<Seq<char>>::empty() =~= survivors(before));
}

/// Of several header lines with one label the first counts, and its value is what stands behind the
/// colon without white space round it; a name no line carries has no value.
pub proof fn law_the_first_header_of_a_name_counts(
    before: Seq<Seq<char>>,
    label: Seq<char>,
    value: Seq<char>,
    after: Seq<Seq<char>>,
    name: Seq<char>,
)
    requires
        !label.contains(':'),
        ascii_lowered(trimmed(label)) == ascii_lowered(name),
        forall|i: int|
            0 <= i < before.len() ==> label_of(#[trigger] before[i]) != Some(ascii_lowered(name)),
    ensures
        field_value(before + seq![label.push(':') + value] + after, name) == Some(trimmed(value)),
        field_value(before, name) is None,
    decreases before.len(),
{
    let line = label.push(':') + value;
    let all = before + seq![line] + after;
    if before.len() == 0 {
        law_the_label_stands_before_the_colon(label, value);
        assert(all[0] == line);
        let k = label.len() as int;
        assert forall|j: int| 0 <= j < k implies line[j] != ':' by {
            assert(label.contains(label[j]));
        }
        assert(line[k] == ':');
        text::lemma_first_of_is(line, ':', k);
        assert(line.skip(k + 1) =~= value);
    } else {
        let rest = before.skip(1);
        assert forall|i: int| 0 <= i < rest.len() implies label_of(#[trigger] rest[i]) != Some(
            ascii_lowered(name),
        ) by {
            assert(rest[i] == before[i + 1]);
        }
        law_the_first_header_of_a_name_counts(rest, label, value, after, name);
        assert(all[0] == before[0]);
        assert(all.skip(1) =~= rest + seq![line] + after);
    }
}

/// How long a body is: without a header that says so it is empty, a length in decimal is that many
/// bytes, and a transfer encoding makes it last as long as the connection, whatever else is said.
pub proof fn law_how_long_a_body_is(headers: Seq<char>, n: nat)
    ensures
        field_value(lines(headers), "transfer-encoding"@) is Some ==> framing(headers)
            == Body::Streamed,
        field_value(lines(headers), "transfer-encoding"@) is None && field_value(
            lines(headers),
            "content-length"@,
        ) is None ==> framing(headers) == Body::Sized(0),
        field_value(lines(headers), "transfer-encoding"@) is None && field_value(
            lines(headers),
            "content-length"@,
        ) == Some(decimal(n)) && n <= usize::MAX ==> framing(headers) == Body::Sized(n as usize),
{
    text::law_decimal_reads_back(n);
}

/// The bytes behind a head are taken for the body as far as they belong to it: all of them for a
/// tunnel and a body without a length, otherwise as many as its length says. What is still read from
/// the client is the rest of that length, or everything there is.
pub proof fn law_what_of_the_body_is_forwarded(here: nat, len: usize, method: Method, body: Body)
    ensures
        body_len(here, Method::Connect, body) == here,
        body_len(here, method, Body::Streamed) == here,
        body_len(here, Method::Absolute, Body::Sized(len)) == if here <= len {
            here
        } else {
            len as nat
        },
        outstanding(Method::Connect, body, here) == Rest::Streamed,
        outstanding(method, Body::Streamed, here) == Rest::Streamed,
        here <= len ==> outstanding(Method::Absolute, Body::Sized(len), here) == Rest::Bytes(
            (len - here) as usize,
        ),
{
}

/// A head ends behind the first empty line: a carriage return and a line feed, twice.
pub proof fn law_a_head_ends_behind_the_first_empty_line(buffer: Seq<u8>, i: int, end: int)
    ensures
        0 <= i && i + 4 <= buffer.len() ==> (blank_at(buffer, i) <==> buffer.subrange(i, i + 4)
            == seq![13u8, 10, 13, 10]),
        !(0 <= i && i + 4 <= buffer.len()) ==> !blank_at(buffer, i),
        ends_at(buffer, end) <==> 4 <= end <= buffer.len() && buffer.subrange(end - 4, end) == seq![
            13u8,
            10,
            13,
            10,
        ] && forall|j: int|
            0 <= j < end - 4 ==> #[trigger] buffer.subrange(j, j + 4) != seq![13u8, 10, 13, 10],
        HEAD_LIMIT == 8 * 1024,
{
    let blank = seq![13u8, 10, 13, 10];
    assert forall|j: int| 0 <= j && j + 4 <= buffer.len() implies (#[trigger] blank_at(buffer, j)
        <==> buffer.subrange(j, j + 4) == blank) by {
        let four = buffer.subrange(j, j + 4);
        assert(four[0] == buffer[j] && four[1] == buffer[j + 1] && four[2] == buffer[j + 2] && four[3]
            == buffer[j + 3]);
        if blank_at(buffer, j) {
            assert(four =~= blank);
        }
    }
    if ends_at(buffer, end) {
        assert forall|j: int| 0 <= j < end - 4 implies #[trigger] buffer.subrange(j, j + 4)
            != blank by {
            assert(!blank_at(buffer, j));
        }
    }
    if 4 <= end <= buffer.len() && buffer.subrange(end - 4, end) == blank && forall|j: int|
        0 <= j < end - 4 ==> #[trigger] buffer.subrange(j, j + 4) != blank {
        assert(blank_at(buffer, end - 4));
        assert forall|j: int| 0 <= j < end - 4 implies !#[trigger] blank_at(buffer, j) by {
            assert(buffer.subrange(j, j + 4) != blank);
        }
    }
}

/// What is asked of the origin is the path behind the authority, a slash where there is none; a
/// target that is no absolute one stays as it is.
#[verifier::spinoff_prover]
pub proof fn law_the_origin_is_asked_for_the_path(
    authority: Seq<char>,
    path: Seq<char>,
    target: Seq<char>,
)
    requires
        !authority.contains('/'),
    ensures
        origin_path("http://"@ + authority + "/"@ + path) == "/"@ + path,
        origin_path("http://"@ + authority) == "/"@,
        target_authority("http://"@ + authority + "/"@ + path) == Some(authority),
        target_authority("http://"@ + authority) == Some(authority),
        (target.len() < 7 || target.take(7) != "http://"@) ==> origin_path(target) == target
            && target_authority(target) is None,
{
    reveal_strlit("http://");
    reveal_strlit("/");
    let scheme = "http://"@;
    let with = scheme + authority + "/"@ + path;
    let bare = scheme + authority;
    text::law_beginnings_and_endings(scheme, authority + "/"@ + path);
    assert(with =~= scheme + (authority + "/"@ + path));
    text::law_beginnings_and_endings(scheme, authority);
    let rest = with.skip(7);
    assert(rest =~= authority + "/"@ + path);
    let k = authority.len() as int;
    assert forall|j: int| 0 <= j < k implies authority[j] != '/' by {
        assert(authority.contains(authority[j]));
    }
    assert forall|j: int| 0 <= j < k implies rest[j] != '/' by {
        assert(rest[j] == authority[j]);
    }
    assert(rest[k] == '/');
    text::lemma_first_of_is(rest, '/', k);
    assert(rest.skip(k) =~= "/"@ + path);
    assert(rest.take(k) =~= authority);
    assert(bare.skip(7) =~= authority);
    text::lemma_first_of_is(authority, '/', k);
    assert(authority.take(k) =~= authority);
    if begins(target, scheme) {
        assert(target.subrange(0, 7) =~= target.take(7));
    }
}

/// The origin is named as the client named it, with its port unless that is the one HTTP has.
pub proof fn law_the_origin_is_named_with_its_port(host: Seq<char>, port: u16)
    ensures
        host_value(host, 80) == host,
        port != 80 ==> host_value(host, port) == host + ":"@ + decimal(port as nat),
{
}

/// An authority is a host and, behind the last colon, a port; one in brackets may hold colons. Where
/// no port is named the fallback is taken, and an empty host or a number that is no port is nothing.
#[verifier::spinoff_prover]
pub proof fn law_an_authority_is_a_host_and_a_port(
    host: Seq<char>,
    n: nat,
    fallback: Option<u16>,
)
    ensures
        host.len() > 0 && host[0] != '[' ==> authority(host + ":"@ + decimal(n), fallback) == if n
            <= 65535 {
            Some((host, n as u16))
        } else {
            None
        },
        host.len() > 0 && host[0] != '[' && !host.contains(':') ==> authority(host, fallback)
            == match fallback {
            Some(port) => Some((host, port)),
            None => None,
        },
        host.len() > 0 && !host.contains(']') ==> authority("["@ + host + "]:"@ + decimal(n), fallback)
            == if n <= 65535 {
            Some((host, n as u16))
        } else {
            None
        },
        host.len() > 0 && !host.contains(']') ==> authority("["@ + host + "]"@, fallback)
            == match fallback {
            Some(port) => Some((host, port)),
            None => None,
        },
        authority(":"@ + decimal(n), fallback) is None,
        authority(Seq::empty(), fallback) is None,
{
    lemma_plain_authority(host, n, fallback);
    lemma_bracketed_authority(host, n, fallback);
    lemma_plain_authority(Seq::empty(), n, fallback);
    assert(Seq::<char>::empty() + ":"@ + decimal(n) =~= ":"@ + decimal(n));
}

proof fn lemma_port_of(n: nat)
    ensures
        port_of(decimal(n)) == if n <= 65535 {
            Some(n as u16)
        } else {
            None
        },
        forall|j: int| 0 <= j < decimal(n).len() ==> #[trigger] decimal(n)[j] != ':',
{
    let d = decimal(n);
    text::law_decimal_reads_back(n);
    text::law_what_a_number_is(d, 0xffff);
    assert forall|j: int| 0 <= j < d.len() implies #[trigger] d[j] != ':' && '0' <= d[j] && d[j]
        <= '9' by {
        assert(text::is_digit(d[j]));
    }
}

proof fn lemma_plain_authority(host: Seq<char>, n: nat, fallback: Option<u16>)
    ensures
        host.len() == 0 || host[0] != '[' ==> authority(host + ":"@ + decimal(n), fallback) == if n
            <= 65535 && host.len() > 0 {
            Some((host, n as u16))
        } else {
            None
        },
        (host.len() == 0 || host[0] != '[') && !host.contains(':') ==> authority(host, fallback)
            == named_as(host, fallback),
{
    reveal_strlit(":");
    lemma_port_of(n);
    let d = decimal(n);
    let k = host.len() as int;
    let plain = host + ":"@ + d;
    assert(plain[k] == ':');
    assert forall|j: int| k < j < plain.len() implies plain[j] != ':' by {
        assert(plain[j] == d[j - k - 1]);
    }
    text::lemma_last_of_is(plain, ':', k);
    assert(plain.take(k) =~= host);
    assert(plain.skip(k + 1) =~= d);
    if k > 0 {
        assert(plain[0] == host[0]);
    }
    if !host.contains(':') {
        assert forall|j: int| -1 < j < host.len() implies host[j] != ':' by {
            assert(host.contains(host[j]));
        }
        text::lemma_last_of_is(host, ':', -1);
    }
}

#[verifier::spinoff_prover]
proof fn lemma_bracketed_authority(host: Seq<char>, n: nat, fallback: Option<u16>)
    ensures
        host.len() > 0 && !host.contains(']') ==> authority("["@ + host + "]:"@ + decimal(n), fallback)
            == if n <= 65535 {
            Some((host, n as u16))
        } else {
            None
        },
        host.len() > 0 && !host.contains(']') ==> authority("["@ + host + "]"@, fallback) == named_as(
            host,
            fallback,
        ),
{
    reveal_strlit(":");
    reveal_strlit("[");
    reveal_strlit("]");
    reveal_strlit("]:");
    if host.len() > 0 && !host.contains(']') {
        lemma_port_of(n);
        let d = decimal(n);
        let k = host.len() as int;
        lemma_lacks(host, ']');
        let full = "["@ + host + "]:"@ + d;
        let b = full.skip(1);
        assert(b =~= host + "]:"@ + d);
        assert(b[k] == ']' && b[k + 1] == ':');
        text::lemma_first_of_is(b, ']', k);
        assert(b.take(k) =~= host);
        assert(b.skip(k + 1) =~= ":"@ + d);
        assert(b.skip(k + 1).skip(1) =~= d);
        assert(full[0] == '[');
        let short = "["@ + host + "]"@;
        let c = short.skip(1);
        assert(c =~= host + "]"@);
        text::lemma_first_of_is(c, ']', k);
        assert(c.take(k) =~= host);
        assert(c.skip(k + 1) =~= Seq::<char>::empty());
        assert(short[0] == '[');
    }
}

/// Whether a text can stand in a request line: no space and no carriage return.
pub open spec fn is_word(s: Seq<char>) -> bool {
    !s.contains(' ') && !s.contains('\r')
}

#[verifier::spinoff_prover]
proof fn lemma_request_line(m: Seq<char>, t: Seq<char>, v: Seq<char>, rest: Seq<char>)
    requires
        is_word(m),
        is_word(t),
        is_word(v),
    ensures
        ({
            let head = m + " "@ + t + " "@ + v + "\r\n"@ + rest;
            let k = line_end(head) as int;
            &&& k + 2 <= head.len()
            &&& fields(head.take(k), ' ') == seq![m, t, v]
            &&& head.skip(k + 2) == rest
        }),
{
    reveal_strlit(" ");
    reveal_strlit("\r\n");
    let line = m + " "@ + t + " "@ + v;
    let head = m + " "@ + t + " "@ + v + "\r\n"@ + rest;
    let k = line.len() as int;
    assert forall|j: int| 0 <= j < k implies head[j] != '\r' by {
        if j < m.len() {
            assert(m.contains(m[j]));
        } else if m.len() < j < m.len() + 1 + t.len() {
            assert(t.contains(t[j - m.len() - 1]));
        } else if j > m.len() + 1 + t.len() {
            assert(v.contains(v[j - m.len() - t.len() - 2]));
        }
    }
    assert(head[k] == '\r' && head[k + 1] == '\n');
    text::lemma_line_end_is(head, k);
    assert(head.take(k) =~= line);
    assert(head.skip(k + 2) =~= rest);
    lemma_lacks(m, ' ');
    lemma_lacks(t, ' ');
    lemma_lacks(v, ' ');
    assert(" "@ =~= seq![' ']);
    readback::lemma_no_field_ends(m, ' ');
    readback::lemma_fields_append(m, t, ' ');
    readback::lemma_fields_append(m + seq![' '] + t, v, ' ');
    assert(seq![m].push(t).push(v) =~= seq![m, t, v]);
}

/// What a request line of three words and the headers behind it are read as.
spec fn words_read(
    m: Seq<char>,
    t: Seq<char>,
    v: Seq<char>,
    headers: Seq<char>,
) -> Option<RequestModel> {
    if !begins(v, "HTTP/"@) {
        None
    } else if m == "CONNECT"@ {
        match authority(t, None) {
            Some((host, port)) => Some(
                RequestModel { method: Method::Connect, host, port, body: Body::Streamed },
            ),
            None => None,
        }
    } else {
        let written = match target_authority(t) {
            Some(written) => Some(written),
            None => field_value(lines(headers), "host"@),
        };
        match written {
            None => None,
            Some(written) => match authority(written, Some(80u16)) {
                Some((host, port)) => Some(
                    RequestModel { method: Method::Absolute, host, port, body: framing(headers) },
                ),
                None => None,
            },
        }
    }
}

proof fn lemma_words_read(
    head: Seq<char>,
    m: Seq<char>,
    t: Seq<char>,
    v: Seq<char>,
    headers: Seq<char>,
)
    requires
        line_end(head) + 2 <= head.len(),
        fields(head.take(line_end(head) as int), ' ') == seq![m, t, v],
        head.skip(line_end(head) as int + 2) == headers,
    ensures
        request_read(head) == words_read(m, t, v, headers),
{
    let f = fields(head.take(line_end(head) as int), ' ');
    assert(f.len() == 3 && f[0] == m && f[1] == t && f[2] == v);
}

#[verifier::spinoff_prover]
proof fn lemma_request_of_words(m: Seq<char>, t: Seq<char>, v: Seq<char>, headers: Seq<char>)
    requires
        is_word(m),
        is_word(t),
        is_word(v),
    ensures
        request_read(m + " "@ + t + " "@ + v + "\r\n"@ + headers) == words_read(m, t, v, headers),
{
    lemma_request_line(m, t, v, headers);
    lemma_words_read(m + " "@ + t + " "@ + v + "\r\n"@ + headers, m, t, v, headers);
}

proof fn lemma_lacks(s: Seq<char>, c: char)
    requires
        !s.contains(c),
    ensures
        readback::lacks(s, c),
{
    assert forall|i: int| 0 <= i < s.len() implies #[trigger] s[i] != c by {
        assert(s.contains(s[i]));
    }
}

/// A `CONNECT` request asks for a tunnel to the host and the port it names, whatever its headers say.
#[verifier::spinoff_prover]
pub proof fn law_connect_asks_for_a_tunnel(
    host: Seq<char>,
    port: u16,
    version: Seq<char>,
    headers: Seq<char>,
)
    requires
        is_word(host),
        host.len() > 0,
        host[0] != '[',
        is_word(version),
    ensures
        request_read(
            "CONNECT"@ + " "@ + (host + ":"@ + decimal(port as nat)) + " "@ + ("HTTP/"@ + version)
                + "\r\n"@ + headers,
        ) == Some(RequestModel { method: Method::Connect, host, port, body: Body::Streamed }),
{
    let target = host + ":"@ + decimal(port as nat);
    let v = "HTTP/"@ + version;
    lemma_words(host, port as nat, version);
    lemma_request_of_words("CONNECT"@, target, v, headers);
    law_an_authority_is_a_host_and_a_port(host, port as nat, None);
    text::law_beginnings_and_endings("HTTP/"@, version);
}

proof fn lemma_words(host: Seq<char>, n: nat, version: Seq<char>)
    requires
        is_word(host),
        is_word(version),
    ensures
        is_word("CONNECT"@),
        is_word(host + ":"@ + decimal(n)),
        is_word("HTTP/"@ + version),
{
    reveal_strlit("CONNECT");
    reveal_strlit(":");
    reveal_strlit("HTTP/");
    text::law_decimal_reads_back(n);
    let d = decimal(n);
    assert forall|j: int| 0 <= j < d.len() implies #[trigger] d[j] != ' ' && d[j] != '\r' by {
        assert(text::is_digit(d[j]));
    }
    lemma_lacks(host, ' ');
    lemma_lacks(host, '\r');
    lemma_lacks(version, ' ');
    lemma_lacks(version, '\r');
}

/// Any other method with an absolute target asks for one exchange with the host the target names, on
/// port 80 unless it names another, and carries the body its headers tell of.
#[verifier::spinoff_prover]
pub proof fn law_an_absolute_target_names_the_origin(
    method: Seq<char>,
    host: Seq<char>,
    port: u16,
    path: Seq<char>,
    version: Seq<char>,
    headers: Seq<char>,
)
    requires
        is_word(method),
        method != "CONNECT"@,
        is_word(host),
        host.len() > 0,
        host[0] != '[',
        !host.contains('/'),
        is_word(path),
        is_word(version),
    ensures
        request_read(
            method + " "@ + ("http://"@ + (host + ":"@ + decimal(port as nat)) + "/"@ + path) + " "@ + (
            "HTTP/"@ + version) + "\r\n"@ + headers,
        ) == Some(RequestModel { method: Method::Absolute, host, port, body: framing(headers) }),
        !host.contains(':') ==> request_read(
            method + " "@ + ("http://"@ + host + "/"@ + path) + " "@ + ("HTTP/"@ + version) + "\r\n"@
                + headers,
        ) == Some(RequestModel { method: Method::Absolute, host, port: 80, body: framing(headers) }),
{
    let named = host + ":"@ + decimal(port as nat);
    lemma_words(host, port as nat, version);
    lemma_no_slash(host, port as nat);
    lemma_absolute_request(method, named, path, version, headers);
    lemma_absolute_request(method, host, path, version, headers);
    law_an_authority_is_a_host_and_a_port(host, port as nat, Some(80));
}

proof fn lemma_no_slash(host: Seq<char>, n: nat)
    requires
        !host.contains('/'),
    ensures
        !(host + ":"@ + decimal(n)).contains('/'),
{
    reveal_strlit(":");
    text::law_decimal_reads_back(n);
    lemma_lacks(host, '/');
    let named = host + ":"@ + decimal(n);
    assert forall|j: int| 0 <= j < named.len() implies #[trigger] named[j] != '/' by {
        if j > host.len() {
            assert(text::is_digit(decimal(n)[j - host.len() - 1]));
        }
    }
}

#[verifier::spinoff_prover]
proof fn lemma_absolute_request(
    method: Seq<char>,
    written: Seq<char>,
    path: Seq<char>,
    version: Seq<char>,
    headers: Seq<char>,
)
    requires
        is_word(method),
        method != "CONNECT"@,
        is_word(written),
        !written.contains('/'),
        is_word(path),
        is_word(version),
    ensures
        request_read(
            method + " "@ + ("http://"@ + written + "/"@ + path) + " "@ + ("HTTP/"@ + version) + "\r\n"@
                + headers,
        ) == match authority(written, Some(80)) {
            None => None,
            Some((host, port)) => Some(
                RequestModel { method: Method::Absolute, host, port, body: framing(headers) },
            ),
        },
{
    let target = "http://"@ + written + "/"@ + path;
    lemma_words(Seq::empty(), 0, version);
    lemma_absolute_target_is_word(written, path);
    lemma_request_of_words(method, target, "HTTP/"@ + version, headers);
    law_the_origin_is_asked_for_the_path(written, path, target);
    text::law_beginnings_and_endings("HTTP/"@, version);
}

proof fn lemma_absolute_target_is_word(written: Seq<char>, path: Seq<char>)
    requires
        is_word(written),
        is_word(path),
    ensures
        is_word("http://"@ + written + "/"@ + path),
{
    reveal_strlit("http://");
    reveal_strlit("/");
    lemma_lacks(written, ' ');
    lemma_lacks(written, '\r');
    lemma_lacks(path, ' ');
    lemma_lacks(path, '\r');
}

/// A target that names no host leaves it to the `Host` header.
#[verifier::spinoff_prover]
pub proof fn law_a_relative_target_goes_by_the_host_header(
    method: Seq<char>,
    target: Seq<char>,
    version: Seq<char>,
    headers: Seq<char>,
)
    requires
        is_word(method),
        method != "CONNECT"@,
        is_word(target),
        target.len() < 7 || target.take(7) != "http://"@,
        is_word(version),
    ensures
        request_read(method + " "@ + target + " "@ + ("HTTP/"@ + version) + "\r\n"@ + headers)
            == match field_value(lines(headers), "host"@) {
            None => None,
            Some(written) => match authority(written, Some(80)) {
                None => None,
                Some((host, port)) => Some(
                    RequestModel { method: Method::Absolute, host, port, body: framing(headers) },
                ),
            },
        },
{
    lemma_words(Seq::empty(), 0, version);
    lemma_request_of_words(method, target, "HTTP/"@ + version, headers);
    law_the_origin_is_asked_for_the_path(Seq::empty(), Seq::empty(), target);
    text::law_beginnings_and_endings("HTTP/"@, version);
}

/// A line that does not end in a version of HTTP is no request.
#[verifier::spinoff_prover]
pub proof fn law_what_is_no_http_is_no_request(
    method: Seq<char>,
    target: Seq<char>,
    version: Seq<char>,
    headers: Seq<char>,
)
    requires
        is_word(method),
        is_word(target),
        is_word(version),
        version.len() < 5 || version.take(5) != "HTTP/"@,
    ensures
        request_read(method + " "@ + target + " "@ + version + "\r\n"@ + headers) is None,
{
    reveal_strlit("HTTP/");
    lemma_request_of_words(method, target, version, headers);
    if begins(version, "HTTP/"@) {
        assert(version.subrange(0, 5) =~= version.take(5));
    }
}

/// An answer of the front end itself is a status line, the length of its text in bytes, the news that
/// the connection ends, an empty line and the text.
pub proof fn law_an_answer_tells_the_length_of_its_text(
    status: Seq<char>,
    body: Seq<char>,
    host: Seq<char>,
    port: u16,
)
    ensures
        encode_utf8(body).len() <= usize::MAX ==> answer(status, body) == "HTTP/1.1 "@ + status
            + "\r\nContent-Type: text/plain\r\nContent-Length: "@ + decimal(encode_utf8(body).len())
            + "\r\nConnection: close\r\n\r\n"@ + body,
        failure_answer(None, host, port) == answer(
            "502 Bad Gateway"@,
            "nhop: cannot reach "@ + host + ":"@ + decimal(port as nat),
        ),
        replied(Loop::Elsewhere, Err(None), Method::Connect, host, port) == Some(
            failure_answer(None, host, port),
        ),
        replied(Loop::Elsewhere, Err(None), Method::Absolute, host, port) == Some(
            failure_answer(None, host, port),
        ),
        replied(Loop::Elsewhere, Ok(()), Method::Connect, host, port) == Some(
            "HTTP/1.1 200 Connection established\r\n\r\n"@,
        ),
        replied(Loop::Elsewhere, Ok(()), Method::Absolute, host, port) is None,
{
}

/// A request as a value is its method, its destination and its body.
pub proof fn law_a_request_as_a_value(request: Request)
    ensures
        request.model().method == request.method,
        request.model().host == request.host.0@,
        request.model().port == request.port.0,
        request.model().body == request.body,
{
}

/// A request line is three words: with two or four of them, or without an end, there is no request.
#[verifier::spinoff_prover]
pub proof fn law_a_request_line_is_three_words(
    a: Seq<char>,
    b: Seq<char>,
    c: Seq<char>,
    d: Seq<char>,
    rest: Seq<char>,
)
    requires
        is_word(a),
        is_word(b),
        is_word(c),
        is_word(d),
    ensures
        request_read(a + " "@ + b + "\r\n"@ + rest) is None,
        request_read(a + " "@ + b + " "@ + c + " "@ + d + "\r\n"@ + rest) is None,
        request_read(a) is None,
{
    reveal_strlit(" ");
    reveal_strlit("\r\n");
    assert(" "@ =~= seq![' ']);
    lemma_lacks(a, ' ');
    lemma_lacks(b, ' ');
    lemma_lacks(c, ' ');
    lemma_lacks(d, ' ');
    readback::lemma_no_field_ends(a, ' ');
    readback::lemma_fields_append(a, b, ' ');
    let two = a + " "@ + b;
    lemma_two_words(a, b);
    lemma_first_line(two, rest);
    let three = two + " "@ + c;
    readback::lemma_fields_append(two, c, ' ');
    lemma_two_words(two, c);
    let four = three + " "@ + d;
    readback::lemma_fields_append(three, d, ' ');
    lemma_two_words(three, d);
    lemma_first_line(four, rest);
    lemma_lacks(a, '\r');
    text::lemma_line_end_is(a, a.len() as int);
}

proof fn lemma_two_words(a: Seq<char>, b: Seq<char>)
    requires
        !a.contains('\r'),
        !b.contains('\r'),
    ensures
        !(a + " "@ + b).contains('\r'),
{
    reveal_strlit(" ");
    lemma_lacks(a, '\r');
    lemma_lacks(b, '\r');
}

proof fn lemma_first_line(line: Seq<char>, rest: Seq<char>)
    requires
        !line.contains('\r'),
    ensures
        ({
            let head = line + "\r\n"@ + rest;
            line_end(head) == line.len() && head.take(line.len() as int) == line
        }),
{
    reveal_strlit("\r\n");
    lemma_lacks(line, '\r');
    let head = line + "\r\n"@ + rest;
    let k = line.len() as int;
    assert forall|j: int| 0 <= j < k implies head[j] != '\r' by {
        assert(head[j] == line[j]);
    }
    assert(head[k] == '\r' && head[k + 1] == '\n');
    text::lemma_line_end_is(head, k);
    assert(head.take(k) =~= line);
}

/// A length that is no number is taken for none.
pub proof fn law_an_unreadable_length_is_none(headers: Seq<char>)
    requires
        field_value(lines(headers), "transfer-encoding"@) is None,
        field_value(lines(headers), "content-length"@) matches Some(len) && number(
            len,
            usize::MAX as nat,
        ) is None,
    ensures
        framing(headers) == Body::Sized(0),
{
}

/// A tunnel is asked for with a host and a port: a target without a port, or with none that can be
/// read, is no request, and one in brackets is taken out of them.
#[verifier::spinoff_prover]
pub proof fn law_a_tunnel_needs_a_port(
    target: Seq<char>,
    version: Seq<char>,
    headers: Seq<char>,
)
    requires
        is_word(target),
        is_word(version),
    ensures
        request_read(
            "CONNECT"@ + " "@ + target + " "@ + ("HTTP/"@ + version) + "\r\n"@ + headers,
        ) == match authority(target, None) {
            None => None,
            Some((host, port)) => Some(
                RequestModel { method: Method::Connect, host, port, body: Body::Streamed },
            ),
        },
        target.len() > 0 && target[0] != '[' && !target.contains(':') ==> request_read(
            "CONNECT"@ + " "@ + target + " "@ + ("HTTP/"@ + version) + "\r\n"@ + headers,
        ) is None,
{
    lemma_words(Seq::empty(), 0, version);
    lemma_request_of_words("CONNECT"@, target, "HTTP/"@ + version, headers);
    text::law_beginnings_and_endings("HTTP/"@, version);
    law_an_authority_is_a_host_and_a_port(target, 0, None);
}

/// An absolute target goes by the authority it names, with a path behind it or without one, whatever
/// the `Host` header says; one whose authority cannot be read is no request.
#[verifier::spinoff_prover]
pub proof fn law_an_absolute_target_overrules_the_host_header(
    method: Seq<char>,
    written: Seq<char>,
    path: Seq<char>,
    version: Seq<char>,
    headers: Seq<char>,
)
    requires
        is_word(method),
        method != "CONNECT"@,
        is_word(written),
        !written.contains('/'),
        is_word(path),
        is_word(version),
    ensures
        ({
            let asked = match authority(written, Some(80)) {
                None => None,
                Some((host, port)) => Some(
                    RequestModel { method: Method::Absolute, host, port, body: framing(headers) },
                ),
            };
            &&& request_read(
                method + " "@ + ("http://"@ + written + "/"@ + path) + " "@ + ("HTTP/"@ + version)
                    + "\r\n"@ + headers,
            ) == asked
            &&& request_read(
                method + " "@ + ("http://"@ + written) + " "@ + ("HTTP/"@ + version) + "\r\n"@
                    + headers,
            ) == asked
        }),
{
    lemma_absolute_request(method, written, path, version, headers);
    lemma_words(Seq::empty(), 0, version);
    let bare = "http://"@ + written;
    reveal_strlit("http://");
    lemma_lacks(written, ' ');
    lemma_lacks(written, '\r');
    assert(is_word(bare));
    lemma_request_of_words(method, bare, "HTTP/"@ + version, headers);
    law_the_origin_is_asked_for_the_path(written, path, bare);
    text::law_beginnings_and_endings("HTTP/"@, version);
}

/// What stands behind a bracketed host is a port where a colon leads it and passed over otherwise, and
/// a port that is no number is nothing, not the fallback.
#[verifier::spinoff_prover]
pub proof fn law_a_port_that_is_no_number_is_nothing(
    host: Seq<char>,
    rest: Seq<char>,
    i: int,
    fallback: Option<u16>,
)
    requires
        host.len() > 0,
        !host.contains(']'),
    ensures
        rest.len() == 0 || rest[0] != ':' ==> authority("["@ + host + "]"@ + rest, fallback)
            == match fallback {
            Some(port) => Some((host, port)),
            None => None,
        },
        0 <= i < rest.len() && !('0' <= rest[i] && rest[i] <= '9') && (i > 0 || rest[i] != '+')
            ==> authority("["@ + host + "]:"@ + rest, fallback) is None,
        0 <= i < rest.len() && !('0' <= rest[i] && rest[i] <= '9') && (i > 0 || rest[i] != '+')
            && !rest.contains(':') && host[0] != '[' ==> authority(host + ":"@ + rest, fallback) is None,
        rest.len() == 0 && host[0] != '[' ==> authority(host + ":"@ + rest, fallback) is None,
{
    reveal_strlit("[");
    reveal_strlit("]");
    reveal_strlit("]:");
    reveal_strlit(":");
    let k = host.len() as int;
    lemma_lacks(host, ']');
    text::law_what_a_number_is(rest, 0xffff);
    let open = "["@ + host + "]"@ + rest;
    let b = open.skip(1);
    assert(b =~= host + "]"@ + rest);
    assert(b[k] == ']');
    text::lemma_first_of_is(b, ']', k);
    assert(b.take(k) =~= host);
    assert(b.skip(k + 1) =~= rest);
    assert(open[0] == '[');
    let full = "["@ + host + "]:"@ + rest;
    let c = full.skip(1);
    assert(c =~= host + "]:"@ + rest);
    assert(c[k] == ']' && c[k + 1] == ':');
    text::lemma_first_of_is(c, ']', k);
    assert(c.skip(k + 1) =~= ":"@ + rest);
    assert(c.skip(k + 1).skip(1) =~= rest);
    assert(full[0] == '[');
    let plain = host + ":"@ + rest;
    assert(plain[0] == host[0]);
    if !rest.contains(':') {
        lemma_lacks(rest, ':');
        assert(plain[k] == ':');
        assert forall|j: int| k < j < plain.len() implies plain[j] != ':' by {
            assert(plain[j] == rest[j - k - 1]);
        }
        text::lemma_last_of_is(plain, ':', k);
        assert(plain.skip(k + 1) =~= rest);
    }
}

/// Every request of three words is rebuilt: its method and the path it asks for, the host it was
/// routed to, the header lines that survive and the end of the connection.
#[verifier::spinoff_prover]
pub proof fn law_every_request_is_rebuilt(
    method: Seq<char>,
    target: Seq<char>,
    version: Seq<char>,
    headers: Seq<char>,
    host: Seq<char>,
    port: u16,
)
    requires
        is_word(method),
        is_word(target),
        is_word(version),
    ensures
        rebuilt(method + " "@ + target + " "@ + version + "\r\n"@ + headers, host, port) == Some(
            method + " "@ + origin_path(target) + " HTTP/1.1\r\nHost: "@ + host_value(host, port)
                + "\r\n"@ + ended(survivors(lines(headers))) + "Connection: close\r\n\r\n"@,
        ),
{
    lemma_request_line(method, target, version, headers);
}

/// Every line of a block ends in a carriage return and a line feed.
pub proof fn law_every_line_is_ended(ls: Seq<Seq<char>>, line: Seq<char>)
    ensures
        ended(Seq::empty()).len() == 0,
        ended(ls.push(line)) == ended(ls) + line + "\r\n"@,
{
    assert(ls.push(line).drop_last() =~= ls);
}

} // verus!
