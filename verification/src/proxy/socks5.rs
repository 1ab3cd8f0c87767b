//! The SOCKS5 front end: the bytes the client sends and the bytes it is answered with.
use vstd::prelude::*;
use vstd::slice::slice_subrange;
use vstd::utf8::{decode_utf8, valid_utf8};

use crate::ipc::{Host, Port};
use crate::net::{ip_read, ip_text, segments, v4_of, v6_of, IpAddr};
use crate::proxy::events::{Loop, UpstreamDown};
use crate::readback;
use crate::text;
use crate::text::decimal;

verus! {

/// Protocol version that is served.
pub const VERSION: u8 = 0x05;

/// Method without authentication, the only one served.
pub const NO_AUTH: u8 = 0x00;

/// Answer to a client that offers no method served.
pub const NO_ACCEPTABLE_METHOD: u8 = 0xff;

/// Command for a tunnel, the only one served.
pub const CONNECT: u8 = 0x01;

/// A version 4 address follows.
pub const ATYP_IPV4: u8 = 0x01;

/// A name follows, its length before it.
pub const ATYP_DOMAIN: u8 = 0x03;

/// A version 6 address follows.
pub const ATYP_IPV6: u8 = 0x04;

/// How far a message has been read.
#[derive(Debug, Clone, Copy, PartialEq, Eq, Structural)]
pub enum Exchange<T> {
    /// So many more bytes have to be read.
    More(usize),
    /// The message has been understood.
    Complete(T),
}

/// Authentication the front end agreed on with the client.
#[derive(Debug, Clone, Copy, PartialEq, Eq, Structural)]
pub enum Greeting {
    /// The client offered the no-auth method, the only one served.
    NoAuth,
    /// The client speaks another version, or no method the front end serves.
    Rejected,
}

/// Code the front end answers a request with.
#[derive(Debug, Clone, Copy, PartialEq, Eq, Structural)]
pub enum Reply {
    /// The next hop is open and the relay starts.
    Granted,
    /// The dial failed for a reason of its own.
    Failure,
    /// The destination is the front end itself.
    NotAllowed,
    /// A `require` rule needs an upstream that is down.
    HostUnreachable,
    /// The request was neither `CONNECT` nor anything else served.
    CommandNotSupported,
    /// The request named an address type the front end cannot read.
    AddressNotSupported,
}

impl Reply {
    /// The byte on the wire.
    pub open spec fn byte(self) -> u8 {
        match self {
            Reply::Granted => 0x00,
            Reply::Failure => 0x01,
            Reply::NotAllowed => 0x02,
            Reply::HostUnreachable => 0x04,
            Reply::CommandNotSupported => 0x07,
            Reply::AddressNotSupported => 0x08,
        }
    }

    /// Returns the byte on the wire.
    pub fn code(self) -> (r: u8)
        ensures
            r == self.byte(),
    {
        match self {
            Self::Granted => 0x00,
            Self::Failure => 0x01,
            Self::NotAllowed => 0x02,
            Self::HostUnreachable => 0x04,
            Self::CommandNotSupported => 0x07,
            Self::AddressNotSupported => 0x08,
        }
    }
}

/// What the client asked for, or why it cannot be served.
#[derive(Debug, Clone, PartialEq, Eq)]
pub enum Requested {
    /// A tunnel to this destination.
    Connect {
        /// As the client spelled it, never resolved here.
        host: Host,
        /// Destination port.
        port: Port,
    },
    /// Nothing to dial, only a code to answer with.
    Refused(Reply),
}

/// What the client asked for, as a value.
pub enum RequestedModel {
    /// A tunnel to this destination.
    Connect {
        /// Destination host.
        host: Seq<char>,
        /// Destination port.
        port: u16,
    },
    /// Only a code to answer with.
    Refused(Reply),
}

impl Requested {
    /// What the client asked for, as a value.
    pub open spec fn model(&self) -> RequestedModel {
        match self {
            Requested::Connect { host, port } => RequestedModel::Connect {
                host: host.0@,
                port: port.0,
            },
            Requested::Refused(reply) => RequestedModel::Refused(*reply),
        }
    }
}

/// A message of which `have` of `need` bytes are here.
pub open spec fn wanting<T>(need: int, have: int) -> Exchange<T> {
    Exchange::More((need - have) as usize)
}

/// A greeting: the version, how many methods are offered, and the methods.
pub open spec fn greeting_read(input: Seq<u8>) -> Exchange<Greeting> {
    if input.len() < 2 {
        wanting(2, input.len() as int)
    } else if input[0] != VERSION {
        Exchange::Complete(Greeting::Rejected)
    } else if input.len() < 2 + input[1] {
        wanting(2 + input[1], input.len() as int)
    } else if input.subrange(2, 2 + input[1]).contains(NO_AUTH) {
        Exchange::Complete(Greeting::NoAuth)
    } else {
        Exchange::Complete(Greeting::Rejected)
    }
}

/// Two bytes, the more significant first.
pub open spec fn pair(input: Seq<u8>, at: int) -> u16 {
    (input[at] * 256 + input[at + 1]) as u16
}

/// Sixteen bytes as a version 6 address.
pub open spec fn v6_at(input: Seq<u8>, at: int) -> u128 {
    v6_of(Seq::new(8, |i: int| pair(input, at + 2 * i)))
}

/// A request: version, command, a reserved byte, the type of the address, the address and the port.
/// A name that is empty or no UTF-8 is refused before the port is looked at.
pub open spec fn request_read(input: Seq<u8>) -> Exchange<RequestedModel> {
    let have = input.len() as int;
    if have < 4 {
        wanting(4, have)
    } else if input[0] != VERSION {
        Exchange::Complete(RequestedModel::Refused(Reply::Failure))
    } else if input[1] != CONNECT {
        Exchange::Complete(RequestedModel::Refused(Reply::CommandNotSupported))
    } else if input[3] == ATYP_IPV4 {
        if have < 10 {
            wanting(10, have)
        } else {
            Exchange::Complete(
                RequestedModel::Connect {
                    host: ip_text(
                        IpAddr::V4(
                            v4_of(
                                input[4] as nat,
                                input[5] as nat,
                                input[6] as nat,
                                input[7] as nat,
                            ),
                        ),
                    ),
                    port: pair(input, 8),
                },
            )
        }
    } else if input[3] == ATYP_DOMAIN {
        if have < 5 {
            wanting(5, have)
        } else if have < 5 + input[4] {
            wanting(5 + input[4], have)
        } else if input[4] == 0 || !valid_utf8(input.subrange(5, 5 + input[4])) {
            Exchange::Complete(RequestedModel::Refused(Reply::Failure))
        } else if have < 7 + input[4] {
            wanting(7 + input[4], have)
        } else {
            Exchange::Complete(
                RequestedModel::Connect {
                    host: decode_utf8(input.subrange(5, 5 + input[4])),
                    port: pair(input, 5 + input[4]),
                },
            )
        }
    } else if input[3] == ATYP_IPV6 {
        if have < 22 {
            wanting(22, have)
        } else {
            Exchange::Complete(
                RequestedModel::Connect {
                    host: ip_text(IpAddr::V6(v6_at(input, 4))),
                    port: pair(input, 20),
                },
            )
        }
    } else {
        Exchange::Complete(RequestedModel::Refused(Reply::AddressNotSupported))
    }
}

/// Reads a client's greeting from what has arrived of it.
pub fn greet(input: &[u8]) -> (r: Exchange<Greeting>)
    ensures
        r == greeting_read(input@),
{
    // VER | NMETHODS | METHODS[NMETHODS]
    let have = input.len();
    if have < 2 {
        return Exchange::More(2 - have);
    }
    if input[0] != VERSION {
        return Exchange::Complete(Greeting::Rejected);
    }
    let count = input[1] as usize;
    if have < 2 + count {
        return Exchange::More(2 + count - have);
    }
    let mut i: usize = 0;
    while i < count
        invariant
            have == input.len(),
            have >= 2 + count,
            count == input@[1],
            input@[0] == VERSION,
            i <= count,
            forall|j: int| 2 <= j < 2 + i ==> input@[j] != NO_AUTH,
        decreases count - i,
    {
        if input[2 + i] == NO_AUTH {
            assert(input@.subrange(2, 2 + count)[i as int] == NO_AUTH);
            return Exchange::Complete(Greeting::NoAuth);
        }
        i += 1;
    }
    Exchange::Complete(Greeting::Rejected)
}

fn read_pair(input: &[u8], at: usize) -> (r: u16)
    requires
        at + 2 <= input@.len(),
    ensures
        r == pair(input@, at as int),
{
    input[at] as u16 * 256 + input[at + 1] as u16
}

fn read_v6(input: &[u8]) -> (r: u128)
    requires
        input@.len() >= 20,
    ensures
        r == v6_at(input@, 4),
{
    read_pair(input, 4) as u128 * 0x1_0000_0000_0000_0000_0000_0000_0000 + read_pair(
        input,
        6,
    ) as u128 * 0x1_0000_0000_0000_0000_0000_0000 + read_pair(input, 8) as u128
        * 0x1_0000_0000_0000_0000_0000 + read_pair(input, 10) as u128 * 0x1_0000_0000_0000_0000
        + read_pair(input, 12) as u128 * 0x1_0000_0000_0000 + read_pair(input, 14) as u128
        * 0x1_0000_0000 + read_pair(input, 16) as u128 * 0x1_0000 + read_pair(input, 18) as u128
}

/// Whether a result is this value.
pub open spec fn is_read(r: Exchange<Requested>, model: Exchange<RequestedModel>) -> bool {
    match r {
        Exchange::More(n) => model == Exchange::<RequestedModel>::More(n),
        Exchange::Complete(requested) => model == Exchange::Complete(requested.model()),
    }
}

/// Reads a client's request from what has arrived of it.
///
/// A name travels on as the client wrote it: internal names resolve only inside the upstream's
/// network, so resolving here would route them nowhere.
pub fn request(input: &[u8]) -> (r: Exchange<Requested>)
    ensures
        is_read(r, request_read(input@)),
{
    // VER | CMD | RSV | ATYP | DST.ADDR | DST.PORT
    let have = input.len();
    if have < 4 {
        return Exchange::More(4 - have);
    }
    if input[0] != VERSION {
        return Exchange::Complete(Requested::Refused(Reply::Failure));
    }
    if input[1] != CONNECT {
        return Exchange::Complete(Requested::Refused(Reply::CommandNotSupported));
    }
    let atyp = input[3];
    if atyp == ATYP_IPV4 {
        if have < 10 {
            return Exchange::More(10 - have);
        }
        let v4 = input[4] as u32 * 0x100_0000 + input[5] as u32 * 0x1_0000 + input[6] as u32 * 0x100
            + input[7] as u32;
        let host = Host(IpAddr::V4(v4).text());
        return Exchange::Complete(Requested::Connect { host, port: Port(read_pair(input, 8)) });
    }
    if atyp == ATYP_DOMAIN {
        // LEN | NAME[LEN]
        if have < 5 {
            return Exchange::More(5 - have);
        }
        let len = input[4] as usize;
        if have < 5 + len {
            return Exchange::More(5 + len - have);
        }
        if len == 0 {
            return Exchange::Complete(Requested::Refused(Reply::Failure));
        }
        let name = match text::utf8(slice_subrange(input, 5, 5 + len)) {
            Some(name) => name,
            None => {
                return Exchange::Complete(Requested::Refused(Reply::Failure));
            },
        };
        if have < 7 + len {
            return Exchange::More(7 + len - have);
        }
        let host = Host(name.to_owned());
        return Exchange::Complete(
            Requested::Connect { host, port: Port(read_pair(input, 5 + len)) },
        );
    }
    if atyp == ATYP_IPV6 {
        if have < 22 {
            return Exchange::More(22 - have);
        }
        let host = Host(IpAddr::V6(read_v6(input)).text());
        return Exchange::Complete(Requested::Connect { host, port: Port(read_pair(input, 20)) });
    }
    Exchange::Complete(Requested::Refused(Reply::AddressNotSupported))
}

/// The code a failed dial is answered with.
pub open spec fn refused_with(down: Option<UpstreamDown>) -> Reply {
    if down is Some {
        Reply::HostUnreachable
    } else {
        Reply::Failure
    }
}

/// The code a request that can be served is answered with.
pub open spec fn replied(looped: Loop, dialled: Result<(), Option<UpstreamDown>>) -> Reply {
    match looped {
        Loop::Own(_) => Reply::NotAllowed,
        Loop::Elsewhere => match dialled {
            Ok(_) => Reply::Granted,
            Err(down) => refused_with(down),
        },
    }
}

/// Returns the code a failed dial is answered with: a refusal for want of an upstream is told from
/// any other failure.
pub fn refusal(down: Option<UpstreamDown>) -> (r: Reply)
    ensures
        r == refused_with(down),
{
    match down {
        None => Reply::Failure,
        Some(_) => Reply::HostUnreachable,
    }
}

/// Returns the code a request that can be served is answered with, once the destination has been
/// dialled or, where it is the front end itself, turned away without a dial.
pub fn reply(looped: Loop, dialled: Result<(), Option<UpstreamDown>>) -> (r: Reply)
    ensures
        r == match looped {
            Loop::Own(_) => Reply::NotAllowed,
            Loop::Elsewhere => match dialled {
                Ok(_) => Reply::Granted,
                Err(Some(_)) => Reply::HostUnreachable,
                Err(None) => Reply::Failure,
            },
        },
        r == replied(looped, dialled),
{
    match looped {
        Loop::Own(_) => Reply::NotAllowed,
        Loop::Elsewhere => match dialled {
            Ok(_) => Reply::Granted,
            Err(down) => refusal(down),
        },
    }
}

/// Returns the bytes that answer a greeting.
pub fn chosen(greeting: Greeting) -> (r: Vec<u8>)
    ensures
        r@ == seq![
            VERSION,
            match greeting {
                Greeting::NoAuth => NO_AUTH,
                Greeting::Rejected => NO_ACCEPTABLE_METHOD,
            },
        ],
{
    // VER | METHOD
    let method: u8 = match greeting {
        Greeting::NoAuth => NO_AUTH,
        Greeting::Rejected => NO_ACCEPTABLE_METHOD,
    };
    let mut r: Vec<u8> = Vec::new();
    r.push(VERSION);
    r.push(method);
    assert(r@ =~= seq![VERSION, method]);
    r
}

/// Returns the bytes that answer a request.
pub fn answer(reply: Reply) -> (r: Vec<u8>)
    ensures
        r@ == seq![VERSION, reply.byte(), 0u8, ATYP_IPV4, 0u8, 0u8, 0u8, 0u8, 0u8, 0u8],
{
    // VER | REP | RSV | ATYP | BND.ADDR | BND.PORT
    let mut r: Vec<u8> = Vec::new();
    r.push(VERSION);
    r.push(reply.code());
    r.push(0);
    r.push(ATYP_IPV4);
    let mut i: usize = 0;
    while i < 6
        invariant
            i <= 6,
            r.len() == 4 + i,
            r@[0] == VERSION,
            r@[1] == reply.byte(),
            r@[2] == 0,
            r@[3] == ATYP_IPV4,
            forall|j: int| 4 <= j < 4 + i ==> r@[j] == 0,
        decreases 6 - i,
    {
        r.push(0);
        i += 1;
    }
    assert(r@ =~= seq![VERSION, reply.byte(), 0u8, ATYP_IPV4, 0u8, 0u8, 0u8, 0u8, 0u8, 0u8]);
    r
}

/// A request that has been understood is understood the same whatever follows it.
pub proof fn law_a_complete_request_stays(input: Seq<u8>, more: Seq<u8>)
    requires
        request_read(input) is Complete,
    ensures
        request_read(input + more) == request_read(input),
{
    let longer = input + more;
    if input.len() >= 22 && input[3] == ATYP_IPV6 {
        assert(Seq::new(8, |i: int| pair(longer, 4 + 2 * i)) =~= Seq::new(
            8,
            |i: int| pair(input, 4 + 2 * i),
        ));
    }
    if input[3] == ATYP_DOMAIN && input.len() >= 5 && input.len() >= 5 + input[4] {
        assert(longer.subrange(5, 5 + input[4]) =~= input.subrange(5, 5 + input[4]));
    }
}

/// A request is never read past its end: as many bytes as are asked for are missing, and with fewer
/// the rest is asked for again.
pub proof fn law_a_request_is_read_to_its_end(input: Seq<u8>, more: Seq<u8>, n: usize)
    requires
        request_read(input) == Exchange::<RequestedModel>::More(n),
        more.len() < n,
    ensures
        n > 0,
        request_read(input + more) == Exchange::<RequestedModel>::More((n - more.len()) as usize),
{
    let longer = input + more;
    if input.len() >= 5 && input[3] == ATYP_DOMAIN && input.len() >= 5 + input[4] {
        assert(longer.subrange(5, 5 + input[4]) =~= input.subrange(5, 5 + input[4]));
    }
}

/// A greeting of version 5 is agreed to without authentication exactly where that method is among
/// those offered, wherever it stands; any other version is turned away, and as many bytes are waited
/// for as are missing.
pub proof fn law_no_authentication_is_agreed_to_wherever_it_is_offered(input: Seq<u8>)
    ensures
        input.len() < 2 ==> greeting_read(input) == Exchange::<Greeting>::More(
            (2 - input.len()) as usize,
        ),
        input.len() >= 2 && input[0] != 5 ==> greeting_read(input) == Exchange::Complete(
            Greeting::Rejected,
        ),
        input.len() >= 2 && input[0] == 5 && input.len() < 2 + input[1] ==> greeting_read(input)
            == Exchange::<Greeting>::More((2 + input[1] - input.len()) as usize),
        input.len() >= 2 && input[0] == 5 && input.len() >= 2 + input[1] ==> {
            &&& greeting_read(input) is Complete
            &&& greeting_read(input) == Exchange::Complete(Greeting::NoAuth) <==> exists|i: int|
                0 <= i < input[1] && #[trigger] input[2 + i] == 0
        },
{
    if input.len() >= 2 && input[0] == 5 && input.len() >= 2 + input[1] {
        let offered = input.subrange(2, 2 + input[1]);
        if offered.contains(0) {
            let i = choose|i: int| 0 <= i < offered.len() && offered[i] == 0;
            assert(input[2 + i] == 0);
        }
        if exists|i: int| 0 <= i < input[1] && #[trigger] input[2 + i] == 0 {
            let i = choose|i: int| 0 <= i < input[1] && #[trigger] input[2 + i] == 0;
            assert(offered[i] == 0);
        }
    }
}

/// A request for a version 4 address is for the four bytes behind the type, written with dots, and
/// the port behind them, the larger byte first.
pub proof fn law_a_version_4_request_names_its_bytes(input: Seq<u8>)
    requires
        input.len() >= 10,
        input[0] == 5,
        input[1] == 1,
        input[3] == 1,
    ensures
        request_read(input) == Exchange::Complete(
            RequestedModel::Connect {
                host: decimal(input[4] as nat) + "."@ + decimal(input[5] as nat) + "."@ + decimal(
                    input[6] as nat,
                ) + "."@ + decimal(input[7] as nat),
                port: (input[8] * 256 + input[9]) as u16,
            },
        ),
{
    readback::law_a_version_4_address_is_written_byte_by_byte(
        input[4],
        input[5],
        input[6],
        input[7],
    );
}

/// A request for a version 6 address is for the sixteen bytes behind the type, read in pairs, and
/// the port behind them.
pub proof fn law_a_version_6_request_names_its_bytes(input: Seq<u8>)
    requires
        input.len() >= 22,
        input[0] == 5,
        input[1] == 1,
        input[3] == 4,
    ensures
        request_read(input) matches Exchange::Complete(RequestedModel::Connect { host, port }) && {
            &&& port == input[20] * 256 + input[21]
            &&& ip_read(host) matches Some(IpAddr::V6(v)) && forall|i: int|
                0 <= i < 8 ==> #[trigger] segments(v)[i] == input[4 + 2 * i] * 256 + input[5 + 2 * i]
        },
{
    let g = Seq::new(8, |i: int| pair(input, 4 + 2 * i));
    readback::law_an_address_reads_back(IpAddr::V6(v6_of(g)));
    readback::lemma_groups_of(g);
    assert forall|i: int| 0 <= i < 8 implies #[trigger] segments(v6_of(g))[i] == input[4 + 2 * i] * 256
        + input[5 + 2 * i] by {
        assert(g[i] == pair(input, 4 + 2 * i));
    }
}

/// A request for a name is for the text of as many bytes as the length before it says, and the port
/// behind them; an empty name and one that is not text are refused.
pub proof fn law_a_request_names_its_host(input: Seq<u8>)
    requires
        input.len() >= 5,
        input.len() >= 7 + input[4],
        input[0] == 5,
        input[1] == 1,
        input[3] == 3,
    ensures
        ({
            let name = input.subrange(5, 5 + input[4]);
            request_read(input) == Exchange::Complete(
                if name.len() > 0 && valid_utf8(name) {
                    RequestedModel::Connect {
                        host: decode_utf8(name),
                        port: (input[5 + input[4]] * 256 + input[6 + input[4]]) as u16,
                    }
                } else {
                    RequestedModel::Refused(Reply::Failure)
                },
            )
        }),
{
}

/// What is no connection over version 5 to one of the three types of address is answered with the
/// code that tells why.
pub proof fn law_what_is_not_served_is_told_why(input: Seq<u8>)
    requires
        input.len() >= 4,
    ensures
        input[0] != 5 ==> request_read(input) == Exchange::Complete(
            RequestedModel::Refused(Reply::Failure),
        ),
        input[0] == 5 && input[1] != 1 ==> request_read(input) == Exchange::Complete(
            RequestedModel::Refused(Reply::CommandNotSupported),
        ),
        input[0] == 5 && input[1] == 1 && input[3] != 1 && input[3] != 3 && input[3] != 4
            ==> request_read(input) == Exchange::Complete(
            RequestedModel::Refused(Reply::AddressNotSupported),
        ),
        input[0] == 5 && input[1] == 1 && (input[3] == 1 || input[3] == 3 || input[3] == 4)
            ==> !(request_read(input) matches Exchange::Complete(
            RequestedModel::Refused(reply),
        ) && reply != Reply::Failure),
{
}

/// The replies carry the codes the protocol gives them, and a dial that was made is answered by how
/// it ended.
pub proof fn law_replies_carry_their_codes(down: UpstreamDown)
    ensures
        Reply::Granted.byte() == 0,
        Reply::Failure.byte() == 1,
        Reply::NotAllowed.byte() == 2,
        Reply::HostUnreachable.byte() == 4,
        Reply::CommandNotSupported.byte() == 7,
        Reply::AddressNotSupported.byte() == 8,
        replied(Loop::Elsewhere, Ok(())).byte() == 0,
        replied(Loop::Elsewhere, Err(None)).byte() == 1,
        replied(Loop::Elsewhere, Err(Some(down))).byte() == 4,
{
}

/// What was read of a request is exactly the destination it names or the code it is refused with.
pub proof fn law_a_request_is_read_as_it_is(host: Host, port: Port, reply: Reply, n: usize)
    ensures
        forall|m: Exchange<RequestedModel>|
            #[trigger] is_read(Exchange::Complete(Requested::Connect { host, port }), m) <==> m
                == Exchange::Complete(RequestedModel::Connect { host: host.0@, port: port.0 }),
        forall|m: Exchange<RequestedModel>|
            #[trigger] is_read(Exchange::Complete(Requested::Refused(reply)), m) <==> m
                == Exchange::Complete(RequestedModel::Refused(reply)),
        forall|m: Exchange<RequestedModel>|
            #[trigger] is_read(Exchange::<Requested>::More(n), m) <==> m
                == Exchange::<RequestedModel>::More(n),
{
}

} // verus!
