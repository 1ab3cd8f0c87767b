//! What a rule matches on, and how a rule's value is read.
use vstd::arithmetic::power2::pow2;
use vstd::prelude::*;
use vstd::utf8::is_ascii_chars;

use crate::ipc::{ErrKind, Host, Port, RuleKind, RuleValue};
use crate::net::{ip_read, ip_text, IpAddr};
use crate::text;
use crate::text::{
    ascii_lower, ascii_lowered, decimal, ends, in_quotes, is_white, lower_case, number, occurs,
    without_last,
};

verus! {

/// Rejection of a rule value that cannot be read as its kind.
#[derive(Debug, Clone, PartialEq, Eq)]
pub struct InvalidRule {
    message: String,
}

/// The name of a kind as the operator writes it.
pub open spec fn kind_text(kind: RuleKind) -> Seq<char> {
    match kind {
        RuleKind::Suffix => "suffix"@,
        RuleKind::Cidr => "cidr"@,
        RuleKind::Port => "port"@,
        RuleKind::Keyword => "keyword"@,
    }
}

/// What a value of this kind should have been.
pub open spec fn expected_text(kind: RuleKind) -> Seq<char> {
    match kind {
        RuleKind::Suffix => "a hostname such as example.com"@,
        RuleKind::Cidr => "a network such as 192.0.2.0/24"@,
        RuleKind::Port => "a single port between 0 and 65535, ranges are not supported"@,
        RuleKind::Keyword => "a non-empty substring of a hostname"@,
    }
}

/// The explanation of a rejected value.
pub open spec fn rejection(kind: RuleKind, value: Seq<char>) -> Seq<char> {
    "invalid "@ + kind_text(kind) + " value "@ + in_quotes(value) + ": expected "@ + expected_text(
        kind,
    )
}

impl InvalidRule {
    /// The explanation shown to the operator.
    pub closed spec fn text(&self) -> Seq<char> {
        self.message@
    }

    fn new(kind: RuleKind, value: &RuleValue) -> (r: InvalidRule)
        ensures
            r.text() == rejection(kind, value.0@),
    {
        let mut message = "invalid ".to_owned();
        message.append(kind_name(kind));
        message.append(" value ");
        message.append(text::debug(value.0.as_str()).as_str());
        message.append(": expected ");
        message.append(expected(kind));
        InvalidRule { message }
    }

    /// Returns the wire category this rejection is reported as.
    pub fn err_kind(&self) -> (r: ErrKind)
        ensures
            r == ErrKind::InvalidArgs,
    {
        ErrKind::InvalidArgs
    }

    /// Returns the explanation shown to the operator.
    pub fn message(&self) -> (r: &str)
        ensures
            r@ == self.text(),
    {
        self.message.as_str()
    }
}

fn expected(kind: RuleKind) -> (r: &'static str)
    ensures
        r@ == expected_text(kind),
{
    match kind {
        RuleKind::Suffix => "a hostname such as example.com",
        RuleKind::Cidr => "a network such as 192.0.2.0/24",
        RuleKind::Port => "a single port between 0 and 65535, ranges are not supported",
        RuleKind::Keyword => "a non-empty substring of a hostname",
    }
}

/// Returns the name of a kind as the operator writes it.
pub fn kind_name(kind: RuleKind) -> (r: &'static str)
    ensures
        r@ == kind_text(kind),
{
    match kind {
        RuleKind::Suffix => "suffix",
        RuleKind::Cidr => "cidr",
        RuleKind::Port => "port",
        RuleKind::Keyword => "keyword",
    }
}

/// A host as it is compared: without one trailing dot, in lower case.
pub open spec fn normalized(host: Seq<char>) -> Seq<char> {
    lower_case(without_last(host, '.'))
}

/// Destination host lowercased and stripped of a trailing dot, with its IP literal read once.
#[derive(Debug, Clone, PartialEq, Eq)]
pub struct NormalizedHost {
    host: String,
    address: Option<IpAddr>,
}

impl NormalizedHost {
    /// The normalized host.
    pub closed spec fn name(&self) -> Seq<char> {
        self.host@
    }

    /// The address the host was written as.
    pub closed spec fn ip(&self) -> Option<IpAddr> {
        self.address
    }

    /// Prepares a destination host for matching.
    pub fn new(host: &Host) -> (r: NormalizedHost)
        ensures
            r.name() == normalized(host.0@),
            r.ip() == ip_read(normalized(host.0@)),
    {
        let host = text::lowercase(text::strip_last(host.0.as_str(), '.'));
        let address = IpAddr::parse(host.as_str());
        NormalizedHost { host, address }
    }

    /// Returns the normalized host.
    pub fn as_str(&self) -> (r: &str)
        ensures
            r@ == self.name(),
    {
        self.host.as_str()
    }

    /// Returns the address the host was written as, absent when it is a name.
    pub fn address(&self) -> (r: Option<IpAddr>)
        ensures
            r == self.ip(),
    {
        self.address
    }
}

/// A range of addresses: those that share the leading bits of one of them.
#[derive(Debug, Clone, Copy, PartialEq, Eq, Structural)]
pub struct Network {
    addr: IpAddr,
    prefix_len: u8,
}

/// Whether an address is of the same version as a network's and agrees with it in the leading bits.
pub open spec fn in_network(addr: IpAddr, prefix_len: u8, ip: IpAddr) -> bool {
    match (addr, ip) {
        (IpAddr::V4(bits), IpAddr::V4(v)) => v as nat / pow2((32 - prefix_len) as nat)
            == bits as nat / pow2((32 - prefix_len) as nat),
        (IpAddr::V6(bits), IpAddr::V6(v)) => v as nat / pow2((128 - prefix_len) as nat)
            == bits as nat / pow2((128 - prefix_len) as nat),
        _ => false,
    }
}

/// Whether a prefix is no longer than its address.
pub open spec fn fits(addr: IpAddr, prefix_len: u8) -> bool {
    match addr {
        IpAddr::V4(_) => prefix_len <= 32,
        IpAddr::V6(_) => prefix_len <= 128,
    }
}

/// Calls `ipnet::IpNet::contains` with an address: true where both are of one version and the
/// address lies between the network's first and last address, that is where the two agree in
/// the bits of the prefix.
#[verifier::external_body]
fn net_contains(addr: IpAddr, prefix_len: u8, ip: IpAddr) -> (r: bool)
    requires
        fits(addr, prefix_len),
    ensures
        r == in_network(addr, prefix_len, ip),
{
    let net = match addr {
        IpAddr::V4(v) => ipnet::IpNet::V4(ipnet::Ipv4Net::new_assert(v.into(), prefix_len)),
        IpAddr::V6(v) => ipnet::IpNet::V6(ipnet::Ipv6Net::new_assert(v.into(), prefix_len)),
    };
    let host = match ip {
        IpAddr::V4(v) => ipnet::IpNet::V4(ipnet::Ipv4Net::new_assert(v.into(), 32)),
        IpAddr::V6(v) => ipnet::IpNet::V6(ipnet::Ipv6Net::new_assert(v.into(), 128)),
    };
    net.contains(&host.addr())
}

/// What `ipnet::IpNet` reads from a text: an address and the length of a prefix.
pub uninterp spec fn network_read(s: Seq<char>) -> Option<(IpAddr, u8)>;

/// A network as it is commonly written: an address, a slash and the length of the prefix.
pub open spec fn network_text(addr: IpAddr, prefix_len: u8) -> Seq<char> {
    ip_text(addr) + "/"@ + decimal(prefix_len as nat)
}

/// Parses a text through `ipnet::IpNet`'s `FromStr`. The result depends on the text alone, and its
/// prefix is no longer than its address. A text without a slash is rejected, and an address as
/// [`IpAddr::text`] writes it, with a slash and a prefix behind it, reads as those two. Of other
/// forms, such as leading zeros, nothing is said.
#[verifier::external_body]
fn read_network(s: &str) -> (r: Option<(IpAddr, u8)>)
    ensures
        r == network_read(s@),
        r matches Some((addr, prefix_len)) ==> fits(addr, prefix_len),
        !s@.contains('/') ==> r is None,
        forall|addr: IpAddr, prefix_len: u8|
            fits(addr, prefix_len) && s@ == #[trigger] network_text(addr, prefix_len) ==> r == Some(
                (addr, prefix_len),
            ),
{
    match s.parse::<ipnet::IpNet>() {
        Ok(ipnet::IpNet::V4(net)) => Some((IpAddr::V4(u32::from(net.addr())), net.prefix_len())),
        Ok(ipnet::IpNet::V6(net)) => Some((IpAddr::V6(u128::from(net.addr())), net.prefix_len())),
        Err(_) => None,
    }
}

impl Network {
    #[verifier::type_invariant]
    closed spec fn valid(self) -> bool {
        fits(self.addr, self.prefix_len)
    }

    /// An address of the network.
    pub closed spec fn ip(self) -> IpAddr {
        self.addr
    }

    /// How many leading bits its addresses share.
    pub closed spec fn prefix(self) -> u8 {
        self.prefix_len
    }

    /// Returns whether the network holds an address.
    pub fn contains(&self, ip: IpAddr) -> (r: bool)
        ensures
            r == in_network(self.ip(), self.prefix(), ip),
    {
        proof {
            use_type_invariant(self);
        }
        net_contains(self.addr, self.prefix_len, ip)
    }
}

/// The right-hand side of a rule as a value.
pub enum Pattern {
    /// A hostname and everything below it.
    Suffix(Seq<char>),
    /// Addresses that share a prefix with one.
    Cidr(IpAddr, u8),
    /// A port.
    Port(u16),
    /// Hosts with this text in them.
    Keyword(Seq<char>),
}

/// No character is white space.
pub open spec fn no_white(s: Seq<char>) -> bool {
    forall|i: int| 0 <= i < s.len() ==> !is_white(#[trigger] s[i])
}

/// A hostname without white space, wildcard or leading dot.
pub open spec fn suffix_read(value: Seq<char>) -> Option<Seq<char>> {
    let s = normalized(value);
    if s.len() > 0 && no_white(s) && s[0] != '.' && !s.contains('*') {
        Some(s)
    } else {
        None
    }
}

/// A text without white space, in lower case.
pub open spec fn keyword_read(value: Seq<char>) -> Option<Seq<char>> {
    let s = lower_case(value);
    if s.len() > 0 && no_white(s) {
        Some(s)
    } else {
        None
    }
}

/// What a rule's value reads as.
pub open spec fn pattern_read(kind: RuleKind, value: Seq<char>) -> Option<Pattern> {
    match kind {
        RuleKind::Suffix => match suffix_read(value) {
            Some(s) => Some(Pattern::Suffix(s)),
            None => None,
        },
        RuleKind::Cidr => match network_read(value) {
            Some((addr, prefix_len)) => Some(Pattern::Cidr(addr, prefix_len)),
            None => None,
        },
        RuleKind::Port => match number(value, 0xffff) {
            Some(port) => Some(Pattern::Port(port as u16)),
            None => None,
        },
        RuleKind::Keyword => match keyword_read(value) {
            Some(s) => Some(Pattern::Keyword(s)),
            None => None,
        },
    }
}

/// Whether a name is the suffix or ends in a dot and the suffix.
pub open spec fn under(name: Seq<char>, suffix: Seq<char>) -> bool {
    ||| name == suffix
    ||| ends(name, suffix) && name.len() > suffix.len() && name[name.len() - suffix.len() - 1]
        == '.'
}

impl Pattern {
    /// What the pattern matches on.
    pub open spec fn kind(self) -> RuleKind {
        match self {
            Pattern::Suffix(_) => RuleKind::Suffix,
            Pattern::Cidr(_, _) => RuleKind::Cidr,
            Pattern::Port(_) => RuleKind::Port,
            Pattern::Keyword(_) => RuleKind::Keyword,
        }
    }

    /// Whether a destination matches: a normalized name, the address it was written as, a port.
    pub open spec fn accepts(self, name: Seq<char>, ip: Option<IpAddr>, port: u16) -> bool {
        match self {
            Pattern::Suffix(suffix) => under(name, suffix),
            Pattern::Cidr(addr, prefix_len) => ip matches Some(ip) && in_network(addr, prefix_len, ip),
            Pattern::Port(expected) => expected == port,
            Pattern::Keyword(keyword) => occurs(name, keyword),
        }
    }
}

/// Hostname suffix matched exactly or on a dot boundary.
#[derive(Debug, PartialEq, Eq)]
pub struct Suffix(String);

impl Clone for Suffix {
    fn clone(&self) -> (r: Self)
        ensures
            r == *self,
    {
        Suffix(self.0.clone())
    }
}

impl Suffix {
    /// The suffix in lower case.
    pub closed spec fn text(&self) -> Seq<char> {
        self.0@
    }

    /// Reads a suffix.
    ///
    /// # Errors
    ///
    /// Returns [`InvalidRule`] where the value is no hostname.
    pub fn parse(value: &RuleValue) -> (r: Result<Suffix, InvalidRule>)
        ensures
            match suffix_read(value.0@) {
                Some(s) => r matches Ok(suffix) && suffix.text() == s,
                None => r matches Err(e) && e.text() == rejection(RuleKind::Suffix, value.0@),
            },
    {
        let suffix = text::lowercase(text::strip_last(value.0.as_str(), '.'));
        if suffix.as_str().is_empty() || text::contains_white(suffix.as_str())
            || suffix.as_str().get_char(0) == '.' || text::contains_char(suffix.as_str(), '*') {
            return Err(InvalidRule::new(RuleKind::Suffix, value));
        }
        Ok(Suffix(suffix))
    }

    /// Returns whether a host is the suffix or lies below it.
    pub fn matches(&self, host: &NormalizedHost) -> (r: bool)
        ensures
            r == under(host.name(), self.text()),
    {
        let name = host.as_str();
        if text::same(name, self.0.as_str()) {
            return true;
        }
        match text::strip_suffix(name, self.0.as_str()) {
            None => false,
            Some(head) => {
                let n = head.unicode_len();
                n > 0 && head.get_char(n - 1) == '.'
            },
        }
    }
}

/// Substring matched against the host and never against the port.
#[derive(Debug, PartialEq, Eq)]
pub struct Keyword(String);

impl Clone for Keyword {
    fn clone(&self) -> (r: Self)
        ensures
            r == *self,
    {
        Keyword(self.0.clone())
    }
}

impl Keyword {
    /// The keyword in lower case.
    pub closed spec fn text(&self) -> Seq<char> {
        self.0@
    }

    /// Reads a keyword.
    ///
    /// # Errors
    ///
    /// Returns [`InvalidRule`] where the value is empty or holds white space.
    pub fn parse(value: &RuleValue) -> (r: Result<Keyword, InvalidRule>)
        ensures
            match keyword_read(value.0@) {
                Some(s) => r matches Ok(keyword) && keyword.text() == s,
                None => r matches Err(e) && e.text() == rejection(RuleKind::Keyword, value.0@),
            },
    {
        let keyword = text::lowercase(value.0.as_str());
        if keyword.as_str().is_empty() || text::contains_white(keyword.as_str()) {
            return Err(InvalidRule::new(RuleKind::Keyword, value));
        }
        Ok(Keyword(keyword))
    }

    /// Returns whether the keyword stands in a host.
    pub fn matches(&self, host: &NormalizedHost) -> (r: bool)
        ensures
            r == occurs(host.name(), self.text()),
    {
        text::contains(host.as_str(), self.0.as_str())
    }
}

/// Right-hand side of a rule, ready to match destinations against.
#[derive(Debug, PartialEq, Eq)]
pub enum Matcher {
    /// Matches a hostname exactly or on a dot boundary.
    Suffix(Suffix),
    /// Matches hosts that read as an IP literal inside the network.
    Cidr(Network),
    /// Matches an exact destination port.
    Port(Port),
    /// Matches a substring of the host.
    Keyword(Keyword),
}

impl Clone for Matcher {
    fn clone(&self) -> (r: Self)
        ensures
            r == *self,
    {
        match self {
            Self::Suffix(suffix) => Self::Suffix(suffix.clone()),
            Self::Cidr(network) => Self::Cidr(*network),
            Self::Port(port) => Self::Port(*port),
            Self::Keyword(keyword) => Self::Keyword(keyword.clone()),
        }
    }
}

impl Matcher {
    /// What the matcher matches.
    pub open spec fn pattern(&self) -> Pattern {
        match self {
            Matcher::Suffix(suffix) => Pattern::Suffix(suffix.text()),
            Matcher::Cidr(network) => Pattern::Cidr(network.ip(), network.prefix()),
            Matcher::Port(port) => Pattern::Port(port.0),
            Matcher::Keyword(keyword) => Pattern::Keyword(keyword.text()),
        }
    }

    /// Reads a rule value according to its kind.
    ///
    /// # Errors
    ///
    /// Returns [`InvalidRule`] where the value cannot be read as the kind.
    pub fn parse(kind: RuleKind, value: &RuleValue) -> (r: Result<Matcher, InvalidRule>)
        ensures
            match pattern_read(kind, value.0@) {
                Some(pattern) => r matches Ok(matcher) && matcher.pattern() == pattern,
                None => r matches Err(e) && e.text() == rejection(kind, value.0@),
            },
            kind == RuleKind::Cidr && !value.0@.contains('/') ==> r is Err,
            forall|addr: IpAddr, prefix_len: u8|
                kind == RuleKind::Cidr && fits(addr, prefix_len) && value.0@
                    == #[trigger] network_text(addr, prefix_len) ==> (r matches Ok(matcher)
                    && matcher.pattern() == Pattern::Cidr(addr, prefix_len)),
    {
        match kind {
            RuleKind::Suffix => match Suffix::parse(value) {
                Ok(suffix) => Ok(Matcher::Suffix(suffix)),
                Err(e) => Err(e),
            },
            RuleKind::Cidr => match parse_network(value) {
                Ok(network) => Ok(Matcher::Cidr(network)),
                Err(e) => Err(e),
            },
            RuleKind::Port => match parse_port(value) {
                Ok(port) => Ok(Matcher::Port(port)),
                Err(e) => Err(e),
            },
            RuleKind::Keyword => match Keyword::parse(value) {
                Ok(keyword) => Ok(Matcher::Keyword(keyword)),
                Err(e) => Err(e),
            },
        }
    }

    /// Returns what this matcher matches on.
    pub fn kind(&self) -> (r: RuleKind)
        ensures
            r == self.pattern().kind(),
    {
        match self {
            Self::Suffix(_) => RuleKind::Suffix,
            Self::Cidr(_) => RuleKind::Cidr,
            Self::Port(_) => RuleKind::Port,
            Self::Keyword(_) => RuleKind::Keyword,
        }
    }

    /// Returns whether a destination matches.
    pub fn matches(&self, host: &NormalizedHost, port: Port) -> (r: bool)
        ensures
            r == self.pattern().accepts(host.name(), host.ip(), port.0),
    {
        match self {
            Self::Suffix(suffix) => suffix.matches(host),
            Self::Cidr(network) => match host.address() {
                None => false,
                Some(address) => network.contains(address),
            },
            Self::Port(expected) => expected.0 == port.0,
            Self::Keyword(keyword) => keyword.matches(host),
        }
    }
}

/// Reads a network.
///
/// # Errors
///
/// Returns [`InvalidRule`] where the value is none.
pub fn parse_network(value: &RuleValue) -> (r: Result<Network, InvalidRule>)
    ensures
        match network_read(value.0@) {
            Some((addr, prefix_len)) => r matches Ok(network) && network.ip() == addr
                && network.prefix() == prefix_len,
            None => r matches Err(e) && e.text() == rejection(RuleKind::Cidr, value.0@),
        },
        !value.0@.contains('/') ==> r is Err,
        forall|addr: IpAddr, prefix_len: u8|
            fits(addr, prefix_len) && value.0@ == #[trigger] network_text(addr, prefix_len) ==> (
            r matches Ok(network) && network.ip() == addr && network.prefix() == prefix_len),
{
    match read_network(value.0.as_str()) {
        Some((addr, prefix_len)) => Ok(Network { addr, prefix_len }),
        None => Err(InvalidRule::new(RuleKind::Cidr, value)),
    }
}

/// Reads a port.
///
/// # Errors
///
/// Returns [`InvalidRule`] where the value is no number up to 65535.
pub fn parse_port(value: &RuleValue) -> (r: Result<Port, InvalidRule>)
    ensures
        match number(value.0@, 0xffff) {
            Some(port) => r == Ok::<Port, InvalidRule>(Port(port as u16)),
            None => r matches Err(e) && e.text() == rejection(RuleKind::Port, value.0@),
        },
{
    match text::read_number(value.0.as_str(), 0xffff) {
        Some(port) => Ok(Port(port as u16)),
        None => Err(InvalidRule::new(RuleKind::Port, value)),
    }
}

/// A `cidr` rule never matches a host that is no IP literal.
pub proof fn law_cidr_matches_addresses_only(
    addr: IpAddr,
    prefix_len: u8,
    name: Seq<char>,
    port: u16,
)
    requires
        ip_read(name) is None,
    ensures
        !Pattern::Cidr(addr, prefix_len).accepts(name, ip_read(name), port),
{
}

/// A suffix matches itself and every name one dot or more above it, and no name that merely ends
/// in the same letters.
pub proof fn law_suffix_stops_at_dots(head: Seq<char>, suffix: Seq<char>, port: u16)
    requires
        head.len() > 0,
    ensures
        Pattern::Suffix(suffix).accepts(suffix, ip_read(suffix), port),
        Pattern::Suffix(suffix).accepts(head + suffix, ip_read(head + suffix), port) <==> head.last()
            == '.',
{
    let name = head + suffix;
    assert(name.subrange(name.len() - suffix.len(), name.len() as int) =~= suffix);
    assert(name[name.len() - suffix.len() - 1] == head.last());
}

/// Only a `port` rule looks at the port, and it looks at nothing else.
pub proof fn law_only_port_rules_look_at_the_port(
    pattern: Pattern,
    name: Seq<char>,
    ip: Option<IpAddr>,
    port: u16,
    other_name: Seq<char>,
    other_ip: Option<IpAddr>,
    other_port: u16,
)
    ensures
        pattern.kind() != RuleKind::Port ==> pattern.accepts(name, ip, port) == pattern.accepts(
            name,
            ip,
            other_port,
        ),
        pattern.kind() == RuleKind::Port ==> pattern.accepts(name, ip, port) == pattern.accepts(
            other_name,
            other_ip,
            port,
        ),
{
}

/// The case of ASCII letters changes nothing about how a host is compared, nor about what a suffix
/// or a keyword reads as.
pub proof fn law_case_is_ignored(a: Seq<char>, b: Seq<char>)
    requires
        is_ascii_chars(a),
        is_ascii_chars(b),
        ascii_lowered(a) == ascii_lowered(b),
    ensures
        normalized(a) == normalized(b),
        suffix_read(a) == suffix_read(b),
        keyword_read(a) == keyword_read(b),
{
    assert(a.len() == ascii_lowered(a).len() && b.len() == ascii_lowered(b).len());
    assert(a.len() == b.len());
    if a.len() > 0 {
        let last = a.len() - 1;
        assert(ascii_lowered(a)[last] == ascii_lowered(b)[last]);
        assert(ascii_lowered(a)[last] == ascii_lower(a[last]));
        assert(ascii_lowered(b)[last] == ascii_lower(b[last]));
        assert(forall|c: char| #[trigger] ascii_lower(c) == '.' <==> c == '.');
        assert(a.last() == '.' <==> b.last() == '.');
        let (s, t) = (a.drop_last(), b.drop_last());
        assert(is_ascii_chars(s) && is_ascii_chars(t)) by {
            assert(forall|i: int| 0 <= i < s.len() ==> s[i] == a[i] && t[i] == b[i]);
        }
        assert(ascii_lowered(s) =~= ascii_lowered(a).drop_last());
        assert(ascii_lowered(t) =~= ascii_lowered(b).drop_last());
    }
}

/// A trailing dot changes nothing about how a host without one is compared, nor about what a suffix
/// reads as.
pub proof fn law_trailing_dot_is_ignored(host: Seq<char>)
    requires
        host.len() > 0 ==> host.last() != '.',
    ensures
        normalized(host.push('.')) == normalized(host),
        suffix_read(host.push('.')) == suffix_read(host),
{
    assert(host.push('.').drop_last() =~= host);
}

/// A keyword matches wherever it stands in the host, and only a host it stands in.
pub proof fn law_a_keyword_matches_anywhere_in_the_host(
    before: Seq<char>,
    keyword: Seq<char>,
    after: Seq<char>,
    name: Seq<char>,
    ip: Option<IpAddr>,
    port: u16,
)
    ensures
        Pattern::Keyword(keyword).accepts(before + keyword + after, ip, port),
        Pattern::Keyword(keyword).accepts(name, ip, port) ==> exists|a: Seq<char>, b: Seq<char>|
            name == #[trigger] (a + keyword + b),
{
    text::law_occurring_is_being_a_part(before, keyword, after, name);
}

/// A suffix matches itself and every name with a dot and the suffix at its end, and no other.
pub proof fn law_a_suffix_matches_itself_and_what_is_below(
    below: Seq<char>,
    suffix: Seq<char>,
    name: Seq<char>,
    ip: Option<IpAddr>,
    port: u16,
)
    ensures
        Pattern::Suffix(suffix).accepts(suffix, ip, port),
        Pattern::Suffix(suffix).accepts(below.push('.') + suffix, ip, port),
        Pattern::Suffix(suffix).accepts(name, ip, port) ==> name == suffix || exists|a: Seq<char>|
            name == #[trigger] (a.push('.') + suffix),
{
    text::law_beginnings_and_endings(below.push('.'), suffix);
    assert((below.push('.') + suffix)[below.len() as int] == '.');
    if Pattern::Suffix(suffix).accepts(name, ip, port) && name != suffix {
        text::law_beginnings_and_endings(name, suffix);
        let a = name.take(name.len() - suffix.len() - 1);
        assert(a.push('.') =~= name.take(name.len() - suffix.len()));
        assert(name == a.push('.') + suffix);
    }
}

/// A port rule matches its port, whatever the host.
pub proof fn law_a_port_matches_itself(expected: u16, name: Seq<char>, ip: Option<IpAddr>, port: u16)
    ensures
        Pattern::Port(expected).accepts(name, ip, port) <==> expected == port,
{
}

/// A network of version 4 holds the addresses from its first to its last: as many as the bits behind
/// the prefix can number, counted from an address whose bits behind the prefix are zero. It holds no
/// address of version 6 and no name.
pub proof fn law_a_version_4_network_is_a_run_of_addresses(
    first: u32,
    v: u32,
    v6: u128,
    size: nat,
    prefix_len: u8,
    name: Seq<char>,
    port: u16,
)
    requires
        prefix_len <= 32,
        size == pow2((32 - prefix_len) as nat),
        first as nat % size == 0,
    ensures
        Pattern::Cidr(IpAddr::V4(first), prefix_len).accepts(name, Some(IpAddr::V4(v)), port) <==> first
            <= v < first + size,
        !Pattern::Cidr(IpAddr::V4(first), prefix_len).accepts(name, Some(IpAddr::V6(v6)), port),
        !Pattern::Cidr(IpAddr::V4(first), prefix_len).accepts(name, None, port),
{
    vstd::arithmetic::power2::lemma_pow2_pos((32 - prefix_len) as nat);
    lemma_same_block(first as nat, v as nat, size);
}

/// A network of version 6 holds the addresses from its first to its last, and neither an address of
/// version 4 nor a name.
pub proof fn law_a_version_6_network_is_a_run_of_addresses(
    first: u128,
    v: u128,
    v4: u32,
    size: nat,
    prefix_len: u8,
    name: Seq<char>,
    port: u16,
)
    requires
        prefix_len <= 128,
        size == pow2((128 - prefix_len) as nat),
        first as nat % size == 0,
    ensures
        Pattern::Cidr(IpAddr::V6(first), prefix_len).accepts(name, Some(IpAddr::V6(v)), port) <==> first
            <= v < first + size,
        !Pattern::Cidr(IpAddr::V6(first), prefix_len).accepts(name, Some(IpAddr::V4(v4)), port),
        !Pattern::Cidr(IpAddr::V6(first), prefix_len).accepts(name, None, port),
{
    vstd::arithmetic::power2::lemma_pow2_pos((128 - prefix_len) as nat);
    lemma_same_block(first as nat, v as nat, size);
}

/// Two addresses are in the same networks of a prefix exactly where they agree in it: whichever of
/// them a network is written with, it holds the same addresses.
pub proof fn law_a_network_may_be_written_with_any_of_its_addresses(
    a: IpAddr,
    b: IpAddr,
    prefix_len: u8,
    ip: IpAddr,
    name: Seq<char>,
    port: u16,
)
    requires
        Pattern::Cidr(a, prefix_len).accepts(name, Some(b), port),
    ensures
        Pattern::Cidr(a, prefix_len).accepts(name, Some(ip), port) == Pattern::Cidr(
            b,
            prefix_len,
        ).accepts(name, Some(ip), port),
        Pattern::Cidr(a, prefix_len).accepts(name, Some(a), port),
{
}

proof fn lemma_same_block(first: nat, v: nat, size: nat)
    requires
        size > 0,
        first % size == 0,
    ensures
        v / size == first / size <==> first <= v < first + size,
{
    vstd::arithmetic::div_mod::lemma_fundamental_div_mod(first as int, size as int);
    vstd::arithmetic::div_mod::lemma_fundamental_div_mod(v as int, size as int);
    let q = (v / size) as int;
    let p = (first / size) as int;
    let s = size as int;
    assert(q < p ==> s * q + s <= s * p) by (nonlinear_arith)
        requires
            s > 0,
    ;
    assert(q > p ==> s * q >= s * p + s) by (nonlinear_arith)
        requires
            s > 0,
    ;
    assert(q == p ==> s * q == s * p);
}

/// A host is matched without its case and without one trailing dot.
pub proof fn law_a_host_is_matched_without_case_and_trailing_dot(host: Seq<char>, i: int)
    requires
        is_ascii_chars(host),
        host.len() > 0 ==> host.last() != '.',
        0 <= i < host.len(),
    ensures
        normalized(host).len() == host.len(),
        normalized(host.push('.')) == normalized(host),
        'A' <= host[i] && host[i] <= 'Z' ==> normalized(host)[i] as int - 'a' as int == host[i] as int
            - 'A' as int,
        !('A' <= host[i] && host[i] <= 'Z') ==> normalized(host)[i] == host[i],
        normalized(host.push('.').push('.')).len() == host.len() + 1,
{
    law_trailing_dot_is_ignored(host);
    text::law_lower_case_of_ascii(host, i);
    let dotted = host.push('.');
    assert(dotted.push('.').drop_last() =~= dotted);
    assert(is_ascii_chars(dotted));
}

/// Whether a text can name a host in a rule: ASCII without white space and control characters.
pub open spec fn is_visible(s: Seq<char>) -> bool {
    s.len() > 0 && forall|i: int| 0 <= i < s.len() ==> '!' <= #[trigger] s[i] && s[i] <= '~'
}

/// Every visible text is a keyword and stands for itself in lower case; nothing with a space in it
/// and no empty text is one.
pub proof fn law_what_a_keyword_is(value: Seq<char>, i: int)
    requires
        is_ascii_chars(value),
    ensures
        is_visible(value) ==> pattern_read(RuleKind::Keyword, value) == Some(
            Pattern::Keyword(ascii_lowered(value)),
        ),
        value.len() == 0 ==> pattern_read(RuleKind::Keyword, value) is None,
        0 <= i < value.len() && (value[i] == ' ' || value[i] == '\t') ==> pattern_read(
            RuleKind::Keyword,
            value,
        ) is None,
{
    let s = ascii_lowered(value);
    if is_visible(value) {
        assert forall|j: int| 0 <= j < s.len() implies !is_white(#[trigger] s[j]) by {
            assert('!' <= value[j] && value[j] <= '~');
        }
    }
    if 0 <= i < value.len() && (value[i] == ' ' || value[i] == '\t') {
        assert(is_white(s[i]));
    }
}

/// Every visible text is a suffix and stands for itself in lower case, a trailing dot left out,
/// unless it begins with a dot or holds an asterisk; those, an empty text, a lone dot and one with a
/// space in it are none.
pub proof fn law_what_a_suffix_is(value: Seq<char>, i: int)
    requires
        is_ascii_chars(value),
        value.len() > 0 ==> value.last() != '.',
    ensures
        is_visible(value) && value[0] != '.' && !value.contains('*') ==> pattern_read(
            RuleKind::Suffix,
            value,
        ) == Some(Pattern::Suffix(ascii_lowered(value))),
        pattern_read(RuleKind::Suffix, value.push('.')) == pattern_read(RuleKind::Suffix, value),
        value.len() == 0 ==> pattern_read(RuleKind::Suffix, value) is None,
        value.len() > 0 && value[0] == '.' ==> pattern_read(RuleKind::Suffix, value) is None,
        value.contains('*') ==> pattern_read(RuleKind::Suffix, value) is None,
        0 <= i < value.len() && (value[i] == ' ' || value[i] == '\t') ==> pattern_read(
            RuleKind::Suffix,
            value,
        ) is None,
{
    law_trailing_dot_is_ignored(value);
    let s = ascii_lowered(value);
    assert(normalized(value) == s);
    if is_visible(value) {
        assert forall|j: int| 0 <= j < s.len() implies !is_white(#[trigger] s[j]) by {
            assert('!' <= value[j] && value[j] <= '~');
        }
    }
    if s.contains('*') {
        let j = choose|j: int| 0 <= j < s.len() && s[j] == '*';
        assert(value[j] == '*');
    }
    if value.contains('*') {
        let j = choose|j: int| 0 <= j < value.len() && value[j] == '*';
        assert(s[j] == '*');
    }
    if 0 <= i < value.len() && (value[i] == ' ' || value[i] == '\t') {
        assert(is_white(s[i]));
    }
}

/// A port is a number up to 65535 in decimal; a larger one, a range and a word are none.
pub proof fn law_what_a_port_is(n: nat, value: Seq<char>, i: int)
    ensures
        pattern_read(RuleKind::Port, decimal(n)) == if n <= 65535 {
            Some(Pattern::Port(n as u16))
        } else {
            None
        },
        value.len() == 0 ==> pattern_read(RuleKind::Port, value) is None,
        0 <= i < value.len() && !('0' <= value[i] && value[i] <= '9') && (i > 0 || value[i] != '+')
            ==> pattern_read(RuleKind::Port, value) is None,
{
    text::law_decimal_reads_back(n);
    text::law_what_a_number_is(decimal(n), 0xffff);
    text::law_what_a_number_is(value, 0xffff);
    assert forall|j: int| 0 <= j < decimal(n).len() implies '0' <= #[trigger] decimal(n)[j] && decimal(
        n,
    )[j] <= '9' by {
        assert(text::is_digit(decimal(n)[j]));
    }
}

/// The four kinds are written as four different words.
pub proof fn law_the_kinds_have_their_names()
    ensures
        kind_text(RuleKind::Suffix) == "suffix"@,
        kind_text(RuleKind::Cidr) == "cidr"@,
        kind_text(RuleKind::Port) == "port"@,
        kind_text(RuleKind::Keyword) == "keyword"@,
{
}

/// A value that cannot be read is told with its kind, the value in quotes and what was expected.
pub proof fn law_how_a_rejected_value_is_told(value: Seq<char>)
    ensures
        rejection(RuleKind::Suffix, value) == "invalid "@ + "suffix"@ + " value "@ + in_quotes(value)
            + ": expected "@ + "a hostname such as example.com"@,
        rejection(RuleKind::Cidr, value) == "invalid "@ + "cidr"@ + " value "@ + in_quotes(value)
            + ": expected "@ + "a network such as 192.0.2.0/24"@,
        rejection(RuleKind::Port, value) == "invalid "@ + "port"@ + " value "@ + in_quotes(value)
            + ": expected "@ + "a single port between 0 and 65535, ranges are not supported"@,
        rejection(RuleKind::Keyword, value) == "invalid "@ + "keyword"@ + " value "@ + in_quotes(value)
            + ": expected "@ + "a non-empty substring of a hostname"@,
{
}

/// A network is read through the outside parser, and the pattern is what it reads.
pub proof fn law_a_network_is_what_was_read(value: Seq<char>)
    ensures
        network_read(value) is None ==> pattern_read(RuleKind::Cidr, value) is None,
        network_read(value) matches Some((addr, prefix_len)) ==> pattern_read(RuleKind::Cidr, value)
            == Some(Pattern::Cidr(addr, prefix_len)),
        forall|addr: IpAddr, prefix_len: u8|
            #[trigger] network_text(addr, prefix_len) == ip_text(addr) + "/"@ + decimal(
                prefix_len as nat,
            ),
{
}

/// Each pattern is of the kind it was read as.
pub proof fn law_a_pattern_is_of_its_kind(kind: RuleKind, value: Seq<char>)
    ensures
        pattern_read(kind, value) matches Some(pattern) ==> pattern.kind() == kind,
        pattern_read(RuleKind::Suffix, value) matches Some(pattern) ==> pattern is Suffix,
        pattern_read(RuleKind::Cidr, value) matches Some(pattern) ==> pattern is Cidr,
        pattern_read(RuleKind::Port, value) matches Some(pattern) ==> pattern is Port,
        pattern_read(RuleKind::Keyword, value) matches Some(pattern) ==> pattern is Keyword,
{
}

} // verus!
