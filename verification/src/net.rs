//! IP and socket addresses: how they are written, read and compared.
use vstd::prelude::*;

use crate::text;
use crate::text::{decimal, fields, first_of, plain_number, views};

verus! {

/// An IP address, its bits read as one number.
#[derive(Debug, Clone, Copy, PartialEq, Eq, Structural)]
pub enum IpAddr {
    /// Version 4.
    V4(u32),
    /// Version 6.
    V6(u128),
}

/// Where a socket is bound or dialled.
#[derive(Debug, Clone, Copy, PartialEq, Eq, Structural)]
pub struct SocketAddr {
    /// Address.
    pub ip: IpAddr,
    /// Port.
    pub port: u16,
    /// Zone of a version 6 address, zero where there is none.
    pub scope: u32,
}

/// One to three digits, without a leading zero, for a number of at most 255.
pub open spec fn octet(s: Seq<char>) -> Option<nat> {
    if s.len() <= 3 && (s.len() > 1 ==> s[0] != '0') {
        plain_number(s, 255)
    } else {
        None
    }
}

/// The version 4 address with these octets.
pub open spec fn v4_of(a: nat, b: nat, c: nat, d: nat) -> u32 {
    (a * 0x100_0000 + b * 0x1_0000 + c * 0x100 + d) as u32
}

/// A version 4 address in dotted decimal.
pub open spec fn v4_read(s: Seq<char>) -> Option<u32> {
    let f = fields(s, '.');
    if f.len() == 4 && octet(f[0]) is Some && octet(f[1]) is Some && octet(f[2]) is Some && octet(
        f[3],
    ) is Some {
        Some(v4_of(octet(f[0])->0, octet(f[1])->0, octet(f[2])->0, octet(f[3])->0))
    } else {
        None
    }
}

/// A hexadecimal digit of either case.
pub open spec fn is_hex(c: char) -> bool {
    '0' <= c <= '9' || 'a' <= c <= 'f' || 'A' <= c <= 'F'
}

/// The number a hexadecimal digit stands for.
pub open spec fn hex_of(c: char) -> nat {
    if c <= '9' {
        (c as int - '0' as int) as nat
    } else if c <= 'F' {
        (c as int - 'A' as int + 10) as nat
    } else {
        (c as int - 'a' as int + 10) as nat
    }
}

/// The number a run of hexadecimal digits stands for.
pub open spec fn hex_value(s: Seq<char>) -> nat
    decreases s.len(),
{
    if s.len() == 0 {
        0
    } else {
        hex_value(s.drop_last()) * 16 + hex_of(s.last())
    }
}

/// One to four hexadecimal digits.
pub open spec fn group(s: Seq<char>) -> Option<u16> {
    if 1 <= s.len() <= 4 && forall|i: int| 0 <= i < s.len() ==> is_hex(#[trigger] s[i]) {
        Some(hex_value(s) as u16)
    } else {
        None
    }
}

/// The groups these pieces stand for; where `quad` holds the last may be a version 4 address.
pub open spec fn groups(f: Seq<Seq<char>>, quad: bool) -> Option<Seq<u16>>
    decreases f.len(),
{
    if f.len() == 0 {
        Some(Seq::empty())
    } else {
        match (groups(f.drop_last(), false), group(f.last()), v4_read(f.last())) {
            (Some(g), Some(last), _) => Some(g.push(last)),
            (Some(g), None, Some(v4)) if quad => Some(
                g.push((v4 / 0x1_0000) as u16).push((v4 % 0x1_0000) as u16),
            ),
            _ => None,
        }
    }
}

/// The groups of one side of a version 6 address, which may be empty.
pub open spec fn side(s: Seq<char>, quad: bool) -> Option<Seq<u16>> {
    if s.len() == 0 {
        Some(Seq::empty())
    } else {
        groups(fields(s, ':'), quad)
    }
}

/// Position of the first two colons in a row, or the length when there are none.
pub open spec fn gap(s: Seq<char>) -> nat
    decreases s.len(),
{
    if s.len() < 2 {
        s.len()
    } else if s[0] == ':' && s[1] == ':' {
        0
    } else {
        1 + gap(s.skip(1))
    }
}

/// The version 6 address of eight groups.
pub open spec fn v6_of(g: Seq<u16>) -> u128 {
    (g[0] * 0x1_0000_0000_0000_0000_0000_0000_0000 + g[1] * 0x1_0000_0000_0000_0000_0000_0000 + g[2]
        * 0x1_0000_0000_0000_0000_0000 + g[3] * 0x1_0000_0000_0000_0000 + g[4] * 0x1_0000_0000_0000
        + g[5] * 0x1_0000_0000 + g[6] * 0x1_0000 + g[7]) as u128
}

/// That many groups of nothing.
pub open spec fn zeros(n: nat) -> Seq<u16> {
    Seq::new(n, |i: int| 0u16)
}

/// A version 6 address: eight groups, or fewer around one `::`.
pub open spec fn v6_read(s: Seq<char>) -> Option<u128> {
    let k = gap(s) as int;
    if k + 2 > s.len() {
        match side(s, true) {
            Some(g) if g.len() == 8 => Some(v6_of(g)),
            _ => None,
        }
    } else {
        match (side(s.take(k), false), side(s.skip(k + 2), true)) {
            (Some(l), Some(r)) if l.len() + r.len() <= 7 => Some(
                v6_of(l + zeros((8 - l.len() - r.len()) as nat) + r),
            ),
            _ => None,
        }
    }
}

/// An IP address as text.
pub open spec fn ip_read(s: Seq<char>) -> Option<IpAddr> {
    match (v4_read(s), v6_read(s)) {
        (Some(v4), _) => Some(IpAddr::V4(v4)),
        (None, Some(v6)) => Some(IpAddr::V6(v6)),
        (None, None) => None,
    }
}

/// A port as text: digits alone.
pub open spec fn port_read(s: Seq<char>) -> Option<u16> {
    match plain_number(s, 0xffff) {
        Some(n) => Some(n as u16),
        None => None,
    }
}

/// `address:port` of version 4.
pub open spec fn v4_socket_read(s: Seq<char>) -> Option<SocketAddr> {
    let k = first_of(s, ':') as int;
    if k >= s.len() {
        None
    } else {
        match (v4_read(s.take(k)), port_read(s.skip(k + 1))) {
            (Some(v4), Some(port)) => Some(SocketAddr { ip: IpAddr::V4(v4), port, scope: 0 }),
            _ => None,
        }
    }
}

/// The address between the brackets, with its zone where one is named.
pub open spec fn zoned_read(s: Seq<char>) -> Option<(u128, u32)> {
    let k = first_of(s, '%') as int;
    if k >= s.len() {
        match v6_read(s) {
            Some(v6) => Some((v6, 0u32)),
            None => None,
        }
    } else {
        match (v6_read(s.take(k)), plain_number(s.skip(k + 1), 0xffff_ffff)) {
            (Some(v6), Some(scope)) => Some((v6, scope as u32)),
            _ => None,
        }
    }
}

/// `[address]:port` of version 6.
pub open spec fn v6_socket_read(s: Seq<char>) -> Option<SocketAddr> {
    let k = first_of(s, ']') as int;
    if s.len() == 0 || s[0] != '[' || k + 1 >= s.len() || s[k + 1] != ':' {
        None
    } else {
        match (zoned_read(s.subrange(1, k)), port_read(s.skip(k + 2))) {
            (Some((v6, scope)), Some(port)) => Some(SocketAddr { ip: IpAddr::V6(v6), port, scope }),
            _ => None,
        }
    }
}

/// A socket address as text.
pub open spec fn socket_read(s: Seq<char>) -> Option<SocketAddr> {
    if s.len() > 0 && s[0] == '[' {
        v6_socket_read(s)
    } else {
        v4_socket_read(s)
    }
}

/// The eight groups of a version 6 address.
pub open spec fn segments(v: u128) -> Seq<u16> {
    seq![
        (v / 0x1_0000_0000_0000_0000_0000_0000_0000) as u16,
        ((v / 0x1_0000_0000_0000_0000_0000_0000) % 0x1_0000) as u16,
        ((v / 0x1_0000_0000_0000_0000_0000) % 0x1_0000) as u16,
        ((v / 0x1_0000_0000_0000_0000) % 0x1_0000) as u16,
        ((v / 0x1_0000_0000_0000) % 0x1_0000) as u16,
        ((v / 0x1_0000_0000) % 0x1_0000) as u16,
        ((v / 0x1_0000) % 0x1_0000) as u16,
        (v % 0x1_0000) as u16,
    ]
}

/// The digit that stands for a number below sixteen, in lower case.
pub open spec fn hex_char(n: nat) -> char {
    if n < 10 {
        ('0' as int + n) as char
    } else {
        ('a' as int + n - 10) as char
    }
}

/// A number in lower-case hexadecimal, without leading zeros.
pub open spec fn hexadecimal(n: nat) -> Seq<char>
    decreases n,
{
    if n < 16 {
        seq![hex_char(n)]
    } else {
        hexadecimal(n / 16).push(hex_char(n % 16))
    }
}

/// Groups in hexadecimal with colons between them.
pub open spec fn colons(g: Seq<u16>) -> Seq<char>
    decreases g.len(),
{
    if g.len() == 0 {
        Seq::empty()
    } else if g.len() == 1 {
        hexadecimal(g[0] as nat)
    } else {
        colons(g.drop_last()) + ":"@ + hexadecimal(g.last() as nat)
    }
}

/// How many groups from `i` on are zero without a break.
pub open spec fn zero_run(g: Seq<u16>, i: int) -> nat
    decreases g.len() - i,
{
    if 0 <= i < g.len() && g[i] == 0 {
        1 + zero_run(g, i + 1)
    } else {
        0
    }
}

/// Start of the longest run of zero groups among the first `n` starts, the first of equals.
pub open spec fn longest(g: Seq<u16>, n: nat) -> int
    decreases n,
{
    if n == 0 {
        0
    } else {
        let before = longest(g, (n - 1) as nat);
        if zero_run(g, n - 1) > zero_run(g, before) {
            n - 1
        } else {
            before
        }
    }
}

/// A version 4 address in dotted decimal.
pub open spec fn v4_text(v: u32) -> Seq<char> {
    decimal((v / 0x100_0000) as nat) + "."@ + decimal(((v / 0x1_0000) % 0x100) as nat) + "."@
        + decimal(((v / 0x100) % 0x100) as nat) + "."@ + decimal((v % 0x100) as nat)
}

/// A version 6 address: mapped version 4 addresses in dotted decimal, the longest run of two or
/// more zero groups as `::`.
pub open spec fn v6_text(v: u128) -> Seq<char> {
    let g = segments(v);
    let start = longest(g, 8);
    let run = zero_run(g, start) as int;
    if v / 0x1_0000_0000 == 0xffff {
        "::ffff:"@ + v4_text((v % 0x1_0000_0000) as u32)
    } else if run > 1 {
        colons(g.take(start)) + "::"@ + colons(g.skip(start + run))
    } else {
        colons(g)
    }
}

/// An IP address as text.
pub open spec fn ip_text(ip: IpAddr) -> Seq<char> {
    match ip {
        IpAddr::V4(v) => v4_text(v),
        IpAddr::V6(v) => v6_text(v),
    }
}

/// A socket address as text: brackets around version 6, with its zone where it has one.
pub open spec fn socket_text(addr: SocketAddr) -> Seq<char> {
    match addr.ip {
        IpAddr::V4(v) => v4_text(v) + ":"@ + decimal(addr.port as nat),
        IpAddr::V6(v) => if addr.scope == 0 {
            "["@ + v6_text(v) + "]:"@ + decimal(addr.port as nat)
        } else {
            "["@ + v6_text(v) + "%"@ + decimal(addr.scope as nat) + "]:"@ + decimal(
                addr.port as nat,
            )
        },
    }
}

/// The version 4 address a version 6 one stands for, where it is a mapped one.
pub open spec fn canonical_ip(ip: IpAddr) -> IpAddr {
    match ip {
        IpAddr::V4(_) => ip,
        IpAddr::V6(v) => if v / 0x1_0000_0000 == 0xffff {
            IpAddr::V4((v % 0x1_0000_0000) as u32)
        } else {
            ip
        },
    }
}

/// Whether an address is one of this host's loopback addresses.
pub open spec fn loopback_ip(ip: IpAddr) -> bool {
    match ip {
        IpAddr::V4(v) => v / 0x100_0000 == 127,
        IpAddr::V6(v) => v == 1,
    }
}

/// Whether an address is the one that stands for any.
pub open spec fn unspecified_ip(ip: IpAddr) -> bool {
    match ip {
        IpAddr::V4(v) => v == 0,
        IpAddr::V6(v) => v == 0,
    }
}

fn read_octet(s: &str) -> (r: Option<u32>)
    ensures
        match r {
            Some(n) => octet(s@) == Some(n as nat) && n <= 255,
            None => octet(s@) is None,
        },
{
    let chars = text::chars_of(s);
    if chars.len() > 3 || (chars.len() > 1 && chars[0] == '0') {
        return None;
    }
    match text::read_plain_number(s, 255) {
        Some(n) => Some(n as u32),
        None => None,
    }
}

fn read_v4(s: &str) -> (r: Option<u32>)
    ensures
        r == v4_read(s@),
{
    let f = text::split(s, '.');
    if f.len() != 4 {
        assert(fields(s@, '.').len() != 4);
        return None;
    }
    assert(fields(s@, '.') =~= seq![f@[0]@, f@[1]@, f@[2]@, f@[3]@]);
    match (read_octet(f[0]), read_octet(f[1]), read_octet(f[2]), read_octet(f[3])) {
        (Some(a), Some(b), Some(c), Some(d)) => {
            Some(a * 0x100_0000 + b * 0x1_0000 + c * 0x100 + d)
        },
        _ => None,
    }
}

fn read_group(s: &str) -> (r: Option<u16>)
    ensures
        r == group(s@),
{
    let chars = text::chars_of(s);
    if chars.len() == 0 || chars.len() > 4 {
        return None;
    }
    let mut value: u32 = 0;
    let mut i: usize = 0;
    while i < chars.len()
        invariant
            chars@ == s@,
            i <= chars.len() <= 4,
            forall|j: int| 0 <= j < i ==> is_hex(#[trigger] s@[j]),
            value == hex_value(s@.take(i as int)),
            i == 0 ==> value < 1,
            i == 1 ==> value < 0x10,
            i == 2 ==> value < 0x100,
            i == 3 ==> value < 0x1000,
            i == 4 ==> value < 0x1_0000,
        decreases chars.len() - i,
    {
        let c = chars[i];
        let d: u32 = if '0' <= c && c <= '9' {
            c as u32 - '0' as u32
        } else if 'a' <= c && c <= 'f' {
            c as u32 - 'a' as u32 + 10
        } else if 'A' <= c && c <= 'F' {
            c as u32 - 'A' as u32 + 10
        } else {
            assert(!is_hex(s@[i as int]));
            return None;
        };
        assert(s@.take(i + 1).drop_last() =~= s@.take(i as int));
        assert(s@.take(i + 1).last() == c);
        value = value * 16 + d;
        i += 1;
    }
    assert(s@.take(i as int) =~= s@);
    Some(value as u16)
}

proof fn lemma_groups_prefix(f: Seq<Seq<char>>, i: int, quad: bool)
    requires
        0 <= i < f.len(),
        groups(f.take(i), false) is None || (group(f[i]) is None && i + 1 < f.len()) || (group(
            f[i],
        ) is None && !(quad && v4_read(f[i]) is Some)),
    ensures
        groups(f, quad) is None,
    decreases f.len(),
{
    let shorter = f.drop_last();
    if i + 1 < f.len() {
        assert(shorter.take(i) =~= f.take(i));
        lemma_groups_prefix(shorter, i, false);
    } else {
        assert(f.take(i) =~= shorter);
    }
}

fn read_side(s: &str, quad: bool) -> (r: Option<Vec<u16>>)
    ensures
        match r {
            Some(g) => side(s@, quad) == Some(g@),
            None => side(s@, quad) is None,
        },
{
    let mut g: Vec<u16> = Vec::new();
    if s.is_empty() {
        return Some(g);
    }
    let f = text::split(s, ':');
    let ghost parts = fields(s@, ':');
    let mut i: usize = 0;
    assert(parts.take(0) =~= Seq::<Seq<char>>::empty());
    while i < f.len()
        invariant
            s@.len() > 0,
            parts == fields(s@, ':'),
            views(f@) == parts,
            i <= f.len(),
            groups(parts.take(i as int), false) == Some(g@) || (i == f.len() && groups(
                parts.take(i as int),
                quad,
            ) == Some(g@)),
        decreases f.len() - i,
    {
        assert(parts[i as int] == f@[i as int]@);
        let ghost longer = parts.take(i + 1);
        assert(longer.drop_last() =~= parts.take(i as int));
        assert(longer.last() == parts[i as int]);
        match read_group(f[i]) {
            Some(v) => {
                g.push(v);
            },
            None => {
                if quad && i + 1 == f.len() {
                    match read_v4(f[i]) {
                        Some(v4) => {
                            g.push((v4 / 0x1_0000) as u16);
                            g.push((v4 % 0x1_0000) as u16);
                        },
                        None => {
                            proof {
                                lemma_groups_prefix(parts, i as int, quad);
                            }
                            return None;
                        },
                    }
                } else {
                    proof {
                        lemma_groups_prefix(parts, i as int, quad);
                    }
                    return None;
                }
            },
        }
        i += 1;
    }
    assert(parts.take(i as int) =~= parts);
    proof {
        if groups(parts, false) == Some(g@) {
            lemma_groups_without_quad(parts);
        }
    }
    Some(g)
}

proof fn lemma_groups_without_quad(f: Seq<Seq<char>>)
    requires
        groups(f, false) is Some,
    ensures
        groups(f, true) == groups(f, false),
{
}

fn find_gap(chars: &Vec<char>) -> (k: usize)
    ensures
        k == gap(chars@),
        k <= chars.len(),
{
    let n = chars.len();
    let mut k: usize = 0;
    assert(chars@.skip(0) =~= chars@);
    while k < n && n - k >= 2 && !(chars[k] == ':' && chars[k + 1] == ':')
        invariant
            n == chars.len(),
            k <= n,
            gap(chars@) == k + gap(chars@.skip(k as int)),
        decreases n - k,
    {
        assert(chars@.skip(k as int).skip(1) =~= chars@.skip(k + 1));
        k += 1;
    }
    if n - k < 2 {
        return n;
    }
    k
}

fn join_groups(g: &Vec<u16>) -> (r: u128)
    requires
        g.len() == 8,
    ensures
        r == v6_of(g@),
{
    g[0] as u128 * 0x1_0000_0000_0000_0000_0000_0000_0000 + g[1] as u128
        * 0x1_0000_0000_0000_0000_0000_0000 + g[2] as u128 * 0x1_0000_0000_0000_0000_0000
        + g[3] as u128 * 0x1_0000_0000_0000_0000 + g[4] as u128 * 0x1_0000_0000_0000 + g[5] as u128
        * 0x1_0000_0000 + g[6] as u128 * 0x1_0000 + g[7] as u128
}

fn read_v6(s: &str) -> (r: Option<u128>)
    ensures
        r == v6_read(s@),
{
    let chars = text::chars_of(s);
    let n = chars.len();
    let k = find_gap(&chars);
    if n - k < 2 {
        return match read_side(s, true) {
            Some(g) => {
                if g.len() == 8 {
                    Some(join_groups(&g))
                } else {
                    None
                }
            },
            None => None,
        };
    }
    let head = s.substring_char(0, k);
    let tail = s.substring_char(k + 2, n);
    assert(head@ =~= s@.take(k as int));
    assert(tail@ =~= s@.skip(k + 2));
    match (read_side(head, false), read_side(tail, true)) {
        (Some(l), Some(r)) => {
            if l.len() > 7 || r.len() > 7 - l.len() {
                return None;
            }
            let mut g: Vec<u16> = Vec::new();
            let mut i: usize = 0;
            while i < 8
                invariant
                    i <= 8,
                    g.len() == i,
                    l.len() + r.len() <= 7,
                    forall|j: int|
                        0 <= j < i ==> #[trigger] g@[j] == (l@ + zeros(
                            (8 - l.len() - r.len()) as nat,
                        ) + r@)[j],
                decreases 8 - i,
            {
                if i < l.len() {
                    g.push(l[i]);
                } else if i < 8 - r.len() {
                    g.push(0);
                } else {
                    g.push(r[i - (8 - r.len())]);
                }
                i += 1;
            }
            assert(g@ =~= l@ + zeros((8 - l.len() - r.len()) as nat) + r@);
            Some(join_groups(&g))
        },
        _ => None,
    }
}

fn read_port(s: &str) -> (r: Option<u16>)
    ensures
        r == port_read(s@),
{
    match text::read_plain_number(s, 0xffff) {
        Some(n) => Some(n as u16),
        None => None,
    }
}

fn read_zoned(s: &str) -> (r: Option<(u128, u32)>)
    ensures
        r == zoned_read(s@),
{
    match text::split_once(s, '%') {
        None => match read_v6(s) {
            Some(v6) => Some((v6, 0)),
            None => None,
        },
        Some((head, tail)) => match (read_v6(head), text::read_plain_number(tail, 0xffff_ffff)) {
            (Some(v6), Some(scope)) => Some((v6, scope as u32)),
            _ => None,
        },
    }
}

fn write_hex(n: u64) -> (r: String)
    ensures
        r@ == hexadecimal(n as nat),
    decreases n,
{
    if n < 16 {
        return hex_digit(n).to_owned();
    }
    let mut r = write_hex(n / 16);
    r.append(hex_digit(n % 16));
    assert(r@ =~= hexadecimal(n as nat));
    r
}

fn hex_digit(d: u64) -> (r: &'static str)
    requires
        d < 16,
    ensures
        r@ == seq![hex_char(d as nat)],
{
    proof {
        reveal_strlit("0");
        reveal_strlit("1");
        reveal_strlit("2");
        reveal_strlit("3");
        reveal_strlit("4");
        reveal_strlit("5");
        reveal_strlit("6");
        reveal_strlit("7");
        reveal_strlit("8");
        reveal_strlit("9");
        reveal_strlit("a");
        reveal_strlit("b");
        reveal_strlit("c");
        reveal_strlit("d");
        reveal_strlit("e");
        reveal_strlit("f");
    }
    match d {
        0 => "0",
        1 => "1",
        2 => "2",
        3 => "3",
        4 => "4",
        5 => "5",
        6 => "6",
        7 => "7",
        8 => "8",
        9 => "9",
        10 => "a",
        11 => "b",
        12 => "c",
        13 => "d",
        14 => "e",
        _ => "f",
    }
}

fn split_groups(v: u128) -> (r: Vec<u16>)
    ensures
        r@ == segments(v),
        r.len() == 8,
{
    let mut r: Vec<u16> = Vec::new();
    r.push((v / 0x1_0000_0000_0000_0000_0000_0000_0000) as u16);
    r.push(((v / 0x1_0000_0000_0000_0000_0000_0000) % 0x1_0000) as u16);
    r.push(((v / 0x1_0000_0000_0000_0000_0000) % 0x1_0000) as u16);
    r.push(((v / 0x1_0000_0000_0000_0000) % 0x1_0000) as u16);
    r.push(((v / 0x1_0000_0000_0000) % 0x1_0000) as u16);
    r.push(((v / 0x1_0000_0000) % 0x1_0000) as u16);
    r.push(((v / 0x1_0000) % 0x1_0000) as u16);
    r.push((v % 0x1_0000) as u16);
    assert(r@ =~= segments(v));
    r
}

fn write_groups(g: &Vec<u16>, from: usize, to: usize) -> (r: String)
    requires
        from <= to <= g.len(),
    ensures
        r@ == colons(g@.subrange(from as int, to as int)),
{
    let mut r = String::new();
    let mut i: usize = from;
    assert(g@.subrange(from as int, from as int) =~= Seq::<u16>::empty());
    while i < to
        invariant
            from <= i <= to <= g.len(),
            r@ == colons(g@.subrange(from as int, i as int)),
        decreases to - i,
    {
        let ghost longer = g@.subrange(from as int, i + 1);
        assert(longer.drop_last() =~= g@.subrange(from as int, i as int));
        if i > from {
            r.append(":");
            r.append(write_hex(g[i] as u64).as_str());
        } else {
            r = write_hex(g[i] as u64);
        }
        i += 1;
    }
    r
}

fn count_zeros(g: &Vec<u16>, from: usize) -> (n: usize)
    requires
        from <= g.len(),
    ensures
        n == zero_run(g@, from as int),
        from + n <= g.len(),
    decreases g.len() - from,
{
    if from < g.len() && g[from] == 0 {
        1 + count_zeros(g, from + 1)
    } else {
        0
    }
}

fn write_v4(v: u32) -> (r: String)
    ensures
        r@ == v4_text(v),
{
    let mut r = text::decimal_text((v / 0x100_0000) as u64);
    r.append(".");
    r.append(text::decimal_text(((v / 0x1_0000) % 0x100) as u64).as_str());
    r.append(".");
    r.append(text::decimal_text(((v / 0x100) % 0x100) as u64).as_str());
    r.append(".");
    r.append(text::decimal_text((v % 0x100) as u64).as_str());
    r
}

fn write_v6(v: u128) -> (r: String)
    ensures
        r@ == v6_text(v),
{
    if v / 0x1_0000_0000 == 0xffff {
        let mut r = "::ffff:".to_owned();
        r.append(write_v4((v % 0x1_0000_0000) as u32).as_str());
        return r;
    }
    let g = split_groups(v);
    let mut start: usize = 0;
    let mut run: usize = count_zeros(&g, 0);
    let mut n: usize = 0;
    while n < 8
        invariant
            g.len() == 8,
            n <= 8,
            start < 8,
            start == longest(g@, n as nat),
            run == zero_run(g@, start as int),
            start + run <= 8,
        decreases 8 - n,
    {
        let here = count_zeros(&g, n);
        if here > run {
            start = n;
            run = here;
        }
        n += 1;
    }
    if run > 1 {
        let mut r = write_groups(&g, 0, start);
        assert(g@.subrange(0, start as int) =~= g@.take(start as int));
        assert(g@.subrange(start + run, 8) =~= g@.skip(start + run));
        r.append("::");
        r.append(write_groups(&g, start + run, 8).as_str());
        return r;
    }
    assert(g@.subrange(0, 8) =~= g@);
    write_groups(&g, 0, 8)
}

impl IpAddr {
    /// Reads an address from its text.
    pub fn parse(s: &str) -> (r: Option<IpAddr>)
        ensures
            r == ip_read(s@),
    {
        match read_v4(s) {
            Some(v4) => Some(IpAddr::V4(v4)),
            None => match read_v6(s) {
                Some(v6) => Some(IpAddr::V6(v6)),
                None => None,
            },
        }
    }

    /// Returns the address as text.
    pub fn text(&self) -> (r: String)
        ensures
            r@ == ip_text(*self),
    {
        match self {
            IpAddr::V4(v) => write_v4(*v),
            IpAddr::V6(v) => write_v6(*v),
        }
    }

    /// Returns the version 4 address a mapped version 6 one stands for, any other as it is.
    pub fn to_canonical(&self) -> (r: IpAddr)
        ensures
            r == canonical_ip(*self),
    {
        match self {
            IpAddr::V4(_) => *self,
            IpAddr::V6(v) => {
                if *v / 0x1_0000_0000 == 0xffff {
                    IpAddr::V4((*v % 0x1_0000_0000) as u32)
                } else {
                    *self
                }
            },
        }
    }

    /// Returns whether this is a loopback address.
    pub fn is_loopback(&self) -> (r: bool)
        ensures
            r == loopback_ip(*self),
    {
        match self {
            IpAddr::V4(v) => *v / 0x100_0000 == 127,
            IpAddr::V6(v) => *v == 1,
        }
    }

    /// Returns whether this is the address that stands for any.
    pub fn is_unspecified(&self) -> (r: bool)
        ensures
            r == unspecified_ip(*self),
    {
        match self {
            IpAddr::V4(v) => *v == 0,
            IpAddr::V6(v) => *v == 0,
        }
    }
}

impl SocketAddr {
    /// Reads an address from its text.
    pub fn parse(s: &str) -> (r: Option<SocketAddr>)
        ensures
            r == socket_read(s@),
    {
        let chars = text::chars_of(s);
        if chars.len() == 0 || chars[0] != '[' {
            return match text::split_once(s, ':') {
                Some((head, tail)) => match (read_v4(head), read_port(tail)) {
                    (Some(v4), Some(port)) => Some(
                        SocketAddr { ip: IpAddr::V4(v4), port, scope: 0 },
                    ),
                    _ => None,
                },
                None => None,
            };
        }
        let k = text::find(&chars, ']');
        if k >= chars.len() || k + 1 >= chars.len() || chars[k + 1] != ':' {
            return None;
        }
        let inside = s.substring_char(1, k);
        let port = s.substring_char(k + 2, chars.len());
        assert(port@ =~= s@.skip(k + 2));
        match (read_zoned(inside), read_port(port)) {
            (Some((v6, scope)), Some(port)) => Some(SocketAddr { ip: IpAddr::V6(v6), port, scope }),
            _ => None,
        }
    }

    /// Returns the address as text.
    pub fn text(&self) -> (r: String)
        ensures
            r@ == socket_text(*self),
    {
        let port = text::decimal_text(self.port as u64);
        match self.ip {
            IpAddr::V4(v) => {
                let mut r = write_v4(v);
                r.append(":");
                r.append(port.as_str());
                r
            },
            IpAddr::V6(v) => {
                let mut r = "[".to_owned();
                r.append(write_v6(v).as_str());
                if self.scope != 0 {
                    r.append("%");
                    r.append(text::decimal_text(self.scope as u64).as_str());
                }
                r.append("]:");
                r.append(port.as_str());
                r
            },
        }
    }
}

} // verus!
