//! Addresses read back from the text they are written as.
use vstd::prelude::*;
use vstd::utf8::is_ascii_chars;

use crate::net::{
    canonical_ip, colons, gap, group, groups, hex_char, hex_of, hex_value, hexadecimal, ip_read,
    ip_text, is_hex, longest, loopback_ip, octet, port_read, segments, side, socket_read, socket_text,
    unspecified_ip, v4_of, v4_read, v4_socket_read, v4_text, v6_of, v6_read, v6_socket_read, v6_text,
    zero_run, zeros, zoned_read, IpAddr, SocketAddr,
};
use crate::rules::matcher::normalized;
use crate::text;
use crate::text::{
    ascii_lower, ascii_lowered, decimal, digit_char, fields, first_of, is_digit, without_last,
};

verus! {

/// No character of a text is `c`.
pub open spec fn lacks(s: Seq<char>, c: char) -> bool {
    forall|i: int| 0 <= i < s.len() ==> #[trigger] s[i] != c
}

/// A hexadecimal digit as it is written.
pub open spec fn is_lower_hex(c: char) -> bool {
    '0' <= c <= '9' || 'a' <= c <= 'f'
}

/// A character addresses are written in.
pub open spec fn is_address_char(c: char) -> bool {
    is_lower_hex(c) || c == '.' || c == ':'
}

/// Every character is one addresses are written in.
pub open spec fn all_address_chars(s: Seq<char>) -> bool {
    forall|i: int| 0 <= i < s.len() ==> is_address_char(#[trigger] s[i])
}

/// Every character is a hexadecimal digit.
pub open spec fn all_hex(s: Seq<char>) -> bool {
    forall|i: int| 0 <= i < s.len() ==> is_lower_hex(#[trigger] s[i])
}

/// No two colons stand next to each other.
pub open spec fn gapless(s: Seq<char>) -> bool {
    forall|i: int| 0 <= i && i + 1 < s.len() ==> !(#[trigger] s[i] == ':' && s[i + 1] == ':')
}

/// A text without the separator is one piece.
pub proof fn lemma_no_field_ends(s: Seq<char>, sep: char)
    requires
        lacks(s, sep),
    ensures
        first_of(s, sep) == s.len(),
        fields(s, sep) == seq![s],
{
    text::lemma_first_of_is(s, sep, s.len() as int);
}

/// A separator and a text without it behind another text add one piece.
pub proof fn lemma_fields_append(s: Seq<char>, p: Seq<char>, sep: char)
    requires
        lacks(p, sep),
    ensures
        fields(s + seq![sep] + p, sep) == fields(s, sep).push(p),
    decreases s.len(),
{
    let whole = s + seq![sep] + p;
    text::lemma_first_of(s, sep);
    let k = first_of(s, sep) as int;
    assert forall|j: int| 0 <= j < k implies whole[j] != sep by {
        assert(whole[j] == s[j]);
    }
    if k < s.len() {
        assert(whole[k] == s[k]);
        text::lemma_first_of_is(whole, sep, k);
        let rest = s.skip(k + 1);
        lemma_fields_append(rest, p, sep);
        assert(whole.take(k) =~= s.take(k));
        assert(whole.skip(k + 1) =~= rest + seq![sep] + p);
        assert(seq![s.take(k)] + fields(rest, sep).push(p) =~= (seq![s.take(k)] + fields(
            rest,
            sep,
        )).push(p));
    } else {
        assert(whole[k] == sep);
        text::lemma_first_of_is(whole, sep, k);
        lemma_no_field_ends(p, sep);
        assert(whole.take(k) =~= s);
        assert(whole.skip(k + 1) =~= p);
        assert(seq![s] + seq![p] =~= seq![s].push(p));
    }
}

proof fn lemma_decimal_lacks(n: nat, c: char)
    requires
        !is_digit(c),
    ensures
        lacks(decimal(n), c),
        all_address_chars(decimal(n)),
        decimal(n).len() > 0,
{
    text::law_decimal_reads_back(n);
    assert forall|i: int| 0 <= i < decimal(n).len() implies #[trigger] decimal(n)[i] != c
        && is_address_char(decimal(n)[i]) by {
        assert(is_digit(decimal(n)[i]));
    }
}

proof fn lemma_octet(n: nat)
    requires
        n <= 255,
    ensures
        octet(decimal(n)) == Some(n),
        1 <= decimal(n).len() <= 3,
{
    text::law_decimal_reads_back(n);
    reveal_with_fuel(decimal, 4);
    if n >= 10 {
        let first = if n >= 100 {
            n / 100
        } else {
            n / 10
        };
        assert(decimal(n)[0] == digit_char(first));
    }
}

proof fn lemma_v4_text(v: u32)
    ensures
        v4_text(v).len() >= 7,
        fields(v4_text(v), '.') == seq![
            decimal((v / 0x100_0000) as nat),
            decimal(((v / 0x1_0000) % 0x100) as nat),
            decimal(((v / 0x100) % 0x100) as nat),
            decimal((v % 0x100) as nat),
        ],
        lacks(v4_text(v), ':'),
        lacks(v4_text(v), '['),
        all_address_chars(v4_text(v)),
        is_digit(v4_text(v)[0]),
{
    reveal_strlit(".");
    let a = decimal((v / 0x100_0000) as nat);
    let b = decimal(((v / 0x1_0000) % 0x100) as nat);
    let c = decimal(((v / 0x100) % 0x100) as nat);
    let d = decimal((v % 0x100) as nat);
    text::law_decimal_reads_back((v / 0x100_0000) as nat);
    text::law_decimal_reads_back(((v / 0x1_0000) % 0x100) as nat);
    text::law_decimal_reads_back(((v / 0x100) % 0x100) as nat);
    text::law_decimal_reads_back((v % 0x100) as nat);
    lemma_decimal_lacks((v / 0x100_0000) as nat, '.');
    lemma_decimal_lacks(((v / 0x1_0000) % 0x100) as nat, '.');
    lemma_decimal_lacks(((v / 0x100) % 0x100) as nat, '.');
    lemma_decimal_lacks((v % 0x100) as nat, '.');
    let dot = "."@;
    assert(dot =~= seq!['.']);
    lemma_no_field_ends(a, '.');
    lemma_fields_append(a, b, '.');
    lemma_fields_append(a + dot + b, c, '.');
    lemma_fields_append(a + dot + b + dot + c, d, '.');
    let s = v4_text(v);
    assert(s == a + dot + b + dot + c + dot + d);
    assert(fields(s, '.') =~= seq![a, b, c, d]);
    assert(is_digit(a[0]) && s[0] == a[0]);
    assert forall|i: int| 0 <= i < s.len() implies is_digit(#[trigger] s[i]) || s[i] == '.' by {
        let p = a.len() as int;
        let q = p + 1 + b.len();
        let r = q + 1 + c.len();
        if i < p {
            assert(s[i] == a[i]);
        } else if i == p || i == q || i == r {
        } else if i < q {
            assert(s[i] == b[i - p - 1]);
        } else if i < r {
            assert(s[i] == c[i - q - 1]);
        } else {
            assert(s[i] == d[i - r - 1]);
        }
    }
}

proof fn lemma_v4_reads_back(v: u32)
    ensures
        v4_read(v4_text(v)) == Some(v),
{
    lemma_v4_text(v);
    lemma_octet((v / 0x100_0000) as nat);
    lemma_octet(((v / 0x1_0000) % 0x100) as nat);
    lemma_octet(((v / 0x100) % 0x100) as nat);
    lemma_octet((v % 0x100) as nat);
    assert((v / 0x100_0000) * 0x100_0000 + ((v / 0x1_0000) % 0x100) * 0x1_0000 + ((v / 0x100)
        % 0x100) * 0x100 + v % 0x100 == v) by (bit_vector);
}

proof fn lemma_group(n: u16)
    ensures
        group(hexadecimal(n as nat)) == Some(n),
        1 <= hexadecimal(n as nat).len() <= 4,
        all_hex(hexadecimal(n as nat)),
{
    lemma_hexadecimal(n as nat);
    reveal_with_fuel(hexadecimal, 5);
    let s = hexadecimal(n as nat);
    assert forall|i: int| 0 <= i < s.len() implies is_hex(#[trigger] s[i]) by {
        assert(is_lower_hex(s[i]));
    }
}

proof fn lemma_hexadecimal(n: nat)
    ensures
        hexadecimal(n).len() > 0,
        all_hex(hexadecimal(n)),
        hex_value(hexadecimal(n)) == n,
    decreases n,
{
    if n < 16 {
        assert(seq![hex_char(n)].drop_last() =~= Seq::<char>::empty());
        assert(hex_value(Seq::<char>::empty()) == 0);
        assert(hex_of(hex_char(n)) == n);
    } else {
        lemma_hexadecimal(n / 16);
        let s = hexadecimal(n);
        assert(s.drop_last() =~= hexadecimal(n / 16));
        assert(hex_of(hex_char(n % 16)) == n % 16);
        assert forall|i: int| 0 <= i < s.len() implies is_lower_hex(#[trigger] s[i]) by {
            if i < s.len() - 1 {
                assert(s[i] == hexadecimal(n / 16)[i]);
            }
        }
    }
}

proof fn lemma_one_group(s: Seq<char>, n: u16)
    requires
        group(s) == Some(n),
    ensures
        groups(seq![s], false) == Some(seq![n]),
        groups(seq![s], true) == Some(seq![n]),
{
    let none = Seq::<Seq<char>>::empty();
    assert(seq![s].drop_last() =~= none);
    assert(groups(none, false) == Some(Seq::<u16>::empty()));
    assert(seq![s].last() == s);
    assert(Seq::<u16>::empty().push(n) =~= seq![n]);
}

/// What groups with colons between them look like, and that they read back.
proof fn lemma_colons(g: Seq<u16>)
    requires
        g.len() > 0,
    ensures
        colons(g).len() > 0,
        is_lower_hex(colons(g)[0]),
        is_lower_hex(colons(g).last()),
        gapless(colons(g)),
        all_address_chars(colons(g)),
        lacks(colons(g), '.'),
        groups(fields(colons(g), ':'), false) == Some(g),
        groups(fields(colons(g), ':'), true) == Some(g),
    decreases g.len(),
{
    reveal_strlit(":");
    let last = hexadecimal(g.last() as nat);
    lemma_group(g.last());
    assert(lacks(last, ':')) by {
        assert forall|i: int| 0 <= i < last.len() implies #[trigger] last[i] != ':' by {
            assert(is_lower_hex(last[i]));
        }
    }
    let s = colons(g);
    if g.len() == 1 {
        lemma_no_field_ends(s, ':');
        lemma_one_group(s, g[0]);
        assert(seq![g[0]] =~= g);
        assert(is_lower_hex(s[0]) && is_lower_hex(s[s.len() - 1]));
        assert(gapless(s)) by {
            assert forall|i: int| 0 <= i && i + 1 < s.len() implies !(#[trigger] s[i] == ':' && s[i
                + 1] == ':') by {
                assert(is_lower_hex(s[i]));
            }
        }
        assert forall|i: int| 0 <= i < s.len() implies is_address_char(#[trigger] s[i]) && s[i]
            != '.' by {
            assert(is_lower_hex(s[i]));
        }
    } else {
        let shorter = g.drop_last();
        lemma_colons(shorter);
        let t = colons(shorter);
        let n = t.len() as int;
        assert(":"@ =~= seq![':']);
        assert(s == t + seq![':'] + last);
        lemma_fields_append(t, last, ':');
        assert(fields(s, ':').drop_last() =~= fields(t, ':'));
        assert(shorter.push(g.last()) =~= g);
        assert(s[0] == t[0]);
        assert(s.last() == last.last());
        assert(is_lower_hex(last[last.len() - 1]));
        assert forall|i: int| 0 <= i < s.len() implies (i < n ==> #[trigger] s[i] == t[i]) && (i
            == n ==> s[i] == ':') && (i > n ==> s[i] == last[i - n - 1] && is_lower_hex(s[i])) by {}
        assert forall|i: int| 0 <= i < s.len() implies is_address_char(#[trigger] s[i]) && s[i]
            != '.' by {
            if i < n {
                assert(is_address_char(t[i]) && t[i] != '.');
            }
        }
        assert forall|i: int| 0 <= i && i + 1 < s.len() implies !(#[trigger] s[i] == ':' && s[i + 1]
            == ':') by {
            if i + 1 < n {
                assert(s[i] == t[i] && s[i + 1] == t[i + 1]);
            } else if i + 1 == n {
                assert(s[i] == t.last());
            } else {
                assert(is_lower_hex(s[i + 1]));
            }
        }
    }
}

proof fn lemma_gap_is(s: Seq<char>, k: int)
    requires
        0 <= k,
        k == s.len() || (k + 2 <= s.len() && s[k] == ':' && s[k + 1] == ':'),
        forall|j: int| 0 <= j < k && j + 1 < s.len() ==> !(#[trigger] s[j] == ':' && s[j + 1] == ':'),
    ensures
        gap(s) == k,
    decreases s.len(),
{
    if s.len() >= 2 && k > 0 {
        let t = s.skip(1);
        assert forall|j: int| 0 <= j < k - 1 && j + 1 < t.len() implies !(#[trigger] t[j] == ':'
            && t[j + 1] == ':') by {
            assert(t[j] == s[j + 1] && t[j + 1] == s[j + 2]);
        }
        if k < s.len() {
            assert(t[k - 1] == s[k] && t[k] == s[k + 1]);
        }
        lemma_gap_is(t, k - 1);
        assert(!(s[0] == ':' && s[1] == ':'));
    }
}

proof fn lemma_zero_run(g: Seq<u16>, i: int)
    requires
        0 <= i <= g.len(),
    ensures
        i + zero_run(g, i) <= g.len(),
        forall|j: int| i <= j < i + zero_run(g, i) ==> g[j] == 0,
    decreases g.len() - i,
{
    if i < g.len() && g[i] == 0 {
        lemma_zero_run(g, i + 1);
    }
}

proof fn lemma_longest(g: Seq<u16>, n: nat)
    requires
        n <= g.len(),
        g.len() > 0,
    ensures
        0 <= longest(g, n) < g.len(),
    decreases n,
{
    if n > 0 {
        lemma_longest(g, (n - 1) as nat);
    }
}

proof fn lemma_segments(v: u128)
    ensures
        segments(v).len() == 8,
        v6_of(segments(v)) == v,
{
    let q1 = v / 0x1_0000;
    let q2 = v / 0x1_0000_0000;
    let q3 = v / 0x1_0000_0000_0000;
    let q4 = v / 0x1_0000_0000_0000_0000;
    let q5 = v / 0x1_0000_0000_0000_0000_0000;
    let q6 = v / 0x1_0000_0000_0000_0000_0000_0000;
    let q7 = v / 0x1_0000_0000_0000_0000_0000_0000_0000;
    assert(q2 == q1 / 0x1_0000);
    assert(q3 == q2 / 0x1_0000);
    assert(q4 == q3 / 0x1_0000);
    assert(q5 == q4 / 0x1_0000);
    assert(q6 == q5 / 0x1_0000);
    assert(q7 == q6 / 0x1_0000);
    assert(q7 < 0x1_0000);
    let g = segments(v);
    assert(g[0] == q7 && g[1] == q6 % 0x1_0000 && g[2] == q5 % 0x1_0000 && g[3] == q4 % 0x1_0000
        && g[4] == q3 % 0x1_0000 && g[5] == q2 % 0x1_0000 && g[6] == q1 % 0x1_0000 && g[7] == v
        % 0x1_0000);
}

/// The eight groups of the address eight groups make up are those groups.
pub proof fn lemma_groups_of(g: Seq<u16>)
    requires
        g.len() == 8,
    ensures
        segments(v6_of(g)) == g,
{
    let q6 = g[0] * 0x1_0000 + g[1];
    let q5 = q6 * 0x1_0000 + g[2];
    let q4 = q5 * 0x1_0000 + g[3];
    let q3 = q4 * 0x1_0000 + g[4];
    let q2 = q3 * 0x1_0000 + g[5];
    let q1 = q2 * 0x1_0000 + g[6];
    let v = q1 * 0x1_0000 + g[7];
    assert(v6_of(g) == v);
    lemma_group_of(g[0] as int, g[1] as int);
    lemma_group_of(q6, g[2] as int);
    lemma_group_of(q5, g[3] as int);
    lemma_group_of(q4, g[4] as int);
    lemma_group_of(q3, g[5] as int);
    lemma_group_of(q2, g[6] as int);
    lemma_group_of(q1, g[7] as int);
    lemma_shifts(v);
    assert(segments(v6_of(g)) =~= g);
}

proof fn lemma_group_of(high: int, low: int)
    requires
        0 <= high,
        0 <= low < 0x1_0000,
    ensures
        (high * 0x1_0000 + low) / 0x1_0000 == high,
        (high * 0x1_0000 + low) % 0x1_0000 == low,
{
}

proof fn lemma_shifts(v: int)
    requires
        0 <= v,
    ensures
        v / 0x1_0000_0000 == (v / 0x1_0000) / 0x1_0000,
        v / 0x1_0000_0000_0000 == (v / 0x1_0000_0000) / 0x1_0000,
        v / 0x1_0000_0000_0000_0000 == (v / 0x1_0000_0000_0000) / 0x1_0000,
        v / 0x1_0000_0000_0000_0000_0000 == (v / 0x1_0000_0000_0000_0000) / 0x1_0000,
        v / 0x1_0000_0000_0000_0000_0000_0000 == (v / 0x1_0000_0000_0000_0000_0000) / 0x1_0000,
        v / 0x1_0000_0000_0000_0000_0000_0000_0000 == (v / 0x1_0000_0000_0000_0000_0000_0000)
            / 0x1_0000,
{
}

proof fn lemma_side(g: Seq<u16>, quad: bool)
    ensures
        side(colons(g), quad) == Some(g),
{
    if g.len() == 0 {
        assert(Seq::<u16>::empty() =~= g);
    } else {
        lemma_colons(g);
    }
}

/// How a version 6 address is written, the three forms of it, and that each reads back.
proof fn lemma_v6(v: u128)
    ensures
        v6_read(v6_text(v)) == Some(v),
        v4_read(v6_text(v)) is None,
        all_address_chars(v6_text(v)),
        v6_text(v).last() != '.',
{
    let g = segments(v);
    lemma_segments(v);
    let start = longest(g, 8);
    lemma_longest(g, 8);
    lemma_zero_run(g, start);
    let run = zero_run(g, start) as int;
    let s = v6_text(v);
    if v / 0x1_0000_0000 == 0xffff {
        lemma_mapped(v);
    } else if run > 1 {
        lemma_compressed(g, start, run);
        lemma_no_field_ends(s, '.');
    } else {
        lemma_colons(g);
        lemma_gap_is(s, s.len() as int);
        lemma_no_field_ends(s, '.');
    }
}

proof fn lemma_mapped(v: u128)
    requires
        v / 0x1_0000_0000 == 0xffff,
    ensures
        v6_read(v6_text(v)) == Some(v),
        v4_read(v6_text(v)) is None,
        all_address_chars(v6_text(v)),
        v6_text(v).last() != '.',
{
    reveal_strlit("::ffff:");
    lemma_v4_text_ends_in_a_digit((v % 0x1_0000_0000) as u32);
    let low = (v % 0x1_0000_0000) as u32;
    let t = v4_text(low);
    let s = v6_text(v);
    lemma_v4_text(low);
    lemma_v4_reads_back(low);
    assert(s == "::ffff:"@ + t);
    lemma_gap_is(s, 0);
    let tail = s.skip(2);
    let head = seq!['f', 'f', 'f', 'f'];
    assert(tail =~= head + seq![':'] + t);
    lemma_no_field_ends(head, ':');
    lemma_fields_append(head, t, ':');
    assert(fields(tail, ':') =~= seq![head, t]);
    let f = fields(tail, ':');
    assert(f.drop_last() =~= seq![head]);
    assert(group(head) == Some(0xffffu16)) by {
        reveal_with_fuel(hex_value, 5);
        assert(head.drop_last() =~= seq!['f', 'f', 'f']);
        assert(head.drop_last().drop_last() =~= seq!['f', 'f']);
        assert(head.drop_last().drop_last().drop_last() =~= seq!['f']);
        assert(head.drop_last().drop_last().drop_last().drop_last() =~= Seq::<char>::empty());
    }
    assert(group(t) is None);
    let hi = (low / 0x1_0000) as u16;
    let lo = (low % 0x1_0000) as u16;
    let r = seq![0xffffu16, hi, lo];
    lemma_one_group(head, 0xffff);
    assert(seq![0xffffu16].push(hi).push(lo) =~= r);
    assert(groups(f, true) == Some(r));
    assert(s.take(0) =~= Seq::<char>::empty());
    let all = Seq::<u16>::empty() + zeros(5) + r;
    assert(all[5] == 0xffff && all[6] == hi && all[7] == lo);
    assert(v6_of(all) == v);
    assert(s[0] == ':' && s[6] == ':');
    assert(v4_read(s) is None) by {
        text::lemma_first_of(s, '.');
        let k = first_of(s, '.') as int;
        if k < 7 {
            assert(s[k] == "::ffff:"@[k]);
        }
        if k < s.len() {
            assert(fields(s, '.')[0] == s.take(k));
            assert(octet(s.take(k)) is None);
        }
    }
    assert forall|i: int| 0 <= i < s.len() implies is_address_char(#[trigger] s[i]) by {
        if i >= 7 {
            assert(s[i] == t[i - 7]);
        } else {
            assert(s[i] == "::ffff:"@[i]);
        }
    }
}

proof fn lemma_compressed(g: Seq<u16>, start: int, run: int)
    requires
        g.len() == 8,
        0 <= start,
        1 < run,
        start + run <= 8,
        forall|j: int| start <= j < start + run ==> g[j] == 0,
    ensures
        ({
            let s = colons(g.take(start)) + "::"@ + colons(g.skip(start + run));
            &&& v6_read(s) == Some(v6_of(g))
            &&& all_address_chars(s)
            &&& lacks(s, '.')
            &&& s.len() > 0
        }),
{
    reveal_strlit("::");
    let l = g.take(start);
    let r = g.skip(start + run);
    let a = colons(l);
    let b = colons(r);
    let s = a + "::"@ + b;
    let n = a.len() as int;
    if l.len() > 0 {
        lemma_colons(l);
    }
    if r.len() > 0 {
        lemma_colons(r);
    }
    lemma_side(l, false);
    lemma_side(r, true);
    assert(s[n] == ':' && s[n + 1] == ':');
    assert forall|j: int| 0 <= j < n && j + 1 < s.len() implies !(#[trigger] s[j] == ':' && s[j + 1]
        == ':') by {
        assert(s[j] == a[j]);
        if j + 1 < n {
            assert(s[j + 1] == a[j + 1]);
        } else {
            assert(s[j] == a.last());
        }
    }
    lemma_gap_is(s, n);
    assert(s.take(n) =~= a);
    assert(s.skip(n + 2) =~= b);
    assert(l + zeros((8 - l.len() - r.len()) as nat) + r =~= g);
    assert forall|i: int| 0 <= i < s.len() implies is_address_char(#[trigger] s[i]) && s[i] != '.' by {
        if i < n {
            assert(s[i] == a[i]);
        } else if i >= n + 2 {
            assert(s[i] == b[i - n - 2]);
        }
    }
}

/// An IP address reads back from its text.
pub proof fn law_an_address_reads_back(ip: IpAddr)
    ensures
        ip_read(ip_text(ip)) == Some(ip),
{
    match ip {
        IpAddr::V4(v) => {
            lemma_v4_reads_back(v);
        },
        IpAddr::V6(v) => {
            lemma_v6(v);
        },
    }
}

proof fn lemma_address_text_is_normal(s: Seq<char>)
    requires
        all_address_chars(s),
        s.len() > 0 ==> s.last() != '.',
    ensures
        normalized(s) == s,
{
    assert(without_last(s, '.') == s);
    assert forall|i: int| 0 <= i < s.len() implies ascii_lower(#[trigger] s[i]) == s[i] && '\0'
        <= s[i] <= '\u{7f}' by {
        assert(is_address_char(s[i]));
    }
    assert(is_ascii_chars(s));
    assert(ascii_lowered(s) =~= s);
}

proof fn lemma_v4_text_ends_in_a_digit(v: u32)
    ensures
        v4_text(v).last() != '.',
{
    let d = decimal((v % 0x100) as nat);
    text::law_decimal_reads_back((v % 0x100) as nat);
    assert(is_digit(d[d.len() - 1]));
    assert(v4_text(v).last() == d.last());
}

/// An address a destination is named by, however it reached the front end, is matched against the
/// rules as that address.
pub proof fn law_an_address_is_matched_as_itself(ip: IpAddr)
    ensures
        normalized(ip_text(ip)) == ip_text(ip),
        ip_read(normalized(ip_text(ip))) == Some(ip),
{
    law_an_address_reads_back(ip);
    match ip {
        IpAddr::V4(v) => {
            lemma_v4_text(v);
            lemma_v4_text_ends_in_a_digit(v);
        },
        IpAddr::V6(v) => {
            lemma_v6(v);
        },
    }
    lemma_address_text_is_normal(ip_text(ip));
}

proof fn lemma_port(port: u16)
    ensures
        port_read(decimal(port as nat)) == Some(port),
{
    text::law_decimal_reads_back(port as nat);
}

proof fn lemma_v4_socket(v: u32, port: u16)
    ensures
        v4_socket_read(v4_text(v) + ":"@ + decimal(port as nat)) == Some(
            SocketAddr { ip: IpAddr::V4(v), port, scope: 0 },
        ),
        (v4_text(v) + ":"@ + decimal(port as nat))[0] != '[',
{
    reveal_strlit(":");
    let t = v4_text(v);
    let s = t + ":"@ + decimal(port as nat);
    lemma_port(port);
    lemma_v4_text(v);
    lemma_v4_reads_back(v);
    let n = t.len() as int;
    assert forall|j: int| 0 <= j < n implies s[j] != ':' by {
        assert(s[j] == t[j]);
    }
    assert(s[n] == ':');
    text::lemma_first_of_is(s, ':', n);
    assert(s.take(n) =~= t);
    assert(s.skip(n + 1) =~= decimal(port as nat));
    assert(s[0] == t[0]);
}

/// The zone of a version 6 address as it is written behind it.
spec fn zone_text(scope: u32) -> Seq<char> {
    if scope == 0 {
        Seq::empty()
    } else {
        "%"@ + decimal(scope as nat)
    }
}

proof fn lemma_zoned(t: Seq<char>, v: u128, scope: u32)
    requires
        v6_read(t) == Some(v),
        all_address_chars(t),
    ensures
        zoned_read(t + zone_text(scope)) == Some((v, scope)),
        lacks(t + zone_text(scope), ']'),
{
    reveal_strlit("%");
    let inside = t + zone_text(scope);
    let n = t.len() as int;
    text::law_decimal_reads_back(scope as nat);
    lemma_decimal_lacks(scope as nat, ']');
    assert forall|j: int| 0 <= j < n implies inside[j] != '%' && inside[j] != ']' by {
        assert(inside[j] == t[j]);
    }
    assert forall|j: int| 0 <= j < inside.len() implies #[trigger] inside[j] != ']' by {
        if j > n {
            assert(inside[j] == decimal(scope as nat)[j - n - 1]);
        }
    }
    text::lemma_first_of_is(inside, '%', n);
    if scope == 0 {
        assert(inside =~= t);
    } else {
        assert(inside.take(n) =~= t);
        assert(inside.skip(n + 1) =~= decimal(scope as nat));
    }
}

proof fn lemma_v6_socket(v: u128, port: u16, scope: u32)
    ensures
        v6_socket_read("["@ + (v6_text(v) + zone_text(scope)) + "]:"@ + decimal(port as nat))
            == Some(SocketAddr { ip: IpAddr::V6(v), port, scope }),
        ("["@ + (v6_text(v) + zone_text(scope)) + "]:"@ + decimal(port as nat))[0] == '[',
{
    reveal_strlit("[");
    reveal_strlit("]:");
    lemma_v6(v);
    lemma_zoned(v6_text(v), v, scope);
    lemma_port(port);
    let inside = v6_text(v) + zone_text(scope);
    let s = "["@ + inside + "]:"@ + decimal(port as nat);
    let k = inside.len() as int + 1;
    assert forall|j: int| 0 <= j < k implies s[j] != ']' by {
        if j > 0 {
            assert(s[j] == inside[j - 1]);
        }
    }
    assert(s[k] == ']' && s[k + 1] == ':');
    text::lemma_first_of_is(s, ']', k);
    assert(s.subrange(1, k) =~= inside);
    assert(s.skip(k + 2) =~= decimal(port as nat));
}

proof fn lemma_bracketed(t: Seq<char>, scope: u32, port: Seq<char>)
    ensures
        scope == 0 ==> "["@ + t + "]:"@ + port == "["@ + (t + zone_text(scope)) + "]:"@ + port,
        scope != 0 ==> "["@ + t + "%"@ + decimal(scope as nat) + "]:"@ + port == "["@ + (t
            + zone_text(scope)) + "]:"@ + port,
{
    if scope == 0 {
        assert(t + zone_text(scope) =~= t);
    } else {
        assert("["@ + t + "%"@ + decimal(scope as nat) =~= "["@ + (t + zone_text(scope)));
    }
}

/// A socket address reads back from its text; only version 6 addresses have a zone.
pub proof fn law_a_socket_address_reads_back(addr: SocketAddr)
    requires
        addr.ip is V4 ==> addr.scope == 0,
    ensures
        socket_read(socket_text(addr)) == Some(addr),
{
    match addr.ip {
        IpAddr::V4(v) => {
            lemma_v4_socket(v, addr.port);
        },
        IpAddr::V6(v) => {
            lemma_v6_socket(v, addr.port, addr.scope);
            lemma_bracketed(v6_text(v), addr.scope, decimal(addr.port as nat));
        },
    }
}

/// A version 4 address is written as its four bytes in decimal with dots between them, and read from
/// that.
pub proof fn law_a_version_4_address_is_written_byte_by_byte(a: u8, b: u8, c: u8, d: u8)
    ensures
        ({
            let v = v4_of(a as nat, b as nat, c as nat, d as nat);
            let written = decimal(a as nat) + "."@ + decimal(b as nat) + "."@ + decimal(c as nat)
                + "."@ + decimal(d as nat);
            &&& v == a * 0x100_0000 + b * 0x1_0000 + c * 0x100 + d
            &&& ip_text(IpAddr::V4(v)) == written
            &&& ip_read(written) == Some(IpAddr::V4(v))
        }),
{
    let v = a * 0x100_0000 + b * 0x1_0000 + c * 0x100 + d;
    lemma_bytes_of(a as int, b as int, c as int, d as int);
    assert(v4_of(a as nat, b as nat, c as nat, d as nat) == v);
    law_an_address_reads_back(IpAddr::V4(v as u32));
}

proof fn lemma_bytes_of(a: int, b: int, c: int, d: int)
    requires
        0 <= a < 0x100,
        0 <= b < 0x100,
        0 <= c < 0x100,
        0 <= d < 0x100,
    ensures
        ({
            let v = a * 0x100_0000 + b * 0x1_0000 + c * 0x100 + d;
            &&& v / 0x100_0000 == a
            &&& (v / 0x1_0000) % 0x100 == b
            &&& (v / 0x100) % 0x100 == c
            &&& v % 0x100 == d
        }),
{
    let v = a * 0x100_0000 + b * 0x1_0000 + c * 0x100 + d;
    assert(v / 0x1_0000 == a * 0x100 + b);
    assert(v / 0x100 == a * 0x1_0000 + b * 0x100 + c);
}

/// A socket address in text has no white space at either end, and begins with a digit or a bracket.
pub proof fn lemma_socket_text_ends(addr: SocketAddr)
    ensures
        socket_text(addr).len() > 0,
        !text::is_white(socket_text(addr)[0]),
        !text::is_white(socket_text(addr).last()),
        socket_text(addr)[0] != 's',
{
    let t = socket_text(addr);
    let d = decimal(addr.port as nat);
    lemma_decimal_lacks(addr.port as nat, 'x');
    text::law_decimal_reads_back(addr.port as nat);
    assert(is_digit(d[d.len() - 1]));
    reveal_strlit("[");
    reveal_strlit("]:");
    reveal_strlit("%");
    reveal_strlit(":");
    match addr.ip {
        IpAddr::V4(v) => {
            let a = decimal((v / 0x100_0000) as nat);
            text::law_decimal_reads_back((v / 0x100_0000) as nat);
            assert(is_digit(a[0]));
            assert(t[0] == a[0]);
            assert(t.last() == d.last());
        },
        IpAddr::V6(v) => {
            assert(t[0] == '[');
            assert(t.last() == d.last());
        },
    }
}

proof fn lemma_char_in_field(s: Seq<char>, sep: char, i: int) -> (k: int)
    requires
        0 <= i < s.len(),
    ensures
        s[i] == sep || (0 <= k < fields(s, sep).len() && fields(s, sep)[k].contains(s[i])),
    decreases s.len(),
{
    text::lemma_first_of(s, sep);
    let n = first_of(s, sep) as int;
    if n >= s.len() {
        0
    } else if i < n {
        assert(s.take(n)[i] == s[i]);
        0
    } else if i == n {
        0
    } else {
        let rest = s.skip(n + 1);
        assert(rest[i - n - 1] == s[i]);
        let k = lemma_char_in_field(rest, sep, i - n - 1);
        if s[i] != sep {
            assert(fields(s, sep)[k + 1] == fields(rest, sep)[k]);
        }
        k + 1
    }
}

proof fn lemma_groups_hold_address_chars(f: Seq<Seq<char>>, quad: bool, k: int, c: char)
    requires
        groups(f, quad) is Some,
        0 <= k < f.len(),
        f[k].contains(c),
    ensures
        is_hex(c) || c == '.',
    decreases f.len(),
{
    if k == f.len() - 1 {
        let last = f.last();
        let i = choose|i: int| 0 <= i < last.len() && last[i] == c;
        if group(last) is Some {
            assert(is_hex(last[i]));
        } else {
            lemma_v4_chars(last, i);
        }
    } else {
        lemma_groups_hold_address_chars(f.drop_last(), false, k, c);
    }
}

/// A version 4 address is written in digits and dots.
pub proof fn lemma_v4_chars(s: Seq<char>, i: int)
    requires
        v4_read(s) is Some,
        0 <= i < s.len(),
    ensures
        is_digit(s[i]) || s[i] == '.',
{
    let k = lemma_char_in_field(s, '.', i);
    if s[i] != '.' {
        let f = fields(s, '.')[k];
        assert(octet(f) is Some);
        let j = choose|j: int| 0 <= j < f.len() && f[j] == s[i];
        assert(is_digit(f[j]));
    }
}

proof fn lemma_side_chars(s: Seq<char>, quad: bool, i: int)
    requires
        side(s, quad) is Some,
        0 <= i < s.len(),
    ensures
        is_hex(s[i]) || s[i] == '.' || s[i] == ':',
{
    let k = lemma_char_in_field(s, ':', i);
    if s[i] != ':' {
        lemma_groups_hold_address_chars(fields(s, ':'), quad, k, s[i]);
    }
}

/// A name is no address: a text with a character in it that is neither a hexadecimal digit nor a dot
/// nor a colon is read as none.
pub proof fn law_a_name_is_no_address(s: Seq<char>, i: int)
    requires
        0 <= i < s.len(),
        !('0' <= s[i] && s[i] <= '9'),
        !('a' <= s[i] && s[i] <= 'f'),
        !('A' <= s[i] && s[i] <= 'F'),
        s[i] != '.',
        s[i] != ':',
    ensures
        ip_read(s) is None,
{
    if v4_read(s) is Some {
        lemma_v4_chars(s, i);
    }
    if v6_read(s) is Some {
        let k = gap(s) as int;
        if k + 2 > s.len() {
            lemma_side_chars(s, true, i);
        } else {
            lemma_gap(s);
            if i < k {
                lemma_side_chars(s.take(k), false, i);
            } else if i >= k + 2 {
                lemma_side_chars(s.skip(k + 2), true, i - k - 2);
            }
        }
    }
}

proof fn lemma_gap(s: Seq<char>)
    ensures
        gap(s) + 2 <= s.len() ==> s[gap(s) as int] == ':' && s[gap(s) as int + 1] == ':',
    decreases s.len(),
{
    if s.len() >= 2 && !(s[0] == ':' && s[1] == ':') {
        lemma_gap(s.skip(1));
    }
}

proof fn lemma_decimal_of(s: Seq<char>)
    requires
        s.len() > 0,
        text::all_digits(s),
        s.len() > 1 ==> s[0] != '0',
    ensures
        decimal(text::digits_value(s)) == s,
        s[0] != '0' ==> text::digits_value(s) > 0,
    decreases s.len(),
{
    let c = s.last();
    let shorter = s.drop_last();
    assert(is_digit(s[s.len() - 1]));
    assert(text::digit_char(text::digit_of(c)) == c);
    if s.len() == 1 {
        assert(shorter =~= Seq::<char>::empty());
        assert(text::digits_value(shorter) == 0);
        assert(s =~= seq![c]);
    } else {
        assert forall|i: int| 0 <= i < shorter.len() implies is_digit(#[trigger] shorter[i]) by {
            assert(is_digit(s[i]));
        }
        assert(shorter[0] == s[0]);
        lemma_decimal_of(shorter);
        let n = text::digits_value(shorter);
        let d = text::digit_of(c);
        assert((n * 10 + d) / 10 == n && (n * 10 + d) % 10 == d);
        assert(s =~= shorter.push(c));
    }
}

/// A version 4 address has one spelling: four numbers up to 255 without leading zeros. Nothing else is
/// read as one.
pub proof fn law_a_version_4_address_has_one_spelling(s: Seq<char>)
    ensures
        v4_read(s) matches Some(v) ==> s == v4_text(v),
{
    if let Some(v) = v4_read(s) {
        let f = fields(s, '.');
        let (a, b, c, d) = (octet(f[0])->0, octet(f[1])->0, octet(f[2])->0, octet(f[3])->0);
        lemma_decimal_of(f[0]);
        lemma_decimal_of(f[1]);
        lemma_decimal_of(f[2]);
        lemma_decimal_of(f[3]);
        law_a_version_4_address_is_written_byte_by_byte(a as u8, b as u8, c as u8, d as u8);
        text::law_fields_make_up_the_text(s, '.');
        reveal_strlit(".");
        assert("."@ =~= seq!['.']);
        assert(f =~= seq![f[0], f[1], f[2], f[3]]);
        lemma_four_joined(f[0], f[1], f[2], f[3], seq!['.']);
    }
}

proof fn lemma_four_joined(
    a: Seq<char>,
    b: Seq<char>,
    c: Seq<char>,
    d: Seq<char>,
    sep: Seq<char>,
)
    ensures
        text::joined(seq![a, b, c, d], sep) == a + sep + b + sep + c + sep + d,
{
    assert(seq![a, b, c, d].drop_last() =~= seq![a, b, c]);
    assert(seq![a, b, c].drop_last() =~= seq![a, b]);
    assert(seq![a, b].drop_last() =~= seq![a]);
    reveal_with_fuel(text::joined, 5);
}

/// The addresses that are loopback, unspecified or mapped, byte by byte.
pub proof fn law_special_addresses(a: u8, b: u8, c: u8, d: u8, v: u128)
    ensures
        ({
            let v4 = v4_of(a as nat, b as nat, c as nat, d as nat);
            &&& loopback_ip(IpAddr::V4(v4)) <==> a == 127
            &&& unspecified_ip(IpAddr::V4(v4)) <==> a == 0 && b == 0 && c == 0 && d == 0
            &&& canonical_ip(IpAddr::V4(v4)) == IpAddr::V4(v4)
            &&& canonical_ip(IpAddr::V6((0xffff_0000_0000 + v4) as u128)) == IpAddr::V4(v4)
        }),
        loopback_ip(IpAddr::V6(v)) <==> v == 1,
        unspecified_ip(IpAddr::V6(v)) <==> v == 0,
        v < 0xffff_0000_0000 || v > 0xffff_ffff_ffff ==> canonical_ip(IpAddr::V6(v)) == IpAddr::V6(v),
{
    lemma_bytes_of(a as int, b as int, c as int, d as int);
    let v4 = a * 0x100_0000 + b * 0x1_0000 + c * 0x100 + d;
    assert(v4_of(a as nat, b as nat, c as nat, d as nat) == v4);
    assert((0xffff_0000_0000 + v4) / 0x1_0000_0000 == 0xffff);
    assert((0xffff_0000_0000 + v4) % 0x1_0000_0000 == v4);
}

/// A hexadecimal number is written digit by digit, in lower case and without leading zeros.
pub proof fn law_hexadecimal_is_written_digit_by_digit(n: nat, d: nat)
    requires
        d < 16,
    ensures
        d < 10 ==> hexadecimal(d) == seq![('0' as int + d) as char],
        d >= 10 ==> hexadecimal(d) == seq![('a' as int + d - 10) as char],
        n > 0 ==> hexadecimal(n * 16 + d) == hexadecimal(n) + hexadecimal(d),
{
    assert((n * 16 + d) / 16 == n && (n * 16 + d) % 16 == d);
    if n > 0 {
        assert(hexadecimal(n).push(hex_char(d)) =~= hexadecimal(n) + seq![hex_char(d)]);
    }
}

/// A version 6 address that holds no two zero groups next to each other and no version 4 address is
/// written as its eight groups with colons between them.
pub proof fn law_a_version_6_address_is_written_group_by_group(g: Seq<u16>)
    requires
        g.len() == 8,
        forall|i: int| 0 <= i < 7 ==> !(#[trigger] g[i] == 0 && g[i + 1] == 0),
    ensures
        v6_of(g) == g[0] * 0x1_0000_0000_0000_0000_0000_0000_0000 + g[1]
            * 0x1_0000_0000_0000_0000_0000_0000 + g[2] * 0x1_0000_0000_0000_0000_0000 + g[3]
            * 0x1_0000_0000_0000_0000 + g[4] * 0x1_0000_0000_0000 + g[5] * 0x1_0000_0000 + g[6]
            * 0x1_0000 + g[7],
        ip_text(IpAddr::V6(v6_of(g))) == hexadecimal(g[0] as nat) + ":"@ + hexadecimal(g[1] as nat)
            + ":"@ + hexadecimal(g[2] as nat) + ":"@ + hexadecimal(g[3] as nat) + ":"@ + hexadecimal(
            g[4] as nat,
        ) + ":"@ + hexadecimal(g[5] as nat) + ":"@ + hexadecimal(g[6] as nat) + ":"@ + hexadecimal(
            g[7] as nat,
        ),
{
    let v = v6_of(g);
    lemma_groups_of(g);
    lemma_longest(g, 8);
    let start = longest(g, 8);
    let run = zero_run(g, start);
    reveal_with_fuel(zero_run, 3);
    if start < 7 {
        assert(!(g[start] == 0 && g[start + 1] == 0));
    }
    assert(run <= 1);
    if v / 0x1_0000_0000 == 0xffff {
        assert(segments(v)[0] == 0 && segments(v)[1] == 0);
        assert(g[0] == 0 && g[1] == 0);
    }
    assert(v6_text(v) == colons(g));
    assert(g.drop_last() =~= g.take(7));
    assert(g.take(7).drop_last() =~= g.take(6));
    assert(g.take(6).drop_last() =~= g.take(5));
    assert(g.take(5).drop_last() =~= g.take(4));
    assert(g.take(4).drop_last() =~= g.take(3));
    assert(g.take(3).drop_last() =~= g.take(2));
    assert(g.take(2).drop_last() =~= g.take(1));
    reveal_with_fuel(colons, 9);
}

/// The longest run of two or more zero groups, the first where several are as long, is left out of a
/// version 6 address and two colons stand for it.
pub proof fn law_the_longest_run_of_zeros_is_left_out(g: Seq<u16>, at: int, n: int)
    requires
        g.len() == 8,
        v6_of(g) / 0x1_0000_0000 != 0xffff,
        0 <= at,
        n >= 2,
        at + n <= 8,
        forall|i: int| at <= i < at + n ==> #[trigger] g[i] == 0,
        at + n < 8 ==> g[at + n] != 0,
        forall|i: int| 0 <= i < at ==> zero_run(g, i) < n,
        forall|i: int| at < i < 8 ==> zero_run(g, i) <= n,
    ensures
        ip_text(IpAddr::V6(v6_of(g))) == colons(g.take(at)) + "::"@ + colons(g.skip(at + n)),
{
    lemma_groups_of(g);
    lemma_zero_run_is(g, at, n);
    lemma_longest_is(g, 8, at);
}

proof fn lemma_zero_run_is(g: Seq<u16>, at: int, n: int)
    requires
        0 <= at,
        n >= 0,
        at + n <= g.len(),
        forall|i: int| at <= i < at + n ==> #[trigger] g[i] == 0,
        at + n < g.len() ==> g[at + n] != 0,
    ensures
        zero_run(g, at) == n,
    decreases n,
{
    if n > 0 {
        lemma_zero_run_is(g, at + 1, n - 1);
    }
}

proof fn lemma_longest_is(g: Seq<u16>, n: nat, at: int)
    requires
        g.len() == 8,
        n <= 8,
        0 <= at < 8,
        forall|i: int| 0 <= i < at ==> zero_run(g, i) < zero_run(g, at),
        forall|i: int| at < i < 8 ==> zero_run(g, i) <= zero_run(g, at),
    ensures
        n > at ==> longest(g, n) == at,
        n <= at && n > 0 ==> 0 <= longest(g, n) < n,
        n == 0 ==> longest(g, n) == 0,
    decreases n,
{
    if n > 0 {
        lemma_longest_is(g, (n - 1) as nat, at);
    }
}

proof fn lemma_fields_of_joined(f: Seq<Seq<char>>, sep: char)
    requires
        f.len() > 0,
        forall|i: int| 0 <= i < f.len() ==> lacks(#[trigger] f[i], sep),
    ensures
        fields(text::joined(f, seq![sep]), sep) == f,
    decreases f.len(),
{
    if f.len() == 1 {
        lemma_no_field_ends(f[0], sep);
        assert(f =~= seq![f[0]]);
    } else {
        let shorter = f.drop_last();
        assert forall|i: int| 0 <= i < shorter.len() implies lacks(#[trigger] shorter[i], sep) by {
            assert(lacks(f[i], sep));
        }
        lemma_fields_of_joined(shorter, sep);
        assert(lacks(f[f.len() - 1], sep));
        lemma_fields_append(text::joined(shorter, seq![sep]), f.last(), sep);
        assert(shorter.push(f.last()) =~= f);
    }
}

/// Whether a text is a group of a version 6 address: one to four hexadecimal digits of either case.
pub open spec fn is_group(s: Seq<char>) -> bool {
    1 <= s.len() <= 4 && forall|i: int|
        0 <= i < s.len() ==> ('0' <= #[trigger] s[i] && s[i] <= '9') || ('a' <= s[i] && s[i] <= 'f') || (
        'A' <= s[i] && s[i] <= 'F')
}

proof fn lemma_groups_read(f: Seq<Seq<char>>, quad: bool)
    requires
        forall|i: int| 0 <= i < f.len() ==> is_group(#[trigger] f[i]),
    ensures
        groups(f, quad) == Some(Seq::new(f.len(), |i: int| hex_value(f[i]) as u16)),
    decreases f.len(),
{
    let g = Seq::new(f.len(), |i: int| hex_value(f[i]) as u16);
    if f.len() == 0 {
        assert(g =~= Seq::<u16>::empty());
    } else {
        let shorter = f.drop_last();
        assert forall|i: int| 0 <= i < shorter.len() implies is_group(#[trigger] shorter[i]) by {
            assert(is_group(f[i]));
        }
        lemma_groups_read(shorter, false);
        assert(is_group(f[f.len() - 1]));
        let last = f.last();
        assert forall|i: int| 0 <= i < last.len() implies is_hex(#[trigger] last[i]) by {}
        let before = Seq::new(shorter.len(), |i: int| hex_value(shorter[i]) as u16);
        assert(before.push(hex_value(last) as u16) =~= g);
    }
}

proof fn lemma_joined_groups(f: Seq<Seq<char>>)
    requires
        f.len() > 0,
        forall|i: int| 0 <= i < f.len() ==> is_group(#[trigger] f[i]),
    ensures
        ({
            let s = text::joined(f, seq![':']);
            &&& s.len() > 0
            &&& s[0] != ':'
            &&& s.last() != ':'
            &&& gapless(s)
            &&& lacks(s, '.')
        }),
    decreases f.len(),
{
    let s = text::joined(f, seq![':']);
    let last = f.last();
    assert(is_group(f[f.len() - 1]));
    assert forall|i: int| 0 <= i < last.len() implies #[trigger] last[i] != ':' && last[i] != '.' by {}
    if f.len() > 1 {
        let shorter = f.drop_last();
        assert forall|i: int| 0 <= i < shorter.len() implies is_group(#[trigger] shorter[i]) by {
            assert(is_group(f[i]));
        }
        lemma_joined_groups(shorter);
        let t = text::joined(shorter, seq![':']);
        assert(s == t + seq![':'] + last);
        assert(s[0] == t[0]);
        assert(s.last() == last.last());
        assert forall|i: int| 0 <= i && i + 1 < s.len() implies !(#[trigger] s[i] == ':' && s[i + 1]
            == ':') by {
            if i + 1 < t.len() {
                assert(s[i] == t[i] && s[i + 1] == t[i + 1]);
            } else if i + 1 == t.len() {
                assert(s[i] == t.last());
            } else if i == t.len() {
                assert(s[i + 1] == last[0]);
            } else {
                assert(s[i] == last[i - t.len() - 1]);
            }
        }
        assert forall|i: int| 0 <= i < s.len() implies #[trigger] s[i] != '.' by {
            if i < t.len() {
                assert(s[i] == t[i]);
            } else if i > t.len() {
                assert(s[i] == last[i - t.len() - 1]);
            }
        }
    }
}

/// Eight groups of up to four hexadecimal digits, in either case and with leading zeros or without,
/// are the address they make up.
pub proof fn law_eight_groups_are_an_address(f: Seq<Seq<char>>)
    requires
        f.len() == 8,
        forall|i: int| 0 <= i < 8 ==> is_group(#[trigger] f[i]),
    ensures
        ip_read(text::joined(f, seq![':'])) == Some(
            IpAddr::V6(v6_of(Seq::new(8, |i: int| hex_value(f[i]) as u16))),
        ),
{
    let s = text::joined(f, seq![':']);
    lemma_joined_groups(f);
    assert forall|i: int| 0 <= i < f.len() implies lacks(#[trigger] f[i], ':') by {
        assert(is_group(f[i]));
    }
    lemma_fields_of_joined(f, ':');
    lemma_groups_read(f, true);
    lemma_gap_is(s, s.len() as int);
    lemma_no_field_ends(s, '.');
    assert(Seq::new(8, |i: int| hex_value(f[i]) as u16) =~= Seq::new(
        f.len(),
        |i: int| hex_value(f[i]) as u16,
    ));
}

/// A hexadecimal digit counts as it does in either case, and one more behind a number is sixteen times
/// the number and the digit.
pub proof fn law_hexadecimal_is_read_digit_by_digit(s: Seq<char>, d: nat)
    requires
        d < 16,
    ensures
        hex_value(Seq::empty()) == 0,
        d < 10 ==> hex_value(s.push(('0' as int + d) as char)) == hex_value(s) * 16 + d,
        d >= 10 ==> hex_value(s.push(('a' as int + d - 10) as char)) == hex_value(s) * 16 + d,
        d >= 10 ==> hex_value(s.push(('A' as int + d - 10) as char)) == hex_value(s) * 16 + d,
{
    assert(s.push(('0' as int + d) as char).drop_last() =~= s);
    assert(s.push(('a' as int + d - 10) as char).drop_last() =~= s);
    assert(s.push(('A' as int + d - 10) as char).drop_last() =~= s);
}

} // verus!
