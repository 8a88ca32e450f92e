//! Validation of `ip:port` address text.
use vstd::prelude::*;
use vstd::string::StrSliceExecFns;

verus! {

/// Number of colons in `s`.
pub open spec fn colon_count(s: Seq<char>) -> nat
    decreases s.len(),
{
    if s.len() == 0 {
        0
    } else {
        colon_count(s.drop_last()) + if s.last() == ':' { 1nat } else { 0nat }
    }
}

/// Index of the first colon in `s`, or its length when it has none.
pub open spec fn colon_pos(s: Seq<char>) -> int
    decreases s.len(),
{
    if s.len() == 0 {
        0
    } else if colon_count(s.drop_last()) > 0 {
        colon_pos(s.drop_last())
    } else {
        s.len() - 1 + if s.last() == ':' { 0int } else { 1int }
    }
}

/// Text before the first colon.
pub open spec fn host_part(s: Seq<char>) -> Seq<char> {
    s.subrange(0, colon_pos(s))
}

/// Text after the first colon.
pub open spec fn port_part(s: Seq<char>) -> Seq<char> {
    s.subrange(colon_pos(s) + 1, s.len() as int)
}

/// Whether `s` is an IPv4 or IPv6 literal, as the standard library reads one.
pub uninterp spec fn ip_literal(s: Seq<char>) -> bool;

pub open spec fn is_digit(c: char) -> bool {
    '0' <= c && c <= '9'
}

pub open spec fn all_digits(s: Seq<char>) -> bool {
    forall|i: int| 0 <= i < s.len() ==> is_digit(#[trigger] s[i])
}

/// Decimal value of a run of digits.
pub open spec fn digits_value(s: Seq<char>) -> int
    decreases s.len(),
{
    if s.len() == 0 {
        0
    } else {
        digits_value(s.drop_last()) * 10 + (s.last() as u32 - '0' as u32)
    }
}

/// The digits of a port text: an optional leading `+` is dropped.
pub open spec fn port_digits(s: Seq<char>) -> Seq<char> {
    if s.len() > 0 && s[0] == '+' {
        s.drop_first()
    } else {
        s
    }
}

/// Whether `s` reads as an unsigned 16-bit decimal number.
pub open spec fn is_port(s: Seq<char>) -> bool {
    let d = port_digits(s);
    d.len() > 0 && all_digits(d) && digits_value(d) <= 65535
}

/// The number that a port text denotes.
pub open spec fn port_value(s: Seq<char>) -> int {
    digits_value(port_digits(s))
}

/// Exactly one colon, an IP literal before it and a port after it.
pub open spec fn valid_address(s: Seq<char>) -> bool {
    colon_count(s) == 1 && ip_literal(host_part(s)) && is_port(port_part(s))
}

/// Relies on `core::net::IpAddr`'s `FromStr`: whether the text parses as an
/// IPv4 or IPv6 address.
#[verifier::external_body]
fn parses_as_ip(s: &str) -> (r: bool)
    ensures
        r == ip_literal(s@),
{
    s.parse::<core::net::IpAddr>().is_ok()
}

} // verus!

verus! {

proof fn lemma_count_zero(s: Seq<char>)
    ensures
        colon_count(s) == 0 <==> !s.contains(':'),
    decreases s.len(),
{
    if s.len() > 0 {
        lemma_count_zero(s.drop_last());
        if s.drop_last().contains(':') {
            let i = choose|i: int| 0 <= i < s.len() - 1 && s.drop_last()[i] == ':';
            assert(s[i] == ':');
        }
        if s.contains(':') && !s.drop_last().contains(':') {
            let i = choose|i: int| 0 <= i < s.len() && s[i] == ':';
            if i < s.len() - 1 {
                assert(s.drop_last()[i] == ':');
            }
        }
    }
}

proof fn lemma_count_concat(a: Seq<char>, b: Seq<char>)
    ensures
        colon_count(a + b) == colon_count(a) + colon_count(b),
    decreases b.len(),
{
    if b.len() == 0 {
        assert(a + b =~= a);
    } else {
        lemma_count_concat(a, b.drop_last());
        assert((a + b).drop_last() =~= a + b.drop_last());
    }
}

/// Where the colon at `k` is the first one, `colon_pos` finds it.
proof fn lemma_first_colon(s: Seq<char>, k: int)
    requires
        0 <= k < s.len(),
        s[k] == ':',
        !s.subrange(0, k).contains(':'),
    ensures
        colon_pos(s) == k,
    decreases s.len(),
{
    let t = s.drop_last();
    if k < s.len() - 1 {
        assert(t.subrange(0, k) =~= s.subrange(0, k));
        assert(t[k] == ':');
        lemma_count_zero(t);
        lemma_first_colon(t, k);
    } else {
        assert(t =~= s.subrange(0, k));
        lemma_count_zero(t);
    }
}

proof fn lemma_digits_nonneg(s: Seq<char>)
    requires
        all_digits(s),
    ensures
        digits_value(s) >= 0,
    decreases s.len(),
{
    if s.len() > 0 {
        lemma_digits_nonneg(s.drop_last());
        assert(is_digit(s[s.len() - 1]));
    }
}

proof fn lemma_digits_step(s: Seq<char>, i: int)
    requires
        0 <= i < s.len(),
    ensures
        digits_value(s.subrange(0, i + 1)) == digits_value(s.subrange(0, i)) * 10 + (s[i] as u32
            - '0' as u32),
{
    assert(s.subrange(0, i + 1).drop_last() =~= s.subrange(0, i));
}

/// A prefix of a run of digits is worth no more than the whole run.
proof fn lemma_digits_prefix(s: Seq<char>, i: int)
    requires
        all_digits(s),
        0 <= i <= s.len(),
    ensures
        digits_value(s.subrange(0, i)) <= digits_value(s),
    decreases s.len() - i,
{
    if i < s.len() {
        lemma_digits_prefix(s, i + 1);
        lemma_digits_step(s, i);
        assert(all_digits(s.subrange(0, i)));
        lemma_digits_nonneg(s.subrange(0, i));
        assert(is_digit(s[i]));
    } else {
        assert(s.subrange(0, i) =~= s);
    }
}

/// Reads a port number: an optional `+`, then decimal digits whose value
/// fits in 16 bits.
pub fn parse_port(s: &str) -> (r: Option<u16>)
    ensures
        r.is_some() == is_port(s@),
        r matches Some(p) ==> p as int == port_value(s@),
{
    let n = s.unicode_len();
    let mut start: usize = 0;
    if n > 0 && s.get_char(0) == '+' {
        start = 1;
    }
    let ghost d = port_digits(s@);
    assert(d =~= s@.subrange(start as int, n as int));
    if start >= n {
        return None;
    }
    let mut i: usize = start;
    let mut v: u32 = 0;
    while i < n
        invariant
            start <= i <= n,
            n == s@.len(),
            d == s@.subrange(start as int, n as int),
            d == port_digits(s@),
            v <= 65535,
            v == digits_value(d.subrange(0, i - start)),
            all_digits(d.subrange(0, i - start)),
        decreases n - i,
    {
        let c = s.get_char(i);
        assert(c == d[i - start]);
        if c < '0' || c > '9' {
            assert(!is_digit(d[i - start]));
            assert(!all_digits(d));
            assert(!is_port(s@));
            return None;
        }
        proof {
            lemma_digits_step(d, i - start);
        }
        v = v * 10 + (c as u32 - '0' as u32);
        if v > 65535 {
            proof {
                assert(digits_value(d.subrange(0, i - start + 1)) > 65535);
                if all_digits(d) {
                    lemma_digits_prefix(d, i - start + 1);
                }
                assert(!is_port(s@));
            }
            return None;
        }
        assert(all_digits(d.subrange(0, i + 1 - start))) by {
            assert forall|j: int| 0 <= j < i + 1 - start implies is_digit(
                #[trigger] d.subrange(0, i + 1 - start)[j],
            ) by {
                if j < i - start {
                    assert(d.subrange(0, i - start)[j] == d[j]);
                }
            }
        }
        i = i + 1;
    }
    assert(d.subrange(0, n - start) =~= d);
    Some(v as u16)
}

} // verus!

verus! {

/// Splits `s` at its colon when it holds exactly one.
pub fn split_address(s: &str) -> (r: Option<(&str, &str)>)
    ensures
        r.is_some() == (colon_count(s@) == 1),
        r matches Some((h, p)) ==> h@ == host_part(s@) && p@ == port_part(s@),
{
    let n = s.unicode_len();
    let mut i: usize = 0;
    let mut count: usize = 0;
    let mut pos: usize = 0;
    while i < n
        invariant
            i <= n,
            n == s@.len(),
            count <= i,
            count == colon_count(s@.subrange(0, i as int)),
            pos == colon_pos(s@.subrange(0, i as int)),
            count > 0 ==> pos < i,
        decreases n - i,
    {
        let c = s.get_char(i);
        assert(s@.subrange(0, i + 1).drop_last() =~= s@.subrange(0, i as int));
        if c == ':' {
            if count == 0 {
                pos = i;
            }
            count = count + 1;
        } else if count == 0 {
            pos = i + 1;
        }
        i = i + 1;
    }
    assert(s@.subrange(0, n as int) =~= s@);
    if count != 1 {
        return None;
    }
    let host = s.substring_char(0, pos);
    let port = s.substring_char(pos + 1, n);
    Some((host, port))
}

/// Whether `input` is an address of the form `ip:port`: exactly one colon, an
/// IPv4 or IPv6 literal before it and a 16-bit port number after it.
pub fn is_valid_ip_port(input: &str) -> (r: bool)
    ensures
        r == valid_address(input@),
{
    match split_address(input) {
        None => false,
        Some((host, port)) => parses_as_ip(host) && parse_port(port).is_some(),
    }
}

proof fn lemma_port_has_no_colon(port: Seq<char>)
    requires
        is_port(port),
    ensures
        !port.contains(':'),
{
    let d = port_digits(port);
    if port.contains(':') {
        let i = choose|i: int| 0 <= i < port.len() && port[i] == ':';
        if port.len() > 0 && port[0] == '+' {
            assert(d[i - 1] == ':');
            assert(is_digit(d[i - 1]));
        } else {
            assert(is_digit(d[i]));
        }
    }
}

proof fn lemma_count_single_colon()
    ensures
        colon_count(seq![':']) == 1,
{
    assert(seq![':'].drop_last() =~= Seq::<char>::empty());
    assert(colon_count(Seq::<char>::empty()) == 0);
    assert(seq![':'].last() == ':');
}

/// How `ip:port` splits when neither part holds a colon.
proof fn lemma_split_joined(ip: Seq<char>, port: Seq<char>)
    requires
        !ip.contains(':'),
        !port.contains(':'),
    ensures
        colon_count(ip + seq![':'] + port) == 1,
        host_part(ip + seq![':'] + port) == ip,
        port_part(ip + seq![':'] + port) == port,
{
    let s = ip + seq![':'] + port;
    lemma_count_zero(ip);
    lemma_count_zero(port);
    lemma_count_concat(ip, seq![':']);
    lemma_count_concat(ip + seq![':'], port);
    lemma_count_single_colon();
    assert(s.subrange(0, ip.len() as int) =~= ip);
    lemma_first_colon(s, ip.len() as int);
    assert(host_part(s) =~= ip);
    assert(port_part(s) =~= port);
}

/// Text with no colon, or with more than one, is never a valid address.
pub proof fn lemma_colon_count_rejects(s: Seq<char>)
    requires
        colon_count(s) != 1,
    ensures
        !valid_address(s),
{
}

/// `ip:port` is rejected when `ip` is no IP literal or `port` is no 16-bit
/// decimal number.
pub proof fn lemma_bad_part_rejects(ip: Seq<char>, port: Seq<char>)
    requires
        !ip_literal(ip) || !is_port(port),
    ensures
        !valid_address(ip + seq![':'] + port),
{
    let s = ip + seq![':'] + port;
    if ip.contains(':') || port.contains(':') {
        lemma_count_zero(ip);
        lemma_count_zero(port);
        lemma_count_concat(ip, seq![':']);
        lemma_count_concat(ip + seq![':'], port);
        lemma_count_single_colon();
    } else {
        lemma_split_joined(ip, port);
    }
}

/// `ip:port` is accepted when `ip` is an IP literal without a colon (any IPv4
/// literal) and `port` is a 16-bit decimal number.
pub proof fn lemma_good_parts_accepted(ip: Seq<char>, port: Seq<char>)
    requires
        ip_literal(ip),
        !ip.contains(':'),
        is_port(port),
    ensures
        valid_address(ip + seq![':'] + port),
{
    lemma_port_has_no_colon(port);
    lemma_split_joined(ip, port);
}

} // verus!
