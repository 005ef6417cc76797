use vstd::prelude::*;

verus! {

/// Port used when a broker address names none.
pub const DEFAULT_PORT: u16 = 1883;

/// Why a broker address was refused.
#[derive(Debug, Clone, Copy, PartialEq, Eq, Structural)]
pub enum ParseError {
    /// The text after the last colon is not an unsigned 16-bit integer.
    InvalidPort,
}

pub open spec fn mqtt_scheme() -> Seq<char> {
    seq!['m', 'q', 't', 't', ':', '/', '/']
}

pub open spec fn mqtts_scheme() -> Seq<char> {
    seq!['m', 'q', 't', 't', 's', ':', '/', '/']
}

pub open spec fn tcp_scheme() -> Seq<char> {
    seq!['t', 'c', 'p', ':', '/', '/']
}

pub open spec fn starts_with(s: Seq<char>, p: Seq<char>) -> bool {
    p.len() <= s.len() && s.subrange(0, p.len() as int) == p
}

/// `s` with every leading repetition of `p` removed.
pub open spec fn strip_all(s: Seq<char>, p: Seq<char>) -> Seq<char>
    decreases s.len(),
{
    if p.len() > 0 && starts_with(s, p) {
        strip_all(s.subrange(p.len() as int, s.len() as int), p)
    } else {
        s
    }
}

/// The address with the scheme prefixes removed, in the order mqtt, mqtts, tcp.
pub open spec fn strip_scheme(s: Seq<char>) -> Seq<char> {
    strip_all(strip_all(strip_all(s, mqtt_scheme()), mqtts_scheme()), tcp_scheme())
}

/// Position of the last colon of `s`, if any.
pub open spec fn last_colon(s: Seq<char>) -> Option<int>
    decreases s.len(),
{
    if s.len() == 0 {
        None
    } else if s.last() == ':' {
        Some(s.len() - 1)
    } else {
        last_colon(s.drop_last())
    }
}

pub open spec fn is_digit(c: char) -> bool {
    '0' <= c && c <= '9'
}

pub open spec fn all_digits(d: Seq<char>) -> bool {
    forall|i: int| 0 <= i < d.len() ==> is_digit(#[trigger] d[i])
}

/// Value of a run of decimal digits.
pub open spec fn digits_value(d: Seq<char>) -> nat
    decreases d.len(),
{
    if d.len() == 0 {
        0
    } else {
        digits_value(d.drop_last()) * 10 + (d.last() as nat - '0' as nat) as nat
    }
}

/// The digits of a port text: one leading `+` is allowed when digits follow.
pub open spec fn port_digits(s: Seq<char>) -> Seq<char> {
    if s.len() > 1 && s[0] == '+' {
        s.drop_first()
    } else {
        s
    }
}

/// The port a text denotes, as an unsigned 16-bit integer in decimal.
pub open spec fn parse_port(s: Seq<char>) -> Option<u16> {
    let d = port_digits(s);
    if d.len() > 0 && all_digits(d) && digits_value(d) < 0x1_0000 {
        Some(digits_value(d) as u16)
    } else {
        None
    }
}

/// Host and port that a broker address denotes, or `None` for a bad port.
pub open spec fn broker_address(url: Seq<char>) -> Option<(Seq<char>, u16)> {
    let u = strip_scheme(url);
    match last_colon(u) {
        Some(i) => match parse_port(u.subrange(i + 1, u.len() as int)) {
            Some(p) => Some((u.subrange(0, i), p)),
            None => None,
        },
        None => Some((u, DEFAULT_PORT)),
    }
}

pub(crate) fn has_prefix(s: &str, p: &str) -> (r: bool)
    ensures
        r == starts_with(s@, p@),
{
    let n = s.unicode_len();
    let m = p.unicode_len();
    if m > n {
        return false;
    }
    let mut i: usize = 0;
    while i < m
        invariant
            m == p@.len(),
            n == s@.len(),
            m <= n,
            i <= m,
            forall|j: int| 0 <= j < i ==> s@[j] == p@[j],
        decreases m - i,
    {
        if s.get_char(i) != p.get_char(i) {
            assert(s@.subrange(0, m as int)[i as int] != p@[i as int]);
            return false;
        }
        i = i + 1;
    }
    assert(s@.subrange(0, m as int) =~= p@);
    true
}

fn strip_prefix_all<'a>(s: &'a str, p: &str) -> (r: &'a str)
    requires
        p@.len() > 0,
    ensures
        r@ == strip_all(s@, p@),
{
    let m = p.unicode_len();
    let mut cur = s;
    while has_prefix(cur, p)
        invariant
            m == p@.len(),
            m > 0,
            strip_all(cur@, p@) == strip_all(s@, p@),
        decreases cur@.len(),
    {
        let n = cur.unicode_len();
        cur = cur.substring_char(m, n);
    }
    cur
}

fn find_last_colon(s: &str) -> (r: Option<usize>)
    ensures
        r matches Some(i) ==> i < s@.len() && last_colon(s@) == Some(i as int),
        r is None ==> last_colon(s@) is None,
{
    let n = s.unicode_len();
    let mut k: usize = n;
    assert(s@.subrange(0, n as int) =~= s@);
    while k > 0
        invariant
            n == s@.len(),
            k <= n,
            last_colon(s@) == last_colon(s@.subrange(0, k as int)),
        decreases k,
    {
        assert(s@.subrange(0, k as int).drop_last() =~= s@.subrange(0, k - 1));
        if s.get_char(k - 1) == ':' {
            return Some(k - 1);
        }
        k = k - 1;
    }
    assert(s@.subrange(0, 0).len() == 0);
    None
}

fn parse_port_text(s: &str) -> (r: Option<u16>)
    ensures
        r == parse_port(s@),
{
    let n = s.unicode_len();
    let mut st: usize = 0;
    if n > 1 && s.get_char(0) == '+' {
        st = 1;
    }
    let ghost d = port_digits(s@);
    assert(d =~= s@.subrange(st as int, n as int));
    if st >= n {
        return None;
    }
    let mut i: usize = st;
    let mut v: u32 = 0;
    while i < n
        invariant
            n == s@.len(),
            st <= i <= n,
            d == s@.subrange(st as int, n as int),
            d == port_digits(s@),
            all_digits(s@.subrange(st as int, i as int)),
            v as nat == digits_value(s@.subrange(st as int, i as int)),
            v < 0x1_0000,
        decreases n - i,
    {
        let c = s.get_char(i);
        let ghost pre = s@.subrange(st as int, i as int);
        let ghost next = s@.subrange(st as int, i + 1);
        assert(next.drop_last() =~= pre);
        assert(next.last() == c);
        if !('0' <= c && c <= '9') {
            assert(d[i - st] == c);
            assert(!is_digit(d[i - st]));
            return None;
        }
        let digit: u32 = (c as u32) - ('0' as u32);
        v = v * 10 + digit;
        assert(v as nat == digits_value(next));
        assert(all_digits(next)) by {
            assert forall|j: int| 0 <= j < next.len() implies is_digit(#[trigger] next[j]) by {
                if j < pre.len() {
                    assert(next[j] == pre[j]);
                }
            }
        }
        if v >= 0x1_0000 {
            proof {
                assert(d.subrange(0, i + 1 - st) =~= next);
                if all_digits(d) {
                    lemma_digits_value_grows(d, i + 1 - st);
                }
            }
            return None;
        }
        i = i + 1;
    }
    assert(s@.subrange(st as int, n as int) =~= d);
    Some(v as u16)
}

/// The value of all digits is at least the value of any prefix of them.
proof fn lemma_digits_value_grows(d: Seq<char>, k: int)
    requires
        0 <= k <= d.len(),
        all_digits(d),
    ensures
        digits_value(d.subrange(0, k)) <= digits_value(d),
    decreases d.len() - k,
{
    if k < d.len() {
        lemma_digits_value_grows(d, k + 1);
        assert(d.subrange(0, k + 1).drop_last() =~= d.subrange(0, k));
        assert(is_digit(d[k]));
    } else {
        assert(d.subrange(0, k) =~= d);
    }
}

/// The decimal digit for `d`.
pub open spec fn digit_char(d: nat) -> char {
    seq!['0', '1', '2', '3', '4', '5', '6', '7', '8', '9'][d as int]
}

/// `n` written in decimal, without leading zeros.
pub open spec fn decimal(n: nat) -> Seq<char>
    decreases n,
{
    if n < 10 {
        seq![digit_char(n)]
    } else {
        decimal(n / 10).push(digit_char(n % 10))
    }
}

proof fn lemma_digit_char(d: nat)
    requires
        d < 10,
    ensures
        is_digit(digit_char(d)),
        digit_char(d) as nat - '0' as nat == d,
{
}

proof fn lemma_decimal(n: nat)
    ensures
        decimal(n).len() > 0,
        all_digits(decimal(n)),
        digits_value(decimal(n)) == n,
    decreases n,
{
    if n < 10 {
        lemma_digit_char(n);
        assert(decimal(n).drop_last() =~= Seq::<char>::empty());
        assert(digits_value(Seq::<char>::empty()) == 0);
        assert(decimal(n).last() == digit_char(n));
    } else {
        lemma_decimal(n / 10);
        lemma_digit_char(n % 10);
        let d = decimal(n);
        assert(d.drop_last() =~= decimal(n / 10));
        assert(d.last() == digit_char(n % 10));
        assert(digits_value(d) == digits_value(decimal(n / 10)) * 10 + (n % 10));
        assert((n / 10) * 10 + n % 10 == n) by (nonlinear_arith);
        assert forall|i: int| 0 <= i < d.len() implies is_digit(#[trigger] d[i]) by {
            if i < d.len() - 1 {
                assert(d[i] == decimal(n / 10)[i]);
            }
        }
    }
}

/// A colon followed by colon-free text is the last colon.
proof fn lemma_last_colon_suffix(h: Seq<char>, d: Seq<char>)
    requires
        forall|i: int| 0 <= i < d.len() ==> d[i] != ':',
    ensures
        last_colon(h + seq![':'] + d) == Some(h.len() as int),
    decreases d.len(),
{
    let s = h + seq![':'] + d;
    if d.len() == 0 {
        assert(s.last() == ':');
    } else {
        assert(s.drop_last() =~= h + seq![':'] + d.drop_last());
        lemma_last_colon_suffix(h, d.drop_last());
    }
}

proof fn lemma_strip_once(p: Seq<char>, h: Seq<char>)
    requires
        p.len() > 0,
        !starts_with(h, p),
    ensures
        strip_all(p + h, p) == h,
        strip_all(h, p) == h,
{
    assert((p + h).subrange(0, p.len() as int) =~= p);
    assert((p + h).subrange(p.len() as int, (p + h).len() as int) =~= h);
    assert(strip_all(h, p) == h);
    assert(starts_with(p + h, p));
}

proof fn lemma_schemes_distinct(h: Seq<char>)
    ensures
        !starts_with(mqtts_scheme() + h, mqtt_scheme()),
        !starts_with(tcp_scheme() + h, mqtt_scheme()),
        !starts_with(tcp_scheme() + h, mqtts_scheme()),
{
    let a = mqtts_scheme() + h;
    let b = tcp_scheme() + h;
    assert(a[4] == 's');
    assert(a.subrange(0, 7)[4] == a[4]);
    assert(b[0] == 't');
    assert(b.len() >= 7 ==> b.subrange(0, 7)[0] == b[0]);
    assert(b.len() >= 8 ==> b.subrange(0, 8)[0] == b[0]);
}

/// In a scheme every colon is followed by a character that is not a digit.
pub open spec fn colon_then_non_digit(p: Seq<char>) -> bool {
    forall|i: int| 0 <= i < p.len() && p[i] == ':' ==> i + 1 < p.len() && !is_digit(#[trigger] p[i + 1])
}

proof fn lemma_schemes_colons()
    ensures
        colon_then_non_digit(mqtt_scheme()),
        colon_then_non_digit(mqtts_scheme()),
        colon_then_non_digit(tcp_scheme()),
{
    assert forall|i: int| 0 <= i < mqtt_scheme().len() && mqtt_scheme()[i] == ':' implies i + 1
        < mqtt_scheme().len() && !is_digit(#[trigger] mqtt_scheme()[i + 1]) by {
        assert(i == 4);
    }
    assert forall|i: int| 0 <= i < mqtts_scheme().len() && mqtts_scheme()[i] == ':' implies i + 1
        < mqtts_scheme().len() && !is_digit(#[trigger] mqtts_scheme()[i + 1]) by {
        assert(i == 5);
    }
    assert forall|i: int| 0 <= i < tcp_scheme().len() && tcp_scheme()[i] == ':' implies i + 1
        < tcp_scheme().len() && !is_digit(#[trigger] tcp_scheme()[i + 1]) by {
        assert(i == 3);
    }
}

proof fn lemma_address_not_scheme(p: Seq<char>, host: Seq<char>, d: Seq<char>)
    requires
        p.len() > 0,
        colon_then_non_digit(p),
        !starts_with(host, p),
        d.len() > 0,
        all_digits(d),
    ensures
        !starts_with(host + seq![':'] + d, p),
{
    let rest = host + seq![':'] + d;
    if starts_with(rest, p) {
        let pre = rest.subrange(0, p.len() as int);
        if host.len() >= p.len() {
            assert(host.subrange(0, p.len() as int) =~= pre);
        } else {
            let c = host.len() as int;
            assert(rest[c] == ':');
            assert(pre[c] == rest[c]);
            assert(p[c] == ':');
            assert(is_digit(d[0]));
            assert(rest[c + 1] == d[0]);
            assert(pre[c + 1] == rest[c + 1]);
            assert(!is_digit(p[c + 1]));
        }
    }
}

/// An address made of a known scheme (or none), a host and a port parses
/// back to that host and port, whenever the host itself does not begin with
/// a scheme.
pub proof fn lemma_scheme_host_port(scheme: Seq<char>, host: Seq<char>, port: u16)
    requires
        scheme == Seq::<char>::empty() || scheme == mqtt_scheme() || scheme == mqtts_scheme()
            || scheme == tcp_scheme(),
        !starts_with(host, mqtt_scheme()),
        !starts_with(host, mqtts_scheme()),
        !starts_with(host, tcp_scheme()),
    ensures
        broker_address(scheme + host + seq![':'] + decimal(port as nat)) == Some((host, port)),
{
    let d = decimal(port as nat);
    let rest = host + seq![':'] + d;
    let url = scheme + host + seq![':'] + d;
    assert(url =~= scheme + rest);
    lemma_decimal(port as nat);
    lemma_schemes_colons();
    lemma_address_not_scheme(mqtt_scheme(), host, d);
    lemma_address_not_scheme(mqtts_scheme(), host, d);
    lemma_address_not_scheme(tcp_scheme(), host, d);
    lemma_strip_once(mqtt_scheme(), rest);
    lemma_strip_once(mqtts_scheme(), rest);
    lemma_strip_once(tcp_scheme(), rest);
    lemma_schemes_distinct(rest);
    if scheme == Seq::<char>::empty() {
        assert(url =~= rest);
    } else if scheme == mqtts_scheme() {
        lemma_strip_once(mqtt_scheme(), mqtts_scheme() + rest);
    } else if scheme == tcp_scheme() {
        lemma_strip_once(mqtt_scheme(), tcp_scheme() + rest);
        lemma_strip_once(mqtts_scheme(), tcp_scheme() + rest);
    }
    assert(strip_scheme(url) == rest);
    assert forall|i: int| 0 <= i < d.len() implies d[i] != ':' by {
        assert(is_digit(d[i]));
    }
    lemma_last_colon_suffix(host, d);
    assert(rest.subrange(host.len() + 1int, rest.len() as int) =~= d);
    assert(rest.subrange(0, host.len() as int) =~= host);
    assert(is_digit(d[0]));
    assert(port_digits(d) == d);
}

/// An address without a colon names the default port.
pub proof fn lemma_no_colon_default_port(host: Seq<char>)
    requires
        forall|i: int| 0 <= i < host.len() ==> host[i] != ':',
        !starts_with(host, mqtt_scheme()),
        !starts_with(host, mqtts_scheme()),
        !starts_with(host, tcp_scheme()),
    ensures
        broker_address(host) == Some((host, DEFAULT_PORT)),
{
    lemma_strip_once(mqtt_scheme(), host);
    lemma_strip_once(mqtts_scheme(), host);
    lemma_strip_once(tcp_scheme(), host);
    lemma_no_colon(host);
}

proof fn lemma_no_colon(s: Seq<char>)
    requires
        forall|i: int| 0 <= i < s.len() ==> s[i] != ':',
    ensures
        last_colon(s) is None,
    decreases s.len(),
{
    if s.len() > 0 {
        lemma_no_colon(s.drop_last());
    }
}

/// Splits a broker address into host and port: the schemes `mqtt://`,
/// `mqtts://` and `tcp://` are stripped from its front, the last colon parts
/// host from port, and an address without a colon gets the default port.
pub fn parse_broker_url(url: &str) -> (r: Result<(String, u16), ParseError>)
    ensures
        broker_address(url@) is None ==> r == Err::<(String, u16), ParseError>(
            ParseError::InvalidPort,
        ),
        broker_address(url@) matches Some(a) ==> r is Ok && r->Ok_0.0@ == a.0 && r->Ok_0.1
            == a.1,
{
    proof {
        reveal_strlit("mqtt://");
        reveal_strlit("mqtts://");
        reveal_strlit("tcp://");
        assert("mqtt://"@ =~= mqtt_scheme());
        assert("mqtts://"@ =~= mqtts_scheme());
        assert("tcp://"@ =~= tcp_scheme());
    }
    let u = strip_prefix_all(url, "mqtt://");
    let u = strip_prefix_all(u, "mqtts://");
    let u = strip_prefix_all(u, "tcp://");
    let n = u.unicode_len();
    assert(u@ == strip_scheme(url@));
    match find_last_colon(u) {
        Some(i) => {
            let port_text = u.substring_char(i + 1, n);
            assert(port_text@ == u@.subrange(i + 1, u@.len() as int));
            match parse_port_text(port_text) {
                Some(p) => {
                    let host = u.substring_char(0, i).to_owned();
                    assert(host@ == u@.subrange(0, i as int));
                    Ok((host, p))
                },
                None => Err(ParseError::InvalidPort),
            }
        },
        None => Ok((u.to_owned(), DEFAULT_PORT)),
    }
}

} // verus!
