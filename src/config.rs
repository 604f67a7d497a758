//! The server's configuration: bind address, port, region, and the optional
//! namespace filter. Reading the configuration file and the environment is
//! the caller's part; this module holds the defaults, the rule by which
//! environment values override the file, and the parsing of the bind address.

use vstd::prelude::*;
use vstd::string::*;
use crate::text::opt_text;

verus! {

/// Whether `c` is an ASCII decimal digit.
pub open spec fn is_digit(c: char) -> bool {
    '0' <= c && c <= '9'
}

/// Whether every character of `s` is a decimal digit.
pub open spec fn all_digits(s: Seq<char>) -> bool {
    forall|i: int| 0 <= i < s.len() ==> is_digit(#[trigger] s[i])
}

/// The value of a digit.
pub open spec fn digit_value(c: char) -> nat {
    ((c as u32) - ('0' as u32)) as nat
}

/// The number that a string of decimal digits writes.
pub open spec fn digits_value(s: Seq<char>) -> nat
    decreases s.len(),
{
    if s.len() == 0 {
        0
    } else {
        digits_value(s.drop_last()) * 10 + digit_value(s.last())
    }
}

/// The digits of an unsigned number's text: a leading `+` is dropped.
pub open spec fn unsigned_digits(s: Seq<char>) -> Seq<char> {
    if s.len() > 0 && s[0] == '+' {
        s.drop_first()
    } else {
        s
    }
}

/// The value of an unsigned decimal no larger than `max`: an optional `+`
/// followed by at least one digit, leading zeros allowed.
pub open spec fn parse_unsigned(s: Seq<char>, max: nat) -> Option<nat> {
    let d = unsigned_digits(s);
    if d.len() > 0 && all_digits(d) && digits_value(d) <= max {
        Some(digits_value(d))
    } else {
        None
    }
}

/// The pieces of `s` between its dots, in order; no dot gives one piece.
pub open spec fn split_dots(s: Seq<char>) -> Seq<Seq<char>>
    decreases s.len(),
{
    if s.len() == 0 {
        seq![Seq::empty()]
    } else {
        let r = split_dots(s.drop_last());
        if s.last() == '.' {
            r.push(Seq::empty())
        } else {
            r.update(r.len() - 1, r.last().push(s.last()))
        }
    }
}

/// The character of a digit's value.
pub open spec fn digit_char(d: nat) -> char {
    ((d + ('0' as u32)) as u32) as char
}

/// The decimal text of `n`, without leading zeros.
pub open spec fn decimal(n: nat) -> Seq<char>
    decreases n,
{
    if n < 10 {
        seq![digit_char(n)]
    } else {
        decimal(n / 10).push(digit_char(n % 10))
    }
}

/// The message for a bind address that has not four dotted parts.
pub open spec fn format_error(count: nat) -> Seq<char> {
    "Invalid IP format: expected 4 parts, got "@ + decimal(count)
}

/// The message for a part of a bind address that is no octet.
pub open spec fn part_error(part: Seq<char>) -> Seq<char> {
    "Invalid IP part: '"@ + part + "' is not a valid number"@
}

/// The octets that the parts give, or the message for the first that is none.
pub open spec fn octets_of(parts: Seq<Seq<char>>) -> Result<Seq<u8>, Seq<char>>
    decreases parts.len(),
{
    if parts.len() == 0 {
        Ok(Seq::empty())
    } else {
        match parse_unsigned(parts[0], 255) {
            None => Err(part_error(parts[0])),
            Some(v) => match octets_of(parts.drop_first()) {
                Ok(rest) => Ok(seq![v as u8] + rest),
                Err(e) => Err(e),
            },
        }
    }
}

/// The four octets of a dotted IPv4 bind address, or the message that says
/// why it is none.
pub open spec fn host_octets(host: Seq<char>) -> Result<Seq<u8>, Seq<char>> {
    let parts = split_dots(host);
    if parts.len() != 4 {
        Err(format_error(parts.len()))
    } else {
        octets_of(parts)
    }
}

proof fn lemma_split_nonempty(s: Seq<char>)
    ensures
        split_dots(s).len() >= 1,
    decreases s.len(),
{
    if s.len() > 0 {
        lemma_split_nonempty(s.drop_last());
    }
}

/// Reads an unsigned decimal no larger than `max`.
pub fn parse_decimal(s: &str, max: u32) -> (r: Option<u32>)
    ensures
        match r {
            Some(v) => parse_unsigned(s@, max as nat) == Some(v as nat),
            None => parse_unsigned(s@, max as nat) is None,
        },
{
    let n = s.unicode_len();
    let mut start: usize = 0;
    if n > 0 && s.get_char(0) == '+' {
        start = 1;
    }
    let ghost d = unsigned_digits(s@);
    assert(d =~= s@.subrange(start as int, n as int));
    if start >= n {
        return None;
    }
    let cap: u64 = max as u64 + 1;
    let mut val: u64 = 0;
    let mut i: usize = start;
    while i < n
        invariant
            start <= i <= n,
            n == s@.len(),
            d == s@.subrange(start as int, n as int),
            d == unsigned_digits(s@),
            cap == max + 1,
            all_digits(d.take(i - start)),
            val <= cap,
            val < cap ==> val == digits_value(d.take(i - start)),
            val == cap ==> digits_value(d.take(i - start)) >= cap,
        decreases n - i,
    {
        let c = s.get_char(i);
        if !('0' <= c && c <= '9') {
            assert(d[i - start] == c);
            assert(!all_digits(d));
            return None;
        }
        let ghost k = i - start;
        assert(d.take(k + 1).drop_last() =~= d.take(k));
        assert(d.take(k + 1).last() == c);
        assert(all_digits(d.take(k + 1))) by {
            assert forall|j: int| 0 <= j < d.take(k + 1).len() implies is_digit(
                #[trigger] d.take(k + 1)[j],
            ) by {
                if j < k {
                    assert(d.take(k + 1)[j] == d.take(k)[j]);
                }
            }
        }
        let dv: u64 = (c as u32 - '0' as u32) as u64;
        assert(dv == digit_value(c));
        let ghost before = digits_value(d.take(k));
        assert(digits_value(d.take(k + 1)) == before * 10 + dv);
        if val < cap {
            let next = val * 10 + dv;
            if next >= cap {
                val = cap;
            } else {
                val = next;
            }
        } else {
            assert(before * 10 + dv >= cap) by (nonlinear_arith)
                requires
                    before >= cap,
                    dv >= 0,
            ;
        }
        i += 1;
    }
    assert(d.take(n - start) =~= d);
    if val < cap {
        Some(val as u32)
    } else {
        None
    }
}

/// One character of a digit's value, as text.
fn digit_text(v: usize) -> (r: &'static str)
    requires
        v < 10,
    ensures
        r@ == seq![digit_char(v as nat)],
{
    proof {
        reveal_strlit("0");
        reveal_strlit("1");
        reveal_strlit("2");
        reveal_strlit("3");
        reveal_strlit("4");
        reveal_strlit("5");
        reveal_strlit("6");
        reveal_strlit("7");
        reveal_strlit("8");
        reveal_strlit("9");
    }
    let r = if v == 0 {
        "0"
    } else if v == 1 {
        "1"
    } else if v == 2 {
        "2"
    } else if v == 3 {
        "3"
    } else if v == 4 {
        "4"
    } else if v == 5 {
        "5"
    } else if v == 6 {
        "6"
    } else if v == 7 {
        "7"
    } else if v == 8 {
        "8"
    } else {
        "9"
    };
    assert(r@ =~= seq![digit_char(v as nat)]);
    r
}

/// Appends the decimal text of `n`.
fn append_decimal(out: &mut String, n: usize)
    ensures
        final(out)@ == old(out)@ + decimal(n as nat),
    decreases n,
{
    if n >= 10 {
        append_decimal(out, n / 10);
    }
    out.append(digit_text(n % 10));
    proof {
        if n >= 10 {
            assert(decimal(n as nat) == decimal((n / 10) as nat).push(digit_char((n % 10) as nat)));
        }
    }
    assert(final(out)@ =~= old(out)@ + decimal(n as nat));
}

/// The characters of each piece of a list of string slices.
pub open spec fn pieces_view(v: Seq<&str>) -> Seq<Seq<char>> {
    v.map_values(|p: &str| p@)
}

/// Splits `s` at every dot, as `str::split('.')` does.
pub fn split_on_dots(s: &str) -> (r: Vec<&str>)
    ensures
        pieces_view(r@) == split_dots(s@),
{
    let n = s.unicode_len();
    let mut parts: Vec<&str> = Vec::new();
    let mut start: usize = 0;
    let mut i: usize = 0;
    assert(s@.take(0) =~= Seq::<char>::empty());
    assert(pieces_view(parts@).push(s@.subrange(0, 0)) =~= seq![Seq::<char>::empty()]);
    while i < n
        invariant
            n == s@.len(),
            start <= i <= n,
            split_dots(s@.take(i as int)) == pieces_view(parts@).push(
                s@.subrange(start as int, i as int),
            ),
        decreases n - i,
    {
        let c = s.get_char(i);
        let ghost before = split_dots(s@.take(i as int));
        assert(s@.take(i + 1).drop_last() =~= s@.take(i as int));
        assert(s@.take(i + 1).last() == c);
        if c == '.' {
            let piece = s.substring_char(start, i);
            assert(pieces_view(parts@.push(piece)) =~= pieces_view(parts@).push(piece@));
            parts.push(piece);
            start = i + 1;
            assert(before == pieces_view(parts@));
            assert(split_dots(s@.take(i + 1)) == before.push(Seq::<char>::empty()));
            assert(s@.subrange(start as int, i + 1) =~= Seq::<char>::empty());
            assert(split_dots(s@.take(i + 1)) =~= pieces_view(parts@).push(
                s@.subrange(start as int, i + 1),
            ));
        } else {
            assert(s@.subrange(start as int, i + 1) =~= s@.subrange(start as int, i as int).push(c));
            assert(split_dots(s@.take(i + 1)) =~= pieces_view(parts@).push(
                s@.subrange(start as int, i + 1),
            ));
        }
        i += 1;
    }
    let last = s.substring_char(start, n);
    assert(s@.take(n as int) =~= s@);
    assert(pieces_view(parts@.push(last)) =~= pieces_view(parts@).push(last@));
    parts.push(last);
    parts
}

/// The server's configuration.
#[derive(Debug, Clone)]
pub struct Config {
    /// Bind address, a dotted IPv4 address.
    pub host: String,
    pub port: u16,
    pub aws_region: Option<String>,
    /// The one namespace to discover; all of them where absent.
    pub cloudmap_namespace: Option<String>,
}

impl Default for Config {
    fn default() -> (r: Self)
        ensures
            r.host@ == "0.0.0.0"@,
            r.port == 3030,
            r.aws_region is None,
            r.cloudmap_namespace is None,
    {
        Config {
            host: String::from_str("0.0.0.0"),
            port: 3030,
            aws_region: None,
            cloudmap_namespace: None,
        }
    }
}

/// A value from the environment where there is one, else the current one.
pub open spec fn overridden(env: Option<String>, current: Seq<char>) -> Seq<char> {
    match env {
        Some(v) => v@,
        None => current,
    }
}

/// The port after the environment's `PORT`: its value where it reads as a
/// port number, else the current port.
pub open spec fn overridden_port(env: Option<String>, current: u16) -> u16 {
    match env {
        Some(v) => match parse_unsigned(v@, 65535) {
            Some(p) => p as u16,
            None => current,
        },
        None => current,
    }
}

impl Config {
    /// Applies the environment's values over this configuration: `HOST`,
    /// `PORT`, `AWS_REGION` and `CLOUDMAP_NAMESPACE`, each where it is set.
    /// A `PORT` that is no port number leaves the port as it is.
    pub fn with_environment(
        self,
        host: Option<String>,
        port: Option<String>,
        region: Option<String>,
        namespace: Option<String>,
    ) -> (r: Config)
        ensures
            r.host@ == overridden(host, self.host@),
            r.port == overridden_port(port, self.port),
            opt_text(r.aws_region) == match region {
                Some(v) => Some(v@),
                None => opt_text(self.aws_region),
            },
            opt_text(r.cloudmap_namespace) == match namespace {
                Some(v) => Some(v@),
                None => opt_text(self.cloudmap_namespace),
            },
    {
        let mut config = self;
        if let Some(h) = host {
            config.host = h;
        }
        if let Some(p) = port {
            if let Some(v) = parse_decimal(p.as_str(), 65535) {
                config.port = v as u16;
            }
        }
        if let Some(r) = region {
            config.aws_region = Some(r);
        }
        if let Some(ns) = namespace {
            config.cloudmap_namespace = Some(ns);
        }
        config
    }

    /// The four octets of the bind address, or a message that says why it is
    /// no dotted IPv4 address.
    pub fn parse_host(&self) -> (r: Result<[u8; 4], String>)
        ensures
            match r {
                Ok(a) => host_octets(self.host@) == Ok::<Seq<u8>, Seq<char>>(a@),
                Err(e) => host_octets(self.host@) == Err::<Seq<u8>, Seq<char>>(e@),
            },
    {
        let parts = split_on_dots(self.host.as_str());
        let ghost ps = pieces_view(parts@);
        if parts.len() != 4 {
            let mut msg = String::from_str("Invalid IP format: expected 4 parts, got ");
            append_decimal(&mut msg, parts.len());
            return Err(msg);
        }
        let mut octets: Vec<u8> = Vec::new();
        let mut i: usize = 0;
        assert(ps.subrange(0, 4) =~= ps);
        while i < 4
            invariant
                parts@.len() == 4,
                ps == pieces_view(parts@),
                ps == split_dots(self.host@),
                i <= 4,
                octets@.len() == i,
                octets_of(ps) == match octets_of(ps.subrange(i as int, 4)) {
                    Ok(rest) => Ok(octets@ + rest),
                    Err(e) => Err::<Seq<u8>, Seq<char>>(e),
                },
            decreases 4 - i,
        {
            let part = parts[i];
            assert(ps.subrange(i as int, 4)[0] == part@);
            assert(ps.subrange(i as int, 4).drop_first() =~= ps.subrange(i + 1, 4));
            match parse_decimal(part, 255) {
                None => {
                    let mut msg = String::from_str("Invalid IP part: '");
                    msg.append(part);
                    msg.append("' is not a valid number");
                    return Err(msg);
                },
                Some(v) => {
                    let ghost old_octets = octets@;
                    octets.push(v as u8);
                    proof {
                        match octets_of(ps.subrange(i + 1, 4)) {
                            Ok(rest) => {
                                assert(octets@ + rest =~= old_octets + (seq![v as u8] + rest));
                            },
                            Err(e) => {},
                        }
                    }
                },
            }
            i += 1;
        }
        assert(ps.subrange(4, 4) =~= Seq::<Seq<char>>::empty());
        assert(octets@ + Seq::<u8>::empty() =~= octets@);
        let r = [octets[0], octets[1], octets[2], octets[3]];
        assert(r@ =~= octets@);
        Ok(r)
    }
}

} // verus!
