//! Network addresses: IP literals and MAC addresses parsed from text.
use vstd::prelude::*;

verus! {

/// An IP address held as its octets.
#[derive(Clone, Copy, Debug, PartialEq, Eq)]
pub enum IpAddress {
    V4([u8; 4]),
    V6([u8; 16]),
}

impl IpAddress {
    /// The address octets in network order: 4 for IPv4, 16 for IPv6.
    pub open spec fn octets(self) -> Seq<u8> {
        match self {
            IpAddress::V4(a) => a@,
            IpAddress::V6(a) => a@,
        }
    }
}

/// Octets of the IP literal `s`, or `None` when `s` is not one.
pub uninterp spec fn ip_literal_of(s: Seq<char>) -> Option<Seq<u8>>;

/// Decimal digit character of `n < 10`.
pub open spec fn decimal_digit(n: int) -> char {
    (n + 48) as char
}

/// Shortest decimal text of an octet (no leading zeros).
pub open spec fn decimal_text(n: u8) -> Seq<char> {
    if n < 10 {
        seq![decimal_digit(n as int)]
    } else if n < 100 {
        seq![decimal_digit(n as int / 10), decimal_digit(n as int % 10)]
    } else {
        seq![
            decimal_digit(n as int / 100),
            decimal_digit(n as int / 10 % 10),
            decimal_digit(n as int % 10),
        ]
    }
}

/// Dotted-decimal text of four octets, e.g. `192.168.0.1`.
pub open spec fn dotted_quad(o: Seq<u8>) -> Seq<char> {
    decimal_text(o[0]) + seq!['.'] + decimal_text(o[1]) + seq!['.'] + decimal_text(o[2]) + seq![
        '.',
    ] + decimal_text(o[3])
}

/// `s` is the dotted-decimal text of some four octets.
pub open spec fn is_dotted_quad(s: Seq<char>) -> bool {
    exists|o: Seq<u8>| o.len() == 4 && s == dotted_quad(o)
}

/// Relies on `rustls::pki_types::IpAddr::try_from(&str)`, adapted from core's
/// address parser: IPv4 is tried first, then IPv6; dotted-decimal text
/// without leading zeros is read as the IPv4 address it spells.
#[verifier::external_body]
fn parse_ip_literal(s: &str) -> (r: Option<IpAddress>)
    ensures
        r is None <==> ip_literal_of(s@) is None,
        r matches Some(a) ==> ip_literal_of(s@) == Some(a.octets()),
        is_dotted_quad(s@) ==> r is Some && r->Some_0 is V4 && s@ == dotted_quad(r->Some_0.octets()),
{
    match rustls::pki_types::IpAddr::try_from(s) {
        Ok(rustls::pki_types::IpAddr::V4(a)) => Some(IpAddress::V4(*a.as_ref())),
        Ok(rustls::pki_types::IpAddr::V6(a)) => Some(IpAddress::V6(*a.as_ref())),
        Err(_) => None,
    }
}

/// Parses an IPv4 or IPv6 literal.
pub fn parse_ip_addr(addr: &str) -> (r: Option<IpAddress>)
    ensures
        r is None <==> ip_literal_of(addr@) is None,
        r matches Some(a) ==> ip_literal_of(addr@) == Some(a.octets()),
        is_dotted_quad(addr@) ==> r is Some && r->Some_0 is V4 && addr@ == dotted_quad(r->Some_0.octets()),
{
    parse_ip_literal(addr)
}

/// Value of a hexadecimal digit of either case.
pub open spec fn hex_value(c: char) -> Option<int> {
    let u = c as u32;
    if 48 <= u <= 57 {
        Some(u - 48)
    } else if 97 <= u <= 102 {
        Some(u - 87)
    } else if 65 <= u <= 70 {
        Some(u - 55)
    } else {
        None
    }
}

/// Character `k` of MAC text: a `:` or `-` separator after every two
/// characters, a hex digit elsewhere.
pub open spec fn mac_char_ok(s: Seq<char>, k: int) -> bool {
    if k % 3 == 2 {
        s[k] == ':' || s[k] == '-'
    } else {
        hex_value(s[k]) is Some
    }
}

/// `s` is six two-digit hex octets separated by `:` or `-`,
/// e.g. `A4:93:9F:F4:04:5A`.
pub open spec fn is_mac_text(s: Seq<char>) -> bool {
    &&& s.len() == 17
    &&& forall|k: int| 0 <= k < 17 ==> #[trigger] mac_char_ok(s, k)
}

/// The octets spelled by MAC text of the form `is_mac_text`.
pub open spec fn mac_text_octets(s: Seq<char>) -> Seq<u8> {
    Seq::new(
        6,
        |i: int| (hex_value(s[3 * i])->0 * 16 + hex_value(s[3 * i + 1])->0) as u8,
    )
}

/// Whether `c` is a hex digit of either case.
fn is_hex_char(c: char) -> (r: bool)
    ensures
        r == hex_value(c) is Some,
{
    let u = c as u32;
    (48 <= u && u <= 57) || (97 <= u && u <= 102) || (65 <= u && u <= 70)
}

/// Whether `s` has the shape of MAC text (`is_mac_text`).
pub fn is_mac_shape(s: &str) -> (r: bool)
    ensures
        r == is_mac_text(s@),
{
    let n = s.unicode_len();
    if n != 17 {
        return false;
    }
    let mut ok = true;
    let mut k: usize = 0;
    for c in it: s.chars()
        invariant
            k == it.index(),
            it.seq() == s@,
            n == s@.len() == 17,
            ok <==> forall|j: int| 0 <= j < k ==> #[trigger] mac_char_ok(s@, j),
    {
        let good = if k % 3 == 2 {
            c == ':' || c == '-'
        } else {
            is_hex_char(c)
        };
        proof {
            assert(good == mac_char_ok(s@, k as int));
            if ok && good {
                assert forall|j: int| 0 <= j < k + 1 implies #[trigger] mac_char_ok(s@, j) by {
                    if j < k {
                        assert(mac_char_ok(s@, j));
                    }
                }
            }
        }
        ok = ok && good;
        k = k + 1;
    }
    ok
}

/// Relies on `mac_address::MacAddress::from_str`: six `:`/`-` separated
/// two-digit hex octets (17 ASCII bytes, split on the separators, each piece
/// read by `u8::from_str_radix(_, 16)`) are read as those octets.
#[verifier::external_body]
fn parse_mac(s: &str) -> (r: Option<[u8; 6]>)
    ensures
        is_mac_text(s@) ==> r is Some && r->Some_0@ == mac_text_octets(s@),
{
    s.parse::<mac_address::MacAddress>().ok().map(|m| m.bytes())
}

/// Parses a MAC address written as six two-digit hex octets separated by
/// `:` or `-`; any other text is rejected.
pub fn parse_mac_address(s: &str) -> (r: Option<[u8; 6]>)
    ensures
        r is Some <==> is_mac_text(s@),
        r matches Some(b) ==> b@ == mac_text_octets(s@),
{
    if !is_mac_shape(s) {
        return None;
    }
    parse_mac(s)
}

} // verus!
