//! A wake request and the errors that dispatching it can meet.
use vstd::prelude::*;
use crate::net::{
    decimal_text, dotted_quad, ip_literal_of, is_dotted_quad, is_mac_text, mac_text_octets,
    parse_ip_addr, parse_mac_address, IpAddress,
};

verus! {

/// Local address the sending socket binds to when none is requested.
pub const DEFAULT_BIND_ADDR: &'static str = "0.0.0.0";

/// Destination address when none is requested.
pub const DEFAULT_BROADCAST_ADDR: &'static str = "255.255.255.255";

/// A request to wake the host with `mac_address`, optionally naming the local
/// bind address and the broadcast destination.
pub struct WolRequest {
    pub mac_address: String,
    pub bind_addr: Option<String>,
    pub broadcast_addr: Option<String>,
}

/// Which address of a request failed to parse.
#[derive(Clone, Copy, Debug, PartialEq, Eq, Structural)]
pub enum AddrField {
    Bind,
    Broadcast,
}

/// Why a wake request was not sent.
#[derive(Debug)]
pub enum WolError {
    /// The MAC address text does not parse.
    InvalidMac { input: String },
    /// The bind or broadcast address text does not parse.
    InvalidAddress { field: AddrField, input: String },
    /// The socket could not be bound to `addr`.
    BindFailed { addr: String, cause: String },
    /// Broadcast could not be enabled on the socket.
    BroadcastUnsupported { cause: String },
    /// The packet was not accepted for sending.
    SendFailed { cause: String },
}

/// Rust's debug rendering of a text: quoted, with special characters escaped.
pub uninterp spec fn debug_text_of(s: Seq<char>) -> Seq<char>;

/// Relies on `<str as Debug>::fmt`: the rendering depends on the characters
/// alone.
#[verifier::external_body]
fn debug_text(s: &str) -> (r: String)
    ensures
        r@ == debug_text_of(s@),
{
    format!("{:?}", s)
}

/// The message that describes an error.
pub open spec fn error_message(e: WolError) -> Seq<char> {
    match e {
        WolError::InvalidMac { input } => "Failed to get MAC address: "@ + input@,
        WolError::InvalidAddress { field, input } => match field {
            AddrField::Bind => "Failed to get bind address for: "@ + debug_text_of(input@),
            AddrField::Broadcast => "Failed to get broadcast address for: "@ + debug_text_of(
                input@,
            ),
        },
        WolError::BindFailed { addr, cause } => "Failed to bind UDP socket to: "@ + debug_text_of(
            addr@,
        ),
        WolError::BroadcastUnsupported { cause } => "Failed to set socket to broadcast mode"@,
        WolError::SendFailed { cause } => "Failed to send magic packet: "@ + cause@,
    }
}

/// `prefix` followed by `rest`.
fn joined(prefix: &str, rest: &str) -> (r: String)
    ensures
        r@ == prefix@ + rest@,
{
    let mut m = prefix.to_owned();
    m.append(rest);
    m
}

impl WolError {
    /// The message that describes this error.
    pub fn message(&self) -> (r: String)
        ensures
            r@ == error_message(*self),
    {
        match self {
            WolError::InvalidMac { input } => joined("Failed to get MAC address: ", input.as_str()),
            WolError::InvalidAddress { field, input } => match field {
                AddrField::Bind => joined(
                    "Failed to get bind address for: ",
                    debug_text(input.as_str()).as_str(),
                ),
                AddrField::Broadcast => joined(
                    "Failed to get broadcast address for: ",
                    debug_text(input.as_str()).as_str(),
                ),
            },
            WolError::BindFailed { addr, cause: _ } => joined(
                "Failed to bind UDP socket to: ",
                debug_text(addr.as_str()).as_str(),
            ),
            WolError::BroadcastUnsupported { cause: _ } => "Failed to set socket to broadcast mode".to_owned(),
            WolError::SendFailed { cause } => joined("Failed to send magic packet: ", cause.as_str()),
        }
    }
}

/// The text of the bind address the request asks for, or the default.
pub open spec fn bind_text(req: WolRequest) -> Seq<char> {
    match req.bind_addr {
        Some(a) => a@,
        None => "0.0.0.0"@,
    }
}

/// The text of the broadcast address the request asks for, or the default.
pub open spec fn broadcast_text(req: WolRequest) -> Seq<char> {
    match req.broadcast_addr {
        Some(a) => a@,
        None => "255.255.255.255"@,
    }
}

proof fn lemma_dotted_quad_len(o: Seq<u8>)
    requires
        o.len() == 4,
    ensures
        dotted_quad(o).len() == 3 + decimal_text(o[0]).len()
            + decimal_text(o[1]).len() + decimal_text(o[2]).len()
            + decimal_text(o[3]).len(),
{
}

/// The default bind address text is the IPv4 address 0.0.0.0.
pub proof fn lemma_default_bind_addr()
    ensures
        is_dotted_quad("0.0.0.0"@),
        forall|o: Seq<u8>|
            o.len() == 4 && #[trigger] dotted_quad(o) == "0.0.0.0"@ ==> o == seq![0u8, 0, 0, 0],
{
    reveal_strlit("0.0.0.0");
    assert("0.0.0.0"@ =~= dotted_quad(seq![0u8, 0, 0, 0]));
    assert forall|o: Seq<u8>|
        o.len() == 4 && #[trigger] dotted_quad(o) == "0.0.0.0"@ implies o == seq![0u8, 0, 0, 0] by {
        lemma_dotted_quad_len(o);
        let d = dotted_quad(o);
        assert(d[0] == "0.0.0.0"@[0]);
        assert(d[2] == "0.0.0.0"@[2]);
        assert(d[4] == "0.0.0.0"@[4]);
        assert(d[6] == "0.0.0.0"@[6]);
        assert(o =~= seq![0u8, 0, 0, 0]);
    }
}

/// The default broadcast address text is the IPv4 address 255.255.255.255.
pub proof fn lemma_default_broadcast_addr()
    ensures
        is_dotted_quad("255.255.255.255"@),
        forall|o: Seq<u8>|
            o.len() == 4 && #[trigger] dotted_quad(o) == "255.255.255.255"@ ==> o == seq![
                255u8,
                255,
                255,
                255,
            ],
{
    reveal_strlit("255.255.255.255");
    assert("255.255.255.255"@ =~= dotted_quad(seq![255u8, 255, 255, 255]));
    assert forall|o: Seq<u8>|
        o.len() == 4 && #[trigger] dotted_quad(o) == "255.255.255.255"@ implies o == seq![
            255u8,
            255,
            255,
            255,
        ] by {
        lemma_dotted_quad_len(o);
        let d = dotted_quad(o);
        let t = "255.255.255.255"@;
        assert(d[0] == t[0] && d[1] == t[1] && d[2] == t[2]);
        assert(d[4] == t[4] && d[5] == t[5] && d[6] == t[6]);
        assert(d[8] == t[8] && d[9] == t[9] && d[10] == t[10]);
        assert(d[12] == t[12] && d[13] == t[13] && d[14] == t[14]);
        assert(o =~= seq![255u8, 255, 255, 255]);
    }
}

impl WolRequest {
    pub fn new(
        mac_address: &String,
        bind_addr: &Option<String>,
        broadcast_addr: &Option<String>,
    ) -> (r: Self)
        ensures
            r.mac_address == *mac_address,
            r.bind_addr == *bind_addr,
            r.broadcast_addr == *broadcast_addr,
    {
        WolRequest {
            mac_address: mac_address.clone(),
            bind_addr: match bind_addr {
                Some(a) => Some(a.clone()),
                None => None,
            },
            broadcast_addr: match broadcast_addr {
                Some(a) => Some(a.clone()),
                None => None,
            },
        }
    }

    /// The requested MAC address (six two-digit hex octets separated by `:`
    /// or `-`), or `InvalidMac` naming the text.
    pub fn get_mac_address(&self) -> (r: Result<[u8; 6], WolError>)
        ensures
            r is Ok <==> is_mac_text(self.mac_address@),
            r matches Ok(b) ==> b@ == mac_text_octets(self.mac_address@),
            r matches Err(e) ==> e == (WolError::InvalidMac { input: self.mac_address }),
    {
        match parse_mac_address(self.mac_address.as_str()) {
            Some(b) => Ok(b),
            None => Err(WolError::InvalidMac { input: self.mac_address.clone() }),
        }
    }

    /// The bind address (default 0.0.0.0), or `InvalidAddress` naming the
    /// bind field and its text.
    pub fn get_bind_addr(&self) -> (r: Result<IpAddress, WolError>)
        ensures
            r is Ok <==> ip_literal_of(bind_text(*self)) is Some,
            r matches Ok(a) ==> ip_literal_of(bind_text(*self)) == Some(a.octets()),
            r matches Err(e) ==> (e matches WolError::InvalidAddress { field, input } && field
                == AddrField::Bind && input@ == bind_text(*self)),
            self.bind_addr is None ==> (r matches Ok(a) && a is V4 && a.octets() == seq![0u8, 0, 0, 0]),
    {
        match &self.bind_addr {
            Some(text) => match parse_ip_addr(text.as_str()) {
                Some(a) => Ok(a),
                None => Err(WolError::InvalidAddress { field: AddrField::Bind, input: text.clone() }),
            },
            None => {
                proof {
                    lemma_default_bind_addr();
                }
                match parse_ip_addr(DEFAULT_BIND_ADDR) {
                    Some(a) => {
                        proof {
                            assert(a.octets() == seq![0u8, 0, 0, 0]);
                        }
                        Ok(a)
                    },
                    None => Err(
                        WolError::InvalidAddress {
                            field: AddrField::Bind,
                            input: DEFAULT_BIND_ADDR.to_owned(),
                        },
                    ),
                }
            },
        }
    }

    /// The broadcast address (default 255.255.255.255), or `InvalidAddress`
    /// naming the broadcast field and its text.
    pub fn get_broadcast_addr(&self) -> (r: Result<IpAddress, WolError>)
        ensures
            r is Ok <==> ip_literal_of(broadcast_text(*self)) is Some,
            r matches Ok(a) ==> ip_literal_of(broadcast_text(*self)) == Some(a.octets()),
            r matches Err(e) ==> (e matches WolError::InvalidAddress { field, input } && field
                == AddrField::Broadcast && input@ == broadcast_text(*self)),
            self.broadcast_addr is None ==> (r matches Ok(a) && a is V4 && a.octets() == seq![
                255u8,
                255,
                255,
                255,
            ]),
    {
        match &self.broadcast_addr {
            Some(text) => match parse_ip_addr(text.as_str()) {
                Some(a) => Ok(a),
                None => Err(
                    WolError::InvalidAddress { field: AddrField::Broadcast, input: text.clone() },
                ),
            },
            None => {
                proof {
                    lemma_default_broadcast_addr();
                }
                match parse_ip_addr(DEFAULT_BROADCAST_ADDR) {
                    Some(a) => {
                        proof {
                            assert(a.octets() == seq![255u8, 255, 255, 255]);
                        }
                        Ok(a)
                    },
                    None => Err(
                        WolError::InvalidAddress {
                            field: AddrField::Broadcast,
                            input: DEFAULT_BROADCAST_ADDR.to_owned(),
                        },
                    ),
                }
            },
        }
    }
}

} // verus!
