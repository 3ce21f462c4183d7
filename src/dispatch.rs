//! Dispatching a wake request: validation, then the socket steps (bind,
//! enable broadcast, send) as a state machine whose I/O the caller performs.
use vstd::prelude::*;
use crate::net::{ip_literal_of, is_mac_text, mac_text_octets, IpAddress};
use crate::packet::{create_magic_packet, magic_packet_of};
use crate::request::{bind_text, broadcast_text, AddrField, WolError, WolRequest, DEFAULT_BIND_ADDR};

verus! {

/// Local port the sending socket binds to: any free port.
pub const BIND_PORT: u16 = 0;

/// Destination port of the magic packet (the discard port).
pub const WOL_PORT: u16 = 9;

/// The next socket step of a dispatch.
#[derive(Clone, Copy, Debug, PartialEq, Eq, Structural)]
pub enum WolStage {
    Bind,
    EnableBroadcast,
    Send,
    Done,
}

/// What the caller must do next.
#[derive(Debug)]
pub enum WolAction {
    /// Open a UDP socket bound to `(addr, port)`.
    Bind { addr: IpAddress, port: u16 },
    /// Enable broadcast on the socket.
    EnableBroadcast,
    /// Send `packet` from the socket to `(addr, port)`.
    SendTo { packet: Vec<u8>, addr: IpAddress, port: u16 },
}

/// How the last action went.
#[derive(Debug)]
pub enum IoOutcome {
    Done,
    Failed { cause: String },
}

/// A dispatch in progress, from a validated request.
pub struct WolSession {
    pub stage: WolStage,
    /// The bind address as the request gave it (or the default).
    pub bind_input: String,
    pub bind_addr: IpAddress,
    pub broadcast_addr: IpAddress,
    pub packet: Vec<u8>,
}

/// The error for a failed step at `stage`.
pub open spec fn step_failure(stage: WolStage, bind_input: String, cause: String) -> WolError {
    match stage {
        WolStage::Bind => WolError::BindFailed { addr: bind_input, cause },
        WolStage::EnableBroadcast => WolError::BroadcastUnsupported { cause },
        _ => WolError::SendFailed { cause },
    }
}

/// The MAC address of `req` is six two-digit hex octets separated by `:`
/// or `-`.
pub open spec fn mac_ok(req: WolRequest) -> bool {
    is_mac_text(req.mac_address@)
}

/// The bind address of `req` (or its default) parses.
pub open spec fn bind_ok(req: WolRequest) -> bool {
    ip_literal_of(bind_text(req)) is Some
}

/// The broadcast address of `req` (or its default) parses.
pub open spec fn broadcast_ok(req: WolRequest) -> bool {
    ip_literal_of(broadcast_text(req)) is Some
}

impl WolSession {
    /// Validates `data` (MAC address, then bind address, then broadcast
    /// address) and encodes the packet; no socket is involved yet.
    pub fn start(data: &WolRequest) -> (r: Result<WolSession, WolError>)
        ensures
            !mac_ok(*data) ==> r == Err::<WolSession, WolError>(
                WolError::InvalidMac { input: data.mac_address },
            ),
            mac_ok(*data) && !bind_ok(*data) ==> (r matches Err(
                WolError::InvalidAddress { field, input },
            ) && field == AddrField::Bind && input@ == bind_text(*data)),
            mac_ok(*data) && bind_ok(*data) && !broadcast_ok(*data) ==> (r matches Err(
                WolError::InvalidAddress { field, input },
            ) && field == AddrField::Broadcast && input@ == broadcast_text(*data)),
            r is Ok <==> mac_ok(*data) && bind_ok(*data) && broadcast_ok(*data),
            r matches Ok(s) ==> {
                &&& s.stage == WolStage::Bind
                &&& s.bind_input@ == bind_text(*data)
                &&& ip_literal_of(bind_text(*data)) == Some(s.bind_addr.octets())
                &&& ip_literal_of(broadcast_text(*data)) == Some(s.broadcast_addr.octets())
                &&& s.packet@ == magic_packet_of(mac_text_octets(data.mac_address@))
            },
            data.bind_addr is None ==> bind_ok(*data),
            data.broadcast_addr is None ==> broadcast_ok(*data),
            r matches Ok(s) ==> (data.bind_addr is None ==> s.bind_addr is V4
                && s.bind_addr.octets() == seq![0u8, 0, 0, 0]),
            r matches Ok(s) ==> (data.broadcast_addr is None ==> s.broadcast_addr is V4
                && s.broadcast_addr.octets() == seq![255u8, 255, 255, 255]),
    {
        // All three are read before any is judged, so that what is known of
        // the default addresses holds on every path.
        let mac = data.get_mac_address();
        let bind_addr = data.get_bind_addr();
        let broadcast_addr = data.get_broadcast_addr();
        let mac = match mac {
            Ok(m) => m,
            Err(e) => return Err(e),
        };
        let bind_addr = match bind_addr {
            Ok(a) => a,
            Err(e) => return Err(e),
        };
        let broadcast_addr = match broadcast_addr {
            Ok(a) => a,
            Err(e) => return Err(e),
        };
        let bind_input = match &data.bind_addr {
            Some(text) => text.clone(),
            None => DEFAULT_BIND_ADDR.to_owned(),
        };
        Ok(
            WolSession {
                stage: WolStage::Bind,
                bind_input,
                bind_addr,
                broadcast_addr,
                packet: create_magic_packet(&mac),
            },
        )
    }

    /// The step the caller performs next.
    pub fn action(&self) -> (r: WolAction)
        requires
            self.stage != WolStage::Done,
        ensures
            self.stage == WolStage::Bind ==> r == (WolAction::Bind {
                addr: self.bind_addr,
                port: BIND_PORT,
            }),
            self.stage == WolStage::EnableBroadcast ==> r == WolAction::EnableBroadcast,
            self.stage == WolStage::Send ==> (r matches WolAction::SendTo { packet, addr, port }
                && packet@ == self.packet@ && addr == self.broadcast_addr && port == WOL_PORT),
    {
        match self.stage {
            WolStage::Bind => WolAction::Bind { addr: self.bind_addr, port: BIND_PORT },
            WolStage::EnableBroadcast => WolAction::EnableBroadcast,
            _ => WolAction::SendTo {
                packet: self.packet.clone(),
                addr: self.broadcast_addr,
                port: WOL_PORT,
            },
        }
    }

    /// Records how the current step went. Returns the dispatch's result once
    /// it is over: after a failed step, or after the packet was sent.
    pub fn advance(&mut self, outcome: IoOutcome) -> (r: Option<Result<(), WolError>>)
        requires
            old(self).stage != WolStage::Done,
        ensures
            final(self).bind_input == old(self).bind_input,
            final(self).bind_addr == old(self).bind_addr,
            final(self).broadcast_addr == old(self).broadcast_addr,
            final(self).packet@ == old(self).packet@,
            outcome is Done && old(self).stage == WolStage::Bind ==> final(self).stage
                == WolStage::EnableBroadcast && r is None,
            outcome is Done && old(self).stage == WolStage::EnableBroadcast ==> final(self).stage
                == WolStage::Send && r is None,
            outcome is Done && old(self).stage == WolStage::Send ==> final(self).stage
                == WolStage::Done && r == Some(Ok::<(), WolError>(())),
            outcome matches IoOutcome::Failed { cause } ==> final(self).stage == WolStage::Done
                && r == Some(Err::<(), WolError>(step_failure(old(self).stage, old(self).bind_input, cause))),
    {
        match outcome {
            IoOutcome::Done => match self.stage {
                WolStage::Bind => {
                    self.stage = WolStage::EnableBroadcast;
                    None
                },
                WolStage::EnableBroadcast => {
                    self.stage = WolStage::Send;
                    None
                },
                _ => {
                    self.stage = WolStage::Done;
                    Some(Ok(()))
                },
            },
            IoOutcome::Failed { cause } => {
                let err = match self.stage {
                    WolStage::Bind => WolError::BindFailed { addr: self.bind_input.clone(), cause },
                    WolStage::EnableBroadcast => WolError::BroadcastUnsupported { cause },
                    _ => WolError::SendFailed { cause },
                };
                self.stage = WolStage::Done;
                Some(Err(err))
            },
        }
    }
}

} // verus!
