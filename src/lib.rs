//! Wake-on-LAN trigger: magic-packet encoding, dispatch decisions and
//! cookie authentication.
pub mod dispatch;
pub mod net;
pub mod packet;
pub mod request;
pub mod security;
