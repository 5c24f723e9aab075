//! ALMA ST2150 on-board-computer protocol: ASCII field codec, checksum-framed
//! message envelope, typed context store and message catalog for the
//! request/response exchanges ("vacations") of the protocol.

pub mod ascii;
pub mod context;
pub mod field;
pub mod frame;
pub mod helper_messages60_79;
pub mod message00;
pub mod message10;
pub mod message11;
pub mod message20;
pub mod message21;
pub mod message22;
pub mod message30;
pub mod message31;
pub mod message32;
pub mod message33;
pub mod message34;
pub mod message35;
pub mod message36;
pub mod message37;
pub mod message40;
pub mod message66;
pub mod message70;
pub mod messages;
pub mod protocol;
pub mod requete;
pub mod serial_com;
pub mod st2150;
