//! Byte-level helpers of the ST2150 protocol: frame delimiters, the XOR
//! checksum and the hexadecimal character tables.
//!
//! A frame is `STX + number(2) + { SEPARATOR + field }* + SEPARATOR +
//! checksum(2) + ETX`; the checksum covers everything between the STX and its
//! own two digits, separators included.

use vstd::prelude::*;

verus! {

/// First byte of every frame
pub const STX: u8 = 0x02;

/// Field separator inside a frame
pub const SEPARATOR: u8 = 0xFE;

/// Last byte of every frame
pub const ETX: u8 = 0x03;

/// Acknowledge sentinel
pub const ACK: u8 = 0x06;

/// Refusal sentinel
pub const NACK: u8 = 0x15;

/// XOR of a byte sequence, folded from the left.
pub open spec fn xor_fold(data: Seq<u8>) -> u8
    decreases data.len(),
{
    if data.len() == 0 {
        0u8
    } else {
        xor_fold(data.drop_last()) ^ data.last()
    }
}

/// True for the bytes `'0'..='9'`, `'A'..='F'` and `'a'..='f'`.
pub open spec fn spec_is_car_hexa(car: u8) -> bool {
    (48 <= car <= 57) || (65 <= car <= 70) || (97 <= car <= 102)
}

/// Numeric value of a hexadecimal character, 0 for anything else.
pub open spec fn spec_car_hexa_to_value(car: u8) -> u8 {
    if 48 <= car <= 57 {
        (car - 48) as u8
    } else if 65 <= car <= 70 {
        ((car - 65 + 10)) as u8
    } else if 97 <= car <= 102 {
        ((car - 97 + 10)) as u8
    } else {
        0u8
    }
}

/// Is this byte a hexadecimal digit?
pub fn is_car_hexa(car: u8) -> (r: bool)
    ensures
        r == spec_is_car_hexa(car),
{
    (48 <= car && car <= 57) || (65 <= car && car <= 70) || (97 <= car && car <= 102)
}

/// Value of a hexadecimal digit byte (0 for a byte that is none).
pub fn car_hexa_to_value(car: u8) -> (r: u8)
    ensures
        r == spec_car_hexa_to_value(car),
        r < 16,
{
    if 48 <= car && car <= 57 {
        car - 48
    } else if 65 <= car && car <= 70 {
        (car - 65 + 10)
    } else if 97 <= car && car <= 102 {
        (car - 97 + 10)
    } else {
        0
    }
}

/// How long to wait for a reply when nothing at all has arrived, in
/// milliseconds
pub const TIMEOUT_READ_FRAME_MS: u64 = 1000;

/// How long to wait for further bytes once some have arrived, in milliseconds
pub const TIMEOUT_END_FRAME_MS: u64 = 300;

/// Cap on the polling iterations of `waiting_frame`, so the loop is finite
/// whatever the clock reports; far beyond what either timeout allows.
pub const MAX_POLLS: u64 = 0x1000_0000_0000_0000;

/// Relies on `std::time::Instant`: an opaque reading of the monotonic clock.
#[verifier::external_type_specification]
#[verifier::external_body]
pub struct ExInstant(std::time::Instant);

/// Relies on `Instant::now`: a fresh reading of the monotonic clock; nothing
/// is promised of it.
#[verifier::external_body]
fn instant_now() -> std::time::Instant {
    std::time::Instant::now()
}

/// Relies on `Instant::elapsed`: milliseconds since the reading, saturated to
/// `u64`. The value depends on the clock, so nothing is promised of it.
#[verifier::external_body]
fn elapsed_millis(start: &std::time::Instant) -> u64 {
    let ms = start.elapsed().as_millis();
    if ms > u64::MAX as u128 {
        u64::MAX
    } else {
        ms as u64
    }
}

/// Wait for a response on the link, under the two-tier timeout policy: give
/// up once nothing at all has arrived for the long timeout, or once bytes
/// stopped arriving for the short one; return as soon as `max_expected_len`
/// bytes are in. Hands back whatever arrived.
pub fn waiting_frame<P: crate::serial_com::CommonSerialComTrait>(
    port: &mut P,
    max_expected_len: usize,
) -> (r: Vec<u8>) {
    let mut buffer: Vec<u8> = Vec::new();
    let mut start = instant_now();
    let mut polls: u64 = 0;
    while polls < MAX_POLLS
        decreases MAX_POLLS - polls,
    {
        polls = polls + 1;
        let n = port.read(&mut buffer);
        if n > 0 {
            start = instant_now();
        }
        if buffer.len() >= max_expected_len {
            return buffer;
        }
        if buffer.len() > 0 {
            if elapsed_millis(&start) > TIMEOUT_END_FRAME_MS {
                return buffer;
            }
        } else {
            if elapsed_millis(&start) > TIMEOUT_READ_FRAME_MS {
                return buffer;
            }
        }
    }
    buffer
}

/// Frame checksum: the XOR of all the bytes handed in.
pub fn calcul_checksum(data: &[u8]) -> (r: u8)
    ensures
        r == xor_fold(data@),
{
    let mut lrc: u8 = 0;
    let mut i: usize = 0;
    while i < data.len()
        invariant
            0 <= i <= data@.len(),
            lrc == xor_fold(data@.subrange(0, i as int)),
        decreases data@.len() - i,
    {
        proof {
            assert(data@.subrange(0, i + 1).drop_last() =~= data@.subrange(0, i as int));
        }
        lrc = lrc ^ data[i];
        i = i + 1;
    }
    proof {
        assert(data@.subrange(0, data@.len() as int) =~= data@);
    }
    lrc
}

} // verus!
