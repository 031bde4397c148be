//! What the device broadcasts while it waits for a player.
use trouble_host::advertise::{AdStructure, BR_EDR_NOT_SUPPORTED, LE_GENERAL_DISCOVERABLE};
use vstd::prelude::*;

verus! {

/// Most bytes that an advertisement can hold.
pub const ADVERTISEMENT_SIZE: usize = 31;

/// The name under which the device is found: `ESP-TETRIS`.
pub const DEVICE_NAME: [u8; 10] = [0x45, 0x53, 0x50, 0x2D, 0x54, 0x45, 0x54, 0x52, 0x49, 0x53];

/// Why there is no advertisement.
#[derive(Clone, Copy, Debug, PartialEq, Eq, Structural)]
pub enum AdvertisementError {
    /// It would take more bytes than there are.
    TooLong,
}

/// `trouble_host::Error`. Nothing is claimed of it.
#[verifier::external_type_specification]
#[verifier::external_body]
pub struct ExHostError(trouble_host::Error);

/// `trouble_host::advertise::LE_GENERAL_DISCOVERABLE`, which is 2: the device can be
/// found.
#[verifier::external_body]
fn le_general_discoverable() -> (flag: u8)
    ensures
        flag == 2,
{
    LE_GENERAL_DISCOVERABLE
}

/// `trouble_host::advertise::BR_EDR_NOT_SUPPORTED`, which is 4: the device speaks only
/// Bluetooth Low Energy.
#[verifier::external_body]
fn br_edr_not_supported() -> (flag: u8)
    ensures
        flag == 4,
{
    BR_EDR_NOT_SUPPORTED
}

/// An advertisement: a structure of type 1 that holds `flags` and one of type 9 that
/// holds the complete name, each led by the number of bytes that follow.
pub open spec fn advertisement(flags: u8, name: Seq<u8>) -> Seq<u8> {
    seq![2, 1, flags, (name.len() + 1) as u8, 9] + name
}

/// `trouble_host::advertise::AdStructure::encode_slice` for flags and a complete name:
/// writes the two structures to the front of `dest` and tells how many bytes they
/// take. Where there are not so many bytes it fails, with all but the name written.
#[verifier::external_body]
fn encode_slice(flags: u8, name: &[u8], dest: &mut [u8; ADVERTISEMENT_SIZE]) -> (len: Result<
    usize,
    trouble_host::Error,
>)
    ensures
        len is Err <==> advertisement(flags, name@).len() > ADVERTISEMENT_SIZE,
        len matches Ok(n) ==> n == advertisement(flags, name@).len() && final(dest)@
            == advertisement(flags, name@) + old(dest)@.skip(n as int),
        len is Err ==> final(dest)@ == advertisement(flags, name@).take(5) + old(dest)@.skip(5),
{
    let structures = [AdStructure::Flags(flags), AdStructure::CompleteLocalName(name)];
    AdStructure::encode_slice(&structures, &mut dest[..]).map_err(trouble_host::Error::from)
}

/// Writes the advertisement of a discoverable device called `name` to the front of
/// `data`; tells how many bytes it takes. A name that does not fit is left out, and the
/// rest is written.
pub fn encode_advertisement(name: &[u8], data: &mut [u8; ADVERTISEMENT_SIZE]) -> (len: Result<
    usize,
    AdvertisementError,
>)
    ensures
        len is Err <==> name@.len() + 5 > ADVERTISEMENT_SIZE,
        len matches Err(error) ==> error == AdvertisementError::TooLong,
        len matches Ok(n) ==> n == name@.len() + 5 && final(data)@ == advertisement(6, name@)
            + old(data)@.skip(n as int),
        len is Err ==> final(data)@ == advertisement(6, name@).take(5) + old(data)@.skip(5),
{
    let flags: u8 = le_general_discoverable() | br_edr_not_supported();
    assert(2u8 | 4u8 == 6u8) by (bit_vector);
    match encode_slice(flags, name, data) {
        Ok(n) => Ok(n),
        Err(_) => Err(AdvertisementError::TooLong),
    }
}

/// Writes what the device broadcasts to the front of `data`; tells how many bytes it
/// takes. The device's name is short enough for this always to succeed.
pub fn advertise(data: &mut [u8; ADVERTISEMENT_SIZE]) -> (len: Result<usize, AdvertisementError>)
    ensures
        len == Ok::<usize, AdvertisementError>(15),
        final(data)@ == advertisement(6, DEVICE_NAME@) + old(data)@.skip(15),
{
    let name: [u8; 10] = DEVICE_NAME;
    encode_advertisement(name.as_slice(), data)
}

/// An advertisement is read structure by structure: the first has two bytes after its
/// length, its type and the flags; the second as many as the name and one more, its type
/// and the name; and there is no other. A name of 255 bytes or more is too long for its
/// length to be told in one byte.
pub proof fn law_advertisement_can_be_read(flags: u8, name: Seq<u8>)
    ensures
        ({
            let data = advertisement(flags, name);
            &&& data.len() == 3 + 2 + name.len()
            &&& data[0] == 2 && data[1] == 1 && data[2] == flags
            &&& name.len() < 255 ==> data[3] == name.len() + 1
            &&& data[4] == 9
            &&& data.subrange(5, data.len() as int) == name
        }),
{
    let data = advertisement(flags, name);
    assert(data.subrange(5, data.len() as int) =~= name);
}

/// The device is found under its name, letter by letter.
pub proof fn law_device_name_is_spelled_out(i: int)
    requires
        0 <= i < 10,
    ensures
        "ESP-TETRIS"@.len() == 10,
        DEVICE_NAME@[i] == "ESP-TETRIS"@[i] as u8,
{
    reveal_strlit("ESP-TETRIS");
}

} // verus!
