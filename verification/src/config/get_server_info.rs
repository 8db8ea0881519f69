//! The identity of the host: its name and its stable identifier.

use crate::views::option_view;
use rand::RngCore;
use vstd::prelude::*;

verus! {

/// Whether the character is white space, as `char::is_whitespace` of the standard
/// library tells.
pub uninterp spec fn is_white_space(c: char) -> bool;

/// The text without the white space at its start and at its end.
pub open spec fn trimmed(s: Seq<char>) -> Seq<char>
    decreases s.len(),
{
    if s.len() > 0 && is_white_space(s[0]) {
        trimmed(s.drop_first())
    } else if s.len() > 0 && is_white_space(s.last()) {
        trimmed(s.drop_last())
    } else {
        s
    }
}

/// The lower-case hexadecimal digit of a value below sixteen.
pub open spec fn hex_digit(n: u8) -> char {
    if n < 10 {
        (0x30 + n) as char
    } else {
        (0x61 + n - 10) as char
    }
}

/// The text that writes each byte as two lower-case hexadecimal digits, the high half
/// first.
pub open spec fn hex_encoding(bytes: Seq<u8>) -> Seq<char> {
    Seq::new(
        2 * bytes.len(),
        |i: int|
            if i % 2 == 0 {
                hex_digit(bytes[i / 2] >> 4)
            } else {
                hex_digit(bytes[i / 2] & 0x0f)
            },
    )
}

/// `str::trim` of the standard library: the text without its leading and trailing
/// white space, where white space is what `char::is_whitespace` tells.
#[verifier::external_body]
fn trim(s: &str) -> (r: &str)
    ensures
        r@ == trimmed(s@),
        r@.len() > 0 ==> !is_white_space(r@[0]) && !is_white_space(r@.last()),
{
    s.trim()
}

/// `hex::encode` of the crate `hex`: two lower-case hexadecimal digits for each byte,
/// the high half first, so twice as many characters as bytes.
#[verifier::external_body]
fn hex_encode(bytes: &[u8; 16]) -> (r: String)
    ensures
        r@ == hex_encoding(bytes@),
{
    hex::encode(bytes)
}

/// Sixteen bytes from the generator that `rand::rng` of the crate `rand` gives, filled
/// by `RngCore::fill_bytes`. Nothing is known of them.
#[verifier::external_body]
fn random_bytes() -> (r: [u8; 16]) {
    let mut bytes = [0u8; 16];
    rand::rng().fill_bytes(&mut bytes);
    bytes
}

/// The name of the host: the configured one, else the content of the host's name file
/// without the white space around it, else none.
pub fn get_hostname(hostname: Option<String>, etc_hostname: Option<String>) -> (r: Option<String>)
    ensures
        option_view(r) == match hostname {
            Some(name) => Some(name@),
            None => match etc_hostname {
                Some(text) => Some(trimmed(text@)),
                None => None,
            },
        },
{
    match hostname {
        Some(name) => Some(name),
        None => match etc_hostname {
            Some(text) => Some(trim(text.as_str()).to_owned()),
            None => None,
        },
    }
}

/// The identifier that sixteen bytes give: their hexadecimal writing, 32 characters.
pub fn generated_machine_id(bytes: [u8; 16]) -> (r: String)
    ensures
        r@ == hex_encoding(bytes@),
        r@.len() == 32,
{
    hex_encode(&bytes)
}

/// `id` is an identifier of a host with this configured identifier and this content of
/// the identifier file: the configured one, else the content of the file without the
/// white space around it, else the hexadecimal writing of any sixteen bytes.
pub open spec fn is_machine_id(
    id: Seq<char>,
    machine_id: Option<String>,
    etc_machine_id: Option<String>,
) -> bool {
    match machine_id {
        Some(configured) => id == configured@,
        None => match etc_machine_id {
            Some(text) => id == trimmed(text@),
            None => exists|bytes: Seq<u8>| bytes.len() == 16 && id == #[trigger] hex_encoding(bytes),
        },
    }
}

/// The identifier of the host: the configured one, else the content of the host's
/// identifier file without the white space around it, else a new one, made of sixteen
/// random bytes as [`generated_machine_id`] does.
pub fn get_machine_id(machine_id: Option<String>, etc_machine_id: Option<String>) -> (r: String)
    ensures
        is_machine_id(r@, machine_id, etc_machine_id),
{
    match machine_id {
        Some(id) => id,
        None => match etc_machine_id {
            Some(text) => trim(text.as_str()).to_owned(),
            None => {
                let bytes = random_bytes();
                generated_machine_id(bytes)
            },
        },
    }
}

} // verus!
