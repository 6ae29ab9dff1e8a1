//! Presence beacons: members of a drop broadcast a short status.
//!
//! There is no handshake, no state, and no guarantee: presence is a hint, and the payload
//! is untrusted text.

use crate::ids::PeerId;
use crate::text::{byte_len, decimal, number, utf8_len};
use vstd::prelude::*;
use vstd::utf8::{decode_utf8, encode_utf8, valid_utf8};

verus! {

/// The namespace presence beacons ride in: the first 16 bytes of
/// SHA-256("iroh-drop-presence/v1"), fixed forever. A namespace derived from a name you own
/// cannot collide with anyone else's.
pub const PRESENCE_NAMESPACE: [u8; 16] = [
    0xab, 0xab, 0xf4, 0xba, 0x7b, 0x13, 0x6d, 0xa5, 0xb4, 0xdb, 0xc7, 0x71, 0x08, 0x27, 0x3f, 0x76,
];

/// Presence's own message number for a status beacon.
pub const PRESENCE_KIND_STATUS: u32 = 1;

/// Presence payload schema version.
pub const PRESENCE_SCHEMA_VERSION: u16 = 1;

/// Maximum status length in UTF-8 bytes. Presence is a one-liner, not a document; the cap
/// keeps beacons cheap to relay.
pub const MAX_STATUS_LEN: usize = 140;

/// A message of an extension, as it is sent.
#[derive(Debug)]
pub struct Beacon {
    /// Whose messages these are.
    pub namespace: [u8; 16],
    /// Which of them this is.
    pub local_kind: u32,
    /// The version of its payload.
    pub schema: u16,
    /// The payload.
    pub payload: Vec<u8>,
}

/// A message of an extension, as it arrives: signed by its author.
#[derive(Debug)]
pub struct ExtensionFrame {
    /// Whose messages these are.
    pub namespace: [u8; 16],
    /// Which of them this is.
    pub local_kind: u32,
    /// The verified author.
    pub author: PeerId,
    /// The payload.
    pub payload: Vec<u8>,
}

/// A decoded presence beacon.
#[derive(Debug)]
pub struct Presence {
    /// The cryptographically verified author of the beacon.
    pub author: PeerId,
    /// What they say they're up to. Untrusted display text.
    pub status: String,
}

/// Whether a text can be a status: it takes from 1 to [`MAX_STATUS_LEN`] bytes.
pub open spec fn is_status(s: Seq<char>) -> bool {
    1 <= utf8_len(s) <= MAX_STATUS_LEN
}

/// The beacon that announces a status, or what is wrong with the status.
pub fn announce(status: &str) -> (r: Result<Beacon, String>)
    ensures
        match r {
            Ok(beacon) => {
                &&& is_status(status@)
                &&& beacon.namespace == PRESENCE_NAMESPACE
                &&& beacon.local_kind == PRESENCE_KIND_STATUS
                &&& beacon.schema == PRESENCE_SCHEMA_VERSION
                &&& beacon.payload@ == encode_utf8(status@)
            },
            Err(why) => !is_status(status@) && why@ == "presence status must be 1..="@ + decimal(
                MAX_STATUS_LEN as nat,
            ) + " bytes, got "@ + decimal(utf8_len(status@)),
        },
{
    let n: usize = byte_len(status);
    if n == 0 || n > MAX_STATUS_LEN {
        return Err(
            "presence status must be 1..=".to_owned().concat(
                number(MAX_STATUS_LEN as u64).as_str(),
            ).concat(" bytes, got ").concat(number(n as u64).as_str()),
        );
    }
    Ok(
        Beacon {
            namespace: PRESENCE_NAMESPACE,
            local_kind: PRESENCE_KIND_STATUS,
            schema: PRESENCE_SCHEMA_VERSION,
            payload: vstd::slice::slice_to_vec(status.as_bytes()),
        },
    )
}

/// Reads bytes as text by `std::str::from_utf8`: there is a text exactly where the bytes
/// are valid UTF-8, and it is the text that they encode.
#[verifier::external_body]
fn text_from_utf8(bytes: &Vec<u8>) -> (r: Option<String>)
    ensures
        match r {
            Some(s) => valid_utf8(bytes@) && s@ == decode_utf8(bytes@),
            None => !valid_utf8(bytes@),
        },
{
    std::str::from_utf8(bytes).ok().map(str::to_string)
}

/// Whether a frame belongs to presence.
pub open spec fn is_ours(frame: ExtensionFrame) -> bool {
    frame.namespace@ == PRESENCE_NAMESPACE@ && frame.local_kind == PRESENCE_KIND_STATUS
}

/// The status that a frame carries. None for other protocols, unknown kinds, invalid UTF-8
/// and over-long statuses: all normal outcomes with untrusted input.
pub open spec fn status_in(frame: ExtensionFrame) -> Option<Seq<char>> {
    if is_ours(frame) && valid_utf8(frame.payload@) && is_status(decode_utf8(frame.payload@)) {
        Some(decode_utf8(frame.payload@))
    } else {
        None
    }
}

fn same_namespace(a: &[u8; 16], b: &[u8; 16]) -> (r: bool)
    ensures
        r == (a@ == b@),
{
    let mut i: usize = 0;
    while i < 16
        invariant
            i <= 16,
            forall|k: int| 0 <= k < i ==> a@[k] == b@[k],
        decreases 16 - i,
    {
        if a[i] != b[i] {
            assert(a@[i as int] != b@[i as int]);
            return false;
        }
        i += 1;
    }
    assert(a@ =~= b@);
    true
}

/// Interprets a frame as a presence beacon.
pub fn decode(frame: ExtensionFrame) -> (r: Option<Presence>)
    ensures
        match r {
            Some(presence) => status_in(frame) == Some(presence.status@) && presence.author
                == frame.author,
            None => status_in(frame) is None,
        },
{
    if !same_namespace(&frame.namespace, &PRESENCE_NAMESPACE) || frame.local_kind
        != PRESENCE_KIND_STATUS {
        return None;
    }
    match text_from_utf8(&frame.payload) {
        None => None,
        Some(status) => {
            let n: usize = byte_len(status.as_str());
            if n == 0 || n > MAX_STATUS_LEN {
                return None;
            }
            Some(Presence { author: frame.author, status })
        },
    }
}

/// What one member announces is what the others decode, attributed to its author.
pub proof fn announced_status_is_decoded(status: Seq<char>, frame: ExtensionFrame)
    requires
        is_status(status),
        frame.namespace == PRESENCE_NAMESPACE,
        frame.local_kind == PRESENCE_KIND_STATUS,
        frame.payload@ == encode_utf8(status),
    ensures
        status_in(frame) == Some(status),
{
    broadcast use vstd::utf8::encode_utf8_valid_utf8, vstd::utf8::encode_utf8_decode_utf8;

}

} // verus!
