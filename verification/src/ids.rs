//! How blobs and peers are told apart, and how they are shown.

use crate::text::{has_prefix, same, starts_with};
use vstd::prelude::*;

verus! {

/// A content hash. Two hashes are the same when their hex digits are.
#[derive(Debug)]
pub struct BlobHash {
    /// The hex digits.
    pub hex: String,
    /// The short form, for when there is nothing better to show.
    pub short: String,
}

impl View for BlobHash {
    type V = (Seq<char>, Seq<char>);

    open spec fn view(&self) -> (Seq<char>, Seq<char>) {
        (self.hex@, self.short@)
    }
}

impl BlobHash {
    /// The hex digits.
    pub fn to_hex(&self) -> (r: String)
        ensures
            r@ == self.hex@,
    {
        self.hex.clone()
    }

    /// The short form.
    pub fn fmt_short(&self) -> (r: String)
        ensures
            r@ == self.short@,
    {
        self.short.clone()
    }

    /// The same hash again.
    pub fn copy(&self) -> (r: BlobHash)
        ensures
            r@ == self@,
    {
        BlobHash { hex: self.hex.clone(), short: self.short.clone() }
    }

    /// Whether both are the hash of the same content.
    pub fn is(&self, other: &BlobHash) -> (r: bool)
        ensures
            r == (self.hex@ == other.hex@),
    {
        same(self.hex.as_str(), other.hex.as_str())
    }

    /// Whether the hex digits begin with `prefix`.
    pub fn matches_prefix(&self, prefix: &str) -> (r: bool)
        ensures
            r == has_prefix(self.hex@, prefix@),
    {
        starts_with(self.hex.as_str(), prefix)
    }
}

/// A peer's endpoint id. Two peers are the same when their ids are.
#[derive(Debug)]
pub struct PeerId {
    /// The whole id.
    pub id: String,
    /// The short form.
    pub short: String,
}

impl View for PeerId {
    type V = (Seq<char>, Seq<char>);

    open spec fn view(&self) -> (Seq<char>, Seq<char>) {
        (self.id@, self.short@)
    }
}

impl PeerId {
    /// The short form.
    pub fn fmt_short(&self) -> (r: String)
        ensures
            r@ == self.short@,
    {
        self.short.clone()
    }

    /// Whether both are the same peer.
    pub fn is(&self, other: &PeerId) -> (r: bool)
        ensures
            r == (self.id@ == other.id@),
    {
        same(self.id.as_str(), other.id.as_str())
    }
}

} // verus!
