//! What can go wrong above the protocol.

use vstd::prelude::*;

verus! {

/// Errors from the conventions on top of the protocol.
#[derive(Debug)]
pub enum SdkError {
    /// The underlying protocol failed; this is what it said.
    Drop(String),
    /// Filesystem trouble.
    Io(String),
    /// A manifest could not be parsed or was rejected.
    Manifest(String),
    /// A user-supplied selection matched nothing (or was ambiguous).
    Pick(String),
    /// Config file trouble.
    Config(String),
}

/// The model of an [`SdkError`].
#[verifier::ext_equal]
pub enum SdkErrorView {
    /// The underlying protocol failed.
    Drop(Seq<char>),
    /// Filesystem trouble.
    Io(Seq<char>),
    /// A manifest could not be parsed or was rejected.
    Manifest(Seq<char>),
    /// A user-supplied selection matched nothing (or was ambiguous).
    Pick(Seq<char>),
    /// Config file trouble.
    Config(Seq<char>),
}

impl View for SdkError {
    type V = SdkErrorView;

    open spec fn view(&self) -> SdkErrorView {
        match self {
            SdkError::Drop(s) => SdkErrorView::Drop(s@),
            SdkError::Io(s) => SdkErrorView::Io(s@),
            SdkError::Manifest(s) => SdkErrorView::Manifest(s@),
            SdkError::Pick(s) => SdkErrorView::Pick(s@),
            SdkError::Config(s) => SdkErrorView::Config(s@),
        }
    }
}

impl SdkErrorView {
    /// What a person reads.
    pub open spec fn message(self) -> Seq<char> {
        match self {
            SdkErrorView::Drop(s) => s,
            SdkErrorView::Io(s) => "io error: "@ + s,
            SdkErrorView::Manifest(s) => "invalid collection manifest: "@ + s,
            SdkErrorView::Pick(s) => s,
            SdkErrorView::Config(s) => "config error: "@ + s,
        }
    }
}

impl SdkError {
    /// What a person reads.
    pub fn message(&self) -> (r: String)
        ensures
            r@ == self@.message(),
    {
        match self {
            SdkError::Drop(s) => s.clone(),
            SdkError::Io(s) => "io error: ".to_owned().concat(s.as_str()),
            SdkError::Manifest(s) => "invalid collection manifest: ".to_owned().concat(s.as_str()),
            SdkError::Pick(s) => s.clone(),
            SdkError::Config(s) => "config error: ".to_owned().concat(s.as_str()),
        }
    }
}

} // verus!
