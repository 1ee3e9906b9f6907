//! Error taxonomy of the control plane, and the download-status values the
//! two background trackers hold.

use vstd::prelude::*;

verus! {

/// The closed set of error kinds an operation can report.
#[derive(Clone, Copy, Debug, PartialEq, Eq, Structural)]
pub enum ClashErrorKind {
    CoreNotFound,
    ConfigFormatError,
    ConfigNotFound,
    RuleProviderDownloadError,
    NetworkError,
    Default,
}

/// An error: a kind out of the closed set, and a human-readable message.
#[derive(Debug, PartialEq, Eq)]
pub struct ClashError {
    pub kind: ClashErrorKind,
    pub message: String,
}

impl ClashError {
    /// An uncategorized error with an empty message.
    pub fn new() -> (r: Self)
        ensures
            r.kind == ClashErrorKind::Default,
            r.message@ == Seq::<char>::empty(),
    {
        Self { kind: ClashErrorKind::Default, message: String::new() }
    }

    /// An error of the given kind carrying the given message.
    pub fn of(kind: ClashErrorKind, message: String) -> (r: Self)
        ensures
            r.kind == kind,
            r.message@ == message@,
    {
        Self { kind, message }
    }

    /// The kind and message rendered for a log line or an RPC reply.
    pub fn describe(&self) -> (r: String)
        ensures
            r@ == kind_label_chars(self.kind) + ": "@ + self.message@,
    {
        let mut out = kind_label(self.kind);
        out.append(": ");
        out.append(self.message.as_str());
        out
    }
}

/// The label of an error kind.
pub open spec fn kind_label_chars(kind: ClashErrorKind) -> Seq<char> {
    match kind {
        ClashErrorKind::CoreNotFound => "CoreNotFound"@,
        ClashErrorKind::ConfigFormatError => "ConfigFormatError"@,
        ClashErrorKind::ConfigNotFound => "ConfigNotFound"@,
        ClashErrorKind::RuleProviderDownloadError => "RuleProviderDownloadError"@,
        ClashErrorKind::NetworkError => "NetworkError"@,
        ClashErrorKind::Default => "Default"@,
    }
}

/// The label of an error kind, as an owned string.
pub fn kind_label(kind: ClashErrorKind) -> (r: String)
    ensures
        r@ == kind_label_chars(kind),
{
    match kind {
        ClashErrorKind::CoreNotFound => String::from_str("CoreNotFound"),
        ClashErrorKind::ConfigFormatError => String::from_str("ConfigFormatError"),
        ClashErrorKind::ConfigNotFound => String::from_str("ConfigNotFound"),
        ClashErrorKind::RuleProviderDownloadError => String::from_str("RuleProviderDownloadError"),
        ClashErrorKind::NetworkError => String::from_str("NetworkError"),
        ClashErrorKind::Default => String::from_str("Default"),
    }
}

/// State of one background download: the rule-provider sync and the update
/// check each hold one of these, independently of the other. `Idle` is the
/// initial no-download-yet state; its rendered label is "None".
#[derive(Clone, Copy, Debug, PartialEq, Eq, Structural)]
pub enum DownloadStatus {
    Downloading,
    Failed,
    Success,
    Error,
    Idle,
}

/// The label of a download status.
pub open spec fn status_label_chars(status: DownloadStatus) -> Seq<char> {
    match status {
        DownloadStatus::Downloading => "Downloading"@,
        DownloadStatus::Failed => "Failed"@,
        DownloadStatus::Success => "Success"@,
        DownloadStatus::Error => "Error"@,
        DownloadStatus::Idle => "None"@,
    }
}

impl DownloadStatus {
    /// The status rendered for an RPC reply, the variant's name.
    pub fn label(&self) -> (r: String)
        ensures
            r@ == status_label_chars(*self),
    {
        match self {
            DownloadStatus::Downloading => String::from_str("Downloading"),
            DownloadStatus::Failed => String::from_str("Failed"),
            DownloadStatus::Success => String::from_str("Success"),
            DownloadStatus::Error => String::from_str("Error"),
            DownloadStatus::Idle => String::from_str("None"),
        }
    }
}

} // verus!
