//! Why a plugin operation was refused.
use vstd::prelude::*;
use crate::text::{decimal, push_decimal};

verus! {

/// Why a plugin operation was refused.
#[derive(Debug, PartialEq, Eq)]
pub enum PluginError {
    /// A newer activation than the journaled one is active.
    NewerActivationActive(u64),
    /// The journal names a staged projection file other than the expected one.
    UnexpectedStagedProjection,
    /// The committed projection lacks the journaled plugin record.
    ProjectionMismatch,
    /// The same requirement was answered twice.
    DuplicateGrantDecision(String),
    /// The answered requirements are not those of the preview.
    GrantDecisionsDiffer,
    /// A required capability was denied.
    CapabilityNotApproved(String),
    /// The release digest is not a `sha256:` digest.
    DigestNotSha256,
    /// The release digest is not 64 lower-case hexadecimal characters.
    DigestNotLowerHex,
    /// No mail account is signed in.
    AccountRequired,
    /// The Component's release changed after the user reviewed it.
    ReviewedReleaseChanged,
    /// The preview no longer matches the Component.
    PreviewStale,
    /// The previewed release is not the release the user confirmed.
    ReleaseChangedAfterPreview,
    /// The Component is incompatible, with the preflight's reason if any.
    Incompatible(Option<String>),
    /// The Component's release changed while the preflight ran.
    ReleaseChangedDuringPreflight,
    /// No installed plugin has the given release (its digest).
    NotInstalled(String),
    /// An installed record's generation belongs to another release.
    GenerationOfOtherRelease(u64),
    /// An installed release (its digest) has no active generation.
    NoActiveGeneration(String),
    /// An installed release (its digest) is not its active generation.
    ActiveGenerationMismatch(String),
    /// An installation or reconciliation step received an event that does
    /// not answer its last action.
    UnexpectedEvent,
    /// The Component requires consent, which the direct install cannot give.
    ConsentRequired,
    /// The installed Gmail WKG lock is not the one this release ships.
    WkgLockDiffers,
}

/// The message of an error, as shown to the user.
pub open spec fn message_text(e: PluginError) -> Seq<char> {
    match e {
        PluginError::NewerActivationActive(g) => "a different newer activation is active while generation "@
            + decimal(g as nat) + " remains pending"@,
        PluginError::UnexpectedStagedProjection => "pending activation references an unexpected staged projection"@,
        PluginError::ProjectionMismatch => "committed plugin projection does not match pending activation"@,
        PluginError::DuplicateGrantDecision(id) => "duplicate grant decision `"@ + id@
            + "` requires a new preview"@,
        PluginError::GrantDecisionsDiffer => "grant decisions differ from the exact installation preview"@,
        PluginError::CapabilityNotApproved(id) => "required capability `"@ + id@
            + "` was not approved"@,
        PluginError::DigestNotSha256 => "plugin release digest must use sha256"@,
        PluginError::DigestNotLowerHex => "plugin release digest must contain 64 lowercase hexadecimal characters"@,
        PluginError::AccountRequired => "authenticate a mail account before plugin consent"@,
        PluginError::ReviewedReleaseChanged => "installation preview is stale: plugin release changed after review"@,
        PluginError::PreviewStale => "installation preview is stale; run preflight and review consent again"@,
        PluginError::ReleaseChangedAfterPreview => "plugin release changed after installation preview"@,
        PluginError::Incompatible(reason) => "plugin is incompatible with this mlmail release: "@
            + match reason {
            Some(r) => r@,
            None => "installation preflight did not provide a reason"@,
        },
        PluginError::ReleaseChangedDuringPreflight => "plugin release changed during installation preflight"@,
        PluginError::NotInstalled(digest) => "exact plugin release `"@ + digest@ + "` is not installed"@,
        PluginError::GenerationOfOtherRelease(g) => "installed projection generation "@ + decimal(
            g as nat,
        ) + " belongs to another exact release"@,
        PluginError::NoActiveGeneration(digest) => "installed release `"@ + digest@
            + "` has no active activation generation"@,
        PluginError::ActiveGenerationMismatch(digest) => "installed release `"@ + digest@
            + "` does not match its exact active generation"@,
        PluginError::UnexpectedEvent => "a plugin installation or reconciliation step received an event out of order"@,
        PluginError::ConsentRequired => "plugin requires explicit consent; use preflight and confirm installation"@,
        PluginError::WkgLockDiffers => "installed Gmail WKG lock differs from this mlmail release"@,
    }
}

impl PluginError {
    /// The message of this error, as shown to the user.
    pub fn message(&self) -> (res: String)
        ensures
            res@ == message_text(*self),
    {
        let mut m = String::new();
        match self {
            PluginError::NewerActivationActive(g) => {
                m.append("a different newer activation is active while generation ");
                push_decimal(&mut m, *g);
                m.append(" remains pending");
            },
            PluginError::UnexpectedStagedProjection => {
                m.append("pending activation references an unexpected staged projection");
            },
            PluginError::ProjectionMismatch => {
                m.append("committed plugin projection does not match pending activation");
            },
            PluginError::DuplicateGrantDecision(id) => {
                m.append("duplicate grant decision `");
                m.append(id.as_str());
                m.append("` requires a new preview");
            },
            PluginError::GrantDecisionsDiffer => {
                m.append("grant decisions differ from the exact installation preview");
            },
            PluginError::CapabilityNotApproved(id) => {
                m.append("required capability `");
                m.append(id.as_str());
                m.append("` was not approved");
            },
            PluginError::DigestNotSha256 => {
                m.append("plugin release digest must use sha256");
            },
            PluginError::DigestNotLowerHex => {
                m.append("plugin release digest must contain 64 lowercase hexadecimal characters");
            },
            PluginError::AccountRequired => {
                m.append("authenticate a mail account before plugin consent");
            },
            PluginError::ReviewedReleaseChanged => {
                m.append("installation preview is stale: plugin release changed after review");
            },
            PluginError::PreviewStale => {
                m.append("installation preview is stale; run preflight and review consent again");
            },
            PluginError::ReleaseChangedAfterPreview => {
                m.append("plugin release changed after installation preview");
            },
            PluginError::Incompatible(reason) => {
                m.append("plugin is incompatible with this mlmail release: ");
                match reason {
                    Some(r) => m.append(r.as_str()),
                    None => m.append("installation preflight did not provide a reason"),
                }
            },
            PluginError::ReleaseChangedDuringPreflight => {
                m.append("plugin release changed during installation preflight");
            },
            PluginError::NotInstalled(digest) => {
                m.append("exact plugin release `");
                m.append(digest.as_str());
                m.append("` is not installed");
            },
            PluginError::GenerationOfOtherRelease(g) => {
                m.append("installed projection generation ");
                push_decimal(&mut m, *g);
                m.append(" belongs to another exact release");
            },
            PluginError::NoActiveGeneration(digest) => {
                m.append("installed release `");
                m.append(digest.as_str());
                m.append("` has no active activation generation");
            },
            PluginError::ActiveGenerationMismatch(digest) => {
                m.append("installed release `");
                m.append(digest.as_str());
                m.append("` does not match its exact active generation");
            },
            PluginError::UnexpectedEvent => {
                m.append("a plugin installation or reconciliation step received an event out of order");
            },
            PluginError::ConsentRequired => {
                m.append("plugin requires explicit consent; use preflight and confirm installation");
            },
            PluginError::WkgLockDiffers => {
                m.append("installed Gmail WKG lock differs from this mlmail release");
            },
        }
        assert(m@ =~= message_text(*self));
        m
    }
}

} // verus!
