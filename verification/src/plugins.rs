//! Product boundary for installed n-plugin Components.
//!
//! The records that the Plugin Manager keeps about installed root
//! Components, where they live under the application data directory, and the
//! decisions taken when a Component is installed, enabled, uninstalled or
//! recovered after an interrupted installation. Reading and writing files,
//! resolving dependency graphs and talking to the activation registry are
//! the caller's part; the functions here decide what to do with their
//! results.
use vstd::prelude::*;
use crate::order::TextKeyed;

pub mod error;
pub mod paths;
pub mod grants;
pub mod install;
pub mod activation;
pub mod reconcile;
pub mod manage;

verus! {

/// The characters of each string in a sequence.
pub open spec fn strings_view(v: Seq<String>) -> Seq<Seq<char>> {
    v.map_values(|s: String| s@)
}

/// A copy of a list of strings.
pub fn copy_strings(v: &Vec<String>) -> (res: Vec<String>)
    ensures
        strings_view(res@) == strings_view(v@),
{
    let mut out: Vec<String> = Vec::new();
    for i in 0..v.len()
        invariant
            strings_view(out@) == strings_view(v@).take(i as int),
    {
        let ghost before = out@;
        let c = v[i].clone();
        out.push(c);
        assert(out@ == before.push(c));
        assert(strings_view(out@) =~= strings_view(before).push(v@[i as int]@));
        assert(strings_view(v@).take(i + 1) =~= strings_view(v@).take(i as int).push(v@[i as int]@));
    }
    assert(strings_view(v@).take(v.len() as int) =~= strings_view(v@));
    out
}

/// One exact immutable release of a Component: package, version and
/// content digest.
#[derive(Clone, Debug, PartialEq, Eq)]
pub struct ReleaseIdentity {
    /// `publisher:name` of the package.
    pub package: String,
    /// Semantic version of the release.
    pub version: String,
    /// `sha256:` content digest of the Component bytes.
    pub digest: String,
}

/// The text of a release identity.
pub ghost struct ReleaseView {
    pub package: Seq<char>,
    pub version: Seq<char>,
    pub digest: Seq<char>,
}

impl View for ReleaseIdentity {
    type V = ReleaseView;

    open spec fn view(&self) -> ReleaseView {
        ReleaseView { package: self.package@, version: self.version@, digest: self.digest@ }
    }
}

impl ReleaseIdentity {
    /// Whether both identities name the same exact release.
    pub fn same_release(&self, other: &ReleaseIdentity) -> (res: bool)
        ensures
            res == (self@ == other@),
    {
        self.package == other.package && self.version == other.version && self.digest
            == other.digest
    }

    /// A copy of this identity.
    pub fn copy_release(&self) -> (res: ReleaseIdentity)
        ensures
            res@ == self@,
    {
        ReleaseIdentity {
            package: self.package.clone(),
            version: self.version.clone(),
            digest: self.digest.clone(),
        }
    }
}

/// The content-bound deployment lock retained for offline reconstruction
/// of a dependency graph.
#[derive(Clone, Debug, PartialEq, Eq)]
pub struct PluginDeploymentLock {
    /// Path of the lock file relative to the plugin root.
    pub relative_path: String,
    /// `sha256:` digest of the lock file.
    pub digest: String,
}

/// The text of a deployment lock.
pub ghost struct LockView {
    pub relative_path: Seq<char>,
    pub digest: Seq<char>,
}

impl View for PluginDeploymentLock {
    type V = LockView;

    open spec fn view(&self) -> LockView {
        LockView { relative_path: self.relative_path@, digest: self.digest@ }
    }
}

impl PluginDeploymentLock {
    /// Whether both locks are the same.
    pub fn same_lock(&self, other: &PluginDeploymentLock) -> (res: bool)
        ensures
            res == (self@ == other@),
    {
        self.relative_path == other.relative_path && self.digest == other.digest
    }

    /// A copy of this lock.
    pub fn copy_lock(&self) -> (res: PluginDeploymentLock)
        ensures
            res@ == self@,
    {
        PluginDeploymentLock {
            relative_path: self.relative_path.clone(),
            digest: self.digest.clone(),
        }
    }
}

/// One approved capability grant, identified by its canonical key text.
#[derive(Clone, Debug, PartialEq, Eq)]
pub struct PluginGrantKey {
    /// Canonical text of the grant (subject, capability and account).
    pub key: String,
}

impl View for PluginGrantKey {
    type V = Seq<char>;

    open spec fn view(&self) -> Seq<char> {
        self.key@
    }
}

impl TextKeyed for PluginGrantKey {
    open spec fn key_text(&self) -> Seq<u8> {
        vstd::utf8::encode_utf8(self.key@)
    }

    fn key_bytes(&self) -> (res: &[u8]) {
        self.key.as_str().as_bytes()
    }
}

impl TextKeyed for String {
    open spec fn key_text(&self) -> Seq<u8> {
        vstd::utf8::encode_utf8(self@)
    }

    fn key_bytes(&self) -> (res: &[u8]) {
        self.as_str().as_bytes()
    }
}

/// The keys of a list of grants.
pub open spec fn grants_view(v: Seq<PluginGrantKey>) -> Seq<Seq<char>> {
    v.map_values(|g: PluginGrantKey| g@)
}

/// Whether two grant lists hold the same keys in the same order.
pub fn same_grants(a: &Vec<PluginGrantKey>, b: &Vec<PluginGrantKey>) -> (res: bool)
    ensures
        res == (grants_view(a@) == grants_view(b@)),
{
    if a.len() != b.len() {
        return false;
    }
    let mut i: usize = 0;
    while i < a.len()
        invariant
            a.len() == b.len(),
            i <= a.len(),
            forall|j: int| 0 <= j < i ==> a@[j]@ == b@[j]@,
        decreases a.len() - i,
    {
        if a[i].key != b[i].key {
            assert(grants_view(a@)[i as int] != grants_view(b@)[i as int]);
            return false;
        }
        i = i + 1;
    }
    assert(grants_view(a@) =~= grants_view(b@));
    true
}

/// A copy of a grant list.
pub fn copy_grants(v: &Vec<PluginGrantKey>) -> (res: Vec<PluginGrantKey>)
    ensures
        grants_view(res@) == grants_view(v@),
{
    let mut out: Vec<PluginGrantKey> = Vec::new();
    for i in 0..v.len()
        invariant
            grants_view(out@) == grants_view(v@).take(i as int),
    {
        let ghost before = out@;
        let g = PluginGrantKey { key: v[i].key.clone() };
        out.push(g);
        assert(out@ == before.push(g));
        assert(grants_view(out@) =~= grants_view(before).push(v@[i as int]@));
        assert(grants_view(v@).take(i + 1) =~= grants_view(v@).take(i as int).push(v@[i as int]@));
    }
    assert(grants_view(v@).take(v.len() as int) =~= grants_view(v@));
    out
}

/// One installed root Component shown by the Plugin Manager.
#[derive(Clone, Debug, PartialEq, Eq)]
pub struct InstalledPlugin {
    /// Exact immutable release selected at installation time.
    pub release: ReleaseIdentity,
    /// Product triggers declared by the embedded manifest.
    pub triggers: Vec<String>,
    /// Explicit user intent; disabled Components cannot be invoked.
    pub enabled: bool,
    /// Exact registry generation committed for this installed projection.
    pub activation_generation: u64,
    /// Exact deployment lock retained for offline graph reconstruction.
    pub deployment_lock: PluginDeploymentLock,
    /// Exact approved root and dependency capability grants for this release.
    pub grants: Vec<PluginGrantKey>,
    /// Product host imports used directly by the root Component.
    pub root_host_interfaces: Vec<String>,
}

/// The content of an installed plugin record.
pub ghost struct InstalledView {
    pub release: ReleaseView,
    pub triggers: Seq<Seq<char>>,
    pub enabled: bool,
    pub activation_generation: u64,
    pub deployment_lock: LockView,
    pub grants: Seq<Seq<char>>,
    pub root_host_interfaces: Seq<Seq<char>>,
}

impl View for InstalledPlugin {
    type V = InstalledView;

    open spec fn view(&self) -> InstalledView {
        InstalledView {
            release: self.release@,
            triggers: strings_view(self.triggers@),
            enabled: self.enabled,
            activation_generation: self.activation_generation,
            deployment_lock: self.deployment_lock@,
            grants: grants_view(self.grants@),
            root_host_interfaces: strings_view(self.root_host_interfaces@),
        }
    }
}

impl TextKeyed for InstalledPlugin {
    open spec fn key_text(&self) -> Seq<u8> {
        vstd::utf8::encode_utf8(self.release.package@)
    }

    fn key_bytes(&self) -> (res: &[u8]) {
        self.release.package.as_str().as_bytes()
    }
}

impl InstalledPlugin {
    /// A copy of this record.
    pub fn copy_plugin(&self) -> (res: InstalledPlugin)
        ensures
            res@ == self@,
    {
        InstalledPlugin {
            release: self.release.copy_release(),
            triggers: copy_strings(&self.triggers),
            enabled: self.enabled,
            activation_generation: self.activation_generation,
            deployment_lock: self.deployment_lock.copy_lock(),
            grants: copy_grants(&self.grants),
            root_host_interfaces: copy_strings(&self.root_host_interfaces),
        }
    }
}

/// The durable product index of installed root Components.
#[derive(Clone, Debug, Default, PartialEq, Eq)]
pub struct PluginIndex {
    /// The highest activation generation the index has recorded.
    pub next_generation: u64,
    /// The installed root Components, sorted by package.
    pub plugins: Vec<InstalledPlugin>,
}

/// The journal of an activation published to the registry whose product
/// projection may not have been committed yet.
#[derive(Clone, Debug, PartialEq, Eq)]
pub struct PendingActivation {
    /// The exact release being activated.
    pub target_release: ReleaseIdentity,
    /// The registry generation reserved for it.
    pub target_generation: u64,
    /// File name of the staged index projection.
    pub staged_index_file: String,
    /// The deployment lock recorded with it.
    pub deployment_lock: PluginDeploymentLock,
    /// The grants approved for it.
    pub grants: Vec<PluginGrantKey>,
}

/// Opaque user response to one exact server-generated grant requirement.
#[derive(Clone, Debug, PartialEq, Eq)]
pub struct PluginGrantDecisionDto {
    /// Requirement identifier copied unchanged from installation preview.
    pub requirement_id: String,
    /// Explicit user choice; denied required capabilities prevent activation.
    pub allow: bool,
}

/// Exact confirmation of one previously previewed local Component.
#[derive(Clone, Debug, PartialEq, Eq)]
pub struct PluginInstallConfirmationDto {
    /// Local Component path selected by the native file picker.
    pub path: String,
    /// Digest-bound preview identifier returned by the backend.
    pub preview_id: String,
    /// Exact release the user reviewed before confirming.
    pub expected_release: ReleaseIdentity,
    /// Opaque decisions for the exact grant requirement identifiers.
    pub grants: Vec<PluginGrantDecisionDto>,
}

/// One capability that an installation preview requires the user to grant.
#[derive(Clone, Debug, PartialEq, Eq)]
pub struct CapabilityRequirement {
    /// Identifier the user's decision refers to.
    pub requirement_id: String,
    /// The grant the requirement stands for, for the previewed release.
    pub grant: PluginGrantKey,
}

/// What an installation preview reports about one local Component.
#[derive(Clone, Debug, PartialEq, Eq)]
pub struct PluginInstallPreview {
    /// Digest-bound identifier of this preview.
    pub preview_id: String,
    /// The exact release previewed.
    pub release: ReleaseIdentity,
    /// Whether the Component's graph is compatible with this application.
    pub compatible: bool,
    /// Why it is not, when the preflight gave a reason.
    pub reason: Option<String>,
    /// The capabilities the user must grant.
    pub required_capabilities: Vec<CapabilityRequirement>,
}

/// The registry's active generation of a release graph.
#[derive(Clone, Debug, PartialEq, Eq)]
pub struct ActiveGeneration {
    /// The root release of the active graph.
    pub root: ReleaseIdentity,
    /// Its activation generation.
    pub generation: u64,
}

/// A generation whose retirement the registry has begun.
#[derive(Clone, Debug, PartialEq, Eq)]
pub struct RetiredGeneration {
    /// The root release of the retired graph.
    pub root: ReleaseIdentity,
    /// Its activation generation.
    pub generation: u64,
}

/// Durable runtime lifecycle of a root graph, as set by the user.
#[derive(Clone, Copy, Debug, PartialEq, Eq)]
pub enum GraphLifecycle {
    /// The graph may run.
    Active,
    /// The user disabled the graph.
    ManuallyDisabled,
}

/// Result returned after the installed Draft Helper creates a native Gmail draft.
#[derive(Clone, Debug, PartialEq, Eq)]
pub struct PluginDraftActionDto {
    /// Opaque Gmail draft identifier returned by Gmail.
    pub draft_id: String,
    /// Exact Component release that initiated the operation.
    pub release: ReleaseIdentity,
    /// Exact activation generation that supplied Component bytes.
    pub generation: u64,
}

/// One Gmail message reference returned by the typed Booking Finder action.
#[derive(Clone, Debug, PartialEq, Eq)]
pub struct PluginBookingMessageDto {
    /// Opaque Gmail message identifier.
    pub id: String,
    /// Opaque Gmail thread identifier when Gmail returned one.
    pub thread_id: Option<String>,
}

/// Typed Booking Finder result projected onto the public command surface.
#[derive(Clone, Debug, PartialEq, Eq)]
pub struct PluginBookingActionDto {
    /// Exact Gmail search query chosen by the typed guest.
    pub query: String,
    /// Typed Gmail message references returned by the guest.
    pub messages: Vec<PluginBookingMessageDto>,
    /// Exact Component release that initiated the operation.
    pub release: ReleaseIdentity,
    /// Exact activation generation that supplied Component bytes.
    pub generation: u64,
}

/// Output-only product projection for one exact installed Component.
#[derive(Clone, Debug, PartialEq, Eq)]
pub struct InstalledPluginDto {
    /// Exact immutable release selected at installation time.
    pub release: ReleaseIdentity,
    /// Exact typed triggers committed in this activation generation.
    pub triggers: Vec<String>,
    /// Kinds of the product-owned actions derived from the typed contract
    /// registry.
    pub actions: Vec<String>,
    /// Explicit user intent retained by the product index.
    pub enabled: bool,
    /// Durable runtime lifecycle for the root graph.
    pub lifecycle: GraphLifecycle,
    /// Exact immutable activation generation used to derive this projection.
    pub activation_generation: u64,
    /// Exact dependency releases retained by this generation.
    pub dependencies: Vec<ReleaseIdentity>,
    /// Content-bound server-owned deployment lock.
    pub deployment_lock: PluginDeploymentLock,
}

/// The registry's record of one activation generation.
#[derive(Clone, Debug, PartialEq, Eq)]
pub struct StoredGeneration {
    /// The root release the generation was compiled for.
    pub root: ReleaseIdentity,
    /// The typed triggers committed in the generation.
    pub triggers: Vec<String>,
    /// The releases of every node of the generation's graph.
    pub nodes: Vec<ReleaseIdentity>,
}

/// What the registry and the contract registry report about one installed
/// record: its stored generation, the active generation of its release, the
/// lifecycle of its graph and the kinds of the actions its triggers offer.
#[derive(Clone, Debug, PartialEq, Eq)]
pub struct ProjectionInputs {
    /// The generation the record names.
    pub stored: StoredGeneration,
    /// The active generation of the record's release, if any.
    pub active: Option<ActiveGeneration>,
    /// The lifecycle of the record's graph.
    pub lifecycle: GraphLifecycle,
    /// Kinds of the actions offered by the stored triggers.
    pub actions: Vec<String>,
}

} // verus!
