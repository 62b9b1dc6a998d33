//! Identities, revisions, paths and actors shared by every repository.

use vstd::prelude::*;

use crate::error::{invalid, StateError};
use crate::text::{optional_text, text_eq};

verus! {

/// A stable identity in its stored text form.
#[derive(Clone, Debug, PartialEq, Eq)]
pub struct Id {
    pub text: String,
}

impl View for Id {
    type V = Seq<char>;

    open spec fn view(&self) -> Seq<char> {
        self.text@
    }
}

impl Id {
    /// The identity with the given text.
    pub fn new(text: String) -> (id: Id)
        ensures
            id.text == text,
    {
        Id { text }
    }

    /// Stored text of the identity.
    pub fn as_str(&self) -> (text: &str)
        ensures
            text@ == self@,
    {
        self.text.as_str()
    }

    /// Whether both identities name the same object.
    pub fn same(&self, other: &Id) -> (r: bool)
        ensures
            r == (self@ == other@),
    {
        text_eq(self.text.as_str(), other.text.as_str())
    }

    /// An equal identity.
    pub fn duplicate(&self) -> (id: Id)
        ensures
            id == *self,
    {
        Id { text: self.text.clone() }
    }
}

/// Text of an optional identity.
pub open spec fn optional_id(id: Option<Id>) -> Option<Seq<char>> {
    match id {
        Some(id) => Some(id@),
        None => None,
    }
}

/// An equal optional identity.
pub fn duplicate_optional(id: &Option<Id>) -> (r: Option<Id>)
    ensures
        r == *id,
{
    match id {
        Some(id) => Some(id.duplicate()),
        None => None,
    }
}

/// An equal optional text.
pub fn duplicate_text(text: &Option<String>) -> (r: Option<String>)
    ensures
        r == *text,
{
    match text {
        Some(text) => Some(text.clone()),
        None => None,
    }
}

/// Identities of a stored list, in order.
pub open spec fn ids(values: Seq<Id>) -> Seq<Seq<char>> {
    values.map_values(|id: Id| id@)
}

/// A path inside one vault in its stored text form.
#[derive(Clone, Debug, PartialEq, Eq)]
pub struct VaultPath {
    pub text: String,
}

impl View for VaultPath {
    type V = Seq<char>;

    open spec fn view(&self) -> Seq<char> {
        self.text@
    }
}

impl VaultPath {
    /// Stored text of the path.
    pub fn as_str(&self) -> (text: &str)
        ensures
            text@ == self@,
    {
        self.text.as_str()
    }

    /// Whether both paths have the same text.
    pub fn same(&self, other: &VaultPath) -> (r: bool)
        ensures
            r == (self@ == other@),
    {
        text_eq(self.text.as_str(), other.text.as_str())
    }

    /// An equal path.
    pub fn duplicate(&self) -> (path: VaultPath)
        ensures
            path == *self,
    {
        VaultPath { text: self.text.clone() }
    }
}

/// An equal optional path.
pub fn duplicate_path(path: &Option<VaultPath>) -> (r: Option<VaultPath>)
    ensures
        r == *path,
{
    match path {
        Some(path) => Some(path.duplicate()),
        None => None,
    }
}

/// Paths of optional stored texts.
pub open spec fn path_of(text: Option<String>) -> Option<VaultPath> {
    match text {
        Some(text) => Some(VaultPath { text }),
        None => None,
    }
}

/// The path of an optional stored text.
pub fn stored_path(text: Option<String>) -> (r: Option<VaultPath>)
    ensures
        r == path_of(text),
{
    match text {
        Some(text) => Some(VaultPath { text }),
        None => None,
    }
}

/// Identities of optional stored texts.
pub open spec fn id_of(text: Option<String>) -> Option<Id> {
    match text {
        Some(text) => Some(Id { text }),
        None => None,
    }
}

/// The identity of an optional stored text.
pub fn stored_id(text: Option<String>) -> (r: Option<Id>)
    ensures
        r == id_of(text),
{
    match text {
        Some(text) => Some(Id { text }),
        None => None,
    }
}

/// Failures of domain values and write preconditions.
#[derive(Clone, Copy, Debug, PartialEq, Eq)]
pub enum DomainError {
    /// A stored or computed revision does not fit its range.
    RevisionOutOfRange,
    /// The state named by a write precondition does not hold.
    PreconditionFailed { reason: &'static str },
    /// The caller's revision is not the stored one.
    RevisionConflict { expected: Revision, current: Revision },
}

/// Monotonic optimistic revision.
#[derive(Clone, Copy, Debug, PartialEq, Eq, Structural)]
pub struct Revision {
    pub value: u64,
}

impl Revision {
    /// The revision with the given number.
    pub fn new(value: u64) -> (r: Revision)
        ensures
            r.value == value,
    {
        Revision { value }
    }

    /// Number of the revision.
    pub fn value(self) -> (v: u64)
        ensures
            v == self.value,
    {
        self.value
    }

    /// The revision one above this one, where there is one.
    pub open spec fn successor(self) -> Option<Revision> {
        if self.value < u64::MAX {
            Some(Revision { value: (self.value + 1) as u64 })
        } else {
            None
        }
    }

    /// The next revision.
    pub fn next(self) -> (r: Result<Revision, DomainError>)
        ensures
            self.successor() is Some ==> r == Ok::<Revision, DomainError>(self.successor()->0),
            self.successor() is None ==> r == Err::<Revision, DomainError>(
                DomainError::RevisionOutOfRange,
            ),
    {
        if self.value < u64::MAX {
            Ok(Revision { value: self.value + 1 })
        } else {
            Err(DomainError::RevisionOutOfRange)
        }
    }

    /// Whether the revision fits the signed column that stores it.
    pub open spec fn storable(self) -> bool {
        self.value <= i64::MAX
    }

    /// The stored form of the revision.
    pub fn as_i64(self) -> (r: Result<i64, DomainError>)
        ensures
            self.storable() ==> r == Ok::<i64, DomainError>(self.value as i64),
            !self.storable() ==> r == Err::<i64, DomainError>(DomainError::RevisionOutOfRange),
    {
        if self.value <= i64::MAX as u64 {
            Ok(self.value as i64)
        } else {
            Err(DomainError::RevisionOutOfRange)
        }
    }

    /// The revision of a stored number.
    pub fn from_stored(value: i64) -> (r: Result<Revision, DomainError>)
        ensures
            value >= 0 ==> r == Ok::<Revision, DomainError>(Revision { value: value as u64 }),
            value < 0 ==> r == Err::<Revision, DomainError>(DomainError::RevisionOutOfRange),
    {
        if value >= 0 {
            Ok(Revision { value: value as u64 })
        } else {
            Err(DomainError::RevisionOutOfRange)
        }
    }
}

/// A stored revision reads back as it was written.
pub proof fn law_revision_round_trip(revision: Revision)
    requires
        revision.storable(),
    ensures
        (revision.value as i64) >= 0,
        (Revision { value: (revision.value as i64) as u64 }) == revision,
{
}

/// The next revision is above every earlier one.
pub proof fn law_revision_advances(revision: Revision)
    ensures
        revision.successor() matches Some(next) ==> next.value > revision.value,
{
}

/// Category of the party behind a mutation.
#[derive(Clone, Copy, Debug, PartialEq, Eq, Structural)]
pub enum ActorType {
    Admin,
    WebDavCredential,
    McpPat,
    McpOAuthSubject,
    Reconciler,
    MemoryWorker,
    System,
}

impl ActorType {
    /// Stable database label.
    pub open spec fn label(self) -> Seq<char> {
        match self {
            ActorType::Admin => "admin"@,
            ActorType::WebDavCredential => "webdav_credential"@,
            ActorType::McpPat => "mcp_pat"@,
            ActorType::McpOAuthSubject => "mcp_oauth_subject"@,
            ActorType::Reconciler => "reconciler"@,
            ActorType::MemoryWorker => "memory_worker"@,
            ActorType::System => "system"@,
        }
    }
}

/// Stable database label of an actor category.
pub fn actor_type_label(actor_type: ActorType) -> (label: &'static str)
    ensures
        label@ == actor_type.label(),
{
    match actor_type {
        ActorType::Admin => "admin",
        ActorType::WebDavCredential => "webdav_credential",
        ActorType::McpPat => "mcp_pat",
        ActorType::McpOAuthSubject => "mcp_oauth_subject",
        ActorType::Reconciler => "reconciler",
        ActorType::MemoryWorker => "memory_worker",
        ActorType::System => "system",
    }
}

/// Actor categories have pairwise different labels.
pub proof fn law_actor_labels_differ(a: ActorType, b: ActorType)
    ensures
        a.label() == b.label() ==> a == b,
{
    reveal_strlit("admin");
    reveal_strlit("webdav_credential");
    reveal_strlit("mcp_pat");
    reveal_strlit("mcp_oauth_subject");
    reveal_strlit("reconciler");
    reveal_strlit("memory_worker");
    reveal_strlit("system");
    if a.label() == b.label() {
        assert(a.label().len() == b.label().len());
        assert(a.label()[0] == b.label()[0]);
    }
}

/// The party behind a mutation.
#[derive(Clone, Debug, PartialEq, Eq)]
pub struct Actor {
    pub actor_type: ActorType,
    pub actor_id: Option<Id>,
}

/// The vault that a repository call is bound to.
#[derive(Clone, Debug, PartialEq, Eq)]
pub struct VaultContext {
    pub id: Id,
    pub slug: String,
    /// Directory of the vault's content, where it is valid UTF-8.
    pub content_root: Option<String>,
}

/// A registered vault as stored.
#[derive(Clone, Debug, PartialEq, Eq)]
pub struct VaultRow {
    pub id: String,
    pub slug: String,
    pub content_root: String,
}

impl VaultContext {
    /// Whether a registered row names this very vault.
    pub open spec fn names(&self, row: VaultRow) -> bool {
        &&& row.id@ == self.id@
        &&& row.slug@ == self.slug@
        &&& Some(row.content_root@) == optional_text(self.content_root)
    }

    /// Whether the vault is among the registered rows.
    pub open spec fn registered(&self, rows: Seq<VaultRow>) -> bool {
        exists|i: int| 0 <= i < rows.len() && self.names(#[trigger] rows[i])
    }
}

/// Checks that a call is bound to a registered vault: identity, slug and
/// content directory must all be those of one stored row.
pub fn ensure_context(context: &VaultContext, rows: &[VaultRow]) -> (r: Result<(), StateError>)
    ensures
        context.content_root is None ==> r == invalid::<()>("Vault root must be valid UTF-8"),
        context.content_root is Some && !context.registered(rows@) ==> r == invalid::<()>(
            "Vault context is not registered",
        ),
        context.content_root is Some && context.registered(rows@) ==> r == Ok::<(), StateError>(()),
{
    let root: &String = match &context.content_root {
        Some(root) => root,
        None => return Err(StateError::InvalidInput("Vault root must be valid UTF-8")),
    };
    let mut i: usize = 0;
    while i < rows.len()
        invariant
            i <= rows@.len(),
            context.content_root == Some(*root),
            forall|k: int| 0 <= k < i ==> !context.names(#[trigger] rows@[k]),
        decreases rows@.len() - i,
    {
        let row = &rows[i];
        if text_eq(row.id.as_str(), context.id.as_str()) && text_eq(
            row.slug.as_str(),
            context.slug.as_str(),
        ) && text_eq(row.content_root.as_str(), root.as_str()) {
            assert(context.names(rows@[i as int]));
            return Ok(());
        }
        i += 1;
    }
    Err(StateError::InvalidInput("Vault context is not registered"))
}

/// Checks that a vault with the context's identity is registered.
pub fn ensure_vault(context: &VaultContext, rows: &[VaultRow]) -> (r: Result<(), StateError>)
    ensures
        r == (if exists|i: int| 0 <= i < rows@.len() && #[trigger] rows@[i].id@ == context.id@ {
            Ok::<(), StateError>(())
        } else {
            invalid("Vault is not registered")
        }),
{
    let mut i: usize = 0;
    while i < rows.len()
        invariant
            i <= rows@.len(),
            forall|k: int| 0 <= k < i ==> #[trigger] rows@[k].id@ != context.id@,
        decreases rows@.len() - i,
    {
        if text_eq(rows[i].id.as_str(), context.id.as_str()) {
            assert(rows@[i as int].id@ == context.id@);
            return Ok(());
        }
        i += 1;
    }
    Err(StateError::InvalidInput("Vault is not registered"))
}

} // verus!
