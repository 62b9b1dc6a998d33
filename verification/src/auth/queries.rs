//! Looking up and listing credentials, sessions, issuers and grants.

use vstd::prelude::*;

use crate::auth::{
    validate_issuer_page, AdminSessionRecord, AdminUserRecord, EncryptedSecretRecord,
    McpTokenRecord, OAuthGrantRecord, OAuthIssuerRecord, OAuthIssuerView, WebDavCredentialRecord,
};
use crate::domain::{Id, VaultContext};
use crate::error::{invalid, StateError};
use crate::order::{
    count_before, is_page, is_selection, law_page_is_bounded, names_before, page, select, SortKey,
};
use crate::rows::{each, find, first_index, marks};
use crate::text::{bytes_eq, text_eq};

verus! {

/// The secret with an identity.
pub fn get_secret(secrets: &[EncryptedSecretRecord], id: &Id) -> (r: Option<usize>)
    ensures
        match r {
            Some(i) => i < secrets@.len() && first_index(
                secrets@,
                |secret: EncryptedSecretRecord| secret.id@ == id@,
            ) == Some(i as int),
            None => first_index(secrets@, |secret: EncryptedSecretRecord| secret.id@ == id@) is None,
        },
{
    let accepts = |secret: &EncryptedSecretRecord| -> (yes: bool)
        ensures
            yes == (secret.id@ == id@),
        { secret.id.same(id) };
    find(secrets, accepts, Ghost(|secret: EncryptedSecretRecord| secret.id@ == id@))
}

/// What secrets are listed by: their identity.
pub open spec fn secret_key(secret: EncryptedSecretRecord) -> SortKey {
    SortKey { first: 0, second: 0, third: 0, id: secret.id.text }
}

/// All encrypted secrets in the order of their identities: their positions.
pub fn list_secrets(secrets: &[EncryptedSecretRecord]) -> (picked: Vec<usize>)
    ensures
        is_selection(
            secrets@.map_values(|secret: EncryptedSecretRecord| secret_key(secret)),
            secrets@.map_values(|secret: EncryptedSecretRecord| true),
            secrets@.len(),
            picked@,
        ),
{
    let place = |secret: &EncryptedSecretRecord| -> (key: SortKey)
        ensures
            key == secret_key(*secret),
        { SortKey { first: 0, second: 0, third: 0, id: secret.id.text.clone() } };
    let order_keys = each(
        secrets,
        place,
        Ghost(|secret: EncryptedSecretRecord| secret_key(secret)),
    );
    let accepts = |secret: &EncryptedSecretRecord| -> (yes: bool)
        ensures
            yes,
        { true };
    let eligible = marks(secrets, accepts, Ghost(|secret: EncryptedSecretRecord| true));
    select(order_keys.as_slice(), eligible.as_slice(), secrets.len())
}

/// The admin identity with a login name.
pub fn find_admin_user_by_username(users: &[AdminUserRecord], username: &str) -> (r: Option<usize>)
    ensures
        match r {
            Some(i) => i < users@.len() && first_index(
                users@,
                |user: AdminUserRecord| user.username@ == username@,
            ) == Some(i as int),
            None => first_index(
                users@,
                |user: AdminUserRecord| user.username@ == username@,
            ) is None,
        },
{
    let accepts = |user: &AdminUserRecord| -> (yes: bool)
        ensures
            yes == (user.username@ == username@),
        { text_eq(user.username.as_str(), username) };
    find(users, accepts, Ghost(|user: AdminUserRecord| user.username@ == username@))
}

/// The admin identity with an identifier.
pub fn get_admin_user(users: &[AdminUserRecord], id: &Id) -> (r: Option<usize>)
    ensures
        match r {
            Some(i) => i < users@.len() && first_index(
                users@,
                |row: AdminUserRecord| row.id@ == id@,
            ) == Some(i as int),
            None => first_index(users@, |row: AdminUserRecord| row.id@ == id@) is None,
        },
{
    let accepts = |row: &AdminUserRecord| -> (yes: bool)
        ensures
            yes == (row.id@ == id@),
        { row.id.same(id) };
    find(users, accepts, Ghost(|row: AdminUserRecord| row.id@ == id@))
}

/// The admin session with a token digest.
pub fn find_admin_session(sessions: &[AdminSessionRecord], token_digest: &[u8]) -> (r: Option<usize>)
    ensures
        match r {
            Some(i) => i < sessions@.len() && first_index(
                sessions@,
                |session: AdminSessionRecord| session.token_digest@ == token_digest@,
            ) == Some(i as int),
            None => first_index(
                sessions@,
                |session: AdminSessionRecord| session.token_digest@ == token_digest@,
            ) is None,
        },
{
    let accepts = |session: &AdminSessionRecord| -> (yes: bool)
        ensures
            yes == (session.token_digest@ == token_digest@),
        { bytes_eq(session.token_digest.as_slice(), token_digest) };
    find(
        sessions,
        accepts,
        Ghost(|session: AdminSessionRecord| session.token_digest@ == token_digest@),
    )
}

/// The WebDAV credential of the vault with a login name.
pub fn find_webdav_credential(
    context: &VaultContext,
    records: &[WebDavCredentialRecord],
    username: &str,
) -> (r: Option<usize>)
    ensures
        match r {
            Some(i) => i < records@.len() && first_index(
                records@,
                |record: WebDavCredentialRecord|
                    record.vault_id@ == context.id@ && record.username@ == username@,
            ) == Some(i as int),
            None => first_index(
                records@,
                |record: WebDavCredentialRecord|
                    record.vault_id@ == context.id@ && record.username@ == username@,
            ) is None,
        },
{
    let accepts = |record: &WebDavCredentialRecord| -> (yes: bool)
        ensures
            yes == (record.vault_id@ == context.id@ && record.username@ == username@),
        { record.vault_id.same(&context.id) && text_eq(record.username.as_str(), username) };
    find(
        records,
        accepts,
        Ghost(
            |record: WebDavCredentialRecord|
                record.vault_id@ == context.id@ && record.username@ == username@,
        ),
    )
}

impl McpTokenRecord {
    /// Whether a presented token is this one, in this vault.
    pub open spec fn presented(
        self,
        vault: Seq<char>,
        token_prefix: Seq<char>,
        token_digest: Seq<u8>,
    ) -> bool {
        &&& self.vault_id@ == vault
        &&& self.token_prefix@ == token_prefix
        &&& self.token_digest@ == token_digest
    }
}

/// The access token of the vault with a prefix and a digest.
pub fn find_mcp_token(
    context: &VaultContext,
    records: &[McpTokenRecord],
    token_prefix: &str,
    token_digest: &[u8],
) -> (r: Option<usize>)
    ensures
        match r {
            Some(i) => i < records@.len() && first_index(
                records@,
                |record: McpTokenRecord|
                    record.presented(context.id@, token_prefix@, token_digest@),
            ) == Some(i as int),
            None => first_index(
                records@,
                |record: McpTokenRecord|
                    record.presented(context.id@, token_prefix@, token_digest@),
            ) is None,
        },
{
    let accepts = |record: &McpTokenRecord| -> (yes: bool)
        ensures
            yes == record.presented(context.id@, token_prefix@, token_digest@),
        {
            record.vault_id.same(&context.id) && text_eq(record.token_prefix.as_str(), token_prefix)
                && bytes_eq(record.token_digest.as_slice(), token_digest)
        };
    find(
        records,
        accepts,
        Ghost(
            |record: McpTokenRecord| record.presented(context.id@, token_prefix@, token_digest@),
        ),
    )
}

/// The issuer with an identity.
pub fn get_oauth_issuer(issuers: &[OAuthIssuerRecord], id: &Id) -> (r: Option<usize>)
    ensures
        match r {
            Some(i) => i < issuers@.len() && first_index(
                issuers@,
                |row: OAuthIssuerRecord| row.id@ == id@,
            ) == Some(i as int),
            None => first_index(issuers@, |row: OAuthIssuerRecord| row.id@ == id@) is None,
        },
{
    let accepts = |row: &OAuthIssuerRecord| -> (yes: bool)
        ensures
            yes == (row.id@ == id@),
        { row.id.same(id) };
    find(issuers, accepts, Ghost(|row: OAuthIssuerRecord| row.id@ == id@))
}

/// The issuer with an exact issuer address.
pub fn find_oauth_issuer(issuers: &[OAuthIssuerRecord], issuer_url: &str) -> (r: Option<usize>)
    ensures
        match r {
            Some(i) => i < issuers@.len() && first_index(
                issuers@,
                |issuer: OAuthIssuerRecord| issuer.issuer_url@ == issuer_url@,
            ) == Some(i as int),
            None => first_index(
                issuers@,
                |issuer: OAuthIssuerRecord| issuer.issuer_url@ == issuer_url@,
            ) is None,
        },
{
    let accepts = |issuer: &OAuthIssuerRecord| -> (yes: bool)
        ensures
            yes == (issuer.issuer_url@ == issuer_url@),
        { text_eq(issuer.issuer_url.as_str(), issuer_url) };
    find(issuers, accepts, Ghost(|issuer: OAuthIssuerRecord| issuer.issuer_url@ == issuer_url@))
}

/// Names of issuers, in order.
pub open spec fn issuer_names(issuers: Seq<OAuthIssuerRecord>) -> Seq<String> {
    issuers.map_values(|issuer: OAuthIssuerRecord| issuer.name)
}

/// What issuers are listed by: their name, then their identity.
pub open spec fn issuer_key(names: Seq<String>, issuer: OAuthIssuerRecord) -> SortKey {
    SortKey {
        first: names_before(names, issuer.name@) as i128,
        second: 0,
        third: 0,
        id: issuer.id.text,
    }
}

/// What issuers are listed by, in order.
pub open spec fn issuer_keys(issuers: Seq<OAuthIssuerRecord>) -> Seq<SortKey> {
    issuers.map_values(|issuer: OAuthIssuerRecord| issuer_key(issuer_names(issuers), issuer))
}

/// Every issuer is listed.
pub open spec fn every_issuer(issuers: Seq<OAuthIssuerRecord>) -> Seq<bool> {
    issuers.map_values(|issuer: OAuthIssuerRecord| true)
}

/// List configured issuers by name, without their cached keys.
pub fn list_oauth_issuers(issuers: &[OAuthIssuerRecord], limit: u32) -> (r: Result<
    Vec<OAuthIssuerView>,
    StateError,
>)
    ensures
        if !(1 <= limit <= 1000) {
            r == invalid::<Vec<OAuthIssuerView>>("OAuth issuer page is invalid")
        } else {
            r matches Ok(views) && exists|picked: Seq<usize>|
                {
                    &&& #[trigger] is_page(
                        issuer_keys(issuers@),
                        every_issuer(issuers@),
                        false,
                        limit as nat,
                        0,
                        picked,
                    )
                    &&& views@ == Seq::new(
                        picked.len(),
                        |i: int| issuers@[picked[i] as int].safe_view(),
                    )
                }
        },
{
    match validate_issuer_page(limit) {
        Ok(()) => {},
        Err(error) => return Err(error),
    }
    let name_of = |issuer: &OAuthIssuerRecord| -> (name: String)
        ensures
            name == issuer.name,
        { issuer.name.clone() };
    let names = each(issuers, name_of, Ghost(|issuer: OAuthIssuerRecord| issuer.name));
    let listed = names.as_slice();
    assert(listed@ == issuer_names(issuers@));
    let place = |issuer: &OAuthIssuerRecord| -> (key: SortKey)
        ensures
            key == issuer_key(listed@, *issuer),
        {
            let rank: usize = count_before(listed, issuer.name.as_str());
            SortKey { first: rank as i128, second: 0, third: 0, id: issuer.id.text.clone() }
        };
    let order_keys = each(
        issuers,
        place,
        Ghost(|issuer: OAuthIssuerRecord| issuer_key(listed@, issuer)),
    );
    assert(order_keys@ =~= issuer_keys(issuers@));
    let accepts = |issuer: &OAuthIssuerRecord| -> (yes: bool)
        ensures
            yes,
        { true };
    let eligible = marks(issuers, accepts, Ghost(|issuer: OAuthIssuerRecord| true));
    let picked = page(order_keys.as_slice(), eligible.as_slice(), false, limit, 0);
    proof {
        law_page_is_bounded(
            issuer_keys(issuers@),
            every_issuer(issuers@),
            false,
            limit as nat,
            0,
            picked@,
        );
    }
    let mut views: Vec<OAuthIssuerView> = Vec::new();
    let mut n: usize = 0;
    while n < picked.len()
        invariant
            n <= picked@.len(),
            forall|k: int| 0 <= k < picked@.len() ==> (#[trigger] picked@[k]) < issuers@.len(),
            views@ == Seq::new(n as nat, |k: int| issuers@[picked@[k] as int].safe_view()),
        decreases picked@.len() - n,
    {
        views.push(issuers[picked[n]].redacted());
        n += 1;
        assert(views@ =~= Seq::new(n as nat, |k: int| issuers@[picked@[k] as int].safe_view()));
    }
    Ok(views)
}

impl OAuthGrantRecord {
    /// Whether this is the grant of an issuer's subject in the vault.
    pub open spec fn grants(self, vault: Seq<char>, issuer_id: Seq<char>, subject: Seq<char>) -> bool {
        &&& self.vault_id@ == vault
        &&& self.issuer_id@ == issuer_id
        &&& self.subject@ == subject
    }
}

/// The grant of an issuer's subject in the vault.
pub fn find_oauth_grant(
    context: &VaultContext,
    grants: &[OAuthGrantRecord],
    issuer_id: &Id,
    subject: &str,
) -> (r: Option<usize>)
    ensures
        match r {
            Some(i) => i < grants@.len() && first_index(
                grants@,
                |grant: OAuthGrantRecord| grant.grants(context.id@, issuer_id@, subject@),
            ) == Some(i as int),
            None => first_index(
                grants@,
                |grant: OAuthGrantRecord| grant.grants(context.id@, issuer_id@, subject@),
            ) is None,
        },
{
    let accepts = |grant: &OAuthGrantRecord| -> (yes: bool)
        ensures
            yes == grant.grants(context.id@, issuer_id@, subject@),
        {
            grant.vault_id.same(&context.id) && grant.issuer_id.same(issuer_id) && text_eq(
                grant.subject.as_str(),
                subject,
            )
        };
    find(
        grants,
        accepts,
        Ghost(|grant: OAuthGrantRecord| grant.grants(context.id@, issuer_id@, subject@)),
    )
}

/// A credential is found only in the vault that it is bound to.
pub proof fn law_credentials_stay_in_vault(
    tokens: Seq<McpTokenRecord>,
    vault: Seq<char>,
    token_prefix: Seq<char>,
    token_digest: Seq<u8>,
    i: int,
)
    requires
        first_index(
            tokens,
            |record: McpTokenRecord| record.presented(vault, token_prefix, token_digest),
        ) == Some(i),
    ensures
        0 <= i < tokens.len(),
        tokens[i].vault_id@ == vault,
        forall|other: Seq<char>|
            other != vault ==> !#[trigger] tokens[i].presented(other, token_prefix, token_digest),
{
    crate::rows::lemma_first_index(
        tokens,
        |record: McpTokenRecord| record.presented(vault, token_prefix, token_digest),
    );
}

} // verus!
