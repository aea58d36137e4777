//! The credential vault as the use cases see it: an interface that the storage
//! layer implements, the application errors, and the lock, unlock and
//! migrate use cases.

use vstd::prelude::*;
use crate::text::{owned, push_str, str_eq};

verus! {

/// The errors a use case reports to the HTTP layer.
pub enum AppError {
    /// The request was malformed or named something unknown.
    Validation(String),
    /// The caller is not allowed to do this.
    Unauthorized(String),
    /// The vault must be unlocked first.
    VaultLocked,
    /// Something failed inside the server.
    Internal(String),
}

/// An application error as plain values.
pub enum AppErrorView {
    Validation(Seq<char>),
    Unauthorized(Seq<char>),
    VaultLocked,
    Internal(Seq<char>),
}

impl View for AppError {
    type V = AppErrorView;

    open spec fn view(&self) -> AppErrorView {
        match self {
            AppError::Validation(m) => AppErrorView::Validation(m@),
            AppError::Unauthorized(m) => AppErrorView::Unauthorized(m@),
            AppError::VaultLocked => AppErrorView::VaultLocked,
            AppError::Internal(m) => AppErrorView::Internal(m@),
        }
    }
}

/// The interface through which use cases reach the encrypted credential store.
/// The storage layer implements it.
pub trait VaultRepository {
    /// What the vault reports about itself.
    type Status;

    /// Whether the vault is locked.
    spec fn locked(&self) -> bool;

    /// The key and base address stored for `provider_id`, if any.
    spec fn stored_key(&self, provider_id: &str) -> Option<(String, String)>;

    /// What the vault, as it stands, answers to an unlock with `passphrase`.
    spec fn unlock_reply(&self, passphrase: &str) -> Result<bool, String>;

    /// The status report of the vault as it stands.
    spec fn report(&self) -> Self::Status;

    /// Tells whether the vault is locked.
    fn is_locked(&self) -> (r: bool)
        ensures
            r == self.locked(),
    ;

    /// Locks the vault; its stored keys stay as they were.
    fn lock(&mut self)
        ensures
            final(self).locked(),
            forall|p: &str| #[trigger] final(self).stored_key(p) == old(self).stored_key(p),
    ;

    /// Tries to unlock the vault with `passphrase`; the answer is the one
    /// the vault gives that passphrase, and a success leaves it open.
    fn unlock(&mut self, passphrase: &str) -> (r: Result<bool, String>)
        ensures
            r == old(self).unlock_reply(passphrase),
            r == Ok::<bool, String>(true) ==> !final(self).locked(),
    ;

    /// The vault's status report.
    fn status(&mut self) -> (r: Self::Status)
        ensures
            r == final(self).report(),
    ;

    /// The providers that have a stored key.
    fn list_keys(&self) -> Vec<String>;

    /// The stored key of a provider.
    fn get_key(&self, provider_id: &str) -> Option<String>;

    /// Stores the key (and base address) of a provider; on success that
    /// provider's entry is replaced and every other entry stays.
    fn set_key(&mut self, provider_id: &str, api_key: &str, base_url: &str) -> (r: Result<(), String>)
        ensures
            r is Ok ==> (final(self).stored_key(provider_id) matches Some((k, b)) && k@ == api_key@ && b@ == base_url@),
            r is Ok ==> forall|p: &str| p@ != provider_id@ ==> #[trigger] final(self).stored_key(p) == old(self).stored_key(p),
    ;

    /// Removes the key of a provider.
    fn delete_key(&mut self, provider_id: &str) -> Result<(), String>;

    /// Moves keys found in the environment into the vault, returning the
    /// providers moved.
    fn migrate_from_env(&mut self) -> Result<Vec<String>, String>;

    /// Sets the idle time after which the vault locks itself.
    fn set_auto_lock(&mut self, minutes: u64);
}

/// The string `prefix` followed by `rest`.
pub fn concat(prefix: &str, rest: &str) -> (r: String)
    ensures
        r@ == prefix@ + rest@,
{
    let mut r = owned(prefix);
    push_str(&mut r, rest);
    r
}

/// The error reported for a failed unlock: a wrong passphrase is refused as
/// unauthorized, any other failure as invalid, both with the message
/// `Unlock failed: ` and the reason; an unlock that reports no success and
/// no failure is an internal error.
pub open spec fn unlock_failure(reply: Result<bool, String>) -> Option<AppErrorView> {
    match reply {
        Ok(true) => None,
        Ok(false) => Some(AppErrorView::Internal("Unknown unlock error"@)),
        Err(e) => if e@ == "wrong_passphrase"@ {
            Some(AppErrorView::Unauthorized("Unlock failed: "@ + e@))
        } else {
            Some(AppErrorView::Validation("Unlock failed: "@ + e@))
        },
    }
}

/// Judges what the vault answered to an unlock request.
pub fn judge_unlock(reply: Result<bool, String>) -> (r: Result<(), AppError>)
    ensures
        match unlock_failure(reply) {
            None => r is Ok,
            Some(e) => r matches Err(x) && x@ == e,
        },
{
    match reply {
        Ok(true) => Ok(()),
        Ok(false) => Err(AppError::Internal(owned("Unknown unlock error"))),
        Err(e) => {
            if str_eq(e.as_str(), "wrong_passphrase") {
                Err(AppError::Unauthorized(concat("Unlock failed: ", e.as_str())))
            } else {
                Err(AppError::Validation(concat("Unlock failed: ", e.as_str())))
            }
        },
    }
}

/// Unlocks the vault.
pub struct UnlockUseCase;

impl UnlockUseCase {
    pub fn new() -> (r: Self) {
        UnlockUseCase
    }

    /// Unlocks `vault` with `passphrase` and returns its status report, or
    /// the error that `judge_unlock` gives for the vault's answer to that
    /// passphrase.
    pub fn execute<V: VaultRepository>(&self, vault: &mut V, passphrase: &str) -> (r: Result<V::Status, AppError>)
        ensures
            match unlock_failure(old(vault).unlock_reply(passphrase)) {
                None => r matches Ok(s) && s == final(vault).report(),
                Some(e) => r matches Err(x) && x@ == e,
            },
    {
        let reply = vault.unlock(passphrase);
        match judge_unlock(reply) {
            Ok(()) => {
                let s = vault.status();
                Ok(s)
            },
            Err(e) => Err(e),
        }
    }
}

/// Locks the vault.
pub struct LockUseCase;

impl LockUseCase {
    pub fn new() -> (r: Self) {
        LockUseCase
    }

    /// Locks `vault`, leaving its stored keys as they were.
    pub fn execute<V: VaultRepository>(&self, vault: &mut V)
        ensures
            final(vault).locked(),
            forall|p: &str| #[trigger] final(vault).stored_key(p) == old(vault).stored_key(p),
    {
        vault.lock();
    }
}

/// Judges what the vault answered to a migration: the providers moved, or
/// an internal error `Migration failed: ` with the reason.
pub fn judge_migration(reply: Result<Vec<String>, String>) -> (r: Result<Vec<String>, AppError>)
    ensures
        match reply {
            Ok(moved) => r == Ok::<Vec<String>, AppError>(moved),
            Err(m) => r matches Err(e) && e@ == AppErrorView::Internal("Migration failed: "@ + m@),
        },
{
    match reply {
        Ok(moved) => Ok(moved),
        Err(e) => {
            let r = concat("Migration failed: ", e.as_str());
            assert(AppError::Internal(r)@ == AppErrorView::Internal("Migration failed: "@ + e@));
            Err(AppError::Internal(r))
        },
    }
}

/// Moves keys from the environment into the vault.
pub struct MigrateUseCase;

impl MigrateUseCase {
    pub fn new() -> (r: Self) {
        MigrateUseCase
    }

    /// Moves the keys found in the environment into `vault` and returns the
    /// providers moved. A locked vault is refused; a failed move is an
    /// internal error with the message `Migration failed: ` and the reason.
    pub fn execute<V: VaultRepository>(&self, vault: &mut V) -> (r: Result<Vec<String>, AppError>)
        ensures
            old(vault).locked() ==> r matches Err(AppError::VaultLocked),
            !old(vault).locked() ==> (r matches Err(e) ==> exists|m: Seq<char>| e@ == AppErrorView::Internal("Migration failed: "@ + m)),
    {
        if vault.is_locked() {
            return Err(AppError::VaultLocked);
        }
        judge_migration(vault.migrate_from_env())
    }
}

/// A request to unlock the vault.
pub struct UnlockBody {
    pub passphrase: Option<String>,
}

/// A request to store a provider's key in the vault.
pub struct VaultKeyBody {
    pub provider_id: String,
    pub api_key: String,
    pub base_url: Option<String>,
}

/// A request to change the vault's idle lock time.
pub struct AutoLockBody {
    pub minutes: Option<u64>,
}

/// The passphrase an unlock request carries, empty when it carries none.
pub fn unlock_passphrase(body: UnlockBody) -> (r: String)
    ensures
        r@ == match body.passphrase {
            Some(p) => p@,
            None => Seq::<char>::empty(),
        },
{
    match body.passphrase {
        Some(p) => p,
        None => String::new(),
    }
}

/// The idle minutes after which the vault locks itself, fifteen when the
/// request names none.
pub fn auto_lock_minutes(body: &AutoLockBody) -> (r: u64)
    ensures
        r == match body.minutes {
            Some(m) => m,
            None => 15,
        },
{
    match body.minutes {
        Some(m) => m,
        None => 15,
    }
}

} // verus!
