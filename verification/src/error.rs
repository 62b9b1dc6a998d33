//! Typed errors and non-sensitive diagnostics.

use vstd::prelude::*;

use crate::domain::DomainError;
use crate::text::chars_of;

verus! {

/// A driver error of the database crate. Opaque: only its variant, its code
/// and the constraint that it names are ever looked at.
#[verifier::external_type_specification]
#[verifier::external_body]
pub struct ExDriverError(sqlx::Error);

/// Which failure a driver error reports.
#[derive(Clone, Copy, Debug, PartialEq, Eq, Structural)]
pub enum DatabaseFaultKind {
    /// The database itself refused the statement.
    Database,
    /// No connection became free in time.
    PoolTimedOut,
    /// The pool is closed.
    PoolClosed,
    /// A row that must exist was not found.
    RowNotFound,
    /// A stored value could not be decoded.
    Decode,
    /// Anything else.
    Other,
}

/// What is kept of a driver error.
#[derive(Clone, Debug, PartialEq, Eq)]
pub struct DatabaseFault {
    pub kind: DatabaseFaultKind,
    /// Result code reported by the database.
    pub code: Option<String>,
    pub unique_violation: bool,
    pub foreign_key_violation: bool,
    pub check_violation: bool,
}

/// Failures of applied migrations.
#[derive(Clone, Copy, Debug, PartialEq, Eq, Structural)]
pub enum MigrationFault {
    /// An applied migration differs from the embedded one.
    VersionMismatch(i64),
    /// The migration run failed.
    Failed,
}

/// Errors raised by the operational state boundary.
#[derive(Clone, Debug, PartialEq, Eq)]
pub enum StateError {
    /// The database failed internally.
    Database(DatabaseFault),
    /// An embedded migration failed or an applied migration was modified.
    Migration(MigrationFault),
    /// A stored value could not be converted into a domain value.
    InvalidDomain(DomainError),
    /// JSON could not be serialized or validated.
    Json,
    /// A caller supplied an invalid operational value.
    InvalidInput(&'static str),
    /// Compared operational input changed before a multi-step commit.
    Conflict,
    /// The connection URL or options could not be parsed.
    Connection(String),
    /// Operational state directory preparation failed.
    Filesystem(String),
    /// The database reported an integrity violation.
    IntegrityFailure,
    /// A deterministic test commit hook stopped a metadata phase.
    CommitHook(&'static str),
}

/// Refusal of an invalid operational value.
pub open spec fn invalid<T>(reason: &'static str) -> Result<T, StateError> {
    Err(StateError::InvalidInput(reason))
}

/// Success where a condition holds, refusal with the given reason elsewhere.
pub open spec fn accepted_if(condition: bool, reason: &'static str) -> Result<(), StateError> {
    if condition {
        Ok(())
    } else {
        invalid(reason)
    }
}

/// Refusal of a row that must be the only one of its kind.
pub open spec fn duplicate_row() -> StateError {
    StateError::Database(
        DatabaseFault {
            kind: DatabaseFaultKind::Database,
            code: None,
            unique_violation: true,
            foreign_key_violation: false,
            check_violation: false,
        },
    )
}

/// Refusal of a row that must be the only one of its kind.
pub fn refuse_duplicate() -> (r: StateError)
    ensures
        r == duplicate_row(),
{
    StateError::Database(
        DatabaseFault {
            kind: DatabaseFaultKind::Database,
            code: None,
            unique_violation: true,
            foreign_key_violation: false,
            check_violation: false,
        },
    )
}

/// The variant of a driver error, told apart arm by arm. Nothing is claimed of
/// which variant comes back.
#[verifier::external_body]
fn fault_kind(error: &sqlx::Error) -> (kind: DatabaseFaultKind) {
    match error {
        sqlx::Error::Database(_) => DatabaseFaultKind::Database,
        sqlx::Error::PoolTimedOut => DatabaseFaultKind::PoolTimedOut,
        sqlx::Error::PoolClosed => DatabaseFaultKind::PoolClosed,
        sqlx::Error::RowNotFound => DatabaseFaultKind::RowNotFound,
        sqlx::Error::ColumnDecode { .. } => DatabaseFaultKind::Decode,
        sqlx::Error::Decode(_) => DatabaseFaultKind::Decode,
        _ => DatabaseFaultKind::Other,
    }
}

/// `DatabaseError::code` of the database error inside a driver error. Nothing
/// is claimed of the code.
#[verifier::external_body]
fn fault_code(error: &sqlx::Error) -> (code: Option<String>) {
    error.as_database_error().and_then(|error| error.code()).map(|code| code.into_owned())
}

/// `DatabaseError::is_unique_violation` of the database error inside a driver
/// error. Nothing is claimed of the answer.
#[verifier::external_body]
fn fault_unique(error: &sqlx::Error) -> (r: bool) {
    error.as_database_error().is_some_and(|error| error.is_unique_violation())
}

/// `DatabaseError::is_foreign_key_violation` of the database error inside a
/// driver error. Nothing is claimed of the answer.
#[verifier::external_body]
fn fault_foreign_key(error: &sqlx::Error) -> (r: bool) {
    error.as_database_error().is_some_and(|error| error.is_foreign_key_violation())
}

/// `DatabaseError::is_check_violation` of the database error inside a driver
/// error. Nothing is claimed of the answer.
#[verifier::external_body]
fn fault_check(error: &sqlx::Error) -> (r: bool) {
    error.as_database_error().is_some_and(|error| error.is_check_violation())
}

/// What is kept of a driver error for given answers of the database crate: the
/// code and the violated constraint only where the database itself failed.
pub open spec fn kept_fault(
    kind: DatabaseFaultKind,
    code: Option<String>,
    unique_violation: bool,
    foreign_key_violation: bool,
    check_violation: bool,
) -> DatabaseFault {
    match kind {
        DatabaseFaultKind::Database => DatabaseFault {
            kind,
            code,
            unique_violation,
            foreign_key_violation,
            check_violation,
        },
        _ => DatabaseFault {
            kind,
            code: None,
            unique_violation: false,
            foreign_key_violation: false,
            check_violation: false,
        },
    }
}

/// Keeps of the database crate's answers what diagnostics may use.
pub fn keep_fault(
    kind: DatabaseFaultKind,
    code: Option<String>,
    unique_violation: bool,
    foreign_key_violation: bool,
    check_violation: bool,
) -> (fault: DatabaseFault)
    ensures
        fault == kept_fault(
            kind,
            code,
            unique_violation,
            foreign_key_violation,
            check_violation,
        ),
{
    match kind {
        DatabaseFaultKind::Database => DatabaseFault {
            kind,
            code,
            unique_violation,
            foreign_key_violation,
            check_violation,
        },
        _ => DatabaseFault {
            kind,
            code: None,
            unique_violation: false,
            foreign_key_violation: false,
            check_violation: false,
        },
    }
}

/// Whether the database crate may answer in this way about a driver error: its
/// variant, the database's code, and whether a unique, a foreign-key or a check
/// constraint was violated.
pub closed spec fn reported(
    error: &sqlx::Error,
    kind: DatabaseFaultKind,
    code: Option<String>,
    unique_violation: bool,
    foreign_key_violation: bool,
    check_violation: bool,
) -> bool {
    &&& call_ensures(fault_kind, (error,), kind)
    &&& call_ensures(fault_code, (error,), code)
    &&& call_ensures(fault_unique, (error,), unique_violation)
    &&& call_ensures(fault_foreign_key, (error,), foreign_key_violation)
    &&& call_ensures(fault_check, (error,), check_violation)
}

/// Puts a question about a driver error; what comes back is one of its answers.
fn ask<T, F: Fn(&sqlx::Error) -> T>(question: F, error: &sqlx::Error) -> (answer: T)
    requires
        question.requires((error,)),
    ensures
        question.ensures((error,), answer),
{
    question(error)
}

/// Keeps of a driver error what diagnostics may use: what the database crate
/// answers about it.
pub fn database_fault(error: &sqlx::Error) -> (fault: DatabaseFault)
    ensures
        exists|
            kind: DatabaseFaultKind,
            code: Option<String>,
            unique_violation: bool,
            foreign_key_violation: bool,
            check_violation: bool,
        |
            {
                &&& #[trigger] reported(
                    error,
                    kind,
                    code,
                    unique_violation,
                    foreign_key_violation,
                    check_violation,
                )
                &&& fault == kept_fault(
                    kind,
                    code,
                    unique_violation,
                    foreign_key_violation,
                    check_violation,
                )
            },
{
    let kind = ask(fault_kind, error);
    let code = ask(fault_code, error);
    let unique_violation = ask(fault_unique, error);
    let foreign_key_violation = ask(fault_foreign_key, error);
    let check_violation = ask(fault_check, error);
    assert(reported(
        error,
        kind,
        code,
        unique_violation,
        foreign_key_violation,
        check_violation,
    ));
    keep_fault(kind, code, unique_violation, foreign_key_violation, check_violation)
}

/// Value of a run of decimal digits.
pub open spec fn digits_value(digits: Seq<char>) -> Option<nat>
    decreases digits.len(),
{
    if digits.len() == 0 {
        Some(0)
    } else if '0' <= digits.last() <= '9' {
        match digits_value(digits.drop_last()) {
            Some(rest) => Some((rest * 10 + (digits.last() as u32 - 48)) as nat),
            None => None,
        }
    } else {
        None
    }
}

/// The number that a text denotes: an optional plus sign and at least one
/// decimal digit, within thirty-two bits.
pub open spec fn parsed_u32(text: Seq<char>) -> Option<u32> {
    let digits = if text.len() > 0 && text[0] == '+' {
        text.skip(1)
    } else {
        text
    };
    match digits_value(digits) {
        Some(value) => if digits.len() > 0 && value <= u32::MAX {
            Some(value as u32)
        } else {
            None
        },
        None => None,
    }
}

proof fn lemma_digits_prefix(digits: Seq<char>, n: int)
    requires
        0 <= n <= digits.len(),
        digits_value(digits) is Some,
    ensures
        digits_value(digits.take(n)) is Some,
        digits_value(digits.take(n))->0 <= digits_value(digits)->0,
    decreases digits.len(),
{
    if n == digits.len() {
        assert(digits.take(n) =~= digits);
    } else {
        lemma_digits_prefix(digits.drop_last(), n);
        assert(digits.drop_last().take(n) =~= digits.take(n));
    }
}

/// Parses a decimal number of thirty-two bits.
pub fn parse_u32(text: &str) -> (r: Option<u32>)
    ensures
        r == parsed_u32(text@),
{
    let chars = chars_of(text);
    let start: usize = if chars.len() > 0 && chars[0] == '+' {
        1
    } else {
        0
    };
    let ghost digits = if text@.len() > 0 && text@[0] == '+' {
        text@.skip(1)
    } else {
        text@
    };
    assert(digits =~= chars@.skip(start as int));
    if start == chars.len() {
        return None;
    }
    let mut value: u32 = 0;
    let mut i: usize = start;
    assert(digits.take(0) =~= Seq::<char>::empty());
    while i < chars.len()
        invariant
            start <= i <= chars@.len(),
            digits == chars@.skip(start as int),
            digits_value(digits.take(i - start)) == Some(value as nat),
            parsed_u32(text@) == match digits_value(digits) {
                Some(value) => if digits.len() > 0 && value <= u32::MAX {
                    Some(value as u32)
                } else {
                    None
                },
                None => None,
            },
        decreases chars@.len() - i,
    {
        let ghost next = digits.take(i - start + 1);
        assert(next.drop_last() =~= digits.take(i - start));
        assert(next.last() == chars@[i as int]);
        let c = chars[i];
        if !('0' <= c && c <= '9') {
            proof {
                if digits_value(digits) is Some {
                    lemma_digits_prefix(digits, i - start + 1);
                }
            }
            return None;
        }
        let digit: u32 = c as u32 - 48;
        let wide: u64 = value as u64 * 10 + digit as u64;
        assert(digits_value(next) == Some(wide as nat));
        if wide > u32::MAX as u64 {
            proof {
                if digits_value(digits) is Some {
                    lemma_digits_prefix(digits, i - start + 1);
                }
            }
            return None;
        }
        value = wide as u32;
        i += 1;
    }
    assert(digits.take(digits.len() as int) =~= digits);
    Some(value)
}

impl DatabaseFault {
    /// Low byte of the reported result code.
    pub open spec fn primary(self) -> Option<int> {
        match self.code {
            Some(code) => match parsed_u32(code@) {
                Some(code) => Some(code as int % 256),
                None => None,
            },
            None => None,
        }
    }

    /// Safe code of the fault: contention first, then violated constraints,
    /// then the remaining result codes.
    pub open spec fn diagnosis(self) -> Seq<char> {
        match self.kind {
            DatabaseFaultKind::Database => {
                if self.primary() == Some(5int) || self.primary() == Some(6int) {
                    "state_database_busy"@
                } else if self.unique_violation {
                    "state_database_unique_violation"@
                } else if self.foreign_key_violation {
                    "state_database_foreign_key_violation"@
                } else if self.check_violation {
                    "state_database_check_violation"@
                } else if self.primary() == Some(13int) {
                    "state_database_full"@
                } else if self.primary() == Some(8int) {
                    "state_database_read_only"@
                } else {
                    "state_database_error"@
                }
            },
            DatabaseFaultKind::PoolTimedOut => "state_pool_timeout"@,
            DatabaseFaultKind::PoolClosed => "state_pool_closed"@,
            DatabaseFaultKind::RowNotFound => "state_row_missing"@,
            DatabaseFaultKind::Decode => "state_value_decode_error"@,
            DatabaseFaultKind::Other => "state_database_error"@,
        }
    }

    /// Safe code of the fault.
    pub fn diagnostic_code(&self) -> (code: &'static str)
        ensures
            code@ == self.diagnosis(),
    {
        match self.kind {
            DatabaseFaultKind::Database => {
                let parsed: Option<u32> = match &self.code {
                    Some(code) => parse_u32(code.as_str()),
                    None => None,
                };
                let primary: Option<u32> = match parsed {
                    Some(code) => Some(code % 256),
                    None => None,
                };
                match primary {
                    Some(5) => return "state_database_busy",
                    Some(6) => return "state_database_busy",
                    _ => {},
                }
                if self.unique_violation {
                    return "state_database_unique_violation";
                }
                if self.foreign_key_violation {
                    return "state_database_foreign_key_violation";
                }
                if self.check_violation {
                    return "state_database_check_violation";
                }
                match primary {
                    Some(13) => "state_database_full",
                    Some(8) => "state_database_read_only",
                    _ => "state_database_error",
                }
            },
            DatabaseFaultKind::PoolTimedOut => "state_pool_timeout",
            DatabaseFaultKind::PoolClosed => "state_pool_closed",
            DatabaseFaultKind::RowNotFound => "state_row_missing",
            DatabaseFaultKind::Decode => "state_value_decode_error",
            DatabaseFaultKind::Other => "state_database_error",
        }
    }
}

impl StateError {
    /// Safe code of the error.
    pub open spec fn diagnosis(self) -> Seq<char> {
        match self {
            StateError::Database(fault) => fault.diagnosis(),
            StateError::Conflict => "state_revision_conflict"@,
            StateError::InvalidInput(_) => "state_invalid_input"@,
            StateError::InvalidDomain(_) => "state_invalid_domain"@,
            StateError::Json => "state_json_invalid"@,
            StateError::Migration(_) => "state_migration_error"@,
            StateError::Connection(_) => "state_connection_error"@,
            StateError::Filesystem(_) => "state_filesystem_error"@,
            StateError::IntegrityFailure => "state_integrity_error"@,
            StateError::CommitHook(_) => "state_commit_interrupted"@,
        }
    }

    /// Classify failures without returning driver messages, SQL, stored values,
    /// connection strings or filesystem paths.
    pub fn diagnostic_code(&self) -> (code: &'static str)
        ensures
            code@ == self.diagnosis(),
    {
        match self {
            StateError::Database(fault) => fault.diagnostic_code(),
            StateError::Conflict => "state_revision_conflict",
            StateError::InvalidInput(_) => "state_invalid_input",
            StateError::InvalidDomain(_) => "state_invalid_domain",
            StateError::Json => "state_json_invalid",
            StateError::Migration(_) => "state_migration_error",
            StateError::Connection(_) => "state_connection_error",
            StateError::Filesystem(_) => "state_filesystem_error",
            StateError::IntegrityFailure => "state_integrity_error",
            StateError::CommitHook(_) => "state_commit_interrupted",
        }
    }
}

/// Whether two errors are of the same kind: the same variant and, for an error
/// of the database, the same fault, result code and violated constraints.
pub open spec fn same_kind(a: StateError, b: StateError) -> bool {
    match (a, b) {
        (StateError::Database(x), StateError::Database(y)) => x.kind == y.kind && x.primary()
            == y.primary() && x.unique_violation == y.unique_violation && x.foreign_key_violation
            == y.foreign_key_violation && x.check_violation == y.check_violation,
        (StateError::Migration(_), StateError::Migration(_)) => true,
        (StateError::InvalidDomain(_), StateError::InvalidDomain(_)) => true,
        (StateError::Json, StateError::Json) => true,
        (StateError::InvalidInput(_), StateError::InvalidInput(_)) => true,
        (StateError::Conflict, StateError::Conflict) => true,
        (StateError::Connection(_), StateError::Connection(_)) => true,
        (StateError::Filesystem(_), StateError::Filesystem(_)) => true,
        (StateError::IntegrityFailure, StateError::IntegrityFailure) => true,
        (StateError::CommitHook(_), StateError::CommitHook(_)) => true,
        _ => false,
    }
}

/// The diagnostic code depends on the kind of an error alone, never on text
/// that it carries: reasons, stored values, paths and connection strings cannot
/// leak through it.
pub proof fn law_diagnosis_hides_text(a: StateError, b: StateError)
    requires
        same_kind(a, b),
    ensures
        a.diagnosis() == b.diagnosis(),
{
}

/// Non-sensitive database integrity information for readiness checks.
#[derive(Clone, Copy, Debug, PartialEq, Eq, Structural)]
pub struct IntegrityReport {
    /// The integrity check answered exactly ok.
    pub integrity_ok: bool,
    /// Number of rows reported by foreign-key checking.
    pub foreign_key_violations: u64,
    /// Highest successfully applied migration version.
    pub migration_version: i64,
}

} // verus!
