//! The status codes of the C boundary, and the message that goes with one.
use vstd::prelude::*;

verus! {

pub const INFRASTORE_OK: i32 = 0;

pub const INFRASTORE_ERR_NULL_POINTER: i32 = 1;

pub const INFRASTORE_ERR_INVALID_UTF8: i32 = 2;

pub const INFRASTORE_ERR_INVALID_PARAMETER: i32 = 3;

pub const INFRASTORE_ERR_NOT_FOUND: i32 = 4;

pub const INFRASTORE_ERR_DUPLICATE: i32 = 5;

pub const INFRASTORE_ERR_INTEGRITY: i32 = 6;

pub const INFRASTORE_ERR_READ_ONLY: i32 = 7;

pub const INFRASTORE_ERR_IO: i32 = 8;

/// The store on disk is in a format this build does not read.
pub const INFRASTORE_ERR_INCOMPATIBLE_FORMAT: i32 = 9;

/// The endpoint pair of an association is associated already.
pub const INFRASTORE_ERR_DUPLICATE_ASSOCIATION: i32 = 10;

/// A store already exists where one was about to be created.
pub const INFRASTORE_ERR_STORE_EXISTS: i32 = 11;

/// The array file and its catalog are halves of two different saves.
pub const INFRASTORE_ERR_MISMATCHED_ARTIFACT: i32 = 12;

/// A caller supplied an association id that is in use already.
pub const INFRASTORE_ERR_DUPLICATE_ASSOCIATION_ID: i32 = 13;

/// The addressed row belongs to another owner than the caller expected.
pub const INFRASTORE_ERR_OWNER_MISMATCH: i32 = 14;

/// The catalog is older than this build, and the store was opened read-only.
pub const INFRASTORE_ERR_CATALOG_MIGRATION_REQUIRED: i32 = 15;

/// The catalog is newer than this build.
pub const INFRASTORE_ERR_CATALOG_TOO_NEW: i32 = 16;

pub const INFRASTORE_ERR_INTERNAL: i32 = 99;

/// The kinds of error the store reports.
#[derive(Clone, Copy, Debug, PartialEq, Eq, Structural)]
pub enum StoreError {
    NotFound,
    DuplicateTimeSeries,
    DuplicateAssociation,
    DuplicateAssociationId,
    InvalidParameter,
    IntegrityError,
    ReadOnlyStore,
    Io,
    IncompatibleFormat,
    StoreExists,
    MismatchedArtifact,
    OwnerMismatch,
    CatalogMigrationRequired,
    CatalogTooNew,
    /// Anything the boundary has no code of its own for.
    Other,
}

/// The code a kind of error is reported as.
pub open spec fn code_of(kind: StoreError) -> i32 {
    match kind {
        StoreError::NotFound => INFRASTORE_ERR_NOT_FOUND,
        StoreError::DuplicateTimeSeries => INFRASTORE_ERR_DUPLICATE,
        StoreError::DuplicateAssociation => INFRASTORE_ERR_DUPLICATE_ASSOCIATION,
        StoreError::DuplicateAssociationId => INFRASTORE_ERR_DUPLICATE_ASSOCIATION_ID,
        StoreError::InvalidParameter => INFRASTORE_ERR_INVALID_PARAMETER,
        StoreError::IntegrityError => INFRASTORE_ERR_INTEGRITY,
        StoreError::ReadOnlyStore => INFRASTORE_ERR_READ_ONLY,
        StoreError::Io => INFRASTORE_ERR_IO,
        StoreError::IncompatibleFormat => INFRASTORE_ERR_INCOMPATIBLE_FORMAT,
        StoreError::StoreExists => INFRASTORE_ERR_STORE_EXISTS,
        StoreError::MismatchedArtifact => INFRASTORE_ERR_MISMATCHED_ARTIFACT,
        StoreError::OwnerMismatch => INFRASTORE_ERR_OWNER_MISMATCH,
        StoreError::CatalogMigrationRequired => INFRASTORE_ERR_CATALOG_MIGRATION_REQUIRED,
        StoreError::CatalogTooNew => INFRASTORE_ERR_CATALOG_TOO_NEW,
        StoreError::Other => INFRASTORE_ERR_INTERNAL,
    }
}

/// Every kind of error has a code of its own, and none of them is success.
pub proof fn codes_are_distinct(a: StoreError, b: StoreError)
    ensures
        code_of(a) != INFRASTORE_OK,
        code_of(a) == code_of(b) ==> a == b,
{
}

/// Why a call did not succeed: the code it returns, and the message it leaves, if it leaves
/// one.
#[derive(Debug)]
pub struct Failure {
    pub code: i32,
    pub message: Option<String>,
}

/// A [`Failure`], with its message as characters.
pub struct FailureView {
    pub code: i32,
    pub message: Option<Seq<char>>,
}

impl View for Failure {
    type V = FailureView;

    open spec fn view(&self) -> FailureView {
        FailureView {
            code: self.code,
            message: match self.message {
                None => None,
                Some(text) => Some(text@),
            },
        }
    }
}

/// A failure that leaves a message.
pub open spec fn said(code: i32, message: Seq<char>) -> FailureView {
    FailureView { code, message: Some(message) }
}

/// A failure that leaves no message.
pub open spec fn unsaid(code: i32) -> FailureView {
    FailureView { code, message: None }
}

/// Checks made one after the other: the first that fails decides.
pub trait Checks: Sized {
    /// This check, and the next where this one finds nothing.
    spec fn or_next(self, next: Self) -> Self;
}

impl Checks for Option<FailureView> {
    open spec fn or_next(self, next: Option<FailureView>) -> Option<FailureView> {
        if self is Some {
            self
        } else {
            next
        }
    }
}

/// The failure of a result, if it is one.
pub open spec fn fault_of<T>(r: Result<T, FailureView>) -> Option<FailureView> {
    match r {
        Ok(_) => None,
        Err(f) => Some(f),
    }
}

/// A failure that leaves a message.
pub fn fail(code: i32, message: String) -> (r: Failure)
    ensures
        r@ == said(code, message@),
{
    Failure { code, message: Some(message) }
}

/// A failure that leaves no message.
pub fn fail_unsaid(code: i32) -> (r: Failure)
    ensures
        r@ == unsaid(code),
{
    Failure { code, message: None }
}

/// The failure an error of the store is reported as: its code, and its own words.
pub fn map_core_error(kind: StoreError, message: String) -> (r: Failure)
    ensures
        r@ == said(code_of(kind), message@),
{
    let code: i32 = match kind {
        StoreError::NotFound => INFRASTORE_ERR_NOT_FOUND,
        StoreError::DuplicateTimeSeries => INFRASTORE_ERR_DUPLICATE,
        StoreError::DuplicateAssociation => INFRASTORE_ERR_DUPLICATE_ASSOCIATION,
        StoreError::DuplicateAssociationId => INFRASTORE_ERR_DUPLICATE_ASSOCIATION_ID,
        StoreError::InvalidParameter => INFRASTORE_ERR_INVALID_PARAMETER,
        StoreError::IntegrityError => INFRASTORE_ERR_INTEGRITY,
        StoreError::ReadOnlyStore => INFRASTORE_ERR_READ_ONLY,
        StoreError::Io => INFRASTORE_ERR_IO,
        StoreError::IncompatibleFormat => INFRASTORE_ERR_INCOMPATIBLE_FORMAT,
        StoreError::StoreExists => INFRASTORE_ERR_STORE_EXISTS,
        StoreError::MismatchedArtifact => INFRASTORE_ERR_MISMATCHED_ARTIFACT,
        StoreError::OwnerMismatch => INFRASTORE_ERR_OWNER_MISMATCH,
        StoreError::CatalogMigrationRequired => INFRASTORE_ERR_CATALOG_MIGRATION_REQUIRED,
        StoreError::CatalogTooNew => INFRASTORE_ERR_CATALOG_TOO_NEW,
        StoreError::Other => INFRASTORE_ERR_INTERNAL,
    };
    fail(code, message)
}

/// The message of the last call that failed on a thread.
#[derive(Debug)]
pub struct LastError {
    pub message: Option<String>,
}

impl View for LastError {
    type V = Option<Seq<char>>;

    open spec fn view(&self) -> Option<Seq<char>> {
        match self.message {
            None => None,
            Some(text) => Some(text@),
        }
    }
}

/// Leaves a message.
pub fn set_error(last: &mut LastError, message: String)
    ensures
        final(last)@ == Some(message@),
{
    last.message = Some(message);
}

/// Leaves no message, as every call does before anything else.
pub fn clear_error(last: &mut LastError)
    ensures
        final(last)@ == None::<Seq<char>>,
{
    last.message = None;
}

/// Ends a call: the code it returns, with its message left behind.
pub fn finish(last: &mut LastError, outcome: Result<(), Failure>) -> (code: i32)
    requires
        old(last)@ is None,
    ensures
        match outcome {
            Ok(_) => code == INFRASTORE_OK && final(last)@ == None::<Seq<char>>,
            Err(f) => code == f.code && final(last)@ == f@.message,
        },
{
    match outcome {
        Ok(_) => INFRASTORE_OK,
        Err(f) => {
            let code: i32 = f.code;
            match f.message {
                Some(text) => set_error(last, text),
                None => {},
            }
            code
        },
    }
}

/// A handle that must be there, refused without a message.
pub open spec fn handle_fault(present: bool) -> Option<FailureView> {
    if present {
        None
    } else {
        Some(unsaid(INFRASTORE_ERR_NULL_POINTER))
    }
}

/// A pointer that must be there, refused with this message.
pub open spec fn pointer_fault(present: bool, message: Seq<char>) -> Option<FailureView> {
    if present {
        None
    } else {
        Some(said(INFRASTORE_ERR_NULL_POINTER, message))
    }
}

/// Whether a handle argument names a handle.
pub fn require_handle(present: bool) -> (r: Result<(), Failure>)
    ensures
        match (r, handle_fault(present)) {
            (Ok(_), None) => true,
            (Err(f), Some(expected)) => f@ == expected,
            _ => false,
        },
{
    if present {
        Ok(())
    } else {
        Err(fail_unsaid(INFRASTORE_ERR_NULL_POINTER))
    }
}

/// Whether a pointer argument may be used, with what is said when it may not.
pub fn require_pointer(present: bool, message: &str) -> (r: Result<(), Failure>)
    ensures
        match (r, pointer_fault(present, message@)) {
            (Ok(_), None) => true,
            (Err(f), Some(expected)) => f@ == expected,
            _ => false,
        },
{
    if present {
        Ok(())
    } else {
        Err(fail(INFRASTORE_ERR_NULL_POINTER, message.to_string()))
    }
}

/// A store's error is reported under the code of its own name, and its message as it stands. What
/// has no code of its own is an internal error.
pub proof fn errors_are_reported_by_name(kind: StoreError, message: String, r: Failure)
    requires
        call_ensures(map_core_error, (kind, message), r),
    ensures
        r.message matches Some(text) && text@ == message@,
        kind is NotFound <==> r.code == INFRASTORE_ERR_NOT_FOUND,
        kind is DuplicateTimeSeries <==> r.code == INFRASTORE_ERR_DUPLICATE,
        kind is DuplicateAssociation <==> r.code == INFRASTORE_ERR_DUPLICATE_ASSOCIATION,
        kind is DuplicateAssociationId <==> r.code == INFRASTORE_ERR_DUPLICATE_ASSOCIATION_ID,
        kind is InvalidParameter <==> r.code == INFRASTORE_ERR_INVALID_PARAMETER,
        kind is IntegrityError <==> r.code == INFRASTORE_ERR_INTEGRITY,
        kind is ReadOnlyStore <==> r.code == INFRASTORE_ERR_READ_ONLY,
        kind is Io <==> r.code == INFRASTORE_ERR_IO,
        kind is IncompatibleFormat <==> r.code == INFRASTORE_ERR_INCOMPATIBLE_FORMAT,
        kind is StoreExists <==> r.code == INFRASTORE_ERR_STORE_EXISTS,
        kind is MismatchedArtifact <==> r.code == INFRASTORE_ERR_MISMATCHED_ARTIFACT,
        kind is OwnerMismatch <==> r.code == INFRASTORE_ERR_OWNER_MISMATCH,
        kind is CatalogMigrationRequired <==> r.code == INFRASTORE_ERR_CATALOG_MIGRATION_REQUIRED,
        kind is CatalogTooNew <==> r.code == INFRASTORE_ERR_CATALOG_TOO_NEW,
        kind is Other <==> r.code == INFRASTORE_ERR_INTERNAL,
{
}

/// What must be there passes where it is there, and is refused as a null pointer where it is not:
/// a handle without a word, anything else with its own message.
pub proof fn what_is_missing_is_refused(
    present: bool,
    message: &str,
    handle: Result<(), Failure>,
    pointer: Result<(), Failure>,
)
    requires
        call_ensures(require_handle, (present,), handle),
        call_ensures(require_pointer, (present, message), pointer),
    ensures
        present <==> handle is Ok,
        present <==> pointer is Ok,
        !present ==> handle->Err_0.code == INFRASTORE_ERR_NULL_POINTER
            && handle->Err_0.message is None,
        !present ==> pointer->Err_0.code == INFRASTORE_ERR_NULL_POINTER && (
        pointer->Err_0.message matches Some(text) && text@ == message@),
{
}

} // verus!
