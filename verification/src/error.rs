//! Errors of the tiers, and how a miss is told from a failure.

use vstd::prelude::*;

verus! {

/// `anyhow::Error`, carried through opaquely: the tiers report every failure as one.
#[verifier::external_type_specification]
#[verifier::external_body]
pub struct ExAnyhowError(anyhow::Error);

/// `core::fmt::Formatter`, opaque, so that `StoreError` can be displayed.
#[verifier::external_type_specification]
#[verifier::external_body]
pub struct ExFormatter<'a>(core::fmt::Formatter<'a>);

/// `core::fmt::Error`, opaque, the error of a formatter.
#[verifier::external_type_specification]
#[verifier::external_body]
pub struct ExFmtError(core::fmt::Error);

/// `core::fmt::Formatter::write_str` may be called with any string. Nothing is claimed of its
/// result, nor of what the formatter then holds.
pub assume_specification<'a>[ core::fmt::Formatter::<'a>::write_str ](
    f: &mut core::fmt::Formatter<'a>,
    data: &str,
) -> core::fmt::Result;

/// What a blob store reports inside an `anyhow::Error`.
#[derive(Debug)]
pub enum StoreError {
    /// The store has no such blob; the payload names it.
    NotFound(String),
    /// The store could not answer; the payload says why.
    Failed(String),
}

impl core::fmt::Display for StoreError {
    fn fmt(&self, f: &mut core::fmt::Formatter<'_>) -> core::fmt::Result {
        match self {
            StoreError::NotFound(name) => match f.write_str("not found: ") {
                Ok(()) => f.write_str(name.as_str()),
                Err(e) => Err(e),
            },
            StoreError::Failed(reason) => f.write_str(reason.as_str()),
        }
    }
}

impl std::error::Error for StoreError {

}

/// The `StoreError` that an error object holds, if it holds one: what
/// `anyhow::Error::downcast_ref::<StoreError>` gives for it.
pub uninterp spec fn store_error_in(e: anyhow::Error) -> Option<StoreError>;

/// Whether an error says that the blob is absent, rather than that the store failed.
pub open spec fn says_not_found(e: anyhow::Error) -> bool {
    store_error_in(e) matches Some(StoreError::NotFound(_))
}

/// `anyhow::Error::downcast_ref` at `StoreError`. What it returns depends on the error object alone:
/// a reference to the `StoreError` that the object was made from, that was attached to it as context,
/// or that an error was made from which context was attached to, and `None` if there is no such one.
/// That value is named `store_error_in`; nothing else is claimed of it.
#[verifier::external_body]
fn downcast_store_error(e: &anyhow::Error) -> (r: Option<&StoreError>)
    ensures
        match r {
            Some(held) => store_error_in(*e) == Some(*held),
            None => store_error_in(*e) is None,
        },
{
    e.downcast_ref::<StoreError>()
}

/// Whether the `StoreError` found in an error object, if there is one, is `NotFound`.
pub fn names_absence(held: Option<&StoreError>) -> (r: bool)
    ensures
        r == (held matches Some(StoreError::NotFound(_))),
{
    match held {
        Some(StoreError::NotFound(_)) => true,
        _ => false,
    }
}

/// Whether a tier's error is a miss. Any other error is a failure of the tier.
pub fn is_not_found(e: &anyhow::Error) -> (r: bool)
    ensures
        r == says_not_found(*e),
        r == (store_error_in(*e) is Some && store_error_in(*e)->0 is NotFound),
{
    names_absence(downcast_store_error(e))
}

} // verus!
