//! The eBPF debug flag shared by every probe builder: set at most once.

use once_cell::sync::OnceCell;
use vstd::prelude::*;

use crate::error::RetisError;

verus! {

#[verifier::external_type_specification]
#[verifier::external_body]
#[verifier::reject_recursive_types(T)]
pub struct ExOnceCell<T>(OnceCell<T>);

/// What a once-cell holds.
pub uninterp spec fn cell_value(c: OnceCell<bool>) -> Option<bool>;

/// Relies on once_cell::sync::OnceCell::new: the cell starts empty.
#[verifier::external_body]
fn cell_new() -> (r: OnceCell<bool>)
    ensures
        cell_value(r) is None,
{
    OnceCell::new()
}

/// Relies on once_cell::sync::OnceCell::set: it fills an empty cell and
/// hands the value back from a full one, which it leaves as it was.
#[verifier::external_body]
fn cell_set(c: &mut OnceCell<bool>, v: bool) -> (r: Result<(), bool>)
    ensures
        cell_value(*old(c)) is None ==> r is Ok && cell_value(*final(c)) == Some(v),
        cell_value(*old(c)) is Some ==> (r matches Err(x) && x == v),
        cell_value(*old(c)) is Some ==> cell_value(*final(c)) == cell_value(*old(c)),
{
    c.set(v)
}

/// Relies on once_cell::sync::OnceCell::get: what the cell holds.
#[verifier::external_body]
fn cell_get(c: &OnceCell<bool>) -> (r: Option<bool>)
    ensures
        r == cell_value(*c),
{
    c.get().copied()
}

/// The eBPF debug flag.
pub struct EbpfDebug {
    cell: OnceCell<bool>,
}

impl EbpfDebug {
    pub closed spec fn value(&self) -> Option<bool> {
        cell_value(self.cell)
    }

    pub fn new() -> (r: EbpfDebug)
        ensures
            r.value() is None,
    {
        EbpfDebug { cell: cell_new() }
    }

}

/// Sets the flag; only the first setting is accepted.
pub fn set_ebpf_debug(flag: &mut EbpfDebug, debug: bool) -> (r: Result<(), RetisError>)
    ensures
        old(flag).value() is None ==> r is Ok && final(flag).value() == Some(debug),
        old(flag).value() is Some ==> r == Err::<(), RetisError>(RetisError::DebugAlreadySet)
            && final(flag).value() == old(flag).value(),
{
    match cell_set(&mut flag.cell, debug) {
        Ok(()) => Ok(()),
        Err(_) => Err(RetisError::DebugAlreadySet),
    }
}

/// The flag; reading it before it is set fixes it to `false`.
pub fn get_ebpf_debug(flag: &mut EbpfDebug) -> (r: bool)
    ensures
        old(flag).value() matches Some(v) ==> r == v && final(flag).value() == old(flag).value(),
        old(flag).value() is None ==> !r && final(flag).value() == Some(false),
{
    match cell_get(&flag.cell) {
        Some(v) => v,
        None => {
            let _ = cell_set(&mut flag.cell, false);
            false
        },
    }
}

} // verus!
