//! Device eligibility and selection: which devices qualify as a source, and
//! which of the eligible ones the user's request picks.

use vstd::prelude::*;

use crate::errors::SelectError;
use crate::events::REL_X;
use crate::events::REL_Y;

verus! {

/// Whether a device's optional name matches the requested one.
pub open spec fn name_matches(name: Option<String>, target: Seq<char>) -> bool {
    match name {
        Some(n) => n@ == target,
        None => false,
    }
}

/// Whether a vector of axis codes holds the given code.
fn contains_code(axes: &Vec<u16>, code: u16) -> (r: bool)
    ensures
        r == axes@.contains(code),
{
    let mut i: usize = 0;
    while i < axes.len()
        invariant
            i <= axes.len(),
            forall|j: int| 0 <= j < i ==> axes@[j] != code,
        decreases axes.len() - i,
    {
        if axes[i] == code {
            return true;
        }
        i = i + 1;
    }
    false
}

/// A device is an eligible source exactly when it reports support for both
/// horizontal and vertical relative motion; a device that reports no
/// relative axes at all is never eligible.
pub fn device_valid(axes: &Option<Vec<u16>>) -> (r: bool)
    ensures
        r == match axes {
            Some(v) => v@.contains(REL_X) && v@.contains(REL_Y),
            None => false,
        },
{
    match axes {
        Some(v) => contains_code(v, REL_X) && contains_code(v, REL_Y),
        None => false,
    }
}

/// Pick the requested device by name from the eligible devices' names: the
/// first whose name matches wins. With no eligible device at all the
/// selection fails with `NoDevices`; with eligible devices but no match it
/// fails with `NameNotFound`. A device that exposes no name never matches.
pub fn select_named(names: &Vec<Option<String>>, target: &String) -> (r: Result<
    usize,
    SelectError,
>)
    ensures
        match r {
            Ok(i) => i < names@.len() && name_matches(names@[i as int], target@) && forall|j: int|
                0 <= j < i ==> !name_matches(names@[j], target@),
            Err(e) => match e {
                SelectError::NoDevices => names@.len() == 0,
                SelectError::NameNotFound => names@.len() > 0 && forall|j: int|
                    0 <= j < names@.len() ==> !name_matches(names@[j], target@),
                SelectError::InvalidChoice => false,
            },
        },
{
    if names.len() == 0 {
        return Err(SelectError::NoDevices);
    }
    let mut i: usize = 0;
    while i < names.len()
        invariant
            i <= names.len(),
            forall|j: int| 0 <= j < i ==> !name_matches(names@[j], target@),
        decreases names.len() - i,
    {
        match &names[i] {
            Some(n) => {
                if *n == *target {
                    return Ok(i);
                }
            },
            None => {},
        }
        i = i + 1;
    }
    Err(SelectError::NameNotFound)
}

/// Validate an interactive choice against the number of eligible devices:
/// the parsed index must name a listed device. With no eligible device the
/// selection fails with `NoDevices`; a choice that did not parse as a
/// number, or that is out of range, fails with `InvalidChoice`.
pub fn select_choice(count: usize, choice: Option<usize>) -> (r: Result<usize, SelectError>)
    ensures
        match r {
            Ok(i) => count > 0 && choice == Some(i) && i < count,
            Err(e) => match e {
                SelectError::NoDevices => count == 0,
                SelectError::InvalidChoice => count > 0 && match choice {
                    Some(n) => n >= count,
                    None => true,
                },
                SelectError::NameNotFound => false,
            },
        },
{
    if count == 0 {
        return Err(SelectError::NoDevices);
    }
    match choice {
        Some(n) => {
            if n < count {
                Ok(n)
            } else {
                Err(SelectError::InvalidChoice)
            }
        },
        None => Err(SelectError::InvalidChoice),
    }
}

} // verus!
