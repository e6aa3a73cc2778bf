use vstd::prelude::*;

use crate::dns::Record;

verus! {

/// What the command line tool does once it knows the zone in use and
/// whether the entry it was given is in it.
#[derive(Debug)]
pub enum Decision {
    /// `add` was given no value for the entry.
    MissingValue,
    /// `update` was given no new value.
    MissingNewValue,
    /// The entry to add, or the entry as `update` would leave it, is in the zone already.
    AlreadyPresent,
    /// The entry to delete or update is not in the zone.
    NoSuchEntry,
    /// Copy the zone in use, add the entry to the copy, enable the copy.
    AddEntry,
    /// Copy the zone in use, delete this record from the copy, enable the copy.
    DeleteEntry(Record),
    /// Look for an entry that holds the new value already, then decide with
    /// [`decide_update_after_lookup`].
    LookUpNewValue(Record),
    /// Rewrite this record of the zone in use with the new value.
    UpdateEntry(Record),
}

/// `add`: a value is needed, and nothing is done when the entry is there already.
pub fn decide_add(value_given: bool, old_entry: Option<Record>) -> (d: Decision)
    ensures
        !value_given ==> d is MissingValue,
        value_given && old_entry is Some ==> d is AlreadyPresent,
        value_given && old_entry is None ==> d is AddEntry,
{
    if !value_given {
        Decision::MissingValue
    } else if old_entry.is_some() {
        Decision::AlreadyPresent
    } else {
        Decision::AddEntry
    }
}

/// `delete`: the entry found is deleted; nothing is done when there is none.
pub fn decide_delete(old_entry: Option<Record>) -> (d: Decision)
    ensures
        old_entry matches Some(r) ==> d == Decision::DeleteEntry(r),
        old_entry is None ==> d is NoSuchEntry,
{
    match old_entry {
        Some(r) => Decision::DeleteEntry(r),
        None => Decision::NoSuchEntry,
    }
}

/// `update`, first step: the entry must be there and a new value given; then
/// the zone is searched for an entry that has the new value already.
pub fn decide_update(old_entry: Option<Record>, new_value_given: bool) -> (d: Decision)
    ensures
        old_entry is None ==> d is NoSuchEntry,
        old_entry is Some && !new_value_given ==> d is MissingNewValue,
        new_value_given ==> (old_entry matches Some(r) ==> d == Decision::LookUpNewValue(r)),
{
    match old_entry {
        None => Decision::NoSuchEntry,
        Some(r) => if new_value_given {
            Decision::LookUpNewValue(r)
        } else {
            Decision::MissingNewValue
        },
    }
}

/// `update`, second step: the record is rewritten unless an entry with the
/// new value is there already.
pub fn decide_update_after_lookup(old_entry: Record, new_value_present: bool) -> (d: Decision)
    ensures
        new_value_present ==> d is AlreadyPresent,
        !new_value_present ==> d == Decision::UpdateEntry(old_entry),
{
    if new_value_present {
        Decision::AlreadyPresent
    } else {
        Decision::UpdateEntry(old_entry)
    }
}

} // verus!
