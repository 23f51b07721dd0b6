use vstd::prelude::*;

verus! {

/// The result of a system call as the user library returns it: the value, or -1 for
/// any error.
pub fn normalize(result: i32) -> (r: i32)
    ensures
        r == (if result >= 0 { result } else { -1i32 }),
{
    if result >= 0 { result } else { -1 }
}

/// As `normalize`, for calls whose value is a 16-bit identifier.
pub fn normalize_short(result: i32) -> (r: i16)
    ensures
        r == (if result >= 0 { result as i16 } else { -1i16 }),
{
    if result >= 0 { result as i16 } else { -1 }
}

} // verus!
