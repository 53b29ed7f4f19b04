//! Names that a function may have.

use vstd::prelude::*;

verus! {

/// A name that a function may have: it is not empty, does not start with
/// `-`, and holds neither `/` nor NUL, so that it can also name a file.
pub open spec fn is_valid_func_name(name: Seq<char>) -> bool {
    &&& name.len() > 0
    &&& name[0] != '-'
    &&& forall|i: int| 0 <= i < name.len() ==> #[trigger] name[i] != '/' && name[i] != '\0'
}

/// Tests whether `name` is a name that a function may have.
pub fn valid_func_name(name: &[char]) -> (valid: bool)
    ensures
        valid == is_valid_func_name(name@),
{
    if name.len() == 0 {
        return false;
    }
    if name[0] == '-' {
        return false;
    }
    let mut i: usize = 0;
    while i < name.len()
        invariant
            i <= name.len(),
            forall|j: int| 0 <= j < i ==> #[trigger] name@[j] != '/' && name@[j] != '\0',
        decreases name.len() - i,
    {
        if name[i] == '/' || name[i] == '\0' {
            return false;
        }
        i += 1;
    }
    true
}

} // verus!
