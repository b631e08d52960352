//! What the library needs to know of the machine it runs on.

use vstd::prelude::*;

verus! {

/// The name of the machine as it is recorded: the name that the system
/// gave, or `N/A` where it gave none that is text.
pub fn get_hostname(name: Option<String>) -> (r: String)
    ensures
        r@ == (match name {
            Some(n) => n@,
            None => "N/A"@,
        }),
{
    match name {
        Some(n) => n,
        None => "N/A".to_owned(),
    }
}

} // verus!
