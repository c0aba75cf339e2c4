//! The name under which a host reports.

use vstd::prelude::*;

verus! {

/// `whoami::hostname`: the name of this machine, in which no letter of ASCII is
/// upper-case. What else it is depends on the machine.
#[allow(deprecated)]
#[verifier::external_body]
fn machine_name() -> (r: String)
    ensures
        forall|i: int| 0 <= i < r@.len() ==> !('A' <= #[trigger] r@[i] <= 'Z'),
{
    whoami::hostname()
}

/// The name to report under, given one chosen by the operator and that of the
/// machine.
pub fn host_or(chosen: Option<String>, machine: String) -> (r: String)
    ensures
        r@ == match chosen {
            Some(name) => name@,
            None => machine@,
        },
{
    match chosen {
        Some(name) => name,
        None => machine,
    }
}

/// The name to report under: the one chosen by the operator, or else that of the
/// machine.
pub fn report_name(chosen: Option<String>) -> (r: String)
    ensures
        chosen matches Some(name) ==> r@ == name@,
        chosen is None ==> forall|i: int|
            0 <= i < r@.len() ==> !('A' <= #[trigger] r@[i] <= 'Z'),
{
    let machine = if chosen.is_none() {
        machine_name()
    } else {
        String::new()
    };
    host_or(chosen, machine)
}

} // verus!
