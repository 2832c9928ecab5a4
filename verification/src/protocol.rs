//! Protocol metadata: the fixed message count of the wrapper's parameters and
//! the ordered PID identifiers that name the message slots.
use vstd::prelude::*;

verus! {

/// Maximum number of messages supported by this wrapper's protocol params.
pub const MAX_MESSAGE_COUNT: u32 = 20;

/// PID identifiers as defined in the EUDI PID rulebook, in slot order; the
/// last is used to check whether a nationality appears in a nationalities list.
pub const PID_ORDER: [&'static str; 6] = [
    "family_name",
    "given_name",
    "birth_date",
    "birth_place",
    "nationality",
    "derived_nationality",
];

/// The PID identifiers, in slot order.
pub open spec fn pid_identifiers() -> Seq<Seq<char>> {
    seq![
        "family_name"@,
        "given_name"@,
        "birth_date"@,
        "birth_place"@,
        "nationality"@,
        "derived_nationality"@,
    ]
}

/// Returns the ordered PID identifiers supported by this wrapper.
pub fn pid_order() -> (r: Vec<&'static str>)
    ensures
        r@.map_values(|s: &str| s@) == pid_identifiers(),
{
    let r = vec![
        PID_ORDER[0],
        PID_ORDER[1],
        PID_ORDER[2],
        PID_ORDER[3],
        PID_ORDER[4],
        PID_ORDER[5],
    ];
    assert(r@.map_values(|s: &str| s@) =~= pid_identifiers());
    r
}

} // verus!
