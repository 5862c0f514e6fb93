//! The random generator that every draw goes through.
//!
//! The generator is `bevy_turborand`'s `Rng`. Nothing in this crate looks
//! inside it: the functions here say only what holds of every value it can
//! hand back.

use bevy_turborand::prelude::Rng;
use bevy_turborand::TurboRand;
use vstd::prelude::*;

verus! {

/// `bevy_turborand`'s `Rng`, carried through as it is.
#[verifier::external_type_specification]
#[verifier::external_body]
pub struct ExRng(Rng);

/// Draws one value from `low..=high` with `TurboRand::u8`.
///
/// Trusted: the generator returns a value inside the inclusive range it is
/// given. It panics on an empty range, which `requires` leaves out.
#[verifier::external_body]
pub(crate) fn draw_u8(rng: &mut Rng, low: u8, high: u8) -> (face: u8)
    requires
        low <= high,
    ensures
        low <= face <= high,
{
    rng.u8(low..=high)
}

/// The texts of the names, in order.
pub open spec fn texts(names: Seq<String>) -> Seq<Seq<char>> {
    names.map_values(|name: String| name@)
}

/// Whether `picked` holds entries of `names` taken from different places:
/// some list of places, no two the same, gives `picked` entry by entry.
pub open spec fn is_selection(picked: Seq<Seq<char>>, names: Seq<Seq<char>>) -> bool {
    exists|places: Seq<int>|
        {
            &&& #[trigger] places.len() == picked.len()
            &&& forall|k: int|
                0 <= k < places.len() ==> 0 <= (#[trigger] places[k]) < names.len() && picked[k]
                    == names[places[k]]
            &&& forall|j: int, k: int| 0 <= j < k < places.len() ==> places[j] != places[k]
        }
}

/// Picks one of the names with `TurboRand::sample`.
///
/// Trusted: the generator returns nothing for an empty list and otherwise an
/// entry of the list.
#[verifier::external_body]
pub(crate) fn sample_name(rng: &mut Rng, names: &Vec<String>) -> (picked: Option<String>)
    ensures
        names@.len() == 0 ==> picked is None,
        names@.len() > 0 ==> picked is Some && texts(names@).contains(picked->0@),
{
    rng.sample(names.as_slice()).cloned()
}

/// Picks up to `amount` of the names with `TurboRand::sample_multiple`.
///
/// Trusted: the generator returns `amount` entries, or all of them where the
/// list is shorter, and takes no place of the list twice.
#[verifier::external_body]
pub(crate) fn sample_names(rng: &mut Rng, names: &Vec<String>, amount: u8) -> (picked: Vec<String>)
    ensures
        picked@.len() == if amount <= names@.len() {
            amount as int
        } else {
            names@.len() as int
        },
        is_selection(texts(picked@), texts(names@)),
{
    rng.sample_multiple(names.as_slice(), amount as usize).into_iter().cloned().collect()
}

} // verus!
