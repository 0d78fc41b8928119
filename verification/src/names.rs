//! Random offline user names for the bot.
use vstd::prelude::*;
use crate::text::string_of;

verus! {

/// The characters a user name is drawn from: `A`..`Z`, `a`..`z`, `0`..`9`.
pub open spec fn name_alphabet() -> Seq<char> {
    Seq::new(
        62,
        |i: int|
            if i < 26 {
                ((65 + i) as u8) as char
            } else if i < 52 {
                ((97 + i - 26) as u8) as char
            } else {
                ((48 + i - 52) as u8) as char
            },
    )
}

/// The number of characters in a user name.
pub open spec fn name_length() -> nat {
    6
}

fn alphabet_char(i: usize) -> (c: char)
    requires
        i < 62,
    ensures
        c == name_alphabet()[i as int],
{
    if i < 26 {
        ((65 + i) as u8) as char
    } else if i < 52 {
        ((97 + i - 26) as u8) as char
    } else {
        ((48 + i - 52) as u8) as char
    }
}

/// The user name whose characters are the alphabet entries at `picks`.
pub fn username_from_picks(picks: &Vec<usize>) -> (r: String)
    requires
        forall|k: int| 0 <= k < picks.len() ==> #[trigger] picks@[k] < 62,
    ensures
        r@.len() == picks.len(),
        forall|k: int| 0 <= k < picks.len() ==> #[trigger] r@[k] == name_alphabet()[picks@[k] as int],
{
    let mut v: Vec<char> = Vec::new();
    for i in 0..picks.len()
        invariant
            forall|k: int| 0 <= k < picks.len() ==> #[trigger] picks@[k] < 62,
            v@.len() == i,
            forall|k: int| 0 <= k < i ==> #[trigger] v@[k] == name_alphabet()[picks@[k] as int],
    {
        v.push(alphabet_char(picks[i]));
    }
    string_of(&v)
}

#[verifier::external_type_specification]
#[verifier::external_body]
pub struct ExFastRng(fastrand::Rng);

/// A generator with a random seed (`fastrand::Rng::new`).
#[verifier::external_body]
fn new_generator() -> fastrand::Rng {
    fastrand::Rng::new()
}

/// A number drawn from `0..n` (`fastrand::Rng::usize`, which panics only on
/// an empty range).
#[verifier::external_body]
fn draw_below(rng: &mut fastrand::Rng, n: usize) -> (r: usize)
    requires
        n > 0,
    ensures
        r < n,
{
    rng.usize(0..n)
}

/// A random six-character user name over `A`..`Z`, `a`..`z`, `0`..`9`.
pub fn random_username() -> (r: String)
    ensures
        r@.len() == name_length(),
        forall|k: int| 0 <= k < r@.len() ==> name_alphabet().contains(#[trigger] r@[k]),
{
    let mut rng = new_generator();
    let mut picks: Vec<usize> = Vec::new();
    for _i in 0..6usize
        invariant
            forall|k: int| 0 <= k < picks.len() ==> #[trigger] picks@[k] < 62,
            picks.len() == _i,
    {
        let p = draw_below(&mut rng, 62);
        picks.push(p);
    }
    let r = username_from_picks(&picks);
    assert forall|k: int| 0 <= k < r@.len() implies name_alphabet().contains(#[trigger] r@[k]) by {
        assert(r@[k] == name_alphabet()[picks@[k] as int]);
    }
    r
}

} // verus!
