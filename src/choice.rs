//! Random choice among a list of values on trigger samples.
use rand::seq::IndexedRandom;
use vstd::prelude::*;

verus! {

/// Relies on `rand::seq::IndexedRandom::choose` with the thread-local
/// generator `rand::rng()`: nothing for an empty list, else one of its
/// elements, picked at random.
#[verifier::external_body]
fn pick<T: Copy>(options: &Vec<T>) -> (r: Option<T>)
    ensures
        options@.len() == 0 <==> r is None,
        r matches Some(v) ==> options@.contains(v),
{
    options.as_slice().choose(&mut rand::rng()).copied()
}

/// Holds a freshly picked value on trigger samples: the pick, or `empty`
/// when there was nothing to pick from. Outputs the held value.
pub fn hold_choice<T: Copy>(state: &mut T, trig: bool, picked: Option<T>, empty: T) -> (out: T)
    ensures
        *final(state) == (if trig {
            match picked {
                Some(v) => v,
                None => empty,
            }
        } else {
            *old(state)
        }),
        out == *final(state),
{
    if trig {
        *state = match picked {
            Some(v) => v,
            None => empty,
        };
    }
    *state
}

/// On trigger samples, holds a value picked at random from `options`, or
/// `empty` (the signal kind's default) when there are none; outputs the held
/// value every sample.
pub fn random_choice<T: Copy>(state: &mut T, trig: bool, options: &Vec<T>, empty: T) -> (out: T)
    ensures
        !trig ==> *final(state) == *old(state),
        trig && options@.len() == 0 ==> *final(state) == empty,
        trig && options@.len() > 0 ==> options@.contains(*final(state)),
        out == *final(state),
{
    if trig {
        let picked = pick(options);
        hold_choice(state, trig, picked, empty)
    } else {
        *state
    }
}

} // verus!
