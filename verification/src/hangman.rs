//! The guess-processing step of a hangman round.  The interactive shell
//! reads a letter; this decides its effect on the partly revealed word.

use vstd::prelude::*;

verus! {

/// Index of the first position from `i` on where the secret holds `guess`
/// and the current word still hides it.
pub open spec fn first_hidden_match(
    secret: Seq<char>,
    current: Seq<char>,
    guess: char,
    i: int,
) -> Option<int>
    decreases secret.len() - i,
{
    if !(0 <= i < secret.len()) {
        None
    } else if secret[i] == guess && current[i] != secret[i] {
        Some(i)
    } else {
        first_hidden_match(secret, current, guess, i + 1)
    }
}

/// Applies one guessed letter to the partly revealed word: the first
/// still-hidden position holding `guess` is revealed, and the result says
/// whether any was.  A guess that reveals nothing costs the player a try.
pub fn apply_guess(secret: &Vec<char>, current: &mut Vec<char>, guess: char) -> (r: bool)
    requires
        old(current)@.len() == secret@.len(),
    ensures
        final(current)@.len() == old(current)@.len(),
        match first_hidden_match(secret@, old(current)@, guess, 0) {
            Some(k) => r && final(current)@ == old(current)@.update(k, secret@[k]),
            None => !r && final(current)@ == old(current)@,
        },
{
    let n = secret.len();
    let mut i: usize = 0;
    while i < n
        invariant
            i <= n,
            n == secret@.len(),
            current@.len() == secret@.len(),
            current@ == old(current)@,
            first_hidden_match(secret@, current@, guess, 0) == first_hidden_match(
                secret@,
                current@,
                guess,
                i as int,
            ),
        decreases n - i,
    {
        if secret[i] == guess && secret[i] != current[i] {
            current.set(i, secret[i]);
            return true;
        }
        i += 1;
    }
    false
}

} // verus!
