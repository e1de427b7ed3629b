use vstd::prelude::*;

verus! {

/// The key that ends the session.
pub const QUIT_KEY: char = 'q';

/// Whether the key `ch` asks for the session to end. Every other key is
/// ignored.
pub fn requests_quit(ch: char) -> (quit: bool)
    ensures
        quit == (ch == QUIT_KEY),
{
    ch == QUIT_KEY
}

/// Whether the listener goes on reading keys once it has read `ch` and
/// tried to pass it on: it stops when the key could not be passed on, and
/// when it was the quit key.
pub fn listener_continues(ch: char, delivered: bool) -> (go_on: bool)
    ensures
        go_on == (delivered && ch != QUIT_KEY),
{
    delivered && !requests_quit(ch)
}

/// Whether the loop runs another tick, given the key that was waiting
/// when the last one ended, if there was one.
pub fn loop_continues(pending: Option<char>) -> (go_on: bool)
    ensures
        go_on == !(pending == Some(QUIT_KEY)),
{
    match pending {
        Some(ch) => !requests_quit(ch),
        None => true,
    }
}

} // verus!
