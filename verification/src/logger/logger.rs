//! The one capability the game needs of its surroundings to show itself:
//! to write a piece of text.
//!
//! A logger may print its texts, record them or drop them, and the game
//! never reads back what it wrote. So nothing is asked of `print` and
//! nothing is promised of it. What the writing functions of this crate
//! state is which calls of `print` they make: a logger is left as those
//! calls leave it, one after another, each handed the text that the
//! contract names.

use vstd::prelude::*;

verus! {

/// A sink for the texts of the game.
pub trait Logger {
    /// Takes `value` as one text.
    fn print(&mut self, value: &str);
}

/// Whether `call` is a call of `print` that was handed the text `text`.
/// The reference stands for the call: it points at the logger as the call
/// found it, and its final value is the logger as the call left it.
pub open spec fn takes<L: Logger + ?Sized>(call: &mut L, text: Seq<char>) -> bool {
    exists|value: &str| value@ == text && #[trigger] call_ensures(L::print, (call, value), ())
}

/// Whether `calls` are calls of `print` that were handed the texts of
/// `texts`, one each, in order.
pub open spec fn relayed<L: Logger + ?Sized>(calls: Seq<&mut L>, texts: Seq<Seq<char>>) -> bool {
    calls.len() == texts.len() && forall|i: int|
        0 <= i < calls.len() ==> takes(#[trigger] calls[i], texts[i])
}

/// Calls `f` on `logger` and `text`, as a value, so that the call is known
/// by what `f` does and not by a contract of its own.
fn apply<L: ?Sized, F: FnOnce(&mut L, &str)>(f: F, logger: &mut L, text: &str)
    requires
        forall|call: &mut L| #[trigger] call_requires(f, (call, text)),
    ensures
        exists|call: &mut L|
            &*call == &*old(logger) && &*final(call) == &*final(logger) && #[trigger] call_ensures(
                f,
                (call, text),
                (),
            ),
{
    f(logger, text);
}

/// Hands `text` to `logger`: one call of `print`, which finds the logger
/// as it was and leaves it as it is afterwards.
pub fn hand_over<L: Logger + ?Sized>(logger: &mut L, text: &str)
    ensures
        exists|call: &mut L|
            &*call == &*old(logger) && &*final(call) == &*final(logger) && #[trigger] takes(
                call,
                text@,
            ),
{
    apply(L::print, logger, text);
    proof {
        let call = choose|call: &mut L|
            &*call == &*old(logger) && &*final(call) == &*logger && #[trigger] call_ensures(
                L::print,
                (call, text),
                (),
            );
        assert(takes(call, text@));
    }
}

} // verus!
