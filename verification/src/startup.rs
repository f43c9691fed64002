//! The order of starting up.

use vstd::prelude::*;

verus! {

/// Run every potentially-interactive authentication step before constructing
/// the terminal, so that a recovery prompt can never be hidden by the alternate
/// screen: the terminal is asked for only once authentication has succeeded.
pub fn auth_then_terminal<A, T, E, Auth, Init>(auth: Auth, init_terminal: Init) -> (out: Result<
    (A, T),
    E,
>) where Auth: FnOnce() -> Result<A, E>, Init: FnOnce() -> Result<T, E>
    requires
        call_requires(auth, ()),
        forall|a: A|
            #[trigger] call_ensures(auth, (), Ok::<A, E>(a)) ==> call_requires(init_terminal, ()),
    ensures
        match out {
            Ok((a, t)) => call_ensures(auth, (), Ok::<A, E>(a)) && call_ensures(
                init_terminal,
                (),
                Ok::<T, E>(t),
            ),
            Err(e) => call_ensures(auth, (), Err::<A, E>(e)) || (call_ensures(
                init_terminal,
                (),
                Err::<T, E>(e),
            ) && exists|a: A| #[trigger] call_ensures(auth, (), Ok::<A, E>(a))),
        },
{
    let authenticated = match auth() {
        Ok(a) => a,
        Err(e) => {
            return Err(e);
        },
    };
    match init_terminal() {
        Ok(terminal) => Ok((authenticated, terminal)),
        Err(e) => Err(e),
    }
}

/// Set up an integration that may be missing: where the platform is not ready it
/// is not tried, and a failure only leaves it out.
pub fn optional_integration<T, E, Init: FnOnce() -> Result<T, E>>(ready: bool, init: Init) -> (out:
    Option<T>)
    requires
        ready ==> call_requires(init, ()),
    ensures
        !ready ==> out is None,
        ready ==> match out {
            Some(t) => call_ensures(init, (), Ok::<T, E>(t)),
            None => exists|e: E| #[trigger] call_ensures(init, (), Err::<T, E>(e)),
        },
{
    if !ready {
        return None;
    }
    match init() {
        Ok(t) => Some(t),
        Err(_) => None,
    }
}

} // verus!
