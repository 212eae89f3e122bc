//! The order in which the daemon tries clipboard backends: `wl-copy`
//! (Wayland) first, then the native clipboard, then `xclip`; the first that
//! succeeds ends the attempt, and when all fail the text is not copied.
use vstd::prelude::*;

verus! {

/// A way of putting text on the clipboard.
#[derive(PartialEq, Eq, Structural, Clone, Copy, Debug)]
pub enum ClipboardBackend {
    /// The `wl-copy` program (Wayland).
    WlCopy,
    /// The native clipboard of the desktop session.
    Native,
    /// The `xclip` program (X11).
    Xclip,
}

/// What to do after trying a backend.
#[derive(PartialEq, Eq, Structural, Clone, Copy, Debug)]
pub enum ClipboardNext {
    /// The text is on the clipboard.
    Copied,
    /// Try this backend next.
    Try(ClipboardBackend),
    /// Every backend failed.
    Failed,
}

/// Position of a backend in the fallback order.
pub open spec fn backend_rank(b: ClipboardBackend) -> nat {
    match b {
        ClipboardBackend::WlCopy => 0,
        ClipboardBackend::Native => 1,
        ClipboardBackend::Xclip => 2,
    }
}

/// The backend at a position of the fallback order.
pub open spec fn backend_at(rank: nat) -> ClipboardBackend {
    if rank == 0 {
        ClipboardBackend::WlCopy
    } else if rank == 1 {
        ClipboardBackend::Native
    } else {
        ClipboardBackend::Xclip
    }
}

/// The step after trying backend `b`.
pub open spec fn clipboard_step(b: ClipboardBackend, succeeded: bool) -> ClipboardNext {
    if succeeded {
        ClipboardNext::Copied
    } else if backend_rank(b) < 2 {
        ClipboardNext::Try(backend_at(backend_rank(b) + 1))
    } else {
        ClipboardNext::Failed
    }
}

/// The backend tried first.
pub fn first_backend() -> (b: ClipboardBackend)
    ensures
        b == backend_at(0),
{
    ClipboardBackend::WlCopy
}

/// The step after trying backend `b`, given whether it succeeded.
pub fn after_attempt(b: ClipboardBackend, succeeded: bool) -> (next: ClipboardNext)
    ensures
        next == clipboard_step(b, succeeded),
{
    if succeeded {
        ClipboardNext::Copied
    } else {
        match b {
            ClipboardBackend::WlCopy => ClipboardNext::Try(ClipboardBackend::Native),
            ClipboardBackend::Native => ClipboardNext::Try(ClipboardBackend::Xclip),
            ClipboardBackend::Xclip => ClipboardNext::Failed,
        }
    }
}

/// The outcome of running the fallback chain from position `rank` when
/// backend `i` would succeed exactly when `works[i]` holds: whether the
/// text got copied, and how many backends were tried.
pub open spec fn run_chain(rank: nat, works: Seq<bool>) -> (bool, nat)
    decreases 3 - rank,
{
    if rank >= 3 {
        (false, 0)
    } else {
        match clipboard_step(backend_at(rank), works[rank as int]) {
            ClipboardNext::Copied => (true, 1),
            ClipboardNext::Try(next) => {
                let rest = run_chain(rank + 1, works);
                (rest.0, rest.1 + 1)
            },
            ClipboardNext::Failed => (false, 1),
        }
    }
}

/// Following the steps from the first backend, the text is copied exactly
/// when some backend works, and the backends tried are those up to and
/// including the first that works (all three when none does).
pub proof fn law_clipboard_first_success(works: Seq<bool>)
    requires
        works.len() == 3,
    ensures
        run_chain(0, works).0 == (works[0] || works[1] || works[2]),
        run_chain(0, works).1 == if works[0] {
            1nat
        } else if works[1] {
            2nat
        } else {
            3nat
        },
{
    reveal_with_fuel(run_chain, 4);
    assert(run_chain(2, works) == (works[2], 1nat));
    assert(run_chain(1, works) == if works[1] {
        (true, 1nat)
    } else {
        (works[2], 2nat)
    });
}

} // verus!
