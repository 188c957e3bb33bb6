//! The lock cell and its guard.
//!
//! A [`Mutex`] keeps one value behind a flag. Taking the flag is the contended part: it
//! goes through a shared reference, by compare-and-swap, as [`crate::protocol`] lays it
//! out, and [`Mutex::get_lock`] hands the taken flag back as a [`Hold`]. The value itself
//! is given out by [`Mutex::lock`] and [`Mutex::try_lock`], under an exclusive borrow of
//! the cell: the guard they return, a [`Lock`], reads and writes the value and clears the
//! flag when it goes.
//!
//! No contract here speaks of the flag's value. The flag is an atomic that any thread may
//! write at any time, so what an access to it finds is not a function of anything the
//! caller knows. What is stated is what holds however the accesses turn out: which flag
//! a hold or a guard is on ([`Mutex::flag`], [`Hold::flag`], [`Lock::flag`]), and, of
//! the value, exactly what the cell and its guards hold. Verified callers bring
//! [`lemma_guard_resolved`] into scope to follow the value past the end of a guard.
use crate::protocol::Phase;
use std::ops::{Deref, DerefMut};
use std::sync::atomic::{AtomicBool, Ordering};
use vstd::prelude::*;

verus! {

/// `std::hint::spin_loop` tells the processor that the thread is busy-waiting. It takes
/// nothing and gives nothing back; nothing is claimed of it.
pub assume_specification[ std::hint::spin_loop ]();

/// `AtomicBool::store`, for the orderings with which it does not panic (it panics with
/// `Acquire` and `AcqRel`). The claim is that the call then returns without unwinding.
/// Nothing is said of the flag's value: other threads may write to it at any time.
#[verifier::external_body]
fn store_flag(flag: &AtomicBool, value: bool, order: Ordering)
    requires
        order is Release || order is Relaxed || order is SeqCst,
    opens_invariants none
    no_unwind
{
    flag.store(value, order);
}

/// A value behind a flag.
pub struct Mutex<T> {
    flag: AtomicBool,
    data: T,
}

/// The flag of a [`Mutex`], taken. It is cleared when this value is dropped, and by
/// nothing else short of [`Mutex::force_unlock`].
pub struct Hold<'a> {
    flag: &'a AtomicBool,
}

/// Exclusive access to the value of a [`Mutex`], for as long as the guard lives.
pub struct Lock<'a, T> {
    data: &'a mut T,
    hold: Hold<'a>,
}

impl<T> View for Mutex<T> {
    type V = T;

    /// The value in the cell.
    closed spec fn view(&self) -> T {
        self.data
    }
}

impl<'a, T> View for Lock<'a, T> {
    type V = T;

    /// The value as the guard sees it now.
    closed spec fn view(&self) -> T {
        *self.data
    }
}

impl<T> Mutex<T> {
    /// The flag of the cell: which flag it is, not what it holds.
    pub closed spec fn flag(&self) -> &AtomicBool {
        &self.flag
    }

    /// A cell that holds `udata`, with the flag clear.
    pub fn new(udata: T) -> (cell: Mutex<T>)
        ensures
            cell@ == udata,
    {
        Mutex { flag: AtomicBool::new(false), data: udata }
    }

    /// Takes the cell apart and gives back its value. No guard can be alive: a guard
    /// borrows the cell.
    pub fn into_inner(self) -> (udata: T)
        ensures
            udata == self@,
    {
        self.data
    }

    /// Asks for the flag, with at most `spins` accesses to it: a compare-and-swap first,
    /// and after each one that fails, reads of the flag until one finds it clear. Gives
    /// up when the accesses are used up. Whether the flag is won is up to the other
    /// threads; with no access allowed it is not.
    ///
    /// A budget of 1 is a single try. A caller that must have the lock calls again until
    /// it gets it.
    pub fn get_lock(&self, spins: u64) -> (res: Option<Hold<'_>>)
        ensures
            spins == 0 ==> res is None,
            res matches Some(hold) ==> hold.flag() == self.flag(),
    {
        acquire(&self.flag, spins)
    }

    /// Waits for the lock, with at most `spins` accesses to the flag, as
    /// [`Mutex::get_lock`] makes them. Where the flag is won, the guard starts from the
    /// value in the cell, and what the guard holds at its end is what the cell holds
    /// afterwards; the flag that it has taken, and will clear, is this cell's. Where the
    /// accesses are used up first, the cell is as it was.
    ///
    /// Under the exclusive borrow nobody else can clear the flag during the wait. So
    /// with an access to spend, the wait ends without the lock only on a flag that was
    /// left set, and the bound keeps the call from hanging there.
    pub fn lock(&mut self, spins: u64) -> (res: Option<Lock<'_, T>>)
        ensures
            spins == 0 ==> res is None,
            final(self).flag() == old(self).flag(),
            match res {
                Some(guard) => {
                    &&& guard.flag() == old(self).flag()
                    &&& guard@ == old(self)@
                    &&& final(self)@ == *final(guard.slot())
                },
                None => final(self)@ == old(self)@,
            },
    {
        lend(
            acquire(&self.flag, spins),
            &mut self.data,
        )
    }

    /// Clears the flag, whoever set it. This is for a flag that was left set by a holder
    /// that will never clear it. While the flag is rightfully held, clearing it lets a
    /// second holder in.
    pub fn force_unlock(&self) {
        store_flag(&self.flag, false, Ordering::Release);
    }

    /// One try for the lock: a single compare-and-swap, no waiting. Where it goes
    /// through, the guard is on this cell's flag, it starts from the value in the cell,
    /// and what it holds at its end is what the cell holds afterwards. Where it fails,
    /// the cell is as it was.
    pub fn try_lock(&mut self) -> (res: Option<Lock<'_, T>>)
        ensures
            final(self).flag() == old(self).flag(),
            match res {
                Some(guard) => {
                    &&& guard.flag() == old(self).flag()
                    &&& guard@ == old(self)@
                    &&& final(self)@ == *final(guard.slot())
                },
                None => final(self)@ == old(self)@,
            },
    {
        self.lock(1)
    }
}

/// Makes the access to `flag` that `phase` calls for, and moves on by what it saw.
fn step(flag: &AtomicBool, phase: Phase) -> (next: Phase)
    ensures
        next == phase.after(true) || next == phase.after(false),
{
    match phase {
        Phase::Claim => {
            Phase::claimed(
                flag.compare_exchange(false, true, Ordering::Acquire, Ordering::Relaxed),
            )
        },
        Phase::Watch => {
            let busy = flag.load(Ordering::Relaxed);
            if busy {
                std::hint::spin_loop();
            }
            phase.next(busy)
        },
        Phase::Held => phase,
    }
}

/// Runs the protocol on `flag` from its start, until the flag is taken or `spins`
/// accesses are used up.
fn acquire(flag: &AtomicBool, spins: u64) -> (res: Option<Hold<'_>>)
    ensures
        spins == 0 ==> res is None,
        res matches Some(hold) ==> hold.flag() == flag,
{
    let mut phase = Phase::Claim;
    let mut left: u64 = spins;
    while left > 0 && phase != Phase::Held
        invariant
            left <= spins,
            left == spins ==> phase == Phase::Claim,
        decreases left,
    {
        phase = step(flag, phase);
        left = left - 1;
    }
    settle(flag, phase)
}

/// What the protocol has come to on `flag`: the taken flag where the last access left
/// the thread in `Held`, nothing in any other phase.
fn settle(flag: &AtomicBool, phase: Phase) -> (res: Option<Hold<'_>>)
    ensures
        res is Some <==> phase == Phase::Held,
        res matches Some(hold) ==> hold.flag() == flag,
{
    if phase == Phase::Held {
        Some(Hold { flag })
    } else {
        None
    }
}

/// Hands `data` out under a flag that was won, and leaves it alone under one that was
/// not.
fn lend<'a, T>(won: Option<Hold<'a>>, data: &'a mut T) -> (res: Option<Lock<'a, T>>)
    ensures
        res is Some <==> won is Some,
        match res {
            Some(guard) => {
                &&& won matches Some(hold) && guard.flag() == hold.flag()
                &&& guard@ == *old(data)
                &&& *final(guard.slot()) == *final(data)
            },
            None => *final(data) == *old(data),
        },
{
    match won {
        Some(hold) => Some(hold.guard(data)),
        None => None,
    }
}

impl<'a> Hold<'a> {
    /// The flag that is held, and that is cleared when the hold goes.
    pub closed spec fn flag(&self) -> &'a AtomicBool {
        self.flag
    }

    /// Joins the taken flag to a value that is to be reached under it. The guard works
    /// on the value through `data`, and clears this hold's flag when it goes.
    pub fn guard<T>(self, data: &'a mut T) -> (guard: Lock<'a, T>)
        ensures
            guard.flag() == self.flag(),
            guard@ == *old(data),
            *final(guard.slot()) == *final(data),
    {
        Lock { data, hold: self }
    }
}

impl<'a> Drop for Hold<'a> {
    /// Clears the flag.
    fn drop(&mut self)
        opens_invariants none
        no_unwind
    {
        store_flag(self.flag, false, Ordering::Release);
    }
}

impl<'a, T> Lock<'a, T> {
    /// The flag that the guard has taken, and that is cleared when the guard goes.
    pub closed spec fn flag(&self) -> &'a AtomicBool {
        self.hold.flag
    }

    /// The borrow of the cell's value that the guard works through. What it holds in the
    /// end is what the cell holds once the guard is gone.
    pub closed spec fn slot(&self) -> &'a mut T {
        self.data
    }
}

impl<'a, T> Deref for Lock<'a, T> {
    type Target = T;

    /// Read access to the value.
    fn deref(&self) -> (value: &T)
        ensures
            *value == self@,
    {
        &*self.data
    }
}

impl<'a, T> DerefMut for Lock<'a, T> {
    /// Write access to the value: what is written through `value` is what the guard sees
    /// afterwards.
    fn deref_mut(&mut self) -> (value: &mut T)
        ensures
            *value == old(self)@,
            final(self)@ == *final(value),
            final(self).flag() == old(self).flag(),
            *final(final(self).slot()) == *final(old(self).slot()),
    {
        &mut *self.data
    }
}

/// When a guard is done with, what it sees is what its borrow ends with. With this in
/// scope (`broadcast use`), a caller knows the cell's value once a guard has gone: it is
/// the value that the guard saw last.
pub broadcast proof fn lemma_guard_resolved<'a, T>(guard: Lock<'a, T>)
    ensures
        #[trigger] has_resolved(guard) ==> guard@ == *final(guard.slot()),
{
}

/// A cell that no guard has written to gives back the value it was made with.
pub proof fn lemma_consume_returns_initial<T>(udata: T, cell: Mutex<T>, out: T)
    requires
        call_ensures(Mutex::<T>::new, (udata,), cell),
        call_ensures(Mutex::<T>::into_inner, (cell,), out),
    ensures
        out == udata,
{
}

/// A try that fails changes nothing: the cell gives back what it held before.
pub proof fn lemma_failed_try_keeps_value<'a, T>(cell: &'a mut Mutex<T>, out: T)
    requires
        call_ensures(Mutex::<T>::try_lock, (cell,), None::<Lock<'a, T>>),
        call_ensures(Mutex::<T>::into_inner, (*final(cell),), out),
    ensures
        out == old(cell)@,
{
}

/// Visibility. What one guard holds when it goes is what the next guard of the cell
/// starts from: no write is lost between them.
///
/// `writer` is a guard as `lock` handed it out and `done` the same guard, after any
/// writes, when its owner is through with it. `later` is the cell as that guard left it,
/// and `reader` the guard of the next `lock` on it.
pub proof fn lemma_next_guard_sees_last_write<'a, 'b, T>(
    cell: &'a mut Mutex<T>,
    spins: u64,
    writer: Lock<'a, T>,
    done: Lock<'a, T>,
    later: &'b mut Mutex<T>,
    later_spins: u64,
    reader: Lock<'b, T>,
)
    requires
        call_ensures(Mutex::<T>::lock, (cell, spins), Some(writer)),
        *final(done.slot()) == *final(writer.slot()),
        has_resolved(done),
        *later == *final(cell),
        call_ensures(Mutex::<T>::lock, (later, later_spins), Some(reader)),
    ensures
        reader@ == done@,
{
}

} // verus!
