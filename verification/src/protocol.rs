//! The acquire/release protocol of the lock, seen from one thread and from all of them.
//!
//! A thread that wants the lock runs a small machine: it claims the flag with a
//! compare-and-swap, and after a failed claim it only reads the flag until it sees it
//! clear, then claims again (test-and-test-and-set). Reading costs the other threads
//! nothing; only a claim writes. [`Phase`] is the state of that machine and
//! [`Phase::next`] its one transition: the executable lock decides by it.
//!
//! [`Contest`] puts any number of such threads around one flag. Each access to the flag
//! is one indivisible [`Move`], as the hardware's atomic operations make it. What the
//! lock promises of concurrent use is proved of this model, in the proof functions at
//! the end of the file.
use vstd::prelude::*;

verus! {

/// Where a thread stands while it asks for the lock.
#[derive(Clone, Copy, Debug, PartialEq, Eq, Structural)]
pub enum Phase {
    /// About to try the compare-and-swap that sets the flag.
    Claim,
    /// Backing off after a failed claim: reading the flag until it is seen clear.
    Watch,
    /// The claim went through: the thread owns the lock.
    Held,
}

impl Phase {
    /// The phase that follows `self` once the thread's access to the flag has found it
    /// set (`saw_locked`) or clear.
    ///
    /// In `Claim` the access is the compare-and-swap, which wins exactly when it finds
    /// the flag clear. In `Watch` it is a plain read, which never takes the flag: seeing
    /// it clear only sends the thread back to claim. `Held` is final.
    pub open spec fn after(self, saw_locked: bool) -> Phase {
        match self {
            Phase::Claim => if saw_locked {
                Phase::Watch
            } else {
                Phase::Held
            },
            Phase::Watch => if saw_locked {
                Phase::Watch
            } else {
                Phase::Claim
            },
            Phase::Held => Phase::Held,
        }
    }

    /// Whether the access that this phase calls for can set the flag. Only the
    /// compare-and-swap can; after it the flag is set, whether it was before or not.
    pub open spec fn writes(self) -> bool {
        self == Phase::Claim
    }

    /// Decides where a claim leaves the thread, from the result of the compare-and-swap
    /// as it came back: `Ok` says that the swap was made, so the flag was clear and is
    /// now taken; `Err` says that it was not, so the flag was found set.
    pub fn claimed(swap: Result<bool, bool>) -> (next: Phase)
        ensures
            next == Phase::Claim.after(swap is Err),
    {
        match swap {
            Ok(_) => Phase::Held,
            Err(_) => Phase::Watch,
        }
    }

    /// Decides the next phase from what the access to the flag saw.
    pub fn next(self, saw_locked: bool) -> (next: Phase)
        ensures
            next == self.after(saw_locked),
    {
        match self {
            Phase::Claim => if saw_locked {
                Phase::Watch
            } else {
                Phase::Held
            },
            Phase::Watch => if saw_locked {
                Phase::Watch
            } else {
                Phase::Claim
            },
            Phase::Held => Phase::Held,
        }
    }
}

/// One flag and the threads that contend for it.
pub struct Contest {
    /// The flag.
    pub locked: bool,
    /// The phase of each thread that has asked for the lock and not yet left.
    pub phases: Map<int, Phase>,
}

/// What can happen to a [`Contest`] in one indivisible move. Each variant but `Force`
/// names the thread that moves.
pub enum Move {
    /// The thread starts to ask for the lock: it is about to claim.
    Enter(int),
    /// The thread makes the access to the flag that its phase calls for.
    Step(int),
    /// The thread gives up asking, without the lock: its accesses are used up.
    Leave(int),
    /// The holder's guard is dropped: the flag is cleared.
    Release(int),
    /// The holder goes away and leaves the flag set: its guard is leaked, or the thread
    /// stops for good.
    Abandon(int),
    /// The flag is cleared from outside, by nobody's guard.
    Force,
}

impl Contest {
    /// A new lock: flag clear, nobody asking.
    pub open spec fn fresh() -> Contest {
        Contest { locked: false, phases: Map::empty() }
    }

    /// Thread `t` is asking for the lock or holds it.
    pub open spec fn contends(self, t: int) -> bool {
        self.phases.dom().contains(t)
    }

    /// Thread `t` owns the lock.
    pub open spec fn holds(self, t: int) -> bool {
        self.contends(t) && self.phases[t] == Phase::Held
    }

    /// Nobody owns the lock.
    pub open spec fn unheld(self) -> bool {
        forall|t: int| !self.holds(t)
    }

    /// Whether move `m` is one that the lock's rules allow here.
    ///
    /// `Force` is allowed only while nobody holds the lock: that is the duty of whoever
    /// calls for it, and nothing checks it at run time.
    pub open spec fn allows(self, m: Move) -> bool {
        match m {
            Move::Enter(t) => !self.contends(t),
            Move::Step(t) => self.contends(t),
            Move::Leave(t) => self.contends(t) && !self.holds(t),
            Move::Release(t) => self.holds(t),
            Move::Abandon(t) => self.holds(t),
            Move::Force => self.unheld(),
        }
    }

    /// The contest after move `m`.
    pub open spec fn apply(self, m: Move) -> Contest {
        match m {
            Move::Enter(t) => Contest { locked: self.locked, phases: self.phases.insert(t, Phase::Claim) },
            Move::Step(t) => Contest {
                locked: self.locked || self.phases[t].writes(),
                phases: self.phases.insert(t, self.phases[t].after(self.locked)),
            },
            Move::Leave(t) => Contest { locked: self.locked, phases: self.phases.remove(t) },
            Move::Release(t) => Contest { locked: false, phases: self.phases.remove(t) },
            Move::Abandon(t) => Contest { locked: self.locked, phases: self.phases.remove(t) },
            Move::Force => Contest { locked: false, phases: self.phases },
        }
    }

    /// The contest after the moves of `run`, first to last.
    pub open spec fn after(self, run: Seq<Move>) -> Contest
        decreases run.len(),
    {
        if run.len() == 0 {
            self
        } else {
            self.after(run.drop_last()).apply(run.last())
        }
    }

    /// Whether every move of `run` is allowed at the moment it is made.
    pub open spec fn follows(self, run: Seq<Move>) -> bool
        decreases run.len(),
    {
        run.len() == 0 || (self.follows(run.drop_last()) && self.after(run.drop_last()).allows(
            run.last(),
        ))
    }

    /// One try for the lock by a thread that is not yet asking: it enters, makes its one
    /// claim, and leaves again unless the claim went through.
    pub open spec fn try_once(self, t: int) -> Contest {
        let claimed = self.apply(Move::Enter(t)).apply(Move::Step(t));
        if claimed.holds(t) {
            claimed
        } else {
            claimed.apply(Move::Leave(t))
        }
    }

    /// At most one thread owns the lock, and the flag is set while one does.
    pub open spec fn exclusive(self) -> bool {
        &&& forall|t: int| self.holds(t) ==> self.locked
        &&& forall|a: int, b: int| self.holds(a) && self.holds(b) ==> a == b
    }

    /// Exclusion, and the flag is set only while a thread owns the lock: no holder has
    /// gone away and left it set.
    pub open spec fn steady(self) -> bool {
        &&& self.exclusive()
        &&& self.locked ==> !self.unheld()
    }
}

/// Whether `run` has no holder going away without release.
pub open spec fn no_abandon(run: Seq<Move>) -> bool {
    forall|i: int| 0 <= i < run.len() ==> !(#[trigger] run[i] is Abandon)
}

/// Whether no thread starts to ask for the lock in `run`.
pub open spec fn no_enter(run: Seq<Move>) -> bool {
    forall|i: int| 0 <= i < run.len() ==> !(#[trigger] run[i] is Enter)
}

/// How often the lock is released in `run`.
pub open spec fn releases(run: Seq<Move>) -> nat
    decreases run.len(),
{
    if run.len() == 0 {
        0
    } else if run.last() is Release {
        releases(run.drop_last()) + 1
    } else {
        releases(run.drop_last())
    }
}

/// No allowed move breaks exclusion.
pub proof fn lemma_move_keeps_exclusive(c: Contest, m: Move)
    requires
        c.exclusive(),
        c.allows(m),
    ensures
        c.apply(m).exclusive(),
{
    let d = c.apply(m);
    assert forall|t: int| d.holds(t) implies d.locked by {
        match m {
            Move::Step(u) => {
                if t != u {
                    assert(c.holds(t));
                }
            },
            Move::Release(u) => {
                assert(c.holds(t) && c.holds(u));
            },
            Move::Abandon(u) => {
                assert(c.holds(t) && c.holds(u));
            },
            _ => {
                assert(c.holds(t));
            },
        }
    }
    assert forall|a: int, b: int| d.holds(a) && d.holds(b) implies a == b by {
        match m {
            Move::Step(u) => {
                // A thread other than `u` that holds now held before, so the flag was
                // set, and `u` holds now only if it held before as well.
                if a != u {
                    assert(c.holds(a));
                    if b == u {
                        assert(c.holds(u));
                    }
                }
                if b != u {
                    assert(c.holds(b));
                    if a == u {
                        assert(c.holds(u));
                    }
                }
            },
            _ => {
                assert(c.holds(a) && c.holds(b));
            },
        }
    }
}

/// No allowed move but a holder's going away leaves the flag set with nobody owning the
/// lock.
pub proof fn lemma_move_keeps_steady(c: Contest, m: Move)
    requires
        c.steady(),
        c.allows(m),
        !(m is Abandon),
    ensures
        c.apply(m).steady(),
{
    lemma_move_keeps_exclusive(c, m);
    let d = c.apply(m);
    if d.locked {
        match m {
            Move::Step(u) => {
                if c.locked {
                    let h = choose|h: int| c.holds(h);
                    assert(d.holds(h));
                } else {
                    assert(d.holds(u));
                }
            },
            Move::Enter(u) => {
                let h = choose|h: int| c.holds(h);
                assert(d.holds(h));
            },
            Move::Leave(u) => {
                let h = choose|h: int| c.holds(h);
                assert(d.holds(h));
            },
            _ => {},
        }
    }
}

/// A run that follows the rules does so up to each of its moves.
pub proof fn lemma_prefix_follows(c: Contest, run: Seq<Move>, k: int)
    requires
        c.follows(run),
        0 <= k <= run.len(),
    ensures
        c.follows(run.take(k)),
    decreases run.len(),
{
    if k == run.len() {
        assert(run.take(k) == run);
    } else {
        lemma_prefix_follows(c, run.drop_last(), k);
        assert(run.drop_last().take(k) == run.take(k));
    }
}

/// What one more move at the end of a run adds.
pub proof fn lemma_one_more_move(c: Contest, run: Seq<Move>, m: Move)
    ensures
        c.after(run.push(m)) == c.after(run).apply(m),
        c.follows(run.push(m)) == (c.follows(run) && c.after(run).allows(m)),
{
    assert(run.push(m).drop_last() == run);
    assert(run.push(m).last() == m);
}

/// Mutual exclusion. Start from a new lock and let any threads make any moves that the
/// rules allow, in any order: at the end at most one thread owns the lock, and the flag
/// is set if one does.
pub proof fn lemma_mutual_exclusion(run: Seq<Move>)
    requires
        Contest::fresh().follows(run),
    ensures
        Contest::fresh().after(run).exclusive(),
    decreases run.len(),
{
    if run.len() > 0 {
        lemma_mutual_exclusion(run.drop_last());
        lemma_move_keeps_exclusive(Contest::fresh().after(run.drop_last()), run.last());
    }
}

/// Mutual exclusion at every moment: after each move of a run that follows the rules, no
/// two threads own the lock.
pub proof fn lemma_never_two_holders(run: Seq<Move>, k: int, a: int, b: int)
    requires
        Contest::fresh().follows(run),
        0 <= k <= run.len(),
        Contest::fresh().after(run.take(k)).holds(a),
        Contest::fresh().after(run.take(k)).holds(b),
    ensures
        a == b,
{
    lemma_prefix_follows(Contest::fresh(), run, k);
    lemma_mutual_exclusion(run.take(k));
}

/// The flag tells of a holder. As long as no holder goes away without release, the flag
/// is set exactly while some thread owns the lock.
pub proof fn lemma_flag_set_iff_held(run: Seq<Move>)
    requires
        Contest::fresh().follows(run),
        no_abandon(run),
    ensures
        Contest::fresh().after(run).steady(),
        Contest::fresh().after(run).locked <==> !Contest::fresh().after(run).unheld(),
    decreases run.len(),
{
    if run.len() > 0 {
        let before = run.drop_last();
        assert forall|i: int| 0 <= i < before.len() implies !(#[trigger] before[i] is Abandon) by {
            assert(before[i] == run[i]);
        }
        lemma_flag_set_iff_held(before);
        assert(run.last() == run[run.len() - 1]);
        lemma_move_keeps_steady(Contest::fresh().after(before), run.last());
    }
    let end = Contest::fresh().after(run);
    if !end.unheld() {
        let h = choose|h: int| end.holds(h);
        assert(end.holds(h));
    }
}

/// The lock can still be won. Wherever the contest stands, if no holder has gone away
/// and left the flag set, a thread that asks for the lock is at most three allowed
/// moves from owning it: the holder's release, if somebody else owns it, and two
/// accesses of its own. How soon those moves come is up to the holder and to the
/// hardware; the protocol itself never shuts a thread out.
pub proof fn lemma_lock_can_still_be_won(c: Contest, t: int) -> (run: Seq<Move>)
    requires
        c.steady(),
        c.contends(t),
    ensures
        run.len() <= 3,
        c.follows(run),
        c.after(run).holds(t),
{
    let none = Seq::<Move>::empty();
    if c.holds(t) {
        none
    } else if c.locked {
        let h = choose|h: int| c.holds(h);
        let freed = c.apply(Move::Release(h));
        let first = none.push(Move::Release(h));
        let second = first.push(Move::Step(t));
        let third = second.push(Move::Step(t));
        lemma_one_more_move(c, none, Move::Release(h));
        lemma_one_more_move(c, first, Move::Step(t));
        lemma_one_more_move(c, second, Move::Step(t));
        lemma_lone_contender_wins(freed, t);
        third
    } else {
        let first = none.push(Move::Step(t));
        let second = first.push(Move::Step(t));
        lemma_one_more_move(c, none, Move::Step(t));
        lemma_one_more_move(c, first, Move::Step(t));
        lemma_lone_contender_wins(c, t);
        second
    }
}

/// Bounded overtaking. While no new thread starts to ask, the lock changes hands at most
/// as often as there are threads asking: each one that gets it leaves when it lets go.
/// So a thread that keeps asking sees at most that many others served before it is
/// alone with the flag.
pub proof fn lemma_bounded_overtaking(c: Contest, run: Seq<Move>)
    requires
        c.phases.dom().finite(),
        c.follows(run),
        no_enter(run),
    ensures
        c.after(run).phases.dom().finite(),
        c.after(run).phases.dom().len() + releases(run) <= c.phases.dom().len(),
    decreases run.len(),
{
    if run.len() > 0 {
        let before = run.drop_last();
        assert forall|i: int| 0 <= i < before.len() implies !(#[trigger] before[i] is Enter) by {
            assert(before[i] == run[i]);
        }
        lemma_bounded_overtaking(c, before);
        assert(run.last() == run[run.len() - 1]);
        let d = c.after(before);
        match run.last() {
            Move::Step(t) => {
                assert(d.apply(run.last()).phases.dom() =~= d.phases.dom());
            },
            _ => {},
        }
    }
}

/// Progress without contention. A thread that asks for the lock while the flag is clear
/// and nobody else moves owns it after at most two accesses of its own: at once if it is
/// about to claim, after one read if it was backing off.
pub proof fn lemma_lone_contender_wins(c: Contest, t: int)
    requires
        c.contends(t),
        !c.locked,
    ensures
        c.phases[t] == Phase::Claim ==> c.apply(Move::Step(t)).holds(t),
        c.apply(Move::Step(t)).contends(t),
        c.apply(Move::Step(t)).apply(Move::Step(t)).holds(t),
{
}

/// A single try. On a clear flag it takes the lock; on a set flag it fails and leaves
/// the contest exactly as it was.
pub proof fn lemma_try_once(c: Contest, t: int)
    requires
        !c.contends(t),
    ensures
        !c.locked ==> c.try_once(t).holds(t) && c.try_once(t).locked,
        c.locked ==> c.try_once(t) == c,
{
    if c.locked {
        assert(c.try_once(t).phases =~= c.phases);
    }
}

/// Release. When the holder's guard goes, the flag is clear and nobody owns the lock, so
/// the next claim goes through, whoever makes it.
pub proof fn lemma_release_frees(c: Contest, t: int, next: int)
    requires
        c.exclusive(),
        c.holds(t),
        c.contends(next),
        c.phases[next] == Phase::Claim,
    ensures
        !c.apply(Move::Release(t)).locked,
        c.apply(Move::Release(t)).unheld(),
        c.apply(Move::Release(t)).apply(Move::Step(next)).holds(next),
{
    let d = c.apply(Move::Release(t));
    assert forall|u: int| !d.holds(u) by {
        if d.holds(u) {
            assert(c.holds(u));
        }
    }
}

/// Recovery. A holder that goes away without release leaves the flag set with nobody
/// owning the lock: every claim then fails. Clearing the flag from outside is allowed in
/// that state, and after it the next claim goes through.
pub proof fn lemma_forced_release_recovers(c: Contest, t: int, next: int)
    requires
        c.exclusive(),
        c.holds(t),
        c.contends(next),
        c.phases[next] == Phase::Claim,
    ensures
        c.apply(Move::Abandon(t)).locked,
        !c.apply(Move::Abandon(t)).apply(Move::Step(next)).holds(next),
        c.apply(Move::Abandon(t)).allows(Move::Force),
        c.apply(Move::Abandon(t)).apply(Move::Force).apply(Move::Step(next)).holds(next),
{
    let d = c.apply(Move::Abandon(t));
    assert forall|u: int| !d.holds(u) by {
        if d.holds(u) {
            assert(c.holds(u));
        }
    }
}

/// Why `Force` has its rule. Cleared from outside while a thread owns the lock, the flag
/// lets the next claim through as well, and two threads own the lock at once.
pub proof fn lemma_force_while_held_admits_second(c: Contest, t: int, next: int)
    requires
        c.holds(t),
        c.contends(next),
        c.phases[next] == Phase::Claim,
    ensures
        !c.allows(Move::Force),
        c.apply(Move::Force).apply(Move::Step(next)).holds(t),
        c.apply(Move::Force).apply(Move::Step(next)).holds(next),
        !c.apply(Move::Force).apply(Move::Step(next)).exclusive(),
{
    let d = c.apply(Move::Force).apply(Move::Step(next));
    assert(d.holds(t) && d.holds(next) && t != next);
}

} // verus!
