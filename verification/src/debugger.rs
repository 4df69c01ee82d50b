//! The reversible debugger: an append-only history of machine snapshots with
//! a cursor.  Stepping forward at the end of history runs the machine one
//! cycle and appends the result; stepping backward only moves the cursor, so
//! any depth of backward travel is exact.

use vstd::prelude::*;
use crate::architecture::{Chip8, Chip8View, StepError};
use crate::emulator::spec_step;

verus! {

/// The mathematical model of a debugger: the snapshot views, the cursor, and
/// the diff-highlight toggle.
#[verifier::ext_equal]
pub ghost struct DebuggerView {
    pub history: Seq<Chip8View>,
    pub cursor: int,
    pub diff: bool,
}

/// One machine can step to the other: some byte from the random source
/// explains the transition.
pub open spec fn steps_to(pre: Chip8View, post: Chip8View) -> bool {
    exists|b: u8| spec_step(pre, b) == Ok::<Chip8View, StepError>(post)
}

/// One step from this machine fails with the given error, for some byte from
/// the random source.
pub open spec fn fails_with(pre: Chip8View, e: StepError) -> bool {
    exists|b: u8| spec_step(pre, b) == Err::<Chip8View, StepError>(e)
}

impl DebuggerView {
    /// The snapshot the user is looking at.
    pub open spec fn visible(self) -> Chip8View {
        self.history[self.cursor]
    }

    /// History is never empty, the cursor stays inside it, every snapshot is
    /// well formed, and each snapshot is one successful step after the one
    /// before it.
    pub open spec fn wf(self) -> bool {
        &&& 1 <= self.history.len()
        &&& 0 <= self.cursor < self.history.len()
        &&& forall|i: int| 0 <= i < self.history.len() ==> (#[trigger] self.history[i]).wf()
        &&& forall|i: int|
            0 <= i < self.history.len() - 1 ==> #[trigger] steps_to(
                self.history[i],
                self.history[i + 1],
            )
    }
}

/// One successful forward step: the cursor advances; when it was at the end
/// of history, a snapshot reached by one machine step is appended first.
pub open spec fn dbg_forward_ok(pre: DebuggerView, post: DebuggerView) -> bool {
    &&& post.cursor == pre.cursor + 1
    &&& post.diff == pre.diff
    &&& if pre.cursor + 1 < pre.history.len() {
        post.history == pre.history
    } else {
        &&& post.history.len() == pre.history.len() + 1
        &&& post.history.subrange(0, pre.history.len() as int) == pre.history
        &&& steps_to(pre.history.last(), post.history.last())
    }
}

/// One successful backward step: only the cursor moves.
pub open spec fn dbg_back_ok(pre: DebuggerView, post: DebuggerView) -> bool {
    &&& pre.cursor > 0
    &&& post == (DebuggerView { cursor: pre.cursor - 1, ..pre })
}

/// `n` successful forward steps in a row.
pub open spec fn dbg_forward_n(pre: DebuggerView, post: DebuggerView, n: nat) -> bool
    decreases n,
{
    if n == 0 {
        post == pre
    } else {
        exists|mid: DebuggerView|
            dbg_forward_n(pre, mid, (n - 1) as nat) && dbg_forward_ok(mid, post)
    }
}

/// `n` successful backward steps in a row.
pub open spec fn dbg_back_n(pre: DebuggerView, post: DebuggerView, n: nat) -> bool
    decreases n,
{
    if n == 0 {
        post == pre
    } else {
        exists|mid: DebuggerView| dbg_back_n(pre, mid, (n - 1) as nat) && dbg_back_ok(mid, post)
    }
}

/// Moving only the cursor (or toggling the diff flag) keeps a debugger well
/// formed.
pub proof fn lemma_wf_same_history(pre: DebuggerView, post: DebuggerView)
    requires
        pre.wf(),
        post.history == pre.history,
        0 <= post.cursor < post.history.len(),
    ensures
        post.wf(),
{
}

/// A reversible debugger over a machine.
pub struct Debugger {
    /// Every machine state seen so far, oldest first; index 0 is the
    /// post-load state.  Snapshots are never rewritten.
    pub history: Vec<Chip8>,
    /// The index of the snapshot the user is looking at.
    pub p: usize,
    /// Whether the interface should highlight register changes between the
    /// cursor and its predecessor.
    pub diff: bool,
}

impl View for Debugger {
    type V = DebuggerView;

    open spec fn view(&self) -> DebuggerView {
        DebuggerView {
            history: self.history@.map_values(|c: Chip8| c@),
            cursor: self.p as int,
            diff: self.diff,
        }
    }
}

impl Debugger {
    /// A debugger whose history holds just the given machine.
    pub fn new(chip: Chip8) -> (r: Debugger)
        requires
            chip@.wf(),
        ensures
            r@.wf(),
            r@.history =~= seq![chip@],
            r@.cursor == 0,
            r@.diff == false,
    {
        let mut history: Vec<Chip8> = Vec::new();
        history.push(chip);
        let r = Debugger { history, p: 0, diff: false };
        proof {
            assert(r@.history =~= seq![chip@]);
        }
        r
    }

    /// The snapshot at the cursor.
    pub fn peek(&self) -> (r: &Chip8)
        requires
            self@.wf(),
        ensures
            r@ == self@.visible(),
    {
        &self.history[self.p]
    }

    /// The snapshot just before the cursor, if the cursor is not at the
    /// oldest one.
    pub fn peek_prev(&self) -> (r: Option<&Chip8>)
        requires
            self@.wf(),
        ensures
            self@.cursor > 0 ==> (r matches Some(c) && c@ == self@.history[self@.cursor - 1]),
            self@.cursor == 0 ==> r is None,
    {
        if self.p > 0 {
            Some(&self.history[self.p - 1])
        } else {
            None
        }
    }

    /// The index of the visible snapshot.
    pub fn step_number(&self) -> (r: usize)
        ensures
            r == self@.cursor,
    {
        self.p
    }

    /// The index of the newest snapshot.
    pub fn step_max(&self) -> (r: usize)
        requires
            self@.wf(),
        ensures
            r == self@.history.len() - 1,
    {
        self.history.len() - 1
    }

    /// Flips the diff-highlight toggle; nothing else changes.
    pub fn toggle_diff(&mut self)
        ensures
            final(self)@ == (DebuggerView { diff: !old(self)@.diff, ..old(self)@ }),
    {
        self.diff = !self.diff;
    }

    /// Moves the cursor one snapshot back; reports whether that was
    /// possible.
    pub fn step_back(&mut self) -> (possible: bool)
        requires
            old(self)@.wf(),
        ensures
            final(self)@.wf(),
            possible == (old(self)@.cursor > 0),
            possible ==> dbg_back_ok(old(self)@, final(self)@),
            !possible ==> final(self)@ == old(self)@,
    {
        let possible = self.p > 0;
        if possible {
            self.p = self.p - 1;
        }
        proof {
            lemma_wf_same_history(old(self)@, self@);
        }
        possible
    }

    /// Moves the cursor one snapshot forward.  At the end of history the
    /// machine is cloned and run one cycle first; if that cycle fails, the
    /// error is returned, history is not extended and the cursor does not
    /// move.
    #[verifier::rlimit(100)]
    pub fn step_forward(&mut self) -> (r: Result<(), StepError>)
        requires
            old(self)@.wf(),
        ensures
            final(self)@.wf(),
            r is Ok ==> dbg_forward_ok(old(self)@, final(self)@),
            r matches Err(e) ==> {
                &&& final(self)@ == old(self)@
                &&& old(self)@.cursor == old(self)@.history.len() - 1
                &&& fails_with(old(self)@.visible(), e)
            },
    {
        let hlen = self.history.len();
        proof {
            assert(self.p < hlen);
        }
        if self.p + 1 < hlen {
            self.p = self.p + 1;
            proof {
                lemma_wf_same_history(old(self)@, self@);
            }
            Ok(())
        } else {
            let mut next = self.history[hlen - 1].clone();
            let ghost lastv = next@;
            proof {
                assert(lastv == old(self)@.history.last());
            }
            match next.run_instr() {
                Ok(()) => {
                    self.history.push(next);
                    self.p = self.p + 1;
                    proof {
                        let h0 = old(self)@.history;
                        let h1 = self@.history;
                        assert(h1 =~= h0.push(next@));
                        assert(h1.subrange(0, h0.len() as int) =~= h0);
                        let wb = choose|b: u8|
                            spec_step(lastv, b) == Ok::<Chip8View, StepError>(next@);
                        assert(spec_step(h0.last(), wb) == Ok::<Chip8View, StepError>(h1.last()));
                        assert(steps_to(h0.last(), h1.last()));
                        assert forall|i: int| 0 <= i < h1.len() implies (#[trigger] h1[i]).wf() by {
                            if i < h0.len() {
                                assert(h1[i] == h0[i]);
                            } else {
                                assert(h1[i] == next@);
                            }
                        }
                        assert forall|i: int| 0 <= i < h1.len() - 1 implies #[trigger] steps_to(
                            h1[i],
                            h1[i + 1],
                        ) by {
                            if i < h0.len() - 1 {
                                assert(h1[i] == h0[i] && h1[i + 1] == h0[i + 1]);
                                assert(steps_to(h0[i], h0[i + 1]));
                            } else {
                                assert(h1[i] == h0.last() && h1[i + 1] == next@);
                            }
                        }
                    }
                    Ok(())
                },
                Err(e) => {
                    proof {
                        let b = choose|b: u8|
                            spec_step(lastv, b) == Err::<Chip8View, StepError>(e) && next@
                                == lastv;
                        assert(spec_step(old(self)@.visible(), b) == Err::<Chip8View, StepError>(
                            e,
                        ));
                        assert(fails_with(old(self)@.visible(), e));
                    }
                    Err(e)
                },
            }
        }
    }

    /// Steps forward up to `n` times, stopping at the first failing cycle:
    /// the debugger ends `k` successful steps ahead, and `k` falls short of
    /// `n` only when the cursor sits at the end of history on a machine
    /// whose next cycle fails.
    pub fn steps_forward(&mut self, n: usize)
        requires
            old(self)@.wf(),
        ensures
            final(self)@.wf(),
            exists|k: nat|
                {
                    &&& k <= n
                    &&& #[trigger] dbg_forward_n(old(self)@, final(self)@, k)
                    &&& k < n ==> final(self)@.cursor == final(self)@.history.len() - 1
                        && exists|e: StepError| fails_with(final(self)@.visible(), e)
                },
    {
        let mut m: usize = 0;
        proof {
            assert(dbg_forward_n(old(self)@, self@, 0));
        }
        while m < n
            invariant
                self@.wf(),
                m <= n,
                dbg_forward_n(old(self)@, self@, m as nat),
            decreases n - m,
        {
            let ghost prev = self@;
            match self.step_forward() {
                Ok(()) => {
                    proof {
                        assert(dbg_forward_n(old(self)@, self@, (m + 1) as nat));
                    }
                },
                Err(e) => {
                    proof {
                        assert(fails_with(self@.visible(), e));
                        assert(self@.cursor == self@.history.len() - 1);
                        assert(dbg_forward_n(old(self)@, self@, m as nat));
                    }
                    return ;
                },
            }
            m = m + 1;
        }
        proof {
            assert(dbg_forward_n(old(self)@, self@, n as nat));
        }
    }

    /// Steps backward up to `n` times, stopping at the oldest snapshot.
    pub fn steps_back(&mut self, n: usize)
        requires
            old(self)@.wf(),
        ensures
            final(self)@.wf(),
            final(self)@.history == old(self)@.history,
            final(self)@.diff == old(self)@.diff,
            final(self)@.cursor == if old(self)@.cursor >= n {
                old(self)@.cursor - n
            } else {
                0
            },
    {
        let mut m: usize = 0;
        while m < n
            invariant
                self@.wf(),
                m <= n,
                self@.history == old(self)@.history,
                self@.diff == old(self)@.diff,
                self@.cursor == if old(self)@.cursor >= m {
                    old(self)@.cursor - m
                } else {
                    0
                },
            decreases n - m,
        {
            let moved = self.step_back();
            if !moved {
                proof {
                    assert(old(self)@.cursor <= m);
                }
                return ;
            }
            m = m + 1;
        }
    }
}

/// After `n` forward steps, the cursor has advanced `n` snapshots and the
/// old history is an unchanged prefix of the new one.
pub proof fn lemma_forward_n_props(a: DebuggerView, b: DebuggerView, n: nat)
    requires
        dbg_forward_n(a, b, n),
    ensures
        b.cursor == a.cursor + n,
        b.diff == a.diff,
        a.history.len() <= b.history.len(),
        b.history.subrange(0, a.history.len() as int) == a.history,
    decreases n,
{
    if n == 0 {
        assert(b.history.subrange(0, a.history.len() as int) =~= a.history);
    } else {
        let mid = choose|mid: DebuggerView|
            dbg_forward_n(a, mid, (n - 1) as nat) && dbg_forward_ok(mid, b);
        lemma_forward_n_props(a, mid, (n - 1) as nat);
        assert(b.history.subrange(0, a.history.len() as int) =~= a.history) by {
            assert(mid.history.subrange(0, a.history.len() as int) =~= a.history);
            if mid.cursor + 1 < mid.history.len() {
            } else {
                assert(b.history.subrange(0, mid.history.len() as int) == mid.history);
                assert forall|j: int| 0 <= j < a.history.len() implies b.history[j]
                    == a.history[j] by {
                    assert(b.history[j] == mid.history[j]);
                    assert(mid.history[j] == a.history[j]);
                }
            }
        }
    }
}

/// After `n` backward steps the cursor has moved back `n` snapshots and the
/// history is untouched.
pub proof fn lemma_back_n_props(a: DebuggerView, b: DebuggerView, n: nat)
    requires
        dbg_back_n(a, b, n),
    ensures
        b.cursor == a.cursor - n,
        b.diff == a.diff,
        b.history == a.history,
    decreases n,
{
    if n > 0 {
        let mid = choose|mid: DebuggerView|
            dbg_back_n(a, mid, (n - 1) as nat) && dbg_back_ok(mid, b);
        lemma_back_n_props(a, mid, (n - 1) as nat);
    }
}

/// Time travel is exact: `n` successful forward steps followed by `n`
/// backward steps leave the visible snapshot exactly as it was.
pub proof fn lemma_forward_back_restores(
    a: DebuggerView,
    b: DebuggerView,
    c: DebuggerView,
    n: nat,
)
    requires
        a.wf(),
        dbg_forward_n(a, b, n),
        dbg_back_n(b, c, n),
    ensures
        c.visible() == a.visible(),
        c.cursor == a.cursor,
{
    lemma_forward_n_props(a, b, n);
    lemma_back_n_props(b, c, n);
    assert(c.history[a.cursor] == b.history.subrange(0, a.history.len() as int)[a.cursor]);
}

/// What `peek` shows after one forward step is one machine step of what
/// `peek` showed before it, for some byte from the random source.
pub proof fn lemma_step_forward_steps(pre: DebuggerView, post: DebuggerView)
    requires
        pre.wf(),
        dbg_forward_ok(pre, post),
    ensures
        steps_to(pre.visible(), post.visible()),
{
    if pre.cursor + 1 < pre.history.len() {
        assert(steps_to(pre.history[pre.cursor], pre.history[pre.cursor + 1]));
    } else {
        assert(pre.visible() == pre.history.last());
        assert(post.visible() == post.history.last());
    }
}

} // verus!
