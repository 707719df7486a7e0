//! Pieces used while building the blocks of a function: a block under construction and
//! the stack of loops that `break` and `continue` refer to.
use vstd::prelude::*;

use smallvec::SmallVec;

use crate::mir::{Block, BlockId, Instruction, TempId, Terminator};

verus! {

/// A basic block that is still being filled.
#[derive(Debug, Default)]
pub struct BlockBuilder {
    body: Vec<Instruction>,
    term: Option<Terminator>,
}

#[derive(Debug, Clone, Copy, PartialEq, Eq, Structural)]
pub enum BlockBuilderError {
    /// May not terminate the same block more than once.
    AlreadyTerminated,
    /// The block has not been terminated yet.
    Unterminated,
}

impl BlockBuilder {
    /// The instructions pushed so far.
    pub closed spec fn body_view(&self) -> Seq<Instruction> {
        self.body@
    }

    /// How the block ends, once that is known.
    pub closed spec fn term_view(&self) -> Option<Terminator> {
        self.term
    }

    pub fn push_instr(&mut self, instr: Instruction) -> (r: &mut Self)
        ensures
            r.body_view() == old(self).body_view().push(instr),
            r.term_view() == old(self).term_view(),
            *final(self) == *final(r),
    {
        self.body.push(instr);
        self
    }

    /// Pushes the instruction if there is one.
    pub fn push_instr_opt(&mut self, instr: Option<Instruction>) -> (r: &mut Self)
        ensures
            r.body_view() == (match instr {
                Some(i) => old(self).body_view().push(i),
                None => old(self).body_view(),
            }),
            r.term_view() == old(self).term_view(),
            *final(self) == *final(r),
    {
        if let Some(instr) = instr {
            self.body.push(instr);
        }
        self
    }

    pub fn is_terminated(&self) -> (r: bool)
        ensures
            r == (self.term_view() is Some),
    {
        self.term.is_some()
    }

    /// Ends the block with `term`. A block may end only once: on one that already ends the
    /// call fails and the block keeps its first terminator.
    pub fn terminate(&mut self, term: Terminator) -> (r: Result<(), BlockBuilderError>)
        ensures
            final(self).body_view() == old(self).body_view(),
            match old(self).term_view() {
                Some(t) => r == Err::<(), BlockBuilderError>(BlockBuilderError::AlreadyTerminated)
                    && final(self).term_view() == Some(t),
                None => r is Ok && final(self).term_view() == Some(term),
            },
    {
        if self.is_terminated() {
            Err(BlockBuilderError::AlreadyTerminated)
        } else {
            self.term = Some(term);
            Ok(())
        }
    }

    /// The finished block; fails where no terminator was given.
    pub fn build(self) -> (r: Result<Block, BlockBuilderError>)
        ensures
            match self.term_view() {
                Some(t) => r matches Ok(b) && b.body@ == self.body_view() && b.term == t,
                None => r == Err::<Block, BlockBuilderError>(BlockBuilderError::Unterminated),
            },
    {
        match self.term {
            Some(term) => Ok(Block { body: self.body, term }),
            None => Err(BlockBuilderError::Unterminated),
        }
    }
}

/// The blocks that a loop enters at and leaves to, and where its value goes.
#[derive(Debug, Clone, Copy, PartialEq, Eq, Structural)]
pub struct LoopCtx {
    pub enter_block: BlockId,
    pub join_block: BlockId,
    pub dest: TempId,
}

/// The loops around the code being built, innermost last (a `SmallVec` with room for
/// eight inline).
#[verifier::external_body]
pub struct LoopStack(SmallVec<[LoopCtx; 8]>);

/// The loops on a stack, outermost first.
pub uninterp spec fn loop_frames(s: LoopStack) -> Seq<LoopCtx>;

/// An empty stack (`SmallVec::new`).
#[verifier::external_body]
fn frames_new() -> (r: LoopStack)
    ensures
        loop_frames(r) == Seq::<LoopCtx>::empty(),
{
    LoopStack(SmallVec::new())
}

/// Pushes `ctx` on top (`SmallVec::push`).
#[verifier::external_body]
fn frames_push(s: &mut LoopStack, ctx: LoopCtx)
    requires
        loop_frames(*old(s)).len() < usize::MAX,
    ensures
        loop_frames(*final(s)) == loop_frames(*old(s)).push(ctx),
{
    s.0.push(ctx);
}

/// Removes the top and gives it back, if there is one (`SmallVec::pop`).
#[verifier::external_body]
fn frames_pop(s: &mut LoopStack) -> (r: Option<LoopCtx>)
    ensures
        loop_frames(*old(s)).len() == 0 ==> r is None && loop_frames(*final(s)) == loop_frames(
            *old(s),
        ),
        loop_frames(*old(s)).len() > 0 ==> r == Some(loop_frames(*old(s)).last()) && loop_frames(
            *final(s),
        ) == loop_frames(*old(s)).drop_last(),
{
    s.0.pop()
}

/// The top, if there is one (the slice's `last`).
#[verifier::external_body]
fn frames_last(s: &LoopStack) -> (r: Option<&LoopCtx>)
    ensures
        loop_frames(*s).len() == 0 ==> r is None,
        loop_frames(*s).len() > 0 ==> r == Some(&loop_frames(*s).last()),
{
    s.0.last()
}

impl LoopStack {
    /// The loops, outermost first.
    pub open spec fn frames(&self) -> Seq<LoopCtx> {
        loop_frames(*self)
    }

    /// Enters a loop.
    pub fn enter(&mut self, enter_block: BlockId, join_block: BlockId, dest: TempId)
        requires
            old(self).frames().len() < usize::MAX,
        ensures
            entered(old(self).frames(), final(self).frames(), LoopCtx { enter_block, join_block, dest }),
    {
        frames_push(self, LoopCtx { enter_block, join_block, dest });
    }

    /// Leaves the innermost loop and gives it back.
    pub fn leave(&mut self) -> (r: Option<LoopCtx>)
        ensures
            left(old(self).frames(), final(self).frames(), r),
    {
        frames_pop(self)
    }

    /// The innermost loop, if inside one.
    pub fn current(&mut self) -> (r: Option<&LoopCtx>)
        ensures
            final(self).frames() == old(self).frames(),
            old(self).frames().len() == 0 ==> r is None,
            old(self).frames().len() > 0 ==> r == Some(&old(self).frames().last()),
    {
        frames_last(self)
    }
}

/// `after` is `before` with `ctx` entered as the innermost loop.
pub open spec fn entered(before: Seq<LoopCtx>, after: Seq<LoopCtx>, ctx: LoopCtx) -> bool {
    after == before.push(ctx)
}

/// `after` is `before` with its innermost loop left, and `r` is that loop; with no loop to
/// leave, nothing changes and `r` is `None`.
pub open spec fn left(before: Seq<LoopCtx>, after: Seq<LoopCtx>, r: Option<LoopCtx>) -> bool {
    if before.len() == 0 {
        r is None && after == before
    } else {
        r == Some(before.last()) && after == before.drop_last()
    }
}

/// Leaving a loop undoes entering it: the loop entered last comes back out, and the loops
/// around it are as they were.
pub proof fn lemma_leave_undoes_enter(
    start: Seq<LoopCtx>,
    inside: Seq<LoopCtx>,
    end: Seq<LoopCtx>,
    ctx: LoopCtx,
    r: Option<LoopCtx>,
)
    requires
        entered(start, inside, ctx),
        left(inside, end, r),
    ensures
        r == Some(ctx),
        end == start,
{
    assert(start.push(ctx).drop_last() =~= start);
}

impl Default for LoopStack {
    fn default() -> (r: Self)
        ensures
            r.frames() == Seq::<LoopCtx>::empty(),
    {
        frames_new()
    }
}

} // verus!
