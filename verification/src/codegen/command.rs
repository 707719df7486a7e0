//! Building the description of an external command: program, arguments and which of its
//! output streams are piped.
use vstd::prelude::*;

use smallvec::SmallVec;

verus! {

/// Which output stream a pipe flag stands for: a bit index below 8.
#[derive(Clone, Copy, Debug, PartialEq, Eq, Structural)]
pub struct FlagId(pub u8);

/// The bit of the stdout flag.
pub const STDOUT_BIT: u8 = 0;

/// The bit of the stderr flag.
pub const STDERR_BIT: u8 = 1;

/// One bit per output stream: set when the stream is to be piped.
#[derive(Default, Clone, Copy, Debug, PartialEq, Eq, Structural)]
pub struct PipeFlags(pub u8);

/// Whether bit `idx` of `bits` is set.
pub open spec fn bit_set(bits: u8, idx: u8) -> bool {
    bits & (1u8 << idx) != 0
}

impl PipeFlags {
    /// No stream piped.
    pub fn new() -> (r: Self)
        ensures
            r.0 == 0,
            forall|i: u8| i < 8 ==> !bit_set(r.0, i),
    {
        proof {
            assert(forall|i: u8| i < 8 ==> #[trigger] (0u8 & (1u8 << i)) == 0) by (bit_vector);
        }
        PipeFlags(0)
    }

    /// Flips the flag `idx`.
    pub fn toggle(&mut self, flag: FlagId)
        requires
            flag.0 < 8,
        ensures
            final(self).0 == old(self).0 ^ (1u8 << flag.0),
            bit_set(final(self).0, flag.0) == !bit_set(old(self).0, flag.0),
            forall|i: u8| i < 8 && i != flag.0 ==> bit_set(final(self).0, i) == bit_set(old(self).0, i),
    {
        let FlagId(idx) = flag;
        let old_bits = self.0;
        self.0 ^= 1u8 << idx;
        proof {
            let new_bits = self.0;
            assert(new_bits == old_bits ^ (1u8 << idx));
            assert(idx < 8 ==> ((old_bits ^ (1u8 << idx)) & (1u8 << idx) != 0) == !(old_bits & (1u8 << idx) != 0)) by (bit_vector);
            assert(forall|i: u8| #![trigger (1u8 << i)] i < 8 && i != idx && idx < 8 ==> (((old_bits ^ (1u8 << idx)) & (1u8 << i) != 0) == (old_bits & (1u8 << i) != 0))) by (bit_vector);
        }
    }

    pub fn is_set(&self, flag: FlagId) -> (r: bool)
        requires
            flag.0 < 8,
        ensures
            r == bit_set(self.0, flag.0),
    {
        let FlagId(idx) = flag;
        self.0 & (1u8 << idx) != 0
    }

    pub fn is_unset(&self, flag: FlagId) -> (r: bool)
        requires
            flag.0 < 8,
        ensures
            r == !bit_set(self.0, flag.0),
    {
        !self.is_set(flag)
    }

    /// Sets the flag `id`, leaving every other flag as it was.
    pub fn set_on(&mut self, id: FlagId)
        requires
            id.0 < 8,
        ensures
            bit_set(final(self).0, id.0),
            forall|i: u8| i < 8 && i != id.0 ==> bit_set(final(self).0, i) == bit_set(old(self).0, i),
    {
        if !self.is_set(id) {
            self.toggle(id);
        }
    }
}

/// Toggling a flag twice restores every flag.
pub proof fn lemma_toggle_twice(bits: u8, idx: u8)
    requires
        idx < 8,
    ensures
        (bits ^ (1u8 << idx)) ^ (1u8 << idx) == bits,
{
    assert(idx < 8 ==> (bits ^ (1u8 << idx)) ^ (1u8 << idx) == bits) by (bit_vector);
}

/// Command arguments, kept inline while there are few of them (a `SmallVec`).
#[verifier::external_body]
pub struct ArgList {
    inner: SmallVec<[String; 4]>,
}

/// The arguments held by an argument list, in order.
pub uninterp spec fn arg_list(v: ArgList) -> Seq<Seq<char>>;

/// An empty small vector (`SmallVec::new`).
#[verifier::external_body]
fn args_new() -> (r: ArgList)
    ensures
        arg_list(r) == Seq::<Seq<char>>::empty(),
{
    ArgList { inner: SmallVec::new() }
}

/// Appends `arg` (`SmallVec::push`).
#[verifier::external_body]
fn args_push(v: &mut ArgList, arg: String)
    requires
        arg_list(*old(v)).len() < usize::MAX,
    ensures
        arg_list(*final(v)) == arg_list(*old(v)).push(arg@),
{
    v.inner.push(arg);
}

/// The arguments, copied out in order (`SmallVec::as_slice`, then copied).
#[verifier::external_body]
fn args_to_vec(v: &ArgList) -> (r: Vec<String>)
    ensures
        r@.len() == arg_list(*v).len(),
        forall|i: int| 0 <= i < r@.len() ==> #[trigger] r@[i]@ == arg_list(*v)[i],
{
    v.inner.as_slice().to_vec()
}

/// A command to run: the program, its arguments and the streams to pipe.
pub struct CommandBuilder {
    program: String,
    args: Option<ArgList>,
    pipe_flags: PipeFlags,
}

impl CommandBuilder {
    /// The program name.
    pub closed spec fn program_view(&self) -> Seq<char> {
        self.program@
    }

    /// The arguments given so far, in order.
    pub closed spec fn args_view(&self) -> Seq<Seq<char>> {
        match self.args {
            Some(a) => arg_list(a),
            None => Seq::empty(),
        }
    }

    /// Whether stdout and stderr are piped.
    pub closed spec fn pipes_view(&self) -> (bool, bool) {
        (bit_set(self.pipe_flags.0, 0), bit_set(self.pipe_flags.0, 1))
    }

    pub fn new(program: &str) -> (r: Self)
        ensures
            r.program_view() == program@,
            r.args_view().len() == 0,
            r.pipes_view() == (false, false),
    {
        let flags = PipeFlags::new();
        Self { program: program.to_owned(), args: None, pipe_flags: flags }
    }

    /// Adds an argument after those given so far.
    pub fn arg(self, arg: String) -> (r: Self)
        requires
            self.args_view().len() < usize::MAX,
        ensures
            r.program_view() == self.program_view(),
            r.args_view() == self.args_view().push(arg@),
            r.pipes_view() == self.pipes_view(),
    {
        let CommandBuilder { program, args, pipe_flags } = self;
        let mut args = match args {
            Some(a) => a,
            None => args_new(),
        };
        args_push(&mut args, arg);
        CommandBuilder { program, args: Some(args), pipe_flags }
    }

    /// Pipes both stdout and stderr.
    pub fn with_piped_stdio(self) -> (r: Self)
        ensures
            r.program_view() == self.program_view(),
            r.args_view() == self.args_view(),
            r.pipes_view() == (true, true),
    {
        let mut builder = self;
        builder.pipe_flags.set_on(FlagId(STDOUT_BIT));
        builder.pipe_flags.set_on(FlagId(STDERR_BIT));
        builder
    }

    pub fn program(&self) -> (r: &str)
        ensures
            r@ == self.program_view(),
    {
        self.program.as_str()
    }

    /// The arguments given so far, in order.
    pub fn args(&self) -> (r: Vec<String>)
        ensures
            r@.len() == self.args_view().len(),
            forall|i: int| 0 <= i < r@.len() ==> #[trigger] r@[i]@ == self.args_view()[i],
    {
        match &self.args {
            Some(a) => args_to_vec(a),
            None => Vec::new(),
        }
    }

    /// Whether stdout is to be piped.
    pub fn pipes_stdout(&self) -> (r: bool)
        ensures
            r == self.pipes_view().0,
    {
        self.pipe_flags.is_set(FlagId(STDOUT_BIT))
    }

    /// Whether stderr is to be piped.
    pub fn pipes_stderr(&self) -> (r: bool)
        ensures
            r == self.pipes_view().1,
    {
        self.pipe_flags.is_set(FlagId(STDERR_BIT))
    }
}

} // verus!
