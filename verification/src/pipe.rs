//! The queue of commands sent to the database in one round trip.
use vstd::prelude::*;
use vstd::string::*;
use crate::util::{str_to_vec, slice_to_vec};

verus! {

/// One argument of a command; the database client writes it as text.
#[derive(Debug)]
pub enum Arg {
    Bytes(Vec<u8>),
    Int(i128),
    Bool(bool),
    /// An `f32`, by its bit pattern.
    F32Bits(u32),
}

pub enum ArgView {
    Bytes(Seq<u8>),
    Int(int),
    Bool(bool),
    F32Bits(u32),
}

impl View for Arg {
    type V = ArgView;

    open spec fn view(&self) -> ArgView {
        match self {
            Arg::Bytes(b) => ArgView::Bytes(b@),
            Arg::Int(i) => ArgView::Int(*i as int),
            Arg::Bool(b) => ArgView::Bool(*b),
            Arg::F32Bits(f) => ArgView::F32Bits(*f),
        }
    }
}

/// A command: its name and arguments, and whether its reply is left out of
/// the round trip's reply.
#[derive(Debug)]
pub struct Cmd {
    pub args: Vec<Arg>,
    pub ignored: bool,
}

#[verifier::ext_equal]
pub struct CmdView {
    pub args: Seq<ArgView>,
    pub ignored: bool,
}

impl View for Cmd {
    type V = CmdView;

    open spec fn view(&self) -> CmdView {
        CmdView { args: self.args@.map_values(|a: Arg| a@), ignored: self.ignored }
    }
}

/// The commands queued for the next round trip, in order.
#[derive(Debug)]
pub struct Pipe {
    pub cmds: Vec<Cmd>,
}

impl View for Pipe {
    type V = Seq<CmdView>;

    open spec fn view(&self) -> Seq<CmdView> {
        self.cmds@.map_values(|c: Cmd| c@)
    }
}

/// The argument written as the bytes of a text.
pub open spec fn bytes(s: &str) -> ArgView {
    ArgView::Bytes(s.spec_bytes())
}

/// A command whose reply is kept.
pub open spec fn kept(args: Seq<ArgView>) -> CmdView {
    CmdView { args, ignored: false }
}

/// A command whose reply is left out.
pub open spec fn dropped(args: Seq<ArgView>) -> CmdView {
    CmdView { args, ignored: true }
}

pub open spec fn args_view(args: Seq<Arg>) -> Seq<ArgView> {
    args.map_values(|a: Arg| a@)
}

/// A text argument.
pub fn text(s: &str) -> (a: Arg)
    ensures
        a@ == bytes(s),
{
    Arg::Bytes(str_to_vec(s))
}

/// A byte-string argument.
pub fn raw(b: &[u8]) -> (a: Arg)
    ensures
        a@ == ArgView::Bytes(b@),
{
    Arg::Bytes(slice_to_vec(b))
}

impl Pipe {
    pub fn new() -> (p: Pipe)
        ensures
            p@ == Seq::<CmdView>::empty(),
    {
        Pipe { cmds: Vec::new() }
    }

    /// Starts a new command named `name`.
    pub fn cmd(&mut self, name: &str)
        ensures
            final(self)@ == old(self)@.push(CmdView { args: seq![bytes(name)], ignored: false }),
    {
        let mut args: Vec<Arg> = Vec::new();
        args.push(Arg::Bytes(str_to_vec(name)));
        let c = Cmd { args, ignored: false };
        proof {
            assert(c@.args =~= seq![bytes(name)]);
        }
        self.cmds.push(c);
        proof {
            assert(self@ =~= old(self)@.push(CmdView { args: seq![bytes(name)], ignored: false }));
        }
    }

    /// Adds an argument to the last command.
    pub fn arg(&mut self, a: Arg)
        requires
            old(self)@.len() > 0,
        ensures
            final(self)@ == old(self)@.update(
                old(self)@.len() - 1,
                CmdView { args: old(self)@.last().args.push(a@), ignored: old(self)@.last().ignored },
            ),
    {
        let ghost av = a@;
        let n = self.cmds.len();
        let mut last = self.cmds.pop().unwrap();
        last.args.push(a);
        proof {
            assert(last@.args =~= old(self)@.last().args.push(av));
        }
        self.cmds.push(last);
        proof {
            assert(self@ =~= old(self)@.update(
                old(self)@.len() - 1,
                CmdView { args: old(self)@.last().args.push(av), ignored: old(self)@.last().ignored },
            ));
        }
    }

    /// Leaves the last command's reply out of the round trip's reply.
    pub fn ignore(&mut self)
        ensures
            old(self)@.len() == 0 ==> final(self)@ == old(self)@,
            old(self)@.len() > 0 ==> final(self)@ == old(self)@.update(
                old(self)@.len() - 1,
                CmdView { args: old(self)@.last().args, ignored: true },
            ),
    {
        if self.cmds.len() > 0 {
            let mut last = self.cmds.pop().unwrap();
            last.ignored = true;
            self.cmds.push(last);
            proof {
                assert(self@ =~= old(self)@.update(
                    old(self)@.len() - 1,
                    CmdView { args: old(self)@.last().args, ignored: true },
                ));
            }
        }
    }

    /// Queues a whole command.
    pub fn push(&mut self, c: Cmd)
        ensures
            final(self)@ == old(self)@.push(c@),
    {
        let ghost cv = c@;
        self.cmds.push(c);
        proof {
            assert(self@ =~= old(self)@.push(cv));
        }
    }

    /// Empties the queue once its round trip is done.
    pub fn clear(&mut self)
        ensures
            final(self)@ == Seq::<CmdView>::empty(),
    {
        self.cmds = Vec::new();
    }
}

} // verus!
