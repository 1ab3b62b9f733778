//! Descriptions of external tool invocations and file-system effects.
//!
//! The library never spawns a process or touches the file system itself: it
//! returns `Cmd` and `Step` values whose contracts pin down the program,
//! the argument list, the working directory and the file operations, and
//! the caller executes them in order, stopping at the first failure.

use vstd::prelude::*;

verus! {

/// Mathematical value of a [`Cmd`].
pub ghost struct CmdView {
    pub prog: Seq<char>,
    pub args: Seq<Seq<char>>,
    pub cwd: Option<Seq<char>>,
}

/// One external program invocation: program path, arguments in order, and
/// an optional working directory.
#[derive(Clone, Debug)]
pub struct Cmd {
    pub prog: String,
    pub args: Vec<String>,
    pub cwd: Option<String>,
}

impl View for Cmd {
    type V = CmdView;

    open spec fn view(&self) -> CmdView {
        CmdView {
            prog: self.prog@,
            args: self.args.deep_view(),
            cwd: match self.cwd {
                Some(d) => Some(d@),
                None => None,
            },
        }
    }
}

impl DeepView for Cmd {
    type V = CmdView;

    open spec fn deep_view(&self) -> CmdView {
        self.view()
    }
}

impl Cmd {
    /// A command with no arguments and no working directory.
    pub fn new(prog: String) -> (r: Cmd)
        ensures
            r@.prog == prog@,
            r@.args == Seq::<Seq<char>>::empty(),
            r@.cwd is None,
    {
        let r = Cmd { prog, args: Vec::new(), cwd: None };
        proof {
            assert(r@.args =~= Seq::<Seq<char>>::empty());
        }
        r
    }

    /// Appends one argument.
    pub fn arg(&mut self, a: String)
        ensures
            final(self)@.prog == old(self)@.prog,
            final(self)@.cwd == old(self)@.cwd,
            final(self)@.args == old(self)@.args.push(a@),
    {
        let ghost prev = self.args.deep_view();
        let ghost av = a@;
        self.args.push(a);
        proof {
            assert(self.args.deep_view() =~= prev.push(av));
        }
    }

    /// Sets the working directory.
    pub fn current_dir(&mut self, d: String)
        ensures
            final(self)@.prog == old(self)@.prog,
            final(self)@.args == old(self)@.args,
            final(self)@.cwd == Some(d@),
    {
        self.cwd = Some(d);
    }
}

/// Mathematical value of a [`Step`].
pub ghost enum StepView {
    MakeDir(Seq<char>),
    WriteFile(Seq<char>, Seq<char>),
    CopyFile(Seq<char>, Seq<char>),
    Rename(Seq<char>, Seq<char>),
    RemoveFile(Seq<char>),
    Run(CmdView),
    RunWithCleanup(CmdView, Seq<char>),
}

/// One build step for the caller to perform.
///
/// `MakeDir` creates a directory and its parents; `WriteFile` writes the
/// given contents; `CopyFile` copies byte for byte; `RemoveFile` removes a
/// file or an empty directory; `Run` spawns the command and fails the build
/// on a non-zero exit; `RunWithCleanup` spawns the command and removes the
/// named file afterwards whether or not the command succeeded.
#[derive(Clone, Debug)]
pub enum Step {
    MakeDir(String),
    WriteFile(String, String),
    CopyFile(String, String),
    Rename(String, String),
    RemoveFile(String),
    Run(Cmd),
    RunWithCleanup(Cmd, String),
}

impl View for Step {
    type V = StepView;

    open spec fn view(&self) -> StepView {
        match self {
            Step::MakeDir(p) => StepView::MakeDir(p@),
            Step::WriteFile(p, c) => StepView::WriteFile(p@, c@),
            Step::CopyFile(a, b) => StepView::CopyFile(a@, b@),
            Step::Rename(a, b) => StepView::Rename(a@, b@),
            Step::RemoveFile(p) => StepView::RemoveFile(p@),
            Step::Run(c) => StepView::Run(c@),
            Step::RunWithCleanup(c, p) => StepView::RunWithCleanup(c@, p@),
        }
    }
}

impl DeepView for Step {
    type V = StepView;

    open spec fn deep_view(&self) -> StepView {
        self.view()
    }
}

} // verus!
