//! Jobs as a client asks for them and as the coordinator hands them to a node.
use vstd::prelude::*;

use crate::debug_fmt::{
    debug_option_string, debug_str, debug_string_list, field_piece, finish_piece, list_text,
    option_text, push_field, push_finish, push_str, str_debug,
};
use crate::memory::Memory;
use crate::sel_expr::MachineSel;
use crate::text::owned;

verus! {

/// A job's needs.
#[derive(Debug)]
pub struct Job {
    pub min_mem: Memory,
    pub threads: u16,
}

/// Working directory the job will be run in
#[derive(Debug, Clone, Copy, PartialEq, Eq, Structural)]
pub enum WorkingDir {
    /// Straight up in the home directory. Not recommended if the job does any writes in the cwd.
    Home,
    /// Sets the working directory to root, so most writes will fail
    Root,
    /// Creates a temporary dir that will be cleaned up after exit. For potentially large dirs.
    ManagedTempdir,
    /// Creates a tempdir in the system's temporary directory that will be cleaned up after exit
    Tempdir,
    /// Corresponds to `DynamicUser` setting in `systemd.exec(5)`
    DynamicUser,
}

/// A program to run, with its arguments.
#[derive(Clone)]
pub struct Exec {
    pub executable: String,
    pub argv0: Option<String>,
    pub argv: Vec<String>,
}

/// The `Debug` texts of the arguments, in order.
pub open spec fn args_debug(argv: Seq<String>) -> Seq<Seq<char>> {
    Seq::new(argv.len(), |i: int| str_debug(argv[i]@))
}

/// The arguments as a command line: each one's `Debug` text after a space.
pub open spec fn args_line(argv: Seq<String>) -> Seq<char>
    decreases argv.len(),
{
    if argv.len() == 0 {
        Seq::empty()
    } else {
        args_line(argv.drop_last()) + " "@ + str_debug(argv.last()@)
    }
}

/// The plain `Debug` text of a program: the `Debug` text of the name it
/// runs under (`argv0`, else the executable) followed by its arguments.
pub open spec fn exec_line(e: Exec) -> Seq<char> {
    str_debug(
        match e.argv0 {
            Some(a) => a@,
            None => e.executable@,
        },
    ) + args_line(e.argv@)
}

/// The pretty `Debug` text of a program: a struct of its executable,
/// `argv0` and arguments.
pub open spec fn exec_struct(e: Exec) -> Seq<char> {
    "Exec"@ + field_piece(false, true, "executable"@, str_debug(e.executable@)) + field_piece(
        true,
        true,
        "argv0"@,
        option_text(
            match e.argv0 {
                Some(a) => Some(str_debug(a@)),
                None => None,
            },
            true,
        ),
    ) + field_piece(true, true, "argv"@, list_text(args_debug(e.argv@), true)) + finish_piece(
        true,
        true,
    )
}

impl Exec {
    /// A program that runs `script` with bash.
    pub fn bash_script(script: &str) -> (e: Exec)
        ensures
            e.executable@ == "/usr/bin/env"@,
            e.argv0 is None,
            e.argv@.len() == 3,
            e.argv@[0]@ == "bash"@,
            e.argv@[1]@ == "-c"@,
            e.argv@[2]@ == script@,
    {
        let mut argv: Vec<String> = Vec::new();
        argv.push(owned("bash"));
        argv.push(owned("-c"));
        argv.push(owned(script));
        Exec { executable: owned("/usr/bin/env"), argv0: None, argv }
    }

    /// The `Debug` text of this program: with `alternate`, a struct of its
    /// fields; otherwise the command line it runs.
    pub fn debug_text(&self, alternate: bool) -> (s: String)
        ensures
            s@ == if alternate {
                exec_struct(*self)
            } else {
                exec_line(*self)
            },
    {
        if alternate {
            let mut out = String::new();
            push_str(&mut out, "Exec");
            let e = debug_str(self.executable.as_str());
            push_field(&mut out, false, true, "executable", e.as_str());
            let a = debug_option_string(&self.argv0, true);
            push_field(&mut out, true, true, "argv0", a.as_str());
            let l = debug_string_list(&self.argv, true);
            push_field(&mut out, true, true, "argv", l.as_str());
            push_finish(&mut out, true, true);
            assert(out@ =~= exec_struct(*self));
            out
        } else {
            let exe = match &self.argv0 {
                Some(a) => a.as_str(),
                None => self.executable.as_str(),
            };
            let mut out = debug_str(exe);
            let mut i: usize = 0;
            while i < self.argv.len()
                invariant
                    i <= self.argv@.len(),
                    out@ == str_debug(
                        match self.argv0 {
                            Some(a) => a@,
                            None => self.executable@,
                        },
                    ) + args_line(self.argv@.subrange(0, i as int)),
                decreases self.argv.len() - i,
            {
                push_str(&mut out, " ");
                let t = debug_str(self.argv[i].as_str());
                push_str(&mut out, t.as_str());
                proof {
                    assert(self.argv@.subrange(0, i + 1).drop_last() =~= self.argv@.subrange(
                        0,
                        i as int,
                    ));
                }
                i = i + 1;
            }
            assert(self.argv@.subrange(0, i as int) =~= self.argv@);
            out
        }
    }
}

/// Client -> Coordinator
pub struct JobDescription {
    pub machine_sel: MachineSel,
    pub working_dir: WorkingDir,
    pub program: Exec,
}

/// Coordinator -> Node
#[derive(Clone)]
pub struct JobDispatch {
    pub working_dir: WorkingDir,
    pub program: Exec,
}

} // verus!
