//! Supervision of the single inference backend subprocess: validation of the
//! launch inputs, construction of the exact launch plan (executable,
//! arguments, library search environment), and the one tracked process slot
//! with its idempotent teardown.
//!
//! The supervisor itself performs no input/output: the caller reports
//! whether the required files exist, receives a [`LaunchPlan`] describing
//! precisely what to spawn, and registers the resulting process id; on
//! shutdown [`ProcessSupervisor::terminate`] hands back the id to kill, if
//! any, and clears the slot.

use vstd::prelude::*;
use vstd::string::StringExecFns;

verus! {

/// An error of backend startup: a required file is missing, or the
/// operating system refused to create the process.
pub enum StartError {
    NotFound,
    SpawnFailed,
}

/// The character of one decimal digit.
pub open spec fn digit_char(d: nat) -> char {
    if d == 0 {
        '0'
    } else if d == 1 {
        '1'
    } else if d == 2 {
        '2'
    } else if d == 3 {
        '3'
    } else if d == 4 {
        '4'
    } else if d == 5 {
        '5'
    } else if d == 6 {
        '6'
    } else if d == 7 {
        '7'
    } else if d == 8 {
        '8'
    } else {
        '9'
    }
}

/// The decimal representation of a number, most significant digit first,
/// without leading zeroes (`0` is written as the single digit `0`).
pub open spec fn dec_rep(n: nat) -> Seq<char>
    decreases n,
{
    if n < 10 {
        seq![digit_char(n)]
    } else {
        dec_rep(n / 10).push(digit_char(n % 10))
    }
}

/// One decimal digit as a string.
fn digit_str(d: u16) -> (s: &'static str)
    requires
        d < 10,
    ensures
        s@ == seq![digit_char(d as nat)],
{
    let r: &'static str = match d {
        0 => "0",
        1 => "1",
        2 => "2",
        3 => "3",
        4 => "4",
        5 => "5",
        6 => "6",
        7 => "7",
        8 => "8",
        _ => "9",
    };
    proof {
        reveal_strlit("0");
        reveal_strlit("1");
        reveal_strlit("2");
        reveal_strlit("3");
        reveal_strlit("4");
        reveal_strlit("5");
        reveal_strlit("6");
        reveal_strlit("7");
        reveal_strlit("8");
        reveal_strlit("9");
        assert(r@ =~= seq![digit_char(d as nat)]);
    }
    r
}

/// The decimal representation of a port number.
pub fn decimal_of(n: u16) -> (s: String)
    ensures
        s@ == dec_rep(n as nat),
    decreases n,
{
    if n < 10 {
        String::from_str(digit_str(n))
    } else {
        let mut s = decimal_of(n / 10);
        s.append(digit_str(n % 10));
        s
    }
}

/// The argument list that binds the backend to a model file and a port:
/// `-m <model> --port <port>`.
pub open spec fn planned_args(model: Seq<char>, port: nat) -> Seq<Seq<char>> {
    seq!["-m"@, model, "--port"@, dec_rep(port)]
}

/// Everything the caller must pass to the operating system to spawn the
/// backend: the executable, its argument list, and the one environment
/// variable that injects the shared-library directory into the dynamic
/// library search path.
pub struct LaunchPlan {
    pub executable: String,
    pub args: Vec<String>,
    pub env_name: String,
    pub env_value: String,
}

impl LaunchPlan {
    /// Whether this plan launches `executable` against `model` on `port`
    /// with `library_dir` injected into the dynamic-library search path.
    pub open spec fn is_plan_for(
        &self,
        executable: Seq<char>,
        model: Seq<char>,
        port: nat,
        library_dir: Seq<char>,
    ) -> bool {
        &&& self.executable@ == executable
        &&& self.args@.map_values(|a: String| a@) == planned_args(model, port)
        &&& self.env_name@ == "DYLD_LIBRARY_PATH"@
        &&& self.env_value@ == library_dir
    }
}

/// The supervisor of the single backend process. At most one process is
/// tracked at a time; callers must terminate the active one before
/// starting another.
pub struct ProcessSupervisor {
    active: Option<u64>,
}

impl ProcessSupervisor {
    /// The process id of the tracked backend process, if one is active.
    pub closed spec fn active_pid(&self) -> Option<u64> {
        self.active
    }

    /// A fresh supervisor with an empty slot.
    pub fn new() -> (s: ProcessSupervisor)
        ensures
            s.active_pid() is None,
    {
        ProcessSupervisor { active: None }
    }

    /// Validates the launch inputs and constructs the launch plan.
    ///
    /// The caller reports whether the executable and the model file exist;
    /// if either is missing the result is `NotFound` and no plan — and so
    /// nothing to spawn — is produced. Otherwise the plan binds the
    /// executable to the port and the model file, with the library
    /// directory in the dynamic-library search environment variable.
    pub fn plan_start(
        &self,
        executable_exists: bool,
        model_exists: bool,
        executable: String,
        model: String,
        port: u16,
        library_dir: String,
    ) -> (r: Result<LaunchPlan, StartError>)
        requires
            self.active_pid() is None,
        ensures
            r is Ok <==> executable_exists && model_exists,
            !(executable_exists && model_exists) ==> r == Err::<LaunchPlan, StartError>(
                StartError::NotFound,
            ),
            r matches Ok(p) ==> p.is_plan_for(executable@, model@, port as nat, library_dir@),
    {
        if !executable_exists || !model_exists {
            return Err(StartError::NotFound);
        }
        let mut args: Vec<String> = Vec::new();
        args.push(String::from_str("-m"));
        args.push(model);
        args.push(String::from_str("--port"));
        args.push(decimal_of(port));
        let plan = LaunchPlan {
            executable,
            args,
            env_name: String::from_str("DYLD_LIBRARY_PATH"),
            env_value: library_dir,
        };
        proof {
            assert(plan.args@.map_values(|a: String| a@) =~= planned_args(
                model@,
                port as nat,
            ));
        }
        Ok(plan)
    }

    /// Whether a backend process is currently tracked.
    pub fn has_active(&self) -> (b: bool)
        ensures
            b == (self.active_pid() is Some),
    {
        self.active.is_some()
    }

    /// Records the process id of the freshly spawned backend in the slot.
    pub fn register(&mut self, pid: u64)
        requires
            old(self).active_pid() is None,
        ensures
            final(self).active_pid() == Some(pid),
    {
        self.active = Some(pid);
    }

    /// Clears the slot and returns the process id the caller must kill, if
    /// a process was tracked. Idempotent: with no active process this is a
    /// no-op that returns nothing, never a failure — so calling it twice in
    /// succession is harmless, the second call returning `None`.
    pub fn terminate(&mut self) -> (r: Option<u64>)
        ensures
            final(self).active_pid() is None,
            r == old(self).active_pid(),
    {
        let r = self.active;
        self.active = None;
        r
    }
}

} // verus!
