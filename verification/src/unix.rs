//! The broker-delegated strategy: an external privilege broker is started
//! as an ordinary child process and starts the program in its turn.

use vstd::prelude::*;
use vstd::string::StringExecFns;
use crate::shared::{
    strings_view, Command, CommandView, Error, ExitStatus, OsReply, Release, WaitFailure, WaitStep,
};

verus! {

/// The interactive broker, which is preferred.
pub const CMD_PKEXEC: &'static str = "pkexec";

/// The broker that is fallen back on.
pub const CMD_SUDO: &'static str = "sudo";

/// `which::which`: whether a search along the executable path finds a
/// program of this name. The answer depends on the search path and on what
/// is on disk, so nothing is claimed of it.
#[verifier::external_body]
fn found_on_path(name: &str) -> (found: bool) {
    which::which(name).is_ok()
}

/// The command line that starts `cmd` through the interactive broker: the
/// broker, the end-of-options mark, the program and its arguments, and at
/// the end the flag that silences the broker where the program is to run
/// hidden.
pub open spec fn pkexec_argv(cmd: CommandView) -> Seq<Seq<char>> {
    seq![CMD_PKEXEC@, "--"@, cmd.program] + cmd.args + (if cmd.hide {
        seq!["--silent"@]
    } else {
        Seq::empty()
    })
}

/// The command line that starts `cmd` through the fallback broker, which
/// has no flag to be silenced.
pub open spec fn sudo_argv(cmd: CommandView) -> Seq<Seq<char>> {
    seq![CMD_SUDO@, "--"@, cmd.program] + cmd.args
}

/// A broker's command line, and which broker it is.
pub struct Launch {
    pub argv: Vec<String>,
    pub use_pkexec: bool,
}

/// The mathematical content of a [`Launch`].
pub struct LaunchView {
    pub argv: Seq<Seq<char>>,
    pub use_pkexec: bool,
}

impl View for Launch {
    type V = LaunchView;

    open spec fn view(&self) -> LaunchView {
        LaunchView { argv: strings_view(self.argv@), use_pkexec: self.use_pkexec }
    }
}

/// The launch that is chosen when the search for the two brokers has given
/// `pkexec` and `sudo`: the first broker that was found, or an error when
/// neither was.
pub open spec fn chosen_launch(cmd: CommandView, pkexec: bool, sudo: bool) -> Result<
    LaunchView,
    Error,
> {
    if pkexec {
        Ok(LaunchView { argv: pkexec_argv(cmd), use_pkexec: true })
    } else if sudo {
        Ok(LaunchView { argv: sudo_argv(cmd), use_pkexec: false })
    } else {
        Err(Error::NotFound)
    }
}

/// A launch fails exactly when neither broker was found, and then with
/// the error that says so: the program itself is not looked for.
pub proof fn lemma_not_found_without_broker(cmd: CommandView, pkexec: bool, sudo: bool)
    ensures
        chosen_launch(cmd, pkexec, sudo) is Err <==> !pkexec && !sudo,
        chosen_launch(cmd, pkexec, sudo) is Err ==> chosen_launch(cmd, pkexec, sudo) == Err::<
            LaunchView,
            Error,
        >(Error::NotFound),
{
}

/// What a result holds, by its view.
pub open spec fn launch_view(r: Result<Launch, Error>) -> Result<LaunchView, Error> {
    match r {
        Ok(launch) => Ok(launch@),
        Err(e) => Err(e),
    }
}

/// Starts a command line with a broker, the end-of-options mark, the
/// program and its arguments.
fn broker_argv(broker: &str, cmd: &Command) -> (argv: Vec<String>)
    ensures
        strings_view(argv@) == seq![broker@, "--"@, cmd@.program] + cmd@.args,
{
    let mut argv: Vec<String> = Vec::new();
    argv.push(String::from_str(broker));
    argv.push(String::from_str("--"));
    argv.push(cmd.command.clone());
    let ghost head = strings_view(argv@);
    assert(head =~= seq![broker@, "--"@, cmd@.program]);
    let mut i: usize = 0;
    while i < cmd.args.len()
        invariant
            i <= cmd.args.len(),
            strings_view(argv@) == head + cmd@.args.take(i as int),
        decreases cmd.args.len() - i,
    {
        let ghost before = strings_view(argv@);
        argv.push(cmd.args[i].clone());
        assert(strings_view(argv@) =~= before.push(cmd@.args[i as int]));
        assert(cmd@.args.take(i + 1) =~= cmd@.args.take(i as int).push(cmd@.args[i as int]));
        assert(strings_view(argv@) =~= head + cmd@.args.take(i + 1));
        i += 1;
    }
    assert(cmd@.args.take(cmd.args.len() as int) =~= cmd@.args);
    argv
}

/// The command line that starts `cmd` through the interactive broker.
pub fn spawn_pkexec(cmd: &Command) -> (argv: Vec<String>)
    ensures
        strings_view(argv@) == pkexec_argv(cmd@),
{
    let mut argv = broker_argv(CMD_PKEXEC, cmd);
    if cmd.hide {
        let ghost before = strings_view(argv@);
        argv.push(String::from_str("--silent"));
        assert(strings_view(argv@) =~= before + seq!["--silent"@]);
    } else {
        assert(strings_view(argv@) =~= strings_view(argv@) + Seq::<Seq<char>>::empty());
    }
    argv
}

/// The command line that starts `cmd` through the fallback broker.
pub fn spawn_sudo(cmd: &Command) -> (argv: Vec<String>)
    ensures
        strings_view(argv@) == sudo_argv(cmd@),
{
    broker_argv(CMD_SUDO, cmd)
}

/// The launch of `cmd`, given which brokers the search has found.
pub fn choose_launch(cmd: &Command, pkexec: bool, sudo: bool) -> (r: Result<Launch, Error>)
    ensures
        launch_view(r) == chosen_launch(cmd@, pkexec, sudo),
{
    if pkexec {
        Ok(Launch { argv: spawn_pkexec(cmd), use_pkexec: true })
    } else if sudo {
        Ok(Launch { argv: spawn_sudo(cmd), use_pkexec: false })
    } else {
        Err(Error::NotFound)
    }
}

/// Searches for the brokers, the fallback only when the preferred one is
/// missing, and gives the launch of `cmd` through the one that was found.
pub fn runas_spawn(cmd: &Command) -> (r: Result<Launch, Error>)
    ensures
        exists|pkexec: bool, sudo: bool| #[trigger]
            chosen_launch(cmd@, pkexec, sudo) == launch_view(r),
{
    let pkexec = found_on_path(CMD_PKEXEC);
    let sudo = !pkexec && found_on_path(CMD_SUDO);
    choose_launch(cmd, pkexec, sudo)
}

/// The broker that was started, as the child process it is. It owns
/// nothing that has to be released.
#[derive(Debug)]
pub struct ChildInner {
    pub pid: u32,
    pub use_pkexec: bool,
}

/// What the answer to a wait means: an answer of -1 is a failure with the
/// error code that came with it, any other carries the exit status.
pub open spec fn wait_outcome(reply: OsReply) -> Result<WaitStep, WaitFailure> {
    if reply.ret == -1 {
        Err(WaitFailure { error: Error::Os(reply.error), release: Release::Nothing })
    } else {
        Ok(WaitStep::Exited(ExitStatus { bits: reply.status }, Release::Nothing))
    }
}

/// What the answer to a kill means: an answer of -1 is a failure with the
/// error code that came with it.
pub open spec fn kill_outcome(reply: OsReply) -> Result<(), Error> {
    if reply.ret == -1 {
        Err(Error::Os(reply.error))
    } else {
        Ok(())
    }
}

impl ChildInner {
    /// The handle of the broker that runs as process `pid`.
    pub fn new(pid: u32, use_pkexec: bool) -> (child: ChildInner)
        ensures
            child.pid == pid,
            child.use_pkexec == use_pkexec,
    {
        ChildInner { pid, use_pkexec }
    }

    /// What this handle still has to release: nothing.
    pub open spec fn owned(&self) -> Release {
        Release::Nothing
    }

    /// Reads the answer to a wait for the broker.
    pub fn wait(&mut self, reply: &OsReply) -> (r: Result<WaitStep, WaitFailure>)
        ensures
            r == wait_outcome(*reply),
            *final(self) == *old(self),
    {
        if reply.ret == -1 {
            Err(WaitFailure { error: Error::Os(reply.error), release: Release::Nothing })
        } else {
            Ok(WaitStep::Exited(ExitStatus { bits: reply.status }, Release::Nothing))
        }
    }

    /// Reads the answer to the request to kill the broker.
    pub fn kill(&mut self, reply: &OsReply) -> (r: Result<(), Error>)
        ensures
            r == kill_outcome(*reply),
            *final(self) == *old(self),
    {
        if reply.ret == -1 {
            Err(Error::Os(reply.error))
        } else {
            Ok(())
        }
    }

    /// The process identifier of the broker, which is the direct child; the
    /// program that it starts has another.
    pub fn id(&self) -> (id: u32)
        ensures
            id == self.pid,
    {
        self.pid
    }

    /// Gives up what the handle owns, which is nothing.
    pub fn release(&mut self) -> (r: Release)
        ensures
            r == Release::Nothing,
            *final(self) == *old(self),
    {
        Release::Nothing
    }
}

} // verus!
