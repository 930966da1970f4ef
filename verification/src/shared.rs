//! The command descriptor and the values that every strategy shares.

use vstd::prelude::*;
use crate::macos;
use crate::unix;
use crate::windows;

verus! {

/// Why a spawn, a wait or a kill did not succeed.
#[derive(Clone, Copy, Debug, PartialEq, Eq, Structural)]
pub enum Error {
    /// The program, or every privilege broker, could not be located.
    NotFound,
    /// An argument cannot be written in the encoding of the target interface.
    InvalidInput,
    /// The privilege grant was refused or failed.
    PermissionDenied,
    /// The operating system reported this error code.
    Os(i32),
    /// The operating system reported success but returned nothing usable.
    Other,
}

/// The exit status of a process in the native encoding of its platform,
/// carried bit for bit.
#[derive(Clone, Copy, Debug, PartialEq, Eq, Structural)]
pub struct ExitStatus {
    pub bits: u32,
}

/// What the operating system answered to one call: the value the call
/// returned, the status bits it wrote, and the error code that was current
/// after it.
#[derive(Clone, Copy, Debug, PartialEq, Eq, Structural)]
pub struct OsReply {
    pub ret: i32,
    pub status: u32,
    pub error: i32,
}

/// A resource of the operating system that a handle gives up, for its
/// caller to release.
#[derive(Clone, Copy, Debug, PartialEq, Eq, Structural)]
pub enum Release {
    /// Nothing is to be released.
    Nothing,
    /// A privilege grant, by its reference.
    Grant(usize),
    /// A process handle.
    Handle(isize),
}

/// How many resources a [`Release`] names.
pub open spec fn released(r: Release) -> nat {
    if r == Release::Nothing {
        0
    } else {
        1
    }
}

/// What follows from the operating system's answer to a wait.
#[derive(Clone, Copy, Debug, PartialEq, Eq, Structural)]
pub enum WaitStep {
    /// The wait was interrupted and is to be made again.
    Retry,
    /// The process is gone: its status, and what is to be released now.
    Exited(ExitStatus, Release),
}

/// Why a wait failed, and what is to be released now all the same.
#[derive(Clone, Copy, Debug, PartialEq, Eq, Structural)]
pub struct WaitFailure {
    pub error: Error,
    pub release: Release,
}

/// A program to launch with elevated privileges.
pub struct Command {
    pub command: String,
    pub args: Vec<String>,
    pub hide: bool,
}

/// The mathematical content of a [`Command`].
pub struct CommandView {
    pub program: Seq<char>,
    pub args: Seq<Seq<char>>,
    pub hide: bool,
}

/// The characters of each string of a list, in order.
pub open spec fn strings_view(v: Seq<String>) -> Seq<Seq<char>> {
    Seq::new(v.len(), |i: int| v[i]@)
}

impl View for Command {
    type V = CommandView;

    open spec fn view(&self) -> CommandView {
        CommandView { program: self.command@, args: strings_view(self.args@), hide: self.hide }
    }
}

impl Command {
    /// A command for `program`, without arguments, shown when it runs.
    pub fn new(program: &str) -> (cmd: Command)
        ensures
            cmd@ == (CommandView { program: program@, args: Seq::empty(), hide: false }),
    {
        let cmd = Command { command: program.to_owned(), args: Vec::new(), hide: false };
        assert(strings_view(cmd.args@) =~= Seq::empty());
        cmd
    }

    /// Appends one argument.
    pub fn arg(&mut self, arg: &str) -> (cmd: &mut Command)
        ensures
            cmd@ == (CommandView { args: old(self)@.args.push(arg@), ..old(self)@ }),
            *final(self) == *final(cmd),
    {
        self.args.push(arg.to_owned());
        assert(strings_view(self.args@) =~= strings_view(old(self).args@).push(arg@));
        self
    }

    /// Appends several arguments, in their order.
    pub fn args(&mut self, args: &[&str]) -> (cmd: &mut Command)
        ensures
            cmd@ == (CommandView {
                args: old(self)@.args + args@.map_values(|a: &str| a@),
                ..old(self)@
            }),
            *final(self) == *final(cmd),
    {
        let mut i: usize = 0;
        while i < args.len()
            invariant
                i <= args.len(),
                self@ == (CommandView {
                    args: old(self)@.args + args@.map_values(|a: &str| a@).take(i as int),
                    ..old(self)@
                }),
            decreases args.len() - i,
        {
            let ghost before = self@.args;
            self.args.push(args[i].to_owned());
            assert(self@.args =~= before.push(args@[i as int]@));
            assert(self@.args =~= old(self)@.args + args@.map_values(|a: &str| a@).take(
                i + 1,
            ));
            i += 1;
        }
        assert(args@.map_values(|a: &str| a@).take(args.len() as int) =~= args@.map_values(
            |a: &str| a@,
        ));
        self
    }

    /// Chooses whether the program runs without a visible window.
    pub fn set_hide(&mut self, val: bool) -> (cmd: &mut Command)
        ensures
            cmd@ == (CommandView { hide: val, ..old(self)@ }),
            *final(self) == *final(cmd),
    {
        self.hide = val;
        self
    }
}

/// The three ways in which a program is started elevated. A build for one
/// platform uses one of them throughout.
#[derive(Clone, Copy, Debug, PartialEq, Eq, Structural)]
pub enum Strategy {
    /// An external privilege broker is started as a child process.
    BrokerDelegated,
    /// The platform grants a privilege and starts the program under it.
    AuthorizationService,
    /// The shell is asked to start the program elevated.
    ShellVerb,
}

/// What a strategy asks the operating system to do in order to start a
/// command.
pub enum SpawnRequest {
    Broker(unix::Launch),
    Authorization(macos::GuiRequest),
    Shell(windows::ShellRequest),
}

/// Whether `r` is what the broker-delegated strategy gives for `cmd` when
/// the search for the two brokers has given `pkexec` and `sudo`.
pub open spec fn is_broker_request(
    r: Result<SpawnRequest, Error>,
    cmd: CommandView,
    pkexec: bool,
    sudo: bool,
) -> bool {
    match unix::chosen_launch(cmd, pkexec, sudo) {
        Ok(launch) => r matches Ok(SpawnRequest::Broker(l)) && l@ == launch,
        Err(e) => r matches Err(f) && f == e,
    }
}

/// Whether `r` is what the authorization-service strategy gives for `cmd`
/// when the files along the search path were found as `found` says.
pub open spec fn is_authorization_request(
    r: Result<SpawnRequest, Error>,
    cmd: CommandView,
    search_path: Option<Seq<char>>,
    found: Seq<bool>,
) -> bool {
    match macos::requested(macos::resolved(cmd.program, search_path, found), cmd) {
        Ok(request) => r matches Ok(SpawnRequest::Authorization(q)) && q@ == request,
        Err(e) => r matches Err(f) && f == e,
    }
}

impl Command {
    /// The request that starts this command under `strategy`. Only the
    /// authorization service reads `search_path`, along which it resolves
    /// the program, and only the shell never fails here.
    pub fn spawn(&mut self, strategy: Strategy, search_path: Option<&str>) -> (r: Result<
        SpawnRequest,
        Error,
    >)
        ensures
            *final(self) == *old(self),
            match strategy {
                Strategy::BrokerDelegated => exists|pkexec: bool, sudo: bool| #[trigger]
                    is_broker_request(r, old(self)@, pkexec, sudo),
                Strategy::AuthorizationService => exists|found: Seq<bool>| #[trigger]
                    is_authorization_request(r, old(self)@, macos::str_of(search_path), found),
                Strategy::ShellVerb => {
                    &&& r matches Ok(SpawnRequest::Shell(request))
                    &&& request.init == 6
                    &&& request.verb@ == "runas"@
                    &&& request.file@ == old(self)@.program
                    &&& request.parameters@ == windows::parameters(old(self)@.args)
                    &&& request.mask == 0x140
                    &&& request.show == (if old(self)@.hide {
                        0i32
                    } else {
                        1i32
                    })
                },
            },
    {
        match strategy {
            Strategy::BrokerDelegated => {
                let launch = unix::runas_spawn(self);
                let ghost (pkexec, sudo) = choose|pkexec: bool, sudo: bool| #[trigger]
                    unix::chosen_launch(self@, pkexec, sudo) == unix::launch_view(launch);
                let r = match launch {
                    Ok(launch) => Ok(SpawnRequest::Broker(launch)),
                    Err(e) => Err(e),
                };
                assert(is_broker_request(r, self@, pkexec, sudo));
                r
            },
            Strategy::AuthorizationService => {
                let request = macos::runas_spawn(self, search_path);
                let ghost found = choose|found: Seq<bool>|
                    macos::requested(
                        #[trigger] macos::resolved(
                            self@.program,
                            macos::str_of(search_path),
                            found,
                        ),
                        self@,
                    ) == macos::request_view(request);
                let r = match request {
                    Ok(request) => Ok(SpawnRequest::Authorization(request)),
                    Err(e) => Err(e),
                };
                assert(is_authorization_request(r, self@, macos::str_of(search_path), found));
                r
            },
            Strategy::ShellVerb => Ok(SpawnRequest::Shell(windows::runas_spawn(self))),
        }
    }
}

/// The handle of a program that was started elevated, whatever the
/// strategy: it is waited for, killed and asked for its identifier in one
/// way, and owns what its strategy has to release.
pub enum Child {
    Broker(unix::ChildInner),
    Authorization(macos::ChildInner),
    Shell(windows::ChildInner),
}

impl Child {
    /// The strategy that started the program.
    pub open spec fn strategy(&self) -> Strategy {
        match self {
            Child::Broker(_) => Strategy::BrokerDelegated,
            Child::Authorization(_) => Strategy::AuthorizationService,
            Child::Shell(_) => Strategy::ShellVerb,
        }
    }

    /// What the handle still has to release.
    pub open spec fn owned(&self) -> Release {
        match self {
            Child::Broker(inner) => inner.owned(),
            Child::Authorization(inner) => inner.owned(),
            Child::Shell(inner) => inner.owned(),
        }
    }

    /// The identifier that the handle gives for its process.
    pub open spec fn process_id(&self) -> u32 {
        match self {
            Child::Broker(inner) => inner.pid,
            Child::Authorization(inner) => inner.pid() as u32,
            Child::Shell(_) => 0,
        }
    }

    /// What the answer to a wait means for this handle, where `interrupted`
    /// is the error code of an interrupted call.
    pub open spec fn wait_outcome(&self, reply: OsReply, interrupted: i32) -> Result<
        WaitStep,
        WaitFailure,
    > {
        match self {
            Child::Broker(_) => unix::wait_outcome(reply),
            Child::Authorization(inner) => macos::wait_outcome(inner.owned(), reply, interrupted),
            Child::Shell(_) => windows::wait_outcome(reply),
        }
    }

    /// What the handle still owns after a wait that was answered like this.
    pub open spec fn owned_after_wait(&self, reply: OsReply, interrupted: i32) -> Release {
        match self {
            Child::Broker(inner) => inner.owned(),
            Child::Authorization(inner) => macos::owned_after_wait(
                inner.owned(),
                reply,
                interrupted,
            ),
            Child::Shell(inner) => inner.owned(),
        }
    }

    /// Whether a wait that was answered with `reply` has returned `r` and
    /// left the handle owning `left`, as it must.
    pub open spec fn answers_wait(
        &self,
        reply: OsReply,
        interrupted: i32,
        r: Result<WaitStep, WaitFailure>,
        left: Release,
    ) -> bool {
        &&& r == self.wait_outcome(reply, interrupted)
        &&& left == self.owned_after_wait(reply, interrupted)
    }

    /// What the answer to a kill means for this handle.
    pub open spec fn kill_outcome(&self, reply: OsReply) -> Result<(), Error> {
        match self {
            Child::Broker(_) => unix::kill_outcome(reply),
            Child::Authorization(_) => macos::kill_outcome(reply),
            Child::Shell(_) => windows::kill_outcome(reply),
        }
    }

    /// Reads the answer of the operating system to a wait for the process.
    /// A wait that failed is returned as the error code that came with it.
    /// Only the authorization service ever asks for the wait to be made
    /// again, and only after an answer of -1. Every other handle is left as
    /// it was.
    pub fn wait(&mut self, reply: &OsReply) -> (r: Result<WaitStep, WaitFailure>)
        ensures
            exists|interrupted: i32| #[trigger]
                old(self).answers_wait(*reply, interrupted, r, final(self).owned()),
            final(self).strategy() == old(self).strategy(),
            final(self).process_id() == old(self).process_id(),
            !(*old(self) is Authorization) ==> *final(self) == *old(self),
    {
        let r = match self {
            Child::Broker(inner) => inner.wait(reply),
            Child::Authorization(inner) => inner.wait(reply),
            Child::Shell(inner) => inner.wait(reply),
        };
        proof {
            match *old(self) {
                Child::Authorization(before) => {
                    let after = self->Authorization_0;
                    let code = choose|code: i32| #[trigger]
                        macos::answers_wait(before.owned(), *reply, code, r, after.owned());
                    assert(old(self).answers_wait(*reply, code, r, self.owned()));
                },
                _ => {
                    assert(old(self).answers_wait(*reply, 0, r, self.owned()));
                },
            }
        }
        r
    }

    /// Reads the answer of the operating system to the request to kill the
    /// process. The handle is left as it was.
    pub fn kill(&mut self, reply: &OsReply) -> (r: Result<(), Error>)
        ensures
            r == old(self).kill_outcome(*reply),
            *final(self) == *old(self),
    {
        match self {
            Child::Broker(inner) => inner.kill(reply),
            Child::Authorization(inner) => inner.kill(reply),
            Child::Shell(inner) => inner.kill(reply),
        }
    }

    /// The identifier of the process: that of the broker, the recovered
    /// one, or 0 where the strategy knows none.
    pub fn id(&self) -> (id: u32)
        ensures
            id == self.process_id(),
    {
        match self {
            Child::Broker(inner) => inner.id(),
            Child::Authorization(inner) => inner.id(),
            Child::Shell(inner) => inner.id(),
        }
    }

    /// Gives up what the handle owns, for the caller to release. Every
    /// later call gives nothing. The handle of a broker, which owns nothing,
    /// is left as it was.
    pub fn release(&mut self) -> (r: Release)
        ensures
            r == old(self).owned(),
            final(self).owned() == Release::Nothing,
            final(self).strategy() == old(self).strategy(),
            final(self).process_id() == old(self).process_id(),
            *old(self) is Broker ==> *final(self) == *old(self),
    {
        match self {
            Child::Broker(inner) => inner.release(),
            Child::Authorization(inner) => inner.release(),
            Child::Shell(inner) => inner.release(),
        }
    }
}

/// What a wait has given up: what came with the exit or with the failure,
/// and nothing where the wait is to be made again.
pub open spec fn given_up(r: Result<WaitStep, WaitFailure>) -> Release {
    match r {
        Ok(WaitStep::Exited(_, release)) => release,
        Ok(WaitStep::Retry) => Release::Nothing,
        Err(failure) => failure.release,
    }
}

/// Nothing is released twice and nothing is kept: what a wait gives up,
/// whether it ended or failed, and what the handle owns after it are
/// together what the handle owned before. So a handle whose wait gave up its
/// resource has nothing left for the release that follows, and a wait that
/// is to be made again gives up nothing.
pub proof fn lemma_released_once(child: Child, reply: OsReply, interrupted: i32)
    ensures
        ({
            let given = given_up(child.wait_outcome(reply, interrupted));
            let left = child.owned_after_wait(reply, interrupted);
            &&& released(given) + released(left) == released(child.owned())
            &&& given != Release::Nothing ==> given == child.owned() && left == Release::Nothing
            &&& given == Release::Nothing ==> left == child.owned()
        }),
{
}

} // verus!
