//! The shell-verb strategy: the operating system's shell is asked to start
//! the program elevated and hands back a process handle.

use vstd::prelude::*;
use vstd::string::StringExecFns;
use crate::text::{chars_of, push_char};
use crate::shared::{
    strings_view, Command, Error, ExitStatus, OsReply, Release, WaitFailure, WaitStep,
};
use windows_sys::Win32::Foundation::INVALID_HANDLE_VALUE;
use windows_sys::Win32::System::Com::{COINIT_APARTMENTTHREADED, COINIT_DISABLE_OLE1DDE};
use windows_sys::Win32::UI::Shell::{SEE_MASK_NOASYNC, SEE_MASK_NOCLOSEPROCESS};
use windows_sys::Win32::UI::WindowsAndMessaging::{SW_HIDE, SW_NORMAL};

verus! {

/// A character that forces an argument into quotes.
pub open spec fn is_special(c: char) -> bool {
    c == ' ' || c == '\t' || c == '"'
}

/// Whether an argument holds a space, a tab or a quote.
pub open spec fn needs_quotes(arg: Seq<char>) -> bool {
    exists|i: int| 0 <= i < arg.len() && is_special(#[trigger] arg[i])
}

/// One character as it stands between quotes: a backslash and a quote are
/// each preceded by a backslash.
pub open spec fn escaped_char(c: char) -> Seq<char> {
    if c == '\\' {
        seq!['\\', '\\']
    } else if c == '"' {
        seq!['\\', '"']
    } else {
        seq![c]
    }
}

/// An argument as it stands between quotes.
pub open spec fn escaped(arg: Seq<char>) -> Seq<char>
    decreases arg.len(),
{
    if arg.len() == 0 {
        Seq::empty()
    } else {
        escaped(arg.drop_last()) + escaped_char(arg.last())
    }
}

/// One argument as it is written into the parameter string.
pub open spec fn quoted_arg(arg: Seq<char>) -> Seq<char> {
    if arg.len() == 0 {
        seq!['"', '"']
    } else if !needs_quotes(arg) {
        arg
    } else {
        seq!['"'] + escaped(arg) + seq!['"']
    }
}

/// The parameter string of an argument list: the arguments, each quoted as
/// needed, with one space between every two of them and none before the
/// first or after the last.
pub open spec fn parameters(args: Seq<Seq<char>>) -> Seq<char>
    decreases args.len(),
{
    if args.len() == 0 {
        Seq::empty()
    } else if args.len() == 1 {
        quoted_arg(args[0])
    } else {
        parameters(args.drop_last()) + seq![' '] + quoted_arg(args.last())
    }
}

/// Whether `arg` holds a space, a tab or a quote.
fn has_special(arg: &Vec<char>) -> (found: bool)
    ensures
        found == needs_quotes(arg@),
{
    let mut i: usize = 0;
    while i < arg.len()
        invariant
            i <= arg.len(),
            forall|j: int| 0 <= j < i ==> !is_special(#[trigger] arg@[j]),
        decreases arg.len() - i,
    {
        let c = arg[i];
        if c == ' ' || c == '\t' || c == '"' {
            return true;
        }
        i += 1;
    }
    false
}

/// Appends `arg` to `out` as it stands between quotes.
fn push_escaped(out: &mut String, arg: &Vec<char>)
    ensures
        final(out)@ == old(out)@ + escaped(arg@),
{
    let mut i: usize = 0;
    while i < arg.len()
        invariant
            i <= arg.len(),
            out@ == old(out)@ + escaped(arg@.take(i as int)),
        decreases arg.len() - i,
    {
        let c = arg[i];
        proof {
            let next = arg@.take(i + 1);
            assert(next.drop_last() =~= arg@.take(i as int));
            assert(next.last() == c);
            assert(old(out)@ + escaped(next) =~= old(out)@ + escaped(arg@.take(i as int))
                + escaped_char(c));
        }
        if c == '\\' {
            push_char(out, '\\');
            push_char(out, '\\');
        } else if c == '"' {
            push_char(out, '\\');
            push_char(out, '"');
        } else {
            push_char(out, c);
        }
        assert(out@ =~= old(out)@ + escaped(arg@.take(i as int)) + escaped_char(c));
        i += 1;
    }
    assert(arg@.take(arg.len() as int) =~= arg@);
}

/// Appends one argument to `out`, quoted as needed.
fn push_quoted(out: &mut String, arg: &str)
    ensures
        final(out)@ == old(out)@ + quoted_arg(arg@),
{
    let chars = chars_of(arg);
    if chars.len() == 0 {
        push_char(out, '"');
        push_char(out, '"');
        assert(out@ =~= old(out)@ + quoted_arg(arg@));
    } else if !has_special(&chars) {
        out.append(arg);
    } else {
        push_char(out, '"');
        push_escaped(out, &chars);
        push_char(out, '"');
        assert(out@ =~= old(out)@ + quoted_arg(arg@));
    }
}

/// The parameter string that the shell is given for `args`.
pub fn build_parameters(args: &Vec<String>) -> (params: String)
    ensures
        params@ == parameters(strings_view(args@)),
{
    let mut params = String::new();
    let mut i: usize = 0;
    while i < args.len()
        invariant
            i <= args.len(),
            params@ == parameters(strings_view(args@).take(i as int)),
        decreases args.len() - i,
    {
        proof {
            let next = strings_view(args@).take(i + 1);
            assert(next.drop_last() =~= strings_view(args@).take(i as int));
            assert(next.last() == args@[i as int]@);
            assert(next[0] == strings_view(args@)[0]);
        }
        let ghost before = params@;
        if i > 0 {
            push_char(&mut params, ' ');
        }
        push_quoted(&mut params, args[i].as_str());
        proof {
            if i == 0 {
                assert(before =~= Seq::<char>::empty());
                assert(params@ =~= quoted_arg(args@[0]@));
            } else {
                assert(params@ =~= before + seq![' '] + quoted_arg(args@[i as int]@));
            }
        }
        i += 1;
    }
    assert(strings_view(args@).take(args.len() as int) =~= strings_view(args@));
    params
}

/// The exit code that a killed process is given.
pub const KILL_EXIT_CODE: u32 = 1;

/// The constant `INVALID_HANDLE_VALUE` of `windows_sys`: the handle that
/// stands for none, which is -1.
#[verifier::external_body]
fn invalid_handle() -> (h: isize)
    ensures
        h == -1,
{
    INVALID_HANDLE_VALUE
}

/// The constant `SW_HIDE` of `windows_sys`: the show-state of a hidden
/// window, which is 0.
#[verifier::external_body]
fn show_hidden() -> (show: i32)
    ensures
        show == 0,
{
    SW_HIDE
}

/// The constant `SW_NORMAL` of `windows_sys`: the show-state of an ordinary
/// window, which is 1.
#[verifier::external_body]
fn show_normal() -> (show: i32)
    ensures
        show == 1,
{
    SW_NORMAL
}

/// The constant `SEE_MASK_NOASYNC` of `windows_sys`: the call returns only
/// when the launch is settled. It is the bit 0x100.
#[verifier::external_body]
fn mask_no_async() -> (mask: u32)
    ensures
        mask == 0x100,
{
    SEE_MASK_NOASYNC
}

/// The constant `SEE_MASK_NOCLOSEPROCESS` of `windows_sys`: the call hands
/// the process handle to its caller. It is the bit 0x40.
#[verifier::external_body]
fn mask_no_close_process() -> (mask: u32)
    ensures
        mask == 0x40,
{
    SEE_MASK_NOCLOSEPROCESS
}

/// The constant `COINIT_APARTMENTTHREADED` of `windows_sys`, which is 2.
#[verifier::external_body]
fn init_apartment_threaded() -> (flag: i32)
    ensures
        flag == 2,
{
    COINIT_APARTMENTTHREADED
}

/// The constant `COINIT_DISABLE_OLE1DDE` of `windows_sys`, which is 4.
#[verifier::external_body]
fn init_disable_ole1dde() -> (flag: i32)
    ensures
        flag == 4,
{
    COINIT_DISABLE_OLE1DDE
}

/// What the shell is asked to do: the component runtime is initialised with
/// `init`, then `file` is executed under `verb` with `parameters`.
pub struct ShellRequest {
    pub init: i32,
    pub verb: String,
    pub file: String,
    pub parameters: String,
    pub mask: u32,
    pub show: i32,
}

/// The answer of the shell: what the call returned, the error code that was
/// current after it, and the process handle that it wrote.
#[derive(Clone, Copy, Debug, PartialEq, Eq, Structural)]
pub struct ShellReply {
    pub ret: i32,
    pub error: i32,
    pub process: isize,
}

/// A handle that names a process: neither null nor the invalid handle.
pub open spec fn usable_handle(h: isize) -> bool {
    h != 0 && h != -1
}

/// The request that launches `cmd` elevated.
pub fn runas_spawn(cmd: &Command) -> (request: ShellRequest)
    ensures
        request.init == 6,
        request.verb@ == "runas"@,
        request.file@ == cmd@.program,
        request.parameters@ == parameters(cmd@.args),
        request.mask == 0x140,
        request.show == (if cmd@.hide { 0i32 } else { 1i32 }),
{
    let apartment = init_apartment_threaded();
    let no_ole = init_disable_ole1dde();
    let no_async = mask_no_async();
    let no_close = mask_no_close_process();
    assert(apartment | no_ole == 6) by (bit_vector)
        requires
            apartment == 2,
            no_ole == 4,
    ;
    assert(no_async | no_close == 0x140) by (bit_vector)
        requires
            no_async == 0x100,
            no_close == 0x40,
    ;
    ShellRequest {
        init: apartment | no_ole,
        verb: String::from_str("runas"),
        file: cmd.command.clone(),
        parameters: build_parameters(&cmd.args),
        mask: no_async | no_close,
        show: if cmd.hide { show_hidden() } else { show_normal() },
    }
}

/// The process that the shell started, by its handle. The handle is closed
/// by whoever takes it out with [`ChildInner::release`].
#[derive(Debug)]
pub struct ChildInner {
    handle: Option<isize>,
}

/// What the answer to the query for the exit code means.
pub open spec fn wait_outcome(reply: OsReply) -> Result<WaitStep, WaitFailure> {
    if reply.ret == 0 {
        Err(WaitFailure { error: Error::Os(reply.error), release: Release::Nothing })
    } else {
        Ok(WaitStep::Exited(ExitStatus { bits: reply.status }, Release::Nothing))
    }
}

/// What the answer to the request to terminate means.
pub open spec fn kill_outcome(reply: OsReply) -> Result<(), Error> {
    if reply.ret == 0 {
        Err(Error::Os(reply.error))
    } else {
        Ok(())
    }
}

/// What the answer of the shell means: the handle of the new process, or
/// why there is none.
pub open spec fn spawn_outcome(reply: ShellReply) -> Result<isize, Error> {
    if reply.ret == 0 {
        Err(Error::Os(reply.error))
    } else if !usable_handle(reply.process) {
        Err(Error::Other)
    } else {
        Ok(reply.process)
    }
}

impl ChildInner {
    #[verifier::type_invariant]
    spec fn valid(&self) -> bool {
        self.handle matches Some(h) ==> usable_handle(h)
    }

    /// What this handle still has to release: the process handle, until it
    /// is given up.
    pub closed spec fn owned(&self) -> Release {
        match self.handle {
            Some(h) => Release::Handle(h),
            None => Release::Nothing,
        }
    }

    /// The handle on which the process is waited for, asked for its exit
    /// code and terminated, as long as it has not been released.
    pub fn handle(&self) -> (h: Option<isize>)
        ensures
            self.owned() == (match h {
                Some(v) => Release::Handle(v),
                None => Release::Nothing,
            }),
            h matches Some(v) ==> usable_handle(v),
    {
        proof {
            use_type_invariant(self);
        }
        self.handle
    }

    /// Reads the answer to the query for the exit code, made after the
    /// process was waited for. The handle stays with this value.
    pub fn wait(&mut self, reply: &OsReply) -> (r: Result<WaitStep, WaitFailure>)
        ensures
            r == wait_outcome(*reply),
            *final(self) == *old(self),
    {
        if reply.ret == 0 {
            Err(WaitFailure { error: Error::Os(reply.error), release: Release::Nothing })
        } else {
            Ok(WaitStep::Exited(ExitStatus { bits: reply.status }, Release::Nothing))
        }
    }

    /// Reads the answer to the request to terminate the process with
    /// [`KILL_EXIT_CODE`].
    pub fn kill(&mut self, reply: &OsReply) -> (r: Result<(), Error>)
        ensures
            r == kill_outcome(*reply),
            *final(self) == *old(self),
    {
        if reply.ret == 0 {
            Err(Error::Os(reply.error))
        } else {
            Ok(())
        }
    }

    /// The process identifier, which a handle alone does not give: always 0,
    /// for "unknown".
    pub fn id(&self) -> (id: u32)
        ensures
            id == 0,
    {
        0
    }

    /// Gives up the handle, for the caller to close. Every later call gives
    /// nothing.
    pub fn release(&mut self) -> (r: Release)
        ensures
            r == old(self).owned(),
            final(self).owned() == Release::Nothing,
    {
        let taken = self.handle;
        self.handle = None;
        match taken {
            Some(h) => Release::Handle(h),
            None => Release::Nothing,
        }
    }
}

/// Reads the answer of the shell to a [`ShellRequest`].
pub fn win_spawn(reply: &ShellReply) -> (r: Result<ChildInner, Error>)
    ensures
        match spawn_outcome(*reply) {
            Ok(h) => r is Ok && r->Ok_0.owned() == Release::Handle(h),
            Err(e) => r is Err && r->Err_0 == e,
        },
{
    if reply.ret == 0 {
        return Err(Error::Os(reply.error));
    }
    if reply.process == 0 || reply.process == invalid_handle() {
        return Err(Error::Other);
    }
    Ok(ChildInner { handle: Some(reply.process) })
}

} // verus!
