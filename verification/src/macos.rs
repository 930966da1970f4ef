//! The authorization-service strategy: the platform grants a privilege,
//! starts the program under it, and the process identifier is recovered
//! from the pipe that the platform hands back.

use vstd::prelude::*;
use vstd::string::StrSliceExecFns;
use vstd::string::StringExecFns;
use vstd::utf8::encode_utf8;
use crate::shared::{
    strings_view, Command, CommandView, Error, ExitStatus, OsReply, Release, WaitFailure, WaitStep,
};
use crate::text::{chars_of, push_char};

verus! {

/// Whether a program name is a path from the root, which is used as it is.
pub open spec fn is_rooted(name: Seq<char>) -> bool {
    name.len() > 0 && name[0] == '/'
}

/// The directories of a search path: its parts between colons. A search
/// path without a colon is one directory, and an empty part is the empty
/// directory name.
pub open spec fn split_paths(paths: Seq<char>) -> Seq<Seq<char>>
    decreases paths.len(),
{
    if paths.len() == 0 {
        seq![Seq::empty()]
    } else {
        let before = split_paths(paths.drop_last());
        if paths.last() == ':' {
            before.push(Seq::empty())
        } else {
            before.drop_last().push(before.last().push(paths.last()))
        }
    }
}

/// The file `name` in the directory `dir`: a separator stands between them
/// unless the directory name is empty or ends in one.
pub open spec fn joined(dir: Seq<char>, name: Seq<char>) -> Seq<char> {
    if dir.len() == 0 || dir.last() == '/' {
        dir + name
    } else {
        dir + seq!['/'] + name
    }
}

/// The files that a search for `name` along `paths` looks at, in order.
pub open spec fn candidates(paths: Seq<char>, name: Seq<char>) -> Seq<Seq<char>> {
    split_paths(paths).map_values(|dir: Seq<char>| joined(dir, name))
}

/// The first of `files`, from position `from` on, that was found to be a
/// regular file.
pub open spec fn first_found(files: Seq<Seq<char>>, found: Seq<bool>, from: int) -> Option<
    Seq<char>,
>
    decreases files.len() - from,
{
    if from < 0 || from >= files.len() || from >= found.len() {
        None
    } else if found[from] {
        Some(files[from])
    } else {
        first_found(files, found, from + 1)
    }
}

/// The file that stands for `name`: the name itself where it is a path
/// from the root, else the first file along the search path that was found.
pub open spec fn resolved(name: Seq<char>, paths: Option<Seq<char>>, found: Seq<bool>) -> Option<
    Seq<char>,
> {
    if is_rooted(name) {
        Some(name)
    } else {
        match paths {
            Some(p) => first_found(candidates(p, name), found, 0),
            None => None,
        }
    }
}

/// What an optional string holds.
pub open spec fn text_of(s: Option<String>) -> Option<Seq<char>> {
    match s {
        Some(s) => Some(s@),
        None => None,
    }
}

/// What an optional string slice holds.
pub open spec fn str_of(s: Option<&str>) -> Option<Seq<char>> {
    match s {
        Some(s) => Some(s@),
        None => None,
    }
}

/// `Path::is_file` of the standard library: whether the path names a
/// regular file now. The answer depends on what is on disk, so nothing is
/// claimed of it.
#[verifier::external_body]
fn is_regular_file(path: &str) -> (found: bool) {
    std::path::Path::new(path).is_file()
}

proof fn lemma_split_paths_nonempty(paths: Seq<char>)
    ensures
        split_paths(paths).len() > 0,
    decreases paths.len(),
{
    if paths.len() > 0 {
        lemma_split_paths_nonempty(paths.drop_last());
    }
}

/// Appends to `files` the file `name` in the directory `dir`.
fn push_joined(files: &mut Vec<String>, dir: String, ends_in_separator: bool, name: &str)
    requires
        ends_in_separator == (dir@.len() == 0 || dir@.last() == '/'),
    ensures
        strings_view(final(files)@) == strings_view(old(files)@).push(joined(dir@, name@)),
{
    let mut file = dir;
    if !ends_in_separator {
        push_char(&mut file, '/');
        assert(file@ =~= dir@ + seq!['/']);
    }
    file.append(name);
    files.push(file);
    assert(strings_view(files@) =~= strings_view(old(files)@).push(joined(dir@, name@)));
}

/// The files that a search for `name` along `paths` looks at, in order.
pub fn search_candidates(paths: &str, name: &str) -> (files: Vec<String>)
    ensures
        strings_view(files@) == candidates(paths@, name@),
{
    let chars = chars_of(paths);
    let mut files: Vec<String> = Vec::new();
    let mut dir = String::new();
    let mut ends_in_separator = true;
    let mut i: usize = 0;
    proof {
        assert(chars@.take(0) =~= Seq::<char>::empty());
        assert(split_paths(chars@.take(0)).drop_last() =~= Seq::<Seq<char>>::empty());
        assert(strings_view(files@) =~= candidates(chars@.take(0), name@).drop_last());
    }
    while i < chars.len()
        invariant
            i <= chars.len(),
            chars@ == paths@,
            split_paths(chars@.take(i as int)).len() > 0,
            strings_view(files@) == candidates(chars@.take(i as int), name@).drop_last(),
            dir@ == split_paths(chars@.take(i as int)).last(),
            ends_in_separator == (dir@.len() == 0 || dir@.last() == '/'),
        decreases chars.len() - i,
    {
        let c = chars[i];
        let ghost before = split_paths(chars@.take(i as int));
        let ghost after = split_paths(chars@.take(i + 1));
        proof {
            assert(chars@.take(i + 1).drop_last() =~= chars@.take(i as int));
            assert(chars@.take(i + 1).last() == c);
            lemma_split_paths_nonempty(chars@.take(i + 1));
        }
        if c == ':' {
            push_joined(&mut files, dir, ends_in_separator, name);
            dir = String::new();
            ends_in_separator = true;
            proof {
                assert(after == before.push(Seq::empty()));
                assert(candidates(chars@.take(i + 1), name@).drop_last() =~= candidates(
                    chars@.take(i as int),
                    name@,
                ));
                assert(candidates(chars@.take(i as int), name@) =~= candidates(
                    chars@.take(i as int),
                    name@,
                ).drop_last().push(joined(before.last(), name@)));
            }
        } else {
            push_char(&mut dir, c);
            ends_in_separator = c == '/';
            proof {
                assert(after == before.drop_last().push(before.last().push(c)));
                assert(candidates(chars@.take(i + 1), name@).drop_last() =~= candidates(
                    chars@.take(i as int),
                    name@,
                ).drop_last());
            }
        }
        i += 1;
    }
    proof {
        assert(chars@.take(chars.len() as int) =~= chars@);
        assert(candidates(paths@, name@) =~= candidates(paths@, name@).drop_last().push(
            joined(split_paths(paths@).last(), name@),
        ));
    }
    push_joined(&mut files, dir, ends_in_separator, name);
    files
}

/// The first of `files` that was found to be a regular file.
pub fn first_regular_file(files: &Vec<String>, found: &Vec<bool>) -> (file: Option<String>)
    ensures
        text_of(file) == first_found(strings_view(files@), found@, 0),
{
    let mut i: usize = 0;
    while i < files.len() && i < found.len()
        invariant
            first_found(strings_view(files@), found@, 0) == first_found(
                strings_view(files@),
                found@,
                i as int,
            ),
        decreases files.len() - i,
    {
        if found[i] {
            return Some(files[i].clone());
        }
        i += 1;
    }
    None
}

/// Asks of each file whether it is a regular file.
fn probe_files(files: &Vec<String>) -> (found: Vec<bool>)
    ensures
        found@.len() == files@.len(),
{
    let mut found: Vec<bool> = Vec::new();
    let mut i: usize = 0;
    while i < files.len()
        invariant
            i <= files.len(),
            found@.len() == i,
        decreases files.len() - i,
    {
        found.push(is_regular_file(files[i].as_str()));
        i += 1;
    }
    found
}

/// Whether a program name is a path from the root.
pub fn has_root(name: &str) -> (rooted: bool)
    ensures
        rooted == is_rooted(name@),
{
    name.unicode_len() > 0 && name.get_char(0) == '/'
}

/// Resolves a program name to the file that is started: a path from the
/// root as it is, any other name to the first regular file of that name in
/// the directories of the search path. The result is what [`resolved`]
/// gives for the files that were found on disk.
pub fn get_exe_path(exe_name: &str, search_path: Option<&str>) -> (exe: Option<String>)
    ensures
        exists|found: Seq<bool>| #[trigger]
            resolved(exe_name@, str_of(search_path), found) == text_of(exe),
        is_rooted(exe_name@) ==> text_of(exe) == Some(exe_name@),
        !is_rooted(exe_name@) && search_path is None ==> exe is None,
{
    if has_root(exe_name) {
        assert(resolved(exe_name@, str_of(search_path), Seq::<bool>::empty()) == Some(exe_name@));
        return Some(String::from_str(exe_name));
    }
    match search_path {
        Some(paths) => {
            let files = search_candidates(paths, exe_name);
            let found = probe_files(&files);
            let exe = first_regular_file(&files, &found);
            assert(text_of(exe) == resolved(exe_name@, str_of(search_path), found@));
            exe
        },
        None => {
            assert(resolved(exe_name@, str_of(search_path), Seq::<bool>::empty()) is None);
            None
        },
    }
}

/// The status with which the authorization service reports success.
pub const AUTHORIZATION_SUCCESS: i32 = 0;

/// The constant `EINTR` of `libc`: the error code of a call that a signal
/// interrupted. Its value differs between platforms, so none is claimed.
#[verifier::external_body]
fn interrupted_code() -> (code: i32) {
    libc::EINTR
}

/// The constant `SIGKILL` of `libc`: the signal that ends a process at
/// once, which is 9.
#[verifier::external_body]
fn kill_signal() -> (signal: i32)
    ensures
        signal == 9,
{
    libc::SIGKILL
}

/// Whether a text can be handed over as a string that a zero byte ends:
/// its bytes hold no zero.
pub open spec fn fits_c_string(text: Seq<char>) -> bool {
    !encode_utf8(text).contains(0u8)
}

/// A text as a string that a zero byte ends.
pub open spec fn c_string(text: Seq<char>) -> Seq<u8> {
    encode_utf8(text).push(0u8)
}

/// The bytes of `text` with a zero byte after them, or an error when the
/// text itself holds a zero byte.
pub fn make_cstring(text: &str) -> (r: Result<Vec<u8>, Error>)
    ensures
        fits_c_string(text@) ==> r is Ok && r->Ok_0@ == c_string(text@),
        !fits_c_string(text@) ==> r == Err::<Vec<u8>, Error>(Error::InvalidInput),
{
    let mut bytes = text.as_bytes_vec();
    let mut i: usize = 0;
    while i < bytes.len()
        invariant
            i <= bytes.len(),
            bytes@ == encode_utf8(text@),
            forall|j: int| 0 <= j < i ==> bytes@[j] != 0u8,
        decreases bytes.len() - i,
    {
        if bytes[i] == 0 {
            return Err(Error::InvalidInput);
        }
        i += 1;
    }
    bytes.push(0);
    Ok(bytes)
}

/// What the authorization service is asked to execute: the path of the
/// program and its arguments, each as a string that a zero byte ends.
pub struct GuiRequest {
    pub prog: Vec<u8>,
    pub argv: Vec<Vec<u8>>,
}

/// The mathematical content of a [`GuiRequest`].
pub struct GuiRequestView {
    pub prog: Seq<u8>,
    pub argv: Seq<Seq<u8>>,
}

impl View for GuiRequest {
    type V = GuiRequestView;

    open spec fn view(&self) -> GuiRequestView {
        GuiRequestView { prog: self.prog@, argv: self.argv@.map_values(|a: Vec<u8>| a@) }
    }
}

/// The request for the program `exe` with the arguments of `cmd`: an error
/// where no program was found, or where the program's path or an argument
/// holds a zero byte.
pub open spec fn requested(exe: Option<Seq<char>>, cmd: CommandView) -> Result<
    GuiRequestView,
    Error,
> {
    match exe {
        None => Err(Error::NotFound),
        Some(path) => if fits_c_string(path) && (forall|i: int|
            0 <= i < cmd.args.len() ==> fits_c_string(#[trigger] cmd.args[i])) {
            Ok(
                GuiRequestView {
                    prog: c_string(path),
                    argv: cmd.args.map_values(|a: Seq<char>| c_string(a)),
                },
            )
        } else {
            Err(Error::InvalidInput)
        },
    }
}

/// Where none of the files was found, none is the first.
proof fn lemma_none_found(files: Seq<Seq<char>>, found: Seq<bool>, from: int)
    requires
        forall|i: int| 0 <= i < found.len() ==> !found[i],
    ensures
        first_found(files, found, from) is None,
    decreases files.len() - from,
{
    if 0 <= from && from < files.len() && from < found.len() {
        lemma_none_found(files, found, from + 1);
    }
}

/// A program that is not named by a path from the root, and that no
/// directory of the search path holds as a regular file, is not found: the
/// result is that error, and no request is made.
pub proof fn lemma_missing_program_not_found(
    cmd: CommandView,
    search_path: Option<Seq<char>>,
    found: Seq<bool>,
)
    requires
        !is_rooted(cmd.program),
        forall|i: int| 0 <= i < found.len() ==> !found[i],
    ensures
        requested(resolved(cmd.program, search_path, found), cmd) == Err::<
            GuiRequestView,
            Error,
        >(Error::NotFound),
{
    if let Some(paths) = search_path {
        lemma_none_found(candidates(paths, cmd.program), found, 0);
    }
}

/// What a result holds, by its view.
pub open spec fn request_view(r: Result<GuiRequest, Error>) -> Result<GuiRequestView, Error> {
    match r {
        Ok(request) => Ok(request@),
        Err(e) => Err(e),
    }
}

/// The request that starts the resolved program `exe` with the arguments
/// of `cmd`.
pub fn gui_request(exe: Option<String>, cmd: &Command) -> (r: Result<GuiRequest, Error>)
    ensures
        request_view(r) == requested(text_of(exe), cmd@),
{
    let path = match exe {
        Some(path) => path,
        None => {
            return Err(Error::NotFound);
        },
    };
    let prog = match make_cstring(path.as_str()) {
        Ok(prog) => prog,
        Err(e) => {
            return Err(e);
        },
    };
    let mut argv: Vec<Vec<u8>> = Vec::new();
    let mut i: usize = 0;
    while i < cmd.args.len()
        invariant
            i <= cmd.args.len(),
            argv@.len() == i,
            text_of(exe) == Some(path@),
            fits_c_string(path@),
            prog@ == c_string(path@),
            forall|j: int| 0 <= j < i ==> fits_c_string(#[trigger] cmd@.args[j]),
            forall|j: int| 0 <= j < i ==> (#[trigger] argv@[j])@ == c_string(cmd@.args[j]),
        decreases cmd.args.len() - i,
    {
        assert(cmd@.args[i as int] == cmd.args@[i as int]@);
        match make_cstring(cmd.args[i].as_str()) {
            Ok(arg) => {
                argv.push(arg);
            },
            Err(e) => {
                assert(!fits_c_string(cmd@.args[i as int]));
                return Err(e);
            },
        }
        i += 1;
    }
    let request = GuiRequest { prog, argv };
    assert(request@.argv =~= cmd@.args.map_values(|a: Seq<char>| c_string(a)));
    Ok(request)
}

/// The request that starts `cmd`: its program is resolved along the search
/// path, and the request is what [`requested`] gives for the file that the
/// search came to.
pub fn runas_spawn(cmd: &Command, search_path: Option<&str>) -> (r: Result<GuiRequest, Error>)
    ensures
        exists|found: Seq<bool>|
            requested(
                #[trigger] resolved(cmd@.program, str_of(search_path), found),
                cmd@,
            ) == request_view(r),
        !is_rooted(cmd@.program) && search_path is None ==> r == Err::<GuiRequest, Error>(
            Error::NotFound,
        ),
{
    let exe = get_exe_path(cmd.command.as_str(), search_path);
    let r = gui_request(exe, cmd);
    proof {
        let found = choose|found: Seq<bool>| #[trigger]
            resolved(cmd@.program, str_of(search_path), found) == text_of(exe);
        assert(requested(resolved(cmd@.program, str_of(search_path), found), cmd@)
            == request_view(r));
    }
    r
}

/// The call into the authorization service that is to be made next, with
/// the grant that is held by then.
#[derive(Clone, Copy, Debug, PartialEq, Eq, Structural)]
pub enum GuiStage {
    /// Create a grant.
    Create,
    /// Execute the request under the grant.
    Execute(usize),
    /// Ask for the owner of the pipe that the execution handed back.
    Query(usize),
}

/// The answer to one call: the value it returned, the grant that a creation
/// wrote, and the error code that was current after it.
#[derive(Clone, Copy, Debug, PartialEq, Eq, Structural)]
pub struct GuiReply {
    pub ret: i32,
    pub grant: usize,
    pub error: i32,
}

/// What follows from the answer to one call.
pub enum GuiStep {
    /// Make the next call.
    Next(GuiStage),
    /// Give up with this error, after releasing what is named.
    Failed(Error, Release),
    /// The program runs.
    Spawned(ChildInner),
}

/// The process that the authorization service started, by the identifier
/// that was recovered for it, and the grant under which it was started. The
/// grant is released by whoever takes it out, with [`ChildInner::wait`] or
/// with [`ChildInner::release`].
#[derive(Debug)]
pub struct ChildInner {
    pid: i32,
    auth_ref: Option<usize>,
}

/// What the answer to a wait means, for a handle that owns `owned`, where
/// `interrupted` is the error code of an interrupted call. An interrupted
/// wait is made again. A wait that failed otherwise is returned as the error
/// code that came with it. Any other answer carries the exit status. Both
/// the failure and the exit give up what the handle owns.
pub open spec fn wait_outcome(owned: Release, reply: OsReply, interrupted: i32) -> Result<
    WaitStep,
    WaitFailure,
> {
    if reply.ret == -1 && reply.error == interrupted {
        Ok(WaitStep::Retry)
    } else if reply.ret == -1 {
        Err(WaitFailure { error: Error::Os(reply.error), release: owned })
    } else {
        Ok(WaitStep::Exited(ExitStatus { bits: reply.status }, owned))
    }
}

/// What a handle still owns after a wait that was answered like this: what
/// it owned where the wait is to be made again, and nothing else.
pub open spec fn owned_after_wait(owned: Release, reply: OsReply, interrupted: i32) -> Release {
    if reply.ret == -1 && reply.error == interrupted {
        owned
    } else {
        Release::Nothing
    }
}

/// Whether a wait that was answered with `reply` has returned `r` and left
/// the handle owning `left`, as it must.
pub open spec fn answers_wait(
    owned: Release,
    reply: OsReply,
    interrupted: i32,
    r: Result<WaitStep, WaitFailure>,
    left: Release,
) -> bool {
    &&& r == wait_outcome(owned, reply, interrupted)
    &&& left == owned_after_wait(owned, reply, interrupted)
}

/// What the answer to a kill means: an answer of -1 is a failure with the
/// error code that came with it.
pub open spec fn kill_outcome(reply: OsReply) -> Result<(), Error> {
    if reply.ret == -1 {
        Err(Error::Os(reply.error))
    } else {
        Ok(())
    }
}

impl ChildInner {
    /// The recovered process identifier.
    pub closed spec fn pid(&self) -> i32 {
        self.pid
    }

    /// What this handle still has to release: the grant, until it is given
    /// up.
    pub closed spec fn owned(&self) -> Release {
        match self.auth_ref {
            Some(grant) => Release::Grant(grant),
            None => Release::Nothing,
        }
    }

    /// Reads the answer to a wait for the process, where `interrupted` is
    /// the error code of an interrupted call.
    pub fn wait_on(&mut self, reply: &OsReply, interrupted: i32) -> (r: Result<
        WaitStep,
        WaitFailure,
    >)
        ensures
            r == wait_outcome(old(self).owned(), *reply, interrupted),
            final(self).owned() == owned_after_wait(old(self).owned(), *reply, interrupted),
            final(self).pid() == old(self).pid(),
    {
        if reply.ret == -1 && reply.error == interrupted {
            return Ok(WaitStep::Retry);
        }
        let grant = self.release();
        if reply.ret == -1 {
            Err(WaitFailure { error: Error::Os(reply.error), release: grant })
        } else {
            Ok(WaitStep::Exited(ExitStatus { bits: reply.status }, grant))
        }
    }

    /// Reads the answer to a wait for the process. The wait is made again
    /// only after an answer of -1 with the error code of an interrupted
    /// call; an answer of -1 with another code is a failure, and any other
    /// answer ends the wait. Failure and end both give up the grant.
    pub fn wait(&mut self, reply: &OsReply) -> (r: Result<WaitStep, WaitFailure>)
        ensures
            exists|interrupted: i32| #[trigger]
                answers_wait(old(self).owned(), *reply, interrupted, r, final(self).owned()),
            final(self).pid() == old(self).pid(),
    {
        let interrupted = interrupted_code();
        let r = self.wait_on(reply, interrupted);
        assert(answers_wait(old(self).owned(), *reply, interrupted, r, self.owned()));
        r
    }

    /// The process and the signal of a kill.
    pub fn kill_request(&self) -> (request: (i32, i32))
        ensures
            request == (self.pid(), 9i32),
    {
        (self.pid, kill_signal())
    }

    /// Reads the answer to the request to kill the process.
    pub fn kill(&self, reply: &OsReply) -> (r: Result<(), Error>)
        ensures
            r == kill_outcome(*reply),
    {
        if reply.ret == -1 {
            Err(Error::Os(reply.error))
        } else {
            Ok(())
        }
    }

    /// The recovered process identifier, bit for bit.
    pub fn id(&self) -> (id: u32)
        ensures
            id == self.pid() as u32,
    {
        self.pid as u32
    }

    /// Gives up the grant, for the caller to release. Every later call
    /// gives nothing.
    pub fn release(&mut self) -> (r: Release)
        ensures
            r == old(self).owned(),
            final(self).owned() == Release::Nothing,
            final(self).pid() == old(self).pid(),
    {
        let taken = self.auth_ref;
        self.auth_ref = None;
        match taken {
            Some(grant) => Release::Grant(grant),
            None => Release::Nothing,
        }
    }
}

/// Reads the answer to the call that `stage` names. A grant that was
/// created is from then on either handed to the next call, or released with
/// the failure, or owned by the handle of the running program.
pub fn gui_spawn(stage: GuiStage, reply: &GuiReply) -> (step: GuiStep)
    ensures
        match stage {
            GuiStage::Create => step == (if reply.ret == AUTHORIZATION_SUCCESS {
                GuiStep::Next(GuiStage::Execute(reply.grant))
            } else {
                GuiStep::Failed(Error::PermissionDenied, Release::Nothing)
            }),
            GuiStage::Execute(grant) => step == (if reply.ret == AUTHORIZATION_SUCCESS {
                GuiStep::Next(GuiStage::Query(grant))
            } else {
                GuiStep::Failed(Error::PermissionDenied, Release::Grant(grant))
            }),
            GuiStage::Query(grant) => if reply.ret == -1 {
                step == GuiStep::Failed(Error::Os(reply.error), Release::Grant(grant))
            } else {
                &&& step is Spawned
                &&& step->Spawned_0.pid() == reply.ret
                &&& step->Spawned_0.owned() == Release::Grant(grant)
            },
        },
{
    match stage {
        GuiStage::Create => {
            if reply.ret != AUTHORIZATION_SUCCESS {
                GuiStep::Failed(Error::PermissionDenied, Release::Nothing)
            } else {
                GuiStep::Next(GuiStage::Execute(reply.grant))
            }
        },
        GuiStage::Execute(grant) => {
            if reply.ret != AUTHORIZATION_SUCCESS {
                GuiStep::Failed(Error::PermissionDenied, Release::Grant(grant))
            } else {
                GuiStep::Next(GuiStage::Query(grant))
            }
        },
        GuiStage::Query(grant) => {
            if reply.ret == -1 {
                GuiStep::Failed(Error::Os(reply.error), Release::Grant(grant))
            } else {
                GuiStep::Spawned(ChildInner { pid: reply.ret, auth_ref: Some(grant) })
            }
        },
    }
}

} // verus!
