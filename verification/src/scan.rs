//! The scan of one entry of the process table, step by step.
//!
//! The scan reads nothing itself. It says which file of the entry it wants
//! next, is handed what the read gave, and says what it wants then, until
//! it emits the process or drops it. A failure drops the process at hand and
//! nothing else.

use crate::error::Error;
use crate::filter::{accepts, Filters, FiltersView};
use crate::smaps::{get_memory_info, total_of};
use crate::stats::{
    without_line_feed, DetailsView, Process, ProcessDetails, ProcessView, SizesView, User,
    UserView,
};
use crate::text::{
    bytes_of, count_leading, decimal_value, first_token, has_prefix, lines, parse_decimal,
    split_lines, starts_with,
};
use crate::users::{owner_in, EntryView, UserDirectory};
use libc::{pid_t, uid_t};
use std::path::PathBuf;
use vstd::prelude::*;
use vstd::slice::slice_subrange;

verus! {

/// The process number that the name of an entry spells: a positive decimal number.
pub open spec fn pid_named(name: Seq<u8>) -> Option<pid_t> {
    match decimal_value(name) {
        Some(n) => if 0 < n <= i32::MAX {
            Some(n as pid_t)
        } else {
            None
        },
        None => None,
    }
}

/// The user number that a line states which begins with `Uid:`: the first
/// token after those four bytes, read as a decimal number.
pub open spec fn uid_stated(line: Seq<u8>) -> Option<uid_t> {
    if line.len() < 4 {
        None
    } else {
        match decimal_value(first_token(line.skip(4))) {
            Some(n) => if n <= u32::MAX {
                Some(n as uid_t)
            } else {
                None
            },
            None => None,
        }
    }
}

/// The first of the lines that begins with the prefix.
pub open spec fn first_with_prefix(lines: Seq<Seq<u8>>, prefix: Seq<u8>) -> Option<Seq<u8>>
    decreases lines.len(),
{
    if lines.len() == 0 {
        None
    } else if starts_with(lines[0], prefix) {
        Some(lines[0])
    } else {
        first_with_prefix(lines.skip(1), prefix)
    }
}

/// The number of the user who owns a process, from the status record of the
/// process: what its first line that begins with `Uid:` states.
pub open spec fn uid_of_status(status: Seq<u8>) -> Option<uid_t> {
    match first_with_prefix(lines(status), bytes_of("Uid:")) {
        Some(line) => uid_stated(line),
        None => None,
    }
}

/// A byte of an argument vector as it is shown: a space in place of the NUL
/// that ends an argument.
pub open spec fn shown_byte(b: u8) -> u8 {
    if b == 0 {
        32
    } else {
        b
    }
}

/// The argument text of a process, from its raw argument vector: a space in
/// place of each NUL, and the last byte left out. An empty argument vector
/// gives none.
pub open spec fn arguments(raw: Seq<u8>) -> Option<Seq<u8>> {
    if raw.len() == 0 {
        None
    } else {
        Some(raw.drop_last().map_values(|b: u8| shown_byte(b)))
    }
}

/// Reads the process number from the name of an entry of the process table.
pub fn get_process_id(name: &[u8]) -> (r: Result<pid_t, Error>)
    ensures
        match pid_named(name@) {
            Some(pid) => r is Ok && r->Ok_0 == pid,
            None => r matches Err(Error::Processing(text)) && text@ == "Failed to get PID"@,
        },
{
    match parse_decimal(name, 0x7fff_ffff) {
        Some(n) => {
            if n > 0 {
                Ok(n as pid_t)
            } else {
                Err(Error::Processing("Failed to get PID".to_owned()))
            }
        },
        None => Err(Error::Processing("Failed to get PID".to_owned())),
    }
}

/// Reads the user number from a line that begins with `Uid:`.
pub fn parse_uid(line: &[u8]) -> (r: Option<uid_t>)
    ensures
        r == uid_stated(line@),
{
    if line.len() < 4 {
        return None;
    }
    let start = 4 + count_leading(line, 4, true);
    let end = start + count_leading(line, start, false);
    let token = slice_subrange(line, start, end);
    proof {
        let rest = line@.skip(4);
        assert(rest.skip(start - 4) =~= line@.skip(start as int));
        assert(token@ =~= first_token(rest));
    }
    match parse_decimal(token, 0xffff_ffff) {
        Some(n) => Some(n as uid_t),
        None => None,
    }
}

/// Finds the number of the user who owns a process in the status record of
/// the process. The error tells a record without a line that begins with
/// `Uid:` from one in which that line states no number.
pub fn get_process_uid(status: &[u8]) -> (r: Result<uid_t, Error>)
    ensures
        match uid_of_status(status@) {
            Some(uid) => r is Ok && r->Ok_0 == uid,
            None => r matches Err(Error::Processing(text)) && text@ == (if first_with_prefix(
                lines(status@),
                bytes_of("Uid:"),
            ) is None {
                "Could not find process UID entry"@
            } else {
                "Could not read process UID entry"@
            }),
        },
{
    let all = split_lines(status);
    let ghost text = lines(status@);
    let mut i: usize = 0;
    assert(text.skip(0) =~= text);
    while i < all.len()
        invariant
            i <= all@.len() == text.len(),
            text == lines(status@),
            forall|k: int| 0 <= k < all@.len() ==> (#[trigger] all@[k])@ == text[k],
            first_with_prefix(text, bytes_of("Uid:")) == first_with_prefix(
                text.skip(i as int),
                bytes_of("Uid:"),
            ),
        decreases all@.len() - i,
    {
        let line = all[i];
        assert(text.skip(i as int)[0] == line@);
        if has_prefix(line, "Uid:".as_bytes()) {
            return match parse_uid(line) {
                Some(uid) => Ok(uid),
                None => Err(Error::Processing("Could not read process UID entry".to_owned())),
            };
        }
        assert(text.skip(i as int).skip(1) =~= text.skip(i + 1));
        i = i + 1;
    }
    Err(Error::Processing("Could not find process UID entry".to_owned()))
}

/// The short command name of a process, from the content of its file: the
/// content without the line feed that ends it.
pub fn get_process_command(content: Vec<u8>) -> (r: Vec<u8>)
    ensures
        r@ == without_line_feed(content@),
{
    let mut command = content;
    let n = command.len();
    if n > 0 && command[n - 1] == 10 {
        command.pop();
    }
    command
}

/// The argument text of a process, from its raw argument vector.
pub fn get_cmdline(content: Vec<u8>) -> (r: Option<Vec<u8>>)
    ensures
        match arguments(content@) {
            Some(text) => r is Some && r->Some_0@ == text,
            None => r is None,
        },
{
    let mut cmdline = content;
    if cmdline.len() == 0 {
        return None;
    }
    cmdline.pop();
    let n = cmdline.len();
    let mut i: usize = 0;
    while i < n
        invariant
            i <= n == cmdline@.len(),
            n == content@.len() - 1,
            forall|k: int| 0 <= k < i ==> cmdline@[k] == shown_byte(#[trigger] content@[k]),
            forall|k: int| i <= k < n ==> cmdline@[k] == #[trigger] content@[k],
        decreases n - i,
    {
        if cmdline[i] == 0 {
            cmdline.set(i, 32);
        }
        i = i + 1;
    }
    assert(cmdline@ =~= arguments(content@)->Some_0);
    Some(cmdline)
}

/// A file of an entry of the process table.
#[derive(Clone, Copy, Debug, PartialEq, Eq, Structural)]
pub enum ProcFile {
    /// The status record, which states the owner.
    Status,
    /// The short command name.
    Comm,
    /// The raw argument vector.
    Cmdline,
    /// The memory map, summed up by the system.
    SmapsRollup,
    /// The memory map, mapping by mapping.
    Smaps,
}

impl ProcFile {
    /// The name of the file in the directory of a process.
    pub open spec fn name(self) -> Seq<char> {
        match self {
            ProcFile::Status => "status"@,
            ProcFile::Comm => "comm"@,
            ProcFile::Cmdline => "cmdline"@,
            ProcFile::SmapsRollup => "smaps_rollup"@,
            ProcFile::Smaps => "smaps"@,
        }
    }

    /// The name of the file in the directory of a process.
    pub fn file_name(self) -> (r: &'static str)
        ensures
            r@ == self.name(),
    {
        match self {
            ProcFile::Status => "status",
            ProcFile::Comm => "comm",
            ProcFile::Cmdline => "cmdline",
            ProcFile::SmapsRollup => "smaps_rollup",
            ProcFile::Smaps => "smaps",
        }
    }
}

/// What the scan asks for next.
pub enum Action {
    /// Read this file of the entry and hand on what the read gave.
    Read(ProcFile),
    /// The scan is over: the process belongs to the result.
    Emit(ProcessDetails),
    /// The scan is over: the process does not belong to the result.
    Drop,
}

/// How far the scan of an entry has come: the file that it waits for, and
/// what it has learnt.
pub enum ScanState {
    AwaitStatus { pid: pid_t, path: PathBuf },
    AwaitCommand { pid: pid_t, user: User, path: PathBuf },
    AwaitCmdline { pid: pid_t, user: User, command: Vec<u8>, path: PathBuf },
    AwaitRollup { process: Process, user: User },
    AwaitSmaps { process: Process, user: User },
    Done,
}

/// What the scan asks for next, a process as its view.
pub enum ActionView {
    Read(ProcFile),
    Emit(DetailsView),
    Drop,
}

/// How far the scan has come, what it has learnt as views.
pub enum StateView {
    AwaitStatus { pid: pid_t, path: PathBuf },
    AwaitCommand { pid: pid_t, user: UserView, path: PathBuf },
    AwaitCmdline { pid: pid_t, user: UserView, command: Seq<u8>, path: PathBuf },
    AwaitRollup { process: ProcessView, user: UserView },
    AwaitSmaps { process: ProcessView, user: UserView },
    Done,
}

impl View for Action {
    type V = ActionView;

    open spec fn view(&self) -> ActionView {
        match self {
            Action::Read(file) => ActionView::Read(*file),
            Action::Emit(details) => ActionView::Emit(details@),
            Action::Drop => ActionView::Drop,
        }
    }
}

impl View for ScanState {
    type V = StateView;

    open spec fn view(&self) -> StateView {
        match self {
            ScanState::AwaitStatus { pid, path } => StateView::AwaitStatus {
                pid: *pid,
                path: *path,
            },
            ScanState::AwaitCommand { pid, user, path } => StateView::AwaitCommand {
                pid: *pid,
                user: user@,
                path: *path,
            },
            ScanState::AwaitCmdline { pid, user, command, path } => StateView::AwaitCmdline {
                pid: *pid,
                user: user@,
                command: command@,
                path: *path,
            },
            ScanState::AwaitRollup { process, user } => StateView::AwaitRollup {
                process: process@,
                user: user@,
            },
            ScanState::AwaitSmaps { process, user } => StateView::AwaitSmaps {
                process: process@,
                user: user@,
            },
            ScanState::Done => StateView::Done,
        }
    }
}

/// What a read gave: the content of the file, or nothing where it failed.
pub open spec fn content_of(read: Result<Vec<u8>, Error>) -> Option<Seq<u8>> {
    match read {
        Ok(content) => Some(content@),
        Err(_) => None,
    }
}

/// The end of a scan that drops the process.
pub open spec fn dropped() -> (StateView, ActionView) {
    (StateView::Done, ActionView::Drop)
}

/// How a scan starts on an entry of the process table: an entry that is a
/// directory and whose name spells a process number has its status record
/// read. Any other entry is dropped.
pub open spec fn first(path: PathBuf, name: Seq<u8>, is_dir: bool) -> (StateView, ActionView) {
    if is_dir && pid_named(name) is Some {
        (
            StateView::AwaitStatus { pid: pid_named(name)->Some_0, path },
            ActionView::Read(ProcFile::Status),
        )
    } else {
        dropped()
    }
}

/// How a scan ends on the content of a memory map: the process is emitted
/// with the sizes that the map adds up to, or dropped where the map is refused.
pub open spec fn last(process: ProcessView, user: UserView, map: Seq<u8>) -> (
    StateView,
    ActionView,
) {
    match total_of(lines(map)) {
        Some(total) => if total.fits() {
            (StateView::Done, ActionView::Emit(DetailsView { process, user, sizes: total }))
        } else {
            dropped()
        },
        None => dropped(),
    }
}

/// How a scan goes on when it is handed what a read gave.
///
/// The status record must state the owner, and the user filter must not
/// hold the owner back: the command name is read then. After it the argument
/// vector is read: it must not be empty, and the process filter must let the
/// command name or the argument text pass. Then the summed-up memory map is
/// read, and the full one where that read fails. A read that fails otherwise
/// drops the process, and so does a record that cannot be used. A scan that
/// is over drops whatever comes.
pub open spec fn next(
    state: StateView,
    read: Option<Seq<u8>>,
    directory: Map<uid_t, EntryView>,
    filters: FiltersView,
) -> (StateView, ActionView) {
    match state {
        StateView::AwaitStatus { pid, path } => match read {
            Some(status) => match uid_of_status(status) {
                Some(uid) => match owner_in(directory, uid) {
                    Some(name) => (
                        StateView::AwaitCommand { pid, user: UserView { uid, name }, path },
                        ActionView::Read(ProcFile::Comm),
                    ),
                    None => dropped(),
                },
                None => dropped(),
            },
            None => dropped(),
        },
        StateView::AwaitCommand { pid, user, path } => match read {
            Some(content) => (
                StateView::AwaitCmdline { pid, user, command: without_line_feed(content), path },
                ActionView::Read(ProcFile::Cmdline),
            ),
            None => dropped(),
        },
        StateView::AwaitCmdline { pid, user, command, path } => match read {
            Some(raw) => match arguments(raw) {
                Some(cmdline) => if accepts(filters.process, command) || accepts(
                    filters.process,
                    cmdline,
                ) {
                    (
                        StateView::AwaitRollup {
                            process: ProcessView {
                                pid,
                                uid: user.uid,
                                command,
                                cmdline,
                                procfs_path: path,
                            },
                            user,
                        },
                        ActionView::Read(ProcFile::SmapsRollup),
                    )
                } else {
                    dropped()
                },
                None => dropped(),
            },
            None => dropped(),
        },
        StateView::AwaitRollup { process, user } => match read {
            Some(map) => last(process, user, map),
            None => (StateView::AwaitSmaps { process, user }, ActionView::Read(ProcFile::Smaps)),
        },
        StateView::AwaitSmaps { process, user } => match read {
            Some(map) => last(process, user, map),
            None => dropped(),
        },
        StateView::Done => dropped(),
    }
}

/// Puts a process, its owner and its memory map together into a row of the report.
pub fn get_process_details(process: Process, user: User, map: &[u8]) -> (r: Result<
    ProcessDetails,
    Error,
>)
    ensures
        match total_of(lines(map@)) {
            Some(total) => if total.fits() {
                r is Ok && r->Ok_0@ == (DetailsView {
                    process: process@,
                    user: user@,
                    sizes: total,
                })
            } else {
                r is Err && r->Err_0 is ParseSize
            },
            None => r is Err && r->Err_0 is ParseSize,
        },
{
    match get_memory_info(map) {
        Ok(sizes) => Ok(ProcessDetails { process, user, sizes }),
        Err(e) => Err(e),
    }
}

fn finish(process: Process, user: User, map: &[u8]) -> (r: (ScanState, Action))
    ensures
        (r.0@, r.1@) == last(process@, user@, map@),
{
    match get_process_details(process, user, map) {
        Ok(details) => (ScanState::Done, Action::Emit(details)),
        Err(_) => (ScanState::Done, Action::Drop),
    }
}

/// Starts the scan of an entry of the process table, given the path of the
/// entry, its name and whether it is a directory.
pub fn begin(path: PathBuf, name: &[u8], is_dir: bool) -> (r: (ScanState, Action))
    ensures
        (r.0@, r.1@) == first(path, name@, is_dir),
{
    if !is_dir {
        return (ScanState::Done, Action::Drop);
    }
    match get_process_id(name) {
        Ok(pid) => (ScanState::AwaitStatus { pid, path }, Action::Read(ProcFile::Status)),
        Err(_) => (ScanState::Done, Action::Drop),
    }
}

/// Takes the scan one step on, given what the read gave that the scan asked
/// for last.
pub fn step(
    state: ScanState,
    read: Result<Vec<u8>, Error>,
    users: &UserDirectory,
    filters: &Filters,
) -> (r: (ScanState, Action))
    ensures
        (r.0@, r.1@) == next(state@, content_of(read), users@, filters@),
{
    let content = match read {
        Ok(content) => content,
        Err(_) => {
            return match state {
                ScanState::AwaitRollup { process, user } => (
                    ScanState::AwaitSmaps { process, user },
                    Action::Read(ProcFile::Smaps),
                ),
                _ => (ScanState::Done, Action::Drop),
            };
        },
    };
    match state {
        ScanState::AwaitStatus { pid, path } => {
            let uid = match get_process_uid(content.as_slice()) {
                Ok(uid) => uid,
                Err(_) => {
                    return (ScanState::Done, Action::Drop);
                },
            };
            match users.resolve(uid) {
                Some(user) => (
                    ScanState::AwaitCommand { pid, user, path },
                    Action::Read(ProcFile::Comm),
                ),
                None => (ScanState::Done, Action::Drop),
            }
        },
        ScanState::AwaitCommand { pid, user, path } => {
            let command = get_process_command(content);
            (ScanState::AwaitCmdline { pid, user, command, path }, Action::Read(ProcFile::Cmdline))
        },
        ScanState::AwaitCmdline { pid, user, command, path } => {
            let cmdline = match get_cmdline(content) {
                Some(cmdline) => cmdline,
                None => {
                    return (ScanState::Done, Action::Drop);
                },
            };
            if filters.accept_process(command.as_slice()) || filters.accept_process(
                cmdline.as_slice(),
            ) {
                let process = Process { pid, uid: user.uid, command, cmdline, procfs_path: path };
                (ScanState::AwaitRollup { process, user }, Action::Read(ProcFile::SmapsRollup))
            } else {
                (ScanState::Done, Action::Drop)
            }
        },
        ScanState::AwaitRollup { process, user } => finish(process, user, content.as_slice()),
        ScanState::AwaitSmaps { process, user } => finish(process, user, content.as_slice()),
        ScanState::Done => (ScanState::Done, Action::Drop),
    }
}

/// What reading a file of an entry gives, where the entry holds the files of
/// the map with their contents: the content, or nothing for a file that the
/// entry does not hold.
pub open spec fn read_of(files: Map<ProcFile, Seq<u8>>, file: ProcFile) -> Option<Seq<u8>> {
    if files.dom().contains(file) {
        Some(files[file])
    } else {
        None
    }
}

/// The actions of a scan from one action on, where each read that the scan
/// asks for is answered from the files of the entry. No more than `steps`
/// reads are answered.
pub open spec fn run(
    state: StateView,
    asked: ActionView,
    files: Map<ProcFile, Seq<u8>>,
    directory: Map<uid_t, EntryView>,
    filters: FiltersView,
    steps: nat,
) -> Seq<ActionView>
    decreases steps,
{
    match asked {
        ActionView::Read(file) => if steps == 0 {
            seq![asked]
        } else {
            let (then, action) = next(state, read_of(files, file), directory, filters);
            seq![asked] + run(then, action, files, directory, filters, (steps - 1) as nat)
        },
        _ => seq![asked],
    }
}

/// The most reads that a scan asks for.
pub open spec fn most_reads() -> nat {
    5
}

/// All actions of the scan of an entry, from the first to the one that ends it.
pub open spec fn scan_of(
    path: PathBuf,
    name: Seq<u8>,
    is_dir: bool,
    files: Map<ProcFile, Seq<u8>>,
    directory: Map<uid_t, EntryView>,
    filters: FiltersView,
) -> Seq<ActionView> {
    run(
        first(path, name, is_dir).0,
        first(path, name, is_dir).1,
        files,
        directory,
        filters,
        most_reads(),
    )
}

/// Whether the status record of an entry states an owner that the user
/// filter holds back.
pub open spec fn owner_excluded(
    files: Map<ProcFile, Seq<u8>>,
    directory: Map<uid_t, EntryView>,
) -> bool {
    &&& files.dom().contains(ProcFile::Status)
    &&& uid_of_status(files[ProcFile::Status]) is Some
    &&& owner_in(directory, uid_of_status(files[ProcFile::Status])->Some_0) is None
}

/// A scan comes to an end: it asks for no more than five reads, and then
/// emits the process or drops it.
pub proof fn lemma_scan_ends(
    path: PathBuf,
    name: Seq<u8>,
    is_dir: bool,
    files: Map<ProcFile, Seq<u8>>,
    directory: Map<uid_t, EntryView>,
    filters: FiltersView,
)
    ensures
        0 < scan_of(path, name, is_dir, files, directory, filters).len() <= 6,
        !(scan_of(path, name, is_dir, files, directory, filters).last() is Read),
        forall|i: int|
            0 <= i < scan_of(path, name, is_dir, files, directory, filters).len() - 1 ==> (
            #[trigger] scan_of(path, name, is_dir, files, directory, filters)[i]) is Read,
{
    reveal_with_fuel(run, 7);
}

/// A process whose argument vector is empty is never emitted, whatever its
/// other files hold.
pub proof fn lemma_empty_arguments_drop(
    path: PathBuf,
    name: Seq<u8>,
    is_dir: bool,
    files: Map<ProcFile, Seq<u8>>,
    directory: Map<uid_t, EntryView>,
    filters: FiltersView,
)
    requires
        files.dom().contains(ProcFile::Cmdline),
        files[ProcFile::Cmdline].len() == 0,
    ensures
        scan_of(path, name, is_dir, files, directory, filters).last() is Drop,
        forall|i: int|
            0 <= i < scan_of(path, name, is_dir, files, directory, filters).len() ==> !((
            #[trigger] scan_of(path, name, is_dir, files, directory, filters)[i]) is Emit),
{
    reveal_with_fuel(run, 7);
}

/// The memory map of a process is never read where the user filter holds
/// the owner of the process back, and the process is dropped.
pub proof fn lemma_excluded_owner_reads_no_map(
    path: PathBuf,
    name: Seq<u8>,
    is_dir: bool,
    files: Map<ProcFile, Seq<u8>>,
    directory: Map<uid_t, EntryView>,
    filters: FiltersView,
)
    requires
        owner_excluded(files, directory),
    ensures
        scan_of(path, name, is_dir, files, directory, filters).last() is Drop,
        forall|i: int|
            0 <= i < scan_of(path, name, is_dir, files, directory, filters).len() ==> (
            #[trigger] scan_of(path, name, is_dir, files, directory, filters)[i])
                != ActionView::Read(ProcFile::SmapsRollup) && scan_of(
                path,
                name,
                is_dir,
                files,
                directory,
                filters,
            )[i] != ActionView::Read(ProcFile::Smaps),
{
    reveal_with_fuel(run, 7);
}

/// Who a process is and whose: the number that the name of its entry spells
/// and the owner that its status record states. There is none for an entry
/// that is no directory or whose name spells no process number, without a
/// status record that states an owner, and for an owner that the user filter
/// holds back.
pub open spec fn identity_of(
    name: Seq<u8>,
    is_dir: bool,
    files: Map<ProcFile, Seq<u8>>,
    directory: Map<uid_t, EntryView>,
) -> Option<(pid_t, UserView)> {
    if is_dir && pid_named(name) is Some && files.dom().contains(ProcFile::Status)
        && uid_of_status(files[ProcFile::Status]) is Some {
        let uid = uid_of_status(files[ProcFile::Status])->Some_0;
        match owner_in(directory, uid) {
            Some(owner) => Some((pid_named(name)->Some_0, UserView { uid, name: owner })),
            None => None,
        }
    } else {
        None
    }
}

/// What a process is called: its command name and its argument text. There
/// is none without either file, for an empty argument vector, and where the
/// process filter lets neither of the two pass.
pub open spec fn texts_of(files: Map<ProcFile, Seq<u8>>, filters: FiltersView) -> Option<
    (Seq<u8>, Seq<u8>),
> {
    if files.dom().contains(ProcFile::Comm) && files.dom().contains(ProcFile::Cmdline)
        && arguments(files[ProcFile::Cmdline]) is Some {
        let command = without_line_feed(files[ProcFile::Comm]);
        let cmdline = arguments(files[ProcFile::Cmdline])->Some_0;
        if accepts(filters.process, command) || accepts(filters.process, cmdline) {
            Some((command, cmdline))
        } else {
            None
        }
    } else {
        None
    }
}

/// The memory map of a process: the one that the system has summed up, or
/// the full one where that one is missing.
pub open spec fn map_of(files: Map<ProcFile, Seq<u8>>) -> Option<Seq<u8>> {
    if files.dom().contains(ProcFile::SmapsRollup) {
        Some(files[ProcFile::SmapsRollup])
    } else {
        read_of(files, ProcFile::Smaps)
    }
}

/// The sizes of a process: what its memory map adds up to. There are none
/// without a memory map, and for one that is refused.
pub open spec fn sizes_of(files: Map<ProcFile, Seq<u8>>) -> Option<SizesView> {
    match map_of(files) {
        Some(map) => match total_of(lines(map)) {
            Some(total) => if total.fits() {
                Some(total)
            } else {
                None
            },
            None => None,
        },
        None => None,
    }
}

/// The row that an entry of the process table gives to the report, if it
/// gives one: the entry must tell who the process is, what it is called and
/// how much memory it holds.
pub open spec fn row_of(
    path: PathBuf,
    name: Seq<u8>,
    is_dir: bool,
    files: Map<ProcFile, Seq<u8>>,
    directory: Map<uid_t, EntryView>,
    filters: FiltersView,
) -> Option<DetailsView> {
    match (identity_of(name, is_dir, files, directory), texts_of(files, filters), sizes_of(files)) {
        (Some((pid, user)), Some((command, cmdline)), Some(sizes)) => Some(
            DetailsView {
                process: ProcessView { pid, uid: user.uid, command, cmdline, procfs_path: path },
                user,
                sizes,
            },
        ),
        _ => None,
    }
}

/// A scan emits the row that the entry gives to the report, and drops an
/// entry that gives none.
pub proof fn lemma_scan_emits_row(
    path: PathBuf,
    name: Seq<u8>,
    is_dir: bool,
    files: Map<ProcFile, Seq<u8>>,
    directory: Map<uid_t, EntryView>,
    filters: FiltersView,
)
    ensures
        scan_of(path, name, is_dir, files, directory, filters).last() == match row_of(
            path,
            name,
            is_dir,
            files,
            directory,
            filters,
        ) {
            Some(row) => ActionView::Emit(row),
            None => ActionView::Drop,
        },
{
    reveal_with_fuel(run, 7);
}

} // verus!
