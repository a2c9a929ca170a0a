//! The injector: which process to inject into, the bytes of the DLL path
//! that are written into it, and what to release when a step fails.
use vstd::prelude::*;

use crate::numfmt::{decimal, parse_u32, parse_u32_radix, push_decimal};
use crate::text::{chars_of, ends_with, has_suffix, push_all, same_chars, string_of};
use crate::trusted::{lowercase, to_lowercase};
use crate::utf16::{
    decode_units_lossy,
    decode_utf16_lossy,
    encode_chars,
    encode_utf16,
    le_bytes,
    units_to_le_bytes,
    units_until_nul,
    until_nul,
};

verus! {

/// Milliseconds the injector waits for the remote `LoadLibraryW` to finish.
pub const INJECT_WAIT_MS: u32 = 5000;

/// One process of a process snapshot: its id and the raw `szExeFile` buffer.
pub struct ProcessEntry {
    pub pid: u32,
    pub exe_file: Vec<u16>,
}

/// `.exe`
pub open spec fn exe_suffix() -> Seq<char> {
    seq!['.', 'e', 'x', 'e']
}

/// The lower-cased `name`, with `.exe` added unless it already ends so.
pub open spec fn with_exe(name_lower: Seq<char>) -> Seq<char> {
    if ends_with(name_lower, exe_suffix()) {
        name_lower
    } else {
        name_lower + exe_suffix()
    }
}

/// Whether an executable name, lower-cased as `exe_lower`, is the process
/// named `name_lower` (a lower-cased name): equal to it, or to it with
/// `.exe` added.
pub open spec fn lowercase_names_match(exe_lower: Seq<char>, name_lower: Seq<char>) -> bool {
    exe_lower == name_lower || exe_lower == with_exe(name_lower)
}

/// Whether the process whose `szExeFile` buffer is `exe_file` is the one
/// named `name`: its executable name, lower-cased, equals `name` lower-cased,
/// with or without `.exe`.
pub open spec fn process_matches(name: Seq<char>, exe_file: Seq<u16>) -> bool {
    lowercase_names_match(lowercase(decode_utf16_lossy(until_nul(exe_file))), lowercase(name))
}

/// Whether the lower-cased executable name `exe_lower` is the process named
/// by the lower-cased `name_lower`.
pub fn names_match(exe_lower: &str, name_lower: &str) -> (b: bool)
    ensures
        b == lowercase_names_match(exe_lower@, name_lower@),
{
    let exe = chars_of(exe_lower);
    let name = chars_of(name_lower);
    let suffix = vec!['.', 'e', 'x', 'e'];
    assert(suffix@ == exe_suffix());
    let mut name_exe = copy_of(&name);
    if !has_suffix(&name, &suffix) {
        push_each(&mut name_exe, &suffix);
    }
    assert(name_exe@ == with_exe(name@));
    same_chars(&exe, &name) || same_chars(&exe, &name_exe)
}

/// Whether `name` names the process whose file buffer is `exe_file`.
pub fn process_name_matches(name: &str, exe_file: &Vec<u16>) -> (b: bool)
    ensures
        b == process_matches(name@, exe_file@),
{
    let name_lower = to_lowercase(name);
    let units = units_until_nul(exe_file);
    let exe_chars = decode_units_lossy(&units);
    let exe_string = string_of(&exe_chars);
    let exe_lower = to_lowercase(exe_string.as_str());
    names_match(exe_lower.as_str(), name_lower.as_str())
}

fn copy_of(v: &Vec<char>) -> (r: Vec<char>)
    ensures
        r@ == v@,
{
    let mut r: Vec<char> = Vec::new();
    push_each(&mut r, v);
    r
}

fn push_each(out: &mut Vec<char>, v: &Vec<char>)
    ensures
        final(out)@ == old(out)@ + v@,
{
    let mut i: usize = 0;
    while i < v.len()
        invariant
            i <= v@.len(),
            out@ == old(out)@ + v@.take(i as int),
        decreases v@.len() - i,
    {
        out.push(v[i]);
        assert(v@.take(i + 1) == v@.take(i as int).push(v@[i as int]));
        i = i + 1;
    }
    assert(v@.take(v@.len() as int) == v@);
}

/// The id of the first process in `processes` that `name` names.
pub fn find_pid_by_name(name: &str, processes: &Vec<ProcessEntry>) -> (pid: Option<u32>)
    ensures
        pid is None <==> forall|i: int|
            0 <= i < processes@.len() ==> !process_matches(
                name@,
                #[trigger] processes@[i].exe_file@,
            ),
        pid matches Some(p) ==> exists|i: int|
            0 <= i < processes@.len() && processes@[i].pid == p && process_matches(
                name@,
                #[trigger] processes@[i].exe_file@,
            ) && forall|j: int|
                0 <= j < i ==> !process_matches(name@, #[trigger] processes@[j].exe_file@),
{
    let mut i: usize = 0;
    while i < processes.len()
        invariant
            i <= processes@.len(),
            forall|j: int| 0 <= j < i ==> !process_matches(name@, #[trigger] processes@[j].exe_file@),
        decreases processes@.len() - i,
    {
        if process_name_matches(name, &processes[i].exe_file) {
            return Some(processes[i].pid);
        }
        i = i + 1;
    }
    None
}

/// The bytes written into the target process: the DLL path in UTF-16 with
/// a terminating zero unit, each unit low byte first, as `LoadLibraryW`
/// reads it on x86.
pub fn dll_path_payload(path: &str) -> (bytes: Vec<u8>)
    ensures
        bytes@ == le_bytes(encode_utf16(path@).push(0)),
{
    let chars = chars_of(path);
    let mut units = encode_chars(&chars);
    units.push(0);
    units_to_le_bytes(&units)
}

/// The steps of an injection, in order.
#[derive(Clone, Copy, Debug, PartialEq, Eq, Structural)]
pub enum InjectStep {
    /// `OpenProcess` with all access.
    OpenProcess,
    /// `VirtualAllocEx` of room for the payload.
    AllocateMemory,
    /// `WriteProcessMemory` of the payload.
    WriteMemory,
    /// `GetProcAddress` of `LoadLibraryW` in kernel32.
    ResolveLoadLibrary,
    /// `CreateRemoteThread` at `LoadLibraryW` with the payload.
    StartThread,
}

/// What follows a step.
pub enum StepOutcome {
    /// Go on with this step.
    Next(InjectStep),
    /// The remote thread runs: wait up to `INJECT_WAIT_MS` for it, close
    /// it, free the memory, close the process, and report success.
    Finish,
    /// Give up: free the remote memory if `free_memory`, close the process
    /// if `close_process`, and report `message`.
    Abort { free_memory: bool, close_process: bool, message: String },
}

/// Whether the remote memory has been allocated when `step` runs.
pub open spec fn memory_held(step: InjectStep) -> bool {
    step == InjectStep::WriteMemory || step == InjectStep::ResolveLoadLibrary || step
        == InjectStep::StartThread
}

/// Whether the process handle is open when `step` runs.
pub open spec fn process_held(step: InjectStep) -> bool {
    step != InjectStep::OpenProcess
}

/// The message reported when `step` fails for the process `pid`.
pub open spec fn failure_message(step: InjectStep, pid: u32) -> Seq<char> {
    match step {
        InjectStep::OpenProcess => "OpenProcess("@ + decimal(pid as nat)
            + ") failed (管理者権限が必要かもしれません)"@,
        InjectStep::AllocateMemory => "VirtualAllocEx failed"@,
        InjectStep::WriteMemory => "WriteProcessMemory failed"@,
        InjectStep::ResolveLoadLibrary => "GetProcAddress(LoadLibraryW) failed"@,
        InjectStep::StartThread => "CreateRemoteThread failed"@,
    }
}

/// The step after `step`, when it succeeded.
pub open spec fn next_step(step: InjectStep) -> Option<InjectStep> {
    match step {
        InjectStep::OpenProcess => Some(InjectStep::AllocateMemory),
        InjectStep::AllocateMemory => Some(InjectStep::WriteMemory),
        InjectStep::WriteMemory => Some(InjectStep::ResolveLoadLibrary),
        InjectStep::ResolveLoadLibrary => Some(InjectStep::StartThread),
        InjectStep::StartThread => None,
    }
}

/// What follows `step` on process `pid`, given whether it succeeded. A
/// failure releases exactly what the earlier steps acquired.
pub fn after_step(step: InjectStep, succeeded: bool, pid: u32) -> (o: StepOutcome)
    ensures
        succeeded ==> match next_step(step) {
            Some(n) => o == StepOutcome::Next(n),
            None => o is Finish,
        },
        !succeeded ==> (o matches StepOutcome::Abort { free_memory, close_process, message } && {
            &&& free_memory == memory_held(step)
            &&& close_process == process_held(step)
            &&& message@ == failure_message(step, pid)
        }),
{
    if succeeded {
        return match step {
            InjectStep::OpenProcess => StepOutcome::Next(InjectStep::AllocateMemory),
            InjectStep::AllocateMemory => StepOutcome::Next(InjectStep::WriteMemory),
            InjectStep::WriteMemory => StepOutcome::Next(InjectStep::ResolveLoadLibrary),
            InjectStep::ResolveLoadLibrary => StepOutcome::Next(InjectStep::StartThread),
            InjectStep::StartThread => StepOutcome::Finish,
        };
    }
    match step {
        InjectStep::OpenProcess => {
            let mut message = String::from_str("OpenProcess(");
            let mut digits: Vec<char> = Vec::new();
            push_decimal(&mut digits, pid as u64);
            push_all(&mut message, &digits);
            message.append(") failed (管理者権限が必要かもしれません)");
            StepOutcome::Abort { free_memory: false, close_process: false, message }
        },
        InjectStep::AllocateMemory => StepOutcome::Abort {
            free_memory: false,
            close_process: true,
            message: String::from_str("VirtualAllocEx failed"),
        },
        InjectStep::WriteMemory => StepOutcome::Abort {
            free_memory: true,
            close_process: true,
            message: String::from_str("WriteProcessMemory failed"),
        },
        InjectStep::ResolveLoadLibrary => StepOutcome::Abort {
            free_memory: true,
            close_process: true,
            message: String::from_str("GetProcAddress(LoadLibraryW) failed"),
        },
        InjectStep::StartThread => StepOutcome::Abort {
            free_memory: true,
            close_process: true,
            message: String::from_str("CreateRemoteThread failed"),
        },
    }
}

/// Every failure frees the remote memory exactly when it was allocated
/// before the failing step, and closes the process exactly when it was
/// opened before it.
pub proof fn lemma_failure_releases_what_was_acquired(step: InjectStep)
    ensures
        memory_held(step) ==> process_held(step),
        step == InjectStep::OpenProcess ==> !memory_held(step) && !process_held(step),
        next_step(step) matches Some(n) ==> (memory_held(step) ==> memory_held(n)) && (
        process_held(step) ==> process_held(n)),
        next_step(InjectStep::AllocateMemory) matches Some(n) && memory_held(n),
{
}

/// The process to inject into: by id, or by executable name.
pub enum Target {
    Pid(u32),
    Name(String),
}

/// What the injector does with its command line.
pub enum Invocation {
    /// Print the usage text and exit with status 1.
    Usage,
    /// Inject into `target` the DLL at `dll_path`, or at
    /// `syobon_quicksave.dll` beside the injector when it is `None`.
    Inject { target: Target, dll_path: Option<String> },
}

/// The process name used when the command line gives none.
pub open spec fn default_process() -> Seq<char> {
    "しょぼんのアクション"@
}

/// `--help`
pub open spec fn help_flag() -> Seq<char> {
    seq!['-', '-', 'h', 'e', 'l', 'p']
}

/// The process argument: the first argument, or the default name.
pub open spec fn process_arg(args: Seq<Seq<char>>) -> Seq<char> {
    if args.len() >= 2 {
        args[1]
    } else {
        default_process()
    }
}

/// The views of `args`.
pub open spec fn arg_views(args: Seq<String>) -> Seq<Seq<char>> {
    args.map_values(|a: String| a@)
}

/// The injector's reading of its command line `args` (`args[0]` is the
/// program): `--help` as first argument asks for the usage; otherwise the
/// first argument, or the default game name, is a process id if it parses
/// as a decimal `u32` and a process name if not; the second is the DLL path.
pub fn plan_invocation(args: &Vec<String>) -> (inv: Invocation)
    ensures
        ({
            let a = arg_views(args@);
            &&& (a.len() >= 2 && a[1] == help_flag()) ==> inv is Usage
            &&& !(a.len() >= 2 && a[1] == help_flag()) ==> (inv matches Invocation::Inject {
                target,
                dll_path,
            } && {
                &&& match parse_u32(process_arg(a), 10) {
                    Some(n) => target matches Target::Pid(p) && p == n,
                    None => target matches Target::Name(s) && s@ == process_arg(a),
                }
                &&& (a.len() >= 3 ==> (dll_path matches Some(d) && d@ == a[2]))
                &&& (a.len() < 3 ==> dll_path is None)
            })
        }),
{
    let ghost a = arg_views(args@);
    let name: Vec<char> = if args.len() >= 2 {
        chars_of(args[1].as_str())
    } else {
        chars_of("しょぼんのアクション")
    };
    assert(name@ == process_arg(a));
    if args.len() >= 2 {
        let help = vec!['-', '-', 'h', 'e', 'l', 'p'];
        assert(help@ == help_flag());
        if same_chars(&name, &help) {
            return Invocation::Usage;
        }
    }
    let target = match parse_u32_radix(&name, 10) {
        Some(n) => Target::Pid(n),
        None => Target::Name(string_of(&name)),
    };
    let dll_path = if args.len() >= 3 {
        Some(args[2].clone())
    } else {
        None
    };
    Invocation::Inject { target, dll_path }
}

} // verus!
