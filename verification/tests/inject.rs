use syobon_quicksave::inject::{
    after_step, dll_path_payload, find_pid_by_name, names_match, plan_invocation, process_name_matches,
    InjectStep, Invocation, ProcessEntry, StepOutcome, Target,
};

fn exe_buffer(name: &str) -> Vec<u16> {
    let mut v: Vec<u16> = name.encode_utf16().collect();
    v.resize(260, 0);
    v
}

#[test]
fn name_matching_ignores_case_and_exe() {
    assert!(process_name_matches("game", &exe_buffer("GAME.EXE")));
    assert!(process_name_matches("Game.exe", &exe_buffer("game.exe")));
    assert!(process_name_matches("GAME.EXE", &exe_buffer("game.exe")));
    assert!(process_name_matches("tool", &exe_buffer("TOOL")));
    assert!(!process_name_matches("gam", &exe_buffer("game.exe")));
    assert!(!process_name_matches("game.exe", &exe_buffer("game")));
    assert!(process_name_matches("しょぼんのアクション", &exe_buffer("しょぼんのアクション.exe")));
}

#[test]
fn name_matching_stops_at_nul_and_replaces_bad_units() {
    let mut buf = exe_buffer("a.exe");
    buf[7] = 'x' as u16;
    assert!(process_name_matches("a", &buf));
    let bad: Vec<u16> = vec![0xD800, 'b' as u16, 0];
    assert!(process_name_matches("\u{FFFD}b", &bad));
    let pair: Vec<u16> = "\u{1F600}.exe".encode_utf16().collect();
    assert!(process_name_matches("\u{1F600}", &pair));
}

#[test]
fn finds_the_first_matching_process() {
    let procs = vec![
        ProcessEntry { pid: 4, exe_file: exe_buffer("System") },
        ProcessEntry { pid: 100, exe_file: exe_buffer("Game.exe") },
        ProcessEntry { pid: 200, exe_file: exe_buffer("game.exe") },
    ];
    assert_eq!(find_pid_by_name("game", &procs), Some(100));
    assert_eq!(find_pid_by_name("system", &procs), Some(4));
    assert_eq!(find_pid_by_name("other", &procs), None);
    assert_eq!(find_pid_by_name("game", &Vec::new()), None);
}

#[test]
fn payload_is_utf16_le_with_terminator() {
    assert_eq!(dll_path_payload("A"), vec![0x41, 0, 0, 0]);
    assert_eq!(dll_path_payload(""), vec![0, 0]);
    let p = "C:\\ゲーム\\q.dll";
    let mut expected = Vec::new();
    for u in p.encode_utf16().chain(std::iter::once(0)) {
        expected.extend_from_slice(&u.to_le_bytes());
    }
    assert_eq!(dll_path_payload(p), expected);
}

#[test]
fn steps_in_order_then_finish() {
    let order = [
        InjectStep::OpenProcess,
        InjectStep::AllocateMemory,
        InjectStep::WriteMemory,
        InjectStep::ResolveLoadLibrary,
        InjectStep::StartThread,
    ];
    for w in order.windows(2) {
        match after_step(w[0], true, 1) {
            StepOutcome::Next(n) => assert_eq!(n, w[1]),
            _ => panic!("expected the next step"),
        }
    }
    assert!(matches!(after_step(InjectStep::StartThread, true, 1), StepOutcome::Finish));
}

fn abort(step: InjectStep, pid: u32) -> (bool, bool, String) {
    match after_step(step, false, pid) {
        StepOutcome::Abort { free_memory, close_process, message } => {
            (free_memory, close_process, message)
        }
        _ => panic!("expected an abort"),
    }
}

#[test]
fn failures_release_and_report() {
    assert_eq!(
        abort(InjectStep::OpenProcess, 1234),
        (false, false, "OpenProcess(1234) failed (管理者権限が必要かもしれません)".to_string())
    );
    assert_eq!(
        abort(InjectStep::AllocateMemory, 1),
        (false, true, "VirtualAllocEx failed".to_string())
    );
    assert_eq!(
        abort(InjectStep::WriteMemory, 1),
        (true, true, "WriteProcessMemory failed".to_string())
    );
    assert_eq!(
        abort(InjectStep::ResolveLoadLibrary, 1),
        (true, true, "GetProcAddress(LoadLibraryW) failed".to_string())
    );
    assert_eq!(
        abort(InjectStep::StartThread, 1),
        (true, true, "CreateRemoteThread failed".to_string())
    );
}

fn args(v: &[&str]) -> Vec<String> {
    v.iter().map(|s| s.to_string()).collect()
}

#[test]
fn command_line_defaults_to_the_game() {
    match plan_invocation(&args(&["inject"])) {
        Invocation::Inject { target: Target::Name(n), dll_path: None } => {
            assert_eq!(n, "しょぼんのアクション")
        }
        _ => panic!("expected the default game name"),
    }
}

#[test]
fn command_line_pid_name_and_path() {
    match plan_invocation(&args(&["inject", "1234"])) {
        Invocation::Inject { target: Target::Pid(1234), dll_path: None } => {}
        _ => panic!("expected a pid"),
    }
    match plan_invocation(&args(&["inject", "+42", "x.dll"])) {
        Invocation::Inject { target: Target::Pid(42), dll_path: Some(p) } => assert_eq!(p, "x.dll"),
        _ => panic!("expected a pid and a path"),
    }
    match plan_invocation(&args(&["inject", "game.exe", "C:\\q.dll", "extra"])) {
        Invocation::Inject { target: Target::Name(n), dll_path: Some(p) } => {
            assert_eq!(n, "game.exe");
            assert_eq!(p, "C:\\q.dll");
        }
        _ => panic!("expected a name and a path"),
    }
    match plan_invocation(&args(&["inject", "4294967296"])) {
        Invocation::Inject { target: Target::Name(n), .. } => assert_eq!(n, "4294967296"),
        _ => panic!("an out-of-range number is a name"),
    }
}

#[test]
fn command_line_help() {
    assert!(matches!(plan_invocation(&args(&["inject", "--help"])), Invocation::Usage));
    assert!(matches!(plan_invocation(&args(&["inject", "--help", "x.dll"])), Invocation::Usage));
    assert!(!matches!(plan_invocation(&args(&["inject", "x", "--help"])), Invocation::Usage));
}

#[test]
fn lower_case_names_match_with_or_without_exe() {
    assert!(names_match("game.exe", "game"));
    assert!(names_match("game.exe", "game.exe"));
    assert!(names_match("game", "game"));
    assert!(!names_match("game", "game.exe"));
    assert!(!names_match("game.exe.exe", "game.exe"));
    assert!(!names_match("game.exe", "gam"));
    assert!(!names_match("GAME.EXE", "game"));
}
