use deet::breakpoint::{BpState, BreakpointTable};
use deet::debugger::{Debugger, ResolveError, SessionState};
use deet::inferior::{status_of_outcome, stepover_target};
use deet::parse::{parse_address, parse_decimal};
use deet::status::{DebugError, Status, TraceError};
use deet::trace::WaitOutcome;
use deet::symbols::{SymEntry, SymbolTable};
use deet::walk::{FrameWalk, MAX_FRAMES};
use deet::word::{align_addr_to_word, extract_byte, replace_byte};

fn sample_symbols() -> SymbolTable {
    let mut t = SymbolTable::new();
    t.add_entry(SymEntry {
        low: 0x1000,
        high: 0x1050,
        name: "main".to_string(),
        file: "t.c".to_string(),
        line: 10,
    });
    t.add_entry(SymEntry {
        low: 0x1050,
        high: 0x10a0,
        name: "helper".to_string(),
        file: "t.c".to_string(),
        line: 20,
    });
    t
}

#[test]
fn test_parse_address() {
    assert_eq!(parse_address("0x1234"), Some(0x1234));
    assert_eq!(parse_address("1f"), Some(0x1f));
    assert_eq!(parse_address("0X1F"), Some(0x1f));
    assert_eq!(parse_address(""), None);
    assert_eq!(parse_address("0x"), None);
    assert_eq!(parse_address("zz"), None);
    assert_eq!(parse_address("ffffffffffffffff"), Some(usize::MAX));
    assert_eq!(parse_address("10000000000000000"), None);
}

#[test]
fn test_parse_decimal() {
    assert_eq!(parse_decimal("42"), Some(42));
    assert_eq!(parse_decimal("007"), Some(7));
    assert_eq!(parse_decimal(""), None);
    assert_eq!(parse_decimal("4a"), None);
    assert_eq!(parse_decimal("99999999999999999999999"), None);
}

#[test]
fn test_resolve_target() {
    let dbg = Debugger::new("t", sample_symbols());
    assert_eq!(dbg.resolve_target("*0x1234"), Ok(0x1234));
    assert_eq!(dbg.resolve_target("*1050"), Ok(0x1050));
    assert_eq!(dbg.resolve_target("*zz"), Err(ResolveError::BadAddress));
    assert_eq!(dbg.resolve_target("20"), Ok(0x1050));
    assert_eq!(dbg.resolve_target("99"), Err(ResolveError::UnknownLine));
    assert_eq!(dbg.resolve_target("helper"), Ok(0x1050));
    assert_eq!(dbg.resolve_target("main"), Ok(0x1000));
    assert_eq!(dbg.resolve_target("nosuch"), Err(ResolveError::UnknownFunction));
}

#[test]
fn test_two_line_breakpoints_one_miss() {
    let mut dbg = Debugger::new("t", sample_symbols());
    let first = dbg.resolve_target("10");
    assert_eq!(first, Ok(0x1000));
    assert!(dbg.set_breakpoint(0x1000));
    let second = dbg.resolve_target("55");
    assert_eq!(second, Err(ResolveError::UnknownLine));
    assert!(dbg.has_breakpoint(0x1000));
    assert_eq!(dbg.breakpoint_count(), 1);
    assert!(!dbg.has_breakpoint(0x1050));
}

#[test]
fn test_breakpoint_table_modes() {
    let mut before_run = BreakpointTable::new();
    before_run.set_pending(0x10);
    before_run.set_pending(0x20);
    let mut while_live = BreakpointTable::new();
    while_live.set_installed(0x10, 0xaa);
    while_live.set_installed(0x20, 0xbb);
    assert_eq!(before_run.count(), while_live.count());
    assert!(before_run.contains(0x10) && while_live.contains(0x10));
    assert!(before_run.contains(0x20) && while_live.contains(0x20));
    assert_eq!(before_run.get(0x10), Some(BpState::Pending));
    assert_eq!(while_live.get(0x10), Some(BpState::Installed(0xaa)));
    assert_eq!(before_run.get(0x30), None);
}

#[test]
fn test_breakpoint_reregistration_keeps_one_entry() {
    let mut t = BreakpointTable::new();
    t.set_pending(0x40);
    t.set_installed(0x40, 0x55);
    assert_eq!(t.count(), 1);
    assert_eq!(t.get(0x40), Some(BpState::Installed(0x55)));
}

#[test]
fn test_word_patch_round_trip() {
    let w: u64 = 0x1122334455667788;
    let patched = replace_byte(w, 2, 0xcc);
    assert_eq!(extract_byte(patched, 2), 0xcc);
    assert_eq!(extract_byte(patched, 0), 0x88);
    assert_eq!(extract_byte(patched, 7), 0x11);
    let orig = extract_byte(w, 2);
    assert_eq!(orig, 0x66);
    assert_eq!(replace_byte(patched, 2, orig), w);
}

#[test]
fn test_align_addr_to_word() {
    assert_eq!(align_addr_to_word(0x1007), 0x1000);
    assert_eq!(align_addr_to_word(0x1008), 0x1008);
    assert_eq!(align_addr_to_word(0), 0);
    assert_eq!(align_addr_to_word(13), 8);
}

#[test]
fn test_status_of_outcome() {
    assert_eq!(status_of_outcome(WaitOutcome::Exited(3), 0), Ok(Status::Exited(3)));
    assert_eq!(status_of_outcome(WaitOutcome::Signaled(9), 0), Ok(Status::Signaled(9)));
    assert_eq!(
        status_of_outcome(WaitOutcome::Stopped(5), 0x7777),
        Ok(Status::Stopped(5, 0x7777))
    );
    assert_eq!(
        status_of_outcome(WaitOutcome::Other, 0),
        Err(TraceError::UnexpectedStatus)
    );
}

#[test]
fn test_stepover_decision() {
    let mut t = BreakpointTable::new();
    t.set_installed(0x400000, 0x55);
    t.set_pending(0x500000);
    assert_eq!(stepover_target(0x400001, &t), Some((0x400000, 0x55)));
    assert_eq!(stepover_target(0x400000, &t), None);
    assert_eq!(stepover_target(0x500001, &t), None);
    assert_eq!(stepover_target(0, &t), None);
}

#[test]
fn test_walk_terminates_on_cycle() {
    let symbols = SymbolTable::new();
    let mut walk = FrameWalk::start(0x5000, 0x7000);
    let mut frames: usize = 0;
    while !walk.is_done() {
        let f = walk.emit(&symbols);
        frames += 1;
        assert_eq!(f.pc, 0x5000);
        if walk.is_done() {
            break;
        }
        walk.advance(0x5000, 0x7000);
    }
    assert_eq!(frames, MAX_FRAMES);
}

#[test]
fn test_walk_stops_at_entry_function() {
    let symbols = sample_symbols();
    let mut walk = FrameWalk::start(0x1010, 0x7000);
    let f = walk.emit(&symbols);
    assert_eq!(f.pc, 0x1010);
    assert!(walk.is_done());
}

#[test]
fn test_walk_continues_past_unknown_and_helper() {
    let symbols = sample_symbols();
    let mut walk = FrameWalk::start(0x1060, 0x7000);
    walk.emit(&symbols);
    assert!(!walk.is_done());
    walk.advance(0x9999, 0x7100);
    walk.emit(&symbols);
    assert!(!walk.is_done());
    walk.advance(0x1000, 0x7200);
    walk.emit(&symbols);
    assert!(walk.is_done());
}

#[test]
fn test_session_without_process() {
    let mut dbg = Debugger::new("t", sample_symbols());
    assert_eq!(dbg.state(), SessionState::NoProcess);
    assert_eq!(dbg.current_pid(), None);
    assert_eq!(dbg.continue_execution(), Err(DebugError::NoProcess));
    assert!(dbg.backtrace().is_err());
    assert_eq!(dbg.kill(), Ok(None));
    assert_eq!(dbg.state(), SessionState::NoProcess);
}

#[test]
fn test_terminal_status_clears_process() {
    let mut dbg = Debugger::new("t", sample_symbols());
    dbg.note_status(&Status::Exited(0));
    assert_eq!(dbg.state(), SessionState::NoProcess);
    dbg.note_status(&Status::Signaled(9));
    assert_eq!(dbg.state(), SessionState::NoProcess);
    dbg.note_status(&Status::Stopped(5, 0x1000));
    assert_eq!(dbg.state(), SessionState::NoProcess);
}

#[test]
fn test_symbol_resolution() {
    let symbols = sample_symbols();
    let hit = symbols.resolve_address(0x1005).unwrap();
    assert_eq!(hit.name, "main");
    assert_eq!(hit.file, "t.c");
    assert_eq!(hit.line, 10);
    assert!(symbols.resolve_address(0x2000).is_none());
    assert_eq!(symbols.resolve_line(20), Some(0x1050));
    assert_eq!(symbols.resolve_line(30), None);
    assert_eq!(symbols.resolve_function(&"main".to_string()), Some(0x1000));
    assert_eq!(symbols.resolve_function(&"nope".to_string()), None);
    assert!(symbols.is_entry_addr(0x1000));
    assert!(!symbols.is_entry_addr(0x1050));
    assert!(!symbols.is_entry_addr(0x9999));
}

#[test]
fn test_apply_guess() {
    let secret: Vec<char> = vec!['a', 'b', 'b', 'a'];
    let mut current: Vec<char> = vec!['-', '-', '-', '-'];
    assert!(deet::hangman::apply_guess(&secret, &mut current, 'b'));
    assert_eq!(current, vec!['-', 'b', '-', '-']);
    assert!(deet::hangman::apply_guess(&secret, &mut current, 'b'));
    assert_eq!(current, vec!['-', 'b', 'b', '-']);
    assert!(!deet::hangman::apply_guess(&secret, &mut current, 'b'));
    assert_eq!(current, vec!['-', 'b', 'b', '-']);
    assert!(!deet::hangman::apply_guess(&secret, &mut current, 'z'));
    assert_eq!(current, vec!['-', 'b', 'b', '-']);
}
