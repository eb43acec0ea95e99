use rustvm::{parse_object, Event, Status, VM};

fn object_bytes(words: &[u16]) -> Vec<u8> {
    let mut bytes = Vec::new();
    for word in words {
        bytes.extend_from_slice(&word.to_be_bytes());
    }
    bytes
}

fn load(words: &[u16]) -> Box<VM> {
    let image = parse_object(&object_bytes(words)).expect("valid object file");
    let mut vm = Box::new(VM::new());
    vm.load_image(image.origin, &image.words);
    vm
}

/// Runs the machine as a host would, feeding it `stdin_data`; returns what it
/// wrote and its exit status.
fn run(vm: &mut VM, stdin_data: &str) -> (String, Option<i32>) {
    let mut input = stdin_data.bytes();
    let mut out = String::new();
    for _ in 0..1000 {
        match vm.execute(1_000_000) {
            Event::Continue => {}
            Event::Output(chars) => out.extend(chars.iter().map(|&b| b as char)),
            Event::Input { prompt, echo } => {
                out.extend(prompt.iter().map(|&b| b as char));
                let b = input.next().expect("program reads more input than given");
                vm.provide_input(b);
                if echo {
                    out.push(b as char);
                }
            }
            Event::Halt | Event::Fail(_) => break,
        }
    }
    (out, vm.exit_code())
}

fn run_vm(words: &[u16], stdin_data: &str) -> (String, Option<i32>) {
    let mut vm = load(words);
    run(&mut vm, stdin_data)
}

#[test]
fn syscall_out_prints_character_from_r0() {
    // x3000: LD R0, #2
    // x3001: TRAP x21 (OUT)
    // x3002: TRAP x25 (HALT)
    // x3003: 'A'
    let (runtime, code) = run_vm(&[0x3000, 0x2002, 0xF021, 0xF025, 0x0041], "");
    assert_eq!(code, Some(0), "process failed");
    assert!(runtime.contains('A'), "expected runtime output to contain 'A', got:\n{runtime}");
    assert_eq!(runtime, "A");
}

#[test]
fn syscall_getc_reads_character_into_r0() {
    // x3000: TRAP x20 (GETC)
    // x3001: TRAP x21 (OUT)  -- prints what GETC put in R0
    // x3002: TRAP x25 (HALT)
    let (runtime, code) = run_vm(&[0x3000, 0xF020, 0xF021, 0xF025], "Z");
    assert_eq!(code, Some(0), "process failed");
    assert!(runtime.contains('Z'), "expected runtime output to contain echoed 'Z', got:\n{runtime}");
    // GETC does not echo: the only 'Z' is the one OUT wrote.
    assert_eq!(runtime, "Z");
}

#[test]
fn syscall_in_char_prompts_reads_and_echoes() {
    // x3000: TRAP x23 (IN)
    // x3001: TRAP x21 (OUT)  -- prints R0 again to prove IN stored it
    // x3002: TRAP x25 (HALT)
    let (runtime, code) = run_vm(&[0x3000, 0xF023, 0xF021, 0xF025], "k\n");
    assert_eq!(code, Some(0), "process failed");
    let k_count = runtime.matches('k').count();
    assert!(k_count >= 2, "expected IN to echo 'k' and OUT to print it again; got:\n{runtime}");
    assert_eq!(runtime, "Enter character: kk");
}

#[test]
fn syscall_putsp_prints_packed_string() {
    // x3000: LEA R0, #2      -- R0 -> x3003
    // x3001: TRAP x24 (PUTSP)
    // x3002: TRAP x25 (HALT)
    // x3003: 0x6948 ('H','i')
    // x3004: 0x0021 ('!')
    // x3005: 0x0000 (terminator)
    let (runtime, code) =
        run_vm(&[0x3000, 0xE002, 0xF024, 0xF025, 0x6948, 0x0021, 0x0000], "");
    assert_eq!(code, Some(0), "process failed");
    assert!(runtime.contains("Hi!"), "expected packed string output \"Hi!\", got:\n{runtime}");
    assert_eq!(runtime, "Hi!");
}

#[test]
fn puts_prints_one_character_per_word() {
    // LEA R0, #2; TRAP x22 (PUTS); TRAP x25; "Hi", 0
    let (runtime, code) = run_vm(&[0x3000, 0xE002, 0xF022, 0xF025, 0x0148, 0x0069, 0x0000], "");
    assert_eq!(code, Some(0));
    assert_eq!(runtime, "Hi");
}

#[test]
fn unknown_trap_fails_and_nothing_runs_after() {
    // x3000: TRAP x99; x3001: LD R0, #1; x3002: TRAP x21 (OUT); x3003: 'X'
    let mut vm = load(&[0x3000, 0xF099, 0x2001, 0xF021, 0x0058]);
    let (runtime, code) = run(&mut vm, "");
    assert_eq!(code, Some(1));
    assert_eq!(runtime, "");
    assert!(matches!(vm.status(), Status::Failed(0x99)));
    let pc = vm.pc();
    assert_eq!(pc, 0x3001);
    assert!(matches!(vm.execute(100), Event::Fail(0x99)));
    assert_eq!(vm.pc(), pc);
    assert_eq!(vm.read_register(0), 0);
}

#[test]
fn halted_machine_stays_halted() {
    let mut vm = load(&[0x3000, 0xF025, 0x2001, 0xF021]);
    let (runtime, code) = run(&mut vm, "");
    assert_eq!(code, Some(0));
    assert_eq!(runtime, "");
    assert!(matches!(vm.step(), Event::Halt));
    assert_eq!(vm.pc(), 0x3001);
}

#[test]
fn execute_stops_when_fuel_runs_out() {
    let mut vm = Box::new(VM::new());
    assert!(matches!(vm.execute(5), Event::Continue));
    assert_eq!(vm.pc(), 5);
    assert_eq!(vm.exit_code(), None);
}

#[test]
fn out_writes_only_the_low_byte() {
    // LD R0, #2; OUT; HALT; 0x4142
    let (runtime, _) = run_vm(&[0x3000, 0x2002, 0xF021, 0xF025, 0x4142], "");
    assert_eq!(runtime, "B");
}

#[test]
fn putsp_stops_after_low_byte_of_word_without_high_byte() {
    // LEA R0, #2; PUTSP; HALT; "ab", "c"+0, "zz"
    let (runtime, _) = run_vm(&[0x3000, 0xE002, 0xF024, 0xF025, 0x6261, 0x0063, 0x7A7A], "");
    assert_eq!(runtime, "abc");
}
