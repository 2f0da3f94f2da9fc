use rustkernel::interrupts::breakpoint_handler;
use rustkernel::interrupts::divide_by_zero_handler;
use rustkernel::interrupts::double_fault_handler;
use rustkernel::interrupts::invalid_opcode_handler;
use rustkernel::interrupts::page_fault_handler;
use rustkernel::interrupts::InterruptIndex;
use rustkernel::interrupts::InterruptStackFrame;
use rustkernel::interrupts::PageFaultErrorCode;
use rustkernel::interrupts::Resolution;
use rustkernel::QemuExitCode;

fn frame() -> InterruptStackFrame {
    InterruptStackFrame {
        instruction_pointer: 0xffff_8000_0000_1234,
        code_segment: 0x8,
        cpu_flags: 0x202,
        stack_pointer: 0x57ac0,
        stack_segment: 0x10,
    }
}

#[test]
fn interrupt_index_vectors() {
    assert_eq!(InterruptIndex::Timer.as_u8(), 32);
    assert_eq!(InterruptIndex::Keyboard.as_u8(), 33);
    assert_eq!(InterruptIndex::Timer.as_usize(), 32);
    assert_eq!(InterruptIndex::Keyboard.as_usize(), 33);
}

#[test]
fn error_code_decodes_named_bits() {
    let decoded = PageFaultErrorCode::from_bits(0b10101).expect("recognized bits");
    assert!(decoded.protection_violation);
    assert!(!decoded.caused_by_write);
    assert!(decoded.user_mode);
    assert!(!decoded.malformed_table);
    assert!(decoded.instruction_fetch);
}

#[test]
fn error_code_rejects_unknown_bits() {
    assert_eq!(PageFaultErrorCode::from_bits(0b10_0000), None);
    assert_eq!(PageFaultErrorCode::from_bits(1 << 63), None);
}

#[test]
fn frame_description_renders_every_field() {
    let text = frame().description();
    assert_eq!(
        text,
        "instruction_pointer: 0xffff800000001234\ncode_segment: 0x8\ncpu_flags: 0x202\nstack_pointer: 0x57ac0\nstack_segment: 0x10\n"
    );
}

#[test]
fn breakpoint_resumes_but_other_faults_halt() {
    let f = frame();
    assert_eq!(breakpoint_handler(&f).1, Resolution::Resume);
    assert_eq!(divide_by_zero_handler(&f).1, Resolution::Halt);
    assert_eq!(invalid_opcode_handler(&f).1, Resolution::Halt);
    assert_eq!(double_fault_handler(&f, 0).1, Resolution::Halt);
}

#[test]
fn page_fault_report_names_the_flags() {
    let f = frame();
    let (report, decoded, resolution) = page_fault_handler(&f, 0b1001, 0xdeadbea0);
    assert_eq!(resolution, Resolution::Halt);
    assert!(decoded.protection_violation);
    assert!(decoded.malformed_table);
    assert!(report.starts_with(
        "\nEXCEPTION: PAGE FAULT while accessing 0xdeadbea0\nerror code: PROTECTION_VIOLATION MALFORMED_TABLE \n"
    ));
}

#[test]
fn exit_codes_match_the_port_protocol() {
    assert_eq!(QemuExitCode::Success.code(), 0x10);
    assert_eq!(QemuExitCode::Failed.code(), 0x11);
}
