use rust_wow::module::{modules_table, ModuleInfo};
use rust_wow::process::{CodeByte, FunctionCopy, Process, ProcessEntry};
use rust_wow::threads::{ProcessThreads, ThreadEntry};

fn entry(name: &str, pid: u32) -> ProcessEntry {
    let mut exe_file = name.as_bytes().to_vec();
    exe_file.resize(260, 0);
    ProcessEntry { exe_file, process_id: pid }
}

#[test]
fn find_first_matching_process() {
    let snapshot = vec![entry("System", 4), entry("Wow.exe", 100), entry("Wow.exe", 200)];
    assert_eq!(Process::find(&snapshot, "Wow.exe"), Some(100));
    assert_eq!(Process::find(&snapshot, "wow.exe"), None);
    assert_eq!(Process::find(&snapshot, "Wow"), None);
    assert_eq!(Process::find(&vec![], "Wow.exe"), None);
}

#[test]
fn find_with_invalid_utf8_name() {
    let mut bad = entry("Wow.exe", 7);
    bad.exe_file[0] = 0xFF;
    let snapshot = vec![bad, entry("\u{FFFD}ow.exe", 9)];
    assert_eq!(Process::find(&snapshot, "\u{FFFD}ow.exe"), Some(7));
}

#[test]
fn process_fields() {
    let p = Process::new(0x1234, 77);
    assert_eq!(p.process_handle(), 0x1234);
    assert_eq!(p.process_id(), 77);
    assert_eq!(p.process_threads().process_id(), 77);
}

#[test]
fn module_names_are_lowercased() {
    let m = ModuleInfo::new("D3D9.DLL", 0x4000_0000);
    assert_eq!(m.get_mod_name(), "d3d9.dll");
    assert_eq!(*m.get_mod_va(), 0x4000_0000);
}

#[test]
fn module_from_padded_entry() {
    let mut raw = b"KERNEL32.dll".to_vec();
    raw.resize(256, 0);
    let m = ModuleInfo::from_entry(&raw, 0x7700_0000);
    assert_eq!(m.get_mod_name(), "kernel32.dll");
    assert_eq!(*m.get_mod_va(), 0x7700_0000);
}

#[test]
fn later_module_of_same_name_wins() {
    let p = Process::new(0, 1);
    let table = p.get_modules(vec![
        ModuleInfo::new("Wow.exe", 0x400000),
        ModuleInfo::new("d3d9.dll", 0x1000),
        ModuleInfo::new("D3D9.dll", 0x2000),
    ]);
    assert_eq!(*table.get("d3d9.dll").unwrap().get_mod_va(), 0x2000);
    assert_eq!(*table.get("wow.exe").unwrap().get_mod_va(), 0x400000);
    assert!(table.get("Wow.exe").is_none());
    assert!(table.get("user32.dll").is_none());
}

#[test]
fn empty_module_table() {
    let table = modules_table(vec![]);
    assert!(table.get("d3d9.dll").is_none());
}

#[test]
fn threads_of_process() {
    let t = ProcessThreads::new(10);
    let snapshot = vec![
        ThreadEntry { owner_process_id: 10, thread_id: 1 },
        ThreadEntry { owner_process_id: 11, thread_id: 2 },
        ThreadEntry { owner_process_id: 10, thread_id: 3 },
    ];
    assert_eq!(t.threads_in(&snapshot), vec![1, 3]);
    assert_eq!(ProcessThreads::new(12).threads_in(&snapshot), Vec::<u32>::new());
}

#[test]
fn allocation_outcome() {
    assert_eq!(Process::allocation_result(0x10000), Ok(0x10000));
    assert_eq!(Process::allocation_result(0), Err("Failed to create allocation".to_string()));
}

#[test]
fn hook_patch_bytes() {
    let (nops, jump) = Process::hook_patches(0x0040_1000, 7);
    assert_eq!(nops, vec![0x90; 7]);
    assert_eq!(jump, vec![0xB8, 0x00, 0x10, 0x40, 0x00, 0xFF, 0xE0]);
    let (nops, _) = Process::hook_patches(0, 0x1_05);
    assert_eq!(nops, vec![0x90; 0x1_05]);
}

#[test]
fn hook_region_is_jump_then_nops() {
    // The two patches written in order over ten replaced bytes.
    let (nops, jump) = Process::hook_patches(0x0040_1000, 10);
    let mut memory = vec![0xCCu8; 10];
    memory[..nops.len()].copy_from_slice(&nops);
    memory[..jump.len()].copy_from_slice(&jump);
    assert_eq!(memory, vec![0xB8, 0x00, 0x10, 0x40, 0x00, 0xFF, 0xE0, 0x90, 0x90, 0x90]);
}

/// Runs a copy over `memory` (the function's bytes, starting at `base`).
fn copy_function(memory: &[u8], base: u32) -> Vec<u8> {
    let mut c = FunctionCopy::new();
    loop {
        let off = c.next_offset() as usize;
        let byte = memory[off];
        match c.feed(byte) {
            CodeByte::Plain => {}
            CodeByte::Return => break,
            CodeByte::RelativeCall => {
                let rel = u32::from_le_bytes([memory[off + 1], memory[off + 2], memory[off + 3], memory[off + 4]]);
                c.relocate(base + off as u32, rel);
            }
        }
    }
    assert!(c.is_finished());
    c.into_bytes()
}

#[test]
fn copy_relocates_relative_calls() {
    // push ebp; call +0x10; ret
    let memory = [0x55, 0xE8, 0x10, 0x00, 0x00, 0x00, 0xC3];
    let out = copy_function(&memory, 0x1000);
    // target = 0x1001 + 5 + 0x10 = 0x1016
    assert_eq!(out, vec![0x55, 0xBA, 0x16, 0x10, 0x00, 0x00, 0xFF, 0xD2, 0xC3]);
}

#[test]
fn copy_keeps_e8_after_83() {
    // sub esp, 0xE8; ret
    let memory = [0x83, 0xE8, 0xC3];
    assert_eq!(copy_function(&memory, 0x2000), vec![0x83, 0xE8, 0xC3]);
}

#[test]
fn copy_negative_displacement_wraps() {
    let memory = [0x90, 0xE8, 0xFA, 0xFF, 0xFF, 0xFF, 0xC3];
    let out = copy_function(&memory, 0x10);
    // target = 0x11 + 5 - 6 = 0x10
    assert_eq!(out, vec![0x90, 0xBA, 0x10, 0x00, 0x00, 0x00, 0xFF, 0xD2, 0xC3]);
}

#[test]
fn feed_classifies() {
    let mut c = FunctionCopy::new();
    assert!(c.is_empty());
    assert_eq!(c.feed(0x55), CodeByte::Plain);
    assert_eq!(c.next_offset(), 1);
    assert_eq!(c.feed(0xE8), CodeByte::RelativeCall);
    assert_eq!(c.next_offset(), 1);
    c.relocate(0x100, 0);
    assert_eq!(c.next_offset(), 6);
    assert_eq!(c.feed(0xC3), CodeByte::Return);
    assert!(c.is_finished());
}
