//! A process of the client: its identity, its modules, and the planning of
//! the code patches written into it.

use vstd::prelude::*;
use crate::module::{modules_map, modules_table, ModuleInfo, ModuleMap};
use crate::stubs::{
    absolute_call, absolute_call_spec, jump_stub, jump_stub_spec, law_jump_stub_target, nop_bytes, nop_patch,
};
use crate::text::{from_utf8_lossy, trim_end, trim_end_char, utf8_lossy, str_eq};
use crate::threads::ProcessThreads;

verus! {

/// One entry of a system process snapshot: the executable-name buffer
/// (NUL padded) and the process id.
#[derive(Debug, Clone)]
pub struct ProcessEntry {
    pub exe_file: Vec<u8>,
    pub process_id: u32,
}

/// Whether a snapshot entry's executable name, decoded leniently and with
/// its NUL padding removed, is `name`.
pub open spec fn names_process(exe_file: Seq<u8>, name: Seq<char>) -> bool {
    trim_end(utf8_lossy(exe_file), '\0') == name
}

/// An opened process: its handle, its id and its threads.
#[derive(Debug, Clone)]
pub struct Process {
    process_handle: isize,
    process_id: u32,
    process_threads: ProcessThreads,
}

impl Process {
    pub closed spec fn handle(&self) -> isize {
        self.process_handle
    }

    pub closed spec fn pid(&self) -> u32 {
        self.process_id
    }

    pub closed spec fn threads_pid(&self) -> u32 {
        self.process_threads.pid()
    }

    /// The process with id `process_id`, opened under `process_handle`.
    pub fn new(process_handle: isize, process_id: u32) -> (r: Self)
        ensures
            r.handle() == process_handle,
            r.pid() == process_id,
            r.threads_pid() == process_id,
    {
        Process { process_handle, process_id, process_threads: ProcessThreads::new(process_id) }
    }

    /// The id of the first snapshot entry whose executable is `name_of_process`.
    pub fn find(snapshot: &Vec<ProcessEntry>, name_of_process: &str) -> (r: Option<u32>)
        ensures
            match r {
                Some(pid) => exists|i: int|
                    0 <= i < snapshot@.len() && #[trigger] names_process(snapshot@[i].exe_file@, name_of_process@)
                        && snapshot@[i].process_id == pid && forall|j: int|
                        0 <= j < i ==> !names_process(#[trigger] snapshot@[j].exe_file@, name_of_process@),
                None => forall|i: int|
                    0 <= i < snapshot@.len() ==> !names_process(#[trigger] snapshot@[i].exe_file@, name_of_process@),
            },
    {
        let mut i: usize = 0;
        while i < snapshot.len()
            invariant
                i <= snapshot@.len(),
                forall|j: int|
                    0 <= j < i ==> !names_process(#[trigger] snapshot@[j].exe_file@, name_of_process@),
            decreases snapshot.len() - i,
        {
            let raw = from_utf8_lossy(snapshot[i].exe_file.as_slice());
            let name = trim_end_char(raw.as_str(), '\0');
            if str_eq(name.as_str(), name_of_process) {
                assert(names_process(snapshot@[i as int].exe_file@, name_of_process@));
                return Some(snapshot[i].process_id);
            }
            i = i + 1;
        }
        None
    }

    /// The process handle.
    pub fn process_handle(&self) -> (r: isize)
        ensures
            r == self.handle(),
    {
        self.process_handle
    }

    /// The process id.
    pub fn process_id(&self) -> (r: u32)
        ensures
            r == self.pid(),
    {
        self.process_id
    }

    /// The process's threads.
    pub fn process_threads(&self) -> (r: &ProcessThreads)
        ensures
            r.pid() == self.threads_pid(),
    {
        &self.process_threads
    }

    /// The table of the process's modules, from the modules listed by a
    /// module snapshot in snapshot order.
    pub fn get_modules(&self, modules: Vec<ModuleInfo>) -> (r: ModuleMap)
        ensures
            r.wf(),
            r@ == modules_map(modules@.map_values(|m: ModuleInfo| m@)),
    {
        modules_table(modules)
    }

    /// The outcome of a remote allocation that returned `alloc_ptr`: a null
    /// pointer is a failure.
    pub fn allocation_result(alloc_ptr: usize) -> (r: Result<usize, String>)
        ensures
            alloc_ptr != 0 ==> r == Ok::<usize, String>(alloc_ptr),
            alloc_ptr == 0 ==> (r matches Err(e) && e@ == "Failed to create allocation"@),
    {
        if alloc_ptr != 0 {
            Ok(alloc_ptr)
        } else {
            Err("Failed to create allocation".to_owned())
        }
    }

    /// The two patches of an inline hook, written in this order over the
    /// hooked function: `size_to_rep` `nop`s, then the jump to the detour
    /// over the first bytes of them.
    pub fn hook_patches(detour_address: usize, size_to_rep: usize) -> (r: (Vec<u8>, Vec<u8>))
        ensures
            r.0@ == nop_bytes(size_to_rep as nat),
            r.1@ == jump_stub_spec(detour_address as u32),
    {
        (nop_patch(size_to_rep), jump_stub(detour_address as u32))
    }
}

/// How one byte of a function being copied is handled.
#[derive(Debug, Clone, Copy, PartialEq, Eq)]
pub enum CodeByte {
    /// Copied as it is.
    Plain,
    /// Opens a relative call (`E8 rel32`), rewritten as an absolute call.
    RelativeCall,
    /// The `ret` that ends the function; copied, and the copy is complete.
    Return,
}

/// How `byte` is handled when the last byte copied so far is `last`.
pub open spec fn classify_spec(last: Option<u8>, byte: u8) -> CodeByte {
    if byte == 0xE8 {
        if last == Some(0x83u8) {
            CodeByte::Plain
        } else {
            CodeByte::RelativeCall
        }
    } else if byte == 0xC3 {
        CodeByte::Return
    } else {
        CodeByte::Plain
    }
}

/// The absolute target of a relative call at `call_site` with displacement `rel`.
pub open spec fn call_target(call_site: u32, rel: u32) -> u32 {
    (rel + ((call_site + 5) as u32)) as u32
}

/// Copies a function out of a process, byte by byte up to its `ret`,
/// rewriting relative calls into absolute ones so the copy can run
/// elsewhere. The reads are made by the caller: `next_offset` tells where
/// the next byte is, `feed` takes it, and after a `RelativeCall` the four
/// displacement bytes that follow are handed to `relocate`.
pub struct FunctionCopy {
    bytes: Vec<u8>,
    offset: u32,
    pending_call: bool,
    finished: bool,
}

impl FunctionCopy {
    /// The bytes of the copy so far.
    pub closed spec fn copied(&self) -> Seq<u8> {
        self.bytes@
    }

    /// Offset from the function start of the next byte to read.
    pub closed spec fn offset(&self) -> u32 {
        self.offset
    }

    /// A relative call has been fed and awaits its displacement.
    pub closed spec fn pending(&self) -> bool {
        self.pending_call
    }

    /// The `ret` has been copied.
    pub closed spec fn finished(&self) -> bool {
        self.finished
    }

    /// The last byte copied so far, if any.
    pub open spec fn last_copied(&self) -> Option<u8> {
        if self.copied().len() == 0 {
            None
        } else {
            Some(self.copied().last())
        }
    }

    /// A copy that has read nothing yet.
    pub fn new() -> (r: Self)
        ensures
            r.copied() == Seq::<u8>::empty(),
            r.offset() == 0,
            !r.pending(),
            !r.finished(),
    {
        FunctionCopy { bytes: Vec::new(), offset: 0, pending_call: false, finished: false }
    }

    /// Offset of the next byte to read.
    pub fn next_offset(&self) -> (r: u32)
        ensures
            r == self.offset(),
    {
        self.offset
    }

    /// Whether the copy is complete.
    pub fn is_finished(&self) -> (r: bool)
        ensures
            r == self.finished(),
    {
        self.finished
    }

    /// Whether nothing has been copied yet.
    pub fn is_empty(&self) -> (r: bool)
        ensures
            r == (self.copied().len() == 0),
    {
        self.bytes.len() == 0
    }

    /// Takes the byte at the current offset. A plain byte is copied and the
    /// offset moves past it; a `ret` is copied and ends the copy; a relative
    /// call leaves the copy waiting for its displacement.
    pub fn feed(&mut self, byte: u8) -> (r: CodeByte)
        requires
            !old(self).pending(),
            !old(self).finished(),
            byte == 0xE8 ==> old(self).copied().len() > 0,
            old(self).offset() < u32::MAX,
        ensures
            r == classify_spec(old(self).last_copied(), byte),
            (r == CodeByte::Return) == (byte == 0xC3),
            byte != 0xE8 && byte != 0xC3 ==> r == CodeByte::Plain,
            r == CodeByte::Plain ==> final(self).copied() == old(self).copied().push(byte)
                && final(self).offset() == old(self).offset() + 1 && !final(self).pending()
                && !final(self).finished(),
            r == CodeByte::Return ==> final(self).copied() == old(self).copied().push(byte)
                && final(self).offset() == old(self).offset() && !final(self).pending()
                && final(self).finished(),
            r == CodeByte::RelativeCall ==> final(self).copied() == old(self).copied()
                && final(self).offset() == old(self).offset() && final(self).pending()
                && !final(self).finished(),
    {
        if byte == 0xE8 {
            let last = self.bytes[self.bytes.len() - 1];
            if last == 0x83 {
                self.bytes.push(byte);
                self.offset = self.offset + 1;
                CodeByte::Plain
            } else {
                self.pending_call = true;
                CodeByte::RelativeCall
            }
        } else if byte == 0xC3 {
            self.bytes.push(byte);
            self.finished = true;
            CodeByte::Return
        } else {
            self.bytes.push(byte);
            self.offset = self.offset + 1;
            CodeByte::Plain
        }
    }

    /// Completes a relative call found at address `call_site` (the address
    /// of its `E8`) whose displacement is `rel`: the copy gets an absolute
    /// call to the same target, and the offset moves past the five bytes of
    /// the relative call.
    pub fn relocate(&mut self, call_site: u32, rel: u32)
        requires
            old(self).pending(),
            old(self).offset() <= u32::MAX - 5,
        ensures
            final(self).copied() == old(self).copied() + absolute_call_spec(call_target(call_site, rel)),
            final(self).offset() == old(self).offset() + 5,
            !final(self).pending(),
            final(self).finished() == old(self).finished(),
    {
        let target = rel.wrapping_add(call_site.wrapping_add(5));
        assert(target == call_target(call_site, rel)) by (bit_vector)
            requires
                target == rel.wrapping_add(call_site.wrapping_add(5)),
        ;
        let call = absolute_call(target);
        let mut i: usize = 0;
        let ghost before = self.bytes@;
        while i < call.len()
            invariant
                i <= call@.len(),
                self.bytes@ == before + call@.take(i as int),
                self.offset == old(self).offset,
                self.offset <= u32::MAX - 5,
                self.pending_call == old(self).pending_call,
                self.finished == old(self).finished,
            decreases call.len() - i,
        {
            self.bytes.push(call[i]);
            assert(call@.take(i + 1) =~= call@.take(i as int).push(call@[i as int]));
            i = i + 1;
        }
        assert(call@.take(call@.len() as int) =~= call@);
        self.offset = self.offset + 5;
        self.pending_call = false;
    }

    /// The copied bytes.
    pub fn into_bytes(self) -> (r: Vec<u8>)
        ensures
            r@ == self.copied(),
    {
        self.bytes
    }
}

/// The bytes at an address after `top` is written there over `base`: those
/// of `top`, then those of `base` beyond it.
pub open spec fn overlay(base: Seq<u8>, top: Seq<u8>) -> Seq<u8> {
    if top.len() >= base.len() {
        top
    } else {
        top + base.skip(top.len() as int)
    }
}

/// Writing the two hook patches in order over a function of at least seven
/// replaced bytes leaves the jump to the detour followed by `nop`s up to the
/// end of the replaced bytes.
pub proof fn law_hook_region(detour_address: usize, size_to_rep: usize)
    requires
        size_to_rep >= 7,
    ensures
        overlay(nop_bytes(size_to_rep as nat), jump_stub_spec(detour_address as u32)) == jump_stub_spec(
            detour_address as u32,
        ) + nop_bytes((size_to_rep - 7) as nat),
{
    law_jump_stub_target(detour_address as u32);
    assert(nop_bytes(size_to_rep as nat).skip(7) =~= nop_bytes((size_to_rep - 7) as nat));
}

/// Only `ret` (`C3`) ends a copy; every byte other than `E8` and `C3` is a
/// plain byte; an `E8` opens a relative call unless it follows `83` (where
/// it is an immediate operand).
pub proof fn law_code_byte_classes(last: Option<u8>, byte: u8)
    ensures
        (classify_spec(last, byte) == CodeByte::Return) == (byte == 0xC3),
        byte != 0xE8 && byte != 0xC3 ==> classify_spec(last, byte) == CodeByte::Plain,
        (classify_spec(last, byte) == CodeByte::RelativeCall) == (byte == 0xE8 && last != Some(0x83u8)),
{
}

} // verus!
