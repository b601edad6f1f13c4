//! Running a Lua script in the client: the script's rewriting and the
//! detour that calls the client's script entry point from `EndScene`.

use vstd::prelude::*;
use crate::process::Process;
use crate::stubs::{script_detour, script_detour_spec};
use crate::text::{
    chars_vec, contains_seq, disjoint_chars, lemma_replace_leaves_none, replace_chars, replace_seq,
    string_from_chars,
};

verus! {

/// Address of the client's `FrameScript_Execute`.
pub const FRAME_SCRIPT_EXECUTE: usize = 0x819210;

/// Number of bytes of `EndScene` displaced by the detour jump.
pub const HOOK_SIZE: usize = 7;

/// The script as it is run: every `PQR` becomes `dx9`.
pub open spec fn prepared_script(script: Seq<char>) -> Seq<char> {
    replace_seq(script, seq!['P', 'Q', 'R'], seq!['d', 'x', '9'])
}

/// A prepared script holds no `PQR`.
pub proof fn law_prepared_script_has_no_marker(script: Seq<char>)
    ensures
        !contains_seq(prepared_script(script), seq!['P', 'Q', 'R']),
{
    let pat = seq!['P', 'Q', 'R'];
    let rep = seq!['d', 'x', '9'];
    assert(disjoint_chars(pat, rep)) by {
        assert forall|i: int, j: int| 0 <= i < 3 && 0 <= j < 3 implies pat[i] != rep[j] by {
            if i == 0 {} else if i == 1 {} else {}
            if j == 0 {} else if j == 1 {} else {}
        }
    }
    lemma_replace_leaves_none(script, pat, rep);
}

/// The client process with the addresses used to run scripts in it.
#[derive(Debug, Clone)]
pub struct WowCheats {
    wow_process: Process,
    frame_script_execute: usize,
    end_scene_ptr: usize,
}

impl WowCheats {
    pub closed spec fn process(&self) -> Process {
        self.wow_process
    }

    pub closed spec fn script_entry(&self) -> usize {
        self.frame_script_execute
    }

    pub closed spec fn end_scene(&self) -> usize {
        self.end_scene_ptr
    }

    /// Script running in `wow_process`, hooking `EndScene` at `end_scene_ptr`.
    pub fn new(wow_process: Process, end_scene_ptr: usize) -> (r: Self)
        ensures
            r.process() == wow_process,
            r.script_entry() == FRAME_SCRIPT_EXECUTE,
            r.end_scene() == end_scene_ptr,
    {
        WowCheats { wow_process, frame_script_execute: FRAME_SCRIPT_EXECUTE, end_scene_ptr }
    }

    /// The client process.
    pub fn wow_process(&self) -> (r: &Process)
        ensures
            *r == self.process(),
    {
        &self.wow_process
    }

    /// The address of `EndScene`.
    pub fn end_scene_ptr(&self) -> (r: usize)
        ensures
            r == self.end_scene(),
    {
        self.end_scene_ptr
    }

    /// Rewrites a script for this client: every `PQR` becomes `dx9`.
    pub fn prepare_script(old_script_to_run: &str) -> (r: String)
        ensures
            r@ == prepared_script(old_script_to_run@),
    {
        let s = chars_vec(old_script_to_run);
        let mut pat: Vec<char> = Vec::new();
        pat.push('P');
        pat.push('Q');
        pat.push('R');
        let mut rep: Vec<char> = Vec::new();
        rep.push('d');
        rep.push('x');
        rep.push('9');
        assert(pat@ =~= seq!['P', 'Q', 'R']);
        assert(rep@ =~= seq!['d', 'x', '9']);
        let out = replace_chars(&s, &pat, &rep);
        string_from_chars(out.as_slice())
    }

    /// The detour run in place of `EndScene`: it calls the script entry
    /// point on the script stored at `string_alloc`, replays the `old_bytes`
    /// displaced from `EndScene`, sets the flag at `did_func_run_alloc` and
    /// jumps back to `EndScene` past the displaced bytes.
    pub fn script_detour(&self, string_alloc: usize, did_func_run_alloc: usize, old_bytes: &Vec<u8>) -> (r: Vec<u8>)
        requires
            self.end_scene() + HOOK_SIZE <= usize::MAX,
        ensures
            r@ == script_detour_spec(
                string_alloc as u32,
                self.script_entry() as u32,
                old_bytes@,
                (self.end_scene() + HOOK_SIZE) as u32,
                did_func_run_alloc as u32,
            ),
    {
        script_detour(
            string_alloc as u32,
            self.frame_script_execute as u32,
            old_bytes,
            (self.end_scene_ptr + HOOK_SIZE) as u32,
            did_func_run_alloc as u32,
        )
    }
}

} // verus!
