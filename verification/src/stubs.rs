//! The x86 (32-bit) machine-code sequences that the library writes into the
//! client process: jump stubs, absolute calls, and the script-execution stub
//! placed in front of a hooked function.

use vstd::prelude::*;

verus! {

/// The four bytes of `v`, least significant first.
pub open spec fn le32(v: u32) -> Seq<u8> {
    seq![(v & 0xff) as u8, ((v >> 8) & 0xff) as u8, ((v >> 16) & 0xff) as u8, ((v >> 24) & 0xff) as u8]
}

/// The 32-bit value whose little-endian bytes are `b0`, `b1`, `b2`, `b3`.
pub open spec fn read_le32(b0: u8, b1: u8, b2: u8, b3: u8) -> u32 {
    (b0 as u32) | ((b1 as u32) << 8u32) | ((b2 as u32) << 16u32) | ((b3 as u32) << 24u32)
}

/// Reading back the four bytes written for `v` gives `v`.
pub proof fn law_le32_round_trip(v: u32)
    ensures
        read_le32(le32(v)[0], le32(v)[1], le32(v)[2], le32(v)[3]) == v,
{
    let b0 = (v & 0xff) as u8;
    let b1 = ((v >> 8) & 0xff) as u8;
    let b2 = ((v >> 16) & 0xff) as u8;
    let b3 = ((v >> 24) & 0xff) as u8;
    assert((b0 as u32) | ((b1 as u32) << 8u32) | ((b2 as u32) << 16u32) | ((b3 as u32) << 24u32) == v) by (bit_vector)
        requires
            b0 == (v & 0xff) as u8,
            b1 == ((v >> 8) & 0xff) as u8,
            b2 == ((v >> 16) & 0xff) as u8,
            b3 == ((v >> 24) & 0xff) as u8,
    ;
}

/// Appends the four little-endian bytes of `v` to `out`.
fn push_le32(out: &mut Vec<u8>, v: u32)
    ensures
        final(out)@ == old(out)@ + le32(v),
{
    out.push((v & 0xff) as u8);
    out.push(((v >> 8) & 0xff) as u8);
    out.push(((v >> 16) & 0xff) as u8);
    out.push(((v >> 24) & 0xff) as u8);
    assert(out@ =~= old(out)@ + le32(v));
}

/// Appends `bytes` to `out`.
fn push_all(out: &mut Vec<u8>, bytes: &Vec<u8>)
    ensures
        final(out)@ == old(out)@ + bytes@,
{
    let mut i: usize = 0;
    while i < bytes.len()
        invariant
            i <= bytes.len(),
            out@ == old(out)@ + bytes@.take(i as int),
        decreases bytes.len() - i,
    {
        out.push(bytes[i]);
        assert(bytes@.take(i + 1) =~= bytes@.take(i as int).push(bytes@[i as int]));
        i = i + 1;
    }
    assert(bytes@.take(bytes.len() as int) =~= bytes@);
}

/// `mov eax, target; jmp eax`.
pub open spec fn jump_stub_spec(target: u32) -> Seq<u8> {
    seq![0xB8u8] + le32(target) + seq![0xFFu8, 0xE0u8]
}

/// Writes `mov eax, target; jmp eax`, the detour placed over a hooked function.
pub fn jump_stub(target: u32) -> (r: Vec<u8>)
    ensures
        r@ == jump_stub_spec(target),
{
    let mut r: Vec<u8> = Vec::new();
    r.push(0xB8);
    push_le32(&mut r, target);
    r.push(0xFF);
    r.push(0xE0);
    assert(r@ =~= jump_stub_spec(target));
    r
}

/// The jump stub loads exactly its target into `eax` and jumps there:
/// opcode `B8`, the target's four bytes, then `FF E0`.
pub proof fn law_jump_stub_target(target: u32)
    ensures
        jump_stub_spec(target).len() == 7,
        jump_stub_spec(target)[0] == 0xB8u8,
        read_le32(jump_stub_spec(target)[1], jump_stub_spec(target)[2], jump_stub_spec(target)[3], jump_stub_spec(target)[4]) == target,
        jump_stub_spec(target)[5] == 0xFFu8,
        jump_stub_spec(target)[6] == 0xE0u8,
{
    law_le32_round_trip(target);
}

/// `mov edx, target; call edx`.
pub open spec fn absolute_call_spec(target: u32) -> Seq<u8> {
    seq![0xBAu8] + le32(target) + seq![0xFFu8, 0xD2u8]
}

/// Writes `mov edx, target; call edx`, the position-independent form of a
/// relative call to `target`.
pub fn absolute_call(target: u32) -> (r: Vec<u8>)
    ensures
        r@ == absolute_call_spec(target),
{
    let mut r: Vec<u8> = Vec::new();
    r.push(0xBA);
    push_le32(&mut r, target);
    r.push(0xFF);
    r.push(0xD2);
    assert(r@ =~= absolute_call_spec(target));
    r
}

/// `n` one-byte `nop` instructions.
pub open spec fn nop_bytes(n: nat) -> Seq<u8> {
    Seq::new(n, |_i: int| 0x90u8)
}

/// The bytes written over the `size_to_rep` bytes of a function before its
/// detour: one `nop` for each of them.
pub fn nop_patch(size_to_rep: usize) -> (r: Vec<u8>)
    ensures
        r@ == nop_bytes(size_to_rep as nat),
{
    let mut r: Vec<u8> = Vec::new();
    let mut k: usize = 0;
    while k < size_to_rep
        invariant
            k <= size_to_rep,
            r@ == nop_bytes(k as nat),
        decreases size_to_rep - k,
    {
        r.push(0x90);
        k = k + 1;
        assert(r@ =~= nop_bytes(k as nat));
    }
    r
}

/// `mov eax, script; push 0; push eax; push eax; mov eax, function; call eax; add esp, 0xC`:
/// calls `function(script, script, 0)` with the caller cleaning the stack.
pub open spec fn script_call_spec(script: u32, function: u32) -> Seq<u8> {
    seq![0xB8u8] + le32(script) + seq![0x6Au8, 0x00u8, 0x50u8, 0x50u8, 0xB8u8] + le32(function) + seq![
        0xFFu8,
        0xD0u8,
        0x83u8,
        0xC4u8,
        0x0Cu8,
    ]
}

/// `mov eax, resume; mov dword [flag], 1; jmp eax`: raises a completion flag
/// and jumps back into the hooked function.
pub open spec fn resume_spec(resume: u32, flag: u32) -> Seq<u8> {
    seq![0xB8u8] + le32(resume) + seq![0xC7u8, 0x05u8] + le32(flag) + seq![
        0x01u8,
        0x00u8,
        0x00u8,
        0x00u8,
        0xFFu8,
        0xE0u8,
    ]
}

/// The full detour for running a script once: the script call, the bytes
/// displaced from the hooked function, then the flag-and-resume stub.
pub open spec fn script_detour_spec(script: u32, function: u32, displaced: Seq<u8>, resume: u32, flag: u32) -> Seq<u8> {
    script_call_spec(script, function) + displaced + resume_spec(resume, flag)
}

/// Writes the full detour that runs `function(script, script, 0)`, replays
/// the `displaced` bytes, raises the flag at `flag` and resumes at `resume`.
pub fn script_detour(script: u32, function: u32, displaced: &Vec<u8>, resume: u32, flag: u32) -> (r: Vec<u8>)
    ensures
        r@ == script_detour_spec(script, function, displaced@, resume, flag),
{
    let mut r: Vec<u8> = Vec::new();
    r.push(0xB8);
    push_le32(&mut r, script);
    r.push(0x6A);
    r.push(0x00);
    r.push(0x50);
    r.push(0x50);
    r.push(0xB8);
    push_le32(&mut r, function);
    r.push(0xFF);
    r.push(0xD0);
    r.push(0x83);
    r.push(0xC4);
    r.push(0x0C);
    assert(r@ =~= script_call_spec(script, function));
    push_all(&mut r, displaced);
    let ghost mid = r@;
    r.push(0xB8);
    push_le32(&mut r, resume);
    r.push(0xC7);
    r.push(0x05);
    push_le32(&mut r, flag);
    r.push(0x01);
    r.push(0x00);
    r.push(0x00);
    r.push(0x00);
    r.push(0xFF);
    r.push(0xE0);
    assert(r@ =~= mid + resume_spec(resume, flag));
    r
}

} // verus!
