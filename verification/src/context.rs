//! The breakpoint store: which code addresses carry a software
//! breakpoint, and the byte each trap displaced, together with the
//! word-patching arithmetic that installs and removes the trap byte.

use vstd::prelude::*;

use crate::trace;
use crate::trace::Registers;
use crate::trace::TraceError;

verus! {

/// The single-byte opcode whose execution suspends the traced process.
pub const TRAP_OPCODE: u8 = 0xcc;

/// A software breakpoint: a code address together with the byte that
/// occupied it before the trap opcode was (or will be) written there.
#[derive(Clone, Copy, PartialEq, Eq, Structural, Debug)]
pub struct Breakpoint {
    pub address: u64,
    /// Byte that was at `address` before the trap opcode replaced it.
    pub previous_byte: u8,
}

/// The set of breakpoints owned by one debugging session.
///
/// Invariant: at most one breakpoint per address, so `previous_byte`
/// can never be silently re-captured (which, after installation,
/// would record the trap byte itself and corrupt the program).
pub struct Context {
    breakpoints: Vec<Breakpoint>,
}

/// The store after recording `bp`: unchanged when its address is
/// already known, extended by `bp` otherwise.
pub open spec fn spec_add(s: Seq<Breakpoint>, bp: Breakpoint) -> Seq<Breakpoint> {
    if has_addr(s, bp.address) {
        s
    } else {
        s.push(bp)
    }
}

/// Whether some stored breakpoint occupies `address`.
pub open spec fn has_addr(s: Seq<Breakpoint>, address: u64) -> bool {
    exists|i: int| 0 <= i < s.len() && s[i].address == address
}

/// The stored breakpoint at `address`, if any.
pub open spec fn spec_find(s: Seq<Breakpoint>, address: u64) -> Option<Breakpoint> {
    if has_addr(s, address) {
        Some(s[choose|i: int| 0 <= i < s.len() && s[i].address == address])
    } else {
        None
    }
}

/// Addresses are pairwise distinct.
pub open spec fn distinct_addresses(s: Seq<Breakpoint>) -> bool {
    forall|i: int, j: int|
        0 <= i < s.len() && 0 <= j < s.len() && i != j ==> s[i].address != s[j].address
}

impl Context {
    /// The breakpoints as recorded, in insertion order.
    pub closed spec fn view(&self) -> Seq<Breakpoint> {
        self.breakpoints@
    }

    /// Well-formedness: no two records share an address.
    pub open spec fn wf(&self) -> bool {
        distinct_addresses(self@)
    }

    /// An empty store.
    pub fn new() -> (c: Context)
        ensures
            c@ == Seq::<Breakpoint>::empty(),
            c.wf(),
    {
        Context { breakpoints: Vec::new() }
    }

    /// Records `breakpoint` unless its address is already known; a
    /// duplicate is a no-op and in particular never re-captures
    /// `previous_byte`.
    pub fn add_breakpoint(&mut self, breakpoint: Breakpoint)
        requires
            old(self).wf(),
        ensures
            final(self)@ == spec_add(old(self)@, breakpoint),
            final(self).wf(),
    {
        let mut i: usize = 0;
        let n = self.breakpoints.len();
        while i < n
            invariant
                0 <= i <= n,
                n == self.breakpoints.len(),
                *self == *old(self),
                old(self).wf(),
                forall|k: int| 0 <= k < i ==> self.breakpoints@[k].address != breakpoint.address,
            decreases n - i,
        {
            if self.breakpoints[i].address == breakpoint.address {
                return ;
            }
            i += 1;
        }
        self.breakpoints.push(breakpoint);
    }

    /// How many breakpoints are recorded.
    pub fn breakpoint_count(&self) -> (n: usize)
        ensures
            n == self@.len(),
    {
        self.breakpoints.len()
    }

    /// The breakpoint recorded at `address`, if any.
    pub fn breakpoint_at(&self, address: u64) -> (r: Option<Breakpoint>)
        requires
            self.wf(),
        ensures
            r == spec_find(self@, address),
            r is Some <==> has_addr(self@, address),
            r matches Some(bp) ==> bp.address == address && self@.contains(bp),
    {
        let n = self.breakpoints.len();
        let mut i: usize = 0;
        while i < n
            invariant
                0 <= i <= n,
                n == self.breakpoints.len(),
                self.wf(),
                forall|k: int| 0 <= k < i ==> self.breakpoints@[k].address != address,
            decreases n - i,
        {
            let bp = self.breakpoints[i];
            if bp.address == address {
                proof {
                    lemma_find_at_index(self@, address, i as int);
                }
                return Some(bp);
            }
            i += 1;
        }
        None
    }
}

impl Context {
    /// Installs every stored breakpoint into the tracee's memory: for
    /// each one, the aligned word at its address is read, its low byte
    /// replaced by the trap opcode, and the word written back. Legal
    /// only while the tracee is stopped. A failure is surfaced at
    /// once; breakpoints already installed stay installed, and the
    /// next removal pass cleans them up. With nothing stored there is
    /// nothing to install, so an empty store always succeeds.
    pub fn apply_breakpoints(&self, pid: i32) -> (r: Result<(), TraceError>)
        ensures
            self@.len() == 0 ==> r is Ok,
    {
        let n = self.breakpoints.len();
        let mut i: usize = 0;
        while i < n
            invariant
                0 <= i <= n,
                n == self.breakpoints.len(),
            decreases n - i,
        {
            match self.breakpoints[i].insert(pid) {
                Ok(_) => {},
                Err(e) => {
                    return Err(e);
                },
            }
            i += 1;
        }
        Ok(())
    }

    /// Restores every stored breakpoint's displaced byte into the
    /// tracee's memory, undoing `apply_breakpoints` word for word.
    /// Legal only while the tracee is stopped. Writing a byte that is
    /// already in place is harmless, so removing an uninstalled
    /// breakpoint is idempotent. With nothing stored there is nothing
    /// to restore, so an empty store always succeeds.
    pub fn remove_breakpoints(&self, pid: i32) -> (r: Result<(), TraceError>)
        ensures
            self@.len() == 0 ==> r is Ok,
    {
        let n = self.breakpoints.len();
        let mut i: usize = 0;
        while i < n
            invariant
                0 <= i <= n,
                n == self.breakpoints.len(),
            decreases n - i,
        {
            match self.breakpoints[i].remove(pid) {
                Ok(_) => {},
                Err(e) => {
                    return Err(e);
                },
            }
            i += 1;
        }
        Ok(())
    }
}

impl Breakpoint {
    /// Writes the trap opcode into the low byte of the word at this
    /// breakpoint's address. On success the pair is the word that was
    /// read and the word that was written, so the contract pins what
    /// was handed to the kernel: the read word with only its low byte
    /// replaced by the trap opcode, every other byte bit-identical.
    pub(crate) fn insert(&self, pid: i32) -> (r: Result<(u64, u64), TraceError>)
        ensures
            (r matches Ok((before, written)) ==> written == spec_with_low_byte(
                before,
                TRAP_OPCODE,
            )),
    {
        let current_word = match trace::read_word(pid, self.address) {
            Ok(w) => w,
            Err(e) => {
                return Err(e);
            },
        };
        let word_to_write = with_low_byte(current_word, TRAP_OPCODE);
        match trace::write_word(pid, self.address, word_to_write) {
            Ok(()) => Ok((current_word, word_to_write)),
            Err(e) => Err(e),
        }
    }

    /// Writes `previous_byte` back into the low byte of the word at
    /// this breakpoint's address. On success the pair is the word
    /// that was read and the word that was written: the read word
    /// with only its low byte replaced by the displaced byte, every
    /// other byte bit-identical.
    pub(crate) fn remove(&self, pid: i32) -> (r: Result<(u64, u64), TraceError>)
        ensures
            (r matches Ok((before, written)) ==> written == spec_with_low_byte(
                before,
                self.previous_byte,
            )),
    {
        let current_word = match trace::read_word(pid, self.address) {
            Ok(w) => w,
            Err(e) => {
                return Err(e);
            },
        };
        let word_to_write = with_low_byte(current_word, self.previous_byte);
        match trace::write_word(pid, self.address, word_to_write) {
            Ok(()) => Ok((current_word, word_to_write)),
            Err(e) => Err(e),
        }
    }
}

/// Trap recovery. Called after a stop by a trap signal, once every
/// breakpoint has been removed from the tracee's memory so inspection
/// sees clean code. The trap opcode is one byte and the processor
/// advances the instruction pointer past it before stopping, so the
/// breakpoint that caused the stop, if any, is the one stored at
/// `instruction_pointer - 1`.
///
/// When that address holds a breakpoint: its displaced byte is written
/// back (a no-op after the caller's blanket removal), the instruction
/// pointer is rewound to the breakpoint's address so the next resume
/// re-executes the displaced instruction, the corrected snapshot is
/// written to the tracee, and the breakpoint is returned. Otherwise
/// nothing is written and no breakpoint is returned. An instruction
/// pointer of zero cannot sit one byte past any address, so it never
/// matches. Any tracing failure is surfaced, never swallowed.
pub fn restore_breakpoint_if_needed(pid: i32, context: &Context) -> (r: Result<Option<Breakpoint>, TraceError>)
    requires
        context.wf(),
    ensures
        (r matches Ok(Some(bp)) ==> context@.contains(bp) && has_addr(context@, bp.address)
            && Some(bp) == spec_find(context@, bp.address)),
{
    let regs = match trace::get_registers(pid) {
        Ok(regs) => regs,
        Err(e) => {
            return Err(e);
        },
    };
    if regs.rip == 0 {
        return Ok(None);
    }
    let previous_rip = regs.rip - 1;
    match context.breakpoint_at(previous_rip) {
        Some(breakpoint) => {
            match breakpoint.remove(pid) {
                Ok(_) => {},
                Err(e) => {
                    return Err(e);
                },
            }
            let corrected = Registers { rip: previous_rip, raw: regs.raw };
            match trace::set_registers(pid, corrected) {
                Ok(()) => {},
                Err(e) => {
                    return Err(e);
                },
            }
            Ok(Some(breakpoint))
        },
        None => Ok(None),
    }
}

/// Under distinct addresses, the record found at index `i` is the one
/// `spec_find` selects for its address.
proof fn lemma_find_at_index(s: Seq<Breakpoint>, address: u64, i: int)
    requires
        distinct_addresses(s),
        0 <= i < s.len(),
        s[i].address == address,
    ensures
        spec_find(s, address) == Some(s[i]),
{
    assert(has_addr(s, address));
    let j = choose|j: int| 0 <= j < s.len() && s[j].address == address;
    assert(s[j].address == s[i].address);
}

/// Law: trap recovery picks exactly the stored breakpoint one byte
/// behind the instruction pointer. When the store holds an address
/// one below `rip`, the lookup yields that record and no other; when
/// it holds none, the lookup yields nothing, and recovery neither
/// writes memory nor moves the instruction pointer.
pub proof fn lemma_recovery_picks_the_trapped_breakpoint(s: Seq<Breakpoint>, rip: u64)
    requires
        distinct_addresses(s),
        rip >= 1,
    ensures
        (has_addr(s, (rip - 1) as u64) ==> (spec_find(s, (rip - 1) as u64) matches Some(bp)
            && bp.address == rip - 1 && s.contains(bp))),
        (!has_addr(s, (rip - 1) as u64) ==> spec_find(s, (rip - 1) as u64) is None),
{
    let addr = (rip - 1) as u64;
    if has_addr(s, addr) {
        let i = choose|i: int| 0 <= i < s.len() && s[i].address == addr;
        assert(s.contains(s[i]));
    }
}

/// Law: recording the same address twice leaves exactly what the first
/// recording produced; the byte captured by the first call is kept and
/// never overwritten by the second.
pub proof fn lemma_add_idempotent(s: Seq<Breakpoint>, first: Breakpoint, second: Breakpoint)
    requires
        first.address == second.address,
    ensures
        spec_add(spec_add(s, first), second) == spec_add(s, first),
{
    let s1 = spec_add(s, first);
    if has_addr(s, first.address) {
        assert(s1 == s);
    } else {
        assert(s1 == s.push(first));
        assert(s1[s.len() as int].address == second.address);
        assert(has_addr(s1, second.address));
    }
}

/// `word` with its low byte replaced by `byte`; the seven high bytes
/// are untouched.
pub open spec fn spec_with_low_byte(word: u64, byte: u8) -> u64 {
    (word & !0xff) | (byte as u64)
}

/// The low byte of `word`.
pub open spec fn spec_low_byte(word: u64) -> u8 {
    (word & 0xff) as u8
}

/// Replaces the low byte of `word` by `byte`, leaving the rest of the
/// word bit-identical.
pub fn with_low_byte(word: u64, byte: u8) -> (r: u64)
    ensures
        r == spec_with_low_byte(word, byte),
        spec_low_byte(r) == byte,
        r & !0xff == word & !0xff,
{
    proof {
        assert(((word & !0xff) | (byte as u64)) & 0xff == byte as u64) by (bit_vector);
        assert(((word & !0xff) | (byte as u64)) & !0xff == word & !0xff) by (bit_vector);
    }
    (word & !0xff) | (byte as u64)
}

/// Extracts the low byte of `word`.
pub fn low_byte(word: u64) -> (b: u8)
    ensures
        b == spec_low_byte(word),
{
    proof {
        assert(word & 0xff < 256) by (bit_vector);
    }
    (word & 0xff) as u8
}

/// Law: installing a trap byte (or any byte) and then writing back the
/// word's original low byte restores the word exactly.
pub proof fn lemma_patch_round_trip(word: u64, patch: u8)
    ensures
        spec_with_low_byte(spec_with_low_byte(word, patch), spec_low_byte(word)) == word,
{
    assert((((word & !0xff) | (patch as u64)) & !0xff) | (((word & 0xff) as u8) as u64) == word)
        by (bit_vector);
}

/// Law: patching the low byte changes no other byte of the word: for
/// each of the seven higher byte positions, the byte there is the same
/// before and after.
pub proof fn lemma_patch_preserves_high_bytes(word: u64, byte: u8, k: u64)
    requires
        1 <= k < 8,
    ensures
        (spec_with_low_byte(word, byte) >> (8 * k)) & 0xff == (word >> (8 * k)) & 0xff,
{
    assert(1 <= k < 8 ==> (((word & !0xff) | (byte as u64)) >> (8 * k)) & 0xff == (word >> (8 * k))
        & 0xff) by (bit_vector);
}

} // verus!
