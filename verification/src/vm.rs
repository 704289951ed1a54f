//! The machine itself: a register bank and a memory, owned as one
//! aggregate and handed by exclusive borrow to each instruction handler.

use vstd::prelude::*;

use crate::bits::{lemma_wrap_off_step, safe_u16_add, wrap_add, wrap_off};
use crate::instruction::{execute_instruction, step_post};
use crate::memory::{read_rel, Memory, MEMORY_SIZE};
use crate::registers::Register;
use crate::trap::Signal;

verus! {

pub struct Vm {
    pub register: Register,
    pub memory: Memory,
}

/// Two machine states with the same registers and the same memory
/// contents.
pub open spec fn state_eq(a: Vm, b: Vm) -> bool {
    b.register == a.register && b.memory@ == a.memory@
}

/// How many fetch-decode-execute steps the driver performs before giving
/// the run up as endless. The budget outlasts any real program.
pub const STEP_BUDGET: u64 = 0xFFFF_FFFF_FFFF_FFFF;

/// One turn of the execution loop: the instruction word is fetched from
/// the program counter's address through the memory-mapped read path, the
/// program counter advances by one with wraparound, and the instruction
/// executes against that intermediate state, giving signal `s`.
pub open spec fn machine_step(pre: Vm, post: Vm, s: Signal) -> bool {
    exists|instr: u16, m1: Seq<u16>, mid: Vm|
        #![trigger read_rel(pre.memory@, pre.register.pc, instr, m1), step_post(mid, post, instr, s)]
        read_rel(pre.memory@, pre.register.pc, instr, m1) && mid.memory@ == m1
            && mid.register.regs() == pre.register.regs() && mid.register.cond
            == pre.register.cond && mid.register.pc == wrap_add(pre.register.pc, 1) && step_post(
            mid,
            post,
            instr,
            s,
        )
}

/// `n` machine steps in a row, every one answering `Continue`.
pub open spec fn steps(pre: Vm, post: Vm, n: nat) -> bool
    decreases n,
{
    if n == 0 {
        post == pre
    } else {
        exists|mid: Vm|
            #[trigger] machine_step(pre, mid, Signal::Continue) && steps(
                mid,
                post,
                (n - 1) as nat,
            )
    }
}

/// A run of `n` machine steps: the first `n - 1` answer `Continue` and the
/// last answers `r`.
pub open spec fn runs(pre: Vm, post: Vm, r: Signal, n: nat) -> bool
    decreases n,
{
    if n == 0 {
        false
    } else if n == 1 {
        machine_step(pre, post, r)
    } else {
        exists|mid: Vm|
            #[trigger] machine_step(pre, mid, Signal::Continue) && runs(
                mid,
                post,
                r,
                (n - 1) as nat,
            )
    }
}

/// A chain of `Continue` steps grows at its end.
proof fn lemma_steps_snoc(pre: Vm, mid: Vm, post: Vm, k: nat)
    requires
        steps(pre, mid, k),
        machine_step(mid, post, Signal::Continue),
    ensures
        steps(pre, post, k + 1),
    decreases k,
{
    if k == 0 {
        assert(machine_step(pre, post, Signal::Continue));
        assert(steps(post, post, 0));
    } else {
        let m = choose|m: Vm|
            #[trigger] machine_step(pre, m, Signal::Continue) && steps(m, mid, (k - 1) as nat);
        lemma_steps_snoc(m, mid, post, (k - 1) as nat);
    }
}

/// A chain of `Continue` steps closed off by one stopping step is a run.
proof fn lemma_steps_stop(pre: Vm, mid: Vm, post: Vm, r: Signal, k: nat)
    requires
        steps(pre, mid, k),
        machine_step(mid, post, r),
    ensures
        runs(pre, post, r, k + 1),
    decreases k,
{
    if k == 0 {
        assert(machine_step(pre, post, r));
    } else {
        let m = choose|m: Vm|
            #[trigger] machine_step(pre, m, Signal::Continue) && steps(m, mid, (k - 1) as nat);
        lemma_steps_stop(m, mid, post, r, (k - 1) as nat);
    }
}

/// A nonempty chain of `Continue` steps is a run whose last answer was
/// `Continue`.
proof fn lemma_steps_all_continue(pre: Vm, post: Vm, n: nat)
    requires
        steps(pre, post, n),
        n >= 1,
    ensures
        runs(pre, post, Signal::Continue, n),
    decreases n,
{
    let m = choose|m: Vm|
        #[trigger] machine_step(pre, m, Signal::Continue) && steps(m, post, (n - 1) as nat);
    if n == 1 {
        assert(post == m);
        assert(machine_step(pre, post, Signal::Continue));
    } else {
        lemma_steps_all_continue(m, post, (n - 1) as nat);
    }
}

impl Vm {
    pub open spec fn wf(&self) -> bool {
        self.memory.wf()
    }

    /// A machine at start: every register and every memory word zero.
    pub fn new() -> (r: Vm)
        ensures
            r.wf(),
            r.register == (Register {
                r0: 0,
                r1: 0,
                r2: 0,
                r3: 0,
                r4: 0,
                r5: 0,
                r6: 0,
                r7: 0,
                pc: 0,
                cond: 0,
            }),
            forall|a: int| 0 <= a < MEMORY_SIZE ==> r.memory@[a] == 0,
    {
        Vm { register: Register::new(), memory: Memory::new() }
    }

    /// Loads a program image: the image's first big-endian word names the
    /// origin address, and every following big-endian word is copied
    /// verbatim into consecutive addresses from there, wrapping past the
    /// top of memory. An odd trailing byte is silently dropped.
    pub fn load_image(&mut self, image: &Vec<u8>)
        requires
            old(self).wf(),
            image@.len() >= 2,
        ensures
            final(self).wf(),
            final(self).register == old(self).register,
            final(self).memory@ == load_spec(old(self).memory@, image@),
    {
        let origin = ((image[0] as u16) << 8) | (image[1] as u16);
        let n = (image.len() - 2) / 2;
        let mut addr = origin;
        let mut k: usize = 0;
        while k < n
            invariant
                self.wf(),
                self.register == old(self).register,
                image@.len() >= 2,
                n == words_in(image@),
                origin == origin_of(image@),
                k <= n,
                store_rest(old(self).memory@, origin, image@, 0) == store_rest(
                    self.memory@,
                    addr,
                    image@,
                    k as int,
                ),
            decreases n - k,
        {
            let total = image.len();
            proof {
                assert(2 * ((total as int - 2) / 2) <= total as int - 2) by (nonlinear_arith);
                assert(2 * k + 3 < total);
            }
            let hi = image[2 + 2 * k];
            let lo = image[2 + 2 * k + 1];
            let w = ((hi as u16) << 8) | (lo as u16);
            self.memory.write(addr, w);
            addr = safe_u16_add(addr, 1);
            k = k + 1;
        }
    }

    /// Runs the machine: fetch the word at the program counter, advance
    /// the counter with wraparound, decode and dispatch — until an
    /// executed instruction asks to stop, and that stop comes back as the
    /// result. The whole run is a chain of machine steps; only the last
    /// one answers something other than `Continue`. The step budget is
    /// practically inexhaustible; a caller that sees `Continue` after it
    /// runs out may simply call again.
    pub fn launch(&mut self) -> (r: Signal)
        requires
            old(self).wf(),
        ensures
            final(self).wf(),
            exists|n: nat|
                #[trigger] runs(*old(self), *final(self), r, n) && (r == Signal::Continue ==> n
                    == STEP_BUDGET as nat),
    {
        let mut fuel: u64 = STEP_BUDGET;
        while fuel > 0
            invariant
                self.wf(),
                fuel <= STEP_BUDGET,
                steps(*old(self), *self, (STEP_BUDGET - fuel) as nat),
            decreases fuel,
        {
            let ghost pre_iter = *self;
            let instr = self.memory.read(self.register.pc);
            let ghost m1 = self.memory@;
            self.register.pc = safe_u16_add(self.register.pc, 1);
            let ghost mid = *self;
            let signal = execute_instruction(instr, self);
            proof {
                assert(read_rel(pre_iter.memory@, pre_iter.register.pc, instr, m1));
                assert(mid.register.regs() =~= pre_iter.register.regs());
                assert(step_post(mid, *self, instr, signal));
                assert(machine_step(pre_iter, *self, signal));
            }
            if signal != Signal::Continue {
                proof {
                    lemma_steps_stop(
                        *old(self),
                        pre_iter,
                        *self,
                        signal,
                        (STEP_BUDGET - fuel) as nat,
                    );
                }
                return signal;
            }
            proof {
                lemma_steps_snoc(*old(self), pre_iter, *self, (STEP_BUDGET - fuel) as nat);
            }
            fuel = fuel - 1;
        }
        proof {
            lemma_steps_all_continue(*old(self), *self, STEP_BUDGET as nat);
        }
        Signal::Continue
    }
}

// ---------------------------------------------------------------------
// The image layout, as mathematics.
// ---------------------------------------------------------------------
/// Number of 16-bit words in the image body, after the origin word; an
/// odd trailing byte does not count.
pub open spec fn words_in(bytes: Seq<u8>) -> int {
    (bytes.len() - 2) / 2
}

/// The big-endian word at pair `k` of the image body.
pub open spec fn word_at(bytes: Seq<u8>, k: int) -> u16
    recommends
        0 <= k < words_in(bytes),
{
    ((bytes[2 + 2 * k] as u16) << 8) | (bytes[2 + 2 * k + 1] as u16)
}

/// The origin address held in the image's first big-endian word.
pub open spec fn origin_of(bytes: Seq<u8>) -> u16
    recommends
        bytes.len() >= 2,
{
    ((bytes[0] as u16) << 8) | (bytes[1] as u16)
}

/// Memory once the image words from pair `k` onward are stored one per
/// address, starting at `a` and wrapping past the top of the address
/// space. A later word wins over an earlier one at the same address.
pub open spec fn store_rest(m: Seq<u16>, a: u16, bytes: Seq<u8>, k: int) -> Seq<u16>
    decreases words_in(bytes) - k,
{
    if k < 0 || k >= words_in(bytes) {
        m
    } else {
        store_rest(m.update(a as int, word_at(bytes, k)), wrap_add(a, 1), bytes, k + 1)
    }
}

/// Memory once an image is loaded: each word of the body stored at
/// consecutive addresses from the origin named in the image's first word.
pub open spec fn load_spec(m: Seq<u16>, bytes: Seq<u8>) -> Seq<u16> {
    store_rest(m, origin_of(bytes), bytes, 0)
}

/// Storing never changes the memory's size.
pub proof fn lemma_store_rest_len(m: Seq<u16>, a: u16, bytes: Seq<u8>, k: int)
    requires
        m.len() == MEMORY_SIZE,
    ensures
        store_rest(m, a, bytes, k).len() == m.len(),
    decreases words_in(bytes) - k,
{
    if 0 <= k < words_in(bytes) {
        lemma_store_rest_len(m.update(a as int, word_at(bytes, k)), wrap_add(a, 1), bytes, k + 1);
    }
}

/// An address that no remaining image word lands on keeps its value.
pub proof fn lemma_store_rest_frame(m: Seq<u16>, a: u16, bytes: Seq<u8>, k: int, x: int)
    requires
        m.len() == MEMORY_SIZE,
        0 <= k,
        0 <= x < MEMORY_SIZE,
        forall|d: int| 0 <= d < words_in(bytes) - k ==> #[trigger] wrap_off(a, d) != x,
    ensures
        store_rest(m, a, bytes, k)[x] == m[x],
    decreases words_in(bytes) - k,
{
    if k < words_in(bytes) {
        assert(wrap_off(a, 0) == a);
        let m1 = m.update(a as int, word_at(bytes, k));
        assert forall|d: int| 0 <= d < words_in(bytes) - (k + 1) implies #[trigger] wrap_off(
            wrap_add(a, 1),
            d,
        ) != x by {
            lemma_wrap_off_step(a, d + 1);
            assert(wrap_off(a, d + 1) != x);
        }
        lemma_store_rest_frame(m1, wrap_add(a, 1), bytes, k + 1, x);
    }
}

/// Two memories that can differ only at addresses the remaining image
/// words land on end up equal once those words are stored.
pub proof fn lemma_store_rest_agree(m1: Seq<u16>, m2: Seq<u16>, a: u16, bytes: Seq<u8>, k: int)
    requires
        m1.len() == MEMORY_SIZE,
        m2.len() == MEMORY_SIZE,
        0 <= k,
        forall|x: int|
            #![trigger m1[x], m2[x]]
            0 <= x < MEMORY_SIZE && m1[x] != m2[x] ==> (exists|d: int|
                0 <= d < words_in(bytes) - k && #[trigger] wrap_off(a, d) == x),
    ensures
        store_rest(m1, a, bytes, k) == store_rest(m2, a, bytes, k),
    decreases words_in(bytes) - k,
{
    if k < words_in(bytes) {
        assert(wrap_off(a, 0) == a);
        let w = word_at(bytes, k);
        let m1u = m1.update(a as int, w);
        let m2u = m2.update(a as int, w);
        assert forall|x: int|
            #![trigger m1u[x], m2u[x]]
            0 <= x < MEMORY_SIZE && m1u[x] != m2u[x] implies (exists|d: int|
            0 <= d < words_in(bytes) - (k + 1) && #[trigger] wrap_off(wrap_add(a, 1), d)
                == x) by {
            assert(x != a);
            assert(m1[x] != m2[x]);
            let d0 = choose|d: int|
                0 <= d < words_in(bytes) - k && #[trigger] wrap_off(a, d) == x;
            assert(d0 != 0);
            lemma_wrap_off_step(a, d0);
            assert(wrap_off(wrap_add(a, 1), d0 - 1) == x);
        }
        lemma_store_rest_agree(m1u, m2u, wrap_add(a, 1), bytes, k + 1);
    } else {
        assert forall|x: int| 0 <= x < MEMORY_SIZE implies m1[x] == m2[x] by {
            if m1[x] != m2[x] {
                let d0 = choose|d: int|
                    0 <= d < words_in(bytes) - k && #[trigger] wrap_off(a, d) == x;
                assert(false);
            }
        }
        assert(m1 =~= m2);
    }
}

/// Loading an image is idempotent: loading the same bytes a second time
/// leaves every memory word as the first load put it — the load
/// overwrites deterministically and leaves no residue at addresses
/// outside the image.
pub proof fn lemma_load_image_idempotent(m: Seq<u16>, bytes: Seq<u8>)
    requires
        m.len() == MEMORY_SIZE,
        bytes.len() >= 2,
    ensures
        load_spec(load_spec(m, bytes), bytes) == load_spec(m, bytes),
{
    let o = origin_of(bytes);
    let m2 = load_spec(m, bytes);
    lemma_store_rest_len(m, o, bytes, 0);
    assert forall|x: int|
        #![trigger m2[x], m[x]]
        0 <= x < MEMORY_SIZE && m2[x] != m[x] implies (exists|d: int|
        0 <= d < words_in(bytes) && #[trigger] wrap_off(o, d) == x) by {
        if !(exists|d: int| 0 <= d < words_in(bytes) && #[trigger] wrap_off(o, d) == x) {
            assert(forall|d: int| 0 <= d < words_in(bytes) ==> #[trigger] wrap_off(o, d) != x);
            lemma_store_rest_frame(m, o, bytes, 0, x);
        }
    }
    lemma_store_rest_agree(m2, m, o, bytes, 0);
}

} // verus!
