//! The virtual machine: a fetch-decode-execute interpreter over the program
//! image.
//!
//! One step of the machine is specified by `spec_step`, a total function on
//! the machine state: every instruction's effect on registers, program
//! counter, heap, read-only data, remainder register, equality flag and
//! output is written down there, and the executable interpreter is proved
//! to take exactly that step. Reading an operand byte past the end of the
//! program yields zero, and the program counter never moves beyond the end
//! of the program; a jump whose destination would fall outside the program
//! parks the counter at the end, which the run loop treats as a normal
//! out-of-range stop.
use vstd::prelude::*;

use crate::assembler::{spec_pie_prefix, PIE_HEADER_LENGTH};
use crate::instruction::{spec_byte_opcode, Opcode};

verus! {

/// What kind of lifecycle event a machine logs.
#[derive(Debug, Clone, Copy, PartialEq, Eq, Structural)]
pub enum VMEventType {
    /// The machine began a run.
    Start,
    /// The run ended normally, with a code: 0 for a halt instruction, 1 for
    /// the program counter reaching the end of the program.
    GracefulStop { code: u32 },
    /// The run ended on a fault: a bad header, an unknown opcode, or an
    /// unrecoverable arithmetic fault.
    Crash,
    /// The run was cut off by the interpreter's step budget.
    Stop,
}

/// One timestamped lifecycle event.
#[derive(Debug, Clone, Copy, PartialEq, Eq, Structural)]
pub struct VMEvent {
    pub event: VMEventType,
    /// Microseconds since the Unix epoch, from the clock at the moment the
    /// event was logged.
    pub at: i64,
}

impl VMEvent {
    /// An event of the given kind, stamped with the clock's current time.
    pub fn new(event_type: VMEventType) -> (r: VMEvent)
        ensures
            r.event == event_type,
    {
        VMEvent { event: event_type, at: crate::external::now_micros() }
    }
}

/// The faults that end a run abnormally.
#[derive(Debug, Clone, Copy, PartialEq, Eq, Structural)]
pub enum VmFault {
    /// The opcode byte is not assigned to any operation.
    UnknownOpcode,
    /// A division instruction met a zero divisor.
    DivisionByZero,
    /// A register operand byte names no register.
    IllegalRegister,
    /// An allocation instruction met a negative size.
    IllegalAllocation,
}

/// What one step of the machine did.
#[derive(Debug, Clone, Copy, PartialEq, Eq, Structural)]
pub enum StepStatus {
    /// The instruction executed; the machine keeps running.
    Continue,
    /// A halt instruction executed: normal termination.
    Halted,
    /// The program counter stands at the end of the program: normal
    /// termination.
    OffEnd,
    /// A fault: abnormal termination.
    Crashed { fault: VmFault },
}

/// The machine's state, over mathematical types.
pub ghost struct VmState {
    pub registers: Seq<i32>,
    pub pc: int,
    pub program: Seq<u8>,
    pub heap: Seq<u8>,
    pub ro: Seq<u8>,
    pub remainder: u32,
    pub equal_flag: bool,
    pub output: Seq<u8>,
}

/// The byte at a program position, zero when the position lies past the
/// end.
pub open spec fn spec_rd8(s: VmState, p: int) -> u8 {
    if 0 <= p < s.program.len() {
        s.program[p]
    } else {
        0
    }
}

/// The program counter moved forward by `k`, parked at the end of the
/// program if that is nearer.
pub open spec fn spec_adv(s: VmState, k: int) -> int {
    if s.pc + k <= s.program.len() {
        s.pc + k
    } else {
        s.program.len() as int
    }
}

/// A jump destination clamped to the program: a destination outside
/// `[0, len]` parks the counter at the end.
pub open spec fn spec_clamp_dest(s: VmState, d: int) -> int {
    if 0 <= d <= s.program.len() {
        d
    } else {
        s.program.len() as int
    }
}

/// The magnitude of an integer.
pub open spec fn spec_mag(a: int) -> int {
    if a >= 0 {
        a
    } else {
        -a
    }
}

/// Division truncated toward zero, as machine division rounds.
pub open spec fn spec_trunc_div(a: int, b: int) -> int {
    let m = spec_mag(a) / spec_mag(b);
    if (a < 0) != (b < 0) {
        -m
    } else {
        m
    }
}

/// The remainder of truncated division: it carries the dividend's sign.
pub open spec fn spec_trunc_rem(a: int, b: int) -> int {
    let m = spec_mag(a) % spec_mag(b);
    if a < 0 {
        -m
    } else {
        m
    }
}

/// What the division instruction writes to its destination register: the
/// truncated quotient, with the one overflowing case (the smallest value
/// divided by minus one) wrapping to the smallest value.
pub open spec fn spec_div_result(a: i32, b: i32) -> i32 {
    if a == i32::MIN && b == -1 {
        i32::MIN
    } else {
        spec_trunc_div(a as int, b as int) as i32
    }
}

/// What the division instruction leaves in the remainder register: the
/// truncated remainder, read as a 32-bit two's-complement value.
pub open spec fn spec_rem_result(a: i32, b: i32) -> u32 {
    if a == i32::MIN && b == -1 {
        0
    } else {
        let r = spec_trunc_rem(a as int, b as int);
        if r >= 0 {
            r as u32
        } else {
            (r + 0x1_0000_0000) as u32
        }
    }
}

/// The read-only bytes from a position up to, and not including, the first
/// zero byte (or the end of the segment).
pub open spec fn spec_ro_string(ro: Seq<u8>, i: int) -> Seq<u8>
    decreases ro.len() - i,
{
    if i < 0 || i >= ro.len() {
        Seq::empty()
    } else if ro[i] == 0 {
        Seq::empty()
    } else {
        seq![ro[i]] + spec_ro_string(ro, i + 1)
    }
}

/// One step of the machine: fetch the opcode byte at the program counter,
/// decode it, and apply its effect. A counter at or past the end of the
/// program is a normal out-of-range stop. Register operand bytes must name
/// one of the 32 registers; an unknown opcode, a zero divisor, an operand
/// byte naming no register, and a negative allocation size are faults.
pub open spec fn spec_step(s: VmState) -> (VmState, StepStatus) {
    if s.pc >= s.program.len() {
        (s, StepStatus::OffEnd)
    } else {
        let op = spec_byte_opcode(s.program[s.pc]);
        let b1 = spec_rd8(s, s.pc + 1);
        let b2 = spec_rd8(s, s.pc + 2);
        let b3 = spec_rd8(s, s.pc + 3);
        let pc2 = spec_adv(s, 2);
        let pc3 = spec_adv(s, 3);
        let pc4 = spec_adv(s, 4);
        match op {
            Opcode::LOAD => {
                if b1 >= 32 {
                    (
                        VmState { pc: pc4, ..s },
                        StepStatus::Crashed { fault: VmFault::IllegalRegister },
                    )
                } else {
                    (
                        VmState {
                            registers: s.registers.update(b1 as int, (b2 * 256 + b3) as i32),
                            pc: pc4,
                            ..s
                        },
                        StepStatus::Continue,
                    )
                }
            },
            Opcode::ADD => spec_step_arith(s, b1, b2, b3, pc4, Opcode::ADD),
            Opcode::SUB => spec_step_arith(s, b1, b2, b3, pc4, Opcode::SUB),
            Opcode::MUL => spec_step_arith(s, b1, b2, b3, pc4, Opcode::MUL),
            Opcode::DIV => {
                if b1 >= 32 || b2 >= 32 || b3 >= 32 {
                    (
                        VmState { pc: pc4, ..s },
                        StepStatus::Crashed { fault: VmFault::IllegalRegister },
                    )
                } else {
                    let v1 = s.registers[b1 as int];
                    let v2 = s.registers[b2 as int];
                    if v2 == 0 {
                        (
                            VmState { pc: pc4, ..s },
                            StepStatus::Crashed { fault: VmFault::DivisionByZero },
                        )
                    } else {
                        (
                            VmState {
                                registers: s.registers.update(b3 as int, spec_div_result(v1, v2)),
                                remainder: spec_rem_result(v1, v2),
                                pc: pc4,
                                ..s
                            },
                            StepStatus::Continue,
                        )
                    }
                }
            },
            Opcode::INC => spec_step_unary(s, b1, pc4, true),
            Opcode::DEC => spec_step_unary(s, b1, pc4, false),
            Opcode::EQ => spec_step_cmp(s, b1, b2, pc4, Opcode::EQ),
            Opcode::NEQ => spec_step_cmp(s, b1, b2, pc4, Opcode::NEQ),
            Opcode::GT => spec_step_cmp(s, b1, b2, pc4, Opcode::GT),
            Opcode::LT => spec_step_cmp(s, b1, b2, pc4, Opcode::LT),
            Opcode::GTE => spec_step_cmp(s, b1, b2, pc4, Opcode::GTE),
            Opcode::LTE => spec_step_cmp(s, b1, b2, pc4, Opcode::LTE),
            Opcode::JEQ => spec_step_cond_jump(s, b1, pc2, true),
            Opcode::JNEQ => spec_step_cond_jump(s, b1, pc2, false),
            Opcode::JMP => {
                if b1 >= 32 {
                    (
                        VmState { pc: pc2, ..s },
                        StepStatus::Crashed { fault: VmFault::IllegalRegister },
                    )
                } else {
                    (
                        VmState { pc: spec_clamp_dest(s, s.registers[b1 as int] as int), ..s },
                        StepStatus::Continue,
                    )
                }
            },
            Opcode::JMPF => {
                if b1 >= 32 {
                    (
                        VmState { pc: pc2, ..s },
                        StepStatus::Crashed { fault: VmFault::IllegalRegister },
                    )
                } else {
                    (
                        VmState {
                            pc: spec_clamp_dest(s, pc2 + s.registers[b1 as int]),
                            ..s
                        },
                        StepStatus::Continue,
                    )
                }
            },
            Opcode::JMPB => {
                if b1 >= 32 {
                    (
                        VmState { pc: pc2, ..s },
                        StepStatus::Crashed { fault: VmFault::IllegalRegister },
                    )
                } else {
                    (
                        VmState {
                            pc: spec_clamp_dest(s, pc2 - s.registers[b1 as int]),
                            ..s
                        },
                        StepStatus::Continue,
                    )
                }
            },
            Opcode::NOP => (VmState { pc: pc4, ..s }, StepStatus::Continue),
            Opcode::ALOC => {
                if b1 >= 32 {
                    (
                        VmState { pc: pc2, ..s },
                        StepStatus::Crashed { fault: VmFault::IllegalRegister },
                    )
                } else {
                    let n = s.registers[b1 as int];
                    if n < 0 {
                        (
                            VmState { pc: pc2, ..s },
                            StepStatus::Crashed { fault: VmFault::IllegalAllocation },
                        )
                    } else {
                        (
                            VmState {
                                heap: s.heap + Seq::new(n as nat, |i: int| 0u8),
                                pc: pc2,
                                ..s
                            },
                            StepStatus::Continue,
                        )
                    }
                }
            },
            Opcode::PRTS => {
                let start = b1 * 256 + b2;
                (
                    VmState { output: s.output + spec_ro_string(s.ro, start as int), pc: pc3, ..s },
                    StepStatus::Continue,
                )
            },
            Opcode::HLT => (VmState { pc: s.pc + 1, ..s }, StepStatus::Halted),
            Opcode::IGL => (
                VmState { pc: s.pc + 1, ..s },
                StepStatus::Crashed { fault: VmFault::UnknownOpcode },
            ),
        }
    }
}

/// The three-register arithmetic step: destination register gets the
/// wrapping sum, difference or product of the two source registers.
pub open spec fn spec_step_arith(s: VmState, b1: u8, b2: u8, b3: u8, pc4: int, op: Opcode) -> (
    VmState,
    StepStatus,
) {
    if b1 >= 32 || b2 >= 32 || b3 >= 32 {
        (VmState { pc: pc4, ..s }, StepStatus::Crashed { fault: VmFault::IllegalRegister })
    } else {
        let v1 = s.registers[b1 as int];
        let v2 = s.registers[b2 as int];
        let res = if op == Opcode::ADD {
            vstd::wrapping::i32_specs::wrapping_add(v1, v2)
        } else if op == Opcode::SUB {
            vstd::wrapping::i32_specs::wrapping_sub(v1, v2)
        } else {
            vstd::wrapping::i32_specs::wrapping_mul(v1, v2)
        };
        (
            VmState { registers: s.registers.update(b3 as int, res), pc: pc4, ..s },
            StepStatus::Continue,
        )
    }
}

/// The one-register step: the register is incremented or decremented,
/// wrapping.
pub open spec fn spec_step_unary(s: VmState, b1: u8, pc4: int, up: bool) -> (VmState, StepStatus) {
    if b1 >= 32 {
        (VmState { pc: pc4, ..s }, StepStatus::Crashed { fault: VmFault::IllegalRegister })
    } else {
        let v = s.registers[b1 as int];
        let res = if up {
            vstd::wrapping::i32_specs::wrapping_add(v, 1)
        } else {
            vstd::wrapping::i32_specs::wrapping_sub(v, 1)
        };
        (
            VmState { registers: s.registers.update(b1 as int, res), pc: pc4, ..s },
            StepStatus::Continue,
        )
    }
}

/// The comparison step: the equality flag takes the comparison's result.
pub open spec fn spec_step_cmp(s: VmState, b1: u8, b2: u8, pc4: int, op: Opcode) -> (
    VmState,
    StepStatus,
) {
    if b1 >= 32 || b2 >= 32 {
        (VmState { pc: pc4, ..s }, StepStatus::Crashed { fault: VmFault::IllegalRegister })
    } else {
        let v1 = s.registers[b1 as int];
        let v2 = s.registers[b2 as int];
        let flag = if op == Opcode::EQ {
            v1 == v2
        } else if op == Opcode::NEQ {
            v1 != v2
        } else if op == Opcode::GT {
            v1 > v2
        } else if op == Opcode::LT {
            v1 < v2
        } else if op == Opcode::GTE {
            v1 >= v2
        } else {
            v1 <= v2
        };
        (VmState { equal_flag: flag, pc: pc4, ..s }, StepStatus::Continue)
    }
}

/// The conditional jump step: when the equality flag matches the opcode's
/// polarity the counter jumps to the register's value, else it moves past
/// the consumed bytes.
pub open spec fn spec_step_cond_jump(s: VmState, b1: u8, pc2: int, want: bool) -> (
    VmState,
    StepStatus,
) {
    if b1 >= 32 {
        (VmState { pc: pc2, ..s }, StepStatus::Crashed { fault: VmFault::IllegalRegister })
    } else {
        if s.equal_flag == want {
            (
                VmState { pc: spec_clamp_dest(s, s.registers[b1 as int] as int), ..s },
                StepStatus::Continue,
            )
        } else {
            (VmState { pc: pc2, ..s }, StepStatus::Continue)
        }
    }
}

/// The machine run `n` steps forward, stopping early at the first
/// non-continuing step.
pub open spec fn spec_run_steps(s: VmState, n: nat) -> (VmState, StepStatus)
    decreases n,
{
    if n == 0 {
        (s, StepStatus::Continue)
    } else {
        let (s1, st) = spec_step(s);
        if st == StepStatus::Continue {
            spec_run_steps(s1, (n - 1) as nat)
        } else {
            (s1, st)
        }
    }
}

/// Reaching a state in `n` continuing steps and stepping once more is the
/// same as running `n + 1` steps.
pub proof fn lemma_run_steps_snoc(s0: VmState, n: nat, cur: VmState)
    requires
        spec_run_steps(s0, n) == (cur, StepStatus::Continue),
    ensures
        spec_run_steps(s0, n + 1) == spec_step(cur),
    decreases n,
{
    let (s1, st) = spec_step(s0);
    if n == 0 {
        assert(spec_run_steps(s0, 1) == if st == StepStatus::Continue {
            spec_run_steps(s1, 0)
        } else {
            (s1, st)
        });
    } else {
        assert(spec_run_steps(s0, n) == if st == StepStatus::Continue {
            spec_run_steps(s1, (n - 1) as nat)
        } else {
            (s1, st)
        });
        assert(st == StepStatus::Continue);
        lemma_run_steps_snoc(s1, (n - 1) as nat, cur);
        assert(spec_run_steps(s0, n + 1) == spec_run_steps(s1, n));
    }
}

/// The little-endian 32-bit value stored right after the header region:
/// the code-start offset.
pub open spec fn spec_start_offset(p: Seq<u8>) -> int {
    p[64] + 256 * p[65] + 65536 * p[66] + 16777216 * p[67]
}

/// Whether a program image has a valid header: it holds the full header
/// region, begins with the magic prefix, and its code-start offset stays
/// inside the image.
pub open spec fn spec_header_ok(p: Seq<u8>) -> bool {
    &&& p.len() >= PIE_HEADER_LENGTH + 4
    &&& p.subrange(0, 4) == spec_pie_prefix()
    &&& PIE_HEADER_LENGTH + 4 + spec_start_offset(p) <= p.len()
}

/// The state a run starts from once the header is read: the counter stands
/// at the first code byte — past the header and the read-only data — and
/// the read-only buffer holds the image's read-only segment.
pub open spec fn spec_start_state(s: VmState) -> VmState {
    VmState {
        pc: PIE_HEADER_LENGTH + 4 + spec_start_offset(s.program),
        ro: s.program.subrange(
            PIE_HEADER_LENGTH + 4,
            PIE_HEADER_LENGTH + 4 + spec_start_offset(s.program),
        ),
        ..s
    }
}

/// The lifecycle event a run logs last, by how it ended.
pub open spec fn spec_final_event(st: StepStatus) -> VMEventType {
    match st {
        StepStatus::Halted => VMEventType::GracefulStop { code: 0 },
        StepStatus::OffEnd => VMEventType::GracefulStop { code: 1 },
        StepStatus::Crashed { .. } => VMEventType::Crash,
        StepStatus::Continue => VMEventType::Stop,
    }
}

/// The virtual machine: 32 general-purpose registers, a program counter, an
/// owned program image, a growable heap, the read-only data, the remainder
/// register, the equality flag, the output it has printed, and an
/// append-only event log under a unique instance identifier.
#[derive(Debug)]
pub struct VM {
    pub id: u128,
    pub events: Vec<VMEvent>,
    pub registers: Vec<i32>,
    pub pc: usize,
    pub program: Vec<u8>,
    pub heap: Vec<u8>,
    pub ro_data: Vec<u8>,
    pub remainder: u32,
    pub equal_flag: bool,
    pub output: Vec<u8>,
    pub logical_cores: usize,
}

impl View for VM {
    type V = VmState;

    open spec fn view(&self) -> VmState {
        VmState {
            registers: self.registers@,
            pc: self.pc as int,
            program: self.program@,
            heap: self.heap@,
            ro: self.ro_data@,
            remainder: self.remainder,
            equal_flag: self.equal_flag,
            output: self.output@,
        }
    }
}

impl VM {
    /// The machine's event log so far.
    pub open spec fn spec_events(&self) -> Seq<VMEvent> {
        self.events@
    }

    /// The machine's unique instance identifier.
    pub open spec fn spec_id(&self) -> u128 {
        self.id
    }

    /// A fresh machine: zeroed registers, empty program, heap, read-only
    /// data and output, counter at zero, no events, and a freshly drawn
    /// identifier.
    pub fn new() -> (r: VM)
        ensures
            r@.registers.len() == 32,
            forall|i: int| 0 <= i < 32 ==> r@.registers[i] == 0,
            r@.pc == 0,
            r@.program == Seq::<u8>::empty(),
            r@.heap == Seq::<u8>::empty(),
            r@.ro == Seq::<u8>::empty(),
            r@.remainder == 0,
            r@.equal_flag == false,
            r@.output == Seq::<u8>::empty(),
            r.spec_events() == Seq::<VMEvent>::empty(),
    {
        let mut registers: Vec<i32> = Vec::new();
        let mut i: usize = 0;
        while i < 32
            invariant
                i <= 32,
                registers@.len() == i,
                forall|j: int| 0 <= j < i ==> registers@[j] == 0,
            decreases 32 - i,
        {
            registers.push(0);
            i = i + 1;
        }
        let r = VM {
            id: crate::external::fresh_id(),
            events: Vec::new(),
            registers,
            pc: 0,
            program: Vec::new(),
            heap: Vec::new(),
            ro_data: Vec::new(),
            remainder: 0,
            equal_flag: false,
            output: Vec::new(),
            logical_cores: 1,
        };
        proof {
            assert(r@.program =~= Seq::<u8>::empty());
            assert(r@.heap =~= Seq::<u8>::empty());
            assert(r@.ro =~= Seq::<u8>::empty());
            assert(r@.output =~= Seq::<u8>::empty());
            assert(r.spec_events() =~= Seq::<VMEvent>::empty());
        }
        r
    }

    /// A fresh machine whose program already holds an empty image header,
    /// ready for code bytes to be appended.
    pub fn new_with_header() -> (r: VM)
        ensures
            r@.registers.len() == 32,
            forall|i: int| 0 <= i < 32 ==> r@.registers[i] == 0,
            r@.pc == 0,
            r@.program == crate::assembler::spec_pie_header(0),
            r@.heap == Seq::<u8>::empty(),
            r@.ro == Seq::<u8>::empty(),
            r@.remainder == 0,
            r@.equal_flag == false,
            r@.output == Seq::<u8>::empty(),
            r.spec_events() == Seq::<VMEvent>::empty(),
    {
        let mut vm = Self::new();
        let empty: Vec<u8> = Vec::new();
        vm.program = Self::prepend_header(empty);
        vm
    }

    /// The given bytes with an empty image header put before them: the
    /// magic prefix, zero padding, and a zero code-start offset.
    pub fn prepend_header(b: Vec<u8>) -> (r: Vec<u8>)
        ensures
            r@ == crate::assembler::spec_pie_header(0) + b@,
    {
        let mut prepension: Vec<u8> = Vec::new();
        prepension.push(45);
        prepension.push(50);
        prepension.push(49);
        prepension.push(45);
        while prepension.len() < PIE_HEADER_LENGTH + 4
            invariant
                4 <= prepension.len() <= PIE_HEADER_LENGTH + 4,
                prepension@.subrange(0, 4) =~= spec_pie_prefix(),
                forall|j: int| 4 <= j < prepension@.len() ==> prepension@[j] == 0,
            decreases PIE_HEADER_LENGTH + 4 - prepension.len(),
        {
            prepension.push(0);
        }
        let mut rest = b;
        let ghost bview = rest@;
        prepension.append(&mut rest);
        proof {
            assert(prepension@ =~= crate::assembler::spec_pie_header(0) + bview);
        }
        prepension
    }

    /// Where the code-start offset field points from: the header region and
    /// the offset field itself.
    pub fn get_header_offset() -> (r: usize)
        ensures
            r == PIE_HEADER_LENGTH + 4,
    {
        PIE_HEADER_LENGTH + 4
    }

    /// Appends one byte to the program.
    pub fn add_byte(&mut self, b: u8)
        ensures
            final (self)@ == (VmState { program: old(self)@.program.push(b), ..old(self)@ }),
            final (self).spec_events() == old(self).spec_events(),
            final (self).spec_id() == old(self).spec_id(),
    {
        self.program.push(b);
    }

    /// Appends bytes to the program.
    pub fn add_bytes(&mut self, bytes: Vec<u8>)
        ensures
            final (self)@ == (VmState { program: old(self)@.program + bytes@, ..old(self)@ }),
            final (self).spec_events() == old(self).spec_events(),
            final (self).spec_id() == old(self).spec_id(),
    {
        let mut bytes = bytes;
        self.program.append(&mut bytes);
    }

    /// The operand byte `off` places past the program counter; zero when it
    /// would lie past the program's end.
    fn op_byte(&self, off: usize) -> (b: u8)
        requires
            self.pc < self.program.len(),
            off <= 4,
        ensures
            b == spec_rd8(self@, self@.pc + off),
    {
        let len = self.program.len();
        if len - self.pc > off {
            self.program[self.pc + off]
        } else {
            0
        }
    }

    /// The program counter `k` bytes further on, parked at the program's
    /// end if that is nearer.
    fn adv_of(&self, k: usize) -> (r: usize)
        requires
            self.pc < self.program.len(),
            k <= 4,
        ensures
            r as int == spec_adv(self@, k as int),
    {
        let len = self.program.len();
        if len - self.pc >= k {
            self.pc + k
        } else {
            len
        }
    }

    /// A jump destination clamped to the program's bounds.
    fn clamp_dest(&self, d: i128) -> (r: usize)
        ensures
            r as int == spec_clamp_dest(self@, d as int),
    {
        let len = self.program.len();
        if 0 <= d && d <= len as i128 {
            d as usize
        } else {
            len
        }
    }

    /// Executes exactly one instruction, and reports whether the machine
    /// continues, halted, ran off the program's end, or faulted. The step
    /// taken is exactly `spec_step` of the machine's state.
    #[verifier::rlimit(100)]
    pub fn execute_instruction(&mut self) -> (st: StepStatus)
        requires
            old(self)@.registers.len() == 32,
        ensures
            (final (self)@, st) == spec_step(old(self)@),
            final (self)@.registers.len() == 32,
            final (self).spec_events() == old(self).spec_events(),
            final (self).spec_id() == old(self).spec_id(),
            final (self).logical_cores == old(self).logical_cores,
    {
        if self.pc >= self.program.len() {
            return StepStatus::OffEnd;
        }
        let op = Opcode::from_byte(self.program[self.pc]);
        let b1 = self.op_byte(1);
        let b2 = self.op_byte(2);
        let b3 = self.op_byte(3);
        let pc2 = self.adv_of(2);
        let pc3 = self.adv_of(3);
        let pc4 = self.adv_of(4);
        match op {
            Opcode::LOAD => {
                self.pc = pc4;
                if b1 >= 32 {
                    StepStatus::Crashed { fault: VmFault::IllegalRegister }
                } else {
                    let imm: u16 = (b2 as u16) * 256 + (b3 as u16);
                    self.registers[b1 as usize] = imm as i32;
                    StepStatus::Continue
                }
            },
            Opcode::ADD => {
                self.pc = pc4;
                if b1 >= 32 || b2 >= 32 || b3 >= 32 {
                    StepStatus::Crashed { fault: VmFault::IllegalRegister }
                } else {
                    let v1 = self.registers[b1 as usize];
                    let v2 = self.registers[b2 as usize];
                    self.registers[b3 as usize] = v1.wrapping_add(v2);
                    StepStatus::Continue
                }
            },
            Opcode::SUB => {
                self.pc = pc4;
                if b1 >= 32 || b2 >= 32 || b3 >= 32 {
                    StepStatus::Crashed { fault: VmFault::IllegalRegister }
                } else {
                    let v1 = self.registers[b1 as usize];
                    let v2 = self.registers[b2 as usize];
                    self.registers[b3 as usize] = v1.wrapping_sub(v2);
                    StepStatus::Continue
                }
            },
            Opcode::MUL => {
                self.pc = pc4;
                if b1 >= 32 || b2 >= 32 || b3 >= 32 {
                    StepStatus::Crashed { fault: VmFault::IllegalRegister }
                } else {
                    let v1 = self.registers[b1 as usize];
                    let v2 = self.registers[b2 as usize];
                    self.registers[b3 as usize] = v1.wrapping_mul(v2);
                    StepStatus::Continue
                }
            },
            Opcode::DIV => {
                self.pc = pc4;
                if b1 >= 32 || b2 >= 32 || b3 >= 32 {
                    StepStatus::Crashed { fault: VmFault::IllegalRegister }
                } else {
                    let v1 = self.registers[b1 as usize];
                    let v2 = self.registers[b2 as usize];
                    if v2 == 0 {
                        StepStatus::Crashed { fault: VmFault::DivisionByZero }
                    } else {
                        let (q, rem) = Self::div_rem(v1, v2);
                        self.registers[b3 as usize] = q;
                        self.remainder = rem;
                        StepStatus::Continue
                    }
                }
            },
            Opcode::INC => {
                self.pc = pc4;
                if b1 >= 32 {
                    StepStatus::Crashed { fault: VmFault::IllegalRegister }
                } else {
                    let v = self.registers[b1 as usize];
                    self.registers[b1 as usize] = v.wrapping_add(1);
                    StepStatus::Continue
                }
            },
            Opcode::DEC => {
                self.pc = pc4;
                if b1 >= 32 {
                    StepStatus::Crashed { fault: VmFault::IllegalRegister }
                } else {
                    let v = self.registers[b1 as usize];
                    self.registers[b1 as usize] = v.wrapping_sub(1);
                    StepStatus::Continue
                }
            },
            Opcode::EQ => {
                self.pc = pc4;
                if b1 >= 32 || b2 >= 32 {
                    StepStatus::Crashed { fault: VmFault::IllegalRegister }
                } else {
                    self.equal_flag = self.registers[b1 as usize] == self.registers[b2 as usize];
                    StepStatus::Continue
                }
            },
            Opcode::NEQ => {
                self.pc = pc4;
                if b1 >= 32 || b2 >= 32 {
                    StepStatus::Crashed { fault: VmFault::IllegalRegister }
                } else {
                    self.equal_flag = self.registers[b1 as usize] != self.registers[b2 as usize];
                    StepStatus::Continue
                }
            },
            Opcode::GT => {
                self.pc = pc4;
                if b1 >= 32 || b2 >= 32 {
                    StepStatus::Crashed { fault: VmFault::IllegalRegister }
                } else {
                    self.equal_flag = self.registers[b1 as usize] > self.registers[b2 as usize];
                    StepStatus::Continue
                }
            },
            Opcode::LT => {
                self.pc = pc4;
                if b1 >= 32 || b2 >= 32 {
                    StepStatus::Crashed { fault: VmFault::IllegalRegister }
                } else {
                    self.equal_flag = self.registers[b1 as usize] < self.registers[b2 as usize];
                    StepStatus::Continue
                }
            },
            Opcode::GTE => {
                self.pc = pc4;
                if b1 >= 32 || b2 >= 32 {
                    StepStatus::Crashed { fault: VmFault::IllegalRegister }
                } else {
                    self.equal_flag = self.registers[b1 as usize] >= self.registers[b2 as usize];
                    StepStatus::Continue
                }
            },
            Opcode::LTE => {
                self.pc = pc4;
                if b1 >= 32 || b2 >= 32 {
                    StepStatus::Crashed { fault: VmFault::IllegalRegister }
                } else {
                    self.equal_flag = self.registers[b1 as usize] <= self.registers[b2 as usize];
                    StepStatus::Continue
                }
            },
            Opcode::JEQ => {
                if b1 >= 32 {
                    self.pc = pc2;
                    StepStatus::Crashed { fault: VmFault::IllegalRegister }
                } else if self.equal_flag {
                    let target = self.registers[b1 as usize];
                    self.pc = self.clamp_dest(target as i128);
                    StepStatus::Continue
                } else {
                    self.pc = pc2;
                    StepStatus::Continue
                }
            },
            Opcode::JNEQ => {
                if b1 >= 32 {
                    self.pc = pc2;
                    StepStatus::Crashed { fault: VmFault::IllegalRegister }
                } else if !self.equal_flag {
                    let target = self.registers[b1 as usize];
                    self.pc = self.clamp_dest(target as i128);
                    StepStatus::Continue
                } else {
                    self.pc = pc2;
                    StepStatus::Continue
                }
            },
            Opcode::JMP => {
                if b1 >= 32 {
                    self.pc = pc2;
                    StepStatus::Crashed { fault: VmFault::IllegalRegister }
                } else {
                    let target = self.registers[b1 as usize];
                    self.pc = self.clamp_dest(target as i128);
                    StepStatus::Continue
                }
            },
            Opcode::JMPF => {
                if b1 >= 32 {
                    self.pc = pc2;
                    StepStatus::Crashed { fault: VmFault::IllegalRegister }
                } else {
                    let target = self.registers[b1 as usize];
                    self.pc = self.clamp_dest(pc2 as i128 + target as i128);
                    StepStatus::Continue
                }
            },
            Opcode::JMPB => {
                if b1 >= 32 {
                    self.pc = pc2;
                    StepStatus::Crashed { fault: VmFault::IllegalRegister }
                } else {
                    let target = self.registers[b1 as usize];
                    self.pc = self.clamp_dest(pc2 as i128 - target as i128);
                    StepStatus::Continue
                }
            },
            Opcode::NOP => {
                self.pc = pc4;
                StepStatus::Continue
            },
            Opcode::ALOC => {
                self.pc = pc2;
                if b1 >= 32 {
                    StepStatus::Crashed { fault: VmFault::IllegalRegister }
                } else {
                    let n = self.registers[b1 as usize];
                    if n < 0 {
                        StepStatus::Crashed { fault: VmFault::IllegalAllocation }
                    } else {
                        let count = n as usize;
                        let ghost pre = *self;
                        let mut k: usize = 0;
                        while k < count
                            invariant
                                k <= count,
                                self.heap@ =~= pre.heap@ + Seq::new(k as nat, |i: int| 0u8),
                                self.id == pre.id,
                                self.events@ == pre.events@,
                                self.registers@ == pre.registers@,
                                self.pc == pre.pc,
                                self.program@ == pre.program@,
                                self.ro_data@ == pre.ro_data@,
                                self.remainder == pre.remainder,
                                self.equal_flag == pre.equal_flag,
                                self.output@ == pre.output@,
                                self.logical_cores == pre.logical_cores,
                            decreases count - k,
                        {
                            self.heap.push(0);
                            k = k + 1;
                        }
                        StepStatus::Continue
                    }
                }
            },
            Opcode::PRTS => {
                self.pc = pc3;
                let start: u16 = (b1 as u16) * 256 + (b2 as u16);
                let ghost pre = *self;
                let ghost out_pre = self.output@;
                let ghost ro = self.ro_data@;
                let mut j: usize = start as usize;
                proof {
                    assert(out_pre + spec_ro_string(ro, start as int) == out_pre + spec_ro_string(
                        ro,
                        j as int,
                    ));
                }
                while j < self.ro_data.len() && self.ro_data[j] != 0
                    invariant
                        self.ro_data@ == ro,
                        start as int <= j as int,
                        self.output@ + spec_ro_string(ro, j as int) == out_pre + spec_ro_string(
                            ro,
                            start as int,
                        ),
                        self.id == pre.id,
                        self.events@ == pre.events@,
                        self.registers@ == pre.registers@,
                        self.pc == pre.pc,
                        self.program@ == pre.program@,
                        self.heap@ == pre.heap@,
                        self.remainder == pre.remainder,
                        self.equal_flag == pre.equal_flag,
                        self.logical_cores == pre.logical_cores,
                    decreases self.ro_data.len() - j,
                {
                    let byte = self.ro_data[j];
                    let ghost out_cur = self.output@;
                    self.output.push(byte);
                    proof {
                        assert(spec_ro_string(ro, j as int) =~= seq![ro[j as int]]
                            + spec_ro_string(ro, j as int + 1));
                        assert(self.output@ + spec_ro_string(ro, j as int + 1) =~= out_cur
                            + spec_ro_string(ro, j as int));
                    }
                    j = j + 1;
                }
                proof {
                    assert(spec_ro_string(ro, j as int) =~= Seq::<u8>::empty());
                    assert(self.output@ =~= self.output@ + spec_ro_string(ro, j as int));
                    assert(self.output@ =~= out_pre + spec_ro_string(ro, start as int));
                }
                StepStatus::Continue
            },
            Opcode::HLT => {
                self.pc = self.pc + 1;
                StepStatus::Halted
            },
            Opcode::IGL => {
                self.pc = self.pc + 1;
                StepStatus::Crashed { fault: VmFault::UnknownOpcode }
            },
        }
    }

    /// The quotient and the wrapped remainder the division instruction
    /// produces.
    fn div_rem(a: i32, b: i32) -> (r: (i32, u32))
        requires
            b != 0,
        ensures
            r.0 == spec_div_result(a, b),
            r.1 == spec_rem_result(a, b),
    {
        if a == i32::MIN && b == -1 {
            return (i32::MIN, 0);
        }
        let mag_a: u32 = if a >= 0 {
            a as u32
        } else if a == i32::MIN {
            0x8000_0000
        } else {
            (-a) as u32
        };
        let mag_b: u32 = if b >= 0 {
            b as u32
        } else if b == i32::MIN {
            0x8000_0000
        } else {
            (-b) as u32
        };
        let mq: u32 = mag_a / mag_b;
        let mr: u32 = mag_a % mag_b;
        let neg = (a < 0) != (b < 0);
        proof {
            assert(mq <= mag_a) by {
                vstd::arithmetic::div_mod::lemma_div_is_ordered_by_denominator(
                    mag_a as int,
                    1,
                    mag_b as int,
                );
                vstd::arithmetic::div_mod::lemma_div_basics_2(mag_a as int);
            }
        }
        let q: i32 = if neg {
            (-(mq as i64)) as i32
        } else {
            proof {
                assert(mq < 0x8000_0000) by {
                    assert(mag_a <= 0x8000_0000);
                    if mag_b == 1 {
                        vstd::arithmetic::div_mod::lemma_div_basics_2(mag_a as int);
                        assert(mq == mag_a);
                        // `neg` is false, so the operands share a sign; a
                        // magnitude-one divisor is then 1 with a
                        // non-negative dividend, or -1 with a negative one,
                        // and the smallest-value dividend was handled above.
                        assert(mag_a < 0x8000_0000);
                    } else if mag_a == 0 {
                        vstd::arithmetic::div_mod::lemma_div_basics_1(mag_b as int);
                    } else {
                        vstd::arithmetic::div_mod::lemma_div_is_strictly_smaller(
                            mag_a as int,
                            mag_b as int,
                        );
                    }
                }
            }
            mq as i32
        };
        let rem: u32 = if a < 0 && mr > 0 {
            (0x1_0000_0000u64 - mr as u64) as u32
        } else {
            mr
        };
        (q, rem)
    }

    /// Executes one instruction, as the REPL's line-at-a-time mode asks.
    pub fn run_once(&mut self)
        requires
            old(self)@.registers.len() == 32,
        ensures
            final (self)@ == spec_step(old(self)@).0,
            final (self)@.registers.len() == 32,
            final (self).spec_events() == old(self).spec_events(),
            final (self).spec_id() == old(self).spec_id(),
    {
        let _ = self.execute_instruction();
    }

    /// A copy of the event log.
    pub fn events(&self) -> (r: Vec<VMEvent>)
        ensures
            r@ == self.spec_events(),
    {
        vstd::slice::slice_to_vec(self.events.as_slice())
    }

    /// Runs the machine to completion and returns the event log. A `Start`
    /// event is logged first. An image without a valid header crashes at
    /// once. Otherwise the counter is set past the header and the read-only
    /// data — whose length the header's code-start field gives — the
    /// read-only buffer is loaded from the image, and the machine steps
    /// until it halts (`GracefulStop` with code 0), runs off the program's
    /// end (`GracefulStop` with code 1), or faults (`Crash`). A run still
    /// going after the interpreter's full step budget — `u64::MAX` steps —
    /// is cut off with a `Stop` event; any program that terminates within
    /// that budget therefore has its outcome pinned.
    pub fn run(&mut self) -> (events: Vec<VMEvent>)
        requires
            old(self)@.registers.len() == 32,
        ensures
            events@ == final (self).spec_events(),
            final (self)@.registers.len() == 32,
            final (self).spec_id() == old(self).spec_id(),
            final (self).spec_events().len() == old(self).spec_events().len() + 2,
            final (self).spec_events().subrange(0, old(self).spec_events().len() as int) == old(self).spec_events(),
            final (self).spec_events()[old(self).spec_events().len() as int].event
                == VMEventType::Start,
            !spec_header_ok(old(self)@.program) ==> final (self)@ == old(self)@ && final (self).spec_events().last().event == VMEventType::Crash,
            spec_header_ok(old(self)@.program) ==> exists|n: nat|
                #![trigger spec_run_steps(spec_start_state(old(self)@), n)]
                {
                    let (sf, st) = spec_run_steps(spec_start_state(old(self)@), n);
                    &&& final (self)@ == sf
                    &&& final (self).spec_events().last().event == spec_final_event(st)
                    &&& (st == StepStatus::Continue ==> n == u64::MAX)
                },
    {
        self.events.push(VMEvent::new(VMEventType::Start));
        let len = self.program.len();
        let header_ok: bool = if len < PIE_HEADER_LENGTH + 4 {
            false
        } else {
            let p0 = self.program[0];
            let p1 = self.program[1];
            let p2 = self.program[2];
            let p3 = self.program[3];
            let prefix_ok = p0 == 45 && p1 == 50 && p2 == 49 && p3 == 45;
            proof {
                if prefix_ok {
                    assert(self.program@.subrange(0, 4) =~= spec_pie_prefix());
                } else {
                    assert(self.program@.subrange(0, 4)[0] == self.program@[0]);
                    assert(self.program@.subrange(0, 4)[1] == self.program@[1]);
                    assert(self.program@.subrange(0, 4)[2] == self.program@[2]);
                    assert(self.program@.subrange(0, 4)[3] == self.program@[3]);
                }
            }
            if prefix_ok {
                let off = self.start_offset();
                (off as u64) + ((PIE_HEADER_LENGTH + 4) as u64) <= len as u64
            } else {
                false
            }
        };
        if !header_ok {
            self.events.push(VMEvent::new(VMEventType::Crash));
            proof {
                assert(self.spec_events().subrange(
                    0,
                    old(self).spec_events().len() as int,
                ) =~= old(self).spec_events());
            }
            return self.events();
        }
        let off = self.start_offset();
        let start = PIE_HEADER_LENGTH + 4 + off as usize;
        self.ro_data = vstd::slice::slice_to_vec(
            vstd::slice::slice_subrange(self.program.as_slice(), PIE_HEADER_LENGTH + 4, start),
        );
        self.pc = start;
        let ghost s0 = self@;
        proof {
            assert(s0 == spec_start_state(old(self)@));
        }
        let ghost mut n: nat = 0;
        let mut status = StepStatus::Continue;
        let mut fuel: u64 = u64::MAX;
        while status == StepStatus::Continue && fuel > 0
            invariant
                self@.registers.len() == 32,
                self.spec_id() == old(self).spec_id(),
                self.spec_events().len() == old(self).spec_events().len() + 1,
                self.spec_events().subrange(0, old(self).spec_events().len() as int) == old(self).spec_events(),
                self.spec_events()[old(self).spec_events().len() as int].event
                    == VMEventType::Start,
                spec_run_steps(s0, n) == (self@, status),
                n + fuel == u64::MAX,
            decreases fuel,
        {
            let ghost cur = self@;
            let st = self.execute_instruction();
            proof {
                lemma_run_steps_snoc(s0, n, cur);
                n = n + 1;
            }
            status = st;
            fuel = fuel - 1;
        }
        let final_event = if status == StepStatus::Continue {
            VMEventType::Stop
        } else {
            match status {
                StepStatus::Halted => VMEventType::GracefulStop { code: 0 },
                StepStatus::OffEnd => VMEventType::GracefulStop { code: 1 },
                StepStatus::Crashed { .. } => VMEventType::Crash,
                StepStatus::Continue => VMEventType::Stop,
            }
        };
        self.events.push(VMEvent::new(final_event));
        proof {
            assert(self.spec_events().subrange(
                0,
                old(self).spec_events().len() as int,
            ) =~= old(self).spec_events());
            assert(spec_run_steps(s0, n) == (self@, status));
            assert(final_event == spec_final_event(status) || (status == StepStatus::Continue
                && final_event == VMEventType::Stop));
        }
        self.events()
    }

    /// The code-start offset stored after the header region, read as a
    /// little-endian 32-bit value.
    fn start_offset(&self) -> (r: u32)
        requires
            self.program.len() >= PIE_HEADER_LENGTH + 4,
        ensures
            r as int == spec_start_offset(self@.program),
    {
        let p0 = self.program[PIE_HEADER_LENGTH] as u32;
        let p1 = self.program[PIE_HEADER_LENGTH + 1] as u32;
        let p2 = self.program[PIE_HEADER_LENGTH + 2] as u32;
        let p3 = self.program[PIE_HEADER_LENGTH + 3] as u32;
        p0 + 256 * p1 + 65536 * p2 + 16777216 * p3
    }
}

impl Clone for VM {
    /// A cloned machine has the same state, the same event log, and the
    /// same identifier: a spawn hands off a full copy, identifier included.
    fn clone(&self) -> (r: VM)
        ensures
            r@ == self@,
            r.spec_events() == self.spec_events(),
            r.spec_id() == self.spec_id(),
            r.logical_cores == self.logical_cores,
    {
        VM {
            id: self.id,
            events: vstd::slice::slice_to_vec(self.events.as_slice()),
            registers: vstd::slice::slice_to_vec(self.registers.as_slice()),
            pc: self.pc,
            program: vstd::slice::slice_to_vec(self.program.as_slice()),
            heap: vstd::slice::slice_to_vec(self.heap.as_slice()),
            ro_data: vstd::slice::slice_to_vec(self.ro_data.as_slice()),
            remainder: self.remainder,
            equal_flag: self.equal_flag,
            output: vstd::slice::slice_to_vec(self.output.as_slice()),
            logical_cores: self.logical_cores,
        }
    }
}

/// Executing a division with a zero divisor — the divisor register holding
/// zero and valid register operands — faults with `DivisionByZero`: the
/// machine reports the fault rather than die, and its registers, remainder,
/// flag, heap and output are untouched.
pub proof fn lemma_div_by_zero_faults(s: VmState)
    requires
        0 <= s.pc < s.program.len(),
        spec_byte_opcode(s.program[s.pc]) == Opcode::DIV,
        spec_rd8(s, s.pc + 1) < 32,
        spec_rd8(s, s.pc + 2) < 32,
        spec_rd8(s, s.pc + 3) < 32,
        s.registers.len() == 32,
        s.registers[spec_rd8(s, s.pc + 2) as int] == 0,
    ensures
        spec_step(s).1 == (StepStatus::Crashed { fault: VmFault::DivisionByZero }),
        spec_step(s).0 == (VmState { pc: spec_adv(s, 4), ..s }),
{
}

/// Executing a halt instruction advances the program counter by exactly
/// one byte and terminates normally, leaving everything else untouched.
pub proof fn lemma_hlt_halts(s: VmState)
    requires
        0 <= s.pc < s.program.len(),
        spec_byte_opcode(s.program[s.pc]) == Opcode::HLT,
    ensures
        spec_step(s) == (VmState { pc: s.pc + 1, ..s }, StepStatus::Halted),
{
}

} // verus!
