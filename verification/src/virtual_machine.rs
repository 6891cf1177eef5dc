use vstd::prelude::*;

use std::collections::HashMap;

use crate::data_tape::{
    empty_tape_view, next_ws_view, prev_ws_view, wrap_dec, wrap_inc, DataTape, TapeView,
};
use crate::peripheral_tape::{same_bus_layout, BFPeripheral, BusView, PeripheralTape};
use crate::virtual_machine_errors::VMErrKind;

verus! {

broadcast use vstd::std_specs::hash::group_hash_axioms;

/// Opcode: step the data pointer forward (`>`).
pub const BF_PTR_INC: u8 = 0u8;

/// Opcode: step the data pointer back (`<`).
pub const BF_PTR_DEC: u8 = 1u8;

/// Opcode: increment the current cell (`+`).
pub const BF_DATA_INC: u8 = 2u8;

/// Opcode: decrement the current cell (`-`).
pub const BF_DATA_DEC: u8 = 3u8;

/// Opcode: open a loop (`[`): jump past the matching bracket when the cell is
/// zero.
pub const BF_LOOP_OPEN: u8 = 4u8;

/// Opcode: close a loop (`]`): jump just past the matching bracket when the
/// cell is nonzero.
pub const BF_LOOP_CLOSE: u8 = 5u8;

/// Opcode: write the current cell to the peripheral bus (`.`).
pub const BF_OUTPUT: u8 = 6u8;

/// Opcode: read from the peripheral bus into the current cell (`,`).
pub const BF_INPUT: u8 = 7u8;

/// Opcode: load the data pointer from the current cell (`@`).
pub const BF_PTR_JUMP: u8 = 8u8;

/// Opcode: copy the current cell into the buffer register (`^`).
pub const BF_TO_BUF: u8 = 9u8;

/// Opcode: copy the buffer register into the current cell (`*`).
pub const BF_FROM_BUF: u8 = 10u8;

/// Opcode: rotate the current cell right by one bit (`~`).
pub const BF_ROTATE: u8 = 11u8;

/// Opcode: replace the current cell with NOT(cell AND buffer) (`&`).
pub const BF_NAND: u8 = 12u8;

/// Opcode: load the page register from the current cell (`#`).
pub const BF_PAGE_JUMP: u8 = 13u8;

/// Opcode: advance to the next workspace (`}`).
pub const BF_PAGE_INC: u8 = 14u8;

/// Opcode: retreat to the previous workspace (`{`).
pub const BF_PAGE_DEC: u8 = 15u8;

/// Opcode standing in for a source character outside the instruction
/// alphabet; a no-op single-step advance.
pub const FIL_CHAR: u8 = 16u8;

/// Opcode at the head of a compressed filler run: an unconditional jump past
/// the run.
pub const FIL_JUMP: u8 = 17u8;

/// Whether `c` belongs to the 16-symbol instruction alphabet.
pub open spec fn is_instruction(c: char) -> bool {
    ||| c == '>'
    ||| c == '<'
    ||| c == '+'
    ||| c == '-'
    ||| c == '['
    ||| c == ']'
    ||| c == '.'
    ||| c == ','
    ||| c == '@'
    ||| c == '^'
    ||| c == '*'
    ||| c == '~'
    ||| c == '&'
    ||| c == '#'
    ||| c == '}'
    ||| c == '{'
}

/// The opcode a source character maps to; characters outside the alphabet
/// map to the filler opcode.
pub open spec fn opcode_of(c: char) -> u8 {
    if c == '>' {
        BF_PTR_INC
    } else if c == '<' {
        BF_PTR_DEC
    } else if c == '+' {
        BF_DATA_INC
    } else if c == '-' {
        BF_DATA_DEC
    } else if c == '[' {
        BF_LOOP_OPEN
    } else if c == ']' {
        BF_LOOP_CLOSE
    } else if c == '.' {
        BF_OUTPUT
    } else if c == ',' {
        BF_INPUT
    } else if c == '@' {
        BF_PTR_JUMP
    } else if c == '^' {
        BF_TO_BUF
    } else if c == '*' {
        BF_FROM_BUF
    } else if c == '~' {
        BF_ROTATE
    } else if c == '&' {
        BF_NAND
    } else if c == '#' {
        BF_PAGE_JUMP
    } else if c == '}' {
        BF_PAGE_INC
    } else if c == '{' {
        BF_PAGE_DEC
    } else {
        FIL_CHAR
    }
}

/// Whether `c` belongs to the instruction alphabet.
pub fn is_bf_char(c: &char) -> (r: bool)
    ensures
        r == is_instruction(*c),
{
    let ch = *c;
    ch == '>' || ch == '<' || ch == '+' || ch == '-' || ch == '[' || ch == ']' || ch == '.' || ch
        == ',' || ch == '@' || ch == '^' || ch == '*' || ch == '~' || ch == '&' || ch == '#' || ch
        == '}' || ch == '{'
}

/// Maps a source character to its opcode.
fn char_bf_code(c: &char) -> (r: u8)
    ensures
        r == opcode_of(*c),
{
    match *c {
        '>' => BF_PTR_INC,
        '<' => BF_PTR_DEC,
        '+' => BF_DATA_INC,
        '-' => BF_DATA_DEC,
        '[' => BF_LOOP_OPEN,
        ']' => BF_LOOP_CLOSE,
        '.' => BF_OUTPUT,
        ',' => BF_INPUT,
        '@' => BF_PTR_JUMP,
        '^' => BF_TO_BUF,
        '*' => BF_FROM_BUF,
        '~' => BF_ROTATE,
        '&' => BF_NAND,
        '#' => BF_PAGE_JUMP,
        '}' => BF_PAGE_INC,
        '{' => BF_PAGE_DEC,
        _ => FIL_CHAR,
    }
}

/// Sanitized compilation: every character outside the alphabet is dropped,
/// the rest map to their opcodes in order.
pub open spec fn sanitize_spec(s: Seq<char>) -> Seq<u8>
    decreases s.len(),
{
    if s.len() == 0 {
        Seq::empty()
    } else if is_instruction(s.last()) {
        sanitize_spec(s.drop_last()).push(opcode_of(s.last()))
    } else {
        sanitize_spec(s.drop_last())
    }
}

/// Raw compilation: every character maps to an opcode, unrecognized ones to
/// the filler opcode.
pub open spec fn convert_spec(s: Seq<char>) -> Seq<u8> {
    Seq::new(s.len(), |i: int| opcode_of(s[i]))
}

/// Compiles source text in sanitized mode.
fn sanitize_bf_str(code: &str) -> (prog: Vec<u8>)
    ensures
        prog@ == sanitize_spec(code@),
{
    let n = code.unicode_len();
    let mut prog: Vec<u8> = Vec::new();
    let mut i: usize = 0;
    while i < n
        invariant
            i <= n,
            n == code@.len(),
            prog@ == sanitize_spec(code@.take(i as int)),
        decreases n - i,
    {
        let c = code.get_char(i);
        if is_bf_char(&c) {
            prog.push(char_bf_code(&c));
        }
        proof {
            assert(code@.take(i + 1).drop_last() =~= code@.take(i as int));
            assert(code@.take(i + 1).last() == code@[i as int]);
        }
        i += 1;
    }
    proof {
        assert(code@.take(code@.len() as int) =~= code@);
    }
    prog
}

/// Compiles source text in raw mode, before filler-run compression.
fn convert_bf_str(code: &str) -> (prog: Vec<u8>)
    ensures
        prog@ == convert_spec(code@),
{
    let n = code.unicode_len();
    let mut prog: Vec<u8> = Vec::new();
    let mut i: usize = 0;
    while i < n
        invariant
            i <= n,
            n == code@.len(),
            prog@.len() == i,
            forall|j: int| 0 <= j < i ==> prog@[j] == opcode_of(code@[j]),
        decreases n - i,
    {
        let c = code.get_char(i);
        prog.push(char_bf_code(&c));
        i += 1;
    }
    proof {
        assert(prog@ =~= convert_spec(code@));
    }
    prog
}

/// Whether position `i` starts a maximal run of filler opcodes.
pub open spec fn is_run_start(p: Seq<u8>, i: int) -> bool {
    &&& 0 <= i < p.len()
    &&& p[i] == FIL_CHAR
    &&& (i == 0 || p[i - 1] != FIL_CHAR)
}

/// The position just past the run of filler opcodes beginning at `i` (or `i`
/// itself when none begins there); the program length when the run reaches
/// the end.
pub open spec fn run_end(p: Seq<u8>, i: int) -> int
    decreases p.len() - i,
{
    if i < 0 || i >= p.len() {
        p.len() as int
    } else if p[i] != FIL_CHAR {
        i
    } else {
        run_end(p, i + 1)
    }
}

/// The program after filler-run compression: the first position of every
/// maximal filler run becomes a filler-jump, the rest stay as they are.
pub open spec fn fill_compressed(p: Seq<u8>) -> Seq<u8> {
    Seq::new(
        p.len(),
        |i: int|
            if is_run_start(p, i) {
                FIL_JUMP
            } else {
                p[i]
            },
    )
}

/// The jump entries filler-run compression adds: every run start jumps to
/// the position just past its run.
pub open spec fn fill_jumps(p: Seq<u8>) -> Map<usize, usize> {
    Map::new(|k: usize| is_run_start(p, k as int), |k: usize| run_end(p, k as int) as usize)
}

/// Every position from `i` to the end of its filler run holds a filler
/// opcode, the run's end is past `i`, bounded by the length, and the opcode
/// there (if any) is not filler.
proof fn lemma_run_end_props(p: Seq<u8>, i: int)
    requires
        0 <= i <= p.len(),
    ensures
        i <= run_end(p, i) <= p.len(),
        forall|k: int| i <= k < run_end(p, i) ==> p[k] == FIL_CHAR,
        run_end(p, i) < p.len() ==> p[run_end(p, i)] != FIL_CHAR,
    decreases p.len() - i,
{
    if i < p.len() && p[i] == FIL_CHAR {
        lemma_run_end_props(p, i + 1);
    }
}

/// A scan that saw only filler between `i` and `j`, stopping at the end or
/// at a non-filler opcode, found the run's end.
proof fn lemma_run_end_eq(p: Seq<u8>, i: int, j: int)
    requires
        0 <= i <= j <= p.len(),
        forall|k: int| i <= k < j ==> p[k] == FIL_CHAR,
        j == p.len() || p[j] != FIL_CHAR,
    ensures
        run_end(p, i) == j,
    decreases j - i,
{
    if i < j {
        lemma_run_end_eq(p, i + 1, j);
    }
}

/// Compresses every maximal run of filler opcodes in place: the run's first
/// position becomes a filler-jump whose map entry points just past the run,
/// so raw source carries inert payload without per-byte execution cost.
#[verifier::loop_isolation(false)]
fn add_char_jumps(prog: &mut Vec<u8>) -> (m: HashMap<usize, usize>)
    ensures
        final(prog)@ == fill_compressed(old(prog)@),
        m@ == fill_jumps(old(prog)@),
{
    let ghost orig = old(prog)@;
    let mut m: HashMap<usize, usize> = HashMap::new();
    let mut i: usize = 0;
    while i < prog.len()
        invariant
            i <= orig.len(),
            prog@.len() == orig.len(),
            forall|k: int| i <= k < orig.len() ==> prog@[k] == orig[k],
            forall|k: int| 0 <= k < i ==> prog@[k] == fill_compressed(orig)[k],
            m@ == Map::new(
                |k: usize| (k as int) < i && is_run_start(orig, k as int),
                |k: usize| run_end(orig, k as int) as usize,
            ),
            (0 < i < orig.len() && orig[i as int] == FIL_CHAR) ==> orig[i - 1] != FIL_CHAR,
        decreases orig.len() - i,
    {
        if prog[i] == FIL_CHAR {
            let mut j = i + 1;
            while j < prog.len() && prog[j] == FIL_CHAR
                invariant
                    i < j <= orig.len(),
                    forall|k: int| i <= k < j ==> orig[k] == FIL_CHAR,
                decreases orig.len() - j,
            {
                j += 1;
            }
            proof {
                lemma_run_end_eq(orig, i as int, j as int);
                assert(is_run_start(orig, i as int));
            }
            prog.set(i, FIL_JUMP);
            m.insert(i, j);
            proof {
                assert(m@ =~= Map::new(
                    |k: usize| (k as int) < j && is_run_start(orig, k as int),
                    |k: usize| run_end(orig, k as int) as usize,
                ));
            }
            i = j;
        } else {
            i += 1;
        }
    }
    proof {
        assert(prog@ =~= fill_compressed(orig));
        assert(m@ =~= fill_jumps(orig));
    }
    m
}

/// The left-to-right bracket scan: positions past `i` are still to be
/// processed, `stack` holds the open brackets not yet matched, and `m` the
/// jump entries recorded so far. A close bracket without a partner (or, at
/// the end, an open bracket without one) is the scan's error; otherwise each
/// pair contributes the two one-past jump targets.
pub open spec fn loop_scan(p: Seq<u8>, i: int, stack: Seq<usize>, m: Map<usize, usize>) -> Result<
    Map<usize, usize>,
    VMErrKind,
>
    decreases p.len() - i,
{
    if i < 0 || i >= p.len() {
        if stack.len() == 0 {
            Ok(m)
        } else {
            Err(VMErrKind::UnmatchedLoopParentheses(stack.last()))
        }
    } else if p[i] == BF_LOOP_OPEN {
        loop_scan(p, i + 1, stack.push(i as usize), m)
    } else if p[i] == BF_LOOP_CLOSE {
        if stack.len() == 0 {
            Err(VMErrKind::UnmatchedLoopParentheses(i as usize))
        } else {
            loop_scan(
                p,
                i + 1,
                stack.drop_last(),
                m.insert(i as usize, (stack.last() + 1) as usize).insert(
                    stack.last(),
                    (i + 1) as usize,
                ),
            )
        }
    } else {
        loop_scan(p, i + 1, stack, m)
    }
}

/// The loop jump entries of `p`, merged over the jump entries `m0` already
/// recorded (filler-run compression's, in raw mode).
pub open spec fn loop_jumps(p: Seq<u8>, m0: Map<usize, usize>) -> Result<
    Map<usize, usize>,
    VMErrKind,
> {
    loop_scan(p, 0, Seq::empty(), m0)
}

/// A successful bracket scan keeps every entry it started from (with its
/// target, unless a bracket of its own overwrote it), bounds every target it
/// adds by the program length, and covers every bracket position and every
/// open bracket still on the stack.
proof fn lemma_loop_scan_ok(
    p: Seq<u8>,
    i: int,
    stack: Seq<usize>,
    m0: Map<usize, usize>,
    m: Map<usize, usize>,
)
    requires
        0 <= i <= p.len(),
        loop_scan(p, i, stack, m0) == Ok::<Map<usize, usize>, VMErrKind>(m),
        forall|k: int| 0 <= k < stack.len() ==> (stack[k] as int) < p.len(),
    ensures
        forall|k: usize| m0.contains_key(k) ==> m.contains_key(k),
        forall|k: usize| #[trigger]
            m.contains_key(k) ==> (m0.contains_key(k) && m[k] == m0[k]) || (m[k] as int)
                <= p.len(),
        forall|j: int|
            i <= j < p.len() && (p[j] == BF_LOOP_OPEN || p[j] == BF_LOOP_CLOSE)
                ==> m.contains_key(j as usize),
        forall|k: int| 0 <= k < stack.len() ==> m.contains_key(#[trigger] stack[k]),
    decreases p.len() - i,
{
    if i >= p.len() {
    } else if p[i] == BF_LOOP_OPEN {
        let stack1 = stack.push(i as usize);
        lemma_loop_scan_ok(p, i + 1, stack1, m0, m);
        assert forall|k: int| 0 <= k < stack.len() implies m.contains_key(
            #[trigger] stack[k],
        ) by {
            assert(stack[k] == stack1[k]);
            assert(m.contains_key(stack1[k]));
        }
    } else if p[i] == BF_LOOP_CLOSE {
        let m1 = m0.insert(i as usize, (stack.last() + 1) as usize).insert(
            stack.last(),
            (i + 1) as usize,
        );
        let stack1 = stack.drop_last();
        lemma_loop_scan_ok(p, i + 1, stack1, m1, m);
        assert forall|k: int| 0 <= k < stack.len() implies m.contains_key(
            #[trigger] stack[k],
        ) by {
            if k < stack.len() - 1 {
                assert(stack[k] == stack1[k]);
                assert(m.contains_key(stack1[k]));
            } else {
                assert(m1.contains_key(stack.last()));
            }
        }
        assert forall|k: usize| #[trigger] m.contains_key(k) implies (m0.contains_key(k) && m[k]
            == m0[k]) || (m[k] as int) <= p.len() by {
            if m1.contains_key(k) && m[k] == m1[k] {
                if k == stack.last() || k == i as usize {
                    assert((m1[k] as int) <= p.len());
                } else {
                    assert(m0.contains_key(k) && m1[k] == m0[k]);
                }
            }
        }
    } else {
        lemma_loop_scan_ok(p, i + 1, stack, m0, m);
    }
}

/// Records the loop jump targets of `prog` into `jump_map` by a single
/// left-to-right scan with an explicit stack of open brackets: each close
/// bracket maps to one past its open partner and that partner to one past
/// the close. Fails with `UnmatchedLoopParentheses` at the offending
/// position exactly when a bracket has no partner.
#[verifier::loop_isolation(false)]
fn create_jump_map(prog: &Vec<u8>, jump_map: &mut HashMap<usize, usize>) -> (r: Result<
    (),
    VMErrKind,
>)
    ensures
        match loop_jumps(prog@, old(jump_map)@) {
            Ok(m) => r == Ok::<(), VMErrKind>(()) && final(jump_map)@ == m,
            Err(e) => r == Err::<(), VMErrKind>(e),
        },
{
    let mut back_stack: Vec<usize> = Vec::new();
    let mut i: usize = 0;
    while i < prog.len()
        invariant
            i <= prog@.len(),
            loop_scan(prog@, i as int, back_stack@, jump_map@) == loop_jumps(
                prog@,
                old(jump_map)@,
            ),
            forall|k: int| 0 <= k < back_stack@.len() ==> (back_stack@[k] as int) < i,
        decreases prog@.len() - i,
    {
        let c = prog[i];
        if c == BF_LOOP_OPEN {
            back_stack.push(i);
        } else if c == BF_LOOP_CLOSE {
            match back_stack.pop() {
                Some(ind) => {
                    jump_map.insert(i, ind + 1);
                    jump_map.insert(ind, i + 1);
                },
                None => {
                    return Err(VMErrKind::UnmatchedLoopParentheses(i));
                },
            }
        }
        i += 1;
    }
    match back_stack.pop() {
        Some(ind) => Err(VMErrKind::UnmatchedLoopParentheses(ind)),
        None => Ok(()),
    }
}

/// Every opcode sanitized compilation emits is in the instruction alphabet,
/// below the filler opcode.
proof fn lemma_sanitize_codes(s: Seq<char>)
    ensures
        forall|k: int| 0 <= k < sanitize_spec(s).len() ==> #[trigger] sanitize_spec(s)[k]
            < FIL_CHAR,
    decreases s.len(),
{
    if s.len() > 0 {
        lemma_sanitize_codes(s.drop_last());
        assert forall|k: int| 0 <= k < sanitize_spec(s).len() implies #[trigger] sanitize_spec(
            s,
        )[k] < FIL_CHAR by {
            if is_instruction(s.last()) {
                if k < sanitize_spec(s).len() - 1 {
                    assert(sanitize_spec(s)[k] == sanitize_spec(s.drop_last())[k]);
                } else {
                    assert(sanitize_spec(s)[k] == opcode_of(s.last()));
                }
            } else {
                assert(sanitize_spec(s)[k] == sanitize_spec(s.drop_last())[k]);
            }
        }
    }
}

/// Whether an opcode transfers control through the jump map.
pub open spec fn is_jump_code(c: u8) -> bool {
    c == BF_LOOP_OPEN || c == BF_LOOP_CLOSE || c == FIL_JUMP
}

/// The current cell rotated right by one bit: bit 0 moves to bit 15.
pub open spec fn rot_r(v: u16) -> u16 {
    (v >> 1u16) | ((v & 1u16) << 15u16)
}

/// The bitwise NAND of the current cell and the buffer register.
pub open spec fn nand(v: u16, b: u16) -> u16 {
    !(v & b)
}

/// A cell rotated left by one bit: bit 15 moves to bit 0; the inverse of
/// [`rot_r`].
pub open spec fn rot_l(v: u16) -> u16 {
    (v << 1u16) | (v >> 15u16)
}

/// Rotating right and then left (or left and then right) returns to the
/// original cell value, for every 16-bit value.
pub proof fn lemma_rotate_round_trip(v: u16)
    ensures
        rot_l(rot_r(v)) == v,
        rot_r(rot_l(v)) == v,
{
    assert(((((v >> 1u16) | ((v & 1u16) << 15u16)) << 1u16) | (((v >> 1u16) | ((v & 1u16)
        << 15u16)) >> 15u16)) == v) by (bit_vector);
    assert(((((v << 1u16) | (v >> 15u16)) >> 1u16) | ((((v << 1u16) | (v >> 15u16)) & 1u16)
        << 15u16)) == v) by (bit_vector);
}

/// Rotation is a bijection on 16-bit cell values: equal rotations come from
/// equal values.
pub proof fn lemma_rotate_bijective(a: u16, b: u16)
    requires
        rot_r(a) == rot_r(b),
    ensures
        a == b,
{
    lemma_rotate_round_trip(a);
    lemma_rotate_round_trip(b);
}

/// The mathematical model of a [`BFVM`]: the compiled program, its jump map,
/// the instruction pointer, the buffer register, and the models of the owned
/// data tape and peripheral bus.
#[verifier::ext_equal]
pub struct VmView<P> {
    /// The compiled program, one opcode per instruction slot.
    pub prog: Seq<u8>,
    /// The control-transfer targets of every bracket and filler-jump opcode.
    pub jumps: Map<usize, usize>,
    /// The model of the owned data tape.
    pub tape: TapeView,
    /// The model of the peripheral bus.
    pub bus: BusView<P>,
    /// The instruction pointer; the machine halts once it reaches the
    /// program length.
    pub ip: int,
    /// The buffer register: the scratch value used for peripheral addressing
    /// and the bitwise NAND.
    pub buffer: u16,
}

impl<P> VmView<P> {
    /// Whether execution has run past the last instruction.
    pub open spec fn halted(self) -> bool {
        self.ip >= self.prog.len()
    }

    /// Structural facts every constructed machine satisfies: the tape is
    /// well formed, the instruction pointer never leaves the program (plus
    /// one), every opcode is defined, and every control-transfer opcode has
    /// a jump entry landing inside the program (or just past it).
    pub open spec fn wf(self) -> bool {
        &&& self.tape.wf()
        &&& 0 <= self.ip <= self.prog.len()
        &&& forall|k: int| 0 <= k < self.prog.len() ==> #[trigger] self.prog[k] <= FIL_JUMP
        &&& forall|k: int|
            0 <= k < self.prog.len() && is_jump_code(#[trigger] self.prog[k]) ==> {
                &&& self.jumps.contains_key(k as usize)
                &&& (self.jumps[k as usize] as int) <= self.prog.len()
            }
    }
}

/// How one single step relates the machine models before (`pre`) and after
/// (`post`) and the step's result: `Ok(false)` exactly on a halted machine,
/// otherwise the effect of the opcode under the instruction pointer, or the
/// error that aborted the step leaving everything else in place. Peripheral
/// opcodes promise only what holds whatever the addressed device or hook
/// returned: the bus layout survives, and an error leaves the machine where
/// it was.
pub open spec fn step_rel<P>(pre: VmView<P>, post: VmView<P>, r: Result<bool, VMErrKind>) -> bool {
    if pre.halted() {
        r == Ok::<bool, VMErrKind>(false) && post == pre
    } else {
        let c = pre.prog[pre.ip];
        let ok = Ok::<bool, VMErrKind>(true);
        let page_err = Err::<bool, VMErrKind>(
            VMErrKind::InvalidPage(pre.tape.page, pre.tape.max_pages),
        );
        if c == BF_PTR_INC {
            r == ok && post == (VmView {
                tape: TapeView { pointer: wrap_inc(pre.tape.pointer), ..pre.tape },
                ip: pre.ip + 1,
                ..pre
            })
        } else if c == BF_PTR_DEC {
            r == ok && post == (VmView {
                tape: TapeView { pointer: wrap_dec(pre.tape.pointer), ..pre.tape },
                ip: pre.ip + 1,
                ..pre
            })
        } else if c == BF_DATA_INC {
            if pre.tape.can_access() {
                r == ok && post == (VmView {
                    tape: pre.tape.write_cell(wrap_inc(pre.tape.read_cell())),
                    ip: pre.ip + 1,
                    ..pre
                })
            } else {
                r == page_err && post == pre
            }
        } else if c == BF_DATA_DEC {
            if pre.tape.can_access() {
                r == ok && post == (VmView {
                    tape: pre.tape.write_cell(wrap_dec(pre.tape.read_cell())),
                    ip: pre.ip + 1,
                    ..pre
                })
            } else {
                r == page_err && post == pre
            }
        } else if c == BF_LOOP_OPEN {
            if pre.tape.can_access() {
                r == ok && post == (VmView {
                    ip: if pre.tape.read_cell() == 0 {
                        pre.jumps[pre.ip as usize] as int
                    } else {
                        pre.ip + 1
                    },
                    ..pre
                })
            } else {
                r == page_err && post == pre
            }
        } else if c == BF_LOOP_CLOSE {
            if pre.tape.can_access() {
                r == ok && post == (VmView {
                    ip: if pre.tape.read_cell() != 0 {
                        pre.jumps[pre.ip as usize] as int
                    } else {
                        pre.ip + 1
                    },
                    ..pre
                })
            } else {
                r == page_err && post == pre
            }
        } else if c == BF_OUTPUT {
            if !pre.tape.can_access() {
                r == page_err && post == pre
            } else if !pre.bus.owns_write(pre.buffer) {
                r == Err::<bool, VMErrKind>(VMErrKind::InvalidPeripheralTapeAccess(pre.buffer))
                    && post == pre
            } else {
                &&& post.prog == pre.prog
                &&& post.jumps == pre.jumps
                &&& post.tape == pre.tape
                &&& post.buffer == pre.buffer
                &&& same_bus_layout(pre.bus, post.bus)
                &&& r == ok || r is Err
                &&& r == ok ==> post.ip == pre.ip + 1
                &&& r is Err ==> post.ip == pre.ip
            }
        } else if c == BF_INPUT {
            if !pre.bus.owns_read(pre.buffer) {
                r == Err::<bool, VMErrKind>(VMErrKind::InvalidPeripheralTapeAccess(pre.buffer))
                    && post == pre
            } else {
                &&& post.prog == pre.prog
                &&& post.jumps == pre.jumps
                &&& post.buffer == pre.buffer
                &&& same_bus_layout(pre.bus, post.bus)
                &&& r == ok || r is Err
                &&& r == ok ==> pre.tape.can_access() && post.ip == pre.ip + 1 && (exists|v: u16|
                    post.tape == pre.tape.write_cell(v))
                &&& r is Err ==> post.ip == pre.ip && post.tape == pre.tape
            }
        } else if c == BF_PTR_JUMP {
            if pre.tape.can_access() {
                r == ok && post == (VmView {
                    tape: TapeView { pointer: pre.tape.read_cell(), ..pre.tape },
                    ip: pre.ip + 1,
                    ..pre
                })
            } else {
                r == page_err && post == pre
            }
        } else if c == BF_TO_BUF {
            if pre.tape.can_access() {
                r == ok && post == (VmView {
                    buffer: pre.tape.read_cell(),
                    ip: pre.ip + 1,
                    ..pre
                })
            } else {
                r == page_err && post == pre
            }
        } else if c == BF_FROM_BUF {
            if pre.tape.can_access() {
                r == ok && post == (VmView {
                    tape: pre.tape.write_cell(pre.buffer),
                    ip: pre.ip + 1,
                    ..pre
                })
            } else {
                r == page_err && post == pre
            }
        } else if c == BF_ROTATE {
            if pre.tape.can_access() {
                r == ok && post == (VmView {
                    tape: pre.tape.write_cell(rot_r(pre.tape.read_cell())),
                    ip: pre.ip + 1,
                    ..pre
                })
            } else {
                r == page_err && post == pre
            }
        } else if c == BF_NAND {
            if pre.tape.can_access() {
                r == ok && post == (VmView {
                    tape: pre.tape.write_cell(nand(pre.tape.read_cell(), pre.buffer)),
                    ip: pre.ip + 1,
                    ..pre
                })
            } else {
                r == page_err && post == pre
            }
        } else if c == BF_PAGE_JUMP {
            if pre.tape.can_access() {
                r == ok && post == (VmView {
                    tape: TapeView { page: pre.tape.read_cell(), ..pre.tape },
                    ip: pre.ip + 1,
                    ..pre
                })
            } else {
                r == page_err && post == pre
            }
        } else if c == BF_PAGE_INC {
            r == ok && post == (VmView { tape: next_ws_view(pre.tape), ip: pre.ip + 1, ..pre })
        } else if c == BF_PAGE_DEC {
            r == ok && post == (VmView { tape: prev_ws_view(pre.tape), ip: pre.ip + 1, ..pre })
        } else if c == FIL_JUMP {
            r == ok && post == (VmView { ip: pre.jumps[pre.ip as usize] as int, ..pre })
        } else if c == FIL_CHAR {
            r == ok && post == (VmView { ip: pre.ip + 1, ..pre })
        } else {
            false
        }
    }
}

/// The machine `post` is reachable from `pre` by exactly `n` continuing
/// steps.
pub open spec fn steps_to<P>(pre: VmView<P>, post: VmView<P>, n: nat) -> bool
    decreases n,
{
    if n == 0 {
        post == pre
    } else {
        exists|mid: VmView<P>|
            steps_to(pre, mid, (n - 1) as nat) && step_rel(mid, post, Ok::<bool, VMErrKind>(true))
    }
}

/// The compiled program of `code`: in sanitized mode every character outside
/// the alphabet is dropped, in raw mode it becomes filler and maximal filler
/// runs are compressed into skip jumps.
pub open spec fn compiled_prog(code: Seq<char>, sanitize: bool) -> Seq<u8> {
    if sanitize {
        sanitize_spec(code)
    } else {
        fill_compressed(convert_spec(code))
    }
}

/// The jump entries present before the bracket scan: none in sanitized mode,
/// the filler-run skips in raw mode.
pub open spec fn initial_fill_jumps(code: Seq<char>, sanitize: bool) -> Map<usize, usize> {
    if sanitize {
        Map::empty()
    } else {
        fill_jumps(convert_spec(code))
    }
}

/// The complete jump map of the compiled program, or the bracket-scan error.
pub open spec fn vm_jump_result(code: Seq<char>, sanitize: bool) -> Result<
    Map<usize, usize>,
    VMErrKind,
> {
    loop_jumps(compiled_prog(code, sanitize), initial_fill_jumps(code, sanitize))
}

/// The virtual machine: the compiled program and its precomputed jump map,
/// the owned data tape and peripheral bus, the instruction pointer and the
/// buffer register.
pub struct BFVM<P: BFPeripheral> {
    prog: Vec<u8>,
    jump_map: HashMap<usize, usize>,
    data_tape: DataTape,
    peripheral_tape: PeripheralTape<P>,
    pointer: usize,
    buffer: u16,
}

impl<P: BFPeripheral> View for BFVM<P> {
    type V = VmView<P>;

    closed spec fn view(&self) -> VmView<P> {
        VmView {
            prog: self.prog@,
            jumps: self.jump_map@,
            tape: self.data_tape@,
            bus: self.peripheral_tape@,
            ip: self.pointer as int,
            buffer: self.buffer,
        }
    }
}

impl<P: BFPeripheral> BFVM<P> {
    /// The machine's invariant: its model is well formed and the owned tape
    /// keeps its representation invariant.
    pub closed spec fn wf(&self) -> bool {
        &&& self.data_tape.inv()
        &&& self@.wf()
    }

    /// A well-formed machine has a well-formed model.
    pub proof fn lemma_wf_view(&self)
        requires
            self.wf(),
        ensures
            self@.wf(),
    {
    }

    /// Compiles `code` and builds a ready-to-run machine over the given bus,
    /// with the page limit, the compilation mode, and the workspace count,
    /// or reports the bracket-scan error and builds nothing.
    pub fn new_with_workspaces(
        code: &str,
        peripheral_tape: PeripheralTape<P>,
        max_pages: u32,
        sanitize: bool,
        num_workspaces: usize,
    ) -> (r: Result<BFVM<P>, VMErrKind>)
        ensures
            match vm_jump_result(code@, sanitize) {
                Ok(m) => r matches Ok(vm) && vm.wf() && vm@ == (VmView {
                    prog: compiled_prog(code@, sanitize),
                    jumps: m,
                    tape: empty_tape_view(max_pages, num_workspaces as int),
                    bus: peripheral_tape@,
                    ip: 0,
                    buffer: 0,
                }),
                Err(e) => r == Err::<BFVM<P>, VMErrKind>(e),
            },
    {
        let mut jump_map: HashMap<usize, usize> = HashMap::new();
        let prog: Vec<u8>;
        if sanitize {
            prog = sanitize_bf_str(code);
        } else {
            let mut p = convert_bf_str(code);
            jump_map = add_char_jumps(&mut p);
            prog = p;
        }
        proof {
            assert(jump_map@ =~= initial_fill_jumps(code@, sanitize));
        }
        let ghost m0 = jump_map@;
        match create_jump_map(&prog, &mut jump_map) {
            Ok(_) => {},
            Err(e) => {
                return Err(e);
            },
        }
        let vm = BFVM {
            prog,
            jump_map,
            data_tape: DataTape::new_with_workspaces(max_pages, num_workspaces),
            peripheral_tape,
            pointer: 0,
            buffer: 0,
        };
        proof {
            let p = vm.prog@;
            let m = vm.jump_map@;
            let conv = convert_spec(code@);
            assert(vm.prog.len() == p.len());
            if sanitize {
                lemma_sanitize_codes(code@);
            } else {
                assert forall|k: usize| #[trigger] m0.contains_key(k) implies (m0[k] as int)
                    <= p.len() by {
                    lemma_run_end_props(conv, k as int);
                }
            }
            assert forall|k: int| 0 <= k < p.len() implies #[trigger] p[k] <= FIL_JUMP by {
                if !sanitize && !is_run_start(conv, k) {
                    assert(p[k] == opcode_of(code@[k]));
                }
            }
            lemma_loop_scan_ok(p, 0, Seq::empty(), m0, m);
            assert forall|k: int|
                0 <= k < p.len() && is_jump_code(#[trigger] p[k]) implies m.contains_key(k as usize)
                && (m[k as usize] as int) <= p.len() by {
                if p[k] == FIL_JUMP {
                    assert(!sanitize && is_run_start(conv, k)) by {
                        if sanitize {
                            assert(p[k] < FIL_CHAR);
                        } else if !is_run_start(conv, k) {
                            assert(p[k] == opcode_of(code@[k]));
                        }
                    }
                    assert((k as usize) as int == k);
                    assert(is_run_start(conv, (k as usize) as int));
                    assert(fill_jumps(conv).contains_key(k as usize));
                    assert(m0.contains_key(k as usize));
                }
                if m0.contains_key(k as usize) {
                    assert((m0[k as usize] as int) <= p.len());
                }
            }
            assert(vm@ =~= VmView {
                prog: compiled_prog(code@, sanitize),
                jumps: m,
                tape: empty_tape_view(max_pages, num_workspaces as int),
                bus: peripheral_tape@,
                ip: 0,
                buffer: 0,
            });
        }
        Ok(vm)
    }

    /// Compiles `code` and builds a machine with no workspace pages.
    pub fn new(
        code: &str,
        peripheral_tape: PeripheralTape<P>,
        max_pages: u32,
        sanitize: bool,
    ) -> (r: Result<BFVM<P>, VMErrKind>)
        ensures
            match vm_jump_result(code@, sanitize) {
                Ok(m) => r matches Ok(vm) && vm.wf() && vm@ == (VmView {
                    prog: compiled_prog(code@, sanitize),
                    jumps: m,
                    tape: empty_tape_view(max_pages, 0),
                    bus: peripheral_tape@,
                    ip: 0,
                    buffer: 0,
                }),
                Err(e) => r == Err::<BFVM<P>, VMErrKind>(e),
            },
    {
        BFVM::new_with_workspaces(code, peripheral_tape, max_pages, sanitize, 0)
    }

    /// Borrows the owned peripheral bus, letting the embedder inspect its
    /// devices between runs.
    pub fn peripherals(&self) -> (r: &PeripheralTape<P>)
        ensures
            r@ == self@.bus,
    {
        &self.peripheral_tape
    }

    /// The control-transfer target of the opcode under the instruction
    /// pointer; well-formedness guarantees the entry exists.
    fn jump_target(&self) -> (t: usize)
        requires
            self.wf(),
            self@.ip < self@.prog.len(),
            is_jump_code(self@.prog[self@.ip]),
        ensures
            t == self@.jumps[self@.ip as usize],
            t <= self@.prog.len(),
    {
        match self.jump_map.get(&self.pointer) {
            Some(t) => *t,
            None => unreached(),
        }
    }

    /// Executes one instruction: reports `Ok(false)` once the instruction
    /// pointer has run past the program, otherwise performs the opcode under
    /// it exactly as [`step_rel`] states — every tape or bus failure aborts
    /// the step, leaves the machine in place, and is propagated verbatim.
    pub fn next(&mut self) -> (r: Result<bool, VMErrKind>)
        requires
            old(self).wf(),
        ensures
            final(self).wf(),
            step_rel(old(self)@, final(self)@, r),
    {
        if self.pointer >= self.prog.len() {
            return Ok(false);
        }
        let code = self.prog[self.pointer];
        if code == BF_PTR_INC {
            let p = self.data_tape.get_pointer();
            self.data_tape.set_pointer(p.wrapping_add(1));
            self.pointer += 1;
            Ok(true)
        } else if code == BF_PTR_DEC {
            let p = self.data_tape.get_pointer();
            self.data_tape.set_pointer(p.wrapping_sub(1));
            self.pointer += 1;
            Ok(true)
        } else if code == BF_DATA_INC {
            let val = match self.data_tape.get_value() {
                Ok(v) => v,
                Err(e) => {
                    return Err(e);
                },
            };
            match self.data_tape.set_value(val.wrapping_add(1)) {
                Ok(_) => {},
                Err(e) => {
                    return Err(e);
                },
            }
            self.pointer += 1;
            Ok(true)
        } else if code == BF_DATA_DEC {
            let val = match self.data_tape.get_value() {
                Ok(v) => v,
                Err(e) => {
                    return Err(e);
                },
            };
            match self.data_tape.set_value(val.wrapping_sub(1)) {
                Ok(_) => {},
                Err(e) => {
                    return Err(e);
                },
            }
            self.pointer += 1;
            Ok(true)
        } else if code == BF_LOOP_OPEN {
            let val = match self.data_tape.get_value() {
                Ok(v) => v,
                Err(e) => {
                    return Err(e);
                },
            };
            if val == 0 {
                self.pointer = self.jump_target();
            } else {
                self.pointer += 1;
            }
            Ok(true)
        } else if code == BF_LOOP_CLOSE {
            let val = match self.data_tape.get_value() {
                Ok(v) => v,
                Err(e) => {
                    return Err(e);
                },
            };
            if val != 0 {
                self.pointer = self.jump_target();
            } else {
                self.pointer += 1;
            }
            Ok(true)
        } else if code == BF_OUTPUT {
            let val = match self.data_tape.get_value() {
                Ok(v) => v,
                Err(e) => {
                    return Err(e);
                },
            };
            match self.peripheral_tape.write(val, self.buffer) {
                Ok(_) => {
                    self.pointer += 1;
                    Ok(true)
                },
                Err(e) => Err(e),
            }
        } else if code == BF_INPUT {
            let ret = match self.peripheral_tape.read(self.buffer) {
                Ok(v) => v,
                Err(e) => {
                    return Err(e);
                },
            };
            match self.data_tape.set_value(ret) {
                Ok(_) => {},
                Err(e) => {
                    return Err(e);
                },
            }
            self.pointer += 1;
            proof {
                assert(self@.tape == old(self)@.tape.write_cell(ret));
            }
            Ok(true)
        } else if code == BF_PTR_JUMP {
            let point = match self.data_tape.get_value() {
                Ok(v) => v,
                Err(e) => {
                    return Err(e);
                },
            };
            self.data_tape.set_pointer(point);
            self.pointer += 1;
            Ok(true)
        } else if code == BF_TO_BUF {
            let val = match self.data_tape.get_value() {
                Ok(v) => v,
                Err(e) => {
                    return Err(e);
                },
            };
            self.buffer = val;
            self.pointer += 1;
            Ok(true)
        } else if code == BF_FROM_BUF {
            match self.data_tape.set_value(self.buffer) {
                Ok(_) => {},
                Err(e) => {
                    return Err(e);
                },
            }
            self.pointer += 1;
            Ok(true)
        } else if code == BF_ROTATE {
            let val = match self.data_tape.get_value() {
                Ok(v) => v,
                Err(e) => {
                    return Err(e);
                },
            };
            match self.data_tape.set_value((val >> 1u16) | ((val & 1u16) << 15u16)) {
                Ok(_) => {},
                Err(e) => {
                    return Err(e);
                },
            }
            self.pointer += 1;
            Ok(true)
        } else if code == BF_NAND {
            let val = match self.data_tape.get_value() {
                Ok(v) => v,
                Err(e) => {
                    return Err(e);
                },
            };
            match self.data_tape.set_value(!(val & self.buffer)) {
                Ok(_) => {},
                Err(e) => {
                    return Err(e);
                },
            }
            self.pointer += 1;
            Ok(true)
        } else if code == BF_PAGE_JUMP {
            let page = match self.data_tape.get_value() {
                Ok(v) => v,
                Err(e) => {
                    return Err(e);
                },
            };
            self.data_tape.set_page(page);
            self.pointer += 1;
            Ok(true)
        } else if code == BF_PAGE_INC {
            self.data_tape.next_workspace();
            self.pointer += 1;
            Ok(true)
        } else if code == BF_PAGE_DEC {
            self.data_tape.prev_workspace();
            self.pointer += 1;
            Ok(true)
        } else if code == FIL_JUMP {
            self.pointer = self.jump_target();
            Ok(true)
        } else if code == FIL_CHAR {
            self.pointer += 1;
            Ok(true)
        } else {
            // well-formedness leaves no opcode beyond the filler jump
            unreached()
        }
    }

    /// Steps the machine at most `cycles` times (the count must be
    /// positive: an unbounded run is the embedder's loop over [`BFVM::next`]),
    /// stopping early once it halts, and aborting on the first error, which
    /// is propagated verbatim; partial execution resumes by calling again.
    #[verifier::loop_isolation(false)]
    pub fn run_for(&mut self, cycles: u32) -> (r: Result<(), VMErrKind>)
        requires
            old(self).wf(),
            cycles >= 1,
        ensures
            final(self).wf(),
            match r {
                Ok(u) => exists|n: nat|
                    {
                        &&& n <= cycles
                        &&& #[trigger] steps_to(old(self)@, final(self)@, n)
                        &&& final(self)@.halted() || n == cycles
                    },
                Err(e) => exists|n: nat, mid: VmView<P>|
                    {
                        &&& n < cycles
                        &&& #[trigger] steps_to(old(self)@, mid, n)
                        &&& step_rel(mid, final(self)@, Err::<bool, VMErrKind>(e))
                    },
            },
    {
        let mut left = cycles;
        let ghost mut done: nat = 0nat;
        while left > 0
            invariant
                self.wf(),
                left <= cycles,
                done == cycles - left,
                steps_to(old(self)@, self@, done),
            decreases left,
        {
            let ghost pre = self@;
            let cont = match self.next() {
                Ok(c) => c,
                Err(e) => {
                    proof {
                        assert(steps_to(old(self)@, pre, done) && step_rel(
                            pre,
                            self@,
                            Err::<bool, VMErrKind>(e),
                        ));
                    }
                    return Err(e);
                },
            };
            if !cont {
                return Ok(());
            }
            proof {
                assert(steps_to(old(self)@, pre, done) && step_rel(
                    pre,
                    self@,
                    Ok::<bool, VMErrKind>(true),
                ));
                done = done + 1;
                assert(steps_to(old(self)@, self@, done));
            }
            left -= 1;
        }
        Ok(())
    }
}

} // verus!
