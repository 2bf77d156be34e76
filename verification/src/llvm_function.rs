//! LLVM IR function builder.
//!
//! A function owns an ordered list of basic blocks, a counter for block
//! labels, a counter for SSA registers shared by everything it allocates,
//! and a list of `alloca` instructions hoisted to the top of its entry block.
//! `to_ir` serialises it as an LLVM `define`.

use vstd::prelude::*;
use vstd::string::*;
use crate::text::{
    push_char, push_decimal, decimal, is_digit, lemma_decimal_round_trip, lemma_decimal_injective,
};

verus! {

/// The LLVM types the code generator uses.
#[derive(Clone, Copy, PartialEq, Eq, Structural)]
pub enum LlvmType {
    Void,
    I1,
    I8,
    I32,
    I64,
    Double,
    Ptr,
}

/// The textual name of an LLVM type.
pub open spec fn type_text(t: LlvmType) -> Seq<char> {
    match t {
        LlvmType::Void => seq!['v', 'o', 'i', 'd'],
        LlvmType::I1 => seq!['i', '1'],
        LlvmType::I8 => seq!['i', '8'],
        LlvmType::I32 => seq!['i', '3', '2'],
        LlvmType::I64 => seq!['i', '6', '4'],
        LlvmType::Double => seq!['d', 'o', 'u', 'b', 'l', 'e'],
        LlvmType::Ptr => seq!['p', 't', 'r'],
    }
}

/// Appends `s` to `out`.
pub fn push_str(out: &mut String, s: &str)
    ensures
        final(out)@ == old(out)@ + s@,
{
    out.append(s);
}

/// Appends the textual name of `t` to `out`.
pub fn push_type(out: &mut String, t: LlvmType)
    ensures
        final(out)@ == old(out)@ + type_text(t),
{
    match t {
        LlvmType::Void => {
            push_char(out, 'v');
            push_char(out, 'o');
            push_char(out, 'i');
            push_char(out, 'd');
        },
        LlvmType::I1 => {
            push_char(out, 'i');
            push_char(out, '1');
        },
        LlvmType::I8 => {
            push_char(out, 'i');
            push_char(out, '8');
        },
        LlvmType::I32 => {
            push_char(out, 'i');
            push_char(out, '3');
            push_char(out, '2');
        },
        LlvmType::I64 => {
            push_char(out, 'i');
            push_char(out, '6');
            push_char(out, '4');
        },
        LlvmType::Double => {
            let ghost o = out@;
            push_str(out, "double");
            proof {
                reveal_strlit("double");
            }
            assert(out@ =~= o + type_text(t));
        },
        LlvmType::Ptr => {
            push_char(out, 'p');
            push_char(out, 't');
            push_char(out, 'r');
        },
    }
}


/// A basic block: a label and its instructions, one per line.
pub struct LlBlock {
    pub label: String,
    pub instructions: Vec<String>,
}

/// The text of a list of instructions: each indented by two spaces and
/// ended by a newline.
pub open spec fn instructions_text(insts: Seq<String>) -> Seq<char>
    decreases insts.len(),
{
    if insts.len() == 0 {
        Seq::empty()
    } else {
        instructions_text(insts.drop_last()) + seq![' ', ' '] + insts.last()@ + seq!['\n']
    }
}

/// The text of a block: `"<label>:\n"` followed by its instructions.
pub open spec fn block_text(b: LlBlock) -> Seq<char> {
    b.label@ + seq![':', '\n'] + instructions_text(b.instructions@)
}

impl LlBlock {
    /// A block with the given label and no instructions.
    pub fn new(label: String) -> (b: LlBlock)
        ensures
            b.label == label,
            b.instructions@.len() == 0,
    {
        LlBlock { label, instructions: Vec::new() }
    }

    /// Appends one instruction line (without indentation).
    pub fn push_instruction(&mut self, inst: String)
        ensures
            final(self).label == old(self).label,
            final(self).instructions@ == old(self).instructions@.push(inst),
    {
        self.instructions.push(inst);
    }

    /// The block serialised as `"<label>:\n  <inst>\n..."`.
    pub fn to_ir(&self) -> (s: String)
        ensures
            s@ == block_text(*self),
    {
        let mut s = self.label.clone();
        push_char(&mut s, ':');
        push_char(&mut s, '\n');
        push_instructions(&mut s, &self.instructions);
        s
    }
}

/// Appends the text of a list of instructions.
fn push_instructions(s: &mut String, insts: &Vec<String>)
    ensures
        final(s)@ == old(s)@ + instructions_text(insts@),
{
    let ghost s0 = s@;
    let n = insts.len();
    let mut i: usize = 0;
    while i < n
        invariant
            n == insts@.len(),
            i <= n,
            s@ == s0 + instructions_text(insts@.take(i as int)),
        decreases n - i,
    {
        push_char(s, ' ');
        push_char(s, ' ');
        push_str(s, insts[i].as_str());
        push_char(s, '\n');
        assert(insts@.take(i + 1).drop_last() =~= insts@.take(i as int));
        i = i + 1;
    }
    assert(insts@.take(n as int) =~= insts@);
}


/// The name of SSA register number `n`: `%r<n>`.
pub open spec fn reg_name(n: nat) -> Seq<char> {
    seq!['%', 'r'] + decimal(n)
}

/// The hoisted instruction that allocates register `n` with type `t`.
pub open spec fn alloca_line(n: nat, t: LlvmType) -> Seq<char> {
    seq![' ', ' '] + reg_name(n) + seq![' ', '=', ' ', 'a', 'l', 'l', 'o', 'c', 'a', ' '] + type_text(t)
}

/// The label of the block created with `name` when `count` blocks were
/// created before it: `<name>.<count>`.
pub open spec fn block_label(name: Seq<char>, count: nat) -> Seq<char> {
    name + seq!['.'] + decimal(count)
}

/// One parameter: `<type> <name>`.
pub open spec fn param_text(p: (LlvmType, String)) -> Seq<char> {
    type_text(p.0) + seq![' '] + p.1@
}

/// The parameters joined by `", "`.
pub open spec fn params_text(ps: Seq<(LlvmType, String)>) -> Seq<char>
    decreases ps.len(),
{
    if ps.len() == 0 {
        Seq::empty()
    } else if ps.len() == 1 {
        param_text(ps[0])
    } else {
        params_text(ps.drop_last()) + seq![',', ' '] + param_text(ps.last())
    }
}

/// Each line followed by a newline.
pub open spec fn lines_text(lines: Seq<Seq<char>>) -> Seq<char>
    decreases lines.len(),
{
    if lines.len() == 0 {
        Seq::empty()
    } else {
        lines_text(lines.drop_last()) + lines.last() + seq!['\n']
    }
}

/// `k` is the position of the first newline in `s`.
pub open spec fn is_first_newline(s: Seq<char>, k: int) -> bool {
    &&& 0 <= k < s.len()
    &&& s[k] == '\n'
    &&& forall|j: int| 0 <= j < k ==> s[j] != '\n'
}

/// The entry block with the hoisted allocas spliced in right after its
/// label line.
pub open spec fn entry_block_text(b: LlBlock, allocas: Seq<Seq<char>>) -> Seq<char> {
    let body = block_text(b);
    if exists|k: int| is_first_newline(body, k) {
        let k = choose|k: int| is_first_newline(body, k);
        body.take(k + 1) + lines_text(allocas) + body.skip(k + 1)
    } else {
        body
    }
}

/// The first newline of `s`, if any.
fn find_newline(s: &str) -> (r: Option<usize>)
    ensures
        r matches Some(k) ==> is_first_newline(s@, k as int),
        r is None ==> forall|j: int| 0 <= j < s@.len() ==> s@[j] != '\n',
{
    let n = s.unicode_len();
    let mut i: usize = 0;
    while i < n
        invariant
            n == s@.len(),
            i <= n,
            forall|j: int| 0 <= j < i ==> s@[j] != '\n',
        decreases n - i,
    {
        if s.get_char(i) == '\n' {
            return Some(i);
        }
        i = i + 1;
    }
    None
}

proof fn lemma_first_newline_unique(s: Seq<char>, a: int, b: int)
    requires
        is_first_newline(s, a),
        is_first_newline(s, b),
    ensures
        a == b,
{
    if a < b {
        assert(s[a] != '\n');
    } else if b < a {
        assert(s[b] != '\n');
    }
}

/// Appends each line followed by a newline.
fn push_lines(s: &mut String, lines: &Vec<String>)
    ensures
        final(s)@ == old(s)@ + lines_text(lines@.map_values(|l: String| l@)),
{
    let ghost s0 = s@;
    let ghost ls = lines@.map_values(|l: String| l@);
    let n = lines.len();
    let mut i: usize = 0;
    while i < n
        invariant
            n == lines@.len(),
            ls == lines@.map_values(|l: String| l@),
            i <= n,
            s@ == s0 + lines_text(ls.take(i as int)),
        decreases n - i,
    {
        push_str(s, lines[i].as_str());
        push_char(s, '\n');
        assert(ls.take(i + 1).drop_last() =~= ls.take(i as int));
        i = i + 1;
    }
    assert(ls.take(n as int) =~= ls);
}

/// Appends the entry block with the hoisted allocas spliced in after its
/// label line.
fn push_entry_block(s: &mut String, b: &LlBlock, allocas: &Vec<String>)
    ensures
        final(s)@ == old(s)@ + entry_block_text(*b, allocas@.map_values(|l: String| l@)),
{
    let ghost s0 = s@;
    let ghost body = block_text(*b);
    let ghost insts = instructions_text(b.instructions@);
    let ghost al = lines_text(allocas@.map_values(|l: String| l@));
    let label = b.label.as_str();
    match find_newline(label) {
        Some(p) => {
            let n = label.unicode_len();
            push_str(s, label.substring_char(0, p + 1));
            push_lines(s, allocas);
            push_str(s, label.substring_char(p + 1, n));
            push_char(s, ':');
            push_char(s, '\n');
            push_instructions(s, &b.instructions);
            proof {
                assert(body[p as int] == label@[p as int]);
                assert forall|j: int| 0 <= j < p implies body[j] != '\n' by {
                    assert(body[j] == label@[j]);
                }
                assert(is_first_newline(body, p as int));
                let k = choose|k: int| is_first_newline(body, k);
                lemma_first_newline_unique(body, k, p as int);
                assert(body.take(p + 1) =~= label@.subrange(0, p + 1));
                assert(body.skip(p + 1) =~= label@.subrange(p + 1, n as int) + seq![':', '\n'] + insts);
                assert(s@ =~= s0 + entry_block_text(*b, allocas@.map_values(|l: String| l@)));
            }
        },
        None => {
            push_str(s, label);
            push_char(s, ':');
            push_char(s, '\n');
            push_lines(s, allocas);
            push_instructions(s, &b.instructions);
            proof {
                let p: int = label@.len() as int + 1;
                assert(body[p] == '\n');
                assert forall|j: int| 0 <= j < p implies body[j] != '\n' by {
                    if j < label@.len() {
                        assert(body[j] == label@[j]);
                    }
                }
                assert(is_first_newline(body, p));
                let k = choose|k: int| is_first_newline(body, k);
                lemma_first_newline_unique(body, k, p);
                assert(body.take(p + 1) =~= label@ + seq![':', '\n']);
                assert(body.skip(p + 1) =~= insts);
                assert(s@ =~= s0 + entry_block_text(*b, allocas@.map_values(|l: String| l@)));
            }
        },
    }
}

pub struct LlFunction {
    pub name: String,
    pub return_type: LlvmType,
    pub params: Vec<(LlvmType, String)>,
    /// Optional LLVM linkage string, e.g. `"internal"` or `"private"`. Empty
    /// string means external (default) linkage.
    pub linkage: String,
    /// When true, the function body contains a `try` statement and the
    /// definition carries the `#1` attribute group (noinline optnone).
    pub has_try: bool,
    /// The basic blocks, in creation order; block 0 is the entry block.
    blocks: Vec<LlBlock>,
    /// How many blocks were created; gives each label a unique suffix.
    block_counter: u32,
    /// The number of the next SSA register.
    reg_counter: u32,
    /// Allocas hoisted to the top of the entry block, already indented.
    entry_allocas: Vec<String>,
}

impl LlFunction {
    pub closed spec fn spec_name(&self) -> Seq<char> {
        self.name@
    }

    pub closed spec fn spec_return_type(&self) -> LlvmType {
        self.return_type
    }

    pub closed spec fn spec_params(&self) -> Seq<(LlvmType, String)> {
        self.params@
    }

    pub closed spec fn spec_linkage(&self) -> Seq<char> {
        self.linkage@
    }

    pub closed spec fn spec_has_try(&self) -> bool {
        self.has_try
    }

    pub closed spec fn spec_blocks(&self) -> Seq<LlBlock> {
        self.blocks@
    }

    pub closed spec fn spec_block_counter(&self) -> nat {
        self.block_counter as nat
    }

    pub closed spec fn spec_reg_counter(&self) -> nat {
        self.reg_counter as nat
    }

    pub closed spec fn spec_entry_allocas(&self) -> Seq<Seq<char>> {
        self.entry_allocas@.map_values(|l: String| l@)
    }

    /// The block counter counts the blocks: every block was made by
    /// `create_block`.
    pub open spec fn wf(&self) -> bool {
        self.spec_block_counter() == self.spec_blocks().len()
    }

    /// Block `i` is labelled `<name>.<i>` for some name: no block was
    /// relabelled since it was created.
    pub open spec fn labels_numbered(&self) -> bool {
        forall|i: int| 0 <= i < self.spec_blocks().len() ==> #[trigger] self.label_numbered(i)
    }

    /// Block `i` is labelled `<name>.<i>` for some name.
    pub open spec fn label_numbered(&self, i: int) -> bool {
        exists|n: Seq<char>| #[trigger] block_label(n, i as nat) == self.spec_blocks()[i].label@
    }

    /// How block `i` is rendered: the entry block carries the hoisted allocas.
    pub open spec fn rendered_block(&self, i: int) -> Seq<char> {
        if i == 0 && self.spec_entry_allocas().len() > 0 {
            entry_block_text(self.spec_blocks()[0], self.spec_entry_allocas())
        } else {
            block_text(self.spec_blocks()[i])
        }
    }

    /// The text of the first `n` blocks, separated by blank lines.
    pub open spec fn blocks_text(&self, n: nat) -> Seq<char>
        decreases n,
    {
        if n == 0 {
            Seq::empty()
        } else {
            let sep: Seq<char> = if n > 1 { seq!['\n'] } else { Seq::empty() };
            self.blocks_text((n - 1) as nat) + sep + self.rendered_block(n - 1) + seq!['\n']
        }
    }

    /// The `define` line:
    /// `define [<linkage> ]<ret> @<name>(<ty> <param>, ...)[ #1] {` and a
    /// newline; the linkage and its space only when the linkage is not
    /// empty, ` #1` only when the function has a `try`.
    pub open spec fn header_text(&self) -> Seq<char> {
        let linkage: Seq<char> = if self.spec_linkage().len() == 0 {
            Seq::empty()
        } else {
            self.spec_linkage() + seq![' ']
        };
        let attrs: Seq<char> = if self.spec_has_try() { seq![' ', '#', '1'] } else { Seq::empty() };
        seq!['d', 'e', 'f', 'i', 'n', 'e', ' '] + linkage + type_text(self.spec_return_type()) + seq![' ', '@']
            + self.spec_name() + seq!['('] + params_text(self.spec_params()) + seq![')'] + attrs + seq![
            ' ',
            '{',
            '\n',
        ]
    }

    /// The whole function as LLVM IR text.
    pub open spec fn ir_text(&self) -> Seq<char> {
        self.header_text() + self.blocks_text(self.spec_blocks().len()) + seq!['}', '\n']
    }

    /// A function with no blocks, default (external) linkage and no `try`.
    pub fn new(name: &str, return_type: LlvmType, params: Vec<(LlvmType, String)>) -> (f: LlFunction)
        ensures
            f.spec_name() == name@,
            f.spec_return_type() == return_type,
            f.spec_params() == params@,
            f.spec_linkage().len() == 0,
            !f.spec_has_try(),
            f.spec_blocks().len() == 0,
            f.spec_block_counter() == 0,
            f.spec_reg_counter() == 0,
            f.spec_entry_allocas().len() == 0,
            f.wf(),
            f.labels_numbered(),
    {
        LlFunction {
            name: String::from_str(name),
            return_type,
            params,
            linkage: String::new(),
            has_try: false,
            blocks: Vec::new(),
            block_counter: 0,
            reg_counter: 0,
            entry_allocas: Vec::new(),
        }
    }

    /// Sets the linkage (`linkage` is public; verified callers set it here).
    pub fn set_linkage(&mut self, linkage: String)
        ensures
            final(self).spec_linkage() == linkage@,
            final(self).spec_name() == old(self).spec_name(),
            final(self).spec_return_type() == old(self).spec_return_type(),
            final(self).spec_params() == old(self).spec_params(),
            final(self).spec_has_try() == old(self).spec_has_try(),
            final(self).spec_blocks() == old(self).spec_blocks(),
            final(self).spec_block_counter() == old(self).spec_block_counter(),
            final(self).spec_reg_counter() == old(self).spec_reg_counter(),
            final(self).spec_entry_allocas() == old(self).spec_entry_allocas(),
    {
        self.linkage = linkage;
    }

    /// Records whether the body has a `try` (`has_try` is public; verified
    /// callers set it here).
    pub fn set_has_try(&mut self, has_try: bool)
        ensures
            final(self).spec_has_try() == has_try,
            final(self).spec_name() == old(self).spec_name(),
            final(self).spec_return_type() == old(self).spec_return_type(),
            final(self).spec_params() == old(self).spec_params(),
            final(self).spec_linkage() == old(self).spec_linkage(),
            final(self).spec_blocks() == old(self).spec_blocks(),
            final(self).spec_block_counter() == old(self).spec_block_counter(),
            final(self).spec_reg_counter() == old(self).spec_reg_counter(),
            final(self).spec_entry_allocas() == old(self).spec_entry_allocas(),
    {
        self.has_try = has_try;
    }

    /// Takes the next SSA register of the function.
    fn next_reg(&mut self) -> (r: u32)
        requires
            old(self).reg_counter < u32::MAX,
        ensures
            r == old(self).reg_counter,
            final(self).reg_counter == old(self).reg_counter + 1,
            final(self).spec_name() == old(self).spec_name(),
            final(self).spec_return_type() == old(self).spec_return_type(),
            final(self).spec_params() == old(self).spec_params(),
            final(self).spec_linkage() == old(self).spec_linkage(),
            final(self).spec_has_try() == old(self).spec_has_try(),
            final(self).blocks == old(self).blocks,
            final(self).block_counter == old(self).block_counter,
            final(self).entry_allocas == old(self).entry_allocas,
    {
        let r = self.reg_counter;
        self.reg_counter = r + 1;
        r
    }

    /// Allocates a fresh stack slot in the entry block and returns its
    /// register name (`%r<n>`). The `alloca` is emitted at the top of the
    /// entry block when the function is serialised.
    pub fn alloca_entry(&mut self, ty: LlvmType) -> (r: String)
        requires
            old(self).spec_reg_counter() < u32::MAX,
        ensures
            r@ == reg_name(old(self).spec_reg_counter()),
            final(self).spec_reg_counter() == old(self).spec_reg_counter() + 1,
            final(self).spec_entry_allocas() == old(self).spec_entry_allocas().push(
                alloca_line(old(self).spec_reg_counter(), ty),
            ),
            final(self).spec_blocks() == old(self).spec_blocks(),
            final(self).spec_block_counter() == old(self).spec_block_counter(),
            final(self).spec_name() == old(self).spec_name(),
            final(self).spec_return_type() == old(self).spec_return_type(),
            final(self).spec_params() == old(self).spec_params(),
            final(self).spec_linkage() == old(self).spec_linkage(),
            final(self).spec_has_try() == old(self).spec_has_try(),
    {
        let n = self.next_reg();
        let mut r = String::new();
        push_char(&mut r, '%');
        push_char(&mut r, 'r');
        push_decimal(&mut r, n as u64);
        let mut line = String::new();
        push_char(&mut line, ' ');
        push_char(&mut line, ' ');
        push_str(&mut line, r.as_str());
        let ghost l0 = line@;
        push_str(&mut line, " = alloca ");
        proof {
            reveal_strlit(" = alloca ");
        }
        push_type(&mut line, ty);
        assert(line@ =~= alloca_line(n as nat, ty));
        self.entry_allocas.push(line);
        assert(self.entry_allocas@.map_values(|l: String| l@) =~= old(self).entry_allocas@.map_values(
            |l: String| l@,
        ).push(alloca_line(n as nat, ty)));
        r
    }

    /// Creates a basic block labelled `<name>.<n>`, where `n` counts the
    /// blocks created before it, and returns it. Its label differs from
    /// those of all earlier blocks, whatever names they were created with.
    pub fn create_block(&mut self, name: &str) -> (b: &mut LlBlock)
        requires
            old(self).wf(),
            old(self).spec_blocks().len() < u32::MAX,
        ensures
            b.label@ == block_label(name@, old(self).spec_blocks().len()),
            b.instructions@.len() == 0,
            final(self).wf(),
            final(self).spec_blocks() == old(self).spec_blocks().push(*final(b)),
            old(self).labels_numbered() ==> forall|i: int|
                0 <= i < old(self).spec_blocks().len() ==> #[trigger] old(self).spec_blocks()[i].label@
                    != b.label@,
            final(self).spec_reg_counter() == old(self).spec_reg_counter(),
            final(self).spec_entry_allocas() == old(self).spec_entry_allocas(),
            final(self).spec_name() == old(self).spec_name(),
            final(self).spec_return_type() == old(self).spec_return_type(),
            final(self).spec_params() == old(self).spec_params(),
            final(self).spec_linkage() == old(self).spec_linkage(),
            final(self).spec_has_try() == old(self).spec_has_try(),
    {
        let ghost k = self.blocks@.len();
        let mut label = String::from_str(name);
        push_char(&mut label, '.');
        push_decimal(&mut label, self.block_counter as u64);
        assert(label@ =~= block_label(name@, k as nat));
        proof {
            if old(self).labels_numbered() {
                assert forall|i: int| 0 <= i < k implies #[trigger] old(self).spec_blocks()[i].label@
                    != label@ by {
                    assert(old(self).label_numbered(i));
                    let n = choose|n: Seq<char>| #[trigger] block_label(n, i as nat)
                        == old(self).spec_blocks()[i].label@;
                    lemma_block_labels_distinct(n, i as nat, name@, k as nat);
                }
            }
        }
        self.block_counter = self.block_counter + 1;
        self.blocks.push(LlBlock::new(label));
        let n = self.blocks.len();
        &mut self.blocks[n - 1]
    }

    /// The block at `idx`, if there is one, for appending to it later.
    pub fn block_mut(&mut self, idx: usize) -> (b: Option<&mut LlBlock>)
        ensures
            idx < old(self).spec_blocks().len() <==> b is Some,
            b matches Some(r) ==> *r == old(self).spec_blocks()[idx as int]
                && final(self).spec_blocks() == old(self).spec_blocks().update(idx as int, *final(r)),
            b is None ==> final(self).spec_blocks() == old(self).spec_blocks(),
            final(self).spec_block_counter() == old(self).spec_block_counter(),
            final(self).spec_reg_counter() == old(self).spec_reg_counter(),
            final(self).spec_entry_allocas() == old(self).spec_entry_allocas(),
            final(self).spec_name() == old(self).spec_name(),
            final(self).spec_return_type() == old(self).spec_return_type(),
            final(self).spec_params() == old(self).spec_params(),
            final(self).spec_linkage() == old(self).spec_linkage(),
            final(self).spec_has_try() == old(self).spec_has_try(),
    {
        if idx < self.blocks.len() {
            Some(&mut self.blocks[idx])
        } else {
            None
        }
    }

    /// The blocks, in creation order.
    pub fn blocks(&self) -> (bs: &[LlBlock])
        ensures
            bs@ == self.spec_blocks(),
    {
        self.blocks.as_slice()
    }

    /// The number of blocks.
    pub fn num_blocks(&self) -> (n: usize)
        ensures
            n == self.spec_blocks().len(),
    {
        self.blocks.len()
    }

    /// The label of the last block created, if any.
    pub fn last_block_label(&self) -> (l: Option<&str>)
        ensures
            self.spec_blocks().len() == 0 <==> l is None,
            l matches Some(s) ==> s@ == self.spec_blocks().last().label@,
    {
        let n = self.blocks.len();
        if n == 0 {
            None
        } else {
            Some(self.blocks[n - 1].label.as_str())
        }
    }

    /// The parameters joined by `", "`.
    fn params_ir(&self) -> (p: String)
        ensures
            p@ == params_text(self.spec_params()),
    {
        let mut param_str = String::new();
        let np = self.params.len();
        let mut i: usize = 0;
        while i < np
            invariant
                np == self.params@.len(),
                i <= np,
                param_str@ == params_text(self.params@.take(i as int)),
            decreases np - i,
        {
            if i > 0 {
                push_char(&mut param_str, ',');
                push_char(&mut param_str, ' ');
            }
            push_type(&mut param_str, self.params[i].0);
            push_char(&mut param_str, ' ');
            push_str(&mut param_str, self.params[i].1.as_str());
            assert(self.params@.take(i + 1).drop_last() =~= self.params@.take(i as int));
            assert(self.params@.take(i + 1).last() == self.params@[i as int]);
            i = i + 1;
        }
        assert(self.params@.take(np as int) =~= self.params@);
        param_str
    }

    /// The `define ... {` line.
    fn header_ir(&self) -> (ir: String)
        ensures
            ir@ == self.header_text(),
    {
        let param_str = self.params_ir();
        let ghost linkage: Seq<char> = if self.linkage@.len() == 0 {
            Seq::empty()
        } else {
            self.linkage@ + seq![' ']
        };
        let ghost attrs: Seq<char> = if self.has_try { seq![' ', '#', '1'] } else { Seq::empty() };
        let mut ir = String::new();
        push_str(&mut ir, "define ");
        proof {
            reveal_strlit("define ");
        }
        let ghost s0 = ir@;
        assert(s0 =~= seq!['d', 'e', 'f', 'i', 'n', 'e', ' ']);
        if self.linkage.as_str().unicode_len() > 0 {
            push_str(&mut ir, self.linkage.as_str());
            push_char(&mut ir, ' ');
        }
        let ghost s1 = ir@;
        assert(s1 =~= s0 + linkage);
        push_type(&mut ir, self.return_type);
        push_char(&mut ir, ' ');
        push_char(&mut ir, '@');
        push_str(&mut ir, self.name.as_str());
        push_char(&mut ir, '(');
        push_str(&mut ir, param_str.as_str());
        push_char(&mut ir, ')');
        let ghost s2 = ir@;
        assert(s2 =~= s1 + type_text(self.return_type) + seq![' ', '@'] + self.name@ + seq!['(']
            + params_text(self.params@) + seq![')']);
        if self.has_try {
            push_char(&mut ir, ' ');
            push_char(&mut ir, '#');
            push_char(&mut ir, '1');
        }
        let ghost s3 = ir@;
        assert(s3 =~= s2 + attrs);
        push_char(&mut ir, ' ');
        push_char(&mut ir, '{');
        push_char(&mut ir, '\n');
        assert(ir@ =~= s3 + seq![' ', '{', '\n']);
        assert(ir@ =~= self.header_text());
        ir
    }

    /// The function as an LLVM `define`:
    /// `define [<linkage> ]<ret> @<name>(<ty> <param>, ...)[ #1] {`, then the
    /// blocks separated by blank lines (the hoisted allocas at the top of the
    /// entry block, right after its label line), then `}`.
    pub fn to_ir(&self) -> (ir: String)
        ensures
            ir@ == self.ir_text(),
    {
        let mut ir = self.header_ir();
        let nb = self.blocks.len();
        let has_allocas = self.entry_allocas.len() > 0;
        let mut b: usize = 0;
        while b < nb
            invariant
                nb == self.blocks@.len(),
                has_allocas == (self.entry_allocas@.len() > 0),
                b <= nb,
                ir@ == self.header_text() + self.blocks_text(b as nat),
            decreases nb - b,
        {
            if b > 0 {
                push_char(&mut ir, '\n');
            }
            if b == 0 && has_allocas {
                push_entry_block(&mut ir, &self.blocks[0], &self.entry_allocas);
            } else {
                let body = self.blocks[b].to_ir();
                push_str(&mut ir, body.as_str());
            }
            push_char(&mut ir, '\n');
            assert(ir@ =~= self.header_text() + self.blocks_text((b + 1) as nat));
            b = b + 1;
        }
        push_char(&mut ir, '}');
        push_char(&mut ir, '\n');
        ir
    }
}


/// Blocks created at different counts have different labels, whatever
/// names they were created with: the label ends with `.` and the count, and
/// the count has no `.` in it.
pub proof fn lemma_block_labels_distinct(n1: Seq<char>, c1: nat, n2: Seq<char>, c2: nat)
    requires
        c1 != c2,
    ensures
        block_label(n1, c1) != block_label(n2, c2),
{
    let d1 = decimal(c1);
    let d2 = decimal(c2);
    let l1 = block_label(n1, c1);
    let l2 = block_label(n2, c2);
    lemma_decimal_round_trip(c1);
    lemma_decimal_round_trip(c2);
    if l1 == l2 {
        let len = l1.len();
        if d1.len() < d2.len() {
            let k = len - d1.len() - 1;
            assert(l1[k] == '.');
            assert(l2[k] == d2[d2.len() - d1.len() - 1]);
            assert(is_digit(d2[d2.len() - d1.len() - 1]));
        } else if d2.len() < d1.len() {
            let k = len - d2.len() - 1;
            assert(l2[k] == '.');
            assert(l1[k] == d1[d1.len() - d2.len() - 1]);
            assert(is_digit(d1[d1.len() - d2.len() - 1]));
        } else {
            assert(d1 =~= l1.subrange(len - d1.len(), len as int));
            assert(d2 =~= l2.subrange(len - d2.len(), len as int));
            lemma_decimal_injective(c1, c2);
        }
    }
}

/// In a function whose blocks were all made by `create_block`, no two
/// blocks share a label, even where they were created with the same name.
pub proof fn lemma_function_labels_distinct(f: LlFunction)
    requires
        f.labels_numbered(),
    ensures
        forall|i: int, j: int|
            0 <= i < f.spec_blocks().len() && 0 <= j < f.spec_blocks().len() && i != j
                ==> #[trigger] f.spec_blocks()[i].label@ != #[trigger] f.spec_blocks()[j].label@,
{
    assert forall|i: int, j: int|
        0 <= i < f.spec_blocks().len() && 0 <= j < f.spec_blocks().len() && i != j implies
        #[trigger] f.spec_blocks()[i].label@ != #[trigger] f.spec_blocks()[j].label@ by {
        assert(f.label_numbered(i));
        assert(f.label_numbered(j));
        let ni = choose|n: Seq<char>| #[trigger] block_label(n, i as nat) == f.spec_blocks()[i].label@;
        let nj = choose|n: Seq<char>| #[trigger] block_label(n, j as nat) == f.spec_blocks()[j].label@;
        lemma_block_labels_distinct(ni, i as nat, nj, j as nat);
    }
}

/// Appending a block labelled `<name>.<n>`, where `n` counts the blocks
/// before it, keeps every block labelled by its position.
pub proof fn lemma_numbered_after_create(f0: LlFunction, f1: LlFunction, name: Seq<char>)
    requires
        f0.labels_numbered(),
        f1.spec_blocks().len() == f0.spec_blocks().len() + 1,
        f1.spec_blocks().drop_last() == f0.spec_blocks(),
        f1.spec_blocks().last().label@ == block_label(name, f0.spec_blocks().len()),
    ensures
        f1.labels_numbered(),
{
    let k = f0.spec_blocks().len();
    assert forall|i: int| 0 <= i < f1.spec_blocks().len() implies #[trigger] f1.label_numbered(i) by {
        if i < k {
            assert(f1.spec_blocks()[i] == f1.spec_blocks().drop_last()[i]);
            assert(f0.spec_blocks()[i] == f1.spec_blocks()[i]);
            assert(f0.label_numbered(i));
            let n = choose|n: Seq<char>| #[trigger] block_label(n, i as nat) == f0.spec_blocks()[i].label@;
            assert(block_label(n, i as nat) == f1.spec_blocks()[i].label@);
        } else {
            assert(block_label(name, i as nat) == f1.spec_blocks()[i].label@);
        }
    }
}

/// Registers allocated at different counts have different names.
pub proof fn lemma_reg_names_distinct(a: nat, b: nat)
    requires
        a != b,
    ensures
        reg_name(a) != reg_name(b),
{
    if reg_name(a) == reg_name(b) {
        assert(decimal(a) =~= reg_name(a).skip(2));
        assert(decimal(b) =~= reg_name(b).skip(2));
        lemma_decimal_injective(a, b);
    }
}

/// Every `alloca` hoisted by `alloca_entry` names the register that it
/// returns: allocating two slots gives two different registers, and the
/// entry block lists both allocas in order.
pub proof fn lemma_two_allocas(f0: LlFunction, f1: LlFunction, f2: LlFunction, t1: LlvmType, t2: LlvmType)
    requires
        f1.spec_reg_counter() == f0.spec_reg_counter() + 1,
        f1.spec_entry_allocas() == f0.spec_entry_allocas().push(alloca_line(f0.spec_reg_counter(), t1)),
        f2.spec_reg_counter() == f1.spec_reg_counter() + 1,
        f2.spec_entry_allocas() == f1.spec_entry_allocas().push(alloca_line(f1.spec_reg_counter(), t2)),
    ensures
        reg_name(f0.spec_reg_counter()) != reg_name(f1.spec_reg_counter()),
        f2.spec_entry_allocas() == f0.spec_entry_allocas() + seq![
            alloca_line(f0.spec_reg_counter(), t1),
            alloca_line(f0.spec_reg_counter() + 1, t2),
        ],
{
    lemma_reg_names_distinct(f0.spec_reg_counter(), f1.spec_reg_counter());
    assert(f2.spec_entry_allocas() =~= f0.spec_entry_allocas() + seq![
        alloca_line(f0.spec_reg_counter(), t1),
        alloca_line(f0.spec_reg_counter() + 1, t2),
    ]);
}

/// Each type prints as its LLVM keyword: `void`, `i1`, `i8`, `i32`,
/// `i64`, `double`, `ptr`.
pub proof fn lemma_type_keywords(t: LlvmType)
    ensures
        type_text(t) == match t {
            LlvmType::Void => "void"@,
            LlvmType::I1 => "i1"@,
            LlvmType::I8 => "i8"@,
            LlvmType::I32 => "i32"@,
            LlvmType::I64 => "i64"@,
            LlvmType::Double => "double"@,
            LlvmType::Ptr => "ptr"@,
        },
{
    reveal_strlit("void");
    reveal_strlit("i1");
    reveal_strlit("i8");
    reveal_strlit("i32");
    reveal_strlit("i64");
    reveal_strlit("double");
    reveal_strlit("ptr");
    match t {
        LlvmType::Void => assert(type_text(t) =~= "void"@),
        LlvmType::I1 => assert(type_text(t) =~= "i1"@),
        LlvmType::I8 => assert(type_text(t) =~= "i8"@),
        LlvmType::I32 => assert(type_text(t) =~= "i32"@),
        LlvmType::I64 => assert(type_text(t) =~= "i64"@),
        LlvmType::Double => assert(type_text(t) =~= "double"@),
        LlvmType::Ptr => assert(type_text(t) =~= "ptr"@),
    }
}

/// Different types print differently.
pub proof fn lemma_type_names_distinct(a: LlvmType, b: LlvmType)
    requires
        a != b,
    ensures
        type_text(a) != type_text(b),
{
    lemma_type_keywords(a);
    lemma_type_keywords(b);
    reveal_strlit("void");
    reveal_strlit("i1");
    reveal_strlit("i8");
    reveal_strlit("i32");
    reveal_strlit("i64");
    reveal_strlit("double");
    reveal_strlit("ptr");
    if type_text(a) == type_text(b) {
        let x = type_text(a);
        assert(x.len() == type_text(b).len());
        assert(x[0] == type_text(b)[0]);
        if x.len() > 1 {
            assert(x[1] == type_text(b)[1]);
        }
        if x.len() > 2 {
            assert(x[2] == type_text(b)[2]);
        }
    }
}

/// The shapes of the IR text: registers are `%r<n>`, block labels
/// `<name>.<n>`, a hoisted alloca is `  %r<n> = alloca <type>`, a parameter
/// is `<type> <name>` and parameters are separated by `, `, a block is its
/// label, `:` and a newline, then each instruction indented by two spaces
/// on a line of its own.
pub proof fn lemma_ir_text_shapes(
    n: nat,
    t: LlvmType,
    name: Seq<char>,
    p: (LlvmType, String),
    q: (LlvmType, String),
    b: LlBlock,
    inst: String,
)
    ensures
        reg_name(n) == "%r"@ + decimal(n),
        block_label(name, n) == name + "."@ + decimal(n),
        alloca_line(n, t) == "  %r"@ + decimal(n) + " = alloca "@ + type_text(t),
        param_text(p) == type_text(p.0) + " "@ + p.1@,
        params_text(seq![p]) == param_text(p),
        params_text(seq![p, q]) == param_text(p) + ", "@ + param_text(q),
        block_text(b) == b.label@ + ":\n"@ + instructions_text(b.instructions@),
        instructions_text(seq![inst]) == "  "@ + inst@ + "\n"@,
{
    reveal_strlit("%r");
    reveal_strlit(".");
    reveal_strlit("  %r");
    reveal_strlit(" = alloca ");
    reveal_strlit(" ");
    reveal_strlit(", ");
    reveal_strlit(":\n");
    reveal_strlit("  ");
    reveal_strlit("\n");
    assert(reg_name(n) =~= "%r"@ + decimal(n));
    assert(block_label(name, n) =~= name + "."@ + decimal(n));
    assert(alloca_line(n, t) =~= "  %r"@ + decimal(n) + " = alloca "@ + type_text(t));
    assert(param_text(p) =~= type_text(p.0) + " "@ + p.1@);
    reveal_with_fuel(params_text, 2);
    reveal_with_fuel(instructions_text, 2);
    assert(seq![p, q].drop_last() =~= seq![p]);
    assert(seq![p, q].last() == q);
    assert(params_text(seq![p]) == param_text(p));
    assert(params_text(seq![p, q]) =~= param_text(p) + ", "@ + param_text(q));
    assert(block_text(b) =~= b.label@ + ":\n"@ + instructions_text(b.instructions@));
    assert(seq![inst].drop_last() =~= Seq::<String>::empty());
    assert(seq![inst].last() == inst);
    assert(instructions_text(Seq::<String>::empty()) == Seq::<char>::empty());
    assert(instructions_text(seq![inst]) =~= "  "@ + inst@ + "\n"@);
}

/// The define line of a function: `define `, the linkage and a space when
/// there is one, the return type, ` @`, the name, the parameters in
/// parentheses, ` #1` when the body has a `try`, and ` {` with a newline.
pub proof fn lemma_define_line(f: LlFunction)
    ensures
        f.header_text() == "define "@ + (if f.spec_linkage().len() == 0 {
            Seq::<char>::empty()
        } else {
            f.spec_linkage() + " "@
        }) + type_text(f.spec_return_type()) + " @"@ + f.spec_name() + "("@ + params_text(
            f.spec_params(),
        ) + ")"@ + (if f.spec_has_try() {
            " #1"@
        } else {
            Seq::<char>::empty()
        }) + " {\n"@,
        f.ir_text() == f.header_text() + f.blocks_text(f.spec_blocks().len()) + "}\n"@,
{
    reveal_strlit("define ");
    reveal_strlit(" ");
    reveal_strlit(" @");
    reveal_strlit("(");
    reveal_strlit(")");
    reveal_strlit(" #1");
    reveal_strlit(" {\n");
    reveal_strlit("}\n");
    assert(f.header_text() =~= "define "@ + (if f.spec_linkage().len() == 0 {
        Seq::<char>::empty()
    } else {
        f.spec_linkage() + " "@
    }) + type_text(f.spec_return_type()) + " @"@ + f.spec_name() + "("@ + params_text(
        f.spec_params(),
    ) + ")"@ + (if f.spec_has_try() {
        " #1"@
    } else {
        Seq::<char>::empty()
    }) + " {\n"@);
    assert(f.ir_text() =~= f.header_text() + f.blocks_text(f.spec_blocks().len()) + "}\n"@);
}

} // verus!
