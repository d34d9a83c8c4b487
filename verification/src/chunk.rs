//! Compiled code: instructions, the constants they refer to, and the
//! functions that own them.
use std::rc::Rc;
use vstd::prelude::*;

use crate::text::{debug_quote, i64_to_string, int_decimal, nat_digits, quoted, u64_to_string};
use crate::value::Value;

verus! {

/// A type that the VM checks a value against at run time.
#[derive(Debug, PartialEq)]
pub enum RuntimeType {
    Named(String),
    Literal(Value),
    Union(Vec<RuntimeType>),
}

/// How a closure captures a variable of an enclosing scope: a local slot of
/// the immediately enclosing frame (`is_local`), or an upvalue of it.
#[derive(Debug, Clone, Copy, PartialEq, Eq, Structural)]
pub struct UpvalueDef {
    pub is_local: bool,
    pub index: usize,
}

/// A compiled function: its bytecode, name, arity, upvalue descriptors and
/// the run-time type checks of its parameters and result.
#[derive(Debug)]
pub struct Function {
    pub name: String,
    pub arity: usize,
    pub super_method_name: Option<String>,
    pub chunk: Chunk,
    pub upvalue_defs: Vec<UpvalueDef>,
    pub return_type: Option<RuntimeType>,
    pub param_types: Vec<Option<RuntimeType>>,
}

/// A single VM instruction.
#[derive(Debug, PartialEq)]
pub enum OpCode {
    Constant(usize),
    Add,
    Sub,
    Mul,
    Div,
    Mod,
    Equal,
    NotEqual,
    Less,
    LessEqual,
    Greater,
    GreaterEqual,
    BitAnd,
    BitOr,
    BitXor,
    BitNot,
    Shl,
    Shr,
    Negate,
    Not,
    GetLocal(usize),
    SetLocal(usize),
    GetUpvalue(usize),
    SetUpvalue(usize),
    CloseUpvalue,
    Jump(usize),
    JumpIfFalse(usize),
    Loop(usize),
    Closure(usize),
    Call(usize),
    JumpIfFalseKeep(usize),
    JumpIfTrueKeep(usize),
    BuildString(usize),
    BuildList(usize),
    BuildMap(usize),
    BuildRange,
    Index,
    IndexSet,
    DefClass(usize),
    NewInstance(usize),
    GetField(usize),
    GetFieldSafe(usize),
    SetField(usize),
    Invoke(usize, usize),
    SuperInvoke(usize, usize),
    GetSelf,
    GetLexicalConstant(usize),
    CallWithBlock(usize),
    InvokeWithBlock(usize, usize),
    Yield(usize),
    Raise,
    Break,
    Next,
    BeginRescue { handler_offset: usize, rescue_var_slot: usize },
    PopRescue,
    Len,
    MapKeys,
    RangeFrom,
    RangeTo,
    Import(usize),
    GetGlobal(usize),
    SetGlobal(usize),
    Pop,
    Return,
    NonLocalReturn,
    True,
    False,
    Nil,
    IsA(String),
    ListLen,
    Print,
    RescueMatch(RuntimeType),
}

/// A constant embedded in a chunk.  A `Float` is held as its literal text,
/// which the VM reads as a double.
#[derive(Debug)]
pub enum Constant {
    Int(i64),
    Float(String),
    Str(String),
    Function(Rc<Function>),
    ClassDesc {
        name: String,
        superclass: Option<String>,
        superclass_dynamic: bool,
        is_module: bool,
        is_abstract: bool,
        abstract_method_names: Vec<String>,
        includes: Vec<String>,
        field_names: Vec<String>,
        field_defaults: Vec<Option<Constant>>,
        method_names: Vec<String>,
        private_methods: Vec<String>,
        class_method_names: Vec<String>,
        class_private_methods: Vec<String>,
        nested_class_names: Vec<String>,
    },
    LexicalClassScope { enclosing_classes: Vec<String>, name_idx: usize },
}

/// A sequence of instructions, the constants they refer to, and the source
/// line of each instruction.
#[derive(Debug)]
pub struct Chunk {
    pub code: Vec<OpCode>,
    pub constants: Vec<Constant>,
    pub lines: Vec<u32>,
}

/// A forward jump: the instructions whose offset `patch_jump` fills in.
pub open spec fn is_forward_jump(op: OpCode) -> bool {
    ||| op is Jump
    ||| op is JumpIfFalse
    ||| op is JumpIfFalseKeep
    ||| op is JumpIfTrueKeep
}

/// The jump `op` with its offset replaced by `offset`.
pub open spec fn with_jump_offset(op: OpCode, offset: usize) -> OpCode {
    match op {
        OpCode::Jump(_) => OpCode::Jump(offset),
        OpCode::JumpIfFalse(_) => OpCode::JumpIfFalse(offset),
        OpCode::JumpIfFalseKeep(_) => OpCode::JumpIfFalseKeep(offset),
        OpCode::JumpIfTrueKeep(_) => OpCode::JumpIfTrueKeep(offset),
        _ => op,
    }
}

impl Chunk {
    /// Every instruction has its source line.
    pub open spec fn wf(&self) -> bool {
        self.code@.len() == self.lines@.len()
    }

    /// An empty chunk.
    pub fn new() -> (c: Chunk)
        ensures
            c.code@ == Seq::<OpCode>::empty(),
            c.constants@.len() == 0,
            c.lines@ == Seq::<u32>::empty(),
            c.wf(),
    {
        Chunk { code: Vec::new(), constants: Vec::new(), lines: Vec::new() }
    }

    /// Append `op`, emitted for source line `line`.
    pub fn write(&mut self, op: OpCode, line: u32)
        ensures
            final(self).code@ == old(self).code@.push(op),
            final(self).lines@ == old(self).lines@.push(line),
            final(self).constants@ == old(self).constants@,
            old(self).wf() ==> final(self).wf(),
    {
        self.code.push(op);
        self.lines.push(line);
    }

    /// Fill in the offset of the forward jump at `jump_idx` so that it lands
    /// just past the last instruction emitted so far.
    pub fn patch_jump(&mut self, jump_idx: usize)
        requires
            jump_idx < old(self).code@.len(),
            is_forward_jump(old(self).code@[jump_idx as int]),
        ensures
            final(self).code@ == old(self).code@.update(
                jump_idx as int,
                with_jump_offset(
                    old(self).code@[jump_idx as int],
                    (old(self).code@.len() - jump_idx - 1) as usize,
                ),
            ),
            final(self).lines@ == old(self).lines@,
            final(self).constants@ == old(self).constants@,
    {
        let offset = self.code.len() - jump_idx - 1;
        let op = match &self.code[jump_idx] {
            OpCode::Jump(_) => OpCode::Jump(offset),
            OpCode::JumpIfFalse(_) => OpCode::JumpIfFalse(offset),
            OpCode::JumpIfFalseKeep(_) => OpCode::JumpIfFalseKeep(offset),
            _ => OpCode::JumpIfTrueKeep(offset),
        };
        self.code.set(jump_idx, op);
    }

    /// Fill in the handler offset of the `BeginRescue` at `begin_idx` so that
    /// the handler starts just past the last instruction emitted so far.
    pub fn patch_rescue(&mut self, begin_idx: usize)
        requires
            begin_idx < old(self).code@.len(),
            old(self).code@[begin_idx as int] is BeginRescue,
        ensures
            final(self).code@ == old(self).code@.update(
                begin_idx as int,
                OpCode::BeginRescue {
                    handler_offset: (old(self).code@.len() - begin_idx - 1) as usize,
                    rescue_var_slot: old(self).code@[begin_idx as int]->rescue_var_slot,
                },
            ),
            final(self).lines@ == old(self).lines@,
            final(self).constants@ == old(self).constants@,
    {
        let offset = self.code.len() - begin_idx - 1;
        let slot = match &self.code[begin_idx] {
            OpCode::BeginRescue { rescue_var_slot, .. } => *rescue_var_slot,
            _ => 0,
        };
        self.code.set(begin_idx, OpCode::BeginRescue { handler_offset: offset, rescue_var_slot: slot });
    }

    /// Add a constant; its index is returned.
    pub fn add_constant(&mut self, value: Constant) -> (idx: usize)
        ensures
            idx == old(self).constants@.len(),
            final(self).constants@ == old(self).constants@.push(value),
            final(self).code@ == old(self).code@,
            final(self).lines@ == old(self).lines@,
    {
        self.constants.push(value);
        self.constants.len() - 1
    }
}

// ── Disassembly ─────────────────────────────────────────────────────────────

/// How a constant is shown: integers in decimal, floats as written, strings
/// quoted, functions and classes by name.
pub open spec fn const_text(c: Constant) -> Seq<char> {
    match c {
        Constant::Int(n) => int_decimal(n as int),
        Constant::Float(t) => t@,
        Constant::Str(s) => quoted(s@),
        Constant::Function(f) => "<fn "@ + f.name@ + ">"@,
        Constant::ClassDesc { name, superclass, superclass_dynamic, is_module, is_abstract, .. } => match superclass {
            Some(s) => "<class "@ + name@ + " extends "@ + s@ + ">"@,
            None => if superclass_dynamic {
                "<class "@ + name@ + " extends (dynamic)>"@
            } else if is_module {
                "<module "@ + name@ + ">"@
            } else if is_abstract {
                "<abstract class "@ + name@ + ">"@
            } else {
                "<class "@ + name@ + ">"@
            },
        },
        Constant::LexicalClassScope { .. } => "<lexical class scope>"@,
    }
}

impl Constant {
    /// The constant as it is shown (see `const_text`).
    pub fn display_text(&self) -> (s: String)
        ensures
            s@ == const_text(*self),
    {
        match self {
            Constant::Int(n) => i64_to_string(*n),
            Constant::Float(t) => t.clone(),
            Constant::Str(st) => debug_quote(st.as_str()),
            Constant::Function(f) => {
                let mut s = String::from_str("<fn ");
                s.append(f.name.as_str());
                s.append(">");
                s
            },
            Constant::ClassDesc { name, superclass, superclass_dynamic, is_module, is_abstract, .. } => match superclass {
                Some(sup) => {
                    let mut s = String::from_str("<class ");
                    s.append(name.as_str());
                    s.append(" extends ");
                    s.append(sup.as_str());
                    s.append(">");
                    s
                },
                None => {
                    let mut s = if *superclass_dynamic {
                        String::from_str("<class ")
                    } else if *is_module {
                        String::from_str("<module ")
                    } else if *is_abstract {
                        String::from_str("<abstract class ")
                    } else {
                        String::from_str("<class ")
                    };
                    s.append(name.as_str());
                    if *superclass_dynamic {
                        s.append(" extends (dynamic)>");
                    } else {
                        s.append(">");
                    }
                    s
                },
            },
            Constant::LexicalClassScope { .. } => String::from_str("<lexical class scope>"),
        }
    }
}

/// `n` in decimal, right-aligned in four columns.
pub open spec fn pad4(n: nat) -> Seq<char> {
    let d = nat_digits(n);
    if d.len() < 4 {
        Seq::new((4 - d.len()) as nat, |i: int| ' ') + d
    } else {
        d
    }
}

/// `n` in decimal, zero-filled to four digits.
pub open spec fn zero4(n: nat) -> Seq<char> {
    let d = nat_digits(n);
    if d.len() < 4 {
        Seq::new((4 - d.len()) as nat, |i: int| '0') + d
    } else {
        d
    }
}

fn pad_to4(d: String, fill: char) -> (s: String)
    ensures
        d@.len() < 4 ==> s@ == Seq::new((4 - d@.len()) as nat, |i: int| fill) + d@,
        d@.len() >= 4 ==> s@ == d@,
{
    let n = d.as_str().unicode_len();
    if n >= 4 {
        return d;
    }
    let mut s = String::new();
    let mut k: usize = 0;
    while k < 4 - n
        invariant
            n < 4,
            k <= 4 - n,
            s@ == Seq::new(k as nat, |i: int| fill),
        decreases 4 - n - k,
    {
        crate::text::string_push(&mut s, fill);
        k += 1;
        assert(s@ =~= Seq::new(k as nat, |i: int| fill));
    }
    s.append(d.as_str());
    s
}

fn pad4_string(n: usize) -> (s: String)
    ensures
        s@ == pad4(n as nat),
{
    pad_to4(u64_to_string(n as u64), ' ')
}

/// How `Debug` writes a literal value: the variant's name and its field.
pub open spec fn value_debug(v: Value) -> Seq<char> {
    match v {
        Value::Int(n) => "Int("@ + int_decimal(n as int) + ")"@,
        Value::Float(t) => "Float("@ + quoted(t@) + ")"@,
        Value::Str(t) => "Str("@ + quoted(t@) + ")"@,
        Value::Bool(b) => if b {
            "Bool(true)"@
        } else {
            "Bool(false)"@
        },
        Value::Nil => "Nil"@,
    }
}

/// How `Debug` writes a run-time type: `Named("T")`, `Literal(..)`, or
/// `Union([..])` with the arms separated by `, `.
pub open spec fn rt_debug(t: RuntimeType) -> Seq<char>
    decreases t, 1nat,
{
    match t {
        RuntimeType::Named(n) => "Named("@ + quoted(n@) + ")"@,
        RuntimeType::Literal(v) => "Literal("@ + value_debug(v) + ")"@,
        RuntimeType::Union(arms) => "Union(["@ + rts_debug(arms@) + "])"@,
    }
}

/// The `Debug` texts of `s`, separated by `, `.
pub open spec fn rts_debug(s: Seq<RuntimeType>) -> Seq<char>
    decreases s, 0nat,
{
    if s.len() == 0 {
        Seq::empty()
    } else if s.len() == 1 {
        rt_debug(s[0])
    } else {
        rts_debug(s.drop_last()) + ", "@ + rt_debug(s.last())
    }
}

/// The `Debug` text of an instruction (the way `{:?}` writes it).
pub open spec fn op_debug(op: OpCode) -> Seq<char> {
    match op {
        OpCode::Constant(i) => "Constant"@ + "("@ + nat_digits(i as nat) + ")"@,
        OpCode::Add => "Add"@,
        OpCode::Sub => "Sub"@,
        OpCode::Mul => "Mul"@,
        OpCode::Div => "Div"@,
        OpCode::Mod => "Mod"@,
        OpCode::Equal => "Equal"@,
        OpCode::NotEqual => "NotEqual"@,
        OpCode::Less => "Less"@,
        OpCode::LessEqual => "LessEqual"@,
        OpCode::Greater => "Greater"@,
        OpCode::GreaterEqual => "GreaterEqual"@,
        OpCode::BitAnd => "BitAnd"@,
        OpCode::BitOr => "BitOr"@,
        OpCode::BitXor => "BitXor"@,
        OpCode::BitNot => "BitNot"@,
        OpCode::Shl => "Shl"@,
        OpCode::Shr => "Shr"@,
        OpCode::Negate => "Negate"@,
        OpCode::Not => "Not"@,
        OpCode::GetLocal(i) => "GetLocal"@ + "("@ + nat_digits(i as nat) + ")"@,
        OpCode::SetLocal(i) => "SetLocal"@ + "("@ + nat_digits(i as nat) + ")"@,
        OpCode::GetUpvalue(i) => "GetUpvalue"@ + "("@ + nat_digits(i as nat) + ")"@,
        OpCode::SetUpvalue(i) => "SetUpvalue"@ + "("@ + nat_digits(i as nat) + ")"@,
        OpCode::CloseUpvalue => "CloseUpvalue"@,
        OpCode::Jump(i) => "Jump"@ + "("@ + nat_digits(i as nat) + ")"@,
        OpCode::JumpIfFalse(i) => "JumpIfFalse"@ + "("@ + nat_digits(i as nat) + ")"@,
        OpCode::Loop(i) => "Loop"@ + "("@ + nat_digits(i as nat) + ")"@,
        OpCode::Closure(i) => "Closure"@ + "("@ + nat_digits(i as nat) + ")"@,
        OpCode::Call(i) => "Call"@ + "("@ + nat_digits(i as nat) + ")"@,
        OpCode::JumpIfFalseKeep(i) => "JumpIfFalseKeep"@ + "("@ + nat_digits(i as nat) + ")"@,
        OpCode::JumpIfTrueKeep(i) => "JumpIfTrueKeep"@ + "("@ + nat_digits(i as nat) + ")"@,
        OpCode::BuildString(i) => "BuildString"@ + "("@ + nat_digits(i as nat) + ")"@,
        OpCode::BuildList(i) => "BuildList"@ + "("@ + nat_digits(i as nat) + ")"@,
        OpCode::BuildMap(i) => "BuildMap"@ + "("@ + nat_digits(i as nat) + ")"@,
        OpCode::BuildRange => "BuildRange"@,
        OpCode::Index => "Index"@,
        OpCode::IndexSet => "IndexSet"@,
        OpCode::DefClass(i) => "DefClass"@ + "("@ + nat_digits(i as nat) + ")"@,
        OpCode::NewInstance(i) => "NewInstance"@ + "("@ + nat_digits(i as nat) + ")"@,
        OpCode::GetField(i) => "GetField"@ + "("@ + nat_digits(i as nat) + ")"@,
        OpCode::GetFieldSafe(i) => "GetFieldSafe"@ + "("@ + nat_digits(i as nat) + ")"@,
        OpCode::SetField(i) => "SetField"@ + "("@ + nat_digits(i as nat) + ")"@,
        OpCode::Invoke(a, b) => "Invoke"@ + "("@ + nat_digits(a as nat) + ", "@ + nat_digits(b as nat) + ")"@,
        OpCode::SuperInvoke(a, b) => "SuperInvoke"@ + "("@ + nat_digits(a as nat) + ", "@ + nat_digits(b as nat) + ")"@,
        OpCode::GetSelf => "GetSelf"@,
        OpCode::GetLexicalConstant(i) => "GetLexicalConstant"@ + "("@ + nat_digits(i as nat) + ")"@,
        OpCode::CallWithBlock(i) => "CallWithBlock"@ + "("@ + nat_digits(i as nat) + ")"@,
        OpCode::InvokeWithBlock(a, b) => "InvokeWithBlock"@ + "("@ + nat_digits(a as nat) + ", "@ + nat_digits(b as nat) + ")"@,
        OpCode::Yield(i) => "Yield"@ + "("@ + nat_digits(i as nat) + ")"@,
        OpCode::Raise => "Raise"@,
        OpCode::Break => "Break"@,
        OpCode::Next => "Next"@,
        OpCode::BeginRescue { handler_offset: a, rescue_var_slot: b } => "BeginRescue { handler_offset: "@ + nat_digits(a as nat)
            + ", rescue_var_slot: "@ + nat_digits(b as nat) + " }"@,
        OpCode::PopRescue => "PopRescue"@,
        OpCode::Len => "Len"@,
        OpCode::MapKeys => "MapKeys"@,
        OpCode::RangeFrom => "RangeFrom"@,
        OpCode::RangeTo => "RangeTo"@,
        OpCode::Import(i) => "Import"@ + "("@ + nat_digits(i as nat) + ")"@,
        OpCode::GetGlobal(i) => "GetGlobal"@ + "("@ + nat_digits(i as nat) + ")"@,
        OpCode::SetGlobal(i) => "SetGlobal"@ + "("@ + nat_digits(i as nat) + ")"@,
        OpCode::Pop => "Pop"@,
        OpCode::Return => "Return"@,
        OpCode::NonLocalReturn => "NonLocalReturn"@,
        OpCode::True => "True"@,
        OpCode::False => "False"@,
        OpCode::Nil => "Nil"@,
        OpCode::IsA(t) => "IsA("@ + quoted(t@) + ")"@,
        OpCode::ListLen => "ListLen"@,
        OpCode::Print => "Print"@,
        OpCode::RescueMatch(t) => "RescueMatch("@ + rt_debug(t) + ")"@,
    }
}

fn debug_call1(name: &str, i: usize) -> (s: String)
    ensures
        s@ == name@ + "("@ + nat_digits(i as nat) + ")"@,
{
    let mut out = String::from_str(name);
    out.append("(");
    out.append(u64_to_string(i as u64).as_str());
    out.append(")");
    out
}

fn debug_call2(name: &str, a: usize, b: usize) -> (s: String)
    ensures
        s@ == name@ + "("@ + nat_digits(a as nat) + ", "@ + nat_digits(b as nat) + ")"@,
{
    let mut out = String::from_str(name);
    out.append("(");
    out.append(u64_to_string(a as u64).as_str());
    out.append(", ");
    out.append(u64_to_string(b as u64).as_str());
    out.append(")");
    out
}

fn debug_value(v: &Value) -> (s: String)
    ensures
        s@ == value_debug(*v),
{
    match v {
        Value::Int(n) => {
            let mut out = String::from_str("Int(");
            out.append(i64_to_string(*n).as_str());
            out.append(")");
            out
        },
        Value::Float(t) => {
            let mut out = String::from_str("Float(");
            out.append(debug_quote(t.as_str()).as_str());
            out.append(")");
            out
        },
        Value::Str(t) => {
            let mut out = String::from_str("Str(");
            out.append(debug_quote(t.as_str()).as_str());
            out.append(")");
            out
        },
        Value::Bool(b) => if *b {
            String::from_str("Bool(true)")
        } else {
            String::from_str("Bool(false)")
        },
        Value::Nil => String::from_str("Nil"),
    }
}

fn debug_runtime_type(t: &RuntimeType) -> (s: String)
    ensures
        s@ == rt_debug(*t),
    decreases *t, 1nat,
{
    match t {
        RuntimeType::Named(n) => {
            let mut out = String::from_str("Named(");
            out.append(debug_quote(n.as_str()).as_str());
            out.append(")");
            out
        },
        RuntimeType::Literal(v) => {
            let mut out = String::from_str("Literal(");
            out.append(debug_value(v).as_str());
            out.append(")");
            out
        },
        RuntimeType::Union(arms) => {
            proof {
                assert forall|i: int| 0 <= i < arms@.len() implies decreases_to!(*t => #[trigger] arms@[i]) by {
                    assert(decreases_to!(*t => *arms));
                    assert(decreases_to!(*arms => arms@));
                    assert(decreases_to!(arms@ => arms@[i]));
                }
            }
            let mut out = String::from_str("Union([");
            let inner = debug_runtime_types(arms, Ghost(*t));
            out.append(inner.as_str());
            out.append("])");
            out
        },
    }
}

fn debug_runtime_types(v: &Vec<RuntimeType>, Ghost(parent): Ghost<RuntimeType>) -> (s: String)
    requires
        forall|i: int| 0 <= i < v@.len() ==> decreases_to!(parent => #[trigger] v@[i]),
    ensures
        s@ == rts_debug(v@),
    decreases parent, 0nat,
{
    let mut out = String::new();
    let mut i: usize = 0;
    while i < v.len()
        invariant
            i <= v@.len(),
            forall|k: int| 0 <= k < v@.len() ==> decreases_to!(parent => #[trigger] v@[k]),
            out@ == rts_debug(v@.take(i as int)),
        decreases v@.len() - i,
    {
        proof {
            assert(v@.take(i + 1).drop_last() =~= v@.take(i as int));
            assert(v@.take(i + 1).last() == v@[i as int]);
            if i == 0 {
                assert(v@.take(1)[0] == v@[0]);
            }
        }
        if i > 0 {
            out.append(", ");
        }
        assert(decreases_to!(parent => v@[i as int]));
        let d = debug_runtime_type(&v[i]);
        out.append(d.as_str());
        i += 1;
    }
    proof {
        assert(v@.take(v@.len() as int) =~= v@);
    }
    out
}

fn debug_op(op: &OpCode) -> (s: String)
    ensures
        s@ == op_debug(*op),
{
    match op {
        OpCode::Constant(i) => debug_call1("Constant", *i),
        OpCode::Add => String::from_str("Add"),
        OpCode::Sub => String::from_str("Sub"),
        OpCode::Mul => String::from_str("Mul"),
        OpCode::Div => String::from_str("Div"),
        OpCode::Mod => String::from_str("Mod"),
        OpCode::Equal => String::from_str("Equal"),
        OpCode::NotEqual => String::from_str("NotEqual"),
        OpCode::Less => String::from_str("Less"),
        OpCode::LessEqual => String::from_str("LessEqual"),
        OpCode::Greater => String::from_str("Greater"),
        OpCode::GreaterEqual => String::from_str("GreaterEqual"),
        OpCode::BitAnd => String::from_str("BitAnd"),
        OpCode::BitOr => String::from_str("BitOr"),
        OpCode::BitXor => String::from_str("BitXor"),
        OpCode::BitNot => String::from_str("BitNot"),
        OpCode::Shl => String::from_str("Shl"),
        OpCode::Shr => String::from_str("Shr"),
        OpCode::Negate => String::from_str("Negate"),
        OpCode::Not => String::from_str("Not"),
        OpCode::GetLocal(i) => debug_call1("GetLocal", *i),
        OpCode::SetLocal(i) => debug_call1("SetLocal", *i),
        OpCode::GetUpvalue(i) => debug_call1("GetUpvalue", *i),
        OpCode::SetUpvalue(i) => debug_call1("SetUpvalue", *i),
        OpCode::CloseUpvalue => String::from_str("CloseUpvalue"),
        OpCode::Jump(i) => debug_call1("Jump", *i),
        OpCode::JumpIfFalse(i) => debug_call1("JumpIfFalse", *i),
        OpCode::Loop(i) => debug_call1("Loop", *i),
        OpCode::Closure(i) => debug_call1("Closure", *i),
        OpCode::Call(i) => debug_call1("Call", *i),
        OpCode::JumpIfFalseKeep(i) => debug_call1("JumpIfFalseKeep", *i),
        OpCode::JumpIfTrueKeep(i) => debug_call1("JumpIfTrueKeep", *i),
        OpCode::BuildString(i) => debug_call1("BuildString", *i),
        OpCode::BuildList(i) => debug_call1("BuildList", *i),
        OpCode::BuildMap(i) => debug_call1("BuildMap", *i),
        OpCode::BuildRange => String::from_str("BuildRange"),
        OpCode::Index => String::from_str("Index"),
        OpCode::IndexSet => String::from_str("IndexSet"),
        OpCode::DefClass(i) => debug_call1("DefClass", *i),
        OpCode::NewInstance(i) => debug_call1("NewInstance", *i),
        OpCode::GetField(i) => debug_call1("GetField", *i),
        OpCode::GetFieldSafe(i) => debug_call1("GetFieldSafe", *i),
        OpCode::SetField(i) => debug_call1("SetField", *i),
        OpCode::Invoke(a, b) => debug_call2("Invoke", *a, *b),
        OpCode::SuperInvoke(a, b) => debug_call2("SuperInvoke", *a, *b),
        OpCode::GetSelf => String::from_str("GetSelf"),
        OpCode::GetLexicalConstant(i) => debug_call1("GetLexicalConstant", *i),
        OpCode::CallWithBlock(i) => debug_call1("CallWithBlock", *i),
        OpCode::InvokeWithBlock(a, b) => debug_call2("InvokeWithBlock", *a, *b),
        OpCode::Yield(i) => debug_call1("Yield", *i),
        OpCode::Raise => String::from_str("Raise"),
        OpCode::Break => String::from_str("Break"),
        OpCode::Next => String::from_str("Next"),
        OpCode::BeginRescue { handler_offset: a, rescue_var_slot: b } => {
            let mut out = String::from_str("BeginRescue { handler_offset: ");
            out.append(u64_to_string(*a as u64).as_str());
            out.append(", rescue_var_slot: ");
            out.append(u64_to_string(*b as u64).as_str());
            out.append(" }");
            out
        },
        OpCode::PopRescue => String::from_str("PopRescue"),
        OpCode::Len => String::from_str("Len"),
        OpCode::MapKeys => String::from_str("MapKeys"),
        OpCode::RangeFrom => String::from_str("RangeFrom"),
        OpCode::RangeTo => String::from_str("RangeTo"),
        OpCode::Import(i) => debug_call1("Import", *i),
        OpCode::GetGlobal(i) => debug_call1("GetGlobal", *i),
        OpCode::SetGlobal(i) => debug_call1("SetGlobal", *i),
        OpCode::Pop => String::from_str("Pop"),
        OpCode::Return => String::from_str("Return"),
        OpCode::NonLocalReturn => String::from_str("NonLocalReturn"),
        OpCode::True => String::from_str("True"),
        OpCode::False => String::from_str("False"),
        OpCode::Nil => String::from_str("Nil"),
        OpCode::IsA(t) => {
            let mut out = String::from_str("IsA(");
            out.append(debug_quote(t.as_str()).as_str());
            out.append(")");
            out
        },
        OpCode::ListLen => String::from_str("ListLen"),
        OpCode::Print => String::from_str("Print"),
        OpCode::RescueMatch(t) => {
            let mut out = String::from_str("RescueMatch(");
            out.append(debug_runtime_type(t).as_str());
            out.append(")");
            out
        },
    }
}

/// The constant that an instruction shows, if it shows one.
pub open spec fn shown_constant(op: OpCode) -> Option<usize> {
    match op {
        OpCode::Constant(i) => Some(i),
        OpCode::Closure(i) => Some(i),
        OpCode::DefClass(i) => Some(i),
        OpCode::GetField(i) => Some(i),
        OpCode::GetFieldSafe(i) => Some(i),
        OpCode::SetField(i) => Some(i),
        OpCode::GetGlobal(i) => Some(i),
        OpCode::SetGlobal(i) => Some(i),
        OpCode::Import(i) => Some(i),
        _ => None,
    }
}

/// Every constant that an instruction shows exists.
pub open spec fn shown_constants_exist(c: Chunk) -> bool {
    forall|k: int| 0 <= k < c.code@.len() ==> (#[trigger] shown_constant(c.code@[k]) matches Some(i) ==> i < c.constants@.len())
}

/// What an instruction's disassembly line says after its offset and line.
pub open spec fn op_text(op: OpCode, constants: Seq<Constant>) -> Seq<char> {
    match op {
        OpCode::Constant(i) => "CONSTANT       "@ + pad4(i as nat) + "  ("@ + const_text(constants[i as int]) + ")"@,
        OpCode::Closure(i) => "CLOSURE        "@ + pad4(i as nat) + "  ("@ + const_text(constants[i as int]) + ")"@,
        OpCode::GetLocal(i) => "GET_LOCAL      "@ + pad4(i as nat),
        OpCode::SetLocal(i) => "SET_LOCAL      "@ + pad4(i as nat),
        OpCode::GetUpvalue(i) => "GET_UPVALUE    "@ + pad4(i as nat),
        OpCode::SetUpvalue(i) => "SET_UPVALUE    "@ + pad4(i as nat),
        OpCode::Jump(i) => "JUMP           "@ + pad4(i as nat),
        OpCode::JumpIfFalse(i) => "JUMP_IF_FALSE  "@ + pad4(i as nat),
        OpCode::Loop(i) => "LOOP           "@ + pad4(i as nat),
        OpCode::Call(i) => "CALL                "@ + pad4(i as nat),
        OpCode::BuildString(i) => "BUILD_STRING        "@ + pad4(i as nat),
        OpCode::BuildList(i) => "BUILD_LIST          "@ + pad4(i as nat),
        OpCode::BuildMap(i) => "BUILD_MAP           "@ + pad4(i as nat),
        OpCode::DefClass(i) => "DEF_CLASS           "@ + pad4(i as nat) + "  ("@ + const_text(constants[i as int]) + ")"@,
        OpCode::NewInstance(i) => "NEW_INSTANCE        "@ + pad4(i as nat),
        OpCode::GetField(i) => "GET_FIELD           "@ + pad4(i as nat) + "  ("@ + const_text(constants[i as int]) + ")"@,
        OpCode::GetFieldSafe(i) => "GET_FIELD_SAFE      "@ + pad4(i as nat) + "  ("@ + const_text(constants[i as int]) + ")"@,
        OpCode::SetField(i) => "SET_FIELD           "@ + pad4(i as nat) + "  ("@ + const_text(constants[i as int]) + ")"@,
        OpCode::JumpIfFalseKeep(i) => "JUMP_IF_FALSE_KEEP  "@ + pad4(i as nat),
        OpCode::JumpIfTrueKeep(i) => "JUMP_IF_TRUE_KEEP   "@ + pad4(i as nat),
        OpCode::GetGlobal(i) => "GET_GLOBAL          "@ + pad4(i as nat) + "  ("@ + const_text(constants[i as int]) + ")"@,
        OpCode::SetGlobal(i) => "SET_GLOBAL          "@ + pad4(i as nat) + "  ("@ + const_text(constants[i as int]) + ")"@,
        OpCode::Import(i) => "IMPORT              "@ + pad4(i as nat) + "  ("@ + const_text(constants[i as int]) + ")"@,
        OpCode::Invoke(n, argc) => "INVOKE              "@ + pad4(n as nat) + "  argc="@ + nat_digits(argc as nat),
        OpCode::SuperInvoke(n, argc) => "SUPER_INVOKE        "@ + pad4(n as nat) + "  argc="@ + nat_digits(argc as nat),
        _ => op_debug(op),
    }
}

/// The line column of a disassembly line: `   |` when the instruction is on
/// the same source line as the one before, else the line number.
pub open spec fn line_text(lines: Seq<u32>, k: int) -> Seq<char> {
    if k > 0 && lines[k - 1] == lines[k] {
        "   |"@
    } else {
        pad4(lines[k] as nat)
    }
}

/// The disassembly of a chunk: a header, then one line per instruction.
pub open spec fn disassembly(c: Chunk, name: Seq<char>) -> Seq<Seq<char>> {
    seq!["=== "@ + name + " ==="@] + Seq::new(
        c.code@.len(),
        |k: int| zero4(k as nat) + "  "@ + line_text(c.lines@, k) + "  "@ + op_text(c.code@[k], c.constants@),
    )
}

impl Chunk {
    fn op_display(&self, k: usize) -> (s: String)
        requires
            k < self.code@.len(),
            shown_constants_exist(*self),
        ensures
            s@ == op_text(self.code@[k as int], self.constants@),
    {
        assert(shown_constant(self.code@[k as int]) matches Some(i) ==> i < self.constants@.len());
        let mut out = String::new();
        match &self.code[k] {
            OpCode::Constant(i) => {
                out.append("CONSTANT       ");
                out.append(pad4_string(*i).as_str());
                out.append("  (");
                out.append(self.constants[*i].display_text().as_str());
                out.append(")");
            },
            OpCode::Closure(i) => {
                out.append("CLOSURE        ");
                out.append(pad4_string(*i).as_str());
                out.append("  (");
                out.append(self.constants[*i].display_text().as_str());
                out.append(")");
            },
            OpCode::GetLocal(i) => {
                out.append("GET_LOCAL      ");
                out.append(pad4_string(*i).as_str());
            },
            OpCode::SetLocal(i) => {
                out.append("SET_LOCAL      ");
                out.append(pad4_string(*i).as_str());
            },
            OpCode::GetUpvalue(i) => {
                out.append("GET_UPVALUE    ");
                out.append(pad4_string(*i).as_str());
            },
            OpCode::SetUpvalue(i) => {
                out.append("SET_UPVALUE    ");
                out.append(pad4_string(*i).as_str());
            },
            OpCode::Jump(i) => {
                out.append("JUMP           ");
                out.append(pad4_string(*i).as_str());
            },
            OpCode::JumpIfFalse(i) => {
                out.append("JUMP_IF_FALSE  ");
                out.append(pad4_string(*i).as_str());
            },
            OpCode::Loop(i) => {
                out.append("LOOP           ");
                out.append(pad4_string(*i).as_str());
            },
            OpCode::Call(i) => {
                out.append("CALL                ");
                out.append(pad4_string(*i).as_str());
            },
            OpCode::BuildString(i) => {
                out.append("BUILD_STRING        ");
                out.append(pad4_string(*i).as_str());
            },
            OpCode::BuildList(i) => {
                out.append("BUILD_LIST          ");
                out.append(pad4_string(*i).as_str());
            },
            OpCode::BuildMap(i) => {
                out.append("BUILD_MAP           ");
                out.append(pad4_string(*i).as_str());
            },
            OpCode::DefClass(i) => {
                out.append("DEF_CLASS           ");
                out.append(pad4_string(*i).as_str());
                out.append("  (");
                out.append(self.constants[*i].display_text().as_str());
                out.append(")");
            },
            OpCode::NewInstance(i) => {
                out.append("NEW_INSTANCE        ");
                out.append(pad4_string(*i).as_str());
            },
            OpCode::GetField(i) => {
                out.append("GET_FIELD           ");
                out.append(pad4_string(*i).as_str());
                out.append("  (");
                out.append(self.constants[*i].display_text().as_str());
                out.append(")");
            },
            OpCode::GetFieldSafe(i) => {
                out.append("GET_FIELD_SAFE      ");
                out.append(pad4_string(*i).as_str());
                out.append("  (");
                out.append(self.constants[*i].display_text().as_str());
                out.append(")");
            },
            OpCode::SetField(i) => {
                out.append("SET_FIELD           ");
                out.append(pad4_string(*i).as_str());
                out.append("  (");
                out.append(self.constants[*i].display_text().as_str());
                out.append(")");
            },
            OpCode::JumpIfFalseKeep(i) => {
                out.append("JUMP_IF_FALSE_KEEP  ");
                out.append(pad4_string(*i).as_str());
            },
            OpCode::JumpIfTrueKeep(i) => {
                out.append("JUMP_IF_TRUE_KEEP   ");
                out.append(pad4_string(*i).as_str());
            },
            OpCode::GetGlobal(i) => {
                out.append("GET_GLOBAL          ");
                out.append(pad4_string(*i).as_str());
                out.append("  (");
                out.append(self.constants[*i].display_text().as_str());
                out.append(")");
            },
            OpCode::SetGlobal(i) => {
                out.append("SET_GLOBAL          ");
                out.append(pad4_string(*i).as_str());
                out.append("  (");
                out.append(self.constants[*i].display_text().as_str());
                out.append(")");
            },
            OpCode::Import(i) => {
                out.append("IMPORT              ");
                out.append(pad4_string(*i).as_str());
                out.append("  (");
                out.append(self.constants[*i].display_text().as_str());
                out.append(")");
            },
            OpCode::Invoke(n, argc) => {
                out.append("INVOKE              ");
                out.append(pad4_string(*n).as_str());
                out.append("  argc=");
                out.append(u64_to_string(*argc as u64).as_str());
            },
            OpCode::SuperInvoke(n, argc) => {
                out.append("SUPER_INVOKE        ");
                out.append(pad4_string(*n).as_str());
                out.append("  argc=");
                out.append(u64_to_string(*argc as u64).as_str());
            },
            other => {
                out.append(debug_op(other).as_str());
            },
        }
        out
    }

    /// The lines of the disassembly of this chunk under `name` (see
    /// `disassembly`).
    pub fn disassemble_lines(&self, name: &str) -> (out: Vec<String>)
        requires
            self.lines@.len() == self.code@.len(),
            shown_constants_exist(*self),
        ensures
            out@.len() == self.code@.len() + 1,
            forall|k: int| 0 <= k < out@.len() ==> #[trigger] out@[k]@ == disassembly(*self, name@)[k],
    {
        let mut header = String::from_str("=== ");
        header.append(name);
        header.append(" ===");
        let mut lines: Vec<String> = Vec::new();
        lines.push(header);
        let mut offset: usize = 0;
        while offset < self.code.len()
            invariant
                offset <= self.code@.len(),
                self.lines@.len() == self.code@.len(),
                shown_constants_exist(*self),
                lines@.len() == offset + 1,
                forall|k: int| 0 <= k < lines@.len() ==> #[trigger] lines@[k]@ == disassembly(*self, name@)[k],
            decreases self.code@.len() - offset,
        {
            let mut out = pad_to4(u64_to_string(offset as u64), '0');
            out.append("  ");
            let line = self.lines[offset];
            if offset > 0 && self.lines[offset - 1] == line {
                out.append("   |");
            } else {
                out.append(pad4_string(line as usize).as_str());
            }
            out.append("  ");
            out.append(self.op_display(offset).as_str());
            lines.push(out);
            offset += 1;
        }
        lines
    }
}

} // verus!
