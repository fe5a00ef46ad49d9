//! The value stack of one guest coroutine, as a sequence of plain values, and
//! the checks that native functions make on their arguments.
//!
//! A stack index counts from 1 at the bottom, or from -1 at the top; any
//! other index, a pseudo-index among them, addresses no slot and reads as
//! holding no value.

use vstd::prelude::*;
use vstd::string::StringSliceAdditionalSpecFns;
use vstd::string::StrSliceExecFns;
use vstd::utf8::valid_utf8;
use crate::bytes;
use super::extra::Type;
use super::ffi::lua_State;
use super::thread::Thread;

verus! {

/// A guest value. Numbers and vectors are kept as the bits of their floats;
/// tables, functions and userdata as the engine's identity of the object.
#[derive(Debug)]
pub enum Value {
    Nil,
    Boolean(bool),
    LightUserdata(u64),
    Number(u64),
    Vector(u32, u32, u32),
    String(Vec<u8>),
    Table(u64),
    Function(u64),
    Userdata(u64),
    Thread(Thread),
    Buffer(Vec<u8>),
}

impl Value {
    /// The type of this value.
    pub open spec fn kind(self) -> Type {
        match self {
            Value::Nil => Type::Nil,
            Value::Boolean(_) => Type::Boolean,
            Value::LightUserdata(_) => Type::LightUserdata,
            Value::Number(_) => Type::Number,
            Value::Vector(_, _, _) => Type::Vector,
            Value::String(_) => Type::String,
            Value::Table(_) => Type::Table,
            Value::Function(_) => Type::Function,
            Value::Userdata(_) => Type::Userdata,
            Value::Thread(_) => Type::Thread,
            Value::Buffer(_) => Type::Buffer,
        }
    }

    /// The type of this value.
    pub fn type_of(&self) -> (ty: Type)
        ensures
            ty == self.kind(),
    {
        match self {
            Value::Nil => Type::Nil,
            Value::Boolean(_) => Type::Boolean,
            Value::LightUserdata(_) => Type::LightUserdata,
            Value::Number(_) => Type::Number,
            Value::Vector(_, _, _) => Type::Vector,
            Value::String(_) => Type::String,
            Value::Table(_) => Type::Table,
            Value::Function(_) => Type::Function,
            Value::Userdata(_) => Type::Userdata,
            Value::Thread(_) => Type::Thread,
            Value::Buffer(_) => Type::Buffer,
        }
    }
}

/// An argument of the wrong type or shape, with the message raised into the
/// calling coroutine.
#[derive(Debug)]
pub struct ArgumentError {
    pub message: Vec<u8>,
}

/// The decimal digits of `n`.
pub open spec fn decimal(n: nat) -> Seq<u8>
    decreases n,
{
    if n < 10 {
        seq![(48 + n) as u8]
    } else {
        decimal(n / 10).push((48 + n % 10) as u8)
    }
}

/// The message for argument `idx` where `expected` was expected and a value
/// of type `got` was found.
pub open spec fn bad_argument(idx: u32, expected: Seq<u8>, got: Type) -> Seq<u8> {
    "bad argument #".spec_bytes() + decimal(idx as nat) + " to function (".spec_bytes() + expected
        + " expected, got ".spec_bytes() + got.spec_name() + ")".spec_bytes()
}

/// The stack index that an argument number stands for: the number itself, or,
/// above the largest index, the number less 2^32.
pub open spec fn wrapped(idx: u32) -> int {
    if idx <= 0x7fff_ffff {
        idx as int
    } else {
        idx as int - 0x1_0000_0000
    }
}

/// The slot that index `idx` addresses on a stack of `top` values, counted
/// from 0 at the bottom.
pub open spec fn slot_of(top: int, idx: int) -> Option<int> {
    if 1 <= idx <= top {
        Some(idx - 1)
    } else if -top <= idx <= -1 {
        Some(top + idx)
    } else {
        None
    }
}

/// The decimal digits of `n`.
pub fn digits(n: u32) -> (text: Vec<u8>)
    ensures
        text@ == decimal(n as nat),
    decreases n,
{
    if n < 10 {
        let mut text: Vec<u8> = Vec::new();
        text.push(48 + n as u8);
        assert(text@ =~= seq![(48 + n) as u8]);
        text
    } else {
        let mut text = digits(n / 10);
        text.push(48 + (n % 10) as u8);
        text
    }
}

/// The index that an argument number stands for.
pub fn index_of_argument(idx: u32) -> (at: i32)
    ensures
        at == wrapped(idx),
{
    if idx <= 0x7fff_ffff {
        idx as i32
    } else {
        let low: u32 = idx - 0x8000_0000;
        (low as i32) + i32::MIN
    }
}

/// The value stack of one guest coroutine.
#[derive(Debug)]
pub struct Stack {
    state: lua_State,
    slots: Vec<Value>,
}

impl View for Stack {
    type V = Seq<Value>;

    closed spec fn view(&self) -> Seq<Value> {
        self.slots@
    }
}

impl Stack {
    /// The stack is no higher than an index can reach.
    pub open spec fn wf(&self) -> bool {
        self@.len() <= i32::MAX
    }

    /// The coroutine whose stack this is.
    pub closed spec fn owner(&self) -> lua_State {
        self.state
    }

    /// The value at index `idx`, if the index addresses a slot.
    pub open spec fn value_at(&self, idx: int) -> Option<Value> {
        match slot_of(self@.len() as int, idx) {
            Some(i) => Some(self@[i]),
            None => None,
        }
    }

    /// The type of the value at index `idx`.
    pub open spec fn spec_type_of(&self, idx: int) -> Type {
        match self.value_at(idx) {
            Some(v) => v.kind(),
            None => Type::NoValue,
        }
    }

    /// The empty stack of the coroutine `state`.
    pub fn new(state: lua_State) -> (stack: Stack)
        ensures
            stack.wf(),
            stack.owner() == state,
            stack@ == Seq::<Value>::empty(),
    {
        Stack { state, slots: Vec::new() }
    }

    /// The engine state whose stack this is.
    pub fn inner(&self) -> (state: lua_State)
        ensures
            state == self.owner(),
    {
        self.state
    }

    /// The address of the engine state whose stack this is.
    pub fn as_ptr(&self) -> (address: u64)
        ensures
            address == self.owner().address,
    {
        self.state.address
    }

    /// The coroutine whose stack this is.
    pub fn thread(&self) -> (thread: Thread)
        ensures
            thread == Thread(self.owner()),
    {
        Thread(self.state)
    }

    /// The number of values on the stack.
    pub fn get_top(&self) -> (top: u32)
        requires
            self.wf(),
        ensures
            top == self@.len(),
    {
        self.slots.len() as u32
    }

    /// Puts `value` on top of the stack.
    pub fn push(&mut self, value: Value)
        requires
            old(self).wf(),
            old(self)@.len() < i32::MAX,
        ensures
            final(self).wf(),
            final(self).owner() == old(self).owner(),
            final(self)@ == old(self)@.push(value),
    {
        self.slots.push(value);
    }

    /// Puts nil on top of the stack.
    pub fn push_nil(&mut self)
        requires
            old(self).wf(),
            old(self)@.len() < i32::MAX,
        ensures
            final(self).wf(),
            final(self).owner() == old(self).owner(),
            final(self)@ == old(self)@.push(Value::Nil),
    {
        self.slots.push(Value::Nil);
    }

    /// Puts a boolean on top of the stack.
    pub fn push_boolean(&mut self, b: bool)
        requires
            old(self).wf(),
            old(self)@.len() < i32::MAX,
        ensures
            final(self).wf(),
            final(self).owner() == old(self).owner(),
            final(self)@ == old(self)@.push(Value::Boolean(b)),
    {
        self.slots.push(Value::Boolean(b));
    }

    /// Puts a string with the bytes of `s` on top of the stack.
    pub fn push_string(&mut self, s: &[u8])
        requires
            old(self).wf(),
            old(self)@.len() < i32::MAX,
        ensures
            final(self).wf(),
            final(self).owner() == old(self).owner(),
            final(self)@.len() == old(self)@.len() + 1,
            final(self)@.drop_last() == old(self)@,
            final(self)@.last() matches Value::String(b) && b@ == s@,
    {
        let owned = bytes::take(s, s.len());
        assert(s@.subrange(0, s.len() as int) =~= s@);
        self.slots.push(Value::String(owned));
        assert(self.slots@.drop_last() =~= old(self).slots@);
    }

    /// Puts the coroutine `thread` on top of the stack.
    pub fn push_thread(&mut self, thread: &Thread)
        requires
            old(self).wf(),
            old(self)@.len() < i32::MAX,
        ensures
            final(self).wf(),
            final(self).owner() == old(self).owner(),
            final(self)@ == old(self)@.push(Value::Thread(*thread)),
    {
        self.slots.push(Value::Thread(*thread));
    }

    /// Sets the height of the stack to `n`: values above are dropped, and new
    /// slots hold nil.
    pub fn set_top(&mut self, n: u32)
        requires
            old(self).wf(),
            n <= i32::MAX,
        ensures
            final(self).wf(),
            final(self).owner() == old(self).owner(),
            final(self)@.len() == n,
            forall|i: int| 0 <= i < n && i < old(self)@.len() ==> final(self)@[i] == old(self)@[i],
            forall|i: int| old(self)@.len() <= i < n ==> final(self)@[i] == Value::Nil,
    {
        let n: usize = n as usize;
        if n <= self.slots.len() {
            self.slots.truncate(n);
        } else {
            while self.slots.len() < n
                invariant
                    n <= i32::MAX,
                    self.state == old(self).state,
                    old(self).slots@.len() <= self.slots@.len() <= n,
                    forall|i: int| 0 <= i < old(self).slots@.len() ==> self.slots@[i] == old(
                        self,
                    ).slots@[i],
                    forall|i: int|
                        old(self).slots@.len() <= i < self.slots@.len() ==> self.slots@[i]
                            == Value::Nil,
                decreases n - self.slots@.len(),
            {
                self.slots.push(Value::Nil);
            }
        }
    }

    /// Drops the `n` values on top of the stack.
    pub fn pop(&mut self, n: u32)
        requires
            old(self).wf(),
            n <= old(self)@.len(),
        ensures
            final(self).wf(),
            final(self).owner() == old(self).owner(),
            final(self)@ == old(self)@.subrange(0, old(self)@.len() - n),
    {
        let top = self.get_top();
        self.set_top(top - n);
        assert(self@ =~= old(self)@.subrange(0, old(self)@.len() - n));
    }

    fn peek(&self, idx: i32) -> (found: Option<&Value>)
        requires
            self.wf(),
        ensures
            found is Some <==> self.value_at(idx as int) is Some,
            found is Some ==> *found->0 == self.value_at(idx as int)->0,
    {
        let top: usize = self.slots.len();
        if idx >= 1 && idx as usize <= top {
            Some(&self.slots[idx as usize - 1])
        } else if idx <= -1 && idx > i32::MIN && (-idx) as usize <= top {
            Some(&self.slots[top - (-idx) as usize])
        } else {
            assert(idx == i32::MIN ==> -top > idx as int);
            None
        }
    }

    /// The type of the value at index `idx`.
    pub fn type_of(&self, idx: i32) -> (ty: Type)
        requires
            self.wf(),
        ensures
            ty == self.spec_type_of(idx as int),
    {
        match self.peek(idx) {
            Some(v) => v.type_of(),
            None => Type::NoValue,
        }
    }

    /// Whether index `idx` holds no value.
    pub fn is_none(&self, idx: i32) -> (is: bool)
        requires
            self.wf(),
        ensures
            is == (self.spec_type_of(idx as int) == Type::NoValue),
    {
        self.type_of(idx) == Type::NoValue
    }

    /// Whether index `idx` holds nil.
    pub fn is_nil(&self, idx: i32) -> (is: bool)
        requires
            self.wf(),
        ensures
            is == (self.spec_type_of(idx as int) == Type::Nil),
    {
        self.type_of(idx) == Type::Nil
    }

    /// Whether index `idx` holds a boolean.
    pub fn is_boolean(&self, idx: i32) -> (is: bool)
        requires
            self.wf(),
        ensures
            is == (self.spec_type_of(idx as int) == Type::Boolean),
    {
        self.type_of(idx) == Type::Boolean
    }

    /// Whether index `idx` holds a light userdata.
    pub fn is_light_userdata(&self, idx: i32) -> (is: bool)
        requires
            self.wf(),
        ensures
            is == (self.spec_type_of(idx as int) == Type::LightUserdata),
    {
        self.type_of(idx) == Type::LightUserdata
    }

    /// Whether index `idx` holds a number.
    pub fn is_number(&self, idx: i32) -> (is: bool)
        requires
            self.wf(),
        ensures
            is == (self.spec_type_of(idx as int) == Type::Number),
    {
        self.type_of(idx) == Type::Number
    }

    /// Whether index `idx` holds a vector.
    pub fn is_vector(&self, idx: i32) -> (is: bool)
        requires
            self.wf(),
        ensures
            is == (self.spec_type_of(idx as int) == Type::Vector),
    {
        self.type_of(idx) == Type::Vector
    }

    /// Whether index `idx` holds a string.
    pub fn is_string(&self, idx: i32) -> (is: bool)
        requires
            self.wf(),
        ensures
            is == (self.spec_type_of(idx as int) == Type::String),
    {
        self.type_of(idx) == Type::String
    }

    /// Whether index `idx` holds a table.
    pub fn is_table(&self, idx: i32) -> (is: bool)
        requires
            self.wf(),
        ensures
            is == (self.spec_type_of(idx as int) == Type::Table),
    {
        self.type_of(idx) == Type::Table
    }

    /// Whether index `idx` holds a function.
    pub fn is_function(&self, idx: i32) -> (is: bool)
        requires
            self.wf(),
        ensures
            is == (self.spec_type_of(idx as int) == Type::Function),
    {
        self.type_of(idx) == Type::Function
    }

    /// Whether index `idx` holds a userdata.
    pub fn is_userdata(&self, idx: i32) -> (is: bool)
        requires
            self.wf(),
        ensures
            is == (self.spec_type_of(idx as int) == Type::Userdata),
    {
        self.type_of(idx) == Type::Userdata
    }

    /// Whether index `idx` holds a coroutine.
    pub fn is_thread(&self, idx: i32) -> (is: bool)
        requires
            self.wf(),
        ensures
            is == (self.spec_type_of(idx as int) == Type::Thread),
    {
        self.type_of(idx) == Type::Thread
    }

    /// Whether index `idx` holds a buffer.
    pub fn is_buffer(&self, idx: i32) -> (is: bool)
        requires
            self.wf(),
        ensures
            is == (self.spec_type_of(idx as int) == Type::Buffer),
    {
        self.type_of(idx) == Type::Buffer
    }

    /// The boolean at index `idx`, if it holds one.
    pub fn to_boolean(&self, idx: i32) -> (found: Option<bool>)
        requires
            self.wf(),
        ensures
            match self.value_at(idx as int) {
                Some(Value::Boolean(b)) => found == Some(b),
                _ => found is None,
            },
    {
        match self.peek(idx) {
            Some(Value::Boolean(b)) => Some(*b),
            _ => None,
        }
    }

    /// The address in the light userdata at index `idx`, if it holds one.
    pub fn to_light_userdata(&self, idx: i32) -> (found: Option<u64>)
        requires
            self.wf(),
        ensures
            match self.value_at(idx as int) {
                Some(Value::LightUserdata(p)) => found == Some(p),
                _ => found is None,
            },
    {
        match self.peek(idx) {
            Some(Value::LightUserdata(p)) => Some(*p),
            _ => None,
        }
    }

    /// The bytes of the string at index `idx`, if it holds one. A number is
    /// not read as a string.
    pub fn to_string_slice(&self, idx: i32) -> (found: Option<&[u8]>)
        requires
            self.wf(),
        ensures
            match self.value_at(idx as int) {
                Some(Value::String(s)) => found is Some && found->0@ == s@,
                _ => found is None,
            },
    {
        match self.peek(idx) {
            Some(Value::String(s)) => Some(s.as_slice()),
            _ => None,
        }
    }

    /// The string at index `idx` as text, if it holds a string of valid UTF-8.
    pub fn to_string_str(&self, idx: i32) -> (found: Option<&str>)
        requires
            self.wf(),
        ensures
            match self.value_at(idx as int) {
                Some(Value::String(s)) => (found is Some <==> valid_utf8(s@)) && (found is Some
                    ==> found->0.spec_bytes() == s@),
                _ => found is None,
            },
    {
        match self.to_string_slice(idx) {
            Some(s) => text_of(s),
            None => None,
        }
    }

    /// The coroutine at index `idx`, if it holds one.
    pub fn to_thread(&self, idx: i32) -> (found: Option<Thread>)
        requires
            self.wf(),
        ensures
            match self.value_at(idx as int) {
                Some(Value::Thread(t)) => found == Some(t),
                _ => found is None,
            },
    {
        match self.peek(idx) {
            Some(Value::Thread(t)) => Some(*t),
            _ => None,
        }
    }

    /// The bytes of the buffer at index `idx`, if it holds one.
    pub fn to_buffer(&self, idx: i32) -> (found: Option<&[u8]>)
        requires
            self.wf(),
        ensures
            match self.value_at(idx as int) {
                Some(Value::Buffer(b)) => found is Some && found->0@ == b@,
                _ => found is None,
            },
    {
        match self.peek(idx) {
            Some(Value::Buffer(b)) => Some(b.as_slice()),
            _ => None,
        }
    }

    /// The error for argument `idx`, of which `expected` was expected.
    pub fn argument_error(&self, idx: u32, expected: &str) -> (e: ArgumentError)
        requires
            self.wf(),
        ensures
            e.message@ == bad_argument(
                idx,
                expected.spec_bytes(),
                self.spec_type_of(wrapped(idx)),
            ),
    {
        let got = self.type_of(index_of_argument(idx)).name();
        let mut message = "bad argument #".as_bytes_vec();
        let number = digits(idx);
        bytes::append(&mut message, number.as_slice());
        bytes::append(&mut message, " to function (".as_bytes());
        bytes::append(&mut message, expected.as_bytes());
        bytes::append(&mut message, " expected, got ".as_bytes());
        bytes::append(&mut message, got.as_slice());
        bytes::append(&mut message, ")".as_bytes());
        ArgumentError { message }
    }
}

impl Stack {
    /// Argument `idx` where it is absent or nil.
    pub open spec fn is_missing(&self, idx: u32) -> bool {
        self.spec_type_of(wrapped(idx)) == Type::NoValue || self.spec_type_of(wrapped(idx))
            == Type::Nil
    }

    /// The message for argument `idx`, of which `expected` was expected.
    pub open spec fn complaint(&self, idx: u32, expected: Seq<u8>) -> Seq<u8> {
        bad_argument(idx, expected, self.spec_type_of(wrapped(idx)))
    }

    fn missing(&self, idx: u32) -> (is: bool)
        requires
            self.wf(),
        ensures
            is == self.is_missing(idx),
    {
        match self.type_of(index_of_argument(idx)) {
            Type::NoValue => true,
            Type::Nil => true,
            _ => false,
        }
    }

    /// Argument `idx` as a boolean; any other value is an error.
    pub fn arg_boolean(&self, idx: u32) -> (r: Result<bool, ArgumentError>)
        requires
            self.wf(),
        ensures
            match self.value_at(wrapped(idx)) {
                Some(Value::Boolean(b)) => r == Ok::<bool, ArgumentError>(b),
                _ => r is Err && r->Err_0.message@ == self.complaint(idx, "boolean".spec_bytes()),
            },
    {
        match self.to_boolean(index_of_argument(idx)) {
            Some(b) => Ok(b),
            None => Err(self.argument_error(idx, "boolean")),
        }
    }

    /// Argument `idx` as a boolean, or nothing where it is absent or nil; any
    /// other value is an error.
    pub fn arg_boolean_opt(&self, idx: u32) -> (r: Result<Option<bool>, ArgumentError>)
        requires
            self.wf(),
        ensures
            match self.value_at(wrapped(idx)) {
                Some(Value::Boolean(b)) => r == Ok::<Option<bool>, ArgumentError>(Some(b)),
                _ => if self.is_missing(idx) {
                    r == Ok::<Option<bool>, ArgumentError>(None)
                } else {
                    r is Err && r->Err_0.message@ == self.complaint(
                        idx,
                        "boolean or nil".spec_bytes(),
                    )
                },
            },
    {
        match self.to_boolean(index_of_argument(idx)) {
            Some(b) => Ok(Some(b)),
            None => {
                if self.missing(idx) {
                    Ok(None)
                } else {
                    Err(self.argument_error(idx, "boolean or nil"))
                }
            },
        }
    }

    /// Argument `idx` as the bytes of a string; any other value is an error.
    pub fn arg_string_slice(&self, idx: u32) -> (r: Result<&[u8], ArgumentError>)
        requires
            self.wf(),
        ensures
            match self.value_at(wrapped(idx)) {
                Some(Value::String(s)) => r is Ok && r->Ok_0@ == s@,
                _ => r is Err && r->Err_0.message@ == self.complaint(idx, "string".spec_bytes()),
            },
    {
        match self.to_string_slice(index_of_argument(idx)) {
            Some(s) => Ok(s),
            None => Err(self.argument_error(idx, "string")),
        }
    }

    /// Argument `idx` as text; any value but a string of valid UTF-8 is an
    /// error.
    pub fn arg_string_str(&self, idx: u32) -> (r: Result<&str, ArgumentError>)
        requires
            self.wf(),
        ensures
            match self.value_at(wrapped(idx)) {
                Some(Value::String(s)) if valid_utf8(s@) => r is Ok && r->Ok_0.spec_bytes() == s@,
                _ => r is Err && r->Err_0.message@ == self.complaint(idx, "string".spec_bytes()),
            },
    {
        match self.to_string_str(index_of_argument(idx)) {
            Some(s) => Ok(s),
            None => Err(self.argument_error(idx, "string")),
        }
    }

    /// Argument `idx` as the bytes of a string, or nothing where it is absent
    /// or nil; any other value is an error.
    pub fn arg_string_opt_slice(&self, idx: u32) -> (r: Result<Option<&[u8]>, ArgumentError>)
        requires
            self.wf(),
        ensures
            match self.value_at(wrapped(idx)) {
                Some(Value::String(s)) => r is Ok && r->Ok_0 is Some && r->Ok_0->0@ == s@,
                _ => if self.is_missing(idx) {
                    r is Ok && r->Ok_0 is None
                } else {
                    r is Err && r->Err_0.message@ == self.complaint(
                        idx,
                        "string or nil".spec_bytes(),
                    )
                },
            },
    {
        match self.to_string_slice(index_of_argument(idx)) {
            Some(s) => Ok(Some(s)),
            None => {
                if self.missing(idx) {
                    Ok(None)
                } else {
                    Err(self.argument_error(idx, "string or nil"))
                }
            },
        }
    }

    /// Argument `idx` as text, or nothing where it is absent or nil; any
    /// other value but a string of valid UTF-8 is an error.
    pub fn arg_string_opt_str(&self, idx: u32) -> (r: Result<Option<&str>, ArgumentError>)
        requires
            self.wf(),
        ensures
            match self.value_at(wrapped(idx)) {
                Some(Value::String(s)) if valid_utf8(s@) => r is Ok && r->Ok_0 is Some
                    && r->Ok_0->0.spec_bytes() == s@,
                _ => if self.is_missing(idx) {
                    r is Ok && r->Ok_0 is None
                } else {
                    r is Err && r->Err_0.message@ == self.complaint(
                        idx,
                        "string or nil".spec_bytes(),
                    )
                },
            },
    {
        match self.to_string_str(index_of_argument(idx)) {
            Some(s) => Ok(Some(s)),
            None => {
                if self.missing(idx) {
                    Ok(None)
                } else {
                    Err(self.argument_error(idx, "string or nil"))
                }
            },
        }
    }

    /// Checks that argument `idx` is a table.
    pub fn arg_table(&self, idx: u32) -> (r: Result<(), ArgumentError>)
        requires
            self.wf(),
        ensures
            self.spec_type_of(wrapped(idx)) == Type::Table ==> r is Ok,
            self.spec_type_of(wrapped(idx)) != Type::Table ==> r is Err && r->Err_0.message@
                == self.complaint(idx, "table".spec_bytes()),
    {
        match self.type_of(index_of_argument(idx)) {
            Type::Table => Ok(()),
            _ => Err(self.argument_error(idx, "table")),
        }
    }

    /// Checks that argument `idx` is a table, or absent or nil; says which.
    pub fn arg_table_opt(&self, idx: u32) -> (r: Result<Option<()>, ArgumentError>)
        requires
            self.wf(),
        ensures
            self.spec_type_of(wrapped(idx)) == Type::Table ==> r is Ok && r->Ok_0 is Some,
            self.is_missing(idx) ==> r is Ok && r->Ok_0 is None,
            self.spec_type_of(wrapped(idx)) != Type::Table && !self.is_missing(idx) ==> r is Err
                && r->Err_0.message@ == self.complaint(idx, "table or nil".spec_bytes()),
    {
        match self.type_of(index_of_argument(idx)) {
            Type::Table => Ok(Some(())),
            Type::NoValue => Ok(None),
            Type::Nil => Ok(None),
            _ => Err(self.argument_error(idx, "table or nil")),
        }
    }

    /// Argument `idx` as a coroutine; any other value is an error.
    pub fn arg_thread(&self, idx: u32) -> (r: Result<Thread, ArgumentError>)
        requires
            self.wf(),
        ensures
            match self.value_at(wrapped(idx)) {
                Some(Value::Thread(t)) => r == Ok::<Thread, ArgumentError>(t),
                _ => r is Err && r->Err_0.message@ == self.complaint(idx, "thread".spec_bytes()),
            },
    {
        match self.to_thread(index_of_argument(idx)) {
            Some(t) => Ok(t),
            None => Err(self.argument_error(idx, "thread")),
        }
    }

    /// Argument `idx` as a coroutine, or nothing where it is absent or nil;
    /// any other value is an error.
    pub fn arg_thread_opt(&self, idx: u32) -> (r: Result<Option<Thread>, ArgumentError>)
        requires
            self.wf(),
        ensures
            match self.value_at(wrapped(idx)) {
                Some(Value::Thread(t)) => r == Ok::<Option<Thread>, ArgumentError>(Some(t)),
                _ => if self.is_missing(idx) {
                    r == Ok::<Option<Thread>, ArgumentError>(None)
                } else {
                    r is Err && r->Err_0.message@ == self.complaint(
                        idx,
                        "thread or nil".spec_bytes(),
                    )
                },
            },
    {
        match self.to_thread(index_of_argument(idx)) {
            Some(t) => Ok(Some(t)),
            None => {
                if self.missing(idx) {
                    Ok(None)
                } else {
                    Err(self.argument_error(idx, "thread or nil"))
                }
            },
        }
    }

    /// Argument `idx` as the bytes of a buffer; any other value is an error.
    pub fn arg_buffer(&self, idx: u32) -> (r: Result<&[u8], ArgumentError>)
        requires
            self.wf(),
        ensures
            match self.value_at(wrapped(idx)) {
                Some(Value::Buffer(b)) => r is Ok && r->Ok_0@ == b@,
                _ => r is Err && r->Err_0.message@ == self.complaint(idx, "buffer".spec_bytes()),
            },
    {
        match self.to_buffer(index_of_argument(idx)) {
            Some(b) => Ok(b),
            None => Err(self.argument_error(idx, "buffer")),
        }
    }

    /// Argument `idx` as the bytes of a buffer, or nothing where it is absent
    /// or nil; any other value is an error.
    pub fn arg_buffer_opt(&self, idx: u32) -> (r: Result<Option<&[u8]>, ArgumentError>)
        requires
            self.wf(),
        ensures
            match self.value_at(wrapped(idx)) {
                Some(Value::Buffer(b)) => r is Ok && r->Ok_0 is Some && r->Ok_0->0@ == b@,
                _ => if self.is_missing(idx) {
                    r is Ok && r->Ok_0 is None
                } else {
                    r is Err && r->Err_0.message@ == self.complaint(
                        idx,
                        "buffer or nil".spec_bytes(),
                    )
                },
            },
    {
        match self.to_buffer(index_of_argument(idx)) {
            Some(b) => Ok(Some(b)),
            None => {
                if self.missing(idx) {
                    Ok(None)
                } else {
                    Err(self.argument_error(idx, "buffer or nil"))
                }
            },
        }
    }
}

/// `core::str::from_utf8`: the bytes as text where they are valid UTF-8, and
/// nothing where they are not. The text, where there is one, has exactly the
/// bytes given.
#[verifier::external_body]
pub(crate) fn text_of(bytes: &[u8]) -> (text: Option<&str>)
    ensures
        text is Some <==> valid_utf8(bytes@),
        text is Some ==> text->0.spec_bytes() == bytes@,
{
    match core::str::from_utf8(bytes) {
        Ok(text) => Some(text),
        Err(_) => None,
    }
}

} // verus!
