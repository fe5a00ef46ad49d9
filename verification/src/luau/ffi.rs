//! The guest engine's own status, type and result codes, as they cross the
//! engine boundary.
#![allow(non_camel_case_types)]

use vstd::prelude::*;

verus! {

/// The engine's pseudo-index of the registry table.
pub const LUA_REGISTRYINDEX: i32 = -10000;

/// The engine's pseudo-index of the running function's environment.
pub const LUA_ENVIRONINDEX: i32 = -10001;

/// The engine's pseudo-index of the globals table.
pub const LUA_GLOBALSINDEX: i32 = -10002;

/// The pseudo-index of the running function's `i`-th upvalue.
pub fn lua_upvalueindex(i: i32) -> (idx: i32)
    requires
        LUA_GLOBALSINDEX - i >= i32::MIN,
        LUA_GLOBALSINDEX - i <= i32::MAX,
    ensures
        idx == LUA_GLOBALSINDEX - i,
{
    LUA_GLOBALSINDEX - i
}

/// Whether `i` addresses a pseudo-slot rather than a stack slot.
pub fn lua_ispseudo(i: i32) -> (pseudo: bool)
    ensures
        pseudo == (i <= LUA_REGISTRYINDEX),
{
    i <= LUA_REGISTRYINDEX
}

/// The identity of one coroutine of the guest engine: the address of its
/// state, which the engine keeps fixed while the coroutine lives.
#[derive(Debug, Clone, Copy, PartialEq, Eq, Structural)]
pub struct lua_State {
    pub address: u64,
}

/// What a resume or a protected call reports.
#[derive(Debug, Clone, Copy, PartialEq, Eq, Structural)]
pub enum lua_Status {
    LUA_OK,
    LUA_YIELD,
    LUA_ERRRUN,
    LUA_ERRSYNTAX,
    LUA_ERRMEM,
    LUA_ERRERR,
    LUA_BREAK,
}

/// The state of a coroutine as seen from outside it.
#[derive(Debug, Clone, Copy, PartialEq, Eq, Structural)]
pub enum lua_CoStatus {
    LUA_CORUN,
    LUA_COSUS,
    LUA_CONOR,
    LUA_COFIN,
    LUA_COERR,
}

/// The type tag of a guest value.
#[derive(Debug, Clone, Copy, PartialEq, Eq, Structural)]
pub enum lua_Type {
    LUA_TNONE,
    LUA_TNIL,
    LUA_TBOOLEAN,
    LUA_TLIGHTUSERDATA,
    LUA_TNUMBER,
    LUA_TVECTOR,
    LUA_TSTRING,
    LUA_TTABLE,
    LUA_TFUNCTION,
    LUA_TUSERDATA,
    LUA_TTHREAD,
    LUA_TBUFFER,
}

/// The outcome of one navigation step of the module resolver.
#[derive(Debug, Clone, Copy, PartialEq, Eq, Structural)]
pub enum luarequire_NavigateResult {
    NAVIGATE_SUCCESS,
    NAVIGATE_AMBIGUOUS,
    NAVIGATE_NOT_FOUND,
}

/// The outcome of writing a resolver string into the caller's buffer.
#[derive(Debug, Clone, Copy, PartialEq, Eq, Structural)]
pub enum luarequire_WriteResult {
    WRITE_SUCCESS,
    WRITE_BUFFER_TOO_SMALL,
    WRITE_FAILURE,
}

impl lua_Status {
    /// The integer the engine uses for this status.
    pub open spec fn spec_code(self) -> int {
        match self {
            lua_Status::LUA_OK => 0,
            lua_Status::LUA_YIELD => 1,
            lua_Status::LUA_ERRRUN => 2,
            lua_Status::LUA_ERRSYNTAX => 3,
            lua_Status::LUA_ERRMEM => 4,
            lua_Status::LUA_ERRERR => 5,
            lua_Status::LUA_BREAK => 6,
        }
    }

    /// The integer the engine uses for this status.
    pub fn code(self) -> (c: i32)
        ensures
            c == self.spec_code(),
    {
        match self {
            lua_Status::LUA_OK => 0,
            lua_Status::LUA_YIELD => 1,
            lua_Status::LUA_ERRRUN => 2,
            lua_Status::LUA_ERRSYNTAX => 3,
            lua_Status::LUA_ERRMEM => 4,
            lua_Status::LUA_ERRERR => 5,
            lua_Status::LUA_BREAK => 6,
        }
    }

    /// The status that the engine's integer `c` stands for, if any.
    pub fn from_code(c: i32) -> (s: Option<lua_Status>)
        ensures
            s is Some <==> 0 <= c <= 6,
            s is Some ==> s->0.spec_code() == c,
    {
        match c {
            0 => Some(lua_Status::LUA_OK),
            1 => Some(lua_Status::LUA_YIELD),
            2 => Some(lua_Status::LUA_ERRRUN),
            3 => Some(lua_Status::LUA_ERRSYNTAX),
            4 => Some(lua_Status::LUA_ERRMEM),
            5 => Some(lua_Status::LUA_ERRERR),
            6 => Some(lua_Status::LUA_BREAK),
            _ => None,
        }
    }
}

impl lua_Type {
    /// The integer the engine uses for this type tag.
    pub open spec fn spec_code(self) -> int {
        match self {
            lua_Type::LUA_TNONE => -1,
            lua_Type::LUA_TNIL => 0,
            lua_Type::LUA_TBOOLEAN => 1,
            lua_Type::LUA_TLIGHTUSERDATA => 2,
            lua_Type::LUA_TNUMBER => 3,
            lua_Type::LUA_TVECTOR => 4,
            lua_Type::LUA_TSTRING => 5,
            lua_Type::LUA_TTABLE => 6,
            lua_Type::LUA_TFUNCTION => 7,
            lua_Type::LUA_TUSERDATA => 8,
            lua_Type::LUA_TTHREAD => 9,
            lua_Type::LUA_TBUFFER => 10,
        }
    }

    /// The integer the engine uses for this type tag.
    pub fn code(self) -> (c: i32)
        ensures
            c == self.spec_code(),
    {
        match self {
            lua_Type::LUA_TNONE => -1,
            lua_Type::LUA_TNIL => 0,
            lua_Type::LUA_TBOOLEAN => 1,
            lua_Type::LUA_TLIGHTUSERDATA => 2,
            lua_Type::LUA_TNUMBER => 3,
            lua_Type::LUA_TVECTOR => 4,
            lua_Type::LUA_TSTRING => 5,
            lua_Type::LUA_TTABLE => 6,
            lua_Type::LUA_TFUNCTION => 7,
            lua_Type::LUA_TUSERDATA => 8,
            lua_Type::LUA_TTHREAD => 9,
            lua_Type::LUA_TBUFFER => 10,
        }
    }

    /// The type tag that the engine's integer `c` stands for, if any.
    pub fn from_code(c: i32) -> (t: Option<lua_Type>)
        ensures
            t is Some <==> -1 <= c <= 10,
            t is Some ==> t->0.spec_code() == c,
    {
        match c {
            -1 => Some(lua_Type::LUA_TNONE),
            0 => Some(lua_Type::LUA_TNIL),
            1 => Some(lua_Type::LUA_TBOOLEAN),
            2 => Some(lua_Type::LUA_TLIGHTUSERDATA),
            3 => Some(lua_Type::LUA_TNUMBER),
            4 => Some(lua_Type::LUA_TVECTOR),
            5 => Some(lua_Type::LUA_TSTRING),
            6 => Some(lua_Type::LUA_TTABLE),
            7 => Some(lua_Type::LUA_TFUNCTION),
            8 => Some(lua_Type::LUA_TUSERDATA),
            9 => Some(lua_Type::LUA_TTHREAD),
            10 => Some(lua_Type::LUA_TBUFFER),
            _ => None,
        }
    }
}

} // verus!
