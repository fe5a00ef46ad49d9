//! Statuses and type tags in the host's own vocabulary.

use vstd::prelude::*;
use vstd::std_specs::convert::FromSpecImpl;
use vstd::string::StringSliceAdditionalSpecFns;
use vstd::string::StrSliceExecFns;
use super::ffi::lua_CoStatus;
use super::ffi::lua_Status;
use super::ffi::lua_Type;

verus! {

/// What a resume or a protected call reported.
#[derive(Debug, Clone, Copy, PartialEq, Eq, Structural)]
pub enum Status {
    Completed,
    Yield,
    ErrRuntime,
    ErrSyntax,
    ErrMemory,
    ErrError,
    Break,
}

impl Status {
    /// Whether this status reports a failure: anything but completion or a yield.
    pub open spec fn is_failure(self) -> bool {
        self != Status::Completed && self != Status::Yield
    }
}

impl From<lua_Status> for Status {
    fn from(value: lua_Status) -> (s: Status) {
        match value {
            lua_Status::LUA_OK => Status::Completed,
            lua_Status::LUA_YIELD => Status::Yield,
            lua_Status::LUA_ERRRUN => Status::ErrRuntime,
            lua_Status::LUA_ERRSYNTAX => Status::ErrSyntax,
            lua_Status::LUA_ERRMEM => Status::ErrMemory,
            lua_Status::LUA_ERRERR => Status::ErrError,
            lua_Status::LUA_BREAK => Status::Break,
        }
    }
}

impl FromSpecImpl<lua_Status> for Status {
    open spec fn obeys_from_spec() -> bool {
        true
    }

    open spec fn from_spec(value: lua_Status) -> Status {
        match value {
            lua_Status::LUA_OK => Status::Completed,
            lua_Status::LUA_YIELD => Status::Yield,
            lua_Status::LUA_ERRRUN => Status::ErrRuntime,
            lua_Status::LUA_ERRSYNTAX => Status::ErrSyntax,
            lua_Status::LUA_ERRMEM => Status::ErrMemory,
            lua_Status::LUA_ERRERR => Status::ErrError,
            lua_Status::LUA_BREAK => Status::Break,
        }
    }
}

/// The state of a coroutine as seen from outside it.
#[derive(Debug, Clone, Copy, PartialEq, Eq, Structural)]
pub enum CoroStatus {
    Run,
    Suspended,
    Normal,
    Finished,
    Errored,
}

impl From<lua_CoStatus> for CoroStatus {
    fn from(value: lua_CoStatus) -> (s: CoroStatus) {
        match value {
            lua_CoStatus::LUA_CORUN => CoroStatus::Run,
            lua_CoStatus::LUA_COSUS => CoroStatus::Suspended,
            lua_CoStatus::LUA_CONOR => CoroStatus::Normal,
            lua_CoStatus::LUA_COFIN => CoroStatus::Finished,
            lua_CoStatus::LUA_COERR => CoroStatus::Errored,
        }
    }
}

impl FromSpecImpl<lua_CoStatus> for CoroStatus {
    open spec fn obeys_from_spec() -> bool {
        true
    }

    open spec fn from_spec(value: lua_CoStatus) -> CoroStatus {
        match value {
            lua_CoStatus::LUA_CORUN => CoroStatus::Run,
            lua_CoStatus::LUA_COSUS => CoroStatus::Suspended,
            lua_CoStatus::LUA_CONOR => CoroStatus::Normal,
            lua_CoStatus::LUA_COFIN => CoroStatus::Finished,
            lua_CoStatus::LUA_COERR => CoroStatus::Errored,
        }
    }
}

/// The type of a guest value; `NoValue` is the type of a slot that holds nothing.
#[derive(Debug, Clone, Copy, PartialEq, Eq, Structural)]
pub enum Type {
    NoValue,
    Nil,
    Boolean,
    LightUserdata,
    Number,
    Vector,
    String,
    Table,
    Function,
    Userdata,
    Thread,
    Buffer,
}

impl From<lua_Type> for Type {
    fn from(value: lua_Type) -> (t: Type) {
        match value {
            lua_Type::LUA_TNONE => Type::NoValue,
            lua_Type::LUA_TNIL => Type::Nil,
            lua_Type::LUA_TBOOLEAN => Type::Boolean,
            lua_Type::LUA_TLIGHTUSERDATA => Type::LightUserdata,
            lua_Type::LUA_TNUMBER => Type::Number,
            lua_Type::LUA_TVECTOR => Type::Vector,
            lua_Type::LUA_TSTRING => Type::String,
            lua_Type::LUA_TTABLE => Type::Table,
            lua_Type::LUA_TFUNCTION => Type::Function,
            lua_Type::LUA_TUSERDATA => Type::Userdata,
            lua_Type::LUA_TTHREAD => Type::Thread,
            lua_Type::LUA_TBUFFER => Type::Buffer,
        }
    }
}

impl FromSpecImpl<lua_Type> for Type {
    open spec fn obeys_from_spec() -> bool {
        true
    }

    open spec fn from_spec(value: lua_Type) -> Type {
        match value {
            lua_Type::LUA_TNONE => Type::NoValue,
            lua_Type::LUA_TNIL => Type::Nil,
            lua_Type::LUA_TBOOLEAN => Type::Boolean,
            lua_Type::LUA_TLIGHTUSERDATA => Type::LightUserdata,
            lua_Type::LUA_TNUMBER => Type::Number,
            lua_Type::LUA_TVECTOR => Type::Vector,
            lua_Type::LUA_TSTRING => Type::String,
            lua_Type::LUA_TTABLE => Type::Table,
            lua_Type::LUA_TFUNCTION => Type::Function,
            lua_Type::LUA_TUSERDATA => Type::Userdata,
            lua_Type::LUA_TTHREAD => Type::Thread,
            lua_Type::LUA_TBUFFER => Type::Buffer,
        }
    }
}

impl Type {
    /// The name under which messages mention this type.
    pub open spec fn spec_name(self) -> Seq<u8> {
        match self {
            Type::NoValue => "no value".spec_bytes(),
            Type::Nil => "nil".spec_bytes(),
            Type::Boolean => "boolean".spec_bytes(),
            Type::LightUserdata => "userdata".spec_bytes(),
            Type::Number => "number".spec_bytes(),
            Type::Vector => "vector".spec_bytes(),
            Type::String => "string".spec_bytes(),
            Type::Table => "table".spec_bytes(),
            Type::Function => "function".spec_bytes(),
            Type::Userdata => "userdata".spec_bytes(),
            Type::Thread => "thread".spec_bytes(),
            Type::Buffer => "buffer".spec_bytes(),
        }
    }

    /// The name under which messages mention this type.
    pub fn name(self) -> (text: Vec<u8>)
        ensures
            text@ == self.spec_name(),
    {
        let name = match self {
            Type::NoValue => "no value",
            Type::Nil => "nil",
            Type::Boolean => "boolean",
            Type::LightUserdata => "userdata",
            Type::Number => "number",
            Type::Vector => "vector",
            Type::String => "string",
            Type::Table => "table",
            Type::Function => "function",
            Type::Userdata => "userdata",
            Type::Thread => "thread",
            Type::Buffer => "buffer",
        };
        name.as_bytes_vec()
    }
}

/// How many values a native function hands back to the engine.
pub type FnReturn = i32;

} // verus!
