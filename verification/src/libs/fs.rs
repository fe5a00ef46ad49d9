//! The file primitives that guest code calls: read and write.
//!
//! A primitive reads the arguments of the call and says what is to be done on
//! a worker; the calling coroutine is pinned and yields. When the worker is
//! done, the outcome decides what the coroutine is resumed with.

use vstd::prelude::*;
use vstd::string::StringSliceAdditionalSpecFns;
use vstd::string::StrSliceExecFns;
use vstd::utf8::valid_utf8;
use crate::bytes;
use crate::luau::root::Resume;
use crate::luau::stack::ArgumentError;
use crate::luau::stack::Stack;
use crate::luau::stack::Value;
use crate::luau::thread::Thread;

verus! {

/// A file to write, and the bytes to write to it.
#[derive(Debug)]
pub struct WriteRequest {
    pub path: Vec<u8>,
    pub data: Vec<u8>,
}

/// What a coroutine that waits for a file operation is resumed with.
#[derive(Debug)]
pub struct Reply {
    /// The value to push onto the coroutine's stack.
    pub value: Value,
    /// The resume to make then.
    pub resume: Resume,
}

/// The path that a call names in its first argument, if that is a string of
/// valid UTF-8.
pub open spec fn path_of(ctx: &Stack) -> Option<Seq<u8>> {
    match ctx.value_at(1) {
        Some(Value::String(s)) if valid_utf8(s@) => Some(s@),
        _ => None,
    }
}

/// The bytes that a call to write hands over in its second argument, if that
/// is a string or a buffer.
pub open spec fn payload_of(ctx: &Stack) -> Option<Seq<u8>> {
    match ctx.value_at(2) {
        Some(Value::String(s)) => Some(s@),
        Some(Value::Buffer(b)) => Some(b@),
        _ => None,
    }
}

/// The file library.
#[derive(Debug, Clone, Copy, PartialEq, Eq, Structural)]
pub struct Fs;

impl Fs {
    /// `read(path)`: the path of the file to read on a worker.
    pub fn read(ctx: &Stack) -> (r: Result<Vec<u8>, ArgumentError>)
        requires
            ctx.wf(),
        ensures
            path_of(ctx) is Some ==> r is Ok && r->Ok_0@ == path_of(ctx)->0,
            path_of(ctx) is None ==> r is Err && r->Err_0.message@ == ctx.complaint(
                1,
                "string".spec_bytes(),
            ),
    {
        match ctx.arg_string_str(1) {
            Ok(path) => Ok(path.as_bytes_vec()),
            Err(e) => Err(e),
        }
    }

    /// `write(path, data)`: the file to write on a worker, and the bytes of
    /// the string or buffer to write. The path is checked first.
    pub fn write(ctx: &Stack) -> (r: Result<WriteRequest, ArgumentError>)
        requires
            ctx.wf(),
        ensures
            path_of(ctx) is None ==> r is Err && r->Err_0.message@ == ctx.complaint(
                1,
                "string".spec_bytes(),
            ),
            path_of(ctx) is Some && payload_of(ctx) is None ==> r is Err && r->Err_0.message@
                == "bad argument #2 to 'write' (string or buffer expected)".spec_bytes(),
            path_of(ctx) is Some && payload_of(ctx) is Some ==> r is Ok && r->Ok_0.path@
                == path_of(ctx)->0 && r->Ok_0.data@ == payload_of(ctx)->0,
    {
        let path = match ctx.arg_string_str(1) {
            Ok(path) => path.as_bytes_vec(),
            Err(e) => {
                return Err(e);
            },
        };
        let data = match ctx.to_string_slice(2) {
            Some(s) => bytes::take(s, s.len()),
            None => {
                match ctx.to_buffer(2) {
                    Some(b) => bytes::take(b, b.len()),
                    None => {
                        return Err(
                            ArgumentError {
                                message: "bad argument #2 to 'write' (string or buffer expected)".as_bytes_vec(),
                            },
                        );
                    },
                }
            },
        };
        proof {
            let v = ctx.value_at(2);
            assert(data@ =~= payload_of(ctx)->0) by {
                match v {
                    Some(Value::String(s)) => {
                        assert(s@.subrange(0, s@.len() as int) =~= s@);
                    },
                    Some(Value::Buffer(b)) => {
                        assert(b@.subrange(0, b@.len() as int) =~= b@);
                    },
                    _ => {},
                }
            }
        }
        Ok(WriteRequest { path, data })
    }

    /// What `thread` is resumed with when its read is done: the bytes read,
    /// as a string, or the text of the failure, raised as an error.
    pub fn read_done(thread: Thread, outcome: Result<Vec<u8>, Vec<u8>>) -> (reply: Reply)
        ensures
            reply.resume.thread == thread,
            outcome is Ok ==> reply.value == Value::String(outcome->Ok_0) && reply.resume == (
                Resume { thread, nargs: 1, error: false }),
            outcome is Err ==> reply.value == Value::String(outcome->Err_0) && reply.resume == (
                Resume { thread, nargs: 0, error: true }),
    {
        match outcome {
            Ok(data) => Reply {
                value: Value::String(data),
                resume: Resume { thread, nargs: 1, error: false },
            },
            Err(text) => Reply {
                value: Value::String(text),
                resume: Resume { thread, nargs: 0, error: true },
            },
        }
    }

    /// What `thread` is resumed with when its write is done: nil, or the text
    /// of the failure, raised as an error.
    pub fn write_done(thread: Thread, outcome: Result<(), Vec<u8>>) -> (reply: Reply)
        ensures
            reply.resume.thread == thread,
            outcome is Ok ==> reply.value == Value::Nil && reply.resume == (Resume {
                thread,
                nargs: 1,
                error: false,
            }),
            outcome is Err ==> reply.value == Value::String(outcome->Err_0) && reply.resume == (
                Resume { thread, nargs: 0, error: true }),
    {
        match outcome {
            Ok(_) => Reply { value: Value::Nil, resume: Resume { thread, nargs: 1, error: false } },
            Err(text) => Reply {
                value: Value::String(text),
                resume: Resume { thread, nargs: 0, error: true },
            },
        }
    }
}

} // verus!
