use luau_host::luau::ffi::lua_State;
use luau_host::luau::stack::digits;
use luau_host::luau::stack::index_of_argument;
use luau_host::luau::Stack;
use luau_host::luau::Thread;
use luau_host::luau::Type;
use luau_host::luau::Value;

fn state(address: u64) -> lua_State {
    lua_State { address }
}

/// boolean, string, invalid text, buffer, table, thread, nil, number
fn sample() -> Stack {
    let mut stack = Stack::new(state(1));
    stack.push_boolean(true);
    stack.push_string(b"hello");
    stack.push_string(&[0xff, 0xfe]);
    stack.push(Value::Buffer(vec![1, 2, 3]));
    stack.push(Value::Table(7));
    stack.push_thread(&Thread(state(9)));
    stack.push_nil();
    stack.push(Value::Number(0x3ff0_0000_0000_0000));
    stack
}

#[test]
fn type_of_by_positive_and_negative_index() {
    let stack = sample();
    assert_eq!(stack.get_top(), 8);
    assert_eq!(stack.type_of(1), Type::Boolean);
    assert_eq!(stack.type_of(2), Type::String);
    assert_eq!(stack.type_of(4), Type::Buffer);
    assert_eq!(stack.type_of(5), Type::Table);
    assert_eq!(stack.type_of(6), Type::Thread);
    assert_eq!(stack.type_of(7), Type::Nil);
    assert_eq!(stack.type_of(8), Type::Number);
    assert_eq!(stack.type_of(-1), Type::Number);
    assert_eq!(stack.type_of(-8), Type::Boolean);
    assert_eq!(stack.type_of(9), Type::NoValue);
    assert_eq!(stack.type_of(-9), Type::NoValue);
    assert_eq!(stack.type_of(0), Type::NoValue);
    assert_eq!(stack.type_of(i32::MIN), Type::NoValue);
    assert_eq!(stack.type_of(i32::MAX), Type::NoValue);
    assert_eq!(stack.type_of(-10000), Type::NoValue);
}

#[test]
fn is_predicates_follow_type_of() {
    let mut stack = sample();
    stack.push(Value::LightUserdata(5));
    stack.push(Value::Vector(0, 0, 0));
    stack.push(Value::Function(3));
    stack.push(Value::Userdata(4));
    assert!(stack.is_boolean(1) && !stack.is_boolean(2));
    assert!(stack.is_string(2) && stack.is_string(3) && !stack.is_string(4));
    assert!(stack.is_buffer(4) && !stack.is_buffer(2));
    assert!(stack.is_table(5) && !stack.is_table(6));
    assert!(stack.is_thread(6) && !stack.is_thread(5));
    assert!(stack.is_nil(7) && !stack.is_nil(13));
    assert!(stack.is_number(8) && !stack.is_number(7));
    assert!(stack.is_light_userdata(9) && !stack.is_light_userdata(12));
    assert!(stack.is_vector(10) && !stack.is_vector(8));
    assert!(stack.is_function(11) && !stack.is_function(5));
    assert!(stack.is_userdata(12) && !stack.is_userdata(9));
    assert!(stack.is_none(13) && !stack.is_none(7));
}

#[test]
fn conversions_read_only_their_own_type() {
    let stack = sample();
    assert_eq!(stack.to_boolean(1), Some(true));
    assert_eq!(stack.to_boolean(2), None);
    assert_eq!(stack.to_string_slice(2), Some(&b"hello"[..]));
    assert_eq!(stack.to_string_slice(3), Some(&[0xff, 0xfe][..]));
    assert_eq!(stack.to_string_slice(4), None);
    assert_eq!(stack.to_buffer(4), Some(&[1, 2, 3][..]));
    assert_eq!(stack.to_buffer(2), None);
    assert_eq!(stack.to_thread(6), Some(Thread(state(9))));
    assert_eq!(stack.to_thread(5), None);
    assert_eq!(stack.to_light_userdata(1), None);
}

#[test]
fn to_string_str_needs_valid_utf8() {
    let mut stack = sample();
    stack.push_string("gr\u{fc}n".as_bytes());
    assert_eq!(stack.to_string_str(2), Some("hello"));
    assert_eq!(stack.to_string_str(3), None);
    assert_eq!(stack.to_string_str(-1), Some("gr\u{fc}n"));
    assert_eq!(stack.to_string_str(1), None);
    assert_eq!(stack.to_string_str(40), None);
}

#[test]
fn set_top_and_pop() {
    let mut stack = sample();
    stack.pop(3);
    assert_eq!(stack.get_top(), 5);
    assert_eq!(stack.type_of(-1), Type::Table);
    stack.set_top(7);
    assert_eq!(stack.get_top(), 7);
    assert_eq!(stack.type_of(6), Type::Nil);
    assert_eq!(stack.type_of(7), Type::Nil);
    assert_eq!(stack.type_of(5), Type::Table);
    stack.set_top(0);
    assert_eq!(stack.get_top(), 0);
    assert_eq!(stack.type_of(1), Type::NoValue);
    stack.pop(0);
    assert_eq!(stack.get_top(), 0);
}

#[test]
fn stack_knows_its_thread() {
    let stack = Stack::new(state(77));
    assert_eq!(stack.inner(), state(77));
    assert_eq!(stack.as_ptr(), 77);
    assert_eq!(stack.thread(), Thread(state(77)));
    assert_eq!(stack.thread().inner(), state(77));
    assert_eq!(stack.thread().as_ptr(), 77);
}

#[test]
fn arg_boolean_cases() {
    let stack = sample();
    assert_eq!(stack.arg_boolean(1).unwrap(), true);
    assert_eq!(
        stack.arg_boolean(2).unwrap_err().message,
        b"bad argument #2 to function (boolean expected, got string)".to_vec()
    );
    assert_eq!(
        stack.arg_boolean(7).unwrap_err().message,
        b"bad argument #7 to function (boolean expected, got nil)".to_vec()
    );
    assert_eq!(
        stack.arg_boolean(12).unwrap_err().message,
        b"bad argument #12 to function (boolean expected, got no value)".to_vec()
    );
    assert_eq!(stack.arg_boolean_opt(1).unwrap(), Some(true));
    assert_eq!(stack.arg_boolean_opt(7).unwrap(), None);
    assert_eq!(stack.arg_boolean_opt(9).unwrap(), None);
    assert_eq!(
        stack.arg_boolean_opt(5).unwrap_err().message,
        b"bad argument #5 to function (boolean or nil expected, got table)".to_vec()
    );
}

#[test]
fn arg_string_cases() {
    let stack = sample();
    assert_eq!(stack.arg_string_slice(2).unwrap(), b"hello");
    assert_eq!(stack.arg_string_slice(3).unwrap(), &[0xff, 0xfe]);
    assert_eq!(
        stack.arg_string_slice(1).unwrap_err().message,
        b"bad argument #1 to function (string expected, got boolean)".to_vec()
    );
    assert_eq!(stack.arg_string_str(2).unwrap(), "hello");
    assert_eq!(
        stack.arg_string_str(3).unwrap_err().message,
        b"bad argument #3 to function (string expected, got string)".to_vec()
    );
    assert_eq!(
        stack.arg_string_str(8).unwrap_err().message,
        b"bad argument #8 to function (string expected, got number)".to_vec()
    );
    assert_eq!(stack.arg_string_opt_slice(2).unwrap(), Some(&b"hello"[..]));
    assert_eq!(stack.arg_string_opt_slice(7).unwrap(), None);
    assert_eq!(
        stack.arg_string_opt_slice(4).unwrap_err().message,
        b"bad argument #4 to function (string or nil expected, got buffer)".to_vec()
    );
    assert_eq!(stack.arg_string_opt_str(2).unwrap(), Some("hello"));
    assert_eq!(stack.arg_string_opt_str(100).unwrap(), None);
    assert_eq!(
        stack.arg_string_opt_str(3).unwrap_err().message,
        b"bad argument #3 to function (string or nil expected, got string)".to_vec()
    );
}

#[test]
fn arg_table_thread_buffer_cases() {
    let stack = sample();
    assert!(stack.arg_table(5).is_ok());
    assert_eq!(
        stack.arg_table(6).unwrap_err().message,
        b"bad argument #6 to function (table expected, got thread)".to_vec()
    );
    assert_eq!(stack.arg_table_opt(5).unwrap(), Some(()));
    assert_eq!(stack.arg_table_opt(7).unwrap(), None);
    assert_eq!(
        stack.arg_table_opt(1).unwrap_err().message,
        b"bad argument #1 to function (table or nil expected, got boolean)".to_vec()
    );
    assert_eq!(stack.arg_thread(6).unwrap(), Thread(state(9)));
    assert_eq!(
        stack.arg_thread(5).unwrap_err().message,
        b"bad argument #5 to function (thread expected, got table)".to_vec()
    );
    assert_eq!(stack.arg_thread_opt(6).unwrap(), Some(Thread(state(9))));
    assert_eq!(stack.arg_thread_opt(7).unwrap(), None);
    assert_eq!(
        stack.arg_thread_opt(2).unwrap_err().message,
        b"bad argument #2 to function (thread or nil expected, got string)".to_vec()
    );
    assert_eq!(stack.arg_buffer(4).unwrap(), &[1, 2, 3]);
    assert_eq!(
        stack.arg_buffer(2).unwrap_err().message,
        b"bad argument #2 to function (buffer expected, got string)".to_vec()
    );
    assert_eq!(stack.arg_buffer_opt(4).unwrap(), Some(&[1, 2, 3][..]));
    assert_eq!(stack.arg_buffer_opt(7).unwrap(), None);
    assert_eq!(
        stack.arg_buffer_opt(8).unwrap_err().message,
        b"bad argument #8 to function (buffer or nil expected, got number)".to_vec()
    );
}

#[test]
fn argument_numbers_above_the_largest_index_count_from_the_top() {
    let stack = sample();
    assert_eq!(index_of_argument(1), 1);
    assert_eq!(index_of_argument(0x7fff_ffff), i32::MAX);
    assert_eq!(index_of_argument(0x8000_0000), i32::MIN);
    assert_eq!(index_of_argument(u32::MAX), -1);
    assert_eq!(
        stack.arg_boolean(u32::MAX).unwrap_err().message,
        b"bad argument #4294967295 to function (boolean expected, got number)".to_vec()
    );
    assert_eq!(stack.arg_boolean(u32::MAX - 7).unwrap(), true);
}

#[test]
fn decimal_digits() {
    assert_eq!(digits(0), b"0".to_vec());
    assert_eq!(digits(7), b"7".to_vec());
    assert_eq!(digits(10), b"10".to_vec());
    assert_eq!(digits(4_294_967_295), b"4294967295".to_vec());
}

#[test]
fn argument_error_names_what_was_expected() {
    let stack = sample();
    assert_eq!(
        stack.argument_error(5, "function").message,
        b"bad argument #5 to function (function expected, got table)".to_vec()
    );
}
