use luau_host::bytes;
use luau_host::luau::compiler::DebugLevel;
use luau_host::luau::compiler::OptLevel;
use luau_host::luau::ffi::lua_CoStatus;
use luau_host::luau::ffi::lua_State;
use luau_host::luau::ffi::lua_Status;
use luau_host::luau::ffi::lua_Type;
use luau_host::luau::ffi::lua_ispseudo;
use luau_host::luau::ffi::lua_upvalueindex;
use luau_host::luau::new_tag;
use luau_host::luau::root::Resume;
use luau_host::luau::Bytecode;
use luau_host::luau::Compiler;
use luau_host::luau::Context;
use luau_host::luau::CoroStatus;
use luau_host::luau::Main;
use luau_host::luau::Stack;
use luau_host::luau::Status;
use luau_host::luau::Thread;
use luau_host::luau::Type;
use luau_host::luau::Value;
use luau_host::luau::REGISTRY_IDX;

#[test]
fn levels_from_numbers() {
    assert_eq!(OptLevel::try_from(0u8), Ok(OptLevel::Off));
    assert_eq!(OptLevel::try_from(1u8), Ok(OptLevel::Basic));
    assert_eq!(OptLevel::try_from(2u8), Ok(OptLevel::Full));
    assert_eq!(OptLevel::try_from(3u8), Err(()));
    assert_eq!(OptLevel::try_from(255u8), Err(()));
    assert_eq!(DebugLevel::try_from(0u8), Ok(DebugLevel::Off));
    assert_eq!(DebugLevel::try_from(1u8), Ok(DebugLevel::Basic));
    assert_eq!(DebugLevel::try_from(2u8), Ok(DebugLevel::Full));
    assert_eq!(DebugLevel::try_from(3u8), Err(()));
    assert_eq!(OptLevel::Full.level(), 2);
    assert_eq!(DebugLevel::Off.level(), 0);
    assert_eq!(OptLevel::default(), OptLevel::Basic);
    assert_eq!(DebugLevel::default(), DebugLevel::Basic);
}

#[test]
fn compiler_settings() {
    let compiler = Compiler::default();
    assert_eq!(compiler.opt_level(), OptLevel::Basic);
    assert_eq!(compiler.dbg_level(), DebugLevel::Basic);
    let compiler = compiler.with_opt_level(OptLevel::Full);
    assert_eq!(compiler.opt_level(), OptLevel::Full);
    assert_eq!(compiler.dbg_level(), DebugLevel::Basic);
    let compiler = compiler.with_dbg_level(DebugLevel::Off);
    assert_eq!(compiler.opt_level(), OptLevel::Full);
    assert_eq!(compiler.dbg_level(), DebugLevel::Off);
}

#[test]
fn bytecode_keeps_its_bytes() {
    assert_eq!(Bytecode::new(vec![3, 1, 4]).inner(), &[3, 1, 4]);
    assert_eq!(Bytecode::new(vec![]).inner(), &[] as &[u8]);
}

#[test]
fn statuses_from_engine_codes() {
    assert_eq!(Status::from(lua_Status::LUA_OK), Status::Completed);
    assert_eq!(Status::from(lua_Status::LUA_YIELD), Status::Yield);
    assert_eq!(Status::from(lua_Status::LUA_ERRRUN), Status::ErrRuntime);
    assert_eq!(Status::from(lua_Status::LUA_ERRSYNTAX), Status::ErrSyntax);
    assert_eq!(Status::from(lua_Status::LUA_ERRMEM), Status::ErrMemory);
    assert_eq!(Status::from(lua_Status::LUA_ERRERR), Status::ErrError);
    assert_eq!(Status::from(lua_Status::LUA_BREAK), Status::Break);
    assert_eq!(lua_Status::from_code(0), Some(lua_Status::LUA_OK));
    assert_eq!(lua_Status::from_code(6), Some(lua_Status::LUA_BREAK));
    assert_eq!(lua_Status::from_code(7), None);
    assert_eq!(lua_Status::from_code(-1), None);
    assert_eq!(lua_Status::LUA_ERRMEM.code(), 4);
    assert_eq!(CoroStatus::from(lua_CoStatus::LUA_CORUN), CoroStatus::Run);
    assert_eq!(CoroStatus::from(lua_CoStatus::LUA_COSUS), CoroStatus::Suspended);
    assert_eq!(CoroStatus::from(lua_CoStatus::LUA_CONOR), CoroStatus::Normal);
    assert_eq!(CoroStatus::from(lua_CoStatus::LUA_COFIN), CoroStatus::Finished);
    assert_eq!(CoroStatus::from(lua_CoStatus::LUA_COERR), CoroStatus::Errored);
}

#[test]
fn types_from_engine_codes_and_their_names() {
    assert_eq!(lua_Type::from_code(-1), Some(lua_Type::LUA_TNONE));
    assert_eq!(lua_Type::from_code(10), Some(lua_Type::LUA_TBUFFER));
    assert_eq!(lua_Type::from_code(11), None);
    assert_eq!(lua_Type::from_code(-2), None);
    assert_eq!(lua_Type::LUA_TSTRING.code(), 5);
    assert_eq!(Type::from(lua_Type::LUA_TNONE), Type::NoValue);
    assert_eq!(Type::from(lua_Type::LUA_TTHREAD), Type::Thread);
    let names: Vec<(lua_Type, &[u8])> = vec![
        (lua_Type::LUA_TNONE, b"no value"),
        (lua_Type::LUA_TNIL, b"nil"),
        (lua_Type::LUA_TBOOLEAN, b"boolean"),
        (lua_Type::LUA_TLIGHTUSERDATA, b"userdata"),
        (lua_Type::LUA_TNUMBER, b"number"),
        (lua_Type::LUA_TVECTOR, b"vector"),
        (lua_Type::LUA_TSTRING, b"string"),
        (lua_Type::LUA_TTABLE, b"table"),
        (lua_Type::LUA_TFUNCTION, b"function"),
        (lua_Type::LUA_TUSERDATA, b"userdata"),
        (lua_Type::LUA_TTHREAD, b"thread"),
        (lua_Type::LUA_TBUFFER, b"buffer"),
    ];
    for (code, name) in names {
        assert_eq!(Type::from(code).name(), name.to_vec());
    }
}

#[test]
fn pseudo_indices() {
    assert_eq!(REGISTRY_IDX, -10000);
    assert!(lua_ispseudo(-10000));
    assert!(lua_ispseudo(-10002));
    assert!(!lua_ispseudo(-9999));
    assert!(!lua_ispseudo(1));
    assert_eq!(lua_upvalueindex(1), -10003);
    assert_eq!(lua_upvalueindex(0), -10002);
}

#[test]
fn tags_count_up_and_wrap() {
    let mut count = 0u8;
    assert_eq!(new_tag(&mut count), 0);
    assert_eq!(new_tag(&mut count), 1);
    assert_eq!(count, 2);
    count = 255;
    assert_eq!(new_tag(&mut count), 255);
    assert_eq!(count, 0);
}

#[test]
fn uncaught_error_is_written_with_its_trace() {
    let main = Main::new(lua_State { address: 1 }, Compiler::default());
    let mut thread = Stack::new(lua_State { address: 2 });
    thread.push_string(b"main.luau:3: boom");
    let report = main.handle_status(&thread, Status::ErrRuntime, b"main.luau:3\nmain.luau:9\n", false);
    assert_eq!(
        report,
        Some(b"main.luau:3: boom\ntraceback:\nmain.luau:3\nmain.luau:9\n".to_vec())
    );
    let report = main.handle_status(&thread, Status::ErrSyntax, b"", false);
    assert_eq!(report, Some(b"main.luau:3: boom\ntraceback:\n".to_vec()));
}

#[test]
fn failure_that_was_written_before_is_not_written_again() {
    let main = Main::new(lua_State { address: 1 }, Compiler::default());
    let mut thread = Stack::new(lua_State { address: 2 });
    thread.push_string(b"boom");
    assert_eq!(main.handle_status(&thread, Status::ErrRuntime, b"t", true), None);
    assert_eq!(main.handle_status(&thread, Status::Yield, b"t", true), None);
}

#[test]
fn yield_and_completion_write_nothing() {
    let main = Main::new(lua_State { address: 1 }, Compiler::default());
    let mut thread = Stack::new(lua_State { address: 2 });
    thread.push_string(b"not an error");
    assert_eq!(main.handle_status(&thread, Status::Yield, b"trace", false), None);
    assert_eq!(main.handle_status(&thread, Status::Completed, b"trace", false), None);
}

#[test]
fn error_that_is_no_text_is_written_as_unknown() {
    let main = Main::new(lua_State { address: 1 }, Compiler::default());
    let mut thread = Stack::new(lua_State { address: 2 });
    assert_eq!(
        main.handle_status(&thread, Status::ErrMemory, b"t", false),
        Some(b"unknown error\ntraceback:\nt".to_vec())
    );
    thread.push(Value::Table(3));
    assert_eq!(
        main.handle_status(&thread, Status::ErrError, b"t", false),
        Some(b"unknown error\ntraceback:\nt".to_vec())
    );
    thread.push_string(&[0x80]);
    assert_eq!(
        main.handle_status(&thread, Status::Break, b"t", false),
        Some(b"unknown error\ntraceback:\nt".to_vec())
    );
}

#[test]
fn main_state_and_resumes() {
    let compiler = Compiler::default().with_opt_level(OptLevel::Off);
    let main = Main::new(lua_State { address: 11 }, compiler);
    assert_eq!(main.inner(), lua_State { address: 11 });
    assert_eq!(main.as_ptr(), 11);
    assert_eq!(main.compiler(), compiler);
    let t = Thread(lua_State { address: 12 });
    assert_eq!(main.spawn(&t, 3), Resume { thread: t, nargs: 3, error: false });
    assert_eq!(main.spawn_error(&t), Resume { thread: t, nargs: 0, error: true });
}

#[test]
fn context_returns() {
    let ctx = Context { stack: Stack::new(lua_State { address: 5 }) };
    assert_eq!(ctx.inner(), lua_State { address: 5 });
    assert_eq!(ctx.as_ptr(), 5);
    assert_eq!(ctx.ret(), 0);
    let ctx = Context { stack: Stack::new(lua_State { address: 5 }) };
    assert_eq!(ctx.ret_with(1), 1);
    let ctx = Context { stack: Stack::new(lua_State { address: 5 }) };
    assert_eq!(ctx.ret_with(u32::MAX), -1);
}

#[test]
fn byte_helpers() {
    assert!(bytes::equal(b"abc", b"abc"));
    assert!(!bytes::equal(b"abc", b"abd"));
    assert!(!bytes::equal(b"abc", b"ab"));
    assert!(bytes::equal(b"", b""));
    assert_eq!(bytes::take(b"abcdef", 4), b"abcd".to_vec());
    assert_eq!(bytes::concat(b"ab", b"cd"), b"abcd".to_vec());
    let mut buf = b"x".to_vec();
    bytes::append(&mut buf, b"yz");
    assert_eq!(buf, b"xyz".to_vec());
    assert!(bytes::has_suffix(b"main.luau", b".luau"));
    assert!(bytes::has_suffix(b"main.luau", b""));
    assert!(!bytes::has_suffix(b"luau", b".luau"));
    assert!(!bytes::has_suffix(b"main.luax", b".luau"));
    assert_eq!(bytes::strip_suffix(b"main.luau", b".luau"), b"main".to_vec());
    assert_eq!(bytes::strip_suffix(b"main.lua", b".luau"), b"main.lua".to_vec());
}
