use rlua::Lua;
use rustyline::error::ReadlineError;
use rustyline::history::History;
use slcr::repl::{next, route, starts_with_load, Action, LineEvent, Reply, Route, Session};
use slcr::MultiLine;

fn done_text(r: &Result<Reply, String>) -> String {
    match r {
        Ok(Reply::Eval(MultiLine::Done(s))) => s.clone(),
        Ok(Reply::Eval(MultiLine::More(s))) => panic!("expected Done, got More({})", s),
        Ok(Reply::Compose(s)) => panic!("expected Done, got Compose({})", s),
        Err(e) => panic!("expected Done, got Err({})", e),
    }
}

#[test]
fn load_command_evaluates_in_vm() {
    let vm = Lua::new();
    let mut hist = History::new();
    let (r, lua) = next(&vm, Ok(":l 1+1".to_string()), &mut hist, "", 0, false);
    assert_eq!(done_text(&r), "Integer(2)\t");
    assert!(lua);
    assert_eq!(hist.len(), 1);
}

#[test]
fn incomplete_block_then_end_of_input() {
    let vm = Lua::new();
    let mut hist = History::new();
    let (r, lua) = next(&vm, Ok(":l function f()".to_string()), &mut hist, "", 0, false);
    let accum = match r {
        Ok(Reply::Eval(MultiLine::More(s))) => s,
        _ => panic!("expected More"),
    };
    assert!(lua);
    let (r, lua) = next(&vm, Err(ReadlineError::Eof), &mut hist, &accum, 0, true);
    assert_eq!(done_text(&r), "incomplete input");
    assert!(!lua);
}

#[test]
fn block_over_lines_matches_one_shot() {
    let vm = Lua::new();
    let mut hist = History::new();
    let mut session = Session::new();
    for line in [":l if true then", "return 5"] {
        let (r, lua) = next(&vm, Ok(line.to_string()), &mut hist, &session.accum, session.count, session.was_lua);
        let m = match r {
            Ok(Reply::Eval(m)) => m,
            _ => panic!("expected an evaluation"),
        };
        assert!(matches!(session.settle(Ok(m), lua), Action::Continue));
        assert_eq!(session.prompt(), "    ");
    }
    assert_eq!(session.accum, " if true then\n  return 5");
    let (r, lua) = next(&vm, Ok("end".to_string()), &mut hist, &session.accum, session.count, session.was_lua);
    let whole = slcr::lua::attempt_lua(&vm, " if true then\n  return 5\n  end", 1);
    assert_eq!(done_text(&r), "Integer(5)\t");
    match whole {
        Ok(MultiLine::Done(s)) => assert_eq!(s, "Integer(5)\t"),
        _ => panic!("expected Done"),
    }
    let m = match r {
        Ok(Reply::Eval(m)) => m,
        _ => panic!("expected an evaluation"),
    };
    assert!(matches!(session.settle(Ok(m), lua), Action::Print(t) if t == "Integer(5)\t"));
    assert_eq!(session.accum, "");
    assert!(!session.was_lua);
    assert_eq!(session.count, 1);
    assert_eq!(session.prompt(), "Λ ");
}

#[test]
fn plain_line_goes_to_composer() {
    let vm = Lua::new();
    let mut hist = History::new();
    let (r, lua) = next(&vm, Ok("c d e".to_string()), &mut hist, "", 0, false);
    match r {
        Ok(Reply::Compose(l)) => assert_eq!(l, "c d e"),
        _ => panic!("expected Compose"),
    }
    assert!(!lua);
}

#[test]
fn load_prefixed_line_inside_block_stays_in_vm() {
    match route(LineEvent::Line(":l x".to_string()), "local y =", true) {
        Route::Script(t) => assert_eq!(t, "local y =\n  :l x"),
        _ => panic!("expected Script"),
    }
}

#[test]
fn interrupt_ends_session() {
    let vm = Lua::new();
    let mut hist = History::new();
    let (r, lua) = next(&vm, Err(ReadlineError::Interrupted), &mut hist, "function()", 0, true);
    assert_eq!(r.err(), Some("C-c".to_string()));
    assert!(!lua);
    let mut session = Session { accum: "function()".to_string(), count: 2, was_lua: true };
    assert!(matches!(session.settle(Err("C-c".to_string()), false), Action::Stop(m) if m == "C-c"));
    assert_eq!(session.accum, "");
}

#[test]
fn end_of_input_when_idle_ends_session() {
    let vm = Lua::new();
    let mut hist = History::new();
    let (r, _) = next(&vm, Err(ReadlineError::Eof), &mut hist, "", 0, false);
    assert_eq!(r.err(), Some("C-d".to_string()));
}

#[test]
fn route_end_of_input() {
    assert!(matches!(route(LineEvent::Eof, "", true), Route::Halt(m) if m == "C-d"));
    assert!(matches!(route(LineEvent::Eof, "abc", true), Route::Flush(t) if t == "abc"));
    assert!(matches!(route(LineEvent::Eof, "abc", false), Route::Incomplete));
    assert!(matches!(route(LineEvent::Interrupted, "abc", true), Route::Halt(m) if m == "C-c"));
    assert!(matches!(route(LineEvent::Failed("io".to_string()), "", false),
        Route::Halt(m) if m == "Something went wrong: io"));
}

#[test]
fn route_strips_command() {
    assert!(matches!(route(LineEvent::Line(":lreturn 1".to_string()), "", false),
        Route::Script(t) if t == "return 1"));
    assert!(matches!(route(LineEvent::Line(":l".to_string()), "", false), Route::Script(t) if t.is_empty()));
}

#[test]
fn load_command_detection() {
    assert!(starts_with_load(":l 1"));
    assert!(starts_with_load(":l"));
    assert!(!starts_with_load(":"));
    assert!(!starts_with_load(" :l"));
    assert!(!starts_with_load("λl"));
}

#[test]
fn session_counter_saturates() {
    let mut session = Session { accum: String::new(), count: u32::MAX, was_lua: false };
    assert!(matches!(session.settle(Ok(MultiLine::Done("x".to_string())), true), Action::Print(_)));
    assert_eq!(session.count, u32::MAX);
}

#[test]
fn session_more_keeps_text_and_mode() {
    let mut session = Session::new();
    assert_eq!(session.prompt(), "Λ ");
    assert!(matches!(session.settle(Ok(MultiLine::More("do".to_string())), true), Action::Continue));
    assert_eq!(session.accum, "do");
    assert!(session.was_lua);
    assert_eq!(session.count, 0);
}
