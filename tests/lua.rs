use rlua::Lua;
use slcr::lua::{attempt_lua, classify, render_values, EvalReport};
use slcr::MultiLine;

fn done(r: Result<MultiLine, String>) -> String {
    match r {
        Ok(MultiLine::Done(s)) => s,
        other => panic!("expected Done, got {:?}", other),
    }
}

#[test]
fn test_attempt_lua() {
    let vm = Lua::new();
    assert_eq!(done(attempt_lua(&vm, "1+1", 0)), "Integer(2)\t");
}

#[test]
fn attempt_lua_no_values_is_empty() {
    let vm = Lua::new();
    assert_eq!(done(attempt_lua(&vm, "x = 1", 0)), "");
}

#[test]
fn attempt_lua_several_values_tab_joined() {
    let vm = Lua::new();
    assert_eq!(done(attempt_lua(&vm, "1, true", 3)), "Integer(1)\tBoolean(true)\t");
}

#[test]
fn attempt_lua_incomplete_hands_text_back() {
    let vm = Lua::new();
    match attempt_lua(&vm, "function f()", 0) {
        Ok(MultiLine::More(s)) => assert_eq!(s, "function f()"),
        other => panic!("expected More, got {:?}", other),
    }
}

#[test]
fn attempt_lua_syntax_error() {
    let vm = Lua::new();
    let s = done(attempt_lua(&vm, "x = = 1", 0));
    assert!(s.starts_with("Lua syntax error: "), "{}", s);
}

#[test]
fn attempt_lua_runtime_error() {
    let vm = Lua::new();
    let s = done(attempt_lua(&vm, "error('boom')", 0));
    assert!(s.contains("boom"), "{}", s);
    assert!(!s.starts_with("Lua syntax error"));
}

#[test]
fn classify_values() {
    let r = classify("a", EvalReport::Values(vec!["x".to_string(), "y".to_string()]));
    assert_eq!(done(r), "x\ty\t");
    assert_eq!(done(classify("a", EvalReport::Values(vec![]))), "");
}

#[test]
fn classify_incomplete_is_more() {
    let r = classify("for i", EvalReport::Syntax { message: "eof".to_string(), incomplete: true });
    match r {
        Ok(MultiLine::More(s)) => assert_eq!(s, "for i"),
        other => panic!("expected More, got {:?}", other),
    }
}

#[test]
fn classify_syntax_error() {
    let r = classify("x", EvalReport::Syntax { message: "bad".to_string(), incomplete: false });
    assert_eq!(done(r), "Lua syntax error: bad");
}

#[test]
fn classify_runtime_error() {
    assert_eq!(done(classify("x", EvalReport::Runtime("oops".to_string()))), "oops");
}

#[test]
fn classify_failure_is_fatal() {
    match classify("x", EvalReport::Failure("StackError".to_string())) {
        Err(e) => assert_eq!(e, "Error in eval: StackError"),
        other => panic!("expected Err, got {:?}", other),
    }
}

#[test]
fn render_values_each_followed_by_tab() {
    assert_eq!(render_values(&vec!["1".to_string()]), "1\t");
    assert_eq!(render_values(&vec![]), "");
}
