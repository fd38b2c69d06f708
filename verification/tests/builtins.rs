use fixpoint_eval::call_builtin;
use fixpoint_eval::Builtin;
use fixpoint_eval::Error;
use fixpoint_eval::State;
use fixpoint_eval::Value;

fn host(entries: usize, parameter: usize) -> State {
    State { content: vec!["entry".to_string(); entries], document_size: parameter }
}

#[test]
fn content_appends_and_returns_its_argument() {
    let mut state = host(0, 3);
    let out = call_builtin(Builtin::Content, Value::String("a".to_string()), &mut state);
    assert!(matches!(out, Ok(Value::String(s)) if s == "a"));
    let out = call_builtin(Builtin::Content, Value::String(String::new()), &mut state);
    assert!(matches!(out, Ok(Value::String(s)) if s.is_empty()));
    let out = call_builtin(Builtin::Content, Value::String("b".to_string()), &mut state);
    assert!(matches!(out, Ok(Value::String(s)) if s == "b"));
    assert_eq!(state.content, vec!["a".to_string(), String::new(), "b".to_string()]);
    assert_eq!(state.document_size, 3);
}

#[test]
fn content_rejects_what_is_not_a_string() {
    let mut state = host(2, 0);
    let out = call_builtin(Builtin::Content, Value::Int(3), &mut state);
    assert!(matches!(out, Err(Error::NotAStringValue(Value::Int(3)))));
    let out = call_builtin(Builtin::Content, Value::Bool(true), &mut state);
    assert!(matches!(out, Err(Error::NotAStringValue(Value::Bool(true)))));
    let out = call_builtin(Builtin::Content, Value::Fix, &mut state);
    assert!(matches!(out, Err(Error::NotAStringValue(Value::Fix))));
    assert_eq!(state.content.len(), 2);
}

#[test]
fn location_is_the_length_of_the_log() {
    let mut state = host(0, 9);
    assert!(matches!(call_builtin(Builtin::Location, Value::Int(0), &mut state), Ok(Value::Int(0))));
    let mut state = host(4, 9);
    assert!(matches!(call_builtin(Builtin::Location, Value::Fix, &mut state), Ok(Value::Int(4))));
    assert!(matches!(
        call_builtin(Builtin::Location, Value::String("ignored".to_string()), &mut state),
        Ok(Value::Int(4))
    ));
    assert_eq!(state.content.len(), 4);
}

#[test]
fn size_is_the_parameter() {
    let mut state = host(4, 9);
    assert!(matches!(call_builtin(Builtin::Size, Value::Int(0), &mut state), Ok(Value::Int(9))));
    let mut state = host(4, 0);
    assert!(matches!(call_builtin(Builtin::Size, Value::Bool(false), &mut state), Ok(Value::Int(0))));
    assert_eq!(state.content.len(), 4);
    assert_eq!(state.document_size, 0);
}

#[test]
fn percent_divides_and_truncates() {
    let mut state = host(7, 2);
    assert!(matches!(call_builtin(Builtin::Percent, Value::Int(0), &mut state), Ok(Value::Int(3))));
    let mut state = host(9, 3);
    assert!(matches!(call_builtin(Builtin::Percent, Value::Int(0), &mut state), Ok(Value::Int(3))));
    let mut state = host(2, 10);
    assert!(matches!(call_builtin(Builtin::Percent, Value::Int(0), &mut state), Ok(Value::Int(0))));
    let mut state = host(0, 1);
    assert!(matches!(call_builtin(Builtin::Percent, Value::Int(0), &mut state), Ok(Value::Int(0))));
    let mut state = host(5, 1);
    assert!(matches!(call_builtin(Builtin::Percent, Value::Int(0), &mut state), Ok(Value::Int(5))));
    assert_eq!(state.content.len(), 5);
}

#[test]
fn percent_of_a_zero_parameter_is_an_error() {
    let mut state = host(3, 0);
    let out = call_builtin(Builtin::Percent, Value::Int(0), &mut state);
    assert!(matches!(out, Err(Error::DivisionByZero)));
    let mut state = host(0, 0);
    let out = call_builtin(Builtin::Percent, Value::Int(0), &mut state);
    assert!(matches!(out, Err(Error::DivisionByZero)));
}

#[test]
fn parameter_beyond_the_integers_is_an_error() {
    let too_large = (i64::MAX as u64 + 1) as usize;
    let mut state = host(1, too_large);
    assert!(matches!(
        call_builtin(Builtin::Size, Value::Int(0), &mut state),
        Err(Error::IntegerOverflow)
    ));
    assert!(matches!(
        call_builtin(Builtin::Percent, Value::Int(0), &mut state),
        Err(Error::IntegerOverflow)
    ));
    assert!(matches!(
        call_builtin(Builtin::Location, Value::Int(0), &mut state),
        Ok(Value::Int(1))
    ));
    let mut state = host(1, i64::MAX as usize);
    assert!(matches!(
        call_builtin(Builtin::Size, Value::Int(0), &mut state),
        Ok(Value::Int(i64::MAX))
    ));
    assert!(matches!(
        call_builtin(Builtin::Percent, Value::Int(0), &mut state),
        Ok(Value::Int(0))
    ));
}
