use grove::ast::{BinOp, Program};
use grove::error::{ErrorKind, GroveResult};
use grove::interpreter::Interpreter;
use grove::lexer::Lexer;
use grove::parser::Parser;
use grove::types::Value;
use std::cell::RefCell;
use std::rc::Rc;

type HostFn = Box<dyn Fn(&Vec<Value>) -> Result<Value, String>>;

type Machine = Interpreter<HostFn, fn(BinOp, u64, u64) -> u64, fn(u64) -> String>;

fn arith(op: BinOp, a: u64, b: u64) -> u64 {
    let x = f64::from_bits(a);
    let y = f64::from_bits(b);
    let r = match op {
        BinOp::Add => x + y,
        BinOp::Sub => x - y,
        BinOp::Mul => x * y,
        BinOp::Div => x / y,
        BinOp::Mod => x % y,
        BinOp::Pow => x.powf(y),
        _ => f64::NAN,
    };
    r.to_bits()
}

fn plain(bits: u64) -> String {
    format!("{}", f64::from_bits(bits))
}

fn number(text: &str) -> Option<u64> {
    text.parse::<f64>().ok().map(f64::to_bits)
}

fn parse_str(src: &str) -> GroveResult<Program> {
    let mut lex = Lexer::new(src);
    let tokens = lex.tokenize(&number)?;
    let mut parser = Parser::new(tokens);
    parser.parse()
}

fn machine() -> Machine {
    Interpreter::new(arith as fn(BinOp, u64, u64) -> u64, plain as fn(u64) -> String)
}

fn run(src: &str) -> (GroveResult<Value>, Vec<String>) {
    let program = parse_str(src).unwrap();
    let mut interp = machine();
    let output = Rc::new(RefCell::new(Vec::new()));
    let out_clone = output.clone();
    interp.register_fn(
        "log",
        Box::new(move |args: &Vec<Value>| {
            let msg: Vec<String> = args.iter().map(|v| v.to_text(&plain)).collect();
            out_clone.borrow_mut().push(msg.join(" "));
            Ok(Value::Nil)
        }),
    );
    let result = interp.execute(&program);
    let captured = output.borrow().clone();
    (result, captured)
}

#[test]
fn test_basic_arithmetic() {
    let (result, output) = run("local x = 10\nlocal y = x * 2 + 5\nlog(y)");
    assert!(result.is_ok());
    assert_eq!(output, vec!["25"]);
}

#[test]
fn interpreter_test_string_concat() {
    let (_, output) = run(
        r#"local a = "hello" .. " " .. "world"
log(a)"#,
    );
    assert_eq!(output, vec!["hello world"]);
}

#[test]
fn test_if_else() {
    let (_, output) = run(
        r#"
local x = 15
if x > 10 then
    log("big")
elseif x > 5 then
    log("medium")
else
    log("small")
end
"#,
    );
    assert_eq!(output, vec!["big"]);
}

#[test]
fn test_while_loop() {
    let (_, output) = run(
        r#"
local i = 0
local sum = 0
while i < 5 do
    sum = sum + i
    i = i + 1
end
log(sum)
"#,
    );
    assert_eq!(output, vec!["10"]);
}

#[test]
fn interpreter_test_numeric_for() {
    let (_, output) = run(
        r#"
local sum = 0
for i = 1, 5 do
    sum = sum + i
end
log(sum)
"#,
    );
    assert_eq!(output, vec!["15"]);
}

#[test]
fn test_numeric_for_with_step() {
    let (_, output) = run(
        r#"
local sum = 0
for i = 10, 1, -2 do
    sum = sum + i
end
log(sum)
"#,
    );
    // 10 + 8 + 6 + 4 + 2 = 30
    assert_eq!(output, vec!["30"]);
}

#[test]
fn test_blueprint_and_build() {
    let (_, output) = run(
        r#"
blueprint greet(name)
    log("hello " .. name)
end
build greet("world")
"#,
    );
    assert_eq!(output, vec!["hello world"]);
}

#[test]
fn test_blueprint_as_function() {
    let (_, output) = run(
        r#"
blueprint add(a, b)
    return a + b
end
local result = add(3, 4)
log(result)
"#,
    );
    assert_eq!(output, vec!["7"]);
}

#[test]
fn test_vec3() {
    let (_, output) = run(
        r#"
local pos = vec3(1.0, 2.0, 3.0)
log(pos.x)
log(pos.y)
log(pos.z)
"#,
    );
    assert_eq!(output, vec!["1", "2", "3"]);
}

#[test]
fn test_array() {
    let (_, output) = run(
        r#"
local arr = [10, 20, 30]
log(arr[0])
log(arr[1])
log(#arr)
"#,
    );
    assert_eq!(output, vec!["10", "20", "3"]);
}

#[test]
fn test_table() {
    let (_, output) = run(
        r#"
local t = {name = "foo", size = 4}
log(t.name)
log(t.size)
"#,
    );
    assert_eq!(output, vec!["foo", "4"]);
}

#[test]
fn test_boolean_ops() {
    let (_, output) = run(
        r#"
log(true and false)
log(true or false)
log(not true)
"#,
    );
    assert_eq!(output, vec!["false", "true", "false"]);
}

#[test]
fn test_comparison() {
    let (_, output) = run(
        r#"
log(5 > 3)
log(5 < 3)
log(5 == 5)
log(5 ~= 3)
"#,
    );
    assert_eq!(output, vec!["true", "false", "true", "true"]);
}

#[test]
fn test_instruction_limit() {
    let program = parse_str("while true do\nend").unwrap();
    let mut interp = machine();
    interp.set_instruction_limit(100);
    let result = interp.execute(&program);
    assert!(result.is_err());
    let err = result.unwrap_err();
    assert_eq!(err.kind, ErrorKind::InstructionLimit);
}

#[test]
fn test_undefined_variable() {
    let program = parse_str("log(x)").unwrap();
    let mut interp = machine();
    interp.register_fn("log", Box::new(|_: &Vec<Value>| Ok(Value::Nil)));
    let result = interp.execute(&program);
    assert!(result.is_err());
}

#[test]
fn test_break_in_while() {
    let (_, output) = run(
        r#"
local i = 0
while true do
    if i >= 3 then
        break
    end
    log(i)
    i = i + 1
end
"#,
    );
    assert_eq!(output, vec!["0", "1", "2"]);
}

#[test]
fn test_continue_in_for() {
    let (_, output) = run(
        r#"
for i = 1, 5 do
    if i == 3 then
        continue
    end
    log(i)
end
"#,
    );
    assert_eq!(output, vec!["1", "2", "4", "5"]);
}

#[test]
fn test_repeat_until() {
    let (_, output) = run(
        r#"
local i = 0
repeat
    log(i)
    i = i + 1
until i >= 3
"#,
    );
    assert_eq!(output, vec!["0", "1", "2"]);
}

#[test]
fn test_nested_scopes() {
    let (_, output) = run(
        r#"
local x = 1
if true then
    local x = 2
    log(x)
end
log(x)
"#,
    );
    assert_eq!(output, vec!["2", "1"]);
}

#[test]
fn test_power_right_assoc() {
    let (_, output) = run(
        r#"
-- 2^3^2 should be 2^(3^2) = 2^9 = 512
log(2 ^ 3 ^ 2)
"#,
    );
    assert_eq!(output, vec!["512"]);
}

#[test]
fn test_unary_minus() {
    let (_, output) = run(r#"log(-5 + 3)"#);
    assert_eq!(output, vec!["-2"]);
}

#[test]
fn test_nil_equality() {
    let (_, output) = run(
        r#"
log(nil == nil)
log(nil ~= 5)
"#,
    );
    assert_eq!(output, vec!["true", "true"]);
}

#[test]
fn test_string_escape() {
    let (_, output) = run(r#"log("hello\tworld\n")"#);
    assert_eq!(output, vec!["hello\tworld\n"]);
}
