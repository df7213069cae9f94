use grove::ast::{BinOp, Program};
use grove::error::{ErrorKind, GroveError, GroveResult};
use grove::interpreter::Interpreter;
use grove::lexer::Lexer;
use grove::parser::Parser;
use grove::types::{Table, Value};
use std::cell::RefCell;
use std::rc::Rc;

type HostFn = Box<dyn Fn(&Vec<Value>) -> Result<Value, String>>;

type Machine = Interpreter<HostFn, fn(BinOp, u64, u64) -> u64, fn(u64) -> String>;

fn arith(op: BinOp, a: u64, b: u64) -> u64 {
    let x = f64::from_bits(a);
    let y = f64::from_bits(b);
    let r = match op {
        BinOp::Add => x + y,
        BinOp::Sub => x - y,
        BinOp::Mul => x * y,
        BinOp::Div => x / y,
        BinOp::Mod => x % y,
        BinOp::Pow => x.powf(y),
        _ => f64::NAN,
    };
    r.to_bits()
}

fn plain(bits: u64) -> String {
    format!("{}", f64::from_bits(bits))
}

fn number(text: &str) -> Option<u64> {
    text.parse::<f64>().ok().map(f64::to_bits)
}

fn num(x: f64) -> Value {
    Value::Number(x.to_bits())
}

fn parse_str(src: &str) -> GroveResult<Program> {
    let mut lex = Lexer::new(src);
    let tokens = lex.tokenize(&number)?;
    let mut parser = Parser::new(tokens);
    parser.parse()
}

fn machine(output: &Rc<RefCell<Vec<String>>>) -> Machine {
    let mut interp: Machine =
        Interpreter::new(arith as fn(BinOp, u64, u64) -> u64, plain as fn(u64) -> String);
    let out = output.clone();
    interp.register_fn(
        "log",
        Box::new(move |args: &Vec<Value>| {
            let msg: Vec<String> = args.iter().map(|v| v.to_text(&plain)).collect();
            out.borrow_mut().push(msg.join(" "));
            Ok(Value::Nil)
        }),
    );
    interp
}

fn run(src: &str) -> (GroveResult<Value>, Vec<String>) {
    let program = parse_str(src).unwrap();
    let output = Rc::new(RefCell::new(Vec::new()));
    let mut interp = machine(&output);
    let result = interp.execute(&program);
    let captured = output.borrow().clone();
    (result, captured)
}

fn logged(src: &str) -> Vec<String> {
    let (result, output) = run(src);
    assert!(result.is_ok(), "{:?}", result);
    output
}

fn failure(src: &str) -> GroveError {
    run(src).0.unwrap_err()
}

#[test]
fn scenario_arithmetic_on_locals() {
    assert_eq!(logged("local x = 10\nlocal y = x * 2 + 5\nlog(y)"), vec!["25"]);
}

#[test]
fn scenario_while_sums() {
    assert_eq!(
        logged("local i = 0\nlocal sum = 0\nwhile i < 5 do\n  sum = sum + i\n  i = i + 1\nend\nlog(sum)"),
        vec!["10"]
    );
}

#[test]
fn scenario_for_counts_down() {
    assert_eq!(logged("for i = 10, 1, -2 do\n  log(i)\nend"), vec!["10", "8", "6", "4", "2"]);
}

#[test]
fn scenario_blueprint_returns_a_value() {
    assert_eq!(logged("blueprint add(a, b)\n  return a + b\nend\nlog(add(3, 4))"), vec!["7"]);
}

#[test]
fn scenario_vec3_fields() {
    assert_eq!(logged("local p = vec3(1, 2, 3)\nlog(p.x)\nlog(p.y)\nlog(p.z)"), vec!["1", "2", "3"]);
}

#[test]
fn scenario_power_associates_right() {
    assert_eq!(logged("log(2 ^ 3 ^ 2)"), vec!["512"]);
    assert_eq!(logged("log((2 ^ 3) ^ 2)"), vec!["64"]);
    assert_eq!(logged("log(10 - 4 - 3)\nlog(24 / 4 / 2)\nlog(17 % 7 % 2)"), vec!["3", "3", "1"]);
}

#[test]
fn scenario_endless_loop_hits_the_limit_on_line_one() {
    let program = parse_str("while true do end").unwrap();
    let output = Rc::new(RefCell::new(Vec::new()));
    let mut interp = machine(&output);
    interp.set_instruction_limit(100);
    let err = interp.execute(&program).unwrap_err();
    assert_eq!(err.kind, ErrorKind::InstructionLimit);
    assert_eq!(err.message, "instruction limit exceeded");
    assert_eq!(err.line, 1);
    assert_eq!(err.to_text(), "[line 1:1] InstructionLimit: instruction limit exceeded");
    assert_eq!(interp.instruction_count(), 101);
}

#[test]
fn the_limit_counts_statements_and_iterations() {
    let src = "local n = 0\nfor i = 1, 3 do\n  n = n + i\nend\nlog(n)";
    // 1 declaration, 1 loop head, 3 iterations with 1 statement each, 1 call.
    let program = parse_str(src).unwrap();
    for (limit, ok) in [(9, true), (100, true), (8, false), (0, false)] {
        let output = Rc::new(RefCell::new(Vec::new()));
        let mut interp = machine(&output);
        interp.set_instruction_limit(limit);
        let result = interp.execute(&program);
        assert_eq!(result.is_ok(), ok, "limit {}", limit);
        if ok {
            assert_eq!(interp.instruction_count(), 9);
            assert!(interp.instruction_count() <= interp.instruction_limit());
        } else {
            assert_eq!(result.unwrap_err().kind, ErrorKind::InstructionLimit);
            assert_eq!(interp.instruction_count(), limit + 1);
        }
    }
    // Each run counts from zero again.
    let output = Rc::new(RefCell::new(Vec::new()));
    let mut interp = machine(&output);
    interp.set_instruction_limit(9);
    assert!(interp.execute(&program).is_ok());
    assert!(interp.execute(&program).is_ok());
}

#[test]
fn short_circuit_skips_the_right_operand() {
    let src = "local a = false and probe()\nlocal b = true or probe()\nlocal c = nil and probe()\n\
               local d = 1 or probe()\nlog(a, b, c, d)\nlocal e = true and probe()\nlocal f = false or probe()\nlog(e, f)";
    let program = parse_str(src).unwrap();
    let output = Rc::new(RefCell::new(Vec::new()));
    let mut interp = machine(&output);
    let calls = Rc::new(RefCell::new(0));
    let seen = calls.clone();
    interp.register_fn(
        "probe",
        Box::new(move |_: &Vec<Value>| {
            *seen.borrow_mut() += 1;
            Ok(Value::String("probed".to_string()))
        }),
    );
    interp.execute(&program).unwrap();
    assert_eq!(*output.borrow(), vec!["false true nil 1", "probed probed"]);
    assert_eq!(*calls.borrow(), 2);
}

#[test]
fn a_host_function_that_changes_its_answer_leaves_other_programs_alone() {
    // `noise` answers differently each time; a program that does not call it
    // runs as if it were not there, whatever else it calls.
    let src = "local n = 0\nlocal a = [3, 1, 2]\nwhile n < 3 do n = n + 1 if a[n - 1] == 1 then continue end end\n\
               blueprint twice(x) log(x) return x * 2 end\n\
               for i = 1, 2 do n = twice(n) end\nreturn n .. \"!\"";
    let program = parse_str(src).unwrap();
    let mut results = Vec::new();
    let mut counts = Vec::new();
    for round in 0..3 {
        let output = Rc::new(RefCell::new(Vec::new()));
        let mut interp = machine(&output);
        let ticks = Rc::new(RefCell::new(round));
        let seen = ticks.clone();
        interp.register_fn(
            "noise",
            Box::new(move |_: &Vec<Value>| {
                *seen.borrow_mut() += 1;
                Ok(num(*seen.borrow() as f64))
            }),
        );
        results.push(interp.execute(&program).unwrap());
        counts.push(interp.instruction_count());
        assert_eq!(*output.borrow(), vec!["3", "6"]);
    }
    assert_eq!(results, vec![Value::String("12!".to_string()); 3]);
    assert_eq!(counts[0], counts[1]);
    assert_eq!(counts[1], counts[2]);
}

#[test]
fn and_or_give_the_operand_not_a_boolean() {
    assert_eq!(logged("log(1 and 2)\nlog(nil or \"x\")\nlog(false or nil)\nlog(0 and \"zero is truthy\")"),
        vec!["2", "x", "nil", "zero is truthy"]);
}

#[test]
fn two_runs_of_the_same_source_agree() {
    let src = "local t = {n = 0}\nblueprint bump(by) t.n = t.n + by return t.n end\n\
               for i = 1, 4 do log(bump(i), #\"é\", [1,2][i]) end\nreturn t.n";
    let (r1, o1) = run(src);
    let (r2, o2) = run(src);
    assert_eq!(r1.unwrap(), r2.unwrap());
    assert_eq!(o1, o2);
    assert_eq!(o1, vec!["1 2 2", "3 2 nil", "6 2 nil", "10 2 nil"]);
}

#[test]
fn division_by_zero_is_a_runtime_error() {
    let err = failure("local x = 1\nlocal y = x / 0");
    assert_eq!(err.kind, ErrorKind::Runtime);
    assert_eq!(err.message, "division by zero");
    assert_eq!((err.line, err.column), (2, 11));
    assert_eq!(failure("log(1 / -0)").kind, ErrorKind::Runtime);
    // The remainder by zero is the number that the arithmetic gives.
    assert_eq!(logged("log(1 % 0)"), vec!["NaN"]);
    assert_eq!(failure("log(vec3(1,2,3) / \"x\")").kind, ErrorKind::Type);
}

#[test]
fn array_write_out_of_bounds_is_a_runtime_error() {
    let err = failure("local a = [1, 2]\na[2] = 5");
    assert_eq!(err.kind, ErrorKind::Runtime);
    assert_eq!(err.message, "array index 2 out of bounds (len 2)");
    assert_eq!((err.line, err.column), (2, 2));
    assert_eq!(logged("local a = [1, 2]\na[1] = 5\na[0.9] = 7\nlog(a[0], a[1], a[2], a[-1])"), vec!["7 5 nil nil"]);
}

#[test]
fn a_negative_index_is_out_of_bounds() {
    assert_eq!(
        logged("local a = [10, 20, 30]\nlog(a[0], a[1], a[3], a[-1], a[-0.5], a[-0], a[2.9], a[0 % 0], a[1000000000000000000000000000000])"),
        vec!["10 20 nil nil 10 10 30 nil nil"]
    );
    assert_eq!(logged("local s = \"abc\"\nlog(s[-1], s[-0.25], s[2], s[3], s[-5])"), vec!["nil a c nil nil"]);
    // Nothing is written where the index is out of bounds.
    let program = parse_str("a[-1] = 9").unwrap();
    let output = Rc::new(RefCell::new(Vec::new()));
    let mut interp = machine(&output);
    interp.set_global("a", Value::Array(vec![num(1.0), num(2.0)]));
    let err = interp.execute(&program).unwrap_err();
    assert_eq!(err.kind, ErrorKind::Runtime);
    assert_eq!(err.message, "array index 0 out of bounds (len 2)");
    assert_eq!((err.line, err.column), (1, 2));
    match interp.env.get("a") {
        Some(Value::Array(items)) => assert_eq!(items, &vec![num(1.0), num(2.0)]),
        other => panic!("not an array: {:?}", other),
    }
    for (src, message) in [
        ("local a = [1, 2]\na[-2.5] = 9", "array index 0 out of bounds (len 2)"),
        ("local a = []\na[0] = 9", "array index 0 out of bounds (len 0)"),
        ("local a = []\na[-0.5] = 9", "array index 0 out of bounds (len 0)"),
        ("local a = [1]\na[0 % 0] = 9", "array index 0 out of bounds (len 1)"),
        ("local a = [1]\na[1000000000000000000000000000000] = 9", "array index 18446744073709551615 out of bounds (len 1)"),
        ("local a = [1]\na[7.5] = 9", "array index 7 out of bounds (len 1)"),
    ] {
        let err = failure(src);
        assert_eq!(err.kind, ErrorKind::Runtime, "{}", src);
        assert_eq!(err.message, message, "{}", src);
    }
    assert_eq!(logged("local a = [1, 2]\na[-0.5] = 9\nlog(a[0], a[1])"), vec!["9 2"]);
}

#[test]
fn the_way_back_after_continue_is_counted() {
    let program = parse_str("local go = true\nwhile go do go = false continue end").unwrap();
    // 1 declaration, 1 loop head, 2 statements in the body, 1 way back.
    for (limit, ok) in [(5, true), (4, false), (3, false)] {
        let output = Rc::new(RefCell::new(Vec::new()));
        let mut interp = machine(&output);
        interp.set_instruction_limit(limit);
        let result = interp.execute(&program);
        assert_eq!(result.is_ok(), ok, "limit {}", limit);
        if ok {
            assert_eq!(interp.instruction_count(), 5);
        } else {
            let err = result.unwrap_err();
            assert_eq!(err.kind, ErrorKind::InstructionLimit);
            assert_eq!(interp.instruction_count(), limit + 1);
        }
    }
    // Under limit 4 it is the loop's way back that goes beyond the limit.
    let output = Rc::new(RefCell::new(Vec::new()));
    let mut interp = machine(&output);
    interp.set_instruction_limit(4);
    let err = interp.execute(&program).unwrap_err();
    assert_eq!((err.line, err.column), (2, 1));
}

#[test]
fn the_head_of_every_statement_is_counted() {
    let program = parse_str("local n = 0\nfor k, v in [1] do end").unwrap();
    let output = Rc::new(RefCell::new(Vec::new()));
    let mut interp = machine(&output);
    let err = interp.execute(&program).unwrap_err();
    assert_eq!(err.kind, ErrorKind::Runtime);
    assert_eq!(err.message, "generic for not yet implemented");
    assert_eq!(interp.instruction_count(), 2);
    // With no budget left for its head the loop is not reached.
    let mut interp = machine(&output);
    interp.set_instruction_limit(1);
    let err = interp.execute(&program).unwrap_err();
    assert_eq!(err.kind, ErrorKind::InstructionLimit);
    assert_eq!((err.line, err.column), (2, 1));
    assert_eq!(interp.instruction_count(), 2);
}

#[test]
fn unary_minus_on_a_non_number_is_a_type_error() {
    let err = failure("local s = -\"x\"");
    assert_eq!(err.kind, ErrorKind::Type);
    assert_eq!(err.message, "cannot negate string");
    assert_eq!(failure("log(#5)").message, "cannot get length of number");
    assert_eq!(logged("log(-(-3), not nil, not 0, #\"abc\", #[], #{a = 1, b = 2})"), vec!["3 true false 3 0 2"]);
}

#[test]
fn reading_an_undefined_name_is_a_name_error() {
    let err = failure("local y = x + 1");
    assert_eq!(err.kind, ErrorKind::NameError);
    assert_eq!(err.message, "undefined variable 'x'");
    assert_eq!((err.line, err.column), (1, 11));
    let err = failure("x = 1");
    assert_eq!(err.kind, ErrorKind::NameError);
    assert_eq!(err.message, "undefined variable 'x'");
    let err = failure("nothing(1)");
    assert_eq!(err.kind, ErrorKind::NameError);
    assert_eq!(err.message, "undefined function 'nothing'");
    let err = failure("build nothing(missing)");
    assert_eq!(err.kind, ErrorKind::NameError);
    assert_eq!(err.message, "undefined blueprint 'nothing'");
    let err = failure("local f = 1\n(f)(2)(3)");
    assert_eq!(err.kind, ErrorKind::NameError);
    assert_eq!(err.message, "undefined function '<expression>'");
}

#[test]
fn break_or_continue_at_the_top_level_is_a_runtime_error() {
    for src in ["break", "continue", "if true then break end"] {
        let err = failure(src);
        assert_eq!(err.kind, ErrorKind::Runtime);
        assert_eq!(err.message, "break/continue outside of loop");
        assert_eq!((err.line, err.column), (0, 0));
    }
}

#[test]
fn return_at_the_top_level_ends_the_run_with_its_value() {
    let (result, output) = run("log(1)\nreturn 2 + 3\nlog(4)");
    assert_eq!(result.unwrap(), num(5.0));
    assert_eq!(output, vec!["1"]);
    assert_eq!(run("local x = 1").0.unwrap(), Value::Nil);
    assert_eq!(run("while true do return \"out\" end").0.unwrap(), Value::String("out".into()));
}

#[test]
fn host_errors_become_runtime_errors_at_the_call() {
    let program = parse_str("local x = 1\n  fail(x, 2)").unwrap();
    let output = Rc::new(RefCell::new(Vec::new()));
    let mut interp = machine(&output);
    interp.register_fn("fail", Box::new(|args: &Vec<Value>| Err(format!("no luck with {} values", args.len()))));
    let err = interp.execute(&program).unwrap_err();
    assert_eq!(err.kind, ErrorKind::Runtime);
    assert_eq!(err.message, "no luck with 2 values");
    assert_eq!((err.line, err.column), (2, 7));
}

#[test]
fn registering_again_replaces_and_host_functions_hide_blueprints() {
    let program = parse_str("blueprint f() return \"blueprint\" end\nlog(f())\nlog(vec3(1, 2, 3))").unwrap();
    let output = Rc::new(RefCell::new(Vec::new()));
    let mut interp = machine(&output);
    interp.register_fn("f", Box::new(|_: &Vec<Value>| Ok(Value::String("first".into()))));
    interp.register_fn("f", Box::new(|_: &Vec<Value>| Ok(Value::String("second".into()))));
    interp.register_fn("vec3", Box::new(|_: &Vec<Value>| Ok(Value::String("never".into()))));
    interp.execute(&program).unwrap();
    assert_eq!(*output.borrow(), vec!["second", "vec3(1, 2, 3)"]);
}

#[test]
fn blueprints_bind_missing_arguments_to_nil_and_drop_extra_ones() {
    assert_eq!(
        logged("blueprint show(a, b) log(a, b) end\nbuild show(1)\nbuild show(1, 2, 3)\nlog(show())"),
        vec!["1 nil", "1 2", "nil nil", "nil"]
    );
    // The latest definition wins, and a blueprint sees the globals, not the
    // locals of its caller's blocks.
    assert_eq!(
        logged("blueprint f() return 1 end\nblueprint f() return g end\nlocal g = 5\nlog(f())"),
        vec!["5"]
    );
    // Break and Continue do not leave a blueprint.
    assert_eq!(logged("blueprint f() break end\nwhile true do log(f()) break end"), vec!["nil"]);
}

#[test]
fn recursion_works_and_is_bounded_by_the_limit() {
    assert_eq!(
        logged("blueprint fact(n) if n <= 1 then return 1 end return n * fact(n - 1) end\nlog(fact(10))"),
        vec!["3628800"]
    );
    let program = parse_str("blueprint down(n) return down(n + 1) end\ndown(0)").unwrap();
    let output = Rc::new(RefCell::new(Vec::new()));
    let mut interp = machine(&output);
    interp.set_instruction_limit(500);
    assert_eq!(interp.execute(&program).unwrap_err().kind, ErrorKind::InstructionLimit);
}

#[test]
fn vectors_add_and_scale() {
    assert_eq!(
        logged("local a = vec3(1, 2, 3)\nlocal b = vec3(10, 20, 30)\nlog(a + b)\nlog(b - a)\nlog(a * 2)\nlog(2 * a)\nlog(b / 10)\nlog(a == vec3(1, 2, 3), a == b, a ~= b)"),
        vec!["vec3(11, 22, 33)", "vec3(9, 18, 27)", "vec3(2, 4, 6)", "vec3(2, 4, 6)", "vec3(1, 2, 3)", "true false true"]
    );
    for (src, message) in [
        ("log(vec3(1,2,3) * vec3(1,2,3))", "cannot apply '*' to vec3 and vec3"),
        ("log(1 + vec3(1,2,3))", "cannot apply '+' to number and vec3"),
        ("log(1 / vec3(1,2,3))", "cannot apply '/' to number and vec3"),
        ("log(vec3(1,2,3) ^ 2)", "cannot apply '^' to vec3 and number"),
        ("log(\"a\" + 1)", "cannot apply '+' to string and number"),
        ("log(nil - true)", "cannot apply '-' to nil and bool"),
        ("log([1] % {})", "cannot apply '%' to array and table"),
    ] {
        let err = failure(src);
        assert_eq!(err.kind, ErrorKind::Type, "{}", src);
        assert_eq!(err.message, message, "{}", src);
    }
    let err = failure("log(vec3(1, 2))");
    assert_eq!((err.kind, err.message.as_str()), (ErrorKind::Runtime, "vec3() expects 3 arguments, got 2"));
    let err = failure("log(vec3(1, \"2\", 3))");
    assert_eq!((err.kind, err.message.as_str()), (ErrorKind::Type, "vec3 y must be a number"));
    let err = failure("log(vec3(1, 2, 3).w)");
    assert_eq!((err.kind, err.message.as_str()), (ErrorKind::Type, "vec3 has no field 'w'"));
    assert_eq!(logged("local p = vec3(1, 2, 3)\nlog(p.y)"), vec!["2"]);
}

#[test]
fn comparisons_on_numbers_and_strings() {
    assert_eq!(
        logged("log(1 < 2, 2 <= 2, 3 > 4, 4 >= 4, -1 < 0, 0 == -0)\nlog(\"a\" < \"b\", \"b\" <= \"a\", \"ab\" > \"a\", \"a\" >= \"a\", \"Z\" < \"a\", \"\" < \"a\")"),
        vec!["true true false true true true", "true false true true true true"]
    );
    assert_eq!(logged("local nan = 0 / 1 % 0\nlocal n = 1 % 0\nlog(n == n, n ~= n, n < 1, n >= 1)"), vec!["false true false false"]);
    let err = failure("log(1 < \"2\")");
    assert_eq!((err.kind, err.message.as_str()), (ErrorKind::Type, "cannot compare number and string with '<'"));
    assert_eq!(
        logged("log(nil == false, 1 == \"1\", [1] == [1], {} == {}, \"a\" == \"a\", true ~= true, nil ~= nil)"),
        vec!["false false false false true false false"]
    );
}

#[test]
fn concatenation_prints_both_operands() {
    assert_eq!(
        logged("log(1 .. 2, 1.5 .. \"x\", nil .. true, [1, \"a\"] .. {k = 2}, vec3(1, 2.5, -3) .. \"\")"),
        vec!["12 1.5x niltrue [1, a]{k = 2} vec3(1, 2.5, -3)"]
    );
}

#[test]
fn indexing_and_field_access() {
    assert_eq!(
        logged("local t = {a = 1}\nlog(t.a, t.b, t[\"a\"], t[\"zz\"])\nlocal s = \"héllo\"\nlog(s[0], s[1], s[4], s[5], #s)"),
        vec!["1 nil 1 nil", "h é o nil 6"]
    );
    for (src, message) in [
        ("log((1).x)", "cannot access field 'x' on number"),
        ("log(\"s\".len)", "cannot access field 'len' on string"),
        ("log([1][\"a\"])", "cannot index array with string"),
        ("log(({})[1])", "cannot index table with number"),
        ("log((nil)[1])", "cannot index nil with number"),
    ] {
        let err = failure(src);
        assert_eq!(err.kind, ErrorKind::Type, "{}", src);
        assert_eq!(err.message, message, "{}", src);
    }
}

#[test]
fn assignment_to_fields_and_elements_writes_back_to_the_variable() {
    assert_eq!(
        logged("local t = {}\nt.a = 1\nt[\"b\"] = 2\nt.a = 3\nlog(t.a, t.b, #t)\nlocal a = [0, 0]\na[1] = t\nlog(a[1].b)"),
        vec!["3 2 2", "2"]
    );
    // One level only: what is written to a field of a field is dropped.
    assert_eq!(logged("local t = {inner = {x = 1}}\nt.inner.x = 2\nlog(t.inner.x)"), vec!["1"]);
    for (src, kind, message) in [
        ("local n = 1\nn.x = 2", ErrorKind::Type, "cannot set field 'x' on number"),
        ("local n = 1\nn[0] = 2", ErrorKind::Type, "cannot index number with number"),
        ("local a = [1]\na[\"k\"] = 2", ErrorKind::Type, "cannot index array with string"),
        ("f() = 2", ErrorKind::Runtime, "invalid assignment target"),
        ("1 = 2", ErrorKind::Runtime, "invalid assignment target"),
        ("nope.x = 2", ErrorKind::NameError, "undefined variable 'nope'"),
    ] {
        let err = failure(src);
        assert_eq!(err.kind, kind, "{}", src);
        assert_eq!(err.message, message, "{}", src);
    }
}

#[test]
fn loops_and_their_scopes() {
    // The variable of a for loop and the locals of a block end with it.
    let err = failure("for i = 1, 2 do local inside = i end\nlog(i)");
    assert_eq!(err.message, "undefined variable 'i'");
    let err = failure("if true then local inside = 1 end\nlog(inside)");
    assert_eq!(err.message, "undefined variable 'inside'");
    let err = failure("repeat local inside = 1 until inside");
    assert_eq!(err.message, "undefined variable 'inside'");
    assert_eq!(logged("for i = 1, 0 do log(i) end\nfor i = 1, 1 do log(i) end\nfor i = 1, 2, 0.5 do log(i) end"),
        vec!["1", "1", "1.5", "2"]);
    assert_eq!(logged("local n = 0\nrepeat n = n + 1 if n == 2 then continue end log(n) until n >= 3"), vec!["1", "3"]);
    assert_eq!(logged("local n = 0\nwhile n < 5 do n = n + 1 if n < 4 then continue end log(n) end"), vec!["4", "5"]);
    for (src, kind, message) in [
        ("for i = 1, 2, 0 do end", ErrorKind::Runtime, "for step cannot be zero"),
        ("for i = \"a\", 2 do end", ErrorKind::Type, "for start must be a number"),
        ("for i = 1, nil do end", ErrorKind::Type, "for limit must be a number"),
        ("for i = 1, 2, {} do end", ErrorKind::Type, "for step must be a number"),
        ("for k, v in [1] do end", ErrorKind::Runtime, "generic for not yet implemented"),
        ("local s = \"x\"\ns:upper()", ErrorKind::Runtime, "method call 'upper' on string not yet implemented"),
    ] {
        let err = failure(src);
        assert_eq!(err.kind, kind, "{}", src);
        assert_eq!(err.message, message, "{}", src);
    }
}

#[test]
fn globals_are_seen_by_scripts() {
    let program = parse_str("log(answer, name, origin.y, things[1], settings.deep)\nanswer = answer + 1\nreturn answer").unwrap();
    let output = Rc::new(RefCell::new(Vec::new()));
    let mut interp = machine(&output);
    interp.set_global("answer", num(41.0));
    interp.set_global("name", Value::String("grove".into()));
    interp.set_global("origin", Value::Vec3(0f64.to_bits(), 1.5f64.to_bits(), 0f64.to_bits()));
    interp.set_global("things", Value::Array(vec![Value::Nil, Value::Object(9)]));
    let mut settings = Table::new();
    settings.insert("deep", Value::Bool(true));
    interp.set_global("settings", Value::Table(settings));
    assert_eq!(interp.execute(&program).unwrap(), num(42.0));
    assert_eq!(*output.borrow(), vec!["41 grove 1.5 <object:9> true"]);
    assert_eq!(interp.env.get("answer"), Some(&num(42.0)));
}

#[test]
fn value_helpers() {
    assert!(!Value::Nil.is_truthy());
    assert!(!Value::Bool(false).is_truthy());
    assert!(Value::Bool(true).is_truthy());
    assert!(num(0.0).is_truthy());
    assert!(Value::String(String::new()).is_truthy());
    let all = [
        (Value::Nil, "nil"),
        (Value::Bool(true), "bool"),
        (num(1.0), "number"),
        (Value::String("s".into()), "string"),
        (Value::Vec3(0, 0, 0), "vec3"),
        (Value::Array(vec![]), "array"),
        (Value::Table(Table::new()), "table"),
        (Value::Object(1), "object"),
    ];
    for (v, label) in &all {
        assert_eq!(v.type_label(), *label);
        assert_eq!(v.clone().to_text(&plain), v.to_text(&plain));
    }
    assert_eq!(num(2.5).as_number(), Some(2.5f64.to_bits()));
    assert_eq!(Value::Nil.as_number(), None);
    assert_eq!(Value::String("s".into()).as_string(), Some("s"));
    assert_eq!(num(1.0).as_string(), None);
    assert_eq!(Value::Bool(false).as_bool(), Some(false));
    assert_eq!(Value::Nil.as_bool(), None);
    assert!(Value::Array(vec![]) != Value::Array(vec![]));
    assert!(Value::Table(Table::new()) != Value::Table(Table::new()));
    assert!(num(f64::NAN) != num(f64::NAN));
    assert!(Value::Object(3) == Value::Object(3));
    for (kind, text) in [
        (GroveError::syntax("m", 1, 2), "[line 1:2] Syntax: m"),
        (GroveError::runtime("m", 10, 20), "[line 10:20] Runtime: m"),
        (GroveError::type_error("m", 0, 0), "[line 0:0] Type: m"),
        (GroveError::name_error("m", 7, 1), "[line 7:1] NameError: m"),
        (GroveError::instruction_limit(3, 4), "[line 3:4] InstructionLimit: instruction limit exceeded"),
    ] {
        assert_eq!(kind.to_text(), text);
    }
}
