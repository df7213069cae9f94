use grove::ast::BinOp;
use grove::types::{Table, Value};
use grove::vm::{
    grove_value_to_value, host_error_message, value_to_grove_value, GroveStringVal, GroveValue,
    GroveValueTag, GroveVec3Val, GroveVm,
};
use std::cell::RefCell;
use std::rc::Rc;

type HostFn = Box<dyn Fn(&Vec<Value>) -> Result<Value, String>>;

type Vm = GroveVm<HostFn, fn(BinOp, u64, u64) -> u64, fn(u64) -> String>;

fn arith(op: BinOp, a: u64, b: u64) -> u64 {
    let x = f64::from_bits(a);
    let y = f64::from_bits(b);
    let r = match op {
        BinOp::Add => x + y,
        BinOp::Sub => x - y,
        BinOp::Mul => x * y,
        BinOp::Div => x / y,
        BinOp::Mod => x % y,
        BinOp::Pow => x.powf(y),
        _ => f64::NAN,
    };
    r.to_bits()
}

fn plain(bits: u64) -> String {
    format!("{}", f64::from_bits(bits))
}

fn number(text: &str) -> Option<u64> {
    text.parse::<f64>().ok().map(f64::to_bits)
}

fn vm_with_log(output: &Rc<RefCell<Vec<String>>>) -> Vm {
    let mut vm: Vm = GroveVm::new(arith as fn(BinOp, u64, u64) -> u64, plain as fn(u64) -> String);
    let out = output.clone();
    let ret = vm.register_fn(
        "log",
        Box::new(move |args: &Vec<Value>| {
            // The function sees its arguments as they cross the boundary.
            let shown: Vec<String> = args
                .iter()
                .map(|a| grove_value_to_value(&value_to_grove_value(a)).to_text(&plain))
                .collect();
            out.borrow_mut().push(shown.join(" "));
            Ok(Value::Nil)
        }),
    );
    assert_eq!(ret, 0);
    vm
}

#[test]
fn test_ffi_eval() {
    let output = Rc::new(RefCell::new(Vec::new()));
    let mut vm = vm_with_log(&output);

    let ret = vm.eval("local x = 10\nlocal y = x * 2 + 5\nlog(y)", &number);
    assert_eq!(ret, 0, "eval should succeed");
    assert_eq!(*output.borrow(), vec!["25"]);
    assert!(vm.last_error().is_none());
    assert_eq!(vm.last_error_line(), 0);

    // Test error reporting
    let ret = vm.eval("local x = 10 +", &number);
    assert_eq!(ret, -1, "eval should fail on syntax error");
    let err = vm.last_error();
    assert!(err.is_some());
    let err_line = vm.last_error_line();
    assert!(err_line > 0);
    assert_eq!(err, Some("[line 1:15] Syntax: unexpected token Eof"));

    // Test instruction limit
    vm.set_instruction_limit(50);
    let ret = vm.eval("while true do\nend", &number);
    assert_eq!(ret, -1, "eval should fail on infinite loop");
    assert_eq!(vm.last_error(), Some("[line 1:1] InstructionLimit: instruction limit exceeded"));
    assert_eq!(vm.last_error_line(), 1);

    // A run that succeeds clears the error.
    assert_eq!(vm.eval("log(1)", &number), 0);
    assert!(vm.last_error().is_none());
    assert_eq!(vm.last_error_line(), 0);
}

#[test]
fn test_ffi_globals() {
    let output = Rc::new(RefCell::new(Vec::new()));
    let mut vm = vm_with_log(&output);
    assert_eq!(vm.set_global_number("my_num", 42.0f64.to_bits()), 0);
    assert_eq!(vm.set_global_string("my_str", "hello"), 0);
    assert_eq!(vm.set_global_vec3("my_pos", 1.0f64.to_bits(), 2.0f64.to_bits(), 3.0f64.to_bits()), 0);
    let ret = vm.eval("log(my_num)\nlog(my_str)\nlog(my_pos.x)", &number);
    assert_eq!(ret, 0);
    assert_eq!(*output.borrow(), vec!["42", "hello", "1"]);
}

#[test]
fn state_lives_across_runs() {
    let output = Rc::new(RefCell::new(Vec::new()));
    let mut vm = vm_with_log(&output);
    assert_eq!(vm.eval("local counter = 1\nblueprint next() counter = counter + 1 return counter end", &number), 0);
    assert_eq!(vm.eval("log(next(), next())", &number), 0);
    assert_eq!(vm.eval("log(counter", &number), -1);
    assert_eq!(vm.last_error_line(), 1);
    assert_eq!(vm.eval("log(counter)", &number), 0);
    assert_eq!(*output.borrow(), vec!["2 3", "3"]);
}

#[test]
fn errors_of_each_stage_are_kept_with_their_line() {
    let output = Rc::new(RefCell::new(Vec::new()));
    let mut vm = vm_with_log(&output);
    assert_eq!(vm.eval("local a = 1\nlocal s = 'open", &number), -1);
    assert_eq!(vm.last_error(), Some("[line 2:11] Syntax: unterminated string"));
    assert_eq!(vm.last_error_line(), 2);
    assert_eq!(vm.eval("\n\nlocal = 1", &number), -1);
    assert_eq!(vm.last_error(), Some("[line 3:7] Syntax: expected identifier, got Assign"));
    assert_eq!(vm.last_error_line(), 3);
    assert_eq!(vm.eval("\nlog(1)\nlog(nope)", &number), -1);
    assert_eq!(vm.last_error(), Some("[line 3:5] NameError: undefined variable 'nope'"));
    assert_eq!(vm.last_error_line(), 3);
    assert_eq!(*output.borrow(), vec!["1"]);
    assert_eq!(vm.invalid_source(), -1);
    assert_eq!(vm.last_error(), Some("invalid UTF-8 in source"));
    assert_eq!(vm.last_error_line(), 0);
}

#[test]
fn values_at_the_boundary() {
    let cases = vec![
        (Value::Nil, GroveValueTag::Nil),
        (Value::Bool(true), GroveValueTag::Bool),
        (Value::Bool(false), GroveValueTag::Bool),
        (Value::Number(2.5f64.to_bits()), GroveValueTag::Number),
        (Value::String("héllo".into()), GroveValueTag::String),
        (Value::String(String::new()), GroveValueTag::String),
        (Value::Vec3(1, 2, 3), GroveValueTag::Vec3),
        (Value::Object(u64::MAX), GroveValueTag::Object),
    ];
    for (v, tag) in cases {
        let w = value_to_grove_value(&v);
        assert_eq!(w.tag, tag);
        assert_eq!(grove_value_to_value(&w), v);
    }
    let w = value_to_grove_value(&Value::Bool(true));
    assert_eq!((w.bool_val, w.number_val, w.object_handle), (1, 0, 0));
    let w = value_to_grove_value(&Value::String("é".into()));
    assert_eq!(w.string_val.bytes, Some(vec![0xC3, 0xA9]));
    // Arrays and tables go out as nil.
    assert_eq!(value_to_grove_value(&Value::Array(vec![Value::Nil])).tag, GroveValueTag::Nil);
    assert_eq!(value_to_grove_value(&Value::Table(Table::new())).tag, GroveValueTag::Nil);
    // Inbound: a boolean is true where its number is not zero; a string
    // without bytes is empty; bytes that are no UTF-8 are replaced.
    let wire = |tag: GroveValueTag, bool_val: i32, bytes: Option<Vec<u8>>| GroveValue {
        tag,
        bool_val,
        number_val: 7f64.to_bits(),
        string_val: GroveStringVal { bytes },
        vec3_val: GroveVec3Val { x: 1, y: 2, z: 3 },
        object_handle: 5,
    };
    assert_eq!(grove_value_to_value(&wire(GroveValueTag::Bool, -3, None)), Value::Bool(true));
    assert_eq!(grove_value_to_value(&wire(GroveValueTag::Bool, 0, None)), Value::Bool(false));
    assert_eq!(grove_value_to_value(&wire(GroveValueTag::String, 0, None)), Value::String(String::new()));
    assert_eq!(
        grove_value_to_value(&wire(GroveValueTag::String, 0, Some(vec![b'a', 0xFF, b'b']))),
        Value::String("a\u{FFFD}b".into())
    );
    assert_eq!(grove_value_to_value(&wire(GroveValueTag::Number, 1, None)), Value::Number(7f64.to_bits()));
    assert_eq!(grove_value_to_value(&wire(GroveValueTag::Vec3, 1, None)), Value::Vec3(1, 2, 3));
    assert_eq!(grove_value_to_value(&wire(GroveValueTag::Object, 1, None)), Value::Object(5));
    assert_eq!(grove_value_to_value(&wire(GroveValueTag::Nil, 1, Some(vec![1]))), Value::Nil);
}

#[test]
fn tags_have_their_codes() {
    let tags = [
        GroveValueTag::Nil,
        GroveValueTag::Bool,
        GroveValueTag::Number,
        GroveValueTag::String,
        GroveValueTag::Vec3,
        GroveValueTag::Object,
    ];
    for (code, tag) in tags.iter().enumerate() {
        assert_eq!(tag.code(), code as u32);
        assert_eq!(GroveValueTag::from_code(code as u32), Some(*tag));
    }
    assert_eq!(GroveValueTag::from_code(6), None);
    assert_eq!(GroveValueTag::from_code(u32::MAX), None);
}

#[test]
fn host_error_messages() {
    assert_eq!(host_error_message("spawn", 3), "host function 'spawn' returned error code 3");
    assert_eq!(host_error_message("f", -1), "host function 'f' returned error code -1");
    assert_eq!(
        host_error_message("", i32::MIN),
        "host function '' returned error code -2147483648"
    );
    assert_eq!(
        host_error_message("g", i32::MAX),
        "host function 'g' returned error code 2147483647"
    );
}
