//! The virtual machine that an embedder holds: an interpreter with the error
//! of the last run, and the form that values take at the boundary.
use vstd::prelude::*;
use vstd::string::*;
use vstd::utf8::{decode_utf8, encode_utf8, valid_utf8};
use crate::ast::BinOp;
use crate::environment::env_define;
use crate::error::{error_text, GroveError, SpecError};
use crate::grammar::parse_tokens;
use crate::interpreter::{
    arith_fixed,
    arith_model,
    arith_total,
    host_fixed,
    host_model,
    host_total,
    Interpreter,
};
use crate::quiet::{quiet_procs, quiet_stmts, Terms};
use crate::lexer::{lex, parse_fixed, parse_model, parse_total, Lexer, ParseModel};
use crate::parser::Parser;
use crate::semantics::{failed, sem_program, with_scopes, Context, Ran, State};
use crate::text::{decimal, push_decimal, push_text};
use crate::types::{
    format_fixed,
    format_model,
    format_total,
    stored,
    Entries,
    SpecValue,
    Value,
};

verus! {

/// The kinds of value that cross the boundary, in the order of their codes:
/// `Nil` is 0 and `Object` is 5.
#[derive(Debug, Clone, Copy, PartialEq, Eq, Structural)]
pub enum GroveValueTag {
    Nil,
    Bool,
    Number,
    String,
    Vec3,
    Object,
}

/// A string at the boundary: its bytes, or nothing for a null pointer.
#[derive(Debug)]
pub struct GroveStringVal {
    pub bytes: Option<Vec<u8>>,
}

/// A vector at the boundary: the bit patterns of its three numbers.
#[derive(Debug, Clone, Copy, PartialEq, Eq, Structural)]
pub struct GroveVec3Val {
    pub x: u64,
    pub y: u64,
    pub z: u64,
}

/// A value at the boundary: a tag, and a payload of which the tag says which
/// part counts.
#[derive(Debug)]
pub struct GroveValue {
    pub tag: GroveValueTag,
    pub bool_val: i32,
    pub number_val: u64,
    pub string_val: GroveStringVal,
    pub vec3_val: GroveVec3Val,
    pub object_handle: u64,
}

/// The mathematical content of a [`GroveValue`].
pub ghost struct SpecWire {
    pub tag: GroveValueTag,
    pub bool_val: i32,
    pub number_val: u64,
    pub bytes: Option<Seq<u8>>,
    pub vec3_val: GroveVec3Val,
    pub object_handle: u64,
}

impl View for GroveValue {
    type V = SpecWire;

    open spec fn view(&self) -> SpecWire {
        SpecWire {
            tag: self.tag,
            bool_val: self.bool_val,
            number_val: self.number_val,
            bytes: match self.string_val.bytes {
                Some(b) => Some(b@),
                None => None,
            },
            vec3_val: self.vec3_val,
            object_handle: self.object_handle,
        }
    }
}

/// The code of a tag.
pub open spec fn tag_code(tag: GroveValueTag) -> u32 {
    match tag {
        GroveValueTag::Nil => 0,
        GroveValueTag::Bool => 1,
        GroveValueTag::Number => 2,
        GroveValueTag::String => 3,
        GroveValueTag::Vec3 => 4,
        GroveValueTag::Object => 5,
    }
}

impl GroveValueTag {
    /// The code of the tag.
    pub fn code(&self) -> (c: u32)
        ensures
            c == tag_code(*self),
    {
        match self {
            GroveValueTag::Nil => 0,
            GroveValueTag::Bool => 1,
            GroveValueTag::Number => 2,
            GroveValueTag::String => 3,
            GroveValueTag::Vec3 => 4,
            GroveValueTag::Object => 5,
        }
    }

    /// The tag of a code, if it is the code of one.
    pub fn from_code(code: u32) -> (t: Option<GroveValueTag>)
        ensures
            t is Some <==> code <= 5,
            t is Some ==> tag_code(t->0) == code,
    {
        if code == 0 {
            Some(GroveValueTag::Nil)
        } else if code == 1 {
            Some(GroveValueTag::Bool)
        } else if code == 2 {
            Some(GroveValueTag::Number)
        } else if code == 3 {
            Some(GroveValueTag::String)
        } else if code == 4 {
            Some(GroveValueTag::Vec3)
        } else if code == 5 {
            Some(GroveValueTag::Object)
        } else {
            None
        }
    }
}

/// The value at the boundary with the tag `tag` and nothing in its payload.
pub open spec fn blank(tag: GroveValueTag) -> SpecWire {
    SpecWire {
        tag,
        bool_val: 0,
        number_val: 0,
        bytes: None,
        vec3_val: GroveVec3Val { x: 0, y: 0, z: 0 },
        object_handle: 0,
    }
}

/// The form a value takes at the boundary. Arrays and tables have none and
/// go out as `nil`.
pub open spec fn wire_of(v: SpecValue) -> SpecWire {
    match v {
        SpecValue::Nil => blank(GroveValueTag::Nil),
        SpecValue::Bool(b) => SpecWire {
            bool_val: if b {
                1i32
            } else {
                0i32
            },
            ..blank(GroveValueTag::Bool)
        },
        SpecValue::Number(n) => SpecWire { number_val: n, ..blank(GroveValueTag::Number) },
        SpecValue::String(s) => SpecWire {
            bytes: Some(encode_utf8(s)),
            ..blank(GroveValueTag::String)
        },
        SpecValue::Vec3(x, y, z) => SpecWire {
            vec3_val: GroveVec3Val { x, y, z },
            ..blank(GroveValueTag::Vec3)
        },
        SpecValue::Object(h) => SpecWire { object_handle: h, ..blank(GroveValueTag::Object) },
        _ => blank(GroveValueTag::Nil),
    }
}

/// The text that `String::from_utf8_lossy` gives for bytes that are no valid
/// UTF-8: what their valid parts decode to, with U+FFFD in place of each
/// part that is none.
pub uninterp spec fn lossy_text(bytes: Seq<u8>) -> Seq<char>;

/// The text of a sequence of bytes: what they decode to as UTF-8 and, where
/// they are no valid UTF-8, the text with replacement characters.
pub open spec fn bytes_text(bytes: Seq<u8>) -> Seq<char> {
    if valid_utf8(bytes) {
        decode_utf8(bytes)
    } else {
        lossy_text(bytes)
    }
}

/// The value that comes in from the boundary: the part of the payload that
/// the tag names. A boolean is true where its number is not zero, and a
/// string without bytes is empty.
pub open spec fn value_of_wire(w: SpecWire) -> SpecValue {
    match w.tag {
        GroveValueTag::Nil => SpecValue::Nil,
        GroveValueTag::Bool => SpecValue::Bool(w.bool_val != 0),
        GroveValueTag::Number => SpecValue::Number(w.number_val),
        GroveValueTag::String => match w.bytes {
            None => SpecValue::String(Seq::empty()),
            Some(b) => SpecValue::String(bytes_text(b)),
        },
        GroveValueTag::Vec3 => SpecValue::Vec3(w.vec3_val.x, w.vec3_val.y, w.vec3_val.z),
        GroveValueTag::Object => SpecValue::Object(w.object_handle),
    }
}

/// `String::from_utf8_lossy`: valid UTF-8 comes back as the text it encodes;
/// of other bytes the contract says only that the text depends on the bytes
/// alone.
#[verifier::external_body]
fn text_of_bytes(bytes: &Vec<u8>) -> (s: String)
    ensures
        s@ == (if valid_utf8(bytes@) {
            decode_utf8(bytes@)
        } else {
            lossy_text(bytes@)
        }),
{
    String::from_utf8_lossy(bytes.as_slice()).into_owned()
}

/// A value at the boundary with the tag `tag` and nothing in its payload.
fn blank_value(tag: GroveValueTag) -> (w: GroveValue)
    ensures
        w@ == blank(tag),
{
    GroveValue {
        tag,
        bool_val: 0,
        number_val: 0,
        string_val: GroveStringVal { bytes: None },
        vec3_val: GroveVec3Val { x: 0, y: 0, z: 0 },
        object_handle: 0,
    }
}

/// The value that comes in from the boundary.
pub fn grove_value_to_value(gv: &GroveValue) -> (v: Value)
    ensures
        v@ == value_of_wire(gv@),
{
    match gv.tag {
        GroveValueTag::Nil => Value::Nil,
        GroveValueTag::Bool => Value::Bool(gv.bool_val != 0),
        GroveValueTag::Number => Value::Number(gv.number_val),
        GroveValueTag::String => match &gv.string_val.bytes {
            None => Value::String(String::new()),
            Some(b) => Value::String(text_of_bytes(b)),
        },
        GroveValueTag::Vec3 => Value::Vec3(gv.vec3_val.x, gv.vec3_val.y, gv.vec3_val.z),
        GroveValueTag::Object => Value::Object(gv.object_handle),
    }
}

/// The form a value takes at the boundary.
pub fn value_to_grove_value(val: &Value) -> (w: GroveValue)
    ensures
        w@ == wire_of(val@),
{
    match val {
        Value::Nil => blank_value(GroveValueTag::Nil),
        Value::Bool(b) => {
            let mut w = blank_value(GroveValueTag::Bool);
            w.bool_val = if *b {
                1
            } else {
                0
            };
            w
        },
        Value::Number(n) => {
            let mut w = blank_value(GroveValueTag::Number);
            w.number_val = *n;
            w
        },
        Value::String(s) => {
            let mut w = blank_value(GroveValueTag::String);
            w.string_val = GroveStringVal { bytes: Some(s.as_str().as_bytes_vec()) };
            w
        },
        Value::Vec3(x, y, z) => {
            let mut w = blank_value(GroveValueTag::Vec3);
            w.vec3_val = GroveVec3Val { x: *x, y: *y, z: *z };
            w
        },
        Value::Object(handle) => {
            let mut w = blank_value(GroveValueTag::Object);
            w.object_handle = *handle;
            w
        },
        _ => blank_value(GroveValueTag::Nil),
    }
}

/// Every value but an array or a table comes back from the boundary as it
/// went out.
pub proof fn boundary_round_trip(v: SpecValue)
    requires
        !(v is Array),
        !(v is Table),
    ensures
        value_of_wire(wire_of(v)) == v,
{
    if let SpecValue::String(s) = v {
        vstd::utf8::encode_utf8_valid_utf8(s);
        vstd::utf8::encode_utf8_decode_utf8(s);
    }
}

/// The decimal numeral of an integer, with `-` before a negative one.
pub open spec fn signed_decimal(n: int) -> Seq<char> {
    if n < 0 {
        "-"@ + decimal((-n) as nat)
    } else {
        decimal(n as nat)
    }
}

/// The message for a host function that returned a code other than 0.
pub open spec fn host_error(name: Seq<char>, code: int) -> Seq<char> {
    "host function '"@ + name + "' returned error code "@ + signed_decimal(code)
}

/// The message for a host function that returned a code other than 0.
pub fn host_error_message(name: &str, code: i32) -> (m: String)
    ensures
        m@ == host_error(name@, code as int),
{
    let mut m = String::new();
    push_text(&mut m, "host function '");
    push_text(&mut m, name);
    push_text(&mut m, "' returned error code ");
    let ghost before = m@;
    if code < 0 {
        push_text(&mut m, "-");
        let wide: i64 = code as i64;
        push_decimal(&mut m, (0 - wide) as u64);
        assert(m@ =~= before + signed_decimal(code as int));
    } else {
        push_decimal(&mut m, code as u64);
        assert(m@ =~= before + signed_decimal(code as int));
    }
    m
}

/// What running a source text leads to: it is read into tokens, these into a
/// program, and the program is run. An error of the first two leaves the
/// state as it was.
pub open spec fn run_source(ctx: Context, parse: ParseModel, source: Seq<char>, st: State) -> Ran<
    SpecValue,
> {
    match lex(source, parse) {
        Err(e) => failed(st, e),
        Ok(tokens) => match parse_tokens(tokens) {
            Err(e) => failed(st, e),
            Ok(program) => sem_program(ctx, program, st),
        },
    }
}

/// Whether the program that a source text is read into is quiet; a text
/// that is not read into a program runs nothing.
pub open spec fn quiet_source(parse: ParseModel, source: Seq<char>, t: Terms) -> bool {
    match lex(source, parse) {
        Err(_) => true,
        Ok(tokens) => match parse_tokens(tokens) {
            Err(_) => true,
            Ok(program) => quiet_stmts(program, t),
        },
    }
}

/// The message kept after source bytes that are no UTF-8.
pub open spec fn invalid_source_message() -> Seq<char> {
    "invalid UTF-8 in source"@
}

/// An interpreter with the error of its last run.
pub struct GroveVm<H, A, D> {
    interp: Interpreter<H, A, D>,
    last_error: Option<String>,
    last_error_line: u32,
}

impl<
    H: Fn(&Vec<Value>) -> Result<Value, String>,
    A: Fn(BinOp, u64, u64) -> u64,
    D: Fn(u64) -> String,
> GroveVm<H, A, D> {
    /// What a program runs against.
    pub closed spec fn context(&self) -> Context {
        self.interp.context()
    }

    /// What a program can change.
    pub closed spec fn state(&self) -> State {
        self.interp.state()
    }

    /// Whether every closure accepts every input.
    pub closed spec fn total(&self) -> bool {
        self.interp.total()
    }

    /// Whether every closure gives one answer for each input.
    pub closed spec fn fixed(&self) -> bool {
        self.interp.fixed()
    }

    /// Whether the arithmetic and the number printer give one answer for
    /// each input, whatever the host functions do.
    pub closed spec fn steady(&self) -> bool {
        self.interp.steady()
    }

    /// The names of the registered host functions that may give different
    /// replies to equal arguments.
    pub closed spec fn wild(&self) -> Set<Seq<char>> {
        self.interp.wild()
    }

    /// The terms on which a program is quiet for `self`.
    pub open spec fn terms(&self) -> Terms {
        Terms { arith: self.steady(), wild: self.wild() }
    }

    /// Whether every closure gives one answer for each input, or else the
    /// body of every blueprint defined so far is quiet.
    pub open spec fn settled(&self) -> bool {
        self.fixed() || quiet_procs(self.state().blueprints, self.terms())
    }

    /// The message of the error of the last run, if it failed.
    pub closed spec fn error_message(&self) -> Option<Seq<char>> {
        match self.last_error {
            Some(m) => Some(m@),
            None => None,
        }
    }

    /// The line of the error of the last run, 0 if it did not fail.
    pub closed spec fn error_line(&self) -> u32 {
        self.last_error_line
    }

    /// Whether the machine holds `e` as the error of its last run.
    pub open spec fn holds_error(&self, e: SpecError) -> bool {
        &&& self.error_message() == Some(error_text(e))
        &&& self.error_line() == e.line as u32
    }

    /// Whether the machine holds no error.
    pub open spec fn holds_no_error(&self) -> bool {
        &&& self.error_message() is None
        &&& self.error_line() == 0
    }

    /// The machine with nothing bound, no function registered, no error and
    /// the limit of one million instructions.
    pub fn new(arith: A, format: D) -> (vm: Self)
        requires
            arith_total(arith),
            format_total(format),
        ensures
            vm.total(),
            arith_fixed(arith) && format_fixed(format) ==> vm.fixed(),
            vm.steady() == (arith_fixed(arith) && format_fixed(format)),
            vm.wild() == Set::<Seq<char>>::empty(),
            vm.holds_no_error(),
            vm.state() == (State {
                scopes: seq![Entries::empty()],
                blueprints: Seq::empty(),
                count: 0,
                calls: Seq::empty(),
            }),
            vm.context() == (Context {
                hosts: Seq::empty(),
                arith: arith_model(arith),
                format: format_model(format),
                limit: 1_000_000,
            }),
    {
        GroveVm { interp: Interpreter::new(arith, format), last_error: None, last_error_line: 0 }
    }

    /// Keeps `e` as the error of the last run; gives -1.
    fn fail(&mut self, e: GroveError) -> (r: i32)
        ensures
            r == -1,
            final(self).interp == old(self).interp,
            final(self).holds_error(e@),
    {
        #[verifier::truncate]
        let line = e.line as u32;
        self.last_error_line = line;
        self.last_error = Some(e.to_text());
        -1
    }

    /// Runs a source text: 0 where it succeeds, and -1 where it fails, with
    /// the error kept for [`GroveVm::last_error`]. `parse` gives the value
    /// of each number literal. What the run leads to is stated for a `parse`
    /// that gives one answer for each text, where every other closure does
    /// so too, or the program and the blueprints defined so far are quiet
    /// ([`quiet_source`]).
    pub fn eval<P: Fn(&str) -> Option<u64>>(&mut self, source: &str, parse: &P) -> (r: i32)
        requires
            old(self).total(),
            parse_total(*parse),
            source@.len() < usize::MAX,
        ensures
            final(self).total(),
            final(self).fixed() == old(self).fixed(),
            final(self).steady() == old(self).steady(),
            final(self).wild() == old(self).wild(),
            final(self).context() == old(self).context(),
            r == 0 || r == -1,
            r == 0 <==> final(self).holds_no_error(),
            r == -1 <==> final(self).error_message() is Some,
            parse_fixed(*parse) && old(self).settled() && quiet_source(
                parse_model(*parse),
                source@,
                old(self).terms(),
            ) ==> final(self).settled(),
            parse_fixed(*parse) && (old(self).fixed() || (old(self).settled() && quiet_source(
                parse_model(*parse),
                source@,
                old(self).terms(),
            ))) ==> ({
                let ran = run_source(
                    old(self).context(),
                    parse_model(*parse),
                    source@,
                    old(self).state(),
                );
                &&& final(self).state() == ran.state
                &&& match ran.result {
                    Ok(_) => r == 0,
                    Err(e) => r == -1 && final(self).holds_error(e),
                }
            }),
    {
        let mut lexer = Lexer::new(source);
        let tokens = match lexer.tokenize(parse) {
            Ok(t) => t,
            Err(e) => {
                return self.fail(e);
            },
        };
        let mut parser = Parser::new(tokens);
        let program = match parser.parse() {
            Ok(p) => p,
            Err(e) => {
                return self.fail(e);
            },
        };
        match self.interp.execute(&program) {
            Ok(_) => {
                self.last_error = None;
                self.last_error_line = 0;
                0
            },
            Err(e) => self.fail(e),
        }
    }

    /// Keeps the error of a source that is no UTF-8; gives -1.
    pub fn invalid_source(&mut self) -> (r: i32)
        ensures
            r == -1,
            final(self).state() == old(self).state(),
            final(self).context() == old(self).context(),
            final(self).total() == old(self).total(),
            final(self).fixed() == old(self).fixed(),
            final(self).steady() == old(self).steady(),
            final(self).wild() == old(self).wild(),
            final(self).error_message() == Some(invalid_source_message()),
            final(self).error_line() == 0,
    {
        self.last_error = Some("invalid UTF-8 in source".to_owned());
        self.last_error_line = 0;
        -1
    }

    /// Registers `func` under `name`; gives 0.
    pub fn register_fn(&mut self, name: &str, func: H) -> (r: i32)
        requires
            host_total(func),
        ensures
            r == 0,
            final(self).state() == old(self).state(),
            final(self).context() == (Context {
                hosts: stored(old(self).context().hosts, name@, host_model(func)),
                ..old(self).context()
            }),
            old(self).total() ==> final(self).total(),
            old(self).fixed() && host_fixed(func) ==> final(self).fixed(),
            final(self).steady() == old(self).steady(),
            final(self).wild().subset_of(
                if host_fixed(func) {
                    old(self).wild().remove(name@)
                } else {
                    old(self).wild().insert(name@)
                },
            ),
            final(self).error_message() == old(self).error_message(),
            final(self).error_line() == old(self).error_line(),
    {
        self.interp.register_fn(name, func);
        0
    }

    /// Binds `name` to `value` in the innermost scope; gives 0.
    pub fn set_global(&mut self, name: &str, value: Value) -> (r: i32)
        ensures
            r == 0,
            final(self).context() == old(self).context(),
            final(self).total() == old(self).total(),
            final(self).fixed() == old(self).fixed(),
            final(self).steady() == old(self).steady(),
            final(self).wild() == old(self).wild(),
            final(self).state() == with_scopes(
                old(self).state(),
                env_define(old(self).state().scopes, name@, value@),
            ),
            final(self).error_message() == old(self).error_message(),
            final(self).error_line() == old(self).error_line(),
    {
        self.interp.set_global(name, value);
        0
    }

    /// Binds `name` to the number with the bit pattern `value`; gives 0.
    pub fn set_global_number(&mut self, name: &str, value: u64) -> (r: i32)
        ensures
            r == 0,
            final(self).context() == old(self).context(),
            final(self).total() == old(self).total(),
            final(self).fixed() == old(self).fixed(),
            final(self).steady() == old(self).steady(),
            final(self).wild() == old(self).wild(),
            final(self).state() == with_scopes(
                old(self).state(),
                env_define(old(self).state().scopes, name@, SpecValue::Number(value)),
            ),
    {
        self.set_global(name, Value::Number(value))
    }

    /// Binds `name` to the string `value`; gives 0.
    pub fn set_global_string(&mut self, name: &str, value: &str) -> (r: i32)
        ensures
            r == 0,
            final(self).context() == old(self).context(),
            final(self).total() == old(self).total(),
            final(self).fixed() == old(self).fixed(),
            final(self).steady() == old(self).steady(),
            final(self).wild() == old(self).wild(),
            final(self).state() == with_scopes(
                old(self).state(),
                env_define(old(self).state().scopes, name@, SpecValue::String(value@)),
            ),
    {
        self.set_global(name, Value::String(value.to_owned()))
    }

    /// Binds `name` to the vector of the numbers with the bit patterns `x`,
    /// `y` and `z`; gives 0.
    pub fn set_global_vec3(&mut self, name: &str, x: u64, y: u64, z: u64) -> (r: i32)
        ensures
            r == 0,
            final(self).context() == old(self).context(),
            final(self).total() == old(self).total(),
            final(self).fixed() == old(self).fixed(),
            final(self).steady() == old(self).steady(),
            final(self).wild() == old(self).wild(),
            final(self).state() == with_scopes(
                old(self).state(),
                env_define(old(self).state().scopes, name@, SpecValue::Vec3(x, y, z)),
            ),
    {
        self.set_global(name, Value::Vec3(x, y, z))
    }

    /// The message of the error of the last run, if it failed.
    pub fn last_error(&self) -> (m: Option<&str>)
        ensures
            m is Some == self.error_message() is Some,
            m is Some ==> Some(m->0@) == self.error_message(),
    {
        match &self.last_error {
            Some(e) => Some(e.as_str()),
            None => None,
        }
    }

    /// The line of the error of the last run, 0 if it did not fail.
    pub fn last_error_line(&self) -> (n: u32)
        ensures
            n == self.error_line(),
    {
        self.last_error_line
    }

    /// Sets the instruction limit of the runs to come.
    pub fn set_instruction_limit(&mut self, limit: u64)
        ensures
            final(self).state() == old(self).state(),
            final(self).context() == (Context { limit, ..old(self).context() }),
            final(self).total() == old(self).total(),
            final(self).fixed() == old(self).fixed(),
            final(self).steady() == old(self).steady(),
            final(self).wild() == old(self).wild(),
            final(self).error_message() == old(self).error_message(),
            final(self).error_line() == old(self).error_line(),
    {
        self.interp.set_instruction_limit(limit);
    }
}

} // verus!
