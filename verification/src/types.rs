//! Runtime values.
use vstd::prelude::*;
use vstd::string::*;
use vstd::std_specs::cmp::PartialEqSpecImpl;
use crate::number::{equal, num_eq, sign_set, whole_magnitude, whole_of, SIGN};
use crate::text::{decimal, push_decimal, push_text, str_equal};

verus! {

broadcast use vstd::std_specs::vec::group_vec_axioms;

/// A runtime value. Numbers and the components of a `Vec3` are IEEE-754
/// binary64 bit patterns.
#[derive(Debug)]
pub enum Value {
    Nil,
    Bool(bool),
    Number(u64),
    String(String),
    Vec3(u64, u64, u64),
    Array(Vec<Value>),
    Table(Table),
    Object(u64),
}

/// A mapping from names to values that remembers the order in which the
/// names were first stored. No name occurs twice.
#[derive(Debug)]
pub struct Table {
    entries: Vec<(String, Value)>,
}

/// The entries of a mapping: pairs of name and value, in order of first storing.
pub type Entries = Seq<(Seq<char>, SpecValue)>;

/// The mathematical content of a [`Value`].
pub ghost enum SpecValue {
    Nil,
    Bool(bool),
    Number(u64),
    String(Seq<char>),
    Vec3(u64, u64, u64),
    Array(Seq<SpecValue>),
    Table(Entries),
    Object(u64),
}

/// The contents of a sequence of values.
pub open spec fn values_view(items: Seq<Value>) -> Seq<SpecValue>
    decreases items,
{
    Seq::new(
        items.len(),
        |i: int|
            if 0 <= i < items.len() {
                items[i].view()
            } else {
                SpecValue::Nil
            },
    )
}

/// The contents of a sequence of named values.
pub open spec fn entries_view(entries: Seq<(String, Value)>) -> Entries
    decreases entries,
{
    Seq::new(
        entries.len(),
        |i: int|
            if 0 <= i < entries.len() {
                (entries[i].0@, entries[i].1.view())
            } else {
                (Seq::empty(), SpecValue::Nil)
            },
    )
}

impl View for Value {
    type V = SpecValue;

    open spec fn view(&self) -> SpecValue
        decreases self,
    {
        match self {
            Value::Nil => SpecValue::Nil,
            Value::Bool(b) => SpecValue::Bool(*b),
            Value::Number(n) => SpecValue::Number(*n),
            Value::String(s) => SpecValue::String(s@),
            Value::Vec3(x, y, z) => SpecValue::Vec3(*x, *y, *z),
            Value::Array(items) => SpecValue::Array(values_view(items@)),
            Value::Table(t) => SpecValue::Table(t.view()),
            Value::Object(h) => SpecValue::Object(*h),
        }
    }
}

impl View for Table {
    type V = Entries;

    closed spec fn view(&self) -> Entries
        decreases self,
    {
        entries_view(self.entries@)
    }
}

/// Whether `key` names an entry.
pub open spec fn has_key<V>(entries: Seq<(Seq<char>, V)>, key: Seq<char>) -> bool {
    exists|i: int| 0 <= i < entries.len() && (#[trigger] entries[i]).0 == key
}

/// Whether the entry at `i` is the first one named `key`.
pub open spec fn first_named<V>(entries: Seq<(Seq<char>, V)>, key: Seq<char>, i: int) -> bool {
    &&& 0 <= i < entries.len()
    &&& entries[i].0 == key
    &&& forall|j: int| 0 <= j < i ==> (#[trigger] entries[j]).0 != key
}

/// The place of the first entry named `key`.
pub open spec fn key_index<V>(entries: Seq<(Seq<char>, V)>, key: Seq<char>) -> int {
    choose|i: int| first_named(entries, key, i)
}

/// Whether no name occurs twice.
pub open spec fn distinct_keys<V>(entries: Seq<(Seq<char>, V)>) -> bool {
    forall|i: int, j: int|
        0 <= i < j < entries.len() ==> (#[trigger] entries[i]).0 != (#[trigger] entries[j]).0
}

/// The value stored under `key`, if any.
pub open spec fn lookup<V>(entries: Seq<(Seq<char>, V)>, key: Seq<char>) -> Option<V> {
    if has_key(entries, key) {
        Some(entries[key_index(entries, key)].1)
    } else {
        None
    }
}

/// The entries after `value` is stored under `key`: an entry of that name is
/// overwritten in place, a new name is added at the end.
pub open spec fn stored<V>(entries: Seq<(Seq<char>, V)>, key: Seq<char>, value: V) -> Seq<
    (Seq<char>, V),
> {
    if has_key(entries, key) {
        entries.update(key_index(entries, key), (key, value))
    } else {
        entries.push((key, value))
    }
}

/// Truthiness: everything but `nil` and `false`.
pub open spec fn truthy(v: SpecValue) -> bool {
    match v {
        SpecValue::Nil => false,
        SpecValue::Bool(b) => b,
        _ => true,
    }
}

/// The name of a value's type.
pub open spec fn type_label_of(v: SpecValue) -> Seq<char> {
    match v {
        SpecValue::Nil => "nil"@,
        SpecValue::Bool(_) => "bool"@,
        SpecValue::Number(_) => "number"@,
        SpecValue::String(_) => "string"@,
        SpecValue::Vec3(..) => "vec3"@,
        SpecValue::Array(_) => "array"@,
        SpecValue::Table(_) => "table"@,
        SpecValue::Object(_) => "object"@,
    }
}

/// Equality of values: by content for `nil`, booleans, strings and handles,
/// numerically for numbers and vectors; arrays and tables equal nothing.
pub open spec fn values_equal(a: SpecValue, b: SpecValue) -> bool {
    match (a, b) {
        (SpecValue::Nil, SpecValue::Nil) => true,
        (SpecValue::Bool(x), SpecValue::Bool(y)) => x == y,
        (SpecValue::Number(x), SpecValue::Number(y)) => num_eq(x, y),
        (SpecValue::String(x), SpecValue::String(y)) => x == y,
        (SpecValue::Vec3(ax, ay, az), SpecValue::Vec3(bx, by, bz)) => num_eq(ax, bx) && num_eq(
            ay,
            by,
        ) && num_eq(az, bz),
        (SpecValue::Object(x), SpecValue::Object(y)) => x == y,
        _ => false,
    }
}

/// Whether a formatter of numbers accepts every bit pattern.
pub open spec fn format_total<D: Fn(u64) -> String>(format: D) -> bool {
    forall|n: u64| call_requires(format, (n,))
}

/// Whether a formatter of numbers gives one text for each bit pattern.
pub open spec fn format_fixed<D: Fn(u64) -> String>(format: D) -> bool {
    forall|n: u64, a: String, b: String|
        call_ensures(format, (n,), a) && call_ensures(format, (n,), b) ==> a@ == b@
}

/// The text that a formatter gives for `n`.
pub open spec fn formatted<D: Fn(u64) -> String>(format: D, n: u64) -> Seq<char> {
    (choose|s: String| call_ensures(format, (n,), s))@
}

/// What a formatter of numbers computes: a text for each bit pattern.
pub type FormatModel = spec_fn(u64) -> Seq<char>;

/// What `format` computes.
pub open spec fn format_model<D: Fn(u64) -> String>(format: D) -> FormatModel {
    |n: u64| formatted(format, n)
}

/// The pattern of two to the power 63, which prints as the largest signed
/// 64-bit integer.
pub const TWO_POW_63: u64 = 0x43E0_0000_0000_0000;

/// The pattern of minus two to the power 63.
pub const MINUS_TWO_POW_63: u64 = 0xC3E0_0000_0000_0000;

/// The text of a number. A whole number below two to the power 63 in
/// magnitude prints as that integer, without a decimal point, and both zeros
/// print as `0`; two to the power 63 prints as `9223372036854775807`, and its
/// negative as `-9223372036854775808`; every other number prints as the
/// formatter prints it.
pub open spec fn number_text(n: u64, format: FormatModel) -> Seq<char> {
    match whole_of(n) {
        Some(m) => if sign_set(n) && m != 0 {
            "-"@ + decimal(m)
        } else {
            decimal(m)
        },
        None => if n == TWO_POW_63 {
            "9223372036854775807"@
        } else if n == MINUS_TWO_POW_63 {
            "-9223372036854775808"@
        } else {
            format(n)
        },
    }
}

/// The texts of `items[from..]`, separated by `, `.
pub open spec fn items_text(items: Seq<SpecValue>, from: int, format: FormatModel) -> Seq<char>
    decreases items, items.len() - from,
{
    if from < 0 || from >= items.len() {
        Seq::empty()
    } else if from == 0 {
        value_text(items[from], format) + items_text(items, from + 1, format)
    } else {
        ", "@ + value_text(items[from], format) + items_text(items, from + 1, format)
    }
}

/// The texts of `entries[from..]`, each as `name = value`, separated by `, `.
pub open spec fn entries_text(entries: Entries, from: int, format: FormatModel) -> Seq<char>
    decreases entries, entries.len() - from,
{
    if from < 0 || from >= entries.len() {
        Seq::empty()
    } else if from == 0 {
        entries[from].0 + " = "@ + value_text(entries[from].1, format) + entries_text(
            entries,
            from + 1,
            format,
        )
    } else {
        ", "@ + entries[from].0 + " = "@ + value_text(entries[from].1, format) + entries_text(
            entries,
            from + 1,
            format,
        )
    }
}

/// The printed form of a value.
pub open spec fn value_text(v: SpecValue, format: FormatModel) -> Seq<char>
    decreases v,
{
    match v {
        SpecValue::Nil => "nil"@,
        SpecValue::Bool(b) => if b {
            "true"@
        } else {
            "false"@
        },
        SpecValue::Number(n) => number_text(n, format),
        SpecValue::String(s) => s,
        SpecValue::Vec3(x, y, z) => "vec3("@ + format(x) + ", "@ + format(y) + ", "@ + format(z)
            + ")"@,
        SpecValue::Array(items) => "["@ + items_text(items, 0, format) + "]"@,
        SpecValue::Table(entries) => "{"@ + entries_text(entries, 0, format) + "}"@,
        SpecValue::Object(h) => "<object:"@ + decimal(h as nat) + ">"@,
    }
}

/// Whether a number prints without the formatter: it is a whole number
/// below two to the power 63 in magnitude, or two to the power 63 or its
/// negative.
pub open spec fn prints_whole(n: u64) -> bool {
    whole_of(n) is Some || n == TWO_POW_63 || n == MINUS_TWO_POW_63
}

/// Whether a value prints without the formatter: every number in it does,
/// and it is no vector and holds none.
pub open spec fn plain(v: SpecValue) -> bool
    decreases v,
{
    match v {
        SpecValue::Number(n) => prints_whole(n),
        SpecValue::Vec3(..) => false,
        SpecValue::Array(items) => plain_items(items),
        SpecValue::Table(entries) => plain_entries(entries),
        _ => true,
    }
}

/// Whether every value of a list prints without the formatter.
pub open spec fn plain_items(items: Seq<SpecValue>) -> bool
    decreases items,
{
    forall|i: int| 0 <= i < items.len() ==> plain(#[trigger] items[i])
}

/// Whether the value of every entry prints without the formatter.
pub open spec fn plain_entries(entries: Entries) -> bool
    decreases entries,
{
    forall|i: int| 0 <= i < entries.len() ==> plain((#[trigger] entries[i]).1)
}

/// The first entry of a name is the only one that `key_index` gives.
pub proof fn first_named_is_key_index<V>(entries: Seq<(Seq<char>, V)>, key: Seq<char>, i: int)
    requires
        first_named(entries, key, i),
    ensures
        has_key(entries, key),
        key_index(entries, key) == i,
{
    let j = key_index(entries, key);
    assert(first_named(entries, key, j));
    if j < i {
        assert(entries[j].0 != key);
    }
    if i < j {
        assert(entries[i].0 != key);
    }
}

/// A name that occurs has a first entry.
pub proof fn key_index_is_first<V>(entries: Seq<(Seq<char>, V)>, key: Seq<char>)
    requires
        has_key(entries, key),
    ensures
        first_named(entries, key, key_index(entries, key)),
{
    let w = choose|i: int| 0 <= i < entries.len() && (#[trigger] entries[i]).0 == key;
    first_exists(entries, key, w);
}

proof fn first_exists<V>(entries: Seq<(Seq<char>, V)>, key: Seq<char>, upto: int)
    requires
        0 <= upto < entries.len(),
        entries[upto].0 == key,
    ensures
        exists|i: int| first_named(entries, key, i),
    decreases upto,
{
    if exists|j: int| 0 <= j < upto && (#[trigger] entries[j]).0 == key {
        let j = choose|j: int| 0 <= j < upto && (#[trigger] entries[j]).0 == key;
        first_exists(entries, key, j);
    } else {
        assert(first_named(entries, key, upto));
    }
}

/// What is stored under a name is found under it.
pub proof fn stored_is_found<V>(entries: Seq<(Seq<char>, V)>, key: Seq<char>, value: V)
    ensures
        lookup(stored(entries, key, value), key) == Some(value),
{
    let after = stored(entries, key, value);
    if has_key(entries, key) {
        key_index_is_first(entries, key);
        let i = key_index(entries, key);
        assert(after[i] == (key, value));
        assert forall|j: int| 0 <= j < i implies (#[trigger] after[j]).0 != key by {
            assert(after[j] == entries[j]);
        }
        first_named_is_key_index(after, key, i);
    } else {
        let i = entries.len() as int;
        assert(after[i] == (key, value));
        assert forall|j: int| 0 <= j < i implies (#[trigger] after[j]).0 != key by {
            assert(after[j] == entries[j]);
        }
        first_named_is_key_index(after, key, i);
    }
}

/// Storing under one name leaves what every other name stands for.
pub proof fn stored_leaves_others<V>(
    entries: Seq<(Seq<char>, V)>,
    key: Seq<char>,
    value: V,
    other: Seq<char>,
)
    requires
        other != key,
    ensures
        lookup(stored(entries, key, value), other) == lookup(entries, other),
{
    let after = stored(entries, key, value);
    if has_key(entries, key) {
        key_index_is_first(entries, key);
    }
    if has_key(entries, other) {
        key_index_is_first(entries, other);
        let i = key_index(entries, other);
        assert(after[i] == entries[i]);
        assert forall|j: int| 0 <= j < i implies (#[trigger] after[j]).0 != other by {
            if after[j] != entries[j] {
                assert(after[j].0 == key);
            }
        }
        first_named_is_key_index(after, other, i);
    } else {
        assert forall|j: int| 0 <= j < after.len() implies (#[trigger] after[j]).0 != other by {
            if j < entries.len() && after[j] == entries[j] {
                assert(entries[j].0 != other);
            }
        }
    }
}

/// Storing keeps names from occurring twice, and adds an entry only for a
/// name that is new.
pub proof fn stored_keeps_names_distinct<V>(entries: Seq<(Seq<char>, V)>, key: Seq<char>, value: V)
    requires
        distinct_keys(entries),
    ensures
        distinct_keys(stored(entries, key, value)),
        stored(entries, key, value).len() == if has_key(entries, key) {
            entries.len()
        } else {
            entries.len() + 1
        },
{
    let after = stored(entries, key, value);
    if has_key(entries, key) {
        key_index_is_first(entries, key);
        let at = key_index(entries, key);
        assert forall|i: int, j: int| 0 <= i < j < after.len() implies (#[trigger] after[i]).0 != (
        #[trigger] after[j]).0 by {
            assert(after[i].0 == entries[i].0);
            assert(after[j].0 == entries[j].0);
        }
    } else {
        assert forall|i: int, j: int| 0 <= i < j < after.len() implies (#[trigger] after[i]).0 != (
        #[trigger] after[j]).0 by {
            assert(after[i] == entries[i]);
            if j < entries.len() {
                assert(after[j] == entries[j]);
            } else {
                assert(entries[i].0 != key);
            }
        }
    }
}

impl Table {
    /// Whether no name occurs twice. Every table that [`Table::new`] and
    /// [`Table::insert`] make is so.
    pub open spec fn names_distinct(&self) -> bool {
        distinct_keys(self@)
    }

    /// The table without entries.
    pub fn new() -> (t: Self)
        ensures
            t@ == Entries::empty(),
            t.names_distinct(),
    {
        let t = Table { entries: Vec::new() };
        assert(entries_view(t.entries@) =~= Entries::empty());
        t
    }

    /// The number of entries.
    pub fn len(&self) -> (n: usize)
        ensures
            n == self@.len(),
    {
        self.entries.len()
    }

    /// The name of the entry at `i`.
    pub fn key_at(&self, i: usize) -> (k: &String)
        requires
            i < self@.len(),
        ensures
            k@ == self@[i as int].0,
    {
        &self.entries[i].0
    }

    /// The value of the entry at `i`.
    pub fn value_at(&self, i: usize) -> (v: &Value)
        requires
            i < self@.len(),
        ensures
            v@ == self@[i as int].1,
    {
        &self.entries[i].1
    }

    /// The place of the entry named `key`, if there is one.
    pub fn position(&self, key: &str) -> (r: Option<usize>)
        ensures
            r is Some == has_key(self@, key@),
            r is Some ==> r->0 == key_index(self@, key@) && r->0 < self@.len(),
    {
        let mut i: usize = 0;
        while i < self.entries.len()
            invariant
                i <= self.entries@.len(),
                forall|k: int| 0 <= k < i ==> (#[trigger] entries_view(self.entries@)[k]).0 != key@,
            decreases self.entries@.len() - i,
        {
            if str_equal(self.entries[i].0.as_str(), key) {
                proof {
                    assert(entries_view(self.entries@)[i as int].0 == key@);
                    first_named_is_key_index(self@, key@, i as int);
                }
                return Some(i);
            }
            i += 1;
        }
        assert(self@ == entries_view(self.entries@));
        assert(forall|k: int| 0 <= k < self@.len() ==> (#[trigger] self@[k]).0 != key@);
        None
    }

    /// The value stored under `key`, if any.
    pub fn get(&self, key: &str) -> (r: Option<&Value>)
        ensures
            r is Some == has_key(self@, key@),
            r is Some ==> Some(r->0@) == lookup(self@, key@),
    {
        match self.position(key) {
            Some(i) => Some(&self.entries[i].1),
            None => None,
        }
    }

    /// Whether an entry is named `key`.
    pub fn contains_key(&self, key: &str) -> (r: bool)
        ensures
            r == has_key(self@, key@),
    {
        self.position(key).is_some()
    }

    /// Stores `value` under `key`, overwriting an entry of that name.
    pub fn insert(&mut self, key: &str, value: Value)
        ensures
            final(self)@ == stored(old(self)@, key@, value@),
            old(self).names_distinct() ==> final(self).names_distinct(),
    {
        proof {
            if distinct_keys(self@) {
                stored_keeps_names_distinct(self@, key@, value@);
            }
        }
        match self.position(key) {
            Some(i) => {
                let ghost before = entries_view(self.entries@);
                self.entries[i] = (key.to_owned(), value);
                assert(entries_view(self.entries@) =~= before.update(i as int, (key@, value@)));
            },
            None => {
                let ghost before = entries_view(self.entries@);
                self.entries.push((key.to_owned(), value));
                assert(entries_view(self.entries@) =~= before.push((key@, value@)));
            },
        }
    }

    /// Appends the entries as `name = value`, separated by `, `.
    fn push_entries_text<D: Fn(u64) -> String>(&self, out: &mut String, format: &D)
        requires
            format_total(*format),
        ensures
            format_fixed(*format) || plain_entries(self@)
                ==> final(out)@ == old(out)@ + entries_text(self@, 0, format_model(*format)),
        decreases *self,
    {
        let ghost base = out@;
        let ghost shown = self@;
        let mut i: usize = 0;
        while i < self.entries.len()
            invariant
                i <= self.entries@.len(),
                shown == self@,
                format_total(*format),
                format_fixed(*format) || plain_entries(self@)
                    ==> out@ + entries_text(shown, i as int, format_model(*format)) == base
                    + entries_text(shown, 0, format_model(*format)),
            decreases self.entries@.len() - i,
        {
            let ghost before = out@;
            if i > 0 {
                push_text(out, ", ");
            }
            push_text(out, self.entries[i].0.as_str());
            push_text(out, " = ");
            push_value_text(out, &self.entries[i].1, format);
            proof {
                if format_fixed(*format) || plain_entries(self@) {
                    assert(out@ + entries_text(shown, i + 1, format_model(*format)) =~= before + entries_text(shown, i as int, format_model(*format)));
                }
            }
            i += 1;
        }
        proof {
            if format_fixed(*format) || plain_entries(self@) {
                assert(entries_text(shown, i as int, format_model(*format)) =~= Seq::<char>::empty());
                assert(out@ =~= base + entries_text(shown, 0, format_model(*format)));
            }
        }
    }

    /// A copy of the table.
    pub fn duplicate(&self) -> (r: Table)
        ensures
            r@ == self@,
        decreases *self,
    {
        let mut out: Vec<(String, Value)> = Vec::new();
        let mut i: usize = 0;
        while i < self.entries.len()
            invariant
                i <= self.entries.len(),
                out@.len() == i,
                forall|k: int|
                    0 <= k < i ==> out@[k].1@ == self.entries@[k].1@ && out@[k].0@
                        == self.entries@[k].0@,
            decreases self.entries.len() - i,
        {
            let c = self.entries[i].1.duplicate();
            out.push((self.entries[i].0.clone(), c));
            i += 1;
        }
        assert(entries_view(out@) =~= entries_view(self.entries@));
        Table { entries: out }
    }
}

impl Value {
    /// Whether the value counts as true: every value but `nil` and `false`.
    pub fn is_truthy(&self) -> (r: bool)
        ensures
            r == truthy(self@),
    {
        match self {
            Value::Nil => false,
            Value::Bool(b) => *b,
            _ => true,
        }
    }

    /// The name of the type of the value.
    pub fn type_label(&self) -> (s: &'static str)
        ensures
            s@ == type_label_of(self@),
    {
        match self {
            Value::Nil => "nil",
            Value::Bool(_) => "bool",
            Value::Number(_) => "number",
            Value::String(_) => "string",
            Value::Vec3(..) => "vec3",
            Value::Array(_) => "array",
            Value::Table(_) => "table",
            Value::Object(_) => "object",
        }
    }

    /// The bit pattern of a number.
    pub fn as_number(&self) -> (r: Option<u64>)
        ensures
            r == (match self@ {
                SpecValue::Number(n) => Some(n),
                _ => None,
            }),
    {
        match self {
            Value::Number(n) => Some(*n),
            _ => None,
        }
    }

    /// The text of a string.
    pub fn as_string(&self) -> (r: Option<&str>)
        ensures
            r is Some == self@ is String,
            r is Some ==> r->0@ == self@->String_0,
    {
        match self {
            Value::String(s) => Some(s.as_str()),
            _ => None,
        }
    }

    /// The truth value of a boolean.
    pub fn as_bool(&self) -> (r: Option<bool>)
        ensures
            r == (match self@ {
                SpecValue::Bool(b) => Some(b),
                _ => None,
            }),
    {
        match self {
            Value::Bool(b) => Some(*b),
            _ => None,
        }
    }

    /// The printed form of the value; `format` prints the numbers.
    pub fn to_text<D: Fn(u64) -> String>(&self, format: &D) -> (s: String)
        requires
            format_total(*format),
        ensures
            format_fixed(*format) || plain(self@)
                ==> s@ == value_text(self@, format_model(*format)),
    {
        let mut s = String::new();
        push_value_text(&mut s, self, format);
        assert(Seq::<char>::empty() + value_text(self@, format_model(*format)) =~= value_text(self@, format_model(*format)));
        s
    }

    /// A copy of the value.
    pub fn duplicate(&self) -> (r: Value)
        ensures
            r@ == self@,
        decreases *self,
    {
        match self {
            Value::Nil => Value::Nil,
            Value::Bool(b) => Value::Bool(*b),
            Value::Number(n) => Value::Number(*n),
            Value::String(s) => Value::String(s.clone()),
            Value::Vec3(x, y, z) => Value::Vec3(*x, *y, *z),
            Value::Array(items) => {
                let mut out: Vec<Value> = Vec::new();
                let mut i: usize = 0;
                while i < items.len()
                    invariant
                        i <= items.len(),
                        *self is Array,
                        self->Array_0 == *items,
                        out@.len() == i,
                        forall|k: int| 0 <= k < i ==> out@[k]@ == items@[k]@,
                    decreases items.len() - i,
                {
                    let c = items[i].duplicate();
                    out.push(c);
                    i += 1;
                }
                assert(values_view(out@) =~= values_view(items@));
                Value::Array(out)
            },
            Value::Table(t) => Value::Table(t.duplicate()),
            Value::Object(h) => Value::Object(*h),
        }
    }

    /// Whether two values are equal.
    pub fn equals(&self, other: &Value) -> (r: bool)
        ensures
            r == values_equal(self@, other@),
    {
        match (self, other) {
            (Value::Nil, Value::Nil) => true,
            (Value::Bool(a), Value::Bool(b)) => *a == *b,
            (Value::Number(a), Value::Number(b)) => equal(*a, *b),
            (Value::String(a), Value::String(b)) => str_equal(a.as_str(), b.as_str()),
            (Value::Vec3(ax, ay, az), Value::Vec3(bx, by, bz)) => equal(*ax, *bx) && equal(
                *ay,
                *by,
            ) && equal(*az, *bz),
            (Value::Object(a), Value::Object(b)) => *a == *b,
            _ => false,
        }
    }
}

/// Appends the text that `format` gives for `n`.
fn push_formatted<D: Fn(u64) -> String>(out: &mut String, n: u64, format: &D)
    requires
        format_total(*format),
    ensures
        format_fixed(*format) ==> final(out)@ == old(out)@ + formatted(*format, n),
{
    let t = format(n);
    push_text(out, t.as_str());
}

/// Appends the text of the number `n`.
fn push_number_text<D: Fn(u64) -> String>(out: &mut String, n: u64, format: &D)
    requires
        format_total(*format),
    ensures
        format_fixed(*format) || prints_whole(n)
            ==> final(out)@ == old(out)@ + number_text(n, format_model(*format)),
{
    match whole_magnitude(n) {
        Some(m) => {
            if n >= SIGN && m != 0 {
                push_text(out, "-");
            }
            push_decimal(out, m);
            assert(out@ =~= old(out)@ + number_text(n, format_model(*format)));
        },
        None => {
            if n == TWO_POW_63 {
                push_text(out, "9223372036854775807");
            } else if n == MINUS_TWO_POW_63 {
                push_text(out, "-9223372036854775808");
            } else {
                push_formatted(out, n, format);
            }
        },
    }
}

/// Appends the printed form of `v`.
pub fn push_value_text<D: Fn(u64) -> String>(out: &mut String, v: &Value, format: &D)
    requires
        format_total(*format),
    ensures
        format_fixed(*format) || plain(v@)
            ==> final(out)@ == old(out)@ + value_text(v@, format_model(*format)),
    decreases *v,
{
    match v {
        Value::Nil => push_text(out, "nil"),
        Value::Bool(b) => {
            if *b {
                push_text(out, "true")
            } else {
                push_text(out, "false")
            }
        },
        Value::Number(n) => push_number_text(out, *n, format),
        Value::String(s) => push_text(out, s.as_str()),
        Value::Vec3(x, y, z) => {
            push_text(out, "vec3(");
            push_formatted(out, *x, format);
            push_text(out, ", ");
            push_formatted(out, *y, format);
            push_text(out, ", ");
            push_formatted(out, *z, format);
            push_text(out, ")");
            assert(format_fixed(*format) || plain(v@)
                ==> out@ =~= old(out)@ + value_text(v@, format_model(*format)));
        },
        Value::Array(items) => {
            push_text(out, "[");
            let ghost base = out@;
            let ghost shown = values_view(items@);
            let mut i: usize = 0;
            while i < items.len()
                invariant
                    i <= items.len(),
                    *v is Array,
                    v->Array_0 == *items,
                    shown == values_view(items@),
                    format_total(*format),
                    format_fixed(*format) || plain(v@)
                        ==> out@ + items_text(shown, i as int, format_model(*format)) == base
                        + items_text(shown, 0, format_model(*format)),
                decreases items.len() - i,
            {
                let ghost before = out@;
                if i > 0 {
                    push_text(out, ", ");
                }
                push_value_text(out, &items[i], format);
                proof {
                    if format_fixed(*format) || plain(v@) {
                        assert(out@ + items_text(shown, i + 1, format_model(*format)) =~= before + items_text(shown, i as int, format_model(*format)));
                    }
                }
                i += 1;
            }
            let ghost done = out@;
            push_text(out, "]");
            proof {
                if format_fixed(*format) || plain(v@) {
                    assert(items_text(shown, i as int, format_model(*format)) =~= Seq::<char>::empty());
                    assert(done =~= base + items_text(shown, 0, format_model(*format)));
                    assert(out@ =~= old(out)@ + value_text(v@, format_model(*format)));
                }
            }
        },
        Value::Table(t) => {
            push_text(out, "{");
            let ghost base = out@;
            t.push_entries_text(out, format);
            push_text(out, "}");
            assert(format_fixed(*format) || plain(v@)
                ==> out@ =~= old(out)@ + value_text(v@, format_model(*format)));
        },
        Value::Object(h) => {
            push_text(out, "<object:");
            push_decimal(out, *h);
            push_text(out, ">");
            assert(out@ =~= old(out)@ + value_text(v@, format_model(*format)));
        },
    }
}

impl Clone for Value {
    fn clone(&self) -> (r: Self)
        ensures
            r@ == self@,
    {
        self.duplicate()
    }
}

impl Clone for Table {
    fn clone(&self) -> (r: Self)
        ensures
            r@ == self@,
    {
        self.duplicate()
    }
}

impl PartialEq for Value {
    fn eq(&self, other: &Self) -> (r: bool) {
        self.equals(other)
    }
}

impl PartialEqSpecImpl for Value {
    open spec fn obeys_eq_spec() -> bool {
        true
    }

    open spec fn eq_spec(&self, other: &Self) -> bool {
        values_equal(self@, other@)
    }
}

} // verus!
