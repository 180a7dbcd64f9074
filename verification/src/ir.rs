//! The data model of the intermediate representation: typed values, static
//! variables, functions, and the program that holds them.

use crate::compile::Compile;
use crate::options::ProgramOptions;
use vstd::prelude::*;
use vstd::string::StringExecFns;
use vstd::utf8::encode_utf8;

verus! {

/// The type of a value.
#[derive(Clone, Copy, Debug, PartialEq, Eq, Structural)]
pub enum ValueType {
    I128,
    I64,
    I32,
    I16,
    I8,
    U8,
    U16,
    U32,
    U64,
    U128,
    String,
}

/// The type that a name stands for, if it stands for one.
pub open spec fn value_type_named(name: Seq<char>) -> Option<ValueType> {
    if name == "i128"@ {
        Some(ValueType::I128)
    } else if name == "i64"@ {
        Some(ValueType::I64)
    } else if name == "i32"@ {
        Some(ValueType::I32)
    } else if name == "i16"@ {
        Some(ValueType::I16)
    } else if name == "i8"@ {
        Some(ValueType::I8)
    } else if name == "u8"@ {
        Some(ValueType::U8)
    } else if name == "u16"@ {
        Some(ValueType::U16)
    } else if name == "u32"@ {
        Some(ValueType::U32)
    } else if name == "u64"@ {
        Some(ValueType::U64)
    } else if name == "u128"@ {
        Some(ValueType::U128)
    } else if name == "string"@ {
        Some(ValueType::String)
    } else {
        None
    }
}

/// Whether `s` reads `word`.
fn reads(s: &str, word: &str) -> (same: bool)
    ensures
        same == (s@ == word@),
{
    s.to_owned() == word.to_owned()
}

impl ValueType {
    /// The type that `s` names, if it names one.
    pub fn named(s: &str) -> (value_type: Option<ValueType>)
        ensures
            value_type == value_type_named(s@),
    {
        if reads(s, "i128") {
            Some(ValueType::I128)
        } else if reads(s, "i64") {
            Some(ValueType::I64)
        } else if reads(s, "i32") {
            Some(ValueType::I32)
        } else if reads(s, "i16") {
            Some(ValueType::I16)
        } else if reads(s, "i8") {
            Some(ValueType::I8)
        } else if reads(s, "u8") {
            Some(ValueType::U8)
        } else if reads(s, "u16") {
            Some(ValueType::U16)
        } else if reads(s, "u32") {
            Some(ValueType::U32)
        } else if reads(s, "u64") {
            Some(ValueType::U64)
        } else if reads(s, "u128") {
            Some(ValueType::U128)
        } else if reads(s, "string") {
            Some(ValueType::String)
        } else {
            None
        }
    }
}

impl ValueType {
    /// The type of the value that a text of this declared type is read as:
    /// a signed number below 128 bits is read as 64 bits wide, and so is an
    /// unsigned number of 128 bits; every other type is read as itself.
    pub open spec fn storage(&self) -> ValueType {
        match self {
            ValueType::I32 | ValueType::I16 | ValueType::I8 => ValueType::I64,
            ValueType::U128 => ValueType::U64,
            _ => *self,
        }
    }

    /// Get the type of the value that a text of this declared type is read as.
    pub fn read_as(&self) -> (storage: ValueType)
        ensures
            storage == self.storage(),
    {
        match self {
            ValueType::I32 | ValueType::I16 | ValueType::I8 => ValueType::I64,
            ValueType::U128 => ValueType::U64,
            ValueType::I128 => ValueType::I128,
            ValueType::I64 => ValueType::I64,
            ValueType::U8 => ValueType::U8,
            ValueType::U16 => ValueType::U16,
            ValueType::U32 => ValueType::U32,
            ValueType::U64 => ValueType::U64,
            ValueType::String => ValueType::String,
        }
    }
}

impl std::str::FromStr for ValueType {
    type Err = ();

    /// The type that `s` names; an error if it names none.
    fn from_str(s: &str) -> (value_type: Result<ValueType, ()>)
        ensures
            value_type == match value_type_named(s@) {
                Some(named) => Ok::<ValueType, ()>(named),
                None => Err::<ValueType, ()>(()),
            },
    {
        match ValueType::named(s) {
            Some(value_type) => Ok(value_type),
            None => Err(()),
        }
    }
}

/// A table from names to values, in which no name occurs twice.
#[derive(Debug)]
pub struct NameTable<V> {
    entries: Vec<(String, V)>,
}

impl<V> NameTable<V> {
    /// The names in the order in which they came into the table.
    pub closed spec fn names(&self) -> Seq<Seq<char>> {
        self.entries@.map_values(|entry: (String, V)| entry.0@)
    }

    /// The values in the order in which their names came into the table.
    pub closed spec fn values(&self) -> Seq<V> {
        self.entries@.map_values(|entry: (String, V)| entry.1)
    }

    /// Whether every name has its value and no name occurs twice. Every
    /// table that this module hands out is well formed.
    pub open spec fn wf(&self) -> bool {
        &&& self.names().len() == self.values().len()
        &&& self.names().no_duplicates()
    }

    /// Whether the table holds a value under `name`.
    pub open spec fn holds(&self, name: Seq<char>) -> bool {
        self.names().contains(name)
    }

    /// The value under `name`.
    pub open spec fn value_of(&self, name: Seq<char>) -> V
        recommends
            self.holds(name),
    {
        self.values()[self.names().index_of(name)]
    }

    /// The table as a map from each name to its value.
    pub open spec fn map(&self) -> Map<Seq<char>, V> {
        Map::new(|name: Seq<char>| self.holds(name), |name: Seq<char>| self.value_of(name))
    }

    /// Whether putting `value` under `name` turns this table into `after`
    /// and hands `previous` back: a name that is new comes last; a name
    /// that is there keeps its place, and its value is exchanged.
    pub open spec fn inserted(
        &self,
        name: Seq<char>,
        value: V,
        after: &Self,
        previous: Option<V>,
    ) -> bool {
        if self.holds(name) {
            &&& previous == Some(self.value_of(name))
            &&& after.names() == self.names()
            &&& after.values() == self.values().update(self.names().index_of(name), value)
        } else {
            &&& previous.is_none()
            &&& after.names() == self.names().push(name)
            &&& after.values() == self.values().push(value)
        }
    }

    /// In a well-formed table a name stands at one position only.
    pub proof fn lemma_position(&self, name: Seq<char>, at: int)
        requires
            self.wf(),
            0 <= at < self.names().len(),
            self.names()[at] == name,
        ensures
            self.holds(name),
            self.names().index_of(name) == at,
            self.value_of(name) == self.values()[at],
    {
        let found = self.names().index_of(name);
        assert(self.names()[found] == name);
    }

    /// After `value` was put under `name`, the name maps to the value and
    /// every other name maps to what it mapped to before. What is handed
    /// back is what the name mapped to before.
    pub proof fn lemma_inserted_maps(
        &self,
        name: Seq<char>,
        value: V,
        after: &Self,
        previous: Option<V>,
    )
        requires
            self.wf(),
            self.inserted(name, value, after, previous),
        ensures
            after.wf(),
            after.map() == self.map().insert(name, value),
            after.holds(name),
            after.value_of(name) == value,
            previous == if self.map().contains_key(name) {
                Some(self.map()[name])
            } else {
                None
            },
    {
        let names = self.names();
        let len = names.len() as int;
        if self.holds(name) {
            let at = names.index_of(name);
            assert(names[at] == name);
            after.lemma_position(name, at);
            assert forall|other: Seq<char>| after.map().contains_key(other) implies (
            #[trigger] after.map()[other]) == self.map().insert(name, value)[other] by {
                let found = names.index_of(other);
                assert(names[found] == other);
            }
            assert(after.map() =~= self.map().insert(name, value));
        } else {
            assert(after.names().drop_last() =~= names);
            assert forall|i: int, j: int|
                0 <= i < after.names().len() && 0 <= j < after.names().len() && i
                    != j implies after.names()[i] != after.names()[j] by {
                if i < len {
                    assert(names[i] == after.names()[i]);
                }
                if j < len {
                    assert(names[j] == after.names()[j]);
                }
            }
            after.lemma_position(name, len);
            assert forall|other: Seq<char>| #[trigger]
                after.map().contains_key(other) == self.map().insert(name, value).contains_key(
                    other,
                ) by {
                if after.names().contains(other) {
                    let i = after.names().index_of(other);
                    assert(after.names()[i] == other);
                    if i < len {
                        assert(names[i] == other);
                    }
                }
                if names.contains(other) {
                    let i = names.index_of(other);
                    assert(names[i] == other);
                    assert(after.names()[i] == other);
                }
            }
            assert forall|other: Seq<char>| after.map().contains_key(other) implies (
            #[trigger] after.map()[other]) == self.map().insert(name, value)[other] by {
                if other != name {
                    let i = names.index_of(other);
                    assert(names[i] == other);
                    assert(after.names()[i] == other);
                    after.lemma_position(other, i);
                }
            }
            assert(after.map() =~= self.map().insert(name, value));
        }
    }

    /// An empty table.
    pub fn new() -> (table: NameTable<V>)
        ensures
            table.wf(),
            table.names() == Seq::<Seq<char>>::empty(),
            table.values() == Seq::<V>::empty(),
            table.map() == Map::<Seq<char>, V>::empty(),
    {
        let table = NameTable { entries: Vec::new() };
        assert(table.names() =~= Seq::<Seq<char>>::empty());
        assert(table.values() =~= Seq::<V>::empty());
        assert(table.map() =~= Map::<Seq<char>, V>::empty());
        table
    }

    /// How many names the table holds.
    pub fn len(&self) -> (len: usize)
        ensures
            len == self.names().len(),
            len == self.values().len(),
    {
        self.entries.len()
    }

    /// The value at position `i` in the order of arrival.
    pub fn value_at(&self, i: usize) -> (value: &V)
        requires
            i < self.values().len(),
        ensures
            *value == self.values()[i as int],
    {
        &self.entries[i].1
    }

    /// Put `value` under `name`. A value that was there before is handed
    /// back, and its place in the order is kept.
    pub fn insert(&mut self, name: String, value: V) -> (previous: Option<V>)
        requires
            old(self).wf(),
        ensures
            final(self).wf(),
            old(self).inserted(name@, value, final(self), previous),
            final(self).map() == old(self).map().insert(name@, value),
            previous == if old(self).map().contains_key(name@) {
                Some(old(self).map()[name@])
            } else {
                None
            },
    {
        let ghost names = self.names();
        let ghost values = self.values();
        let mut i: usize = 0;
        while i < self.entries.len()
            invariant
                i <= self.entries@.len(),
                self.names() == names,
                self.values() == values,
                names == old(self).names(),
                values == old(self).values(),
                self.wf(),
                forall|j: int| 0 <= j < i ==> names[j] != name@,
            decreases self.entries@.len() - i,
        {
            if self.entries[i].0 == name {
                proof {
                    assert(names[i as int] == name@);
                    old(self).lemma_position(name@, i as int);
                }
                let ghost before = self.entries@;
                let removed = self.entries.remove(i);
                self.entries.insert(i, (name, value));
                proof {
                    assert(self.entries@ =~= before.update(i as int, (name, value)));
                    assert(self.names() =~= names);
                    assert(self.values() =~= values.update(i as int, value));
                    old(self).lemma_inserted_maps(name@, value, &*self, Some(removed.1));
                }
                return Some(removed.1);
            }
            i = i + 1;
        }
        proof {
            assert(!names.contains(name@));
        }
        self.entries.push((name, value));
        proof {
            assert(self.names() =~= names.push(name@));
            assert(self.values() =~= values.push(value));
            old(self).lemma_inserted_maps(name@, value, &*self, None);
        }
        None
    }
}

/// A function: its parameters, each with its type.
#[derive(Debug)]
pub struct Function {
    params: NameTable<ValueType>,
}

impl Function {
    /// The parameters by name.
    pub closed spec fn params(&self) -> &NameTable<ValueType> {
        &self.params
    }

    /// Whether no parameter occurs twice.
    pub open spec fn wf(&self) -> bool {
        self.params().wf()
    }

    /// Declare a parameter. The type under which the name was declared
    /// before is handed back.
    pub fn insert_param(&mut self, name: String, value_type: ValueType) -> (previous: Option<
        ValueType,
    >)
        requires
            old(self).wf(),
        ensures
            final(self).wf(),
            old(self).params().inserted(name@, value_type, final(self).params(), previous),
            final(self).params().map() == old(self).params().map().insert(name@, value_type),
            previous == if old(self).params().map().contains_key(name@) {
                Some(old(self).params().map()[name@])
            } else {
                None
            },
    {
        self.params.insert(name, value_type)
    }

    /// A function with the given parameters.
    pub fn new(params: NameTable<ValueType>) -> (function: Function)
        ensures
            *function.params() == params,
    {
        Function { params }
    }
}

impl Default for Function {
    /// A function without parameters.
    fn default() -> (function: Function)
        ensures
            function.wf(),
            function.params().names() == Seq::<Seq<char>>::empty(),
            function.params().values() == Seq::<ValueType>::empty(),
            function.params().map() == Map::<Seq<char>, ValueType>::empty(),
    {
        Function { params: NameTable::new() }
    }
}

/// An error of the front end: what went wrong in short, and the error in full.
pub struct Error<'a> {
    message: &'a str,
    error: String,
}

impl<'a> Error<'a> {
    /// What went wrong, in short.
    pub closed spec fn message(&self) -> Seq<char> {
        self.message@
    }

    /// The error in full.
    pub closed spec fn error(&self) -> Seq<char> {
        self.error@
    }

    /// What the error reads like: a line with the short message, then the
    /// error in full.
    pub open spec fn text(&self) -> Seq<char> {
        "ivm-ir: "@ + self.message() + "\n"@ + self.error()
    }

    /// An error of the given message and full text.
    pub fn from(message: &'a str, error: &str) -> (made: Error<'a>)
        ensures
            made.message() == message@,
            made.error() == error@,
    {
        Error { message, error: String::from_str(error) }
    }

    /// Render this error as text.
    pub fn to_string(&self) -> (text: String)
        ensures
            text@ == self.text(),
    {
        let mut text = String::from_str("ivm-ir: ");
        text.append(self.message);
        text.append("\n");
        text.append(self.error.as_str());
        assert(text@ =~= self.text());
        text
    }
}

/// What the compiler is told besides the program.
#[derive(Clone, Copy, Debug)]
pub struct CompileOptions {
    initial_reserve: usize,
}

impl CompileOptions {
    /// How many bytes are reserved before the program.
    pub closed spec fn spec_initial_reserve(&self) -> usize {
        self.initial_reserve
    }

    pub fn new(initial_reserve: usize) -> (options: CompileOptions)
        ensures
            options.initial_reserve() == initial_reserve,
    {
        CompileOptions { initial_reserve }
    }

    /// Get how many bytes are reserved before the program.
    #[verifier::when_used_as_spec(spec_initial_reserve)]
    pub fn initial_reserve(&self) -> (initial_reserve: usize)
        ensures
            initial_reserve == self.spec_initial_reserve(),
    {
        self.initial_reserve
    }
}

impl Default for CompileOptions {
    /// Nothing reserved.
    fn default() -> (options: CompileOptions)
        ensures
            options.initial_reserve() == 0,
    {
        CompileOptions { initial_reserve: 0 }
    }
}

/// What `str::parse::<i128>` makes of a text: the number that the text is
/// in decimal digits, or the text of the reason for which it is none.
pub uninterp spec fn parsed_i128(text: Seq<char>) -> Result<i128, Seq<char>>;

/// What `str::parse::<i64>` makes of a text.
pub uninterp spec fn parsed_i64(text: Seq<char>) -> Result<i64, Seq<char>>;

/// What `str::parse::<u64>` makes of a text.
pub uninterp spec fn parsed_u64(text: Seq<char>) -> Result<u64, Seq<char>>;

/// What `str::parse::<u32>` makes of a text.
pub uninterp spec fn parsed_u32(text: Seq<char>) -> Result<u32, Seq<char>>;

/// What `str::parse::<u16>` makes of a text.
pub uninterp spec fn parsed_u16(text: Seq<char>) -> Result<u16, Seq<char>>;

/// What `str::parse::<u8>` makes of a text.
pub uninterp spec fn parsed_u8(text: Seq<char>) -> Result<u8, Seq<char>>;

/// Calls `str::parse::<i128>` and renders its error with `to_string`. Not
/// proved: the result is a function of the text alone; `parsed_i128` is
/// its name.
#[verifier::external_body]
fn parse_i128(data: &str) -> (parsed: Result<i128, String>)
    ensures
        match parsed {
            Ok(number) => parsed_i128(data@) == Ok::<i128, Seq<char>>(number),
            Err(reason) => parsed_i128(data@) == Err::<i128, Seq<char>>(reason@),
        },
{
    match data.parse::<i128>() {
        Ok(number) => Ok(number),
        Err(err) => Err(err.to_string()),
    }
}

/// Calls `str::parse::<i64>` and renders its error with `to_string`. Not
/// proved: the result is a function of the text alone; `parsed_i64` is its
/// name.
#[verifier::external_body]
fn parse_i64(data: &str) -> (parsed: Result<i64, String>)
    ensures
        match parsed {
            Ok(number) => parsed_i64(data@) == Ok::<i64, Seq<char>>(number),
            Err(reason) => parsed_i64(data@) == Err::<i64, Seq<char>>(reason@),
        },
{
    match data.parse::<i64>() {
        Ok(number) => Ok(number),
        Err(err) => Err(err.to_string()),
    }
}

/// Calls `str::parse::<u64>` and renders its error with `to_string`. Not
/// proved: the result is a function of the text alone; `parsed_u64` is its
/// name.
#[verifier::external_body]
fn parse_u64(data: &str) -> (parsed: Result<u64, String>)
    ensures
        match parsed {
            Ok(number) => parsed_u64(data@) == Ok::<u64, Seq<char>>(number),
            Err(reason) => parsed_u64(data@) == Err::<u64, Seq<char>>(reason@),
        },
{
    match data.parse::<u64>() {
        Ok(number) => Ok(number),
        Err(err) => Err(err.to_string()),
    }
}

/// Calls `str::parse::<u32>` and renders its error with `to_string`. Not
/// proved: the result is a function of the text alone; `parsed_u32` is its
/// name.
#[verifier::external_body]
fn parse_u32(data: &str) -> (parsed: Result<u32, String>)
    ensures
        match parsed {
            Ok(number) => parsed_u32(data@) == Ok::<u32, Seq<char>>(number),
            Err(reason) => parsed_u32(data@) == Err::<u32, Seq<char>>(reason@),
        },
{
    match data.parse::<u32>() {
        Ok(number) => Ok(number),
        Err(err) => Err(err.to_string()),
    }
}

/// Calls `str::parse::<u16>` and renders its error with `to_string`. Not
/// proved: the result is a function of the text alone; `parsed_u16` is its
/// name.
#[verifier::external_body]
fn parse_u16(data: &str) -> (parsed: Result<u16, String>)
    ensures
        match parsed {
            Ok(number) => parsed_u16(data@) == Ok::<u16, Seq<char>>(number),
            Err(reason) => parsed_u16(data@) == Err::<u16, Seq<char>>(reason@),
        },
{
    match data.parse::<u16>() {
        Ok(number) => Ok(number),
        Err(err) => Err(err.to_string()),
    }
}

/// Calls `str::parse::<u8>` and renders its error with `to_string`. Not
/// proved: the result is a function of the text alone; `parsed_u8` is its
/// name.
#[verifier::external_body]
fn parse_u8(data: &str) -> (parsed: Result<u8, String>)
    ensures
        match parsed {
            Ok(number) => parsed_u8(data@) == Ok::<u8, Seq<char>>(number),
            Err(reason) => parsed_u8(data@) == Err::<u8, Seq<char>>(reason@),
        },
{
    match data.parse::<u8>() {
        Ok(number) => Ok(number),
        Err(err) => Err(err.to_string()),
    }
}

/// A value as a mathematical value.
pub enum ValueView {
    I128(i128),
    I64(i64),
    I32(i32),
    I16(i16),
    I8(i8),
    U8(u8),
    U16(u16),
    U32(u32),
    U64(u64),
    U128(u128),
    String(Seq<char>),
}

/// A number in the width in which it was read from text.
#[derive(Clone, Copy, Debug, PartialEq, Eq, Structural)]
pub enum Number {
    I128(i128),
    I64(i64),
    U64(u64),
    U32(u32),
    U16(u16),
    U8(u8),
}

impl Number {
    /// The value that holds this number.
    pub open spec fn value(self) -> ValueView {
        match self {
            Number::I128(number) => ValueView::I128(number),
            Number::I64(number) => ValueView::I64(number),
            Number::U64(number) => ValueView::U64(number),
            Number::U32(number) => ValueView::U32(number),
            Number::U16(number) => ValueView::U16(number),
            Number::U8(number) => ValueView::U8(number),
        }
    }
}

/// The number that a text stands for when it is read in the given width,
/// or the reason for which it stands for none. A string has no number.
pub open spec fn number_of_text(text: Seq<char>, storage: ValueType) -> Option<
    Result<Number, Seq<char>>,
> {
    match storage {
        ValueType::I128 => Some(
            match parsed_i128(text) {
                Ok(number) => Ok(Number::I128(number)),
                Err(reason) => Err(reason),
            },
        ),
        ValueType::I64 => Some(
            match parsed_i64(text) {
                Ok(number) => Ok(Number::I64(number)),
                Err(reason) => Err(reason),
            },
        ),
        ValueType::U64 => Some(
            match parsed_u64(text) {
                Ok(number) => Ok(Number::U64(number)),
                Err(reason) => Err(reason),
            },
        ),
        ValueType::U32 => Some(
            match parsed_u32(text) {
                Ok(number) => Ok(Number::U32(number)),
                Err(reason) => Err(reason),
            },
        ),
        ValueType::U16 => Some(
            match parsed_u16(text) {
                Ok(number) => Ok(Number::U16(number)),
                Err(reason) => Err(reason),
            },
        ),
        ValueType::U8 => Some(
            match parsed_u8(text) {
                Ok(number) => Ok(Number::U8(number)),
                Err(reason) => Err(reason),
            },
        ),
        _ => None,
    }
}

/// The value that a text stands for under a declared type, or the reason
/// for which it stands for none. A number is read in the width that
/// `storage` gives; a string is the text itself.
pub open spec fn value_of_text(text: Seq<char>, type_bound: ValueType) -> Result<
    ValueView,
    Seq<char>,
> {
    match number_of_text(text, type_bound.storage()) {
        Some(Ok(number)) => Ok(number.value()),
        Some(Err(reason)) => Err(reason),
        None => Ok(ValueView::String(text)),
    }
}

/// Read `data` as a number of the given width, if the width is one of numbers.
fn read_number(data: &str, storage: ValueType) -> (read: Option<Result<Number, String>>)
    ensures
        match read {
            Some(Ok(number)) => number_of_text(data@, storage) == Some(
                Ok::<Number, Seq<char>>(number),
            ),
            Some(Err(reason)) => number_of_text(data@, storage) == Some(
                Err::<Number, Seq<char>>(reason@),
            ),
            None => number_of_text(data@, storage).is_none(),
        },
{
    match storage {
        ValueType::I128 => Some(
            match parse_i128(data) {
                Ok(number) => Ok(Number::I128(number)),
                Err(reason) => Err(reason),
            },
        ),
        ValueType::I64 => Some(
            match parse_i64(data) {
                Ok(number) => Ok(Number::I64(number)),
                Err(reason) => Err(reason),
            },
        ),
        ValueType::U64 => Some(
            match parse_u64(data) {
                Ok(number) => Ok(Number::U64(number)),
                Err(reason) => Err(reason),
            },
        ),
        ValueType::U32 => Some(
            match parse_u32(data) {
                Ok(number) => Ok(Number::U32(number)),
                Err(reason) => Err(reason),
            },
        ),
        ValueType::U16 => Some(
            match parse_u16(data) {
                Ok(number) => Ok(Number::U16(number)),
                Err(reason) => Err(reason),
            },
        ),
        ValueType::U8 => Some(
            match parse_u8(data) {
                Ok(number) => Ok(Number::U8(number)),
                Err(reason) => Err(reason),
            },
        ),
        _ => None,
    }
}

/// A value.
#[derive(Clone, Debug)]
pub enum Value {
    I128(i128),
    I64(i64),
    I32(i32),
    I16(i16),
    I8(i8),
    U8(u8),
    U16(u16),
    U32(u32),
    U64(u64),
    U128(u128),
    String(String),
}

impl View for Value {
    type V = ValueView;

    open spec fn view(&self) -> ValueView {
        match self {
            Value::I128(n) => ValueView::I128(*n),
            Value::I64(n) => ValueView::I64(*n),
            Value::I32(n) => ValueView::I32(*n),
            Value::I16(n) => ValueView::I16(*n),
            Value::I8(n) => ValueView::I8(*n),
            Value::U8(n) => ValueView::U8(*n),
            Value::U16(n) => ValueView::U16(*n),
            Value::U32(n) => ValueView::U32(*n),
            Value::U64(n) => ValueView::U64(*n),
            Value::U128(n) => ValueView::U128(*n),
            Value::String(v) => ValueView::String(v@),
        }
    }
}

impl Value {
    /// The value that holds `number`.
    pub fn from_number(number: Number) -> (value: Value)
        ensures
            value@ == number.value(),
    {
        match number {
            Number::I128(number) => Value::I128(number),
            Number::I64(number) => Value::I64(number),
            Number::U64(number) => Value::U64(number),
            Number::U32(number) => Value::U32(number),
            Number::U16(number) => Value::U16(number),
            Number::U8(number) => Value::U8(number),
        }
    }

    /// Read `data` as a value of the declared type `type_bound`.
    pub fn try_from(data: &str, type_bound: &ValueType) -> (value: Result<Value, String>)
        ensures
            match value {
                Ok(made) => value_of_text(data@, *type_bound) == Ok::<ValueView, Seq<char>>(
                    made@,
                ),
                Err(reason) => value_of_text(data@, *type_bound) == Err::<ValueView, Seq<char>>(
                    reason@,
                ),
            },
    {
        match read_number(data, type_bound.read_as()) {
            Some(Ok(number)) => Ok(Value::from_number(number)),
            Some(Err(reason)) => Err(reason),
            None => Ok(Value::String(data.to_owned())),
        }
    }

    /// How many bytes the value takes up: the width of a number, and the
    /// length of the UTF-8 encoding of a string.
    pub open spec fn size(&self) -> usize {
        match self {
            Value::I128(_) => 16,
            Value::I64(_) => 8,
            Value::I32(_) => 4,
            Value::I16(_) => 2,
            Value::I8(_) => 1,
            Value::U8(_) => 1,
            Value::U16(_) => 2,
            Value::U32(_) => 4,
            Value::U64(_) => 8,
            Value::U128(_) => 16,
            Value::String(v) => encode_utf8(v@).len() as usize,
        }
    }

    /// Get how many bytes the value takes up.
    pub fn get_size(&self) -> (size: usize)
        ensures
            size == self.size(),
    {
        match self {
            Value::I128(_) => 16,
            Value::I64(_) => 8,
            Value::I32(_) => 4,
            Value::I16(_) => 2,
            Value::I8(_) => 1,
            Value::U8(_) => 1,
            Value::U16(_) => 2,
            Value::U32(_) => 4,
            Value::U64(_) => 8,
            Value::U128(_) => 16,
            Value::String(v) => v.as_str().len(),
        }
    }
}

/// A variable: its value, and the type it was declared with.
#[derive(Debug)]
pub struct Variable {
    value: Value,
    type_bound: ValueType,
}

impl Variable {
    /// The value of the variable.
    pub closed spec fn spec_value(&self) -> &Value {
        &self.value
    }

    /// The type the variable was declared with.
    pub closed spec fn spec_type_bound(&self) -> &ValueType {
        &self.type_bound
    }

    pub fn new(value: Value, type_bound: ValueType) -> (variable: Variable)
        ensures
            *variable.value() == value,
            *variable.type_bound() == type_bound,
    {
        Variable { value, type_bound }
    }

    /// Get the value of the variable.
    #[verifier::when_used_as_spec(spec_value)]
    pub fn value(&self) -> (value: &Value)
        ensures
            value == self.spec_value(),
    {
        &self.value
    }

    /// Get the type the variable was declared with.
    #[verifier::when_used_as_spec(spec_type_bound)]
    pub fn type_bound(&self) -> (type_bound: &ValueType)
        ensures
            type_bound == self.spec_type_bound(),
    {
        &self.type_bound
    }
}

/// How many bytes the values of the given variables take up together.
pub open spec fn sizes_of(variables: Seq<Variable>) -> nat
    decreases variables.len(),
{
    if variables.len() == 0 {
        0
    } else {
        sizes_of(variables.drop_last()) + variables.last().value().size() as nat
    }
}

/// A program: its functions and its static variables by name, and its options.
#[derive(Debug)]
pub struct Program {
    functions: NameTable<Function>,
    static_vars: NameTable<Variable>,
    options: ProgramOptions,
}

impl Program {
    /// The functions by name.
    pub closed spec fn functions(&self) -> &NameTable<Function> {
        &self.functions
    }

    /// The static variables by name.
    pub closed spec fn static_vars(&self) -> &NameTable<Variable> {
        &self.static_vars
    }

    /// The options of the program.
    pub closed spec fn options(&self) -> ProgramOptions {
        self.options
    }

    /// Whether no function and no static variable occurs twice.
    pub open spec fn wf(&self) -> bool {
        self.functions().wf() && self.static_vars().wf()
    }

    /// Declare a static variable. The variable that was declared under
    /// the name before is handed back.
    pub fn insert_static_var(&mut self, name: String, var: Variable) -> (previous: Option<
        Variable,
    >)
        requires
            old(self).wf(),
        ensures
            final(self).wf(),
            old(self).static_vars().inserted(name@, var, final(self).static_vars(), previous),
            final(self).static_vars().map() == old(self).static_vars().map().insert(name@, var),
            previous == if old(self).static_vars().map().contains_key(name@) {
                Some(old(self).static_vars().map()[name@])
            } else {
                None
            },
            final(self).functions() == old(self).functions(),
            final(self).options() == old(self).options(),
    {
        self.static_vars.insert(name, var)
    }

    /// Declare a function. The function that was declared under the name
    /// before is handed back.
    pub fn insert_function(&mut self, name: String, function: Function) -> (previous: Option<
        Function,
    >)
        requires
            old(self).wf(),
        ensures
            final(self).wf(),
            old(self).functions().inserted(name@, function, final(self).functions(), previous),
            final(self).functions().map() == old(self).functions().map().insert(name@, function),
            previous == if old(self).functions().map().contains_key(name@) {
                Some(old(self).functions().map()[name@])
            } else {
                None
            },
            final(self).static_vars() == old(self).static_vars(),
            final(self).options() == old(self).options(),
    {
        self.functions.insert(name, function)
    }

    pub fn new(
        functions: NameTable<Function>,
        static_vars: NameTable<Variable>,
        options: ProgramOptions,
    ) -> (program: Program)
        ensures
            *program.functions() == functions,
            *program.static_vars() == static_vars,
            program.options() == options,
    {
        Program { functions, static_vars, options }
    }

    /// Calculate the amount of bytes this program will reserve before
    /// declaring functionality: what its static variables take up together.
    pub fn calculate_reserve(&self) -> (reserve: usize)
        requires
            sizes_of(self.static_vars().values()) <= usize::MAX,
        ensures
            reserve == sizes_of(self.static_vars().values()),
    {
        let ghost variables = self.static_vars.values();
        let mut reserve: usize = 0;
        let mut i: usize = 0;
        while i < self.static_vars.len()
            invariant
                i <= variables.len(),
                variables == self.static_vars.values(),
                sizes_of(variables) <= usize::MAX,
                reserve == sizes_of(variables.take(i as int)),
            decreases variables.len() - i,
        {
            proof {
                assert(variables.take(i + 1).drop_last() =~= variables.take(i as int));
                lemma_sizes_grow(variables, i + 1);
            }
            reserve = reserve + self.static_vars.value_at(i).value().get_size();
            i = i + 1;
        }
        assert(variables.take(i as int) =~= variables);
        reserve
    }
}

/// The variables up to a position take up no more than all of them.
proof fn lemma_sizes_grow(variables: Seq<Variable>, k: int)
    requires
        0 <= k <= variables.len(),
    ensures
        sizes_of(variables.take(k)) <= sizes_of(variables),
    decreases variables.len() - k,
{
    if k < variables.len() {
        lemma_sizes_grow(variables, k + 1);
        assert(variables.take(k + 1).drop_last() =~= variables.take(k));
    } else {
        assert(variables.take(k) =~= variables);
    }
}

impl Default for Program {
    /// A program without functions and static variables, with the default options.
    fn default() -> (program: Program)
        ensures
            program.wf(),
            program.functions().names() == Seq::<Seq<char>>::empty(),
            program.functions().values() == Seq::<Function>::empty(),
            program.functions().map() == Map::<Seq<char>, Function>::empty(),
            program.static_vars().names() == Seq::<Seq<char>>::empty(),
            program.static_vars().values() == Seq::<Variable>::empty(),
            program.static_vars().map() == Map::<Seq<char>, Variable>::empty(),
            program.options().cfv() == crate::options::CCFV,
            program.options().ptr_len() == crate::options::MemoryPointerLength::X32b,
            sizes_of(program.static_vars().values()) == 0,
    {
        Program {
            functions: NameTable::new(),
            static_vars: NameTable::new(),
            options: ProgramOptions::default(),
        }
    }
}

impl Compile for Program {
    /// A program is written as its own options.
    open spec fn bytecode(&self, program_options: &ProgramOptions) -> Seq<u8> {
        self.options().header_bytes()
    }

    fn compile_into(&self, dest: &mut Vec<u8>, program_options: &ProgramOptions) {
        self.options.compile_into(dest, program_options);
    }
}

} // verus!
