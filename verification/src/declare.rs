//! Declaring a program: from the functions and static variables that a
//! source text declares, in order, to the program that holds them.

use crate::ir::{value_of_text, Function, Program, Value, ValueType, ValueView, Variable};
use crate::options::{MemoryPointerLength, CCFV};
use vstd::prelude::*;
use vstd::string::StringExecFns;

verus! {

/// A parameter as a function declares it.
#[derive(Clone, Debug)]
pub struct Param {
    pub value_type: ValueType,
    pub name: String,
}

/// A parameter as a mathematical value.
pub struct ParamView {
    pub value_type: ValueType,
    pub name: Seq<char>,
}

impl View for Param {
    type V = ParamView;

    open spec fn view(&self) -> ParamView {
        ParamView { value_type: self.value_type, name: self.name@ }
    }
}

/// A declaration at the top of a program.
#[derive(Clone, Debug)]
pub enum Global {
    /// A function with its parameters.
    Function { name: String, params: Vec<Param> },
    /// A static variable: its declared type, its name, and the text of its value.
    Static { type_bound: ValueType, name: String, value: String },
}

/// A declaration as a mathematical value.
pub enum GlobalView {
    Function { name: Seq<char>, params: Seq<ParamView> },
    Static { type_bound: ValueType, name: Seq<char>, value: Seq<char> },
}

impl View for Global {
    type V = GlobalView;

    open spec fn view(&self) -> GlobalView {
        match self {
            Global::Function { name, params } => GlobalView::Function {
                name: name@,
                params: params@.map_values(|param: Param| param@),
            },
            Global::Static { type_bound, name, value } => GlobalView::Static {
                type_bound: *type_bound,
                name: name@,
                value: value@,
            },
        }
    }
}

/// The views of declarations.
pub open spec fn views_of(globals: Seq<Global>) -> Seq<GlobalView> {
    globals.map_values(|global: Global| global@)
}

/// Why a declaration cannot stand.
#[derive(Debug)]
pub enum DeclareFault {
    /// The function at `global` declares the name of its parameter at
    /// `param` a second time.
    RepeatedParameter { global: usize, param: usize, name: String },
    /// The function at `global` has the name of an earlier function.
    RepeatedFunction { global: usize, name: String },
    /// The text of the static variable at `global` is no value of its
    /// declared type, for the given reason.
    InvalidConstant { global: usize, reason: String },
    /// The static variable at `global` has the name of an earlier one.
    RepeatedStatic { global: usize, name: String },
}

/// A fault as a mathematical value.
pub enum DeclareFaultView {
    RepeatedParameter { global: int, param: int, name: Seq<char> },
    RepeatedFunction { global: int, name: Seq<char> },
    InvalidConstant { global: int, reason: Seq<char> },
    RepeatedStatic { global: int, name: Seq<char> },
}

impl DeclareFaultView {
    /// The position of the declaration that cannot stand.
    pub open spec fn global(self) -> int {
        match self {
            DeclareFaultView::RepeatedParameter { global, .. } => global,
            DeclareFaultView::RepeatedFunction { global, .. } => global,
            DeclareFaultView::InvalidConstant { global, .. } => global,
            DeclareFaultView::RepeatedStatic { global, .. } => global,
        }
    }

    /// What went wrong, in full: the name that is declared a second time,
    /// or the reason for which a text is no value.
    pub open spec fn detail(self) -> Seq<char> {
        match self {
            DeclareFaultView::RepeatedParameter { name, .. } => "function parameter '"@ + name
                + "' also declared here"@,
            DeclareFaultView::RepeatedFunction { name, .. } => "function '"@ + name
                + "' also declared here"@,
            DeclareFaultView::InvalidConstant { reason, .. } => reason,
            DeclareFaultView::RepeatedStatic { name, .. } => "static variable '"@ + name
                + "' also declared here"@,
        }
    }

    /// What went wrong, in short.
    pub open spec fn message(self) -> Seq<char> {
        match self {
            DeclareFaultView::RepeatedParameter { .. } =>
                "function parameter declared more than once"@,
            DeclareFaultView::RepeatedFunction { .. } => "function declared more than once"@,
            DeclareFaultView::InvalidConstant { .. } => "invalid constant conversion"@,
            DeclareFaultView::RepeatedStatic { .. } => "static variable declared more than once"@,
        }
    }
}

impl View for DeclareFault {
    type V = DeclareFaultView;

    open spec fn view(&self) -> DeclareFaultView {
        match self {
            DeclareFault::RepeatedParameter { global, param, name } =>
                DeclareFaultView::RepeatedParameter {
                    global: *global as int,
                    param: *param as int,
                    name: name@,
                },
            DeclareFault::RepeatedFunction { global, name } => DeclareFaultView::RepeatedFunction {
                global: *global as int,
                name: name@,
            },
            DeclareFault::InvalidConstant { global, reason } => DeclareFaultView::InvalidConstant {
                global: *global as int,
                reason: reason@,
            },
            DeclareFault::RepeatedStatic { global, name } => DeclareFaultView::RepeatedStatic {
                global: *global as int,
                name: name@,
            },
        }
    }
}

impl DeclareFault {
    /// Get what went wrong, in short.
    pub fn message(&self) -> (message: &'static str)
        ensures
            message@ == self@.message(),
    {
        match self {
            DeclareFault::RepeatedParameter { .. } => "function parameter declared more than once",
            DeclareFault::RepeatedFunction { .. } => "function declared more than once",
            DeclareFault::InvalidConstant { .. } => "invalid constant conversion",
            DeclareFault::RepeatedStatic { .. } => "static variable declared more than once",
        }
    }

    /// Get what went wrong, in full.
    pub fn detail(&self) -> (detail: String)
        ensures
            detail@ == self@.detail(),
    {
        match self {
            DeclareFault::RepeatedParameter { name, .. } => {
                let mut detail = String::from_str("function parameter '");
                detail.append(name.as_str());
                detail.append("' also declared here");
                detail
            },
            DeclareFault::RepeatedFunction { name, .. } => {
                let mut detail = String::from_str("function '");
                detail.append(name.as_str());
                detail.append("' also declared here");
                detail
            },
            DeclareFault::InvalidConstant { reason, .. } => reason.clone(),
            DeclareFault::RepeatedStatic { name, .. } => {
                let mut detail = String::from_str("static variable '");
                detail.append(name.as_str());
                detail.append("' also declared here");
                detail
            },
        }
    }
}

/// The names of parameters, in order.
pub open spec fn names_of(params: Seq<ParamView>) -> Seq<Seq<char>> {
    params.map_values(|param: ParamView| param.name)
}

/// The types of parameters, in order.
pub open spec fn types_of(params: Seq<ParamView>) -> Seq<ValueType> {
    params.map_values(|param: ParamView| param.value_type)
}

/// The position of the first name that occurs before itself, if there is one.
pub open spec fn first_repeat(names: Seq<Seq<char>>) -> Option<int>
    decreases names.len(),
{
    if names.len() == 0 {
        None
    } else {
        match first_repeat(names.drop_last()) {
            Some(at) => Some(at),
            None => if names.drop_last().contains(names.last()) {
                Some(names.len() - 1)
            } else {
                None
            },
        }
    }
}

/// The names of the functions among the declarations, in order.
pub open spec fn function_names(globals: Seq<GlobalView>) -> Seq<Seq<char>>
    decreases globals.len(),
{
    if globals.len() == 0 {
        Seq::empty()
    } else {
        match globals.last() {
            GlobalView::Function { name, .. } => function_names(globals.drop_last()).push(name),
            _ => function_names(globals.drop_last()),
        }
    }
}

/// The parameters of the functions among the declarations, in order.
pub open spec fn function_params(globals: Seq<GlobalView>) -> Seq<Seq<ParamView>>
    decreases globals.len(),
{
    if globals.len() == 0 {
        Seq::empty()
    } else {
        match globals.last() {
            GlobalView::Function { params, .. } => function_params(globals.drop_last()).push(
                params,
            ),
            _ => function_params(globals.drop_last()),
        }
    }
}

/// The names of the static variables among the declarations, in order.
pub open spec fn static_names(globals: Seq<GlobalView>) -> Seq<Seq<char>>
    decreases globals.len(),
{
    if globals.len() == 0 {
        Seq::empty()
    } else {
        match globals.last() {
            GlobalView::Static { name, .. } => static_names(globals.drop_last()).push(name),
            _ => static_names(globals.drop_last()),
        }
    }
}

/// The declared type and the text of each static variable among the
/// declarations, in order.
pub open spec fn static_texts(globals: Seq<GlobalView>) -> Seq<(ValueType, Seq<char>)>
    decreases globals.len(),
{
    if globals.len() == 0 {
        Seq::empty()
    } else {
        match globals.last() {
            GlobalView::Static { type_bound, value, .. } => static_texts(
                globals.drop_last(),
            ).push((type_bound, value)),
            _ => static_texts(globals.drop_last()),
        }
    }
}

/// Why the declaration at `at` cannot stand behind those before it, if it
/// cannot. Of a function the parameters are looked at before the name; of
/// a static variable the text before the name.
pub open spec fn fault_of(globals: Seq<GlobalView>, at: int) -> Option<DeclareFaultView>
    recommends
        0 <= at < globals.len(),
{
    match globals[at] {
        GlobalView::Function { name, params } => match first_repeat(names_of(params)) {
            Some(param) => Some(
                DeclareFaultView::RepeatedParameter {
                    global: at,
                    param,
                    name: names_of(params)[param],
                },
            ),
            None => if function_names(globals.take(at)).contains(name) {
                Some(DeclareFaultView::RepeatedFunction { global: at, name })
            } else {
                None
            },
        },
        GlobalView::Static { type_bound, name, value } => match value_of_text(value, type_bound) {
            Err(reason) => Some(DeclareFaultView::InvalidConstant { global: at, reason }),
            Ok(_) => if static_names(globals.take(at)).contains(name) {
                Some(DeclareFaultView::RepeatedStatic { global: at, name })
            } else {
                None
            },
        },
    }
}

/// Whether `function` has exactly the given parameters, in order.
pub open spec fn is_function(function: Function, params: Seq<ParamView>) -> bool {
    &&& function.wf()
    &&& function.params().names() == names_of(params)
    &&& function.params().values() == types_of(params)
}

/// Whether `variable` has the declared type and the value that the text
/// stands for.
pub open spec fn is_static(variable: Variable, declared: (ValueType, Seq<char>)) -> bool {
    &&& *variable.type_bound() == declared.0
    &&& value_of_text(declared.1, declared.0) == Ok::<ValueView, Seq<char>>(variable.value()@)
}

/// Whether `program` holds exactly what `globals` declare: every function
/// and every static variable once, in the order of the declarations, each
/// static variable with the value that its text stands for.
pub open spec fn declares(program: Program, globals: Seq<GlobalView>) -> bool {
    &&& program.wf()
    &&& program.options().cfv() == CCFV
    &&& program.options().ptr_len() == MemoryPointerLength::X32b
    &&& program.functions().names() == function_names(globals)
    &&& program.functions().values().len() == function_params(globals).len()
    &&& forall|k: int|
        0 <= k < function_params(globals).len() ==> is_function(
            #[trigger] program.functions().values()[k],
            function_params(globals)[k],
        )
    &&& program.static_vars().names() == static_names(globals)
    &&& program.static_vars().values().len() == static_texts(globals).len()
    &&& forall|k: int|
        0 <= k < static_texts(globals).len() ==> is_static(
            #[trigger] program.static_vars().values()[k],
            static_texts(globals)[k],
        )
}

/// A name that stands before itself in a longer run of names is the
/// first repeat of the run if the names before it do not repeat.
proof fn lemma_first_repeat_step(names: Seq<Seq<char>>, at: int)
    requires
        0 <= at < names.len(),
        first_repeat(names.take(at)).is_none(),
    ensures
        names.take(at).contains(names[at]) ==> first_repeat(names.take(at + 1)) == Some(at),
        !names.take(at).contains(names[at]) ==> first_repeat(names.take(at + 1)).is_none(),
{
    assert(names.take(at + 1).drop_last() =~= names.take(at));
}

/// The first repeat of a run of names is the first repeat of every longer run.
proof fn lemma_first_repeat_stays(names: Seq<Seq<char>>, upto: int, at: int)
    requires
        0 <= upto <= names.len(),
        first_repeat(names.take(upto)) == Some(at),
    ensures
        first_repeat(names) == Some(at),
    decreases names.len() - upto,
{
    if upto < names.len() {
        assert(names.take(upto + 1).drop_last() =~= names.take(upto));
        lemma_first_repeat_stays(names, upto + 1, at);
    } else {
        assert(names.take(upto) =~= names);
    }
}

/// The parameters of one function as a function of the program.
fn declare_function(params: &Vec<Param>) -> (declared: Result<Function, usize>)
    ensures
        match declared {
            Ok(function) => {
                &&& first_repeat(names_of(params@.map_values(|param: Param| param@))).is_none()
                &&& is_function(function, params@.map_values(|param: Param| param@))
            },
            Err(param) => param < params@.len() && first_repeat(
                names_of(params@.map_values(|param: Param| param@)),
            ) == Some(param as int),
        },
{
    let ghost views = params@.map_values(|param: Param| param@);
    let ghost names = names_of(views);
    let ghost types = types_of(views);
    let mut function = Function::default();
    let mut j: usize = 0;
    proof {
        assert(names.take(0) =~= Seq::<Seq<char>>::empty());
        assert(types.take(0) =~= Seq::<ValueType>::empty());
    }
    while j < params.len()
        invariant
            j <= params@.len(),
            views == params@.map_values(|param: Param| param@),
            names == names_of(views),
            types == types_of(views),
            function.wf(),
            function.params().names() == names.take(j as int),
            function.params().values() == types.take(j as int),
            first_repeat(names.take(j as int)).is_none(),
        decreases params@.len() - j,
    {
        let name = params[j].name.clone();
        let value_type = params[j].value_type;
        proof {
            assert(name@ == names[j as int]);
            assert(value_type == types[j as int]);
            lemma_first_repeat_step(names, j as int);
        }
        let previous = function.insert_param(name, value_type);
        if previous.is_some() {
            proof {
                lemma_first_repeat_stays(names, j + 1, j as int);
            }
            return Err(j);
        }
        proof {
            assert(names.take(j + 1) =~= names.take(j as int).push(names[j as int]));
            assert(types.take(j + 1) =~= types.take(j as int).push(types[j as int]));
        }
        j = j + 1;
    }
    proof {
        assert(names.take(j as int) =~= names);
        assert(types.take(j as int) =~= types);
    }
    Ok(function)
}

/// Declare every function and every static variable, in order.
///
/// The first declaration that cannot stand ends the work: a function that
/// names a parameter twice or has the name of an earlier function, a
/// static variable whose text is no value of its declared type or that has
/// the name of an earlier static variable.
pub fn declare_all(globals: &[Global]) -> (result: Result<Program, DeclareFault>)
    ensures
        match result {
            Ok(program) => {
                &&& declares(program, views_of(globals@))
                &&& forall|k: int|
                    0 <= k < globals@.len() ==> (#[trigger] fault_of(
                        views_of(globals@),
                        k,
                    )).is_none()
            },
            Err(fault) => {
                &&& 0 <= fault@.global() < globals@.len()
                &&& fault_of(views_of(globals@), fault@.global()) == Some(fault@)
                &&& forall|k: int|
                    0 <= k < fault@.global() ==> (#[trigger] fault_of(
                        views_of(globals@),
                        k,
                    )).is_none()
            },
        },
{
    let ghost all = views_of(globals@);
    let mut program = Program::default();
    let mut i: usize = 0;
    proof {
        assert(all.take(0) =~= Seq::<GlobalView>::empty());
    }
    while i < globals.len()
        invariant
            i <= globals@.len(),
            all == views_of(globals@),
            declares(program, all.take(i as int)),
            forall|k: int| 0 <= k < i ==> (#[trigger] fault_of(all, k)).is_none(),
        decreases globals@.len() - i,
    {
        let ghost before = all.take(i as int);
        let ghost now = all.take(i + 1);
        let ghost old_functions = program.functions().values();
        let ghost old_statics = program.static_vars().values();
        proof {
            assert(now.drop_last() =~= before);
            assert(now.last() == all[i as int]);
            assert(all[i as int] == globals@[i as int]@);
        }
        match &globals[i] {
            Global::Function { name, params } => {
                let function = match declare_function(params) {
                    Ok(function) => function,
                    Err(param) => {
                        return Err(
                            DeclareFault::RepeatedParameter {
                                global: i,
                                param,
                                name: params[param].name.clone(),
                            },
                        );
                    },
                };
                let previous = program.insert_function(name.clone(), function);
                if previous.is_some() {
                    return Err(DeclareFault::RepeatedFunction { global: i, name: name.clone() });
                }
                proof {
                    assert forall|k: int| 0 <= k < function_params(now).len() implies is_function(
                        #[trigger] program.functions().values()[k],
                        function_params(now)[k],
                    ) by {
                        if k < old_functions.len() {
                            assert(program.functions().values()[k] == old_functions[k]);
                        }
                    }
                }
            },
            Global::Static { type_bound, name, value } => {
                let read = match Value::try_from(value.as_str(), type_bound) {
                    Ok(read) => read,
                    Err(reason) => {
                        return Err(DeclareFault::InvalidConstant { global: i, reason });
                    },
                };
                let previous = program.insert_static_var(
                    name.clone(),
                    Variable::new(read, *type_bound),
                );
                if previous.is_some() {
                    return Err(DeclareFault::RepeatedStatic { global: i, name: name.clone() });
                }
                proof {
                    assert forall|k: int| 0 <= k < static_texts(now).len() implies is_static(
                        #[trigger] program.static_vars().values()[k],
                        static_texts(now)[k],
                    ) by {
                        if k < old_statics.len() {
                            assert(program.static_vars().values()[k] == old_statics[k]);
                        }
                    }
                }
            },
        }
        i = i + 1;
    }
    proof {
        assert(all.take(i as int) =~= all);
    }
    Ok(program)
}

} // verus!
