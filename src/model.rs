//! The symbol index that code generation reads: variables, implementations,
//! POU metadata, resolved types and the constant-expression table.
use vstd::prelude::*;

verus! {

/// The declaration block a variable comes from.
#[derive(Clone, Copy, Debug, PartialEq, Eq, Structural)]
pub enum VariableKind {
    Input,
    Output,
    InOut,
    Local,
    Temp,
    Return,
    Global,
}

/// A variable of the symbol index.
#[derive(Debug, PartialEq, Eq)]
pub struct VariableEntry {
    pub name: String,
    pub qualified_name: String,
    /// The POU or class that declares the variable.
    pub container: String,
    pub data_type: String,
    /// Reference into the constant-expression table, if the variable is initialized.
    pub initial_value: Option<u64>,
    pub kind: VariableKind,
    pub location: usize,
}

/// The kind of a callable implementation.
#[derive(Clone, Copy, Debug, PartialEq, Eq, Structural)]
pub enum ImplementationType {
    Function,
    Method,
    Program,
    FunctionBlock,
    Action,
}

/// A callable implementation of the symbol index.
#[derive(Debug, PartialEq, Eq)]
pub struct ImplementationEntry {
    pub call_name: String,
    /// The POU whose members the implementation works on.
    pub owner_type: String,
    pub implementation_type: ImplementationType,
    /// The enclosing class, for methods.
    pub associated_class: Option<String>,
}

/// The kind of a program organization unit, as the syntax tree gives it.
#[derive(Debug, PartialEq, Eq)]
pub enum PouType {
    Program,
    Function,
    FunctionBlock,
    Action,
    /// A method of the class `owner`.
    Method { owner: String },
}

/// The implementation of a callable unit, as the syntax tree gives it.
#[derive(Debug, PartialEq, Eq)]
pub struct Implementation {
    pub name: String,
    pub owner_type: String,
    pub pou_type: PouType,
    pub location: usize,
}

/// Metadata of a program organization unit.
#[derive(Debug, PartialEq, Eq)]
pub struct PouEntry {
    pub name: String,
    pub is_generic: bool,
    pub is_variadic: bool,
}

/// The category of a target (low-level) type.
#[derive(Clone, Copy, Debug, PartialEq, Eq, Structural)]
pub enum TypeCategory {
    Int,
    Float,
    Array,
    Pointer,
    Struct,
    Vector,
}

/// What a source-level type is, as far as initialization cares.
#[derive(Clone, Copy, Debug, PartialEq, Eq, Structural)]
pub enum TypeNature {
    Scalar,
    Struct,
    Array,
    Text,
}

/// A target type: its category and, where known, its size in bytes.
#[derive(Clone, Copy, Debug, PartialEq, Eq, Structural)]
pub struct TargetType {
    pub category: TypeCategory,
    pub size: Option<u64>,
}

/// A resolved type with its associated target type.
#[derive(Debug, PartialEq, Eq)]
pub struct TypeEntry {
    pub name: String,
    pub nature: TypeNature,
    pub target: TargetType,
}

/// A foldable initial value: the reference a variable holds, and its constant value.
#[derive(Clone, Copy, Debug, PartialEq, Eq, Structural)]
pub struct ConstantExpr {
    pub id: u64,
    pub value: i64,
}

/// The read-only symbol index.
#[derive(Debug, PartialEq, Eq)]
pub struct Index {
    pub variables: Vec<VariableEntry>,
    pub implementations: Vec<ImplementationEntry>,
    pub pous: Vec<PouEntry>,
    pub types: Vec<TypeEntry>,
    pub constants: Vec<ConstantExpr>,
}

pub open spec fn is_parameter(k: VariableKind) -> bool {
    k == VariableKind::Input || k == VariableKind::Output || k == VariableKind::InOut
}

/// Variables that are initialized at function entry.
pub open spec fn is_initialized_kind(k: VariableKind) -> bool {
    k == VariableKind::Local || k == VariableKind::Temp || k == VariableKind::Return
}

/// The members of `container`, in declaration order.
pub open spec fn members_of(vs: Seq<VariableEntry>, container: Seq<char>) -> Seq<VariableEntry>
    decreases vs.len(),
{
    if vs.len() == 0 {
        Seq::empty()
    } else {
        let rest = members_of(vs.drop_last(), container);
        if vs.last().container@ == container {
            rest.push(vs.last())
        } else {
            rest
        }
    }
}

/// The Temp members among `vs`.
pub open spec fn temps_of(vs: Seq<VariableEntry>) -> Seq<VariableEntry>
    decreases vs.len(),
{
    if vs.len() == 0 {
        Seq::empty()
    } else {
        let rest = temps_of(vs.drop_last());
        if vs.last().kind == VariableKind::Temp {
            rest.push(vs.last())
        } else {
            rest
        }
    }
}

/// The first type named `name`.
pub open spec fn type_entry(ts: Seq<TypeEntry>, name: Seq<char>) -> Option<TypeEntry>
    decreases ts.len(),
{
    if ts.len() == 0 {
        None
    } else if ts[0].name@ == name {
        Some(ts[0])
    } else {
        type_entry(ts.drop_first(), name)
    }
}

/// The first POU named `name`.
pub open spec fn pou_entry(ps: Seq<PouEntry>, name: Seq<char>) -> Option<PouEntry>
    decreases ps.len(),
{
    if ps.len() == 0 {
        None
    } else if ps[0].name@ == name {
        Some(ps[0])
    } else {
        pou_entry(ps.drop_first(), name)
    }
}

/// The first constant expression with reference `id`.
pub open spec fn constant_entry(cs: Seq<ConstantExpr>, id: u64) -> Option<ConstantExpr>
    decreases cs.len(),
{
    if cs.len() == 0 {
        None
    } else if cs[0].id == id {
        Some(cs[0])
    } else {
        constant_entry(cs.drop_first(), id)
    }
}

/// The first Return-kind variable declared by `container`.
pub open spec fn return_variable(vs: Seq<VariableEntry>, container: Seq<char>) -> Option<
    VariableEntry,
>
    decreases vs.len(),
{
    if vs.len() == 0 {
        None
    } else if vs[0].container@ == container && vs[0].kind == VariableKind::Return {
        Some(vs[0])
    } else {
        return_variable(vs.drop_first(), container)
    }
}

/// A field-by-field copy of a variable entry.
pub fn copy_variable(v: &VariableEntry) -> (r: VariableEntry)
    ensures
        r == *v,
{
    VariableEntry {
        name: v.name.clone(),
        qualified_name: v.qualified_name.clone(),
        container: v.container.clone(),
        data_type: v.data_type.clone(),
        initial_value: v.initial_value,
        kind: v.kind,
        location: v.location,
    }
}

/// The Temp members among `vs`, in order.
pub fn temp_members(vs: &Vec<VariableEntry>) -> (r: Vec<VariableEntry>)
    ensures
        r@ == temps_of(vs@),
{
    let mut r: Vec<VariableEntry> = Vec::new();
    let mut i: usize = 0;
    while i < vs.len()
        invariant
            0 <= i <= vs.len(),
            r@ == temps_of(vs@.subrange(0, i as int)),
        decreases vs.len() - i,
    {
        proof {
            assert(vs@.subrange(0, i + 1).drop_last() =~= vs@.subrange(0, i as int));
        }
        if vs[i].kind == VariableKind::Temp {
            r.push(copy_variable(&vs[i]));
        }
        i += 1;
    }
    proof {
        assert(vs@.subrange(0, vs.len() as int) =~= vs@);
    }
    r
}

impl Index {
    /// The members of `container`, in declaration order.
    pub fn get_container_members(&self, container: &String) -> (r: Vec<VariableEntry>)
        ensures
            r@ == members_of(self.variables@, container@),
    {
        let mut r: Vec<VariableEntry> = Vec::new();
        let mut i: usize = 0;
        while i < self.variables.len()
            invariant
                0 <= i <= self.variables.len(),
                r@ == members_of(self.variables@.subrange(0, i as int), container@),
            decreases self.variables.len() - i,
        {
            proof {
                assert(self.variables@.subrange(0, i + 1).drop_last() =~= self.variables@.subrange(
                    0,
                    i as int,
                ));
            }
            if self.variables[i].container == *container {
                r.push(copy_variable(&self.variables[i]));
            }
            i += 1;
        }
        proof {
            assert(self.variables@.subrange(0, self.variables.len() as int) =~= self.variables@);
        }
        r
    }

    /// The position of the first type named `name`.
    pub fn find_type(&self, name: &String) -> (r: Option<usize>)
        ensures
            match r {
                Some(i) => i < self.types.len() && type_entry(self.types@, name@) == Some(
                    self.types[i as int],
                ),
                None => type_entry(self.types@, name@) is None,
            },
    {
        let n = self.types.len();
        proof {
            assert(self.types@.subrange(0, n as int) =~= self.types@);
        }
        let mut i: usize = 0;
        while i < n
            invariant
                0 <= i <= n,
                n == self.types.len(),
                type_entry(self.types@, name@) == type_entry(
                    self.types@.subrange(i as int, n as int),
                    name@,
                ),
            decreases n - i,
        {
            proof {
                assert(self.types@.subrange(i as int, n as int).drop_first() =~= self.types@.subrange(
                    i + 1,
                    n as int,
                ));
            }
            if self.types[i].name == *name {
                return Some(i);
            }
            i += 1;
        }
        None
    }

    /// The position of the first POU named `name`.
    pub fn find_pou(&self, name: &String) -> (r: Option<usize>)
        ensures
            match r {
                Some(i) => i < self.pous.len() && pou_entry(self.pous@, name@) == Some(
                    self.pous[i as int],
                ),
                None => pou_entry(self.pous@, name@) is None,
            },
    {
        let n = self.pous.len();
        proof {
            assert(self.pous@.subrange(0, n as int) =~= self.pous@);
        }
        let mut i: usize = 0;
        while i < n
            invariant
                0 <= i <= n,
                n == self.pous.len(),
                pou_entry(self.pous@, name@) == pou_entry(self.pous@.subrange(i as int, n as int), name@),
            decreases n - i,
        {
            proof {
                assert(self.pous@.subrange(i as int, n as int).drop_first() =~= self.pous@.subrange(
                    i + 1,
                    n as int,
                ));
            }
            if self.pous[i].name == *name {
                return Some(i);
            }
            i += 1;
        }
        None
    }

    /// The constant statement that an initial-value reference resolves to.
    pub fn maybe_get_constant(&self, id: u64) -> (r: Option<i64>)
        ensures
            match constant_entry(self.constants@, id) {
                Some(c) => r == Some(c.value),
                None => r is None,
            },
    {
        let n = self.constants.len();
        proof {
            assert(self.constants@.subrange(0, n as int) =~= self.constants@);
        }
        let mut i: usize = 0;
        while i < n
            invariant
                0 <= i <= n,
                n == self.constants.len(),
                constant_entry(self.constants@, id) == constant_entry(
                    self.constants@.subrange(i as int, n as int),
                    id,
                ),
            decreases n - i,
        {
            proof {
                assert(self.constants@.subrange(i as int, n as int).drop_first()
                    =~= self.constants@.subrange(i + 1, n as int));
            }
            if self.constants[i].id == id {
                return Some(self.constants[i].value);
            }
            i += 1;
        }
        None
    }

    /// The position of the return variable that `container` declares, if any.
    pub fn find_return_variable(&self, container: &String) -> (r: Option<usize>)
        ensures
            match r {
                Some(i) => i < self.variables.len() && return_variable(self.variables@, container@)
                    == Some(self.variables[i as int]),
                None => return_variable(self.variables@, container@) is None,
            },
    {
        let n = self.variables.len();
        proof {
            assert(self.variables@.subrange(0, n as int) =~= self.variables@);
        }
        let mut i: usize = 0;
        while i < n
            invariant
                0 <= i <= n,
                n == self.variables.len(),
                return_variable(self.variables@, container@) == return_variable(
                    self.variables@.subrange(i as int, n as int),
                    container@,
                ),
            decreases n - i,
        {
            proof {
                assert(self.variables@.subrange(i as int, n as int).drop_first()
                    =~= self.variables@.subrange(i + 1, n as int));
            }
            if self.variables[i].container == *container && self.variables[i].kind
                == VariableKind::Return {
                return Some(i);
            }
            i += 1;
        }
        None
    }
}

} // verus!
