//! What code generation produces: global constants, function declarations,
//! local bindings and the instructions of a function body.
use vstd::prelude::*;
use crate::model::TargetType;
use crate::names::{initializer_name, initializer_name_spec};

verus! {

/// A hoisted global constant: the initial value of the variable or type it initializes.
/// Its name is the initializer name of `initializes`.
#[derive(Debug, PartialEq, Eq)]
pub struct GlobalConstant {
    pub initializes: String,
    pub data_type: String,
    pub value: i64,
    pub alignment: u32,
}

/// A target constant already propagated for a qualified variable name.
#[derive(Debug, PartialEq, Eq)]
pub struct InitialValue {
    pub qualified_name: String,
    pub value: i64,
}

/// A parameter of a function declaration.
#[derive(Debug, PartialEq, Eq)]
pub enum Param {
    /// Passed by value; `data_type` is the source type it was declared with.
    Value { data_type: String, ty: TargetType },
    /// A pointer to the instance struct of the named type.
    InstancePointer(String),
}

/// The signature of a generated function.
#[derive(Debug, PartialEq, Eq)]
pub struct FunctionType {
    pub params: Vec<Param>,
    pub return_type: Option<TargetType>,
    pub variadic: bool,
}

/// A function declaration without a body.
#[derive(Debug, PartialEq, Eq)]
pub struct FunctionDecl {
    pub name: String,
    pub ty: FunctionType,
}

/// The shared target tables that generation reads.
#[derive(Debug, PartialEq, Eq)]
pub struct TargetIndex {
    pub globals: Vec<GlobalConstant>,
    pub initial_values: Vec<InitialValue>,
    pub implementations: Vec<FunctionDecl>,
}

/// The addressable storage a variable is bound to.
#[derive(Clone, Copy, Debug, PartialEq, Eq, Structural)]
pub enum Slot {
    /// A fresh stack slot of the given type.
    Stack(TargetType),
    /// A fresh stack slot for the return value, named by the return-slot convention.
    ReturnSlot(TargetType),
    /// A fresh stack slot that receives the incoming argument at position `arg`.
    Argument { ty: TargetType, arg: usize },
    /// The field `field` of the instance struct passed at position `arg`.
    Field { arg: usize, field: usize },
}

/// A variable of a scope bound to its slot.
#[derive(Debug, PartialEq, Eq)]
pub struct LocalBinding {
    pub scope: String,
    pub name: String,
    pub data_type: String,
    pub slot: Slot,
}

/// The storage of a bound variable: its scope and name, and the slot it is bound to.
#[derive(Debug, PartialEq, Eq)]
pub struct Dest {
    pub scope: String,
    pub name: String,
    pub slot: Slot,
}

/// An instruction of a generated function body.
#[derive(Debug, PartialEq, Eq)]
pub enum Instr {
    /// Bulk copy of the global that initializes `source`.
    Memcpy { dest: Dest, source: String, align: u32, size: u64 },
    /// Zero fill.
    Memset { dest: Dest, size: u64 },
    /// Store of a constant value.
    Store { dest: Dest, value: i64 },
    /// Store of the type's canonical default value.
    StoreDefault { dest: Dest, ty: TargetType },
    /// The callable's own statements, generated by the statement generator.
    Body,
    /// Load of the value held by a variable's storage.
    Load(Dest),
    /// Return of the value just loaded.
    ReturnValue,
    /// Return without a value.
    ReturnVoid,
}

/// Why generation of a callable failed.
#[derive(Debug, PartialEq, Eq)]
pub enum Diagnostic {
    MissingStub { name: String, location: usize },
    CannotGenerateInitializer { qualified_name: String, location: usize },
    MissingFunctionArgument { location: usize },
    UnsupportedReturnType,
    MissingAssociatedType { name: String },
    UnknownTypeSize { location: usize },
    MissingReturnSlot { call_name: String },
}

/// The first global whose name is `name`.
pub open spec fn global_entry(gs: Seq<GlobalConstant>, name: Seq<char>) -> Option<GlobalConstant>
    decreases gs.len(),
{
    if gs.len() == 0 {
        None
    } else if initializer_name_spec(gs[0].initializes@) == name {
        Some(gs[0])
    } else {
        global_entry(gs.drop_first(), name)
    }
}

/// The first propagated initial value for `qualified_name`.
pub open spec fn initial_value_entry(vs: Seq<InitialValue>, qualified_name: Seq<char>) -> Option<
    InitialValue,
>
    decreases vs.len(),
{
    if vs.len() == 0 {
        None
    } else if vs[0].qualified_name@ == qualified_name {
        Some(vs[0])
    } else {
        initial_value_entry(vs.drop_first(), qualified_name)
    }
}

/// The first declaration named `name`.
pub open spec fn declaration_entry(ds: Seq<FunctionDecl>, name: Seq<char>) -> Option<FunctionDecl>
    decreases ds.len(),
{
    if ds.len() == 0 {
        None
    } else if ds[0].name@ == name {
        Some(ds[0])
    } else {
        declaration_entry(ds.drop_first(), name)
    }
}

/// The slot of the first binding of `name` in `scope`.
pub open spec fn binding_slot(bs: Seq<LocalBinding>, scope: Seq<char>, name: Seq<char>) -> Option<
    Slot,
>
    decreases bs.len(),
{
    if bs.len() == 0 {
        None
    } else if bs[0].scope@ == scope && bs[0].name@ == name {
        Some(bs[0].slot)
    } else {
        binding_slot(bs.drop_first(), scope, name)
    }
}

/// The position of the first global named `name`.
pub fn find_global(gs: &Vec<GlobalConstant>, name: &String) -> (r: Option<usize>)
    ensures
        match r {
            Some(i) => i < gs.len() && global_entry(gs@, name@) == Some(gs[i as int]),
            None => global_entry(gs@, name@) is None,
        },
{
    let n = gs.len();
    proof {
        assert(gs@.subrange(0, n as int) =~= gs@);
    }
    let mut i: usize = 0;
    while i < n
        invariant
            0 <= i <= n,
            n == gs.len(),
            global_entry(gs@, name@) == global_entry(gs@.subrange(i as int, n as int), name@),
        decreases n - i,
    {
        proof {
            assert(gs@.subrange(i as int, n as int).drop_first() =~= gs@.subrange(i + 1, n as int));
        }
        let candidate = initializer_name(gs[i].initializes.as_str());
        if candidate == *name {
            return Some(i);
        }
        i += 1;
    }
    None
}

/// The slot bound to `name` in `scope`, if any.
pub fn find_binding(bs: &Vec<LocalBinding>, scope: &String, name: &String) -> (r: Option<Slot>)
    ensures
        r == binding_slot(bs@, scope@, name@),
{
    let n = bs.len();
    proof {
        assert(bs@.subrange(0, n as int) =~= bs@);
    }
    let mut i: usize = 0;
    while i < n
        invariant
            0 <= i <= n,
            n == bs.len(),
            binding_slot(bs@, scope@, name@) == binding_slot(
                bs@.subrange(i as int, n as int),
                scope@,
                name@,
            ),
        decreases n - i,
    {
        proof {
            assert(bs@.subrange(i as int, n as int).drop_first() =~= bs@.subrange(i + 1, n as int));
        }
        if bs[i].scope == *scope && bs[i].name == *name {
            return Some(bs[i].slot);
        }
        i += 1;
    }
    None
}

impl TargetIndex {
    /// The propagated initial value for `qualified_name`, if any.
    pub fn find_associated_initial_value(&self, qualified_name: &String) -> (r: Option<i64>)
        ensures
            match initial_value_entry(self.initial_values@, qualified_name@) {
                Some(v) => r == Some(v.value),
                None => r is None,
            },
    {
        let n = self.initial_values.len();
        proof {
            assert(self.initial_values@.subrange(0, n as int) =~= self.initial_values@);
        }
        let mut i: usize = 0;
        while i < n
            invariant
                0 <= i <= n,
                n == self.initial_values.len(),
                initial_value_entry(self.initial_values@, qualified_name@) == initial_value_entry(
                    self.initial_values@.subrange(i as int, n as int),
                    qualified_name@,
                ),
            decreases n - i,
        {
            proof {
                assert(self.initial_values@.subrange(i as int, n as int).drop_first()
                    =~= self.initial_values@.subrange(i + 1, n as int));
            }
            if self.initial_values[i].qualified_name == *qualified_name {
                return Some(self.initial_values[i].value);
            }
            i += 1;
        }
        None
    }

    /// The position of the declaration generated for `name`, if any.
    pub fn find_associated_implementation(&self, name: &String) -> (r: Option<usize>)
        ensures
            match r {
                Some(i) => i < self.implementations.len() && declaration_entry(
                    self.implementations@,
                    name@,
                ) == Some(self.implementations[i as int]),
                None => declaration_entry(self.implementations@, name@) is None,
            },
    {
        let n = self.implementations.len();
        proof {
            assert(self.implementations@.subrange(0, n as int) =~= self.implementations@);
        }
        let mut i: usize = 0;
        while i < n
            invariant
                0 <= i <= n,
                n == self.implementations.len(),
                declaration_entry(self.implementations@, name@) == declaration_entry(
                    self.implementations@.subrange(i as int, n as int),
                    name@,
                ),
            decreases n - i,
        {
            proof {
                assert(self.implementations@.subrange(i as int, n as int).drop_first()
                    =~= self.implementations@.subrange(i + 1, n as int));
            }
            if self.implementations[i].name == *name {
                return Some(i);
            }
            i += 1;
        }
        None
    }
}

} // verus!
