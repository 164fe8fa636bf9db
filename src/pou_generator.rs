//! Generation of declarations and bodies for the callable units of a program.
use vstd::prelude::*;
use crate::model::{
    is_initialized_kind, is_parameter, members_of, pou_entry, return_variable,
    temp_members, temps_of, type_entry, constant_entry, Implementation, ImplementationEntry,
    ImplementationType, Index, PouType, TargetType, TypeCategory, TypeNature, VariableEntry, VariableKind,
};
use crate::names::{initializer_name, initializer_name_spec};
use crate::target::{
    binding_slot, declaration_entry, find_binding, find_global, global_entry,
    initial_value_entry, Diagnostic, FunctionDecl, FunctionType, GlobalConstant, Instr,
    LocalBinding, Param, Slot, TargetIndex, Dest,
};

verus! {

/// Generates declarations and bodies against a symbol index and the shared target tables.
pub struct PouGenerator<'cg> {
    pub index: &'cg Index,
    pub target: &'cg TargetIndex,
}

/// The associated target type of `name`.
pub open spec fn associated_type(idx: Index, name: String) -> Result<TargetType, Diagnostic> {
    match type_entry(idx.types@, name@) {
        Some(t) => Ok(t.target),
        None => Err(Diagnostic::MissingAssociatedType { name }),
    }
}

/// One by-value parameter per parameter-kind member, in order.
pub open spec fn function_params(idx: Index, ms: Seq<VariableEntry>) -> Result<Seq<Param>, Diagnostic>
    decreases ms.len(),
{
    if ms.len() == 0 {
        Ok(Seq::empty())
    } else {
        match function_params(idx, ms.drop_last()) {
            Err(e) => Err(e),
            Ok(ps) => if is_parameter(ms.last().kind) {
                match associated_type(idx, ms.last().data_type) {
                    Ok(t) => Ok(ps.push(Param::Value { data_type: ms.last().data_type, ty: t })),
                    Err(e) => Err(e),
                }
            } else {
                Ok(ps)
            },
        }
    }
}

/// A pointer to the instance struct of `name`, which must have an associated type.
pub open spec fn instance_pointer(idx: Index, name: String) -> Result<Param, Diagnostic> {
    match associated_type(idx, name) {
        Ok(_) => Ok(Param::InstancePointer(name)),
        Err(e) => Err(e),
    }
}

/// The parameter list of an implementation, by its kind.
pub open spec fn parameters_of(idx: Index, imp: ImplementationEntry) -> Result<Seq<Param>, Diagnostic> {
    if imp.implementation_type == ImplementationType::Function {
        function_params(idx, members_of(idx.variables@, imp.call_name@))
    } else {
        let outer: Result<Seq<Param>, Diagnostic> = if imp.implementation_type
            == ImplementationType::Method {
            match instance_pointer(idx, imp.associated_class->Some_0) {
                Ok(p) => Ok(seq![p]),
                Err(e) => Err(e),
            }
        } else {
            Ok(Seq::empty())
        };
        match outer {
            Err(e) => Err(e),
            Ok(ps) => match instance_pointer(idx, imp.owner_type) {
                Ok(p) => Ok(ps.push(p)),
                Err(e) => Err(e),
            },
        }
    }
}

/// Whether a function may return a value of this type.
pub open spec fn supported_return(rt: Option<TargetType>) -> bool {
    match rt {
        Some(t) => t.category != TypeCategory::Vector,
        None => true,
    }
}

/// The return type of the callable `owner`: its return variable's type, if it has one.
pub open spec fn return_type_of(idx: Index, owner: String) -> Result<Option<TargetType>, Diagnostic> {
    match return_variable(idx.variables@, owner@) {
        Some(v) => match associated_type(idx, v.data_type) {
            Ok(t) => Ok(Some(t)),
            Err(e) => Err(e),
        },
        None => Ok(None),
    }
}

pub open spec fn variadic_of(idx: Index, owner: String) -> bool {
    match pou_entry(idx.pous@, owner@) {
        Some(p) => p.is_variadic,
        None => false,
    }
}

/// A declaration as plain values: name, parameters, return type, variadic flag.
pub type DeclView = (String, Seq<Param>, Option<TargetType>, bool);

pub open spec fn decl_view(d: FunctionDecl) -> DeclView {
    (d.name, d.ty.params@, d.ty.return_type, d.ty.variadic)
}

/// The declaration generated for an implementation.
pub open spec fn stub_of(idx: Index, imp: ImplementationEntry) -> Result<DeclView, Diagnostic> {
    match parameters_of(idx, imp) {
        Err(e) => Err(e),
        Ok(ps) => match return_type_of(idx, imp.owner_type) {
            Err(e) => Err(e),
            Ok(rt) => if supported_return(rt) {
                Ok((imp.call_name, ps, rt, variadic_of(idx, imp.owner_type)))
            } else {
                Err(Diagnostic::UnsupportedReturnType)
            },
        },
    }
}

/// Whether an implementation gets a declaration: its POU is known and not generic.
pub open spec fn is_concrete(idx: Index, imp: ImplementationEntry) -> bool {
    match pou_entry(idx.pous@, imp.call_name@) {
        Some(p) => !p.is_generic,
        None => false,
    }
}

/// The declarations of all concrete implementations, in order.
pub open spec fn stubs_of(idx: Index, imps: Seq<ImplementationEntry>) -> Result<Seq<DeclView>, Diagnostic>
    decreases imps.len(),
{
    if imps.len() == 0 {
        Ok(Seq::empty())
    } else {
        match stubs_of(idx, imps.drop_last()) {
            Err(e) => Err(e),
            Ok(ds) => if is_concrete(idx, imps.last()) {
                match stub_of(idx, imps.last()) {
                    Ok(d) => Ok(ds.push(d)),
                    Err(e) => Err(e),
                }
            } else {
                Ok(ds)
            },
        }
    }
}

/// Once a prefix of the members fails, the whole list fails the same way.
proof fn lemma_function_params_prefix_err(idx: Index, ms: Seq<VariableEntry>, k: int)
    requires
        0 <= k <= ms.len(),
        function_params(idx, ms.subrange(0, k)) is Err,
    ensures
        function_params(idx, ms) == function_params(idx, ms.subrange(0, k)),
    decreases ms.len() - k,
{
    if k < ms.len() {
        assert(ms.subrange(0, k + 1).drop_last() =~= ms.subrange(0, k));
        lemma_function_params_prefix_err(idx, ms, k + 1);
    } else {
        assert(ms.subrange(0, k) =~= ms);
    }
}

/// Once a prefix of the implementations fails, the whole list fails the same way.
proof fn lemma_stubs_prefix_err(idx: Index, imps: Seq<ImplementationEntry>, k: int)
    requires
        0 <= k <= imps.len(),
        stubs_of(idx, imps.subrange(0, k)) is Err,
    ensures
        stubs_of(idx, imps) == stubs_of(idx, imps.subrange(0, k)),
    decreases imps.len() - k,
{
    if k < imps.len() {
        assert(imps.subrange(0, k + 1).drop_last() =~= imps.subrange(0, k));
        lemma_stubs_prefix_err(idx, imps, k + 1);
    } else {
        assert(imps.subrange(0, k) =~= imps);
    }
}

pub open spec fn method_has_class(imp: ImplementationEntry) -> bool {
    imp.implementation_type == ImplementationType::Method ==> imp.associated_class is Some
}

/// The number of parameter-kind members.
pub open spec fn count_params(ms: Seq<VariableEntry>) -> nat
    decreases ms.len(),
{
    if ms.len() == 0 {
        0
    } else {
        count_params(ms.drop_last()) + if is_parameter(ms.last().kind) {
            1nat
        } else {
            0nat
        }
    }
}

/// The number of members that are fields of the instance struct (not Temp, not Return).
pub open spec fn count_fields(ms: Seq<VariableEntry>) -> nat
    decreases ms.len(),
{
    if ms.len() == 0 {
        0
    } else {
        count_fields(ms.drop_last()) + if is_field_kind(ms.last().kind) {
            1nat
        } else {
            0nat
        }
    }
}

pub open spec fn is_field_kind(k: VariableKind) -> bool {
    k != VariableKind::Temp && k != VariableKind::Return
}

pub open spec fn stack_slot(idx: Index, m: VariableEntry) -> Result<Slot, Diagnostic> {
    match associated_type(idx, m.data_type) {
        Ok(t) => Ok(Slot::Stack(t)),
        Err(e) => Err(e),
    }
}

/// The slot of a function member; `arg` is the number of parameters before it.
pub open spec fn function_binding(idx: Index, m: VariableEntry, arg: nat, param_count: nat) -> Result<
    Slot,
    Diagnostic,
> {
    if m.kind == VariableKind::Return {
        match associated_type(idx, m.data_type) {
            Ok(t) => Ok(Slot::ReturnSlot(t)),
            Err(e) => Err(e),
        }
    } else if is_parameter(m.kind) {
        if arg >= param_count {
            Err(Diagnostic::MissingFunctionArgument { location: m.location })
        } else {
            match associated_type(idx, m.data_type) {
                Ok(t) => Ok(Slot::Argument { ty: t, arg: arg as usize }),
                Err(e) => Err(e),
            }
        }
    } else {
        stack_slot(idx, m)
    }
}

/// The bindings of a function's members, in order.
pub open spec fn function_bindings(
    idx: Index,
    scope: String,
    ms: Seq<VariableEntry>,
    param_count: nat,
) -> Result<Seq<LocalBinding>, Diagnostic>
    decreases ms.len(),
{
    if ms.len() == 0 {
        Ok(Seq::empty())
    } else {
        match function_bindings(idx, scope, ms.drop_last(), param_count) {
            Err(e) => Err(e),
            Ok(bs) => match function_binding(
                idx,
                ms.last(),
                count_params(ms.drop_last()),
                param_count,
            ) {
                Ok(s) => Ok(
                    bs.push(
                        LocalBinding {
                            scope,
                            name: ms.last().name,
                            data_type: ms.last().data_type,
                            slot: s,
                        },
                    ),
                ),
                Err(e) => Err(e),
            },
        }
    }
}

/// The slot of a member of a struct-instance callable; `field` is the number of
/// instance-struct fields before it.
pub open spec fn struct_binding(
    idx: Index,
    m: VariableEntry,
    field: nat,
    arg: nat,
    param_count: nat,
) -> Result<Slot, Diagnostic> {
    if !is_field_kind(m.kind) {
        stack_slot(idx, m)
    } else if arg >= param_count {
        Err(Diagnostic::MissingFunctionArgument { location: m.location })
    } else {
        Ok(Slot::Field { arg: arg as usize, field: field as usize })
    }
}

/// The bindings of the members of a struct-instance callable, in order.
pub open spec fn struct_bindings(
    idx: Index,
    scope: String,
    ms: Seq<VariableEntry>,
    arg: nat,
    param_count: nat,
) -> Result<Seq<LocalBinding>, Diagnostic>
    decreases ms.len(),
{
    if ms.len() == 0 {
        Ok(Seq::empty())
    } else {
        match struct_bindings(idx, scope, ms.drop_last(), arg, param_count) {
            Err(e) => Err(e),
            Ok(bs) => match struct_binding(
                idx,
                ms.last(),
                count_fields(ms.drop_last()),
                arg,
                param_count,
            ) {
                Ok(s) => Ok(
                    bs.push(
                        LocalBinding {
                            scope,
                            name: ms.last().name,
                            data_type: ms.last().data_type,
                            slot: s,
                        },
                    ),
                ),
                Err(e) => Err(e),
            },
        }
    }
}

pub open spec fn cannot_init(v: VariableEntry) -> Diagnostic {
    Diagnostic::CannotGenerateInitializer { qualified_name: v.qualified_name, location: v.location }
}

/// The constant a variable's initial value resolves to, if it has one.
pub open spec fn initial_statement(idx: Index, v: VariableEntry) -> Result<Option<i64>, Diagnostic> {
    match v.initial_value {
        Some(id) => match constant_entry(idx.constants@, id) {
            Some(c) => Ok(Some(c.value)),
            None => Err(cannot_init(v)),
        },
        None => Ok(None),
    }
}

/// The hoisted global for the variable itself or, failing that, for its type.
pub open spec fn initializer_global(target: TargetIndex, v: VariableEntry) -> Option<GlobalConstant> {
    match global_entry(target.globals@, initializer_name_spec(v.qualified_name@)) {
        Some(g) => Some(g),
        None => global_entry(target.globals@, initializer_name_spec(v.data_type@)),
    }
}

pub open spec fn type_size(idx: Index, v: VariableEntry) -> Option<u64> {
    match type_entry(idx.types@, v.data_type@) {
        Some(t) => t.target.size,
        None => None,
    }
}

pub open spec fn is_array_variable(idx: Index, v: VariableEntry) -> bool {
    match type_entry(idx.types@, v.data_type@) {
        Some(t) => t.target.category == TypeCategory::Array,
        None => false,
    }
}

/// The storage of `v` bound to `slot`.
pub open spec fn dest_of(v: VariableEntry, slot: Slot) -> Dest {
    Dest { scope: v.container, name: v.name, slot }
}

pub open spec fn copy_alignment(g: GlobalConstant) -> u32 {
    if g.alignment > 1 {
        g.alignment
    } else {
        1
    }
}

/// How a bound variable is initialized: a copy of a hoisted global, a zero fill
/// of an array, a store of its constant initializer, or a store of its type's default.
pub open spec fn initialization(idx: Index, target: TargetIndex, v: VariableEntry, left: Slot) -> Result<
    Instr,
    Diagnostic,
> {
    match initial_statement(idx, v) {
        Err(e) => Err(e),
        Ok(right) => match initializer_global(target, v) {
            Some(g) => match type_size(idx, v) {
                Some(size) => Ok(
                    Instr::Memcpy {
                        dest: dest_of(v, left),
                        source: g.initializes,
                        align: copy_alignment(g),
                        size,
                    },
                ),
                None => Err(Diagnostic::UnknownTypeSize { location: v.location }),
            },
            None => if is_array_variable(idx, v) {
                match type_size(idx, v) {
                    Some(size) => Ok(Instr::Memset { dest: dest_of(v, left), size }),
                    None => Err(Diagnostic::UnknownTypeSize { location: v.location }),
                }
            } else {
                match right {
                    Some(value) => Ok(Instr::Store { dest: dest_of(v, left), value }),
                    None => match type_entry(idx.types@, v.data_type@) {
                        Some(t) => Ok(Instr::StoreDefault { dest: dest_of(v, left), ty: t.target }),
                        None => Err(cannot_init(v)),
                    },
                }
            },
        },
    }
}

/// The initialization of one variable: none for parameters, which callers initialize.
pub open spec fn initialization_of(
    idx: Index,
    target: TargetIndex,
    bs: Seq<LocalBinding>,
    v: VariableEntry,
) -> Result<Option<Instr>, Diagnostic> {
    if !is_initialized_kind(v.kind) {
        Ok(None)
    } else {
        match binding_slot(bs, v.container@, v.name@) {
            None => Err(cannot_init(v)),
            Some(left) => match initialization(idx, target, v, left) {
                Ok(i) => Ok(Some(i)),
                Err(e) => Err(e),
            },
        }
    }
}

/// The initialization instructions of a list of variables, in order.
pub open spec fn initializations(
    idx: Index,
    target: TargetIndex,
    bs: Seq<LocalBinding>,
    vs: Seq<VariableEntry>,
) -> Result<Seq<Instr>, Diagnostic>
    decreases vs.len(),
{
    if vs.len() == 0 {
        Ok(Seq::empty())
    } else {
        match initializations(idx, target, bs, vs.drop_last()) {
            Err(e) => Err(e),
            Ok(is) => match initialization_of(idx, target, bs, vs.last()) {
                Ok(Some(i)) => Ok(is.push(i)),
                Ok(None) => Ok(is),
                Err(e) => Err(e),
            },
        }
    }
}

/// The type and call name a body is generated for.
pub struct FunctionContext {
    pub owner_type: String,
    pub call_name: String,
}

/// The epilogue: load and return the return variable's slot, or return nothing.
pub open spec fn return_instrs(idx: Index, bs: Seq<LocalBinding>, ctx: FunctionContext) -> Result<
    Seq<Instr>,
    Diagnostic,
> {
    match return_variable(idx.variables@, ctx.owner_type@) {
        Some(v) => match binding_slot(bs, v.container@, v.name@) {
            Some(s) => Ok(seq![Instr::Load(dest_of(v, s)), Instr::ReturnValue]),
            None => Err(Diagnostic::MissingReturnSlot { call_name: ctx.call_name }),
        },
        None => Ok(seq![Instr::ReturnVoid]),
    }
}

proof fn lemma_function_bindings_prefix_err(
    idx: Index,
    scope: String,
    ms: Seq<VariableEntry>,
    pc: nat,
    k: int,
)
    requires
        0 <= k <= ms.len(),
        function_bindings(idx, scope, ms.subrange(0, k), pc) is Err,
    ensures
        function_bindings(idx, scope, ms, pc) == function_bindings(idx, scope, ms.subrange(0, k), pc),
    decreases ms.len() - k,
{
    if k < ms.len() {
        assert(ms.subrange(0, k + 1).drop_last() =~= ms.subrange(0, k));
        lemma_function_bindings_prefix_err(idx, scope, ms, pc, k + 1);
    } else {
        assert(ms.subrange(0, k) =~= ms);
    }
}

proof fn lemma_struct_bindings_prefix_err(
    idx: Index,
    scope: String,
    ms: Seq<VariableEntry>,
    arg: nat,
    pc: nat,
    k: int,
)
    requires
        0 <= k <= ms.len(),
        struct_bindings(idx, scope, ms.subrange(0, k), arg, pc) is Err,
    ensures
        struct_bindings(idx, scope, ms, arg, pc) == struct_bindings(
            idx,
            scope,
            ms.subrange(0, k),
            arg,
            pc,
        ),
    decreases ms.len() - k,
{
    if k < ms.len() {
        assert(ms.subrange(0, k + 1).drop_last() =~= ms.subrange(0, k));
        lemma_struct_bindings_prefix_err(idx, scope, ms, arg, pc, k + 1);
    } else {
        assert(ms.subrange(0, k) =~= ms);
    }
}

proof fn lemma_initializations_prefix_err(
    idx: Index,
    target: TargetIndex,
    bs: Seq<LocalBinding>,
    vs: Seq<VariableEntry>,
    k: int,
)
    requires
        0 <= k <= vs.len(),
        initializations(idx, target, bs, vs.subrange(0, k)) is Err,
    ensures
        initializations(idx, target, bs, vs) == initializations(idx, target, bs, vs.subrange(0, k)),
    decreases vs.len() - k,
{
    if k < vs.len() {
        assert(vs.subrange(0, k + 1).drop_last() =~= vs.subrange(0, k));
        lemma_initializations_prefix_err(idx, target, bs, vs, k + 1);
    } else {
        assert(vs.subrange(0, k) =~= vs);
    }
}

/// The generated body of one callable.
#[derive(Debug, PartialEq, Eq)]
pub struct FunctionBody {
    pub name: String,
    pub bindings: Vec<LocalBinding>,
    pub instrs: Vec<Instr>,
}

pub open spec fn context_of(imp: Implementation) -> FunctionContext {
    FunctionContext { owner_type: imp.owner_type, call_name: imp.name }
}

/// The bindings of a method's enclosing class, bound first through argument 0.
pub open spec fn class_bindings(idx: Index, imp: Implementation, param_count: nat) -> Result<
    Seq<LocalBinding>,
    Diagnostic,
> {
    match imp.pou_type {
        PouType::Method { owner } => struct_bindings(
            idx,
            owner,
            members_of(idx.variables@, owner@),
            0,
            param_count,
        ),
        _ => Ok(Seq::empty()),
    }
}

/// The bindings of the callable's own members.
pub open spec fn own_bindings(idx: Index, imp: Implementation, param_count: nat) -> Result<
    Seq<LocalBinding>,
    Diagnostic,
> {
    let members = members_of(idx.variables@, imp.owner_type@);
    match imp.pou_type {
        PouType::Function => function_bindings(idx, imp.owner_type, members, param_count),
        PouType::Method { .. } => struct_bindings(idx, imp.owner_type, members, 1, param_count),
        _ => struct_bindings(idx, imp.owner_type, members, 0, param_count),
    }
}

/// The variables initialized on entry: all members of functions and methods, only
/// the Temp members of programs, function blocks and actions.
pub open spec fn initialized_members(idx: Index, imp: Implementation) -> Seq<VariableEntry> {
    let members = members_of(idx.variables@, imp.owner_type@);
    match imp.pou_type {
        PouType::Function => members,
        PouType::Method { .. } => members,
        _ => temps_of(members),
    }
}

/// The bindings and instructions generated for a callable: its stub must exist;
/// then its members are bound, initialized, its statements emitted, and its return.
pub open spec fn implementation_plan(idx: Index, target: TargetIndex, imp: Implementation) -> Result<
    (Seq<LocalBinding>, Seq<Instr>),
    Diagnostic,
> {
    match declaration_entry(target.implementations@, imp.name@) {
        None => Err(Diagnostic::MissingStub { name: imp.name, location: imp.location }),
        Some(d) => {
            let n = d.ty.params.len() as nat;
            match class_bindings(idx, imp, n) {
                Err(e) => Err(e),
                Ok(cb) => match own_bindings(idx, imp, n) {
                    Err(e) => Err(e),
                    Ok(ob) => {
                        let bs = cb + ob;
                        match initializations(idx, target, bs, initialized_members(idx, imp)) {
                            Err(e) => Err(e),
                            Ok(is) => match return_instrs(idx, bs, context_of(imp)) {
                                Err(e) => Err(e),
                                Ok(ret) => Ok((bs, is + seq![Instr::Body] + ret)),
                            },
                        }
                    },
                },
            }
        },
    }
}

/// A Local or Temp member whose type is a struct, an array or a string.
pub open spec fn is_hoist_candidate(idx: Index, v: VariableEntry) -> bool {
    (v.kind == VariableKind::Local || v.kind == VariableKind::Temp) && match type_entry(
        idx.types@,
        v.data_type@,
    ) {
        Some(t) => t.nature != TypeNature::Scalar,
        None => false,
    }
}

/// The global hoisted for a variable with constant value `c`: the propagated
/// initial value where one exists, else the constant itself.
pub open spec fn hoisted_global(target: TargetIndex, v: VariableEntry, c: i64) -> GlobalConstant {
    let value = match initial_value_entry(target.initial_values@, v.qualified_name@) {
        Some(iv) => iv.value,
        None => c,
    };
    GlobalConstant { initializes: v.qualified_name, data_type: v.data_type, value, alignment: 0 }
}

/// Hoisting one variable after the globals `acc`: a candidate with a constant
/// initializer gets a global under its initializer name, unless one exists already.
pub open spec fn hoist_step(
    idx: Index,
    target: TargetIndex,
    acc: Seq<GlobalConstant>,
    v: VariableEntry,
) -> Result<Seq<GlobalConstant>, Diagnostic> {
    if !is_hoist_candidate(idx, v) {
        Ok(acc)
    } else {
        match v.initial_value {
            None => Ok(acc),
            Some(id) => match constant_entry(idx.constants@, id) {
                None => Err(cannot_init(v)),
                Some(c) => {
                    let name = initializer_name_spec(v.qualified_name@);
                    if global_entry(target.globals@, name) is Some || global_entry(acc, name) is Some {
                        Ok(acc)
                    } else {
                        Ok(acc.push(hoisted_global(target, v, c.value)))
                    }
                },
            },
        }
    }
}

/// Hoisting the variables `ms` in order after the globals `acc`.
pub open spec fn hoisted_members(
    idx: Index,
    target: TargetIndex,
    acc: Seq<GlobalConstant>,
    ms: Seq<VariableEntry>,
) -> Result<Seq<GlobalConstant>, Diagnostic>
    decreases ms.len(),
{
    if ms.len() == 0 {
        Ok(acc)
    } else {
        match hoist_step(idx, target, acc, ms[0]) {
            Err(e) => Err(e),
            Ok(a) => hoisted_members(idx, target, a, ms.drop_first()),
        }
    }
}

/// Hoisting the members of each implementation in order after the globals `acc`.
pub open spec fn hoisted_all(
    idx: Index,
    target: TargetIndex,
    acc: Seq<GlobalConstant>,
    imps: Seq<ImplementationEntry>,
) -> Result<Seq<GlobalConstant>, Diagnostic>
    decreases imps.len(),
{
    if imps.len() == 0 {
        Ok(acc)
    } else {
        match hoisted_members(idx, target, acc, members_of(idx.variables@, imps[0].owner_type@)) {
            Err(e) => Err(e),
            Ok(a) => hoisted_all(idx, target, a, imps.drop_first()),
        }
    }
}

fn hoist_pou_members(
    index: &Index,
    target: &TargetIndex,
    acc: &mut Vec<GlobalConstant>,
    members: &Vec<VariableEntry>,
) -> (r: Result<(), Diagnostic>)
    ensures
        match hoisted_members(*index, *target, old(acc)@, members@) {
            Ok(a) => r is Ok && final(acc)@ == a,
            Err(e) => r == Err::<(), Diagnostic>(e),
        },
{
    let n = members.len();
    proof {
        assert(members@.subrange(0, n as int) =~= members@);
    }
    let mut i: usize = 0;
    while i < n
        invariant
            0 <= i <= n,
            n == members.len(),
            hoisted_members(*index, *target, old(acc)@, members@) == hoisted_members(
                *index,
                *target,
                acc@,
                members@.subrange(i as int, n as int),
            ),
        decreases n - i,
    {
        let v = &members[i];
        proof {
            assert(members@.subrange(i as int, n as int).drop_first() =~= members@.subrange(
                i + 1,
                n as int,
            ));
            assert(members@.subrange(i as int, n as int)[0] == *v);
        }
        if v.kind == VariableKind::Local || v.kind == VariableKind::Temp {
            match index.find_type(&v.data_type) {
                Some(t) => {
                    if index.types[t].nature != TypeNature::Scalar {
                        match v.initial_value {
                            Some(id) => match index.maybe_get_constant(id) {
                                Some(c) => {
                                    let name = initializer_name(v.qualified_name.as_str());
                                    let existing = match find_global(&target.globals, &name) {
                                        Some(g) => Some(g),
                                        None => find_global(acc, &name),
                                    };
                                    if existing.is_none() {
                                        let value = match target.find_associated_initial_value(
                                            &v.qualified_name,
                                        ) {
                                            Some(x) => x,
                                            None => c,
                                        };
                                        acc.push(
                                            GlobalConstant {
                                                initializes: v.qualified_name.clone(),
                                                data_type: v.data_type.clone(),
                                                value,
                                                alignment: 0,
                                            },
                                        );
                                    }
                                },
                                None => {
                                    return Err(
                                        Diagnostic::CannotGenerateInitializer {
                                            qualified_name: v.qualified_name.clone(),
                                            location: v.location,
                                        },
                                    );
                                },
                            },
                            None => {},
                        }
                    }
                },
                None => {},
            }
        }
        i += 1;
    }
    Ok(())
}

/// Hoists the constant initial value of every struct, array or string member of
/// every implementation into a global, once per initializer name, and returns the
/// new globals.
pub fn generate_global_constants_for_pou_members(index: &Index, target: &TargetIndex) -> (r: Result<
    Vec<GlobalConstant>,
    Diagnostic,
>)
    ensures
        match hoisted_all(*index, *target, Seq::empty(), index.implementations@) {
            Ok(gs) => r is Ok && r->Ok_0@ == gs,
            Err(e) => r == Err::<Vec<GlobalConstant>, Diagnostic>(e),
        },
{
    let mut acc: Vec<GlobalConstant> = Vec::new();
    let n = index.implementations.len();
    proof {
        assert(index.implementations@.subrange(0, n as int) =~= index.implementations@);
        assert(acc@ =~= Seq::<GlobalConstant>::empty());
    }
    let mut i: usize = 0;
    while i < n
        invariant
            0 <= i <= n,
            n == index.implementations.len(),
            hoisted_all(*index, *target, Seq::empty(), index.implementations@) == hoisted_all(
                *index,
                *target,
                acc@,
                index.implementations@.subrange(i as int, n as int),
            ),
        decreases n - i,
    {
        proof {
            assert(index.implementations@.subrange(i as int, n as int).drop_first()
                =~= index.implementations@.subrange(i + 1, n as int));
        }
        let members = index.get_container_members(&index.implementations[i].owner_type);
        hoist_pou_members(index, target, &mut acc, &members)?;
        i += 1;
    }
    Ok(acc)
}

/// Creates a declaration for every implementation whose POU is known and not generic.
pub fn generate_implementation_stubs(index: &Index, target: &TargetIndex) -> (r: Result<
    Vec<FunctionDecl>,
    Diagnostic,
>)
    requires
        forall|i: int| 0 <= i < index.implementations.len() ==> method_has_class(
            #[trigger] index.implementations[i],
        ),
    ensures
        match r {
            Ok(ds) => stubs_of(*index, index.implementations@) == Ok::<Seq<DeclView>, Diagnostic>(
                ds@.map_values(|d: FunctionDecl| decl_view(d)),
            ),
            Err(e) => stubs_of(*index, index.implementations@) == Err::<Seq<DeclView>, Diagnostic>(e),
        },
{
    let generator = PouGenerator::new(index, target);
    let mut ds: Vec<FunctionDecl> = Vec::new();
    let n = index.implementations.len();
    proof {
        assert(ds@.map_values(|d: FunctionDecl| decl_view(d)) =~= Seq::<DeclView>::empty());
    }
    let mut i: usize = 0;
    while i < n
        invariant
            0 <= i <= n,
            n == index.implementations.len(),
            generator.index == index,
            forall|k: int| 0 <= k < index.implementations.len() ==> method_has_class(
                #[trigger] index.implementations[k],
            ),
            stubs_of(*index, index.implementations@.subrange(0, i as int)) == Ok::<
                Seq<DeclView>,
                Diagnostic,
            >(ds@.map_values(|d: FunctionDecl| decl_view(d))),
        decreases n - i,
    {
        let imp = &index.implementations[i];
        proof {
            assert(index.implementations@.subrange(0, i + 1).drop_last()
                =~= index.implementations@.subrange(0, i as int));
            assert(index.implementations@.subrange(0, i + 1).last() == *imp);
        }
        match index.find_pou(&imp.call_name) {
            Some(p) => {
                if !index.pous[p].is_generic {
                    let d = match generator.generate_implementation_stub(imp) {
                        Ok(d) => d,
                        Err(e) => {
                            proof {
                                lemma_stubs_prefix_err(*index, index.implementations@, i + 1);
                            }
                            return Err(e);
                        },
                    };
                    let ghost before = ds@;
                    ds.push(d);
                    proof {
                        assert(ds@.map_values(|d: FunctionDecl| decl_view(d)) =~= before.map_values(
                            |d: FunctionDecl| decl_view(d),
                        ).push(decl_view(d)));
                    }
                }
            },
            None => {},
        }
        i += 1;
    }
    proof {
        assert(index.implementations@.subrange(0, n as int) =~= index.implementations@);
    }
    Ok(ds)
}

impl<'cg> PouGenerator<'cg> {
    /// Creates a generator over a symbol index and the shared target tables.
    pub fn new(index: &'cg Index, target: &'cg TargetIndex) -> (r: PouGenerator<'cg>)
        ensures
            r.index == index,
            r.target == target,
    {
        PouGenerator { index, target }
    }

    /// The associated target type of `name`.
    pub fn get_associated_type(&self, name: &String) -> (r: Result<TargetType, Diagnostic>)
        ensures
            r == associated_type(*self.index, *name),
    {
        match self.index.find_type(name) {
            Some(i) => Ok(self.index.types[i].target),
            None => Err(Diagnostic::MissingAssociatedType { name: name.clone() }),
        }
    }

    fn instance_pointer(&self, name: &String) -> (r: Result<Param, Diagnostic>)
        ensures
            r == instance_pointer(*self.index, *name),
    {
        let _ = self.get_associated_type(name)?;
        Ok(Param::InstancePointer(name.clone()))
    }

    /// Creates the parameters of an implementation: one by-value parameter per
    /// parameter-kind member for functions, instance-struct pointers otherwise.
    fn create_parameters_for_implementation(&self, implementation: &ImplementationEntry) -> (r:
        Result<Vec<Param>, Diagnostic>)
        requires
            method_has_class(*implementation),
        ensures
            match r {
                Ok(ps) => parameters_of(*self.index, *implementation) == Ok::<
                    Seq<Param>,
                    Diagnostic,
                >(ps@),
                Err(e) => parameters_of(*self.index, *implementation) == Err::<
                    Seq<Param>,
                    Diagnostic,
                >(e),
            },
    {
        if implementation.implementation_type != ImplementationType::Function {
            let mut parameters: Vec<Param> = Vec::new();
            if implementation.implementation_type == ImplementationType::Method {
                let class_name = match &implementation.associated_class {
                    Some(c) => c,
                    None => unreached(),
                };
                let p = self.instance_pointer(class_name)?;
                parameters.push(p);
                proof {
                    assert(parameters@ =~= seq![p]);
                }
            }
            let p = self.instance_pointer(&implementation.owner_type)?;
            parameters.push(p);
            Ok(parameters)
        } else {
            let members = self.index.get_container_members(&implementation.call_name);
            let mut parameters: Vec<Param> = Vec::new();
            let mut i: usize = 0;
            while i < members.len()
                invariant
                    0 <= i <= members.len(),
                    implementation.implementation_type == ImplementationType::Function,
                    members@ == members_of(self.index.variables@, implementation.call_name@),
                    function_params(*self.index, members@.subrange(0, i as int)) == Ok::<
                        Seq<Param>,
                        Diagnostic,
                    >(parameters@),
                decreases members.len() - i,
            {
                proof {
                    assert(members@.subrange(0, i + 1).drop_last() =~= members@.subrange(
                        0,
                        i as int,
                    ));
                }
                let m = &members[i];
                if m.kind == VariableKind::Input || m.kind == VariableKind::Output || m.kind
                    == VariableKind::InOut {
                    let t = match self.get_associated_type(&m.data_type) {
                        Ok(t) => t,
                        Err(e) => {
                            proof {
                                assert(members@.subrange(0, i + 1).last() == *m);
                                assert(function_params(*self.index, members@.subrange(0, i + 1))
                                    == Err::<Seq<Param>, Diagnostic>(e));
                                lemma_function_params_prefix_err(*self.index, members@, i + 1);
                            }
                            return Err(e);
                        },
                    };
                    parameters.push(Param::Value { data_type: m.data_type.clone(), ty: t });
                }
                i += 1;
            }
            proof {
                assert(members@.subrange(0, members.len() as int) =~= members@);
            }
            Ok(parameters)
        }
    }

    /// Creates a function type with the given parameters and return type.
    fn create_llvm_function_type(
        &self,
        parameters: Vec<Param>,
        is_var_args: bool,
        return_type: Option<TargetType>,
    ) -> (r: Result<FunctionType, Diagnostic>)
        ensures
            match r {
                Ok(f) => supported_return(return_type) && f.params@ == parameters@ && f.return_type
                    == return_type && f.variadic == is_var_args,
                Err(e) => !supported_return(return_type) && e == Diagnostic::UnsupportedReturnType,
            },
    {
        match return_type {
            Some(t) => {
                if t.category == TypeCategory::Vector {
                    return Err(Diagnostic::UnsupportedReturnType);
                }
            },
            None => {},
        }
        Ok(FunctionType { params: parameters, return_type, variadic: is_var_args })
    }

    /// Generates the declaration of an implementation, with its parameters and return type.
    pub fn generate_implementation_stub(&self, implementation: &ImplementationEntry) -> (r: Result<
        FunctionDecl,
        Diagnostic,
    >)
        requires
            method_has_class(*implementation),
        ensures
            match r {
                Ok(d) => stub_of(*self.index, *implementation) == Ok::<DeclView, Diagnostic>(
                    decl_view(d),
                ),
                Err(e) => stub_of(*self.index, *implementation) == Err::<DeclView, Diagnostic>(e),
            },
    {
        let parameters = self.create_parameters_for_implementation(implementation)?;
        let return_type = match self.index.find_return_variable(&implementation.owner_type) {
            Some(v) => Some(self.get_associated_type(&self.index.variables[v].data_type)?),
            None => None,
        };
        let variadic = match self.index.find_pou(&implementation.owner_type) {
            Some(p) => self.index.pous[p].is_variadic,
            None => false,
        };
        let ty = self.create_llvm_function_type(parameters, variadic, return_type)?;
        Ok(FunctionDecl { name: implementation.call_name.clone(), ty })
    }
}

impl<'cg> PouGenerator<'cg> {
    fn stack_slot(&self, m: &VariableEntry) -> (r: Result<Slot, Diagnostic>)
        ensures
            r == stack_slot(*self.index, *m),
    {
        let t = self.get_associated_type(&m.data_type)?;
        Ok(Slot::Stack(t))
    }

    /// Binds the members of a function: the return variable to a fresh return slot,
    /// each parameter to a fresh slot that receives the next incoming argument, and
    /// every other member to a fresh slot.
    fn generate_local_function_arguments_accessors(
        &self,
        bindings: &mut Vec<LocalBinding>,
        scope: &String,
        param_count: usize,
        members: &Vec<VariableEntry>,
    ) -> (r: Result<(), Diagnostic>)
        ensures
            match function_bindings(*self.index, *scope, members@, param_count as nat) {
                Ok(bs) => r is Ok && final(bindings)@ == old(bindings)@ + bs,
                Err(e) => r == Err::<(), Diagnostic>(e),
            },
    {
        let mut out: Vec<LocalBinding> = Vec::new();
        let mut var_count: usize = 0;
        let mut i: usize = 0;
        while i < members.len()
            invariant
                0 <= i <= members.len(),
                var_count as nat == count_params(members@.subrange(0, i as int)),
                var_count <= i,
                function_bindings(
                    *self.index,
                    *scope,
                    members@.subrange(0, i as int),
                    param_count as nat,
                ) == Ok::<Seq<LocalBinding>, Diagnostic>(out@),
            decreases members.len() - i,
        {
            let m = &members[i];
            proof {
                assert(members@.subrange(0, i + 1).drop_last() =~= members@.subrange(0, i as int));
                assert(members@.subrange(0, i + 1).last() == *m);
            }
            let slot = if m.kind == VariableKind::Return {
                match self.get_associated_type(&m.data_type) {
                    Ok(t) => Ok(Slot::ReturnSlot(t)),
                    Err(e) => Err(e),
                }
            } else if m.kind == VariableKind::Input || m.kind == VariableKind::Output || m.kind
                == VariableKind::InOut {
                if var_count >= param_count {
                    Err(Diagnostic::MissingFunctionArgument { location: m.location })
                } else {
                    match self.get_associated_type(&m.data_type) {
                        Ok(t) => Ok(Slot::Argument { ty: t, arg: var_count }),
                        Err(e) => Err(e),
                    }
                }
            } else {
                self.stack_slot(m)
            };
            match slot {
                Ok(s) => {
                    if m.kind == VariableKind::Input || m.kind == VariableKind::Output || m.kind
                        == VariableKind::InOut {
                        var_count += 1;
                    }
                    out.push(
                        LocalBinding {
                            scope: scope.clone(),
                            name: m.name.clone(),
                            data_type: m.data_type.clone(),
                            slot: s,
                        },
                    );
                },
                Err(e) => {
                    proof {
                        lemma_function_bindings_prefix_err(
                            *self.index,
                            *scope,
                            members@,
                            param_count as nat,
                            i + 1,
                        );
                    }
                    return Err(e);
                },
            }
            i += 1;
        }
        proof {
            assert(members@.subrange(0, members.len() as int) =~= members@);
        }
        bindings.append(&mut out);
        Ok(())
    }

    /// Binds the members of a callable that receives its instance struct by pointer:
    /// Temp and Return members to fresh slots, every other member to the next field
    /// of the struct passed at position `arg_index`.
    fn generate_local_struct_variable_accessors(
        &self,
        arg_index: usize,
        bindings: &mut Vec<LocalBinding>,
        scope: &String,
        param_count: usize,
        members: &Vec<VariableEntry>,
    ) -> (r: Result<(), Diagnostic>)
        ensures
            match struct_bindings(
                *self.index,
                *scope,
                members@,
                arg_index as nat,
                param_count as nat,
            ) {
                Ok(bs) => r is Ok && final(bindings)@ == old(bindings)@ + bs,
                Err(e) => r == Err::<(), Diagnostic>(e),
            },
    {
        let mut out: Vec<LocalBinding> = Vec::new();
        let mut var_count: usize = 0;
        let mut i: usize = 0;
        while i < members.len()
            invariant
                0 <= i <= members.len(),
                var_count as nat == count_fields(members@.subrange(0, i as int)),
                var_count <= i,
                struct_bindings(
                    *self.index,
                    *scope,
                    members@.subrange(0, i as int),
                    arg_index as nat,
                    param_count as nat,
                ) == Ok::<Seq<LocalBinding>, Diagnostic>(out@),
            decreases members.len() - i,
        {
            let m = &members[i];
            proof {
                assert(members@.subrange(0, i + 1).drop_last() =~= members@.subrange(0, i as int));
                assert(members@.subrange(0, i + 1).last() == *m);
            }
            let field_kind = m.kind != VariableKind::Temp && m.kind != VariableKind::Return;
            let slot = if !field_kind {
                self.stack_slot(m)
            } else if arg_index >= param_count {
                Err(Diagnostic::MissingFunctionArgument { location: m.location })
            } else {
                Ok(Slot::Field { arg: arg_index, field: var_count })
            };
            match slot {
                Ok(s) => {
                    if field_kind {
                        var_count += 1;
                    }
                    out.push(
                        LocalBinding {
                            scope: scope.clone(),
                            name: m.name.clone(),
                            data_type: m.data_type.clone(),
                            slot: s,
                        },
                    );
                },
                Err(e) => {
                    proof {
                        lemma_struct_bindings_prefix_err(
                            *self.index,
                            *scope,
                            members@,
                            arg_index as nat,
                            param_count as nat,
                            i + 1,
                        );
                    }
                    return Err(e);
                },
            }
            i += 1;
        }
        proof {
            assert(members@.subrange(0, members.len() as int) =~= members@);
        }
        bindings.append(&mut out);
        Ok(())
    }
}

impl<'cg> PouGenerator<'cg> {
    fn dest(&self, v: &VariableEntry, slot: Slot) -> (r: Dest)
        ensures
            r == dest_of(*v, slot),
    {
        Dest { scope: v.container.clone(), name: v.name.clone(), slot }
    }

    /// How one bound variable is initialized.
    fn initialization(&self, v: &VariableEntry, left: Slot) -> (r: Result<Instr, Diagnostic>)
        ensures
            r == initialization(*self.index, *self.target, *v, left),
    {
        let right: Option<i64> = match v.initial_value {
            Some(id) => match self.index.maybe_get_constant(id) {
                Some(c) => Some(c),
                None => {
                    return Err(
                        Diagnostic::CannotGenerateInitializer {
                            qualified_name: v.qualified_name.clone(),
                            location: v.location,
                        },
                    );
                },
            },
            None => None,
        };
        let ty = self.index.find_type(&v.data_type);
        let size: Option<u64> = match ty {
            Some(t) => self.index.types[t].target.size,
            None => None,
        };
        let name = initializer_name(v.qualified_name.as_str());
        let type_init_name = initializer_name(v.data_type.as_str());
        let global = match find_global(&self.target.globals, &name) {
            Some(g) => Some(g),
            None => find_global(&self.target.globals, &type_init_name),
        };
        match global {
            Some(g) => {
                let global_value = &self.target.globals[g];
                match size {
                    Some(size) => {
                        let align = if global_value.alignment > 1 {
                            global_value.alignment
                        } else {
                            1
                        };
                        Ok(
                            Instr::Memcpy {
                                dest: self.dest(v, left),
                                source: global_value.initializes.clone(),
                                align,
                                size,
                            },
                        )
                    },
                    None => Err(Diagnostic::UnknownTypeSize { location: v.location }),
                }
            },
            None => {
                let is_array = match ty {
                    Some(t) => self.index.types[t].target.category == TypeCategory::Array,
                    None => false,
                };
                if is_array {
                    match size {
                        Some(size) => Ok(Instr::Memset { dest: self.dest(v, left), size }),
                        None => Err(Diagnostic::UnknownTypeSize { location: v.location }),
                    }
                } else {
                    match right {
                        Some(value) => Ok(Instr::Store { dest: self.dest(v, left), value }),
                        None => match ty {
                            Some(t) => Ok(
                                Instr::StoreDefault {
                                    dest: self.dest(v, left),
                                    ty: self.index.types[t].target,
                                },
                            ),
                            None => Err(
                                Diagnostic::CannotGenerateInitializer {
                                    qualified_name: v.qualified_name.clone(),
                                    location: v.location,
                                },
                            ),
                        },
                    }
                }
            },
        }
    }

    /// Emits the initialization of every Local, Temp and Return variable among
    /// `variables` into the slot it is bound to.
    fn generate_initialization_of_local_vars(
        &self,
        variables: &Vec<VariableEntry>,
        bindings: &Vec<LocalBinding>,
        instrs: &mut Vec<Instr>,
    ) -> (r: Result<(), Diagnostic>)
        ensures
            match initializations(*self.index, *self.target, bindings@, variables@) {
                Ok(is) => r is Ok && final(instrs)@ == old(instrs)@ + is,
                Err(e) => r == Err::<(), Diagnostic>(e),
            },
    {
        let mut out: Vec<Instr> = Vec::new();
        let mut i: usize = 0;
        while i < variables.len()
            invariant
                0 <= i <= variables.len(),
                initializations(
                    *self.index,
                    *self.target,
                    bindings@,
                    variables@.subrange(0, i as int),
                ) == Ok::<Seq<Instr>, Diagnostic>(out@),
            decreases variables.len() - i,
        {
            let v = &variables[i];
            proof {
                assert(variables@.subrange(0, i + 1).drop_last() =~= variables@.subrange(
                    0,
                    i as int,
                ));
                assert(variables@.subrange(0, i + 1).last() == *v);
            }
            if v.kind == VariableKind::Local || v.kind == VariableKind::Temp || v.kind
                == VariableKind::Return {
                let step = match find_binding(bindings, &v.container, &v.name) {
                    Some(left) => self.initialization(v, left),
                    None => Err(
                        Diagnostic::CannotGenerateInitializer {
                            qualified_name: v.qualified_name.clone(),
                            location: v.location,
                        },
                    ),
                };
                match step {
                    Ok(instr) => out.push(instr),
                    Err(e) => {
                        proof {
                            lemma_initializations_prefix_err(
                                *self.index,
                                *self.target,
                                bindings@,
                                variables@,
                                i + 1,
                            );
                        }
                        return Err(e);
                    },
                }
            }
            i += 1;
        }
        proof {
            assert(variables@.subrange(0, variables.len() as int) =~= variables@);
        }
        instrs.append(&mut out);
        Ok(())
    }

    /// Generates the function's epilogue: when the callable declares a return
    /// variable, a load of its slot and a return of that value; otherwise a return
    /// without a value.
    pub fn generate_return_statement(
        &self,
        function_context: &FunctionContext,
        local_index: &Vec<LocalBinding>,
    ) -> (r: Result<Vec<Instr>, Diagnostic>)
        ensures
            match r {
                Ok(is) => return_instrs(*self.index, local_index@, *function_context) == Ok::<
                    Seq<Instr>,
                    Diagnostic,
                >(is@),
                Err(e) => return_instrs(*self.index, local_index@, *function_context) == Err::<
                    Seq<Instr>,
                    Diagnostic,
                >(e),
            },
    {
        match self.index.find_return_variable(&function_context.owner_type) {
            Some(v) => {
                let ret_v = &self.index.variables[v];
                match find_binding(local_index, &ret_v.container, &ret_v.name) {
                    Some(value_ptr) => {
                        let dest = self.dest(ret_v, value_ptr);
                        let ghost loaded = dest;
                        let r = vec![Instr::Load(dest), Instr::ReturnValue];
                        proof {
                            assert(r@ =~= seq![Instr::Load(loaded), Instr::ReturnValue]);
                        }
                        Ok(r)
                    },
                    None => Err(
                        Diagnostic::MissingReturnSlot {
                            call_name: function_context.call_name.clone(),
                        },
                    ),
                }
            },
            None => {
                let r = vec![Instr::ReturnVoid];
                proof {
                    assert(r@ =~= seq![Instr::ReturnVoid]);
                }
                Ok(r)
            },
        }
    }
}

impl<'cg> PouGenerator<'cg> {
    /// Generates the body of a callable: binds its members, initializes them, marks
    /// where its statements go and emits its return.
    pub fn generate_implementation(&self, implementation: &Implementation) -> (r: Result<
        FunctionBody,
        Diagnostic,
    >)
        ensures
            match r {
                Ok(b) => b.name == implementation.name && implementation_plan(
                    *self.index,
                    *self.target,
                    *implementation,
                ) == Ok::<(Seq<LocalBinding>, Seq<Instr>), Diagnostic>((b.bindings@, b.instrs@)),
                Err(e) => implementation_plan(*self.index, *self.target, *implementation) == Err::<
                    (Seq<LocalBinding>, Seq<Instr>),
                    Diagnostic,
                >(e),
            },
    {
        let d = match self.target.find_associated_implementation(&implementation.name) {
            Some(d) => d,
            None => {
                return Err(
                    Diagnostic::MissingStub {
                        name: implementation.name.clone(),
                        location: implementation.location,
                    },
                );
            },
        };
        let param_count = self.target.implementations[d].ty.params.len();
        let mut bindings: Vec<LocalBinding> = Vec::new();
        let mut param_index: usize = 0;
        match &implementation.pou_type {
            PouType::Method { owner } => {
                let class_members = self.index.get_container_members(owner);
                self.generate_local_struct_variable_accessors(
                    param_index,
                    &mut bindings,
                    owner,
                    param_count,
                    &class_members,
                )?;
                param_index = 1;
            },
            _ => {},
        }
        let ghost class_part = bindings@;
        proof {
            assert(class_part =~= Seq::<LocalBinding>::empty() + class_part);
        }
        let pou_members = self.index.get_container_members(&implementation.owner_type);
        match &implementation.pou_type {
            PouType::Function => {
                self.generate_local_function_arguments_accessors(
                    &mut bindings,
                    &implementation.owner_type,
                    param_count,
                    &pou_members,
                )?;
            },
            _ => {
                self.generate_local_struct_variable_accessors(
                    param_index,
                    &mut bindings,
                    &implementation.owner_type,
                    param_count,
                    &pou_members,
                )?;
            },
        }
        let mut instrs: Vec<Instr> = Vec::new();
        match &implementation.pou_type {
            PouType::Function | PouType::Method { .. } => {
                self.generate_initialization_of_local_vars(&pou_members, &bindings, &mut instrs)?;
            },
            _ => {
                let members = temp_members(&pou_members);
                self.generate_initialization_of_local_vars(&members, &bindings, &mut instrs)?;
            },
        }
        proof {
            assert(instrs@ =~= Seq::<Instr>::empty() + instrs@);
        }
        let ghost init_part = instrs@;
        instrs.push(Instr::Body);
        let function_context = FunctionContext {
            owner_type: implementation.owner_type.clone(),
            call_name: implementation.name.clone(),
        };
        let mut ret = self.generate_return_statement(&function_context, &bindings)?;
        let ghost ret_part = ret@;
        instrs.append(&mut ret);
        proof {
            assert(instrs@ =~= init_part + seq![Instr::Body] + ret_part);
            assert(function_context == context_of(*implementation));
        }
        Ok(FunctionBody { name: implementation.name.clone(), bindings, instrs })
    }
}

} // verus!
