//! Structural dumps of the AST: every node maps to a dump tree whose exact
//! shape is stated by the `*_view` functions; the `Twistable` impls are
//! verified against them.

use vstd::prelude::*;
use crate::ast::CondClause;
use crate::ast::Definition;
use crate::ast::FunctionDef;
use crate::ast::Ident;
use crate::ast::ObjectDef;
use crate::ast::ObjectMemberDecl;
use crate::ast::OperationSig;
use crate::ast::SchismType;
use crate::ast::Sect;
use crate::ast::SigDef;
use crate::ast::StackEffect;
use crate::ast::StackEntry;
use crate::ast::StackImage;
use crate::ast::Statement;
use crate::ast::TypeParam;
use crate::ast::UseDecl;
use crate::ast::VarDef;
use crate::ast::spec_ident_text;
use crate::decimal::i64_dec;
use crate::decimal::spec_idec;
use crate::chars::push_char;
use crate::twist::Twist;
use crate::twist::TwistV;
use crate::twist::Twistable;
use crate::twist::twist_view;
use crate::twist::lemma_twists_view_len;
use crate::twist::twists_view;

verus! {

/// The dump shape of a qualified or local identifier: a leaf with its text.
pub open spec fn ident_view(id: Ident) -> TwistV {
    TwistV::Leaf(spec_ident_text(id))
}

/// The dump shape of an import.
pub open spec fn use_decl_view(u: UseDecl) -> TwistV {
    TwistV::Obj(
        "UseDecl"@,
        seq![
            TwistV::Arr("types"@, Seq::new(u.type_names@.len(), |i: int| TwistV::Leaf(u.type_names@[i]@))),
            TwistV::Arr(
                "functions"@,
                Seq::new(u.function_names@.len(), |i: int| TwistV::Leaf(u.function_names@[i]@)),
            ),
        ],
    )
}

/// The dump shape of a structural type.
pub open spec fn schism_type_view(t: SchismType) -> TwistV
    decreases t,
        via schism_type_view_dec
{
    match t {
        SchismType::ParametricType(id, args) => TwistV::Obj(
            "ParametricType"@,
            seq![
                TwistV::Attr("base_type"@, spec_ident_text(id)),
                TwistV::Arr("parameters"@, types_seq_view(args@)),
            ],
        ),
        SchismType::SimpleType(id) => TwistV::Obj(
            "SimpleType"@,
            seq![TwistV::Attr("id"@, spec_ident_text(id))],
        ),
        SchismType::UnboundTypeVar(tv) => TwistV::Obj("TypeVar"@, seq![TwistV::Attr("id"@, tv@)]),
        SchismType::FunctionType(e) => TwistV::Val(
            "FunctionType"@,
            Some(Box::new(stack_effect_view(e))),
        ),
    }
}

#[via_fn]
proof fn schism_type_view_dec(t: SchismType) {
    broadcast use vstd::std_specs::vec::axiom_vec_decreases_to_view;

    if let SchismType::ParametricType(id, args) = t {
        assert(decreases_to!(args => args@));
        assert(decreases_to!(t => args@));
    }
}

/// The dump shapes of a list of structural types.
pub open spec fn types_seq_view(ts: Seq<SchismType>) -> Seq<TwistV>
    decreases ts,
{
    if ts.len() == 0 {
        Seq::empty()
    } else {
        seq![schism_type_view(ts[0])] + types_seq_view(ts.drop_first())
    }
}

/// The dump shapes of a list of stack slots.
pub open spec fn entries_seq_view(es: Seq<StackEntry>) -> Seq<TwistV>
    decreases es,
{
    if es.len() == 0 {
        Seq::empty()
    } else {
        seq![stack_entry_view(es[0])] + entries_seq_view(es.drop_first())
    }
}

/// The dump shape of one stack slot.
pub open spec fn stack_entry_view(e: StackEntry) -> TwistV
    decreases e,
{
    match e {
        StackEntry::TypeEntry(st) => schism_type_view(st),
        StackEntry::NamedEntry(name, st) => TwistV::Val(
            name@,
            Some(Box::new(schism_type_view(st))),
        ),
    }
}

/// The dump shape of a stack image.
pub open spec fn stack_image_view(im: StackImage) -> TwistV
    decreases im,
        via stack_image_view_dec
{
    TwistV::Obj(
        "StackImage"@,
        seq![
            TwistV::Val(
                "context"@,
                match im.context {
                    Some(c) => Some(Box::new(TwistV::Leaf(c@))),
                    None => None,
                },
            ),
            TwistV::Arr("Stack"@, entries_seq_view(im.stack@)),
        ],
    )
}

#[via_fn]
proof fn stack_image_view_dec(im: StackImage) {
    broadcast use vstd::std_specs::vec::axiom_vec_decreases_to_view;

    assert(decreases_to!(im.stack => im.stack@));
    assert(decreases_to!(im => im.stack@));
}

/// The dump shape of a stack effect.
pub open spec fn stack_effect_view(e: StackEffect) -> TwistV
    decreases e,
{
    TwistV::Obj(
        "StackEffect"@,
        seq![
            TwistV::Arr(
                "effect_domains"@,
                Seq::new(e.effect_domains@.len(), |i: int| ident_view(e.effect_domains@[i])),
            ),
            TwistV::Val("before"@, Some(Box::new(stack_image_view(e.before)))),
            TwistV::Val("after"@, Some(Box::new(stack_image_view(e.after)))),
        ],
    )
}

/// The dump shape of a generic type parameter.
pub open spec fn type_param_view(tp: TypeParam) -> TwistV {
    TwistV::Obj(
        "TypeParam"@,
        seq![
            TwistV::Attr("name"@, tp.name@),
            TwistV::Val(
                "constraint"@,
                match tp.constraint {
                    Some(st) => Some(Box::new(schism_type_view(st))),
                    None => None,
                },
            ),
        ],
    )
}

/// The dump shape of an interface operation.
pub open spec fn operation_sig_view(o: OperationSig) -> TwistV {
    match o {
        OperationSig::MethodSig { name, effect } => TwistV::Obj(
            "MethodSig"@,
            seq![
                TwistV::Attr("name"@, name@),
                TwistV::Val("effect"@, Some(Box::new(stack_effect_view(effect)))),
            ],
        ),
        OperationSig::ActionSig { name, inputs } => TwistV::Obj(
            "ActionSig"@,
            seq![
                TwistV::Attr("name"@, name@),
                TwistV::Val("inputs"@, Some(Box::new(stack_image_view(inputs)))),
            ],
        ),
    }
}

/// The dump shapes of a list of statements.
pub open spec fn statements_seq_view(ss: Seq<Statement>) -> Seq<TwistV>
    decreases ss,
{
    if ss.len() == 0 {
        Seq::empty()
    } else {
        seq![statement_view(ss[0])] + statements_seq_view(ss.drop_first())
    }
}

/// The dump shapes of a list of conditional clauses.
pub open spec fn clauses_seq_view(cs: Seq<CondClause>) -> Seq<TwistV>
    decreases cs,
{
    if cs.len() == 0 {
        Seq::empty()
    } else {
        seq![cond_clause_view(cs[0])] + clauses_seq_view(cs.drop_first())
    }
}

/// The dump shape of a statement.
pub open spec fn statement_view(s: Statement) -> TwistV
    decreases s,
        via statement_view_dec
{
    match s {
        Statement::StringLit(t) => TwistV::Attr("StringLit"@, t@),
        Statement::IntLit(i) => TwistV::Attr("IntLit"@, spec_idec(i as int)),
        Statement::FloatLit(f) => TwistV::Attr("FloatLit"@, f@),
        Statement::CharLit(c) => TwistV::Attr("CharLit"@, seq!['\''] + seq![c] + seq!['\'']),
        Statement::Sequence(ss) => TwistV::Arr("Sequence"@, statements_seq_view(ss@)),
        Statement::Name(n) => TwistV::Attr("InvokeName"@, spec_ident_text(n)),
        Statement::Block(body, effect) => TwistV::Obj(
            "Block"@,
            seq![
                TwistV::Val("effect"@, Some(Box::new(stack_effect_view(effect)))),
                TwistV::Arr("body"@, statements_seq_view(body@)),
            ],
        ),
        Statement::Local(id) => TwistV::Attr("Local"@, id@),
        Statement::New(st) => TwistV::Val("New"@, Some(Box::new(schism_type_view(st)))),
        Statement::DispatchStmt(n) => TwistV::Attr("Dispatch"@, spec_ident_text(n)),
        Statement::CallStmt(c) => TwistV::Attr("MethodCall"@, spec_ident_text(c)),
        Statement::CondStmt { clauses, else_clause } => TwistV::Obj(
            "Cond"@,
            seq![
                TwistV::Arr("cases"@, clauses_seq_view(clauses@)),
                TwistV::Arr("else"@, statements_seq_view(else_clause@)),
            ],
        ),
        Statement::LoopStmt { label, body } => TwistV::Obj(
            "Loop"@,
            seq![
                TwistV::Val(
                    "label"@,
                    match label {
                        Some(l) => Some(Box::new(TwistV::Leaf(l@))),
                        None => None,
                    },
                ),
                TwistV::Arr("body"@, statements_seq_view(body@)),
            ],
        ),
        Statement::ForStmt { idx, body } => TwistV::Obj(
            "For"@,
            seq![
                TwistV::Attr("index"@, idx@),
                TwistV::Arr("body"@, statements_seq_view(body@)),
            ],
        ),
        Statement::ExitStmt(l) => TwistV::Obj(
            "Exit"@,
            seq![
                TwistV::Val(
                    "loop_label"@,
                    match l {
                        Some(lb) => Some(Box::new(TwistV::Leaf(lb@))),
                        None => None,
                    },
                ),
            ],
        ),
        Statement::NextStmt(l) => TwistV::Obj(
            "Next"@,
            seq![
                TwistV::Val(
                    "loop_label"@,
                    match l {
                        Some(lb) => Some(Box::new(TwistV::Leaf(lb@))),
                        None => None,
                    },
                ),
            ],
        ),
    }
}

#[via_fn]
proof fn statement_view_dec(s: Statement) {
    broadcast use vstd::std_specs::vec::axiom_vec_decreases_to_view;

    match s {
        Statement::Sequence(ss) => {
            assert(decreases_to!(ss => ss@));
            assert(decreases_to!(s => ss@));
        },
        Statement::Block(body, effect) => {
            assert(decreases_to!(body => body@));
            assert(decreases_to!(s => body@));
        },
        Statement::CondStmt { clauses, else_clause } => {
            assert(decreases_to!(clauses => clauses@));
            assert(decreases_to!(s => clauses@));
            assert(decreases_to!(else_clause => else_clause@));
            assert(decreases_to!(s => else_clause@));
        },
        Statement::LoopStmt { label, body } => {
            assert(decreases_to!(body => body@));
            assert(decreases_to!(s => body@));
        },
        Statement::ForStmt { idx, body } => {
            assert(decreases_to!(body => body@));
            assert(decreases_to!(s => body@));
        },
        _ => {},
    }
}

/// The dump shape of one guarded clause of a conditional.
pub open spec fn cond_clause_view(c: CondClause) -> TwistV
    decreases c,
        via cond_clause_view_dec
{
    TwistV::Obj(
        "CondClause"@,
        seq![
            TwistV::Val("condition"@, Some(Box::new(statement_view(*c.condition)))),
            TwistV::Arr("body"@, statements_seq_view(c.body@)),
        ],
    )
}

#[via_fn]
proof fn cond_clause_view_dec(c: CondClause) {
    broadcast use vstd::std_specs::vec::axiom_vec_decreases_to_view;

    assert(decreases_to!(c.body => c.body@));
    assert(decreases_to!(c => c.body@));
}

/// The dump shape of an interface definition.
pub open spec fn sig_def_view(s: SigDef) -> TwistV {
    TwistV::Obj(
        "SigDef"@,
        seq![
            TwistV::Attr("name"@, s.name@),
            TwistV::Arr(
                "type_params"@,
                Seq::new(s.type_params@.len(), |i: int| type_param_view(s.type_params@[i])),
            ),
            TwistV::Arr("composes"@, types_seq_view(s.composes@)),
            TwistV::Arr(
                "operations"@,
                Seq::new(s.operations@.len(), |i: int| operation_sig_view(s.operations@[i])),
            ),
        ],
    )
}

/// The dump shape of an object definition.
pub open spec fn object_def_view(o: ObjectDef) -> TwistV {
    TwistV::Obj(
        "ObjectDef"@,
        seq![
            TwistV::Attr("name"@, o.name@),
            TwistV::Arr(
                "type_params"@,
                Seq::new(o.type_params@.len(), |i: int| type_param_view(o.type_params@[i])),
            ),
            TwistV::Arr("composes"@, types_seq_view(o.composes@)),
            TwistV::Val("inputs"@, Some(Box::new(stack_image_view(o.inputs)))),
            TwistV::Arr(
                "members"@,
                Seq::new(o.members@.len(), |i: int| object_member_view(o.members@[i])),
            ),
            TwistV::Arr("body"@, statements_seq_view(o.body@)),
        ],
    )
}

/// The dump shape of one object member.
pub open spec fn object_member_view(m: ObjectMemberDecl) -> TwistV {
    match m {
        ObjectMemberDecl::ObjectSlot { name, value_type, inputs, body } => TwistV::Obj(
            "Slot"@,
            seq![
                TwistV::Attr("name"@, name@),
                TwistV::Val("value_type"@, Some(Box::new(schism_type_view(value_type)))),
                TwistV::Val("inputs"@, Some(Box::new(stack_image_view(inputs)))),
                TwistV::Arr("body"@, statements_seq_view(body@)),
            ],
        ),
        ObjectMemberDecl::ObjectMethod { name, effect, body } => TwistV::Obj(
            "Method"@,
            seq![
                TwistV::Attr("name"@, name@),
                TwistV::Val("effect"@, Some(Box::new(stack_effect_view(effect)))),
                TwistV::Arr("body"@, statements_seq_view(body@)),
            ],
        ),
        ObjectMemberDecl::ObjectAction { name, inputs, body } => TwistV::Obj(
            "Action"@,
            seq![
                TwistV::Attr("name"@, name@),
                TwistV::Val("inputs"@, Some(Box::new(stack_image_view(inputs)))),
                TwistV::Arr("body"@, statements_seq_view(body@)),
            ],
        ),
    }
}

/// The dump shape of a function definition.
pub open spec fn function_def_view(f: FunctionDef) -> TwistV {
    TwistV::Obj(
        "Function"@,
        seq![
            TwistV::Attr("name"@, f.name@),
            TwistV::Arr(
                "type_params"@,
                Seq::new(f.type_params@.len(), |i: int| type_param_view(f.type_params@[i])),
            ),
            TwistV::Val("effect"@, Some(Box::new(stack_effect_view(f.effect)))),
            TwistV::Arr("body"@, statements_seq_view(f.body@)),
        ],
    )
}

/// The dump shape of a module-level variable definition.
pub open spec fn var_def_view(v: VarDef) -> TwistV {
    TwistV::Obj(
        "Variable"@,
        seq![
            TwistV::Attr("name"@, v.name@),
            TwistV::Val("value_type"@, Some(Box::new(schism_type_view(v.value_type)))),
            TwistV::Val("inputs"@, Some(Box::new(stack_image_view(v.inputs)))),
            TwistV::Arr("body"@, statements_seq_view(v.body@)),
        ],
    )
}

/// The dump shape of a top-level definition.
pub open spec fn definition_view(d: Definition) -> TwistV {
    match d {
        Definition::Sig(s) => sig_def_view(s),
        Definition::Obj(o) => object_def_view(o),
        Definition::Function(f) => function_def_view(f),
        Definition::Var(v) => var_def_view(v),
    }
}

/// The dump shape of one compilation unit.
pub open spec fn sect_view(s: Sect) -> TwistV {
    TwistV::Obj(
        "sect"@,
        seq![
            TwistV::Arr("uses"@, Seq::new(s.uses@.len(), |i: int| use_decl_view(s.uses@[i]))),
            TwistV::Arr("defs"@, Seq::new(s.defs@.len(), |i: int| definition_view(s.defs@[i]))),
        ],
    )
}

} // verus!

verus! {

proof fn lemma_types_seq_view(ts: Seq<SchismType>)
    ensures
        types_seq_view(ts).len() == ts.len(),
        forall|i: int| 0 <= i < ts.len() ==> types_seq_view(ts)[i] == schism_type_view(ts[i]),
    decreases ts,
{
    if ts.len() > 0 {
        lemma_types_seq_view(ts.drop_first());
    }
}

proof fn lemma_entries_seq_view(es: Seq<StackEntry>)
    ensures
        entries_seq_view(es).len() == es.len(),
        forall|i: int| 0 <= i < es.len() ==> entries_seq_view(es)[i] == stack_entry_view(es[i]),
    decreases es,
{
    if es.len() > 0 {
        lemma_entries_seq_view(es.drop_first());
    }
}

proof fn lemma_statements_seq_view(ss: Seq<Statement>)
    ensures
        statements_seq_view(ss).len() == ss.len(),
        forall|i: int| 0 <= i < ss.len() ==> statements_seq_view(ss)[i] == statement_view(ss[i]),
    decreases ss,
{
    if ss.len() > 0 {
        lemma_statements_seq_view(ss.drop_first());
    }
}

proof fn lemma_clauses_seq_view(cs: Seq<CondClause>)
    ensures
        clauses_seq_view(cs).len() == cs.len(),
        forall|i: int| 0 <= i < cs.len() ==> clauses_seq_view(cs)[i] == cond_clause_view(cs[i]),
    decreases cs,
{
    if cs.len() > 0 {
        lemma_clauses_seq_view(cs.drop_first());
    }
}

/// Builds the dump of every type in a list.
fn types_twist(v: &Vec<SchismType>) -> (r: Vec<Twist>)
    ensures
        twists_view(r@) == types_seq_view(v@),
    decreases *v,
{
    let n = v.len();
    let mut r: Vec<Twist> = Vec::new();
    let mut i: usize = 0;
    while i < n
        invariant
            n == v@.len(),
            i <= n,
            r@.len() == i,
            forall|j: int| 0 <= j < i ==> twist_view(r@[j]) == schism_type_view(v@[j]),
        decreases n - i,
    {
        proof {
            broadcast use vstd::std_specs::vec::axiom_vec_index_decreases;

            assert(decreases_to!(*v => v[i as int]));
        }
        let t = schism_type_twist(&v[i]);
        r.push(t);
        i = i + 1;
    }
    proof {
        lemma_twists_view_len(r@);
        lemma_types_seq_view(v@);
        assert(twists_view(r@) =~= types_seq_view(v@));
    }
    r
}

/// Builds the dump of every stack slot in a list.
fn entries_twist(v: &Vec<StackEntry>) -> (r: Vec<Twist>)
    ensures
        twists_view(r@) == entries_seq_view(v@),
    decreases *v,
{
    let n = v.len();
    let mut r: Vec<Twist> = Vec::new();
    let mut i: usize = 0;
    while i < n
        invariant
            n == v@.len(),
            i <= n,
            r@.len() == i,
            forall|j: int| 0 <= j < i ==> twist_view(r@[j]) == stack_entry_view(v@[j]),
        decreases n - i,
    {
        proof {
            broadcast use vstd::std_specs::vec::axiom_vec_index_decreases;

            assert(decreases_to!(*v => v[i as int]));
        }
        let t = stack_entry_twist(&v[i]);
        r.push(t);
        i = i + 1;
    }
    proof {
        lemma_twists_view_len(r@);
        lemma_entries_seq_view(v@);
        assert(twists_view(r@) =~= entries_seq_view(v@));
    }
    r
}

/// Builds the dump of every statement in a list.
fn statements_twist(v: &Vec<Statement>) -> (r: Vec<Twist>)
    ensures
        twists_view(r@) == statements_seq_view(v@),
    decreases *v,
{
    let n = v.len();
    let mut r: Vec<Twist> = Vec::new();
    let mut i: usize = 0;
    while i < n
        invariant
            n == v@.len(),
            i <= n,
            r@.len() == i,
            forall|j: int| 0 <= j < i ==> twist_view(r@[j]) == statement_view(v@[j]),
        decreases n - i,
    {
        proof {
            broadcast use vstd::std_specs::vec::axiom_vec_index_decreases;

            assert(decreases_to!(*v => v[i as int]));
        }
        let t = statement_twist(&v[i]);
        r.push(t);
        i = i + 1;
    }
    proof {
        lemma_twists_view_len(r@);
        lemma_statements_seq_view(v@);
        assert(twists_view(r@) =~= statements_seq_view(v@));
    }
    r
}

/// Builds the dump of every conditional clause in a list.
fn clauses_twist(v: &Vec<CondClause>) -> (r: Vec<Twist>)
    ensures
        twists_view(r@) == clauses_seq_view(v@),
    decreases *v,
{
    let n = v.len();
    let mut r: Vec<Twist> = Vec::new();
    let mut i: usize = 0;
    while i < n
        invariant
            n == v@.len(),
            i <= n,
            r@.len() == i,
            forall|j: int| 0 <= j < i ==> twist_view(r@[j]) == cond_clause_view(v@[j]),
        decreases n - i,
    {
        proof {
            broadcast use vstd::std_specs::vec::axiom_vec_index_decreases;

            assert(decreases_to!(*v => v[i as int]));
        }
        let t = cond_clause_twist(&v[i]);
        r.push(t);
        i = i + 1;
    }
    proof {
        lemma_twists_view_len(r@);
        lemma_clauses_seq_view(v@);
        assert(twists_view(r@) =~= clauses_seq_view(v@));
    }
    r
}

/// Builds the dump of a structural type.
fn schism_type_twist(t: &SchismType) -> (r: Twist)
    ensures
        twist_view(r) == schism_type_view(*t),
    decreases *t,
{
    match t {
        SchismType::ParametricType(id, args) => {
            proof {
                broadcast use vstd::std_specs::vec::axiom_vec_decreases_to_view;

                assert(decreases_to!(*t => t->ParametricType_1));
                assert(t->ParametricType_1 == *args);
            }
            let kids = types_twist(args);
            let base = Twist::attr("base_type", id.render());
            let params = Twist::arr("parameters", kids);
            let r = obj2("ParametricType", base, params);
            proof {
                lemma_obj_eq(twist_view(r), schism_type_view(*t));
            }
            r
        },
        SchismType::SimpleType(id) => {
            let a = Twist::attr("id", id.render());
            let r = obj1("SimpleType", a);
            proof {
                lemma_obj_eq(twist_view(r), schism_type_view(*t));
            }
            r
        },
        SchismType::UnboundTypeVar(tv) => {
            let mut name = String::new();
            name.append(tv.as_str());
            let a = Twist::attr("id", name);
            let r = obj1("TypeVar", a);
            proof {
                lemma_obj_eq(twist_view(r), schism_type_view(*t));
            }
            r
        },
        SchismType::FunctionType(e) => Twist::val("FunctionType", stack_effect_twist(e)),
    }
}

/// Builds the dump of one stack slot.
fn stack_entry_twist(e: &StackEntry) -> (r: Twist)
    ensures
        twist_view(r) == stack_entry_view(*e),
    decreases *e,
{
    match e {
        StackEntry::TypeEntry(st) => schism_type_twist(st),
        StackEntry::NamedEntry(name, st) => {
            let t = schism_type_twist(st);
            let mut n = String::new();
            n.append(name.as_str());
            Twist::val(n.as_str(), t)
        },
    }
}

/// Builds the dump of a stack image.
fn stack_image_twist(im: &StackImage) -> (r: Twist)
    ensures
        twist_view(r) == stack_image_view(*im),
    decreases *im,
{
    proof {
        broadcast use vstd::std_specs::vec::axiom_vec_decreases_to_view;

        assert(decreases_to!(*im => im.stack));
    }
    let ctx = match &im.context {
        Some(c) => {
            let mut n = String::new();
            n.append(c.as_str());
            Twist::opt_val("context", Some(Twist::LeafNode(n)))
        },
        None => Twist::opt_val("context", None),
    };
    let kids = entries_twist(&im.stack);
    let stack = Twist::arr("Stack", kids);
    let r = obj2("StackImage", ctx, stack);
    proof {
        lemma_obj_eq(twist_view(r), stack_image_view(*im));
    }
    r
}

/// Builds the dump of a stack effect.
fn stack_effect_twist(e: &StackEffect) -> (r: Twist)
    ensures
        twist_view(r) == stack_effect_view(*e),
    decreases *e,
{
    let domains = Twist::twist_arr("effect_domains", &e.effect_domains);
    proof {
        assert(twist_view(domains)->Arr_1 =~= stack_effect_view(*e)->Obj_1[0]->Arr_1);
        assert(twist_view(domains) == stack_effect_view(*e)->Obj_1[0]);
    }
    let before = Twist::val("before", stack_image_twist(&e.before));
    let after = Twist::val("after", stack_image_twist(&e.after));
    let r = obj3("StackEffect", domains, before, after);
    proof {
        lemma_obj_eq(twist_view(r), stack_effect_view(*e));
    }
    r
}

/// Builds the dump of a statement.
fn statement_twist(s: &Statement) -> (r: Twist)
    ensures
        twist_view(r) == statement_view(*s),
    decreases *s,
{
    match s {
        Statement::StringLit(t) => {
            let mut v = String::new();
            v.append(t.as_str());
            Twist::attr("StringLit", v)
        },
        Statement::IntLit(i) => Twist::attr("IntLit", i64_dec(*i)),
        Statement::FloatLit(f) => {
            let mut v = String::new();
            v.append(f.as_str());
            Twist::attr("FloatLit", v)
        },
        Statement::CharLit(c) => {
            let mut v = String::new();
            push_char(&mut v, '\'');
            push_char(&mut v, *c);
            push_char(&mut v, '\'');
            proof {
                assert(v@ =~= seq!['\''] + seq![*c] + seq!['\'']);
            }
            Twist::attr("CharLit", v)
        },
        Statement::Sequence(ss) => {
            proof {
                broadcast use vstd::std_specs::vec::axiom_vec_decreases_to_view;

                assert(decreases_to!(*s => s->Sequence_0));
                assert(s->Sequence_0 == *ss);
            }
            let kids = statements_twist(ss);
            Twist::arr("Sequence", kids)
        },
        Statement::Name(n) => Twist::attr("InvokeName", n.render()),
        Statement::Block(body, effect) => {
            proof {
                broadcast use vstd::std_specs::vec::axiom_vec_decreases_to_view;

                assert(decreases_to!(*s => s->Block_0));
                assert(s->Block_0 == *body);
            }
            let eff = Twist::val("effect", stack_effect_twist(effect));
            let kids = statements_twist(body);
            let b = Twist::arr("body", kids);
            let r = obj2("Block", eff, b);
            proof {
                lemma_obj_eq(twist_view(r), statement_view(*s));
            }
            r
        },
        Statement::Local(id) => {
            let mut v = String::new();
            v.append(id.as_str());
            Twist::attr("Local", v)
        },
        Statement::New(st) => Twist::val("New", schism_type_twist(st)),
        Statement::DispatchStmt(n) => Twist::attr("Dispatch", n.render()),
        Statement::CallStmt(c) => Twist::attr("MethodCall", c.render()),
        Statement::CondStmt { clauses, else_clause } => {
            proof {
                broadcast use vstd::std_specs::vec::axiom_vec_decreases_to_view;

                assert(decreases_to!(*s => s->CondStmt_clauses));
                assert(s->CondStmt_clauses == *clauses);
                assert(decreases_to!(*s => s->CondStmt_else_clause));
                assert(s->CondStmt_else_clause == *else_clause);
            }
            let ck = clauses_twist(clauses);
            let ek = statements_twist(else_clause);
            let cases = Twist::arr("cases", ck);
            let els = Twist::arr("else", ek);
            let r = obj2("Cond", cases, els);
            proof {
                lemma_obj_eq(twist_view(r), statement_view(*s));
            }
            r
        },
        Statement::LoopStmt { label, body } => {
            proof {
                broadcast use vstd::std_specs::vec::axiom_vec_decreases_to_view;

                assert(decreases_to!(*s => s->LoopStmt_body));
                assert(s->LoopStmt_body == *body);
            }
            let lab = match label {
                Some(l) => {
                    let mut n = String::new();
                    n.append(l.as_str());
                    Twist::opt_val("label", Some(Twist::LeafNode(n)))
                },
                None => Twist::opt_val("label", None),
            };
            let kids = statements_twist(body);
            let b = Twist::arr("body", kids);
            let r = obj2("Loop", lab, b);
            proof {
                lemma_obj_eq(twist_view(r), statement_view(*s));
            }
            r
        },
        Statement::ForStmt { idx, body } => {
            proof {
                broadcast use vstd::std_specs::vec::axiom_vec_decreases_to_view;

                assert(decreases_to!(*s => s->ForStmt_body));
                assert(s->ForStmt_body == *body);
            }
            let mut n = String::new();
            n.append(idx.as_str());
            let index = Twist::attr("index", n);
            let kids = statements_twist(body);
            let b = Twist::arr("body", kids);
            let r = obj2("For", index, b);
            proof {
                lemma_obj_eq(twist_view(r), statement_view(*s));
            }
            r
        },
        Statement::ExitStmt(l) => {
            let lab = match l {
                Some(lb) => {
                    let mut n = String::new();
                    n.append(lb.as_str());
                    Twist::opt_val("loop_label", Some(Twist::LeafNode(n)))
                },
                None => Twist::opt_val("loop_label", None),
            };
            let r = obj1("Exit", lab);
            proof {
                lemma_obj_eq(twist_view(r), statement_view(*s));
            }
            r
        },
        Statement::NextStmt(l) => {
            let lab = match l {
                Some(lb) => {
                    let mut n = String::new();
                    n.append(lb.as_str());
                    Twist::opt_val("loop_label", Some(Twist::LeafNode(n)))
                },
                None => Twist::opt_val("loop_label", None),
            };
            let r = obj1("Next", lab);
            proof {
                lemma_obj_eq(twist_view(r), statement_view(*s));
            }
            r
        },
    }
}

/// Builds the dump of one conditional clause.
fn cond_clause_twist(c: &CondClause) -> (r: Twist)
    ensures
        twist_view(r) == cond_clause_view(*c),
    decreases *c,
{
    proof {
        broadcast use vstd::std_specs::vec::axiom_vec_decreases_to_view;

        assert(decreases_to!(*c => c.body));
        assert(decreases_to!(*c => c.condition));
    }
    let cond = Twist::val("condition", statement_twist(&*c.condition));
    let kids = statements_twist(&c.body);
    let b = Twist::arr("body", kids);
    let r = obj2("CondClause", cond, b);
    proof {
        lemma_obj_eq(twist_view(r), cond_clause_view(*c));
    }
    r
}

} // verus!

verus! {

impl Twistable for Ident {
    open spec fn spec_twist(&self) -> TwistV {
        ident_view(*self)
    }

    fn twist(&self) -> (r: Twist)
        ensures
            twist_view(r) == self.spec_twist(),
    {
        Twist::leaf(self.render().as_str())
    }
}

impl Twistable for SchismType {
    open spec fn spec_twist(&self) -> TwistV {
        schism_type_view(*self)
    }

    fn twist(&self) -> (r: Twist)
        ensures
            twist_view(r) == self.spec_twist(),
    {
        schism_type_twist(self)
    }
}

impl Twistable for StackEntry {
    open spec fn spec_twist(&self) -> TwistV {
        stack_entry_view(*self)
    }

    fn twist(&self) -> (r: Twist)
        ensures
            twist_view(r) == self.spec_twist(),
    {
        stack_entry_twist(self)
    }
}

impl Twistable for StackImage {
    open spec fn spec_twist(&self) -> TwistV {
        stack_image_view(*self)
    }

    fn twist(&self) -> (r: Twist)
        ensures
            twist_view(r) == self.spec_twist(),
    {
        stack_image_twist(self)
    }
}

impl Twistable for StackEffect {
    open spec fn spec_twist(&self) -> TwistV {
        stack_effect_view(*self)
    }

    fn twist(&self) -> (r: Twist)
        ensures
            twist_view(r) == self.spec_twist(),
    {
        stack_effect_twist(self)
    }
}

impl Twistable for Statement {
    open spec fn spec_twist(&self) -> TwistV {
        statement_view(*self)
    }

    fn twist(&self) -> (r: Twist)
        ensures
            twist_view(r) == self.spec_twist(),
    {
        statement_twist(self)
    }
}

impl Twistable for CondClause {
    open spec fn spec_twist(&self) -> TwistV {
        cond_clause_view(*self)
    }

    fn twist(&self) -> (r: Twist)
        ensures
            twist_view(r) == self.spec_twist(),
    {
        cond_clause_twist(self)
    }
}

impl Twistable for TypeParam {
    open spec fn spec_twist(&self) -> TwistV {
        type_param_view(*self)
    }

    fn twist(&self) -> (r: Twist)
        ensures
            twist_view(r) == self.spec_twist(),
    {
        let mut n = String::new();
        n.append(self.name.as_str());
        let name = Twist::attr("name", n);
        let constraint = match &self.constraint {
            Some(st) => Twist::opt_val("constraint", Some(schism_type_twist(st))),
            None => Twist::opt_val("constraint", None),
        };
        let r = obj2("TypeParam", name, constraint);
        proof {
            lemma_obj_eq(twist_view(r), type_param_view(*self));
        }
        r
    }
}

impl Twistable for OperationSig {
    open spec fn spec_twist(&self) -> TwistV {
        operation_sig_view(*self)
    }

    fn twist(&self) -> (r: Twist)
        ensures
            twist_view(r) == self.spec_twist(),
    {
        match self {
            OperationSig::MethodSig { name, effect } => {
                let mut n = String::new();
                n.append(name.as_str());
                let nm = Twist::attr("name", n);
                let eff = Twist::val("effect", stack_effect_twist(effect));
                let r = obj2("MethodSig", nm, eff);
                proof {
                    lemma_obj_eq(twist_view(r), operation_sig_view(*self));
                }
                r
            },
            OperationSig::ActionSig { name, inputs } => {
                let mut n = String::new();
                n.append(name.as_str());
                let nm = Twist::attr("name", n);
                let ins = Twist::val("inputs", stack_image_twist(inputs));
                let r = obj2("ActionSig", nm, ins);
                proof {
                    lemma_obj_eq(twist_view(r), operation_sig_view(*self));
                }
                r
            },
        }
    }
}

impl Twistable for UseDecl {
    open spec fn spec_twist(&self) -> TwistV {
        use_decl_view(*self)
    }

    fn twist(&self) -> (r: Twist)
        ensures
            twist_view(r) == self.spec_twist(),
    {
        let types = leaves_arr("types", &self.type_names);
        let functions = leaves_arr("functions", &self.function_names);
        let r = obj2("UseDecl", types, functions);
        proof {
            lemma_obj_eq(twist_view(r), use_decl_view(*self));
        }
        r
    }
}

/// An array of bare leaves, one per name.
fn leaves_arr(name: &str, names: &Vec<String>) -> (r: Twist)
    ensures
        twist_view(r) == TwistV::Arr(
            name@,
            Seq::new(names@.len(), |i: int| TwistV::Leaf(names@[i]@)),
        ),
{
    let n = names.len();
    let mut kids: Vec<Twist> = Vec::new();
    let mut i: usize = 0;
    while i < n
        invariant
            n == names@.len(),
            i <= n,
            kids@.len() == i,
            forall|j: int| 0 <= j < i ==> twist_view(kids@[j]) == TwistV::Leaf(names@[j]@),
        decreases n - i,
    {
        let t = Twist::leaf(names[i].as_str());
        kids.push(t);
        i = i + 1;
    }
    let r = Twist::arr(name, kids);
    proof {
        lemma_twists_view_len(kids@);
        assert(twists_view(kids@) =~= Seq::new(
            names@.len(),
            |i: int| TwistV::Leaf(names@[i]@),
        ));
    }
    r
}

impl Twistable for SigDef {
    open spec fn spec_twist(&self) -> TwistV {
        sig_def_view(*self)
    }

    fn twist(&self) -> (r: Twist)
        ensures
            twist_view(r) == self.spec_twist(),
    {
        let mut n = String::new();
        n.append(self.name.as_str());
        let nm = Twist::attr("name", n);
        let tps = Twist::twist_arr("type_params", &self.type_params);
        let kids = types_twist(&self.composes);
        let comps = Twist::arr("composes", kids);
        let ops = Twist::twist_arr("operations", &self.operations);
        proof {
            assert(twist_view(tps)->Arr_1 =~= sig_def_view(*self)->Obj_1[1]->Arr_1);
            assert(twist_view(tps) == sig_def_view(*self)->Obj_1[1]);
            assert(twist_view(ops)->Arr_1 =~= sig_def_view(*self)->Obj_1[3]->Arr_1);
            assert(twist_view(ops) == sig_def_view(*self)->Obj_1[3]);
        }
        let r = obj4("SigDef", nm, tps, comps, ops);
        proof {
            lemma_obj_eq(twist_view(r), sig_def_view(*self));
        }
        r
    }
}

impl Twistable for ObjectMemberDecl {
    open spec fn spec_twist(&self) -> TwistV {
        object_member_view(*self)
    }

    fn twist(&self) -> (r: Twist)
        ensures
            twist_view(r) == self.spec_twist(),
    {
        match self {
            ObjectMemberDecl::ObjectSlot { name, value_type, inputs, body } => {
                let mut n = String::new();
                n.append(name.as_str());
                let nm = Twist::attr("name", n);
                let vt = Twist::val("value_type", schism_type_twist(value_type));
                let ins = Twist::val("inputs", stack_image_twist(inputs));
                let kids = statements_twist(body);
                let b = Twist::arr("body", kids);
                let r = obj4("Slot", nm, vt, ins, b);
                proof {
                    lemma_obj_eq(twist_view(r), object_member_view(*self));
                }
                r
            },
            ObjectMemberDecl::ObjectMethod { name, effect, body } => {
                let mut n = String::new();
                n.append(name.as_str());
                let nm = Twist::attr("name", n);
                let eff = Twist::val("effect", stack_effect_twist(effect));
                let kids = statements_twist(body);
                let b = Twist::arr("body", kids);
                let r = obj3("Method", nm, eff, b);
                proof {
                    lemma_obj_eq(twist_view(r), object_member_view(*self));
                }
                r
            },
            ObjectMemberDecl::ObjectAction { name, inputs, body } => {
                let mut n = String::new();
                n.append(name.as_str());
                let nm = Twist::attr("name", n);
                let ins = Twist::val("inputs", stack_image_twist(inputs));
                let kids = statements_twist(body);
                let b = Twist::arr("body", kids);
                let r = obj3("Action", nm, ins, b);
                proof {
                    lemma_obj_eq(twist_view(r), object_member_view(*self));
                }
                r
            },
        }
    }
}

impl Twistable for ObjectDef {
    open spec fn spec_twist(&self) -> TwistV {
        object_def_view(*self)
    }

    fn twist(&self) -> (r: Twist)
        ensures
            twist_view(r) == self.spec_twist(),
    {
        let mut n = String::new();
        n.append(self.name.as_str());
        let nm = Twist::attr("name", n);
        let tps = Twist::twist_arr("type_params", &self.type_params);
        let kids = types_twist(&self.composes);
        let comps = Twist::arr("composes", kids);
        let ins = Twist::val("inputs", stack_image_twist(&self.inputs));
        let members = Twist::twist_arr("members", &self.members);
        let bkids = statements_twist(&self.body);
        let b = Twist::arr("body", bkids);
        proof {
            assert(twist_view(tps)->Arr_1 =~= object_def_view(*self)->Obj_1[1]->Arr_1);
            assert(twist_view(tps) == object_def_view(*self)->Obj_1[1]);
            assert(twist_view(members)->Arr_1 =~= object_def_view(*self)->Obj_1[4]->Arr_1);
            assert(twist_view(members) == object_def_view(*self)->Obj_1[4]);
        }
        let r = obj6("ObjectDef", nm, tps, comps, ins, members, b);
        proof {
            lemma_obj_eq(twist_view(r), object_def_view(*self));
        }
        r
    }
}

impl Twistable for FunctionDef {
    open spec fn spec_twist(&self) -> TwistV {
        function_def_view(*self)
    }

    fn twist(&self) -> (r: Twist)
        ensures
            twist_view(r) == self.spec_twist(),
    {
        let mut n = String::new();
        n.append(self.name.as_str());
        let nm = Twist::attr("name", n);
        let tps = Twist::twist_arr("type_params", &self.type_params);
        let eff = Twist::val("effect", stack_effect_twist(&self.effect));
        let bkids = statements_twist(&self.body);
        let b = Twist::arr("body", bkids);
        proof {
            assert(twist_view(tps)->Arr_1 =~= function_def_view(*self)->Obj_1[1]->Arr_1);
            assert(twist_view(tps) == function_def_view(*self)->Obj_1[1]);
        }
        let r = obj4("Function", nm, tps, eff, b);
        proof {
            lemma_obj_eq(twist_view(r), function_def_view(*self));
        }
        r
    }
}

impl Twistable for VarDef {
    open spec fn spec_twist(&self) -> TwistV {
        var_def_view(*self)
    }

    fn twist(&self) -> (r: Twist)
        ensures
            twist_view(r) == self.spec_twist(),
    {
        let mut n = String::new();
        n.append(self.name.as_str());
        let nm = Twist::attr("name", n);
        let vt = Twist::val("value_type", schism_type_twist(&self.value_type));
        let ins = Twist::val("inputs", stack_image_twist(&self.inputs));
        let bkids = statements_twist(&self.body);
        let b = Twist::arr("body", bkids);
        let r = obj4("Variable", nm, vt, ins, b);
        proof {
            lemma_obj_eq(twist_view(r), var_def_view(*self));
        }
        r
    }
}

impl Twistable for Definition {
    open spec fn spec_twist(&self) -> TwistV {
        definition_view(*self)
    }

    fn twist(&self) -> (r: Twist)
        ensures
            twist_view(r) == self.spec_twist(),
    {
        match self {
            Definition::Sig(s) => s.twist(),
            Definition::Obj(o) => o.twist(),
            Definition::Function(f) => f.twist(),
            Definition::Var(v) => v.twist(),
        }
    }
}

impl Twistable for Sect {
    open spec fn spec_twist(&self) -> TwistV {
        sect_view(*self)
    }

    fn twist(&self) -> (r: Twist)
        ensures
            twist_view(r) == self.spec_twist(),
    {
        let uses = Twist::twist_arr("uses", &self.uses);
        let defs = Twist::twist_arr("defs", &self.defs);
        let r = obj2("sect", uses, defs);
        proof {
            assert(twist_view(uses)->Arr_1 =~= Seq::new(
                self.uses@.len(),
                |i: int| use_decl_view(self.uses@[i]),
            ));
            assert(twist_view(defs)->Arr_1 =~= Seq::new(
                self.defs@.len(),
                |i: int| definition_view(self.defs@[i]),
            ));
            lemma_obj_eq(twist_view(r), sect_view(*self));
        }
        r
    }
}

} // verus!

verus! {

/// Two object shapes with the same name and pointwise equal children are
/// the same shape.
proof fn lemma_obj_eq(a: TwistV, b: TwistV)
    requires
        a is Obj,
        b is Obj,
        a->Obj_0 == b->Obj_0,
        a->Obj_1.len() == b->Obj_1.len(),
        forall|j: int| 0 <= j < a->Obj_1.len() ==> a->Obj_1[j] == b->Obj_1[j],
    ensures
        a == b,
{
    assert(a->Obj_1 =~= b->Obj_1);
}

/// An object node with one child.
fn obj1(name: &str, c0: Twist) -> (r: Twist)
    ensures
        twist_view(r) matches TwistV::Obj(n, cs) && n == name@ && cs.len() == 1 && cs[0]
            == twist_view(c0),
{
    let ghost v0 = twist_view(c0);
    let mut kids: Vec<Twist> = Vec::new();
    kids.push(c0);
    let ghost kv = kids@;
    let r = Twist::obj(name, kids);
    proof {
        lemma_twists_view_len(kv);
    }
    r
}

/// An object node with two children.
fn obj2(name: &str, c0: Twist, c1: Twist) -> (r: Twist)
    ensures
        twist_view(r) matches TwistV::Obj(n, cs) && n == name@ && cs.len() == 2 && cs[0]
            == twist_view(c0) && cs[1] == twist_view(c1),
{
    let ghost v0 = twist_view(c0);
    let ghost v1 = twist_view(c1);
    let mut kids: Vec<Twist> = Vec::new();
    kids.push(c0);
    kids.push(c1);
    let ghost kv = kids@;
    let r = Twist::obj(name, kids);
    proof {
        lemma_twists_view_len(kv);
    }
    r
}

/// An object node with three children.
fn obj3(name: &str, c0: Twist, c1: Twist, c2: Twist) -> (r: Twist)
    ensures
        twist_view(r) matches TwistV::Obj(n, cs) && n == name@ && cs.len() == 3 && cs[0]
            == twist_view(c0) && cs[1] == twist_view(c1) && cs[2] == twist_view(c2),
{
    let ghost v0 = twist_view(c0);
    let ghost v1 = twist_view(c1);
    let ghost v2 = twist_view(c2);
    let mut kids: Vec<Twist> = Vec::new();
    kids.push(c0);
    kids.push(c1);
    kids.push(c2);
    let ghost kv = kids@;
    let r = Twist::obj(name, kids);
    proof {
        lemma_twists_view_len(kv);
    }
    r
}

/// An object node with four children.
fn obj4(name: &str, c0: Twist, c1: Twist, c2: Twist, c3: Twist) -> (r: Twist)
    ensures
        twist_view(r) matches TwistV::Obj(n, cs) && n == name@ && cs.len() == 4 && cs[0]
            == twist_view(c0) && cs[1] == twist_view(c1) && cs[2] == twist_view(c2) && cs[3]
            == twist_view(c3),
{
    let ghost v0 = twist_view(c0);
    let ghost v1 = twist_view(c1);
    let ghost v2 = twist_view(c2);
    let ghost v3 = twist_view(c3);
    let mut kids: Vec<Twist> = Vec::new();
    kids.push(c0);
    kids.push(c1);
    kids.push(c2);
    kids.push(c3);
    let ghost kv = kids@;
    let r = Twist::obj(name, kids);
    proof {
        lemma_twists_view_len(kv);
    }
    r
}

/// An object node with six children.
fn obj6(name: &str, c0: Twist, c1: Twist, c2: Twist, c3: Twist, c4: Twist, c5: Twist) -> (r: Twist)
    ensures
        twist_view(r) matches TwistV::Obj(n, cs) && n == name@ && cs.len() == 6 && cs[0]
            == twist_view(c0) && cs[1] == twist_view(c1) && cs[2] == twist_view(c2) && cs[3]
            == twist_view(c3) && cs[4] == twist_view(c4) && cs[5] == twist_view(c5),
{
    let ghost v0 = twist_view(c0);
    let ghost v1 = twist_view(c1);
    let ghost v2 = twist_view(c2);
    let ghost v3 = twist_view(c3);
    let ghost v4 = twist_view(c4);
    let ghost v5 = twist_view(c5);
    let mut kids: Vec<Twist> = Vec::new();
    kids.push(c0);
    kids.push(c1);
    kids.push(c2);
    kids.push(c3);
    kids.push(c4);
    kids.push(c5);
    let ghost kv = kids@;
    let r = Twist::obj(name, kids);
    proof {
        lemma_twists_view_len(kv);
    }
    r
}

} // verus!
