//! The abstract-syntax/type data model: the recursive type grammar
//! (structural types, stack images, stack effects, generic signatures,
//! object/function/variable definitions, statement forms) that every later
//! compiler phase operates over, plus module paths and identifiers.
//!
//! Stack images list their entries top-of-stack-last: the last listed entry
//! is nearest the top.

use vstd::prelude::*;
use crate::chars::push_char;
use crate::chars::nondot_run_len;
use crate::chars::lemma_nondot_run_is;
use crate::location::append_lit;
use crate::token::ContextName;
use crate::token::LowerName;
use crate::token::TypeVarName;
use crate::token::UpperName;

verus! {

/// A dot-separated namespace path, canonical in its source spelling and
/// used as the key of the driver's module map.
#[derive(Debug, Eq, Clone)]
pub struct ModulePath(pub String);

impl PartialEq for ModulePath {
    fn eq(&self, o: &ModulePath) -> (r: bool) {
        self.0 == o.0
    }
}

impl vstd::std_specs::cmp::PartialEqSpecImpl for ModulePath {
    open spec fn obeys_eq_spec() -> bool {
        true
    }

    open spec fn eq_spec(&self, o: &ModulePath) -> bool {
        self.0@ == o.0@
    }
}

/// The text of `items` joined by `sep`.
pub open spec fn spec_join(items: Seq<Seq<char>>, sep: Seq<char>) -> Seq<char>
    decreases items.len(),
{
    if items.len() == 0 {
        Seq::empty()
    } else if items.len() == 1 {
        items[0]
    } else {
        spec_join(items.drop_last(), sep) + sep + items.last()
    }
}

/// Joins strings with a separator.
pub fn join_strings(items: &Vec<String>, sep: &str) -> (s: String)
    ensures
        s@ == spec_join(items.deep_view(), sep@),
{
    let mut s = String::new();
    let n = items.len();
    let mut i: usize = 0;
    while i < n
        invariant
            n == items@.len(),
            i <= n,
            s@ == spec_join(items.deep_view().take(i as int), sep@),
        decreases n - i,
    {
        if i > 0 {
            append_lit(&mut s, sep);
        }
        s.append(items[i].as_str());
        proof {
            let dv = items.deep_view();
            assert(dv.take(i + 1).drop_last() =~= dv.take(i as int));
            assert(dv.take(i + 1).last() == dv[i as int]);
        }
        i = i + 1;
    }
    proof {
        assert(items.deep_view().take(n as int) =~= items.deep_view());
    }
    s
}

/// The non-separator segments of `s`, split on `sep`: the segment before
/// each separator, and the (possibly empty) remainder after the last one.
pub open spec fn spec_split_dots(s: Seq<char>, i: int) -> Seq<Seq<char>>
    decreases s.len() - i,
        when 0 <= i <= s.len()
{
    let j = i + nondot_run_len(s, i);
    if j >= s.len() {
        seq![s.subrange(i, s.len() as int)]
    } else {
        seq![s.subrange(i, j)] + spec_split_dots(s, j + 1)
    }
}

impl ModulePath {
    /// Builds a path from its segments, joined by dots.
    pub fn new(segments: Vec<String>) -> (r: ModulePath)
        ensures
            r.0@ == spec_join(segments.deep_view(), "."@),
    {
        ModulePath(join_strings(&segments, "."))
    }

    /// The path rendered as a relative file path: every dot becomes a
    /// path-segment separator.
    pub fn to_file_syntax(&self) -> (r: String)
        ensures
            r@ == self.0@.map_values(|c: char| if c == '.' { '/' } else { c }),
    {
        let text = self.0.as_str();
        let n = text.unicode_len();
        let mut out = String::new();
        let mut i: usize = 0;
        while i < n
            invariant
                n == text@.len(),
                i <= n,
                out@.len() == i,
                forall|k: int|
                    0 <= k < i ==> out@[k] == (if text@[k] == '.' {
                        '/'
                    } else {
                        text@[k]
                    }),
            decreases n - i,
        {
            let c = text.get_char(i);
            if c == '.' {
                push_char(&mut out, '/');
            } else {
                push_char(&mut out, c);
            }
            i = i + 1;
        }
        proof {
            assert(out@ =~= self.0@.map_values(|c: char| if c == '.' { '/' } else { c }));
        }
        out
    }

    /// The dot-separated segments of the path.
    pub fn segments(&self) -> (r: Vec<String>)
        ensures
            r.deep_view() == spec_split_dots(self.0@, 0),
    {
        let text = self.0.as_str();
        let n = text.unicode_len();
        let mut segs: Vec<String> = Vec::new();
        let mut i: usize = 0;
        loop
            invariant_except_break
                n == text@.len(),
                i <= n,
                spec_split_dots(text@, 0) =~= segs.deep_view() + spec_split_dots(
                    text@,
                    i as int,
                ),
            ensures
                segs.deep_view() == spec_split_dots(text@, 0),
            decreases n - i,
        {
            let seg_start = i;
            let mut seg = String::new();
            while i < n && text.get_char(i) != '.'
                invariant
                    n == text@.len(),
                    seg_start <= i <= n,
                    seg@ == text@.subrange(seg_start as int, i as int),
                    forall|k: int| seg_start <= k < i ==> text@[k] != '.',
                decreases n - i,
            {
                let c = text.get_char(i);
                push_char(&mut seg, c);
                proof {
                    assert(seg@ =~= text@.subrange(seg_start as int, i + 1));
                }
                i = i + 1;
            }
            proof {
                lemma_nondot_run_is(text@, seg_start as int, i as int);
            }
            segs.push(seg);
            if i >= n {
                proof {
                    assert(segs.deep_view() =~= segs.deep_view().drop_last().push(seg@));
                    assert(spec_split_dots(text@, seg_start as int) =~= seq![seg@]);
                    assert(spec_split_dots(text@, 0) =~= segs.deep_view());
                }
                break ;
            }
            proof {
                assert(spec_split_dots(text@, seg_start as int) =~= seq![seg@]
                    + spec_split_dots(text@, i + 1));
                assert(segs.deep_view() =~= segs.deep_view().drop_last().push(seg@));
                assert(segs.deep_view().drop_last() + (seq![seg@] + spec_split_dots(
                    text@,
                    i + 1,
                )) =~= segs.deep_view() + spec_split_dots(text@, i + 1));
            }
            i = i + 1;
        }
        segs
    }

    /// The path's own text.
    pub fn render(&self) -> (r: String)
        ensures
            r@ == self.0@,
    {
        let mut s = String::new();
        s.append(self.0.as_str());
        s
    }
}

/// An identifier that is either local or qualified by a module path.
#[derive(Debug, PartialEq, Eq, Clone)]
pub enum Ident {
    Scoped { path: ModulePath, name: String },
    Local(String),
}

/// The display text of an identifier: `path.name` when scoped.
pub open spec fn spec_ident_text(id: Ident) -> Seq<char> {
    match id {
        Ident::Scoped { path, name } => path.0@ + "."@ + name@,
        Ident::Local(n) => n@,
    }
}

impl Ident {
    /// Renders the identifier as it appears in source and dumps.
    pub fn render(&self) -> (r: String)
        ensures
            r@ == spec_ident_text(*self),
    {
        match self {
            Ident::Scoped { path, name } => {
                let mut s = String::new();
                s.append(path.0.as_str());
                append_lit(&mut s, ".");
                s.append(name.as_str());
                assert(s@ =~= spec_ident_text(*self));
                s
            },
            Ident::Local(n) => {
                let mut s = String::new();
                s.append(n.as_str());
                s
            },
        }
    }
}

pub type TypeIdent = Ident;

pub type LowerIdent = Ident;

/// An import of specific names from another module; there is no wildcard
/// import.
#[derive(Debug, PartialEq, Eq, Clone)]
pub struct UseDecl {
    pub sect: ModulePath,
    pub type_names: Vec<UpperName>,
    pub function_names: Vec<LowerName>,
}

/// The recursive type grammar.
#[derive(Debug, PartialEq, Eq)]
pub enum SchismType {
    ParametricType(TypeIdent, Vec<SchismType>),
    SimpleType(TypeIdent),
    UnboundTypeVar(TypeVarName),
    FunctionType(StackEffect),
}

/// One stack slot: anonymous, or bound to a local name visible in the
/// effect's body.
#[derive(Debug, PartialEq, Eq)]
pub enum StackEntry {
    TypeEntry(SchismType),
    NamedEntry(LowerName, SchismType),
}

/// An ordered list of typed stack slots (top of stack last), with an
/// optional polymorphic tail variable naming the rest of the stack below.
/// An absent context means the effect is not stack-polymorphic.
#[derive(Debug, PartialEq, Eq)]
pub struct StackImage {
    pub context: Option<ContextName>,
    pub stack: Vec<StackEntry>,
}

/// A function or method type: the shape of the value stack before and
/// after a call, plus the ambient effect domains threaded through it.
#[derive(Debug, PartialEq, Eq)]
pub struct StackEffect {
    pub effect_domains: Vec<TypeIdent>,
    pub before: StackImage,
    pub after: StackImage,
}

/// A top-level definition.
#[derive(Debug, PartialEq, Eq)]
pub enum Definition {
    Sig(SigDef),
    Obj(ObjectDef),
    Function(FunctionDef),
    Var(VarDef),
}

/// An interface definition.
#[derive(Debug, PartialEq, Eq)]
pub struct SigDef {
    pub name: UpperName,
    pub type_params: Vec<TypeParam>,
    pub composes: Vec<SchismType>,
    pub operations: Vec<OperationSig>,
}

/// A generic type parameter, with an optional constraint. The names are
/// unique within one definition's parameter list.
#[derive(Debug, PartialEq, Eq)]
pub struct TypeParam {
    pub name: TypeVarName,
    pub constraint: Option<SchismType>,
}

/// One operation of an interface: a method (returns a value, described by
/// a full effect) or an action (side-effecting, consumes an input image
/// only).
#[derive(Debug, PartialEq, Eq)]
pub enum OperationSig {
    MethodSig { name: LowerName, effect: StackEffect },
    ActionSig { name: LowerName, inputs: StackImage },
}

/// A concrete type definition; `inputs` is the constructor's consumed
/// stack image and `body` its initializer.
#[derive(Debug, PartialEq, Eq)]
pub struct ObjectDef {
    pub name: UpperName,
    pub type_params: Vec<TypeParam>,
    pub composes: Vec<SchismType>,
    pub inputs: StackImage,
    pub members: Vec<ObjectMemberDecl>,
    pub body: Vec<Statement>,
}

/// A member of an object definition: a slot (a field with its own
/// initializer), a method, or an action.
#[derive(Debug, PartialEq, Eq)]
pub enum ObjectMemberDecl {
    ObjectSlot {
        name: LowerName,
        value_type: SchismType,
        inputs: StackImage,
        body: Vec<Statement>,
    },
    ObjectMethod { name: LowerName, effect: StackEffect, body: Vec<Statement> },
    ObjectAction { name: LowerName, inputs: StackImage, body: Vec<Statement> },
}

/// A function definition.
#[derive(Debug, PartialEq, Eq)]
pub struct FunctionDef {
    pub name: LowerName,
    pub type_params: Vec<TypeParam>,
    pub effect: StackEffect,
    pub body: Vec<Statement>,
}

/// A module-level variable with an initializer.
#[derive(Debug, PartialEq, Eq)]
pub struct VarDef {
    pub name: LowerName,
    pub value_type: SchismType,
    pub inputs: StackImage,
    pub body: Vec<Statement>,
}

/// A statement. A float literal keeps its exact source text end-to-end.
#[derive(Debug, PartialEq, Eq)]
pub enum Statement {
    StringLit(String),
    IntLit(i64),
    FloatLit(String),
    CharLit(char),
    Sequence(Vec<Statement>),
    Name(Ident),
    Block(Vec<Statement>, StackEffect),
    Local(LowerName),
    New(SchismType),
    DispatchStmt(Ident),
    CallStmt(Ident),
    CondStmt { clauses: Vec<CondClause>, else_clause: Vec<Statement> },
    LoopStmt { label: Option<LowerName>, body: Vec<Statement> },
    ForStmt { idx: LowerName, body: Vec<Statement> },
    ExitStmt(Option<LowerName>),
    NextStmt(Option<LowerName>),
}

/// One guarded clause of a conditional statement.
#[derive(Debug, PartialEq, Eq)]
pub struct CondClause {
    pub condition: Box<Statement>,
    pub body: Vec<Statement>,
}

/// One compilation unit: one source module's imports and definitions.
#[derive(Debug, PartialEq)]
pub struct Sect {
    pub uses: Vec<UseDecl>,
    pub defs: Vec<Definition>,
}

} // verus!
