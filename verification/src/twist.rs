//! The structural dump: a deterministic, indentation-based textual tree
//! over any AST node, used by the test suite as an oracle for structural
//! equality. It is a pure tree-to-text renderer and not part of
//! compilation semantics, but its grammar is stable and stated exactly.

use vstd::prelude::*;
use crate::ast::spec_join;
use crate::ast::join_strings;
use crate::chars::char_whitespace;
use crate::chars::unicode_whitespace;
use crate::location::append_lit;

verus! {

/// A node of the dump tree: an object with named children, a named array,
/// a name/value attribute, a named optional value, or a bare leaf.
#[derive(Debug, PartialEq)]
pub enum Twist {
    ObjNode(String, Vec<Twist>),
    ArrayNode(String, Vec<Twist>),
    AttrNode(String, String),
    ValueNode(String, Option<Box<Twist>>),
    LeafNode(String),
}

/// The mathematical shape of a dump tree: every string as its character
/// sequence.
pub enum TwistV {
    Obj(Seq<char>, Seq<TwistV>),
    Arr(Seq<char>, Seq<TwistV>),
    Attr(Seq<char>, Seq<char>),
    Val(Seq<char>, Option<Box<TwistV>>),
    Leaf(Seq<char>),
}

/// The shape of a dump tree.
pub open spec fn twist_view(t: Twist) -> TwistV
    decreases t,
{
    match t {
        Twist::ObjNode(name, children) => TwistV::Obj(name@, twists_view(children@)),
        Twist::ArrayNode(name, children) => TwistV::Arr(name@, twists_view(children@)),
        Twist::AttrNode(name, value) => TwistV::Attr(name@, value@),
        Twist::ValueNode(name, ov) => TwistV::Val(
            name@,
            match ov {
                Some(b) => Some(Box::new(twist_view(*b))),
                None => None,
            },
        ),
        Twist::LeafNode(name) => TwistV::Leaf(name@),
    }
}

/// The shapes of a list of dump trees.
pub open spec fn twists_view(ts: Seq<Twist>) -> Seq<TwistV>
    decreases ts,
{
    if ts.len() == 0 {
        Seq::empty()
    } else {
        seq![twist_view(ts[0])] + twists_view(ts.drop_first())
    }
}

pub proof fn lemma_twists_view_len(ts: Seq<Twist>)
    ensures
        twists_view(ts).len() == ts.len(),
        forall|i: int| 0 <= i < ts.len() ==> twists_view(ts)[i] == twist_view(ts[i]),
    decreases ts,
{
    if ts.len() > 0 {
        lemma_twists_view_len(ts.drop_first());
    }
}

impl Twist {
    /// An object node.
    pub fn obj(name: &str, children: Vec<Twist>) -> (r: Twist)
        ensures
            twist_view(r) == TwistV::Obj(name@, twists_view(children@)),
    {
        Twist::ObjNode(name.to_owned(), children)
    }

    /// An array node.
    pub fn arr(name: &str, children: Vec<Twist>) -> (r: Twist)
        ensures
            twist_view(r) == TwistV::Arr(name@, twists_view(children@)),
    {
        Twist::ArrayNode(name.to_owned(), children)
    }

    /// A leaf node.
    pub fn leaf(name: &str) -> (r: Twist)
        ensures
            twist_view(r) == TwistV::Leaf(name@),
    {
        Twist::LeafNode(name.to_owned())
    }

    /// An attribute node.
    pub fn attr(name: &str, value: String) -> (r: Twist)
        ensures
            twist_view(r) == TwistV::Attr(name@, value@),
    {
        Twist::AttrNode(name.to_owned(), value)
    }

    /// A named optional value node.
    pub fn opt_val(name: &str, value: Option<Twist>) -> (r: Twist)
        ensures
            twist_view(r) == TwistV::Val(
                name@,
                match value {
                    Some(v) => Some(Box::new(twist_view(v))),
                    None => None,
                },
            ),
    {
        match value {
            Some(v) => Twist::ValueNode(name.to_owned(), Some(Box::new(v))),
            None => Twist::ValueNode(name.to_owned(), None),
        }
    }

    /// A named value node.
    pub fn val(name: &str, value: Twist) -> (r: Twist)
        ensures
            twist_view(r) == TwistV::Val(name@, Some(Box::new(twist_view(value)))),
    {
        Twist::ValueNode(name.to_owned(), Some(Box::new(value)))
    }
}

/// Anything the structural dump can picture. `spec_twist` is the exact
/// shape of the node's dump tree; `twist` builds it.
pub trait Twistable {
    spec fn spec_twist(&self) -> TwistV;

    fn twist(&self) -> (r: Twist)
        ensures
            twist_view(r) == self.spec_twist(),
    ;
}

impl Twist {
    /// An array node over anything the dump can picture.
    pub fn twist_arr<T: Twistable>(name: &str, children: &Vec<T>) -> (r: Twist)
        ensures
            twist_view(r) matches TwistV::Arr(n, cs) && n == name@ && cs.len() == children@.len()
                && (forall|j: int| 0 <= j < children@.len() ==> cs[j] == children@[j].spec_twist()),
    {
        let n = children.len();
        let mut kids: Vec<Twist> = Vec::new();
        let mut i: usize = 0;
        while i < n
            invariant
                n == children@.len(),
                i <= n,
                kids@.len() == i,
                forall|j: int|
                    0 <= j < i ==> twist_view(kids@[j]) == children@[j].spec_twist(),
            decreases n - i,
        {
            let t = children[i].twist();
            kids.push(t);
            i = i + 1;
        }
        proof {
            lemma_twists_view_len(kids@);
        }
        Twist::arr(name, kids)
    }

    /// A named value node over anything the dump can picture.
    pub fn twist_val<T: Twistable>(name: &str, value: &T) -> (r: Twist)
        ensures
            twist_view(r) == TwistV::Val(name@, Some(Box::new(value.spec_twist()))),
    {
        Twist::val(name, value.twist())
    }

    /// A named optional value node over anything the dump can picture.
    pub fn twist_opt_val<T: Twistable>(name: &str, value: Option<&T>) -> (r: Twist)
        ensures
            twist_view(r) == TwistV::Val(
                name@,
                match value {
                    Some(v) => Some(Box::new(v.spec_twist())),
                    None => None,
                },
            ),
    {
        match value {
            Some(v) => Twist::val(name, v.twist()),
            None => Twist::opt_val(name, None),
        }
    }
}

/// Whether some character of `s` is not whitespace. An object's child
/// whose rendering is all whitespace is left out of the dump.
pub open spec fn has_ink(s: Seq<char>) -> bool {
    exists|k: int| 0 <= k < s.len() && !unicode_whitespace(s[k])
}

fn string_has_ink(s: &String) -> (r: bool)
    ensures
        r == has_ink(s@),
{
    let text = s.as_str();
    let n = text.unicode_len();
    let mut i: usize = 0;
    while i < n
        invariant
            text@ == s@,
            n == text@.len(),
            i <= n,
            forall|k: int| 0 <= k < i ==> unicode_whitespace(text@[k]),
        decreases n - i,
    {
        if !char_whitespace(text.get_char(i)) {
            assert(0 <= i < s@.len() && !unicode_whitespace(s@[i as int]));
            return true;
        }
        i = i + 1;
    }
    false
}

/// The rendering of one node, under the given indentation prefix. Children
/// are rendered one indentation step (three spaces) deeper; an object
/// child whose own rendering is all whitespace, an empty array, and an
/// absent value render as nothing.
pub open spec fn spec_render(v: TwistV, pre: Seq<char>) -> Seq<char>
    decreases v,
{
    match v {
        TwistV::Obj(name, children) => pre + "obj "@ + name + ":\n"@ + spec_render_obj_children(
            children,
            pre + "   "@,
        ),
        TwistV::Arr(name, children) => {
            if children.len() > 0 {
                pre + "arr "@ + name + ":\n"@ + spec_render_all(children, pre + "   "@)
            } else {
                Seq::empty()
            }
        },
        TwistV::Attr(name, value) => pre + "attr "@ + name + "='"@ + value + "'\n"@,
        TwistV::Val(name, ov) => match ov {
            Some(b) => pre + "value "@ + name + ":\n"@ + spec_render(*b, pre + "   "@),
            None => Seq::empty(),
        },
        TwistV::Leaf(name) => pre + name + "\n"@,
    }
}

/// The renderings of an object's children, keeping only those with ink.
pub open spec fn spec_render_obj_children(cs: Seq<TwistV>, pre: Seq<char>) -> Seq<char>
    decreases cs,
{
    if cs.len() == 0 {
        Seq::empty()
    } else {
        let first = spec_render(cs[0], pre);
        (if has_ink(first) {
            first
        } else {
            Seq::<char>::empty()
        }) + spec_render_obj_children(cs.drop_first(), pre)
    }
}

/// The renderings of an array's children, all kept.
pub open spec fn spec_render_all(cs: Seq<TwistV>, pre: Seq<char>) -> Seq<char>
    decreases cs,
{
    if cs.len() == 0 {
        Seq::empty()
    } else {
        spec_render(cs[0], pre) + spec_render_all(cs.drop_first(), pre)
    }
}

impl Twist {
    /// Renders the node into `rendered`, under the indentation text
    /// `indent`.
    pub fn render(&self, rendered: &mut String, indent: &str)
        ensures
            final(rendered)@ == old(rendered)@ + spec_render(twist_view(*self), indent@),
        decreases *self,
    {
        let ghost pre = indent@;
        match self {
            Twist::ObjNode(name, children) => {
                append_lit(rendered, indent);
                append_lit(rendered, "obj ");
                rendered.append(name.as_str());
                append_lit(rendered, ":\n");
                let mut deeper = String::new();
                deeper.append(indent);
                append_lit(&mut deeper, "   ");
                let ghost mid = rendered@;
                let n = children.len();
                let mut i: usize = 0;
                while i < n
                    invariant
                        (*self) is ObjNode,
                        self->ObjNode_1 == *children,
                        n == children@.len(),
                        i <= n,
                        deeper@ == pre + "   "@,
                        rendered@ == mid + spec_render_obj_children(
                            twists_view(children@).take(i as int),
                            deeper@,
                        ),
                    decreases n - i,
                {
                    proof {
                        lemma_twists_view_len(children@);
                        broadcast use vstd::std_specs::vec::axiom_vec_index_decreases;

                        assert(decreases_to!(*self => self->ObjNode_1));
                        assert(decreases_to!(*children => children[i as int]));
                        assert(decreases_to!(*self => children[i as int]));
                    }
                    let mut cr = String::new();
                    children[i].render(&mut cr, deeper.as_str());
                    if string_has_ink(&cr) {
                        rendered.append(cr.as_str());
                    }
                    proof {
                        lemma_obj_children_take_step(twists_view(children@), deeper@, i as int);
                    }
                    i = i + 1;
                }
                proof {
                    lemma_twists_view_len(children@);
                    assert(twists_view(children@).take(n as int) =~= twists_view(children@));
                    assert(mid =~= old(rendered)@ + (pre + "obj "@ + name@ + ":\n"@));
                    assert(spec_render(twist_view(*self), pre) == pre + "obj "@ + name@ + ":\n"@
                        + spec_render_obj_children(twists_view(children@), pre + "   "@));
                    assert(rendered@ =~= old(rendered)@ + spec_render(twist_view(*self), pre));
                }
            },
            Twist::ArrayNode(name, children) => {
                if children.len() > 0 {
                    append_lit(rendered, indent);
                    append_lit(rendered, "arr ");
                    rendered.append(name.as_str());
                    append_lit(rendered, ":\n");
                    let mut deeper = String::new();
                    deeper.append(indent);
                    append_lit(&mut deeper, "   ");
                    let ghost mid = rendered@;
                    let n = children.len();
                    let mut i: usize = 0;
                    while i < n
                        invariant
                            (*self) is ArrayNode,
                            self->ArrayNode_1 == *children,
                            n == children@.len(),
                            i <= n,
                            deeper@ == pre + "   "@,
                            rendered@ == mid + spec_render_all(
                                twists_view(children@).take(i as int),
                                deeper@,
                            ),
                        decreases n - i,
                    {
                        proof {
                            lemma_twists_view_len(children@);
                            broadcast use vstd::std_specs::vec::axiom_vec_index_decreases;

                            assert(decreases_to!(*self => self->ArrayNode_1));
                            assert(decreases_to!(*children => children[i as int]));
                            assert(decreases_to!(*self => children[i as int]));
                        }
                        children[i].render(rendered, deeper.as_str());
                        proof {
                            lemma_render_all_take_step(twists_view(children@), deeper@, i as int);
                        }
                        i = i + 1;
                    }
                    proof {
                        lemma_twists_view_len(children@);
                        assert(twists_view(children@).take(n as int) =~= twists_view(children@));
                        assert(rendered@ =~= old(rendered)@ + spec_render(twist_view(*self), pre));
                    }
                }
            },
            Twist::AttrNode(name, value) => {
                append_lit(rendered, indent);
                append_lit(rendered, "attr ");
                rendered.append(name.as_str());
                append_lit(rendered, "='");
                rendered.append(value.as_str());
                append_lit(rendered, "'\n");
                assert(rendered@ =~= old(rendered)@ + spec_render(twist_view(*self), pre));
            },
            Twist::ValueNode(name, ov) => {
                match ov {
                    Some(b) => {
                        append_lit(rendered, indent);
                        append_lit(rendered, "value ");
                        rendered.append(name.as_str());
                        append_lit(rendered, ":\n");
                        let mut deeper = String::new();
                        deeper.append(indent);
                        append_lit(&mut deeper, "   ");
                        (&**b).render(rendered, deeper.as_str());
                        assert(rendered@ =~= old(rendered)@ + spec_render(twist_view(*self), pre));
                    },
                    None => {
                        assert(rendered@ =~= old(rendered)@ + spec_render(twist_view(*self), pre));
                    },
                }
            },
            Twist::LeafNode(name) => {
                append_lit(rendered, indent);
                rendered.append(name.as_str());
                append_lit(rendered, "\n");
                assert(rendered@ =~= old(rendered)@ + spec_render(twist_view(*self), pre));
            },
        }
        proof {
            assert(rendered@ == old(rendered)@ + spec_render(twist_view(*self), indent@));
        }
    }

    /// The whole dump, rendered from one indentation step in.
    pub fn to_string(&self) -> (s: String)
        ensures
            s@ == spec_render(twist_view(*self), "   "@),
    {
        let mut s = String::new();
        self.render(&mut s, "   ");
        s
    }
}

/// The constructor-call text of one node, under the given indentation
/// prefix: Rust source that would rebuild the node. An object's child
/// whose code is all whitespace, an array's child with empty code, an
/// empty array, and an absent value are left out.
pub open spec fn spec_code(v: TwistV, pre: Seq<char>) -> Seq<char>
    decreases v,
{
    match v {
        TwistV::Obj(name, children) => pre + "Twist::obj(\""@ + name + "\",\n"@ + (pre + "   "@)
            + "vec![\n"@ + spec_join(spec_code_inky(children, pre + "   "@ + "   "@), ",\n"@)
            + "\n"@ + (pre + "   "@) + "])"@,
        TwistV::Arr(name, children) => {
            if children.len() > 0 {
                pre + "Twist::arr(\""@ + name + "\",\n"@ + (pre + "   "@) + "vec![\n"@
                    + spec_join(spec_code_nonempty(children, pre + "   "@ + "   "@), ",\n"@)
                    + "\n"@ + (pre + "   "@) + "])"@
            } else {
                Seq::empty()
            }
        },
        TwistV::Attr(name, value) => pre + "Twist::attr(\""@ + name + "\", \""@ + value
            + "\".to_string())"@,
        TwistV::Val(name, ov) => match ov {
            Some(b) => pre + "Twist::val(\""@ + name + "\",\n"@ + spec_code(*b, pre + "   "@)
                + "\n"@ + pre + ")"@,
            None => Seq::empty(),
        },
        TwistV::Leaf(name) => pre + "Twist::leaf(\""@ + name + "\")"@,
    }
}

/// The codes of an object's children, keeping only those with ink.
pub open spec fn spec_code_inky(cs: Seq<TwistV>, pre: Seq<char>) -> Seq<Seq<char>>
    decreases cs,
{
    if cs.len() == 0 {
        Seq::empty()
    } else {
        let first = spec_code(cs[0], pre);
        (if has_ink(first) {
            seq![first]
        } else {
            Seq::<Seq<char>>::empty()
        }) + spec_code_inky(cs.drop_first(), pre)
    }
}

/// The codes of an array's children, keeping only the non-empty ones.
pub open spec fn spec_code_nonempty(cs: Seq<TwistV>, pre: Seq<char>) -> Seq<Seq<char>>
    decreases cs,
{
    if cs.len() == 0 {
        Seq::empty()
    } else {
        let first = spec_code(cs[0], pre);
        (if first.len() > 0 {
            seq![first]
        } else {
            Seq::<Seq<char>>::empty()
        }) + spec_code_nonempty(cs.drop_first(), pre)
    }
}

impl Twist {
    /// Renders the node as constructor-call source text into `rendered`,
    /// under the indentation text `indent`.
    #[verifier::rlimit(60)]
    pub fn code(&self, rendered: &mut String, indent: &str)
        ensures
            final(rendered)@ == old(rendered)@ + spec_code(twist_view(*self), indent@),
        decreases *self,
    {
        let ghost pre = indent@;
        match self {
            Twist::ObjNode(name, children) => {
                append_lit(rendered, indent);
                append_lit(rendered, "Twist::obj(\"");
                rendered.append(name.as_str());
                append_lit(rendered, "\",\n");
                let mut deeper = String::new();
                deeper.append(indent);
                append_lit(&mut deeper, "   ");
                rendered.append(deeper.as_str());
                append_lit(rendered, "vec![\n");
                let mut deeper2 = String::new();
                deeper2.append(deeper.as_str());
                append_lit(&mut deeper2, "   ");
                let ghost mid = rendered@;
                let mut kept: Vec<String> = Vec::new();
                let n = children.len();
                let mut i: usize = 0;
                while i < n
                    invariant
                        (*self) is ObjNode,
                        self->ObjNode_1 == *children,
                        n == children@.len(),
                        i <= n,
                        deeper2@ == pre + "   "@ + "   "@,
                        kept.deep_view() == spec_code_inky(
                            twists_view(children@).take(i as int),
                            deeper2@,
                        ),
                    decreases n - i,
                {
                    proof {
                        lemma_twists_view_len(children@);
                        broadcast use vstd::std_specs::vec::axiom_vec_index_decreases;

                        assert(decreases_to!(*self => self->ObjNode_1));
                        assert(decreases_to!(*children => children[i as int]));
                        assert(decreases_to!(*self => children[i as int]));
                    }
                    let mut cstr = String::new();
                    children[i].code(&mut cstr, deeper2.as_str());
                    if string_has_ink(&cstr) {
                        let ghost kept0 = kept.deep_view();
                        kept.push(cstr);
                        proof {
                            assert(kept.deep_view() =~= kept0.push(
                                spec_code(twists_view(children@)[i as int], deeper2@),
                            ));
                        }
                    }
                    proof {
                        lemma_code_inky_take_step(twists_view(children@), deeper2@, i as int);
                        assert(kept.deep_view() =~= spec_code_inky(
                            twists_view(children@).take(i + 1),
                            deeper2@,
                        ));
                    }
                    i = i + 1;
                }
                proof {
                    lemma_twists_view_len(children@);
                    assert(twists_view(children@).take(n as int) =~= twists_view(children@));
                    assert(kept.deep_view() == spec_code_inky(
                        twists_view(children@),
                        pre + "   "@ + "   "@,
                    ));
                }
                let joined = join_strings(&kept, ",\n");
                rendered.append(joined.as_str());
                append_lit(rendered, "\n");
                rendered.append(deeper.as_str());
                append_lit(rendered, "])");
                proof {
                    assert(rendered@ =~= old(rendered)@ + spec_code(twist_view(*self), pre));
                }
            },
            Twist::ArrayNode(name, children) => {
                if children.len() > 0 {
                    append_lit(rendered, indent);
                    append_lit(rendered, "Twist::arr(\"");
                    rendered.append(name.as_str());
                    append_lit(rendered, "\",\n");
                    let mut deeper = String::new();
                    deeper.append(indent);
                    append_lit(&mut deeper, "   ");
                    rendered.append(deeper.as_str());
                    append_lit(rendered, "vec![\n");
                    let mut deeper2 = String::new();
                    deeper2.append(deeper.as_str());
                    append_lit(&mut deeper2, "   ");
                    let mut kept: Vec<String> = Vec::new();
                    let n = children.len();
                    let mut i: usize = 0;
                    while i < n
                        invariant
                            (*self) is ArrayNode,
                            self->ArrayNode_1 == *children,
                            n == children@.len(),
                            i <= n,
                            deeper2@ == pre + "   "@ + "   "@,
                            kept.deep_view() == spec_code_nonempty(
                                twists_view(children@).take(i as int),
                                deeper2@,
                            ),
                        decreases n - i,
                    {
                        proof {
                            lemma_twists_view_len(children@);
                            broadcast use vstd::std_specs::vec::axiom_vec_index_decreases;

                            assert(decreases_to!(*self => self->ArrayNode_1));
                            assert(decreases_to!(*children => children[i as int]));
                            assert(decreases_to!(*self => children[i as int]));
                        }
                        let mut cstr = String::new();
                        children[i].code(&mut cstr, deeper2.as_str());
                        if cstr.unicode_len() > 0 {
                            let ghost kept0 = kept.deep_view();
                            kept.push(cstr);
                            proof {
                                assert(kept.deep_view() =~= kept0.push(
                                    spec_code(twists_view(children@)[i as int], deeper2@),
                                ));
                            }
                        }
                        proof {
                            lemma_code_nonempty_take_step(
                                twists_view(children@),
                                deeper2@,
                                i as int,
                            );
                            assert(kept.deep_view() =~= spec_code_nonempty(
                                twists_view(children@).take(i + 1),
                                deeper2@,
                            ));
                        }
                        i = i + 1;
                    }
                    proof {
                        lemma_twists_view_len(children@);
                        assert(twists_view(children@).take(n as int) =~= twists_view(children@));
                        assert(kept.deep_view() == spec_code_nonempty(
                            twists_view(children@),
                            pre + "   "@ + "   "@,
                        ));
                    }
                    let joined = join_strings(&kept, ",\n");
                    rendered.append(joined.as_str());
                    append_lit(rendered, "\n");
                    rendered.append(deeper.as_str());
                    append_lit(rendered, "])");
                    proof {
                        assert(rendered@ =~= old(rendered)@ + spec_code(twist_view(*self), pre));
                    }
                } else {
                    assert(rendered@ =~= old(rendered)@ + spec_code(twist_view(*self), pre));
                }
            },
            Twist::AttrNode(name, value) => {
                append_lit(rendered, indent);
                append_lit(rendered, "Twist::attr(\"");
                rendered.append(name.as_str());
                append_lit(rendered, "\", \"");
                rendered.append(value.as_str());
                append_lit(rendered, "\".to_string())");
                assert(rendered@ =~= old(rendered)@ + spec_code(twist_view(*self), pre));
            },
            Twist::ValueNode(name, ov) => {
                match ov {
                    Some(b) => {
                        append_lit(rendered, indent);
                        append_lit(rendered, "Twist::val(\"");
                        rendered.append(name.as_str());
                        append_lit(rendered, "\",\n");
                        let mut deeper = String::new();
                        deeper.append(indent);
                        append_lit(&mut deeper, "   ");
                        (&**b).code(rendered, deeper.as_str());
                        append_lit(rendered, "\n");
                        append_lit(rendered, indent);
                        append_lit(rendered, ")");
                        assert(rendered@ =~= old(rendered)@ + spec_code(twist_view(*self), pre));
                    },
                    None => {
                        assert(rendered@ =~= old(rendered)@ + spec_code(twist_view(*self), pre));
                    },
                }
            },
            Twist::LeafNode(name) => {
                append_lit(rendered, indent);
                append_lit(rendered, "Twist::leaf(\"");
                rendered.append(name.as_str());
                append_lit(rendered, "\")");
                assert(rendered@ =~= old(rendered)@ + spec_code(twist_view(*self), pre));
            },
        }
        proof {
            assert(rendered@ == old(rendered)@ + spec_code(twist_view(*self), indent@));
        }
    }

    /// The whole constructor-call text, rendered from one indentation step
    /// in.
    pub fn to_code(&self) -> (s: String)
        ensures
            s@ == spec_code(twist_view(*self), "   "@),
    {
        let mut s = String::new();
        self.code(&mut s, "   ");
        s
    }
}

proof fn lemma_code_inky_take_step(cs: Seq<TwistV>, pre: Seq<char>, i: int)
    requires
        0 <= i < cs.len(),
    ensures
        spec_code_inky(cs.take(i + 1), pre) == spec_code_inky(cs.take(i), pre) + (if has_ink(
            spec_code(cs[i], pre),
        ) {
            seq![spec_code(cs[i], pre)]
        } else {
            Seq::<Seq<char>>::empty()
        }),
    decreases i,
{
    if i == 0 {
        assert(cs.take(1)[0] == cs[0]);
        assert(cs.take(1).drop_first() =~= cs.take(0));
        assert(spec_code_inky(cs.take(1), pre) =~= Seq::<Seq<char>>::empty() + spec_code_inky(
            cs.take(1),
            pre,
        ));
    } else {
        lemma_code_inky_take_step(cs.drop_first(), pre, i - 1);
        assert(cs.take(i + 1)[0] == cs[0]);
        assert(cs.take(i + 1).drop_first() =~= cs.drop_first().take(i));
        assert(cs.take(i).drop_first() =~= cs.drop_first().take(i - 1));
        assert(cs.take(i)[0] == cs[0]);
        assert(cs.drop_first()[i - 1] == cs[i]);
        assert(spec_code_inky(cs.take(i + 1), pre) =~= spec_code_inky(cs.take(i), pre) + (
        if has_ink(spec_code(cs[i], pre)) {
            seq![spec_code(cs[i], pre)]
        } else {
            Seq::<Seq<char>>::empty()
        }));
    }
}

proof fn lemma_code_nonempty_take_step(cs: Seq<TwistV>, pre: Seq<char>, i: int)
    requires
        0 <= i < cs.len(),
    ensures
        spec_code_nonempty(cs.take(i + 1), pre) == spec_code_nonempty(cs.take(i), pre) + (
        if spec_code(cs[i], pre).len() > 0 {
            seq![spec_code(cs[i], pre)]
        } else {
            Seq::<Seq<char>>::empty()
        }),
    decreases i,
{
    if i == 0 {
        assert(cs.take(1)[0] == cs[0]);
        assert(cs.take(1).drop_first() =~= cs.take(0));
        assert(spec_code_nonempty(cs.take(1), pre) =~= Seq::<Seq<char>>::empty()
            + spec_code_nonempty(cs.take(1), pre));
    } else {
        lemma_code_nonempty_take_step(cs.drop_first(), pre, i - 1);
        assert(cs.take(i + 1)[0] == cs[0]);
        assert(cs.take(i + 1).drop_first() =~= cs.drop_first().take(i));
        assert(cs.take(i).drop_first() =~= cs.drop_first().take(i - 1));
        assert(cs.take(i)[0] == cs[0]);
        assert(cs.drop_first()[i - 1] == cs[i]);
        assert(spec_code_nonempty(cs.take(i + 1), pre) =~= spec_code_nonempty(cs.take(i), pre) + (
        if spec_code(cs[i], pre).len() > 0 {
            seq![spec_code(cs[i], pre)]
        } else {
            Seq::<Seq<char>>::empty()
        }));
    }
}

proof fn lemma_obj_children_take_step(cs: Seq<TwistV>, pre: Seq<char>, i: int)
    requires
        0 <= i < cs.len(),
    ensures
        spec_render_obj_children(cs.take(i + 1), pre) == spec_render_obj_children(cs.take(i), pre)
            + (if has_ink(spec_render(cs[i], pre)) {
            spec_render(cs[i], pre)
        } else {
            Seq::<char>::empty()
        }),
    decreases i,
{
    if i == 0 {
        assert(cs.take(1)[0] == cs[0]);
        assert(cs.take(1).drop_first() =~= cs.take(0));
        assert(spec_render_obj_children(cs.take(0), pre) == Seq::<char>::empty());
        assert(spec_render_obj_children(cs.take(1), pre) =~= Seq::<char>::empty()
            + spec_render_obj_children(cs.take(1), pre));
    } else {
        lemma_obj_children_take_step(cs.drop_first(), pre, i - 1);
        assert(cs.take(i + 1)[0] == cs[0]);
        assert(cs.take(i + 1).drop_first() =~= cs.drop_first().take(i));
        assert(cs.take(i).drop_first() =~= cs.drop_first().take(i - 1));
        assert(cs.take(i)[0] == cs[0]);
        assert(cs.drop_first()[i - 1] == cs[i]);
        assert(spec_render_obj_children(cs.take(i + 1), pre) =~= spec_render_obj_children(
            cs.take(i),
            pre,
        ) + (if has_ink(spec_render(cs[i], pre)) {
            spec_render(cs[i], pre)
        } else {
            Seq::<char>::empty()
        }));
    }
}

proof fn lemma_render_all_take_step(cs: Seq<TwistV>, pre: Seq<char>, i: int)
    requires
        0 <= i < cs.len(),
    ensures
        spec_render_all(cs.take(i + 1), pre) == spec_render_all(cs.take(i), pre) + spec_render(
            cs[i],
            pre,
        ),
    decreases i,
{
    if i == 0 {
        assert(cs.take(1)[0] == cs[0]);
        assert(cs.take(1).drop_first() =~= cs.take(0));
        assert(spec_render_all(cs.take(1), pre) =~= Seq::<char>::empty() + spec_render_all(
            cs.take(1),
            pre,
        ));
    } else {
        lemma_render_all_take_step(cs.drop_first(), pre, i - 1);
        assert(cs.take(i + 1)[0] == cs[0]);
        assert(cs.take(i + 1).drop_first() =~= cs.drop_first().take(i));
        assert(cs.take(i).drop_first() =~= cs.drop_first().take(i - 1));
        assert(cs.take(i)[0] == cs[0]);
        assert(cs.drop_first()[i - 1] == cs[i]);
        assert(spec_render_all(cs.take(i + 1), pre) =~= spec_render_all(cs.take(i), pre)
            + spec_render(cs[i], pre));
    }
}

} // verus!
