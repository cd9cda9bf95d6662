//! Runtime values and the chained-scope environment.
//!
//! Objects are immutable once constructed; bindings share them by copying,
//! which no language construct can observe. Scopes live in one arena owned
//! by the `Environment`, linked by parent indices, so a closure can keep its
//! defining scope alive after the call that created it has returned.
use vstd::prelude::*;

use crate::parser::node::{
    params_duplicate, params_string, spec_print_block, spec_print_params, view_block, view_params,
    BlockStatement, BlockV, IdentifierExpression,
};
use crate::text::{bool_string, i64_string, spec_bool_str, spec_i64_str, str_eq, view_strings};

verus! {

/// A runtime value.
#[derive(Debug)]
pub enum Object {
    Int(i64),
    Bool(bool),
    Str(String),
    Return(Box<Return>),
    Function(Box<Function>),
    Builtin(Builtin),
    Array(Box<Array>),
    Hash(Box<MonkeyHash>),
    Null,
}

/// The internal control-flow sentinel that carries a pending `return`
/// value out of nested blocks; never visible to language code.
#[derive(Debug)]
pub struct Return {
    pub value: Object,
}

/// A function value: its parameters and body, and the index of the scope
/// it captured at its definition site.
#[derive(Debug)]
pub struct Function {
    pub parameters: Vec<IdentifierExpression>,
    pub body: BlockStatement,
    pub env: usize,
}

/// The fixed set of built-in functions.
#[derive(Hash, Clone, Copy, Debug, PartialEq, Eq, Structural)]
pub enum Builtin {
    Len,
    Puts,
    First,
    Last,
    Rest,
    Push,
}

/// An array value.
#[derive(Debug)]
pub struct Array {
    pub elements: Vec<Object>,
}

/// A hash value: key/value pairs in insertion order, keys unique.
#[derive(Debug)]
pub struct MonkeyHash {
    pub pairs: Vec<(Object, Object)>,
}

/// The mathematical model of a runtime value.
#[verifier::ext_equal]
pub ghost enum ObjV {
    Int(i64),
    Bool(bool),
    Str(Seq<char>),
    Return(Box<ObjV>),
    Function { params: Seq<Seq<char>>, body: BlockV, env: int },
    Builtin(Builtin),
    Array(Seq<ObjV>),
    Hash(Seq<(ObjV, ObjV)>),
    Null,
}

pub open spec fn view_obj(o: Object) -> ObjV
    decreases o, 0int,
{
    match o {
        Object::Int(n) => ObjV::Int(n),
        Object::Bool(b) => ObjV::Bool(b),
        Object::Str(s) => ObjV::Str(s@),
        Object::Return(r) => ObjV::Return(Box::new(view_obj(r.value))),
        Object::Function(f) => ObjV::Function {
            params: view_params(f.parameters@),
            body: view_block(f.body),
            env: f.env as int,
        },
        Object::Builtin(b) => ObjV::Builtin(b),
        Object::Array(a) => ObjV::Array(view_objs(a.elements@, 0)),
        Object::Hash(h) => ObjV::Hash(view_obj_pairs(h.pairs@, 0)),
        Object::Null => ObjV::Null,
    }
}

/// The models of a vector's objects from index `i` on.
pub open spec fn view_objs(os: Seq<Object>, i: int) -> Seq<ObjV>
    decreases os, os.len() - i,
    when 0 <= i <= os.len()
{
    if i >= os.len() {
        seq![]
    } else {
        seq![view_obj(os[i])] + view_objs(os, i + 1)
    }
}

/// The models of a vector's key/value pairs from index `i` on.
pub open spec fn view_obj_pairs(ps: Seq<(Object, Object)>, i: int) -> Seq<(ObjV, ObjV)>
    decreases ps, ps.len() - i,
    when 0 <= i <= ps.len()
{
    if i >= ps.len() {
        seq![]
    } else {
        seq![(view_obj(ps[i].0), view_obj(ps[i].1))] + view_obj_pairs(ps, i + 1)
    }
}

impl View for Object {
    type V = ObjV;

    open spec fn view(&self) -> ObjV {
        view_obj(*self)
    }
}

/// The models of a vector's objects, element by element.
pub proof fn lemma_view_objs_index(os: Seq<Object>, i: int)
    requires
        0 <= i <= os.len(),
    ensures
        view_objs(os, i).len() == os.len() - i,
        forall|j: int|
            0 <= j < os.len() - i ==> #[trigger] view_objs(os, i)[j] == view_obj(os[i + j]),
    decreases os.len() - i,
{
    if i < os.len() {
        lemma_view_objs_index(os, i + 1);
    }
}

/// The models of a vector's key/value pairs, element by element.
pub proof fn lemma_view_obj_pairs_index(ps: Seq<(Object, Object)>, i: int)
    requires
        0 <= i <= ps.len(),
    ensures
        view_obj_pairs(ps, i).len() == ps.len() - i,
        forall|j: int|
            0 <= j < ps.len() - i ==> #[trigger] view_obj_pairs(ps, i)[j] == (
            view_obj(ps[i + j].0),
            view_obj(ps[i + j].1),
            ),
    decreases ps.len() - i,
{
    if i < ps.len() {
        lemma_view_obj_pairs_index(ps, i + 1);
    }
}

/// The kind name of a value, as used in error messages.
pub open spec fn spec_obj_kind(o: ObjV) -> Seq<char> {
    match o {
        ObjV::Int(_) => "INTEGER"@,
        ObjV::Bool(_) => "BOOLEAN"@,
        ObjV::Str(_) => "STRING"@,
        ObjV::Return(_) => "RETURN"@,
        ObjV::Function { .. } => "FUNCTION"@,
        ObjV::Builtin(_) => "BUILTIN"@,
        ObjV::Array(_) => "ARRAY"@,
        ObjV::Hash(_) => "HASH"@,
        ObjV::Null => "NULL"@,
    }
}

/// Whether a value may be used as a hash key.
pub open spec fn spec_hashable(o: ObjV) -> bool {
    o is Int || o is Bool || o is Str
}

impl Object {
    /// The kind name of the value, as used in error messages.
    pub fn kind_name(&self) -> (r: &'static str)
        ensures
            r@ == spec_obj_kind(self@),
    {
        match self {
            Object::Int(_) => "INTEGER",
            Object::Bool(_) => "BOOLEAN",
            Object::Str(_) => "STRING",
            Object::Return(_) => "RETURN",
            Object::Function(_) => "FUNCTION",
            Object::Builtin(_) => "BUILTIN",
            Object::Array(_) => "ARRAY",
            Object::Hash(_) => "HASH",
            Object::Null => "NULL",
        }
    }

    /// Whether the value may be used as a hash key.
    pub fn is_hashable(&self) -> (r: bool)
        ensures
            r == spec_hashable(self@),
    {
        match self {
            Object::Int(_) => true,
            Object::Bool(_) => true,
            Object::Str(_) => true,
            _ => false,
        }
    }

    /// A structural copy of the value, equal to it in the model.
    pub fn duplicate(&self) -> (r: Object)
        ensures
            r@ == self@,
        decreases self, 1int,
    {
        match self {
            Object::Int(n) => Object::Int(*n),
            Object::Bool(b) => Object::Bool(*b),
            Object::Str(s) => Object::Str(s.clone()),
            Object::Return(r) => Object::Return(Box::new(Return { value: r.value.duplicate() })),
            Object::Function(f) => Object::Function(
                Box::new(
                    Function {
                        parameters: params_duplicate(&f.parameters),
                        body: f.body.duplicate(),
                        env: f.env,
                    },
                ),
            ),
            Object::Builtin(b) => Object::Builtin(*b),
            Object::Array(a) => Object::Array(
                Box::new(Array { elements: objs_duplicate(&a.elements) }),
            ),
            Object::Hash(h) => Object::Hash(
                Box::new(MonkeyHash { pairs: obj_pairs_duplicate(&h.pairs) }),
            ),
            Object::Null => Object::Null,
        }
    }
}

/// A structural copy of an object list.
pub fn objs_duplicate(list: &Vec<Object>) -> (r: Vec<Object>)
    ensures
        r@.len() == list@.len(),
        forall|j: int| 0 <= j < list@.len() ==> view_obj(#[trigger] r@[j]) == view_obj(list@[j]),
        view_objs(r@, 0) == view_objs(list@, 0),
    decreases list@, 0int,
{
    let mut out: Vec<Object> = Vec::new();
    let mut i: usize = 0;
    while i < list.len()
        invariant
            i <= list@.len(),
            out@.len() == i,
            forall|j: int| 0 <= j < i ==> view_obj(#[trigger] out@[j]) == view_obj(list@[j]),
        decreases list@.len() - i,
    {
        let d = list[i].duplicate();
        out.push(d);
        i = i + 1;
    }
    proof {
        lemma_view_objs_index(out@, 0);
        lemma_view_objs_index(list@, 0);
        assert(view_objs(out@, 0) =~= view_objs(list@, 0));
    }
    out
}

/// A structural copy of a key/value pair list.
pub fn obj_pairs_duplicate(list: &Vec<(Object, Object)>) -> (r: Vec<(Object, Object)>)
    ensures
        r@.len() == list@.len(),
        forall|j: int|
            0 <= j < list@.len() ==> view_obj((#[trigger] r@[j]).0) == view_obj(list@[j].0)
                && view_obj(r@[j].1) == view_obj(list@[j].1),
        view_obj_pairs(r@, 0) == view_obj_pairs(list@, 0),
    decreases list@, 0int,
{
    let mut out: Vec<(Object, Object)> = Vec::new();
    let mut i: usize = 0;
    while i < list.len()
        invariant
            i <= list@.len(),
            out@.len() == i,
            forall|j: int|
                0 <= j < i ==> view_obj((#[trigger] out@[j]).0) == view_obj(list@[j].0) && view_obj(
                    out@[j].1,
                ) == view_obj(list@[j].1),
        decreases list@.len() - i,
    {
        let k = list[i].0.duplicate();
        let v = list[i].1.duplicate();
        out.push((k, v));
        i = i + 1;
    }
    proof {
        lemma_view_obj_pairs_index(out@, 0);
        lemma_view_obj_pairs_index(list@, 0);
        assert(view_obj_pairs(out@, 0) =~= view_obj_pairs(list@, 0));
    }
    out
}

/// Decides model equality of two hashable values. Cross-kind comparisons
/// are unequal; comparisons of like kinds compare the carried values.
pub fn hash_key_eq(a: &Object, b: &Object) -> (r: bool)
    requires
        spec_hashable(a@),
        spec_hashable(b@),
    ensures
        r == (a@ == b@),
{
    match (a, b) {
        (Object::Int(x), Object::Int(y)) => x == y,
        (Object::Bool(x), Object::Bool(y)) => x == y,
        (Object::Str(x), Object::Str(y)) => x.eq(y),
        _ => {
            assert(a@ != b@);
            false
        },
    }
}

/// The name under which a built-in function is exposed to language code.
pub open spec fn spec_builtin_name(b: Builtin) -> Seq<char> {
    match b {
        Builtin::Len => "len"@,
        Builtin::First => "first"@,
        Builtin::Last => "last"@,
        Builtin::Rest => "rest"@,
        Builtin::Push => "push"@,
        Builtin::Puts => "puts"@,
    }
}

/// The canonical textual form of a value: integers in decimal, booleans as
/// `true`/`false`, strings verbatim, `null` for the null value, arrays and
/// hashes with their elements inspected recursively.
pub open spec fn spec_inspect(o: ObjV) -> Seq<char>
    decreases o, 0int,
{
    match o {
        ObjV::Int(n) => spec_i64_str(n),
        ObjV::Bool(b) => spec_bool_str(b),
        ObjV::Str(s) => s,
        ObjV::Return(r) => spec_inspect(*r),
        ObjV::Function { params, body, env } => "fn("@ + spec_print_params(params, 0) + ") {\n"@
            + spec_print_block(body) + "\n}"@,
        ObjV::Builtin(b) => spec_builtin_name(b),
        ObjV::Array(es) => "["@ + spec_inspects(es, 0) + "]"@,
        ObjV::Hash(ps) => "{"@ + spec_inspect_pairs(ps, 0) + "}"@,
        ObjV::Null => "null"@,
    }
}

/// The inspected forms of the values from index `i` on, comma separated.
pub open spec fn spec_inspects(os: Seq<ObjV>, i: int) -> Seq<char>
    decreases os, os.len() - i,
    when 0 <= i <= os.len()
{
    if i >= os.len() {
        seq![]
    } else if i == os.len() - 1 {
        spec_inspect(os[i])
    } else {
        spec_inspect(os[i]) + ", "@ + spec_inspects(os, i + 1)
    }
}

/// The inspected `key: value` pairs from index `i` on, comma separated.
pub open spec fn spec_inspect_pairs(ps: Seq<(ObjV, ObjV)>, i: int) -> Seq<char>
    decreases ps, ps.len() - i,
    when 0 <= i <= ps.len()
{
    if i >= ps.len() {
        seq![]
    } else if i == ps.len() - 1 {
        spec_inspect(ps[i].0) + ": "@ + spec_inspect(ps[i].1)
    } else {
        spec_inspect(ps[i].0) + ": "@ + spec_inspect(ps[i].1) + ", "@ + spec_inspect_pairs(
            ps,
            i + 1,
        )
    }
}

/// Renders the inspected forms of the objects from index `i` on, comma
/// separated.
pub fn objs_inspect(list: &Vec<Object>, i: usize) -> (r: String)
    requires
        i <= list@.len(),
    ensures
        r@ == spec_inspects(view_objs(list@, 0), i as int),
    decreases list@, list@.len() - i,
{
    proof {
        lemma_view_objs_index(list@, 0);
    }
    if i >= list.len() {
        String::new()
    } else if i == list.len() - 1 {
        list[i].inspect()
    } else {
        let mut s = list[i].inspect();
        s.append(", ");
        let rest = objs_inspect(list, i + 1);
        s.append(rest.as_str());
        proof {
            assert(s@ =~= spec_inspects(view_objs(list@, 0), i as int));
        }
        s
    }
}

/// Renders the inspected `key: value` pairs from index `i` on, comma
/// separated.
pub fn obj_pairs_inspect(list: &Vec<(Object, Object)>, i: usize) -> (r: String)
    requires
        i <= list@.len(),
    ensures
        r@ == spec_inspect_pairs(view_obj_pairs(list@, 0), i as int),
    decreases list@, list@.len() - i,
{
    proof {
        lemma_view_obj_pairs_index(list@, 0);
    }
    if i >= list.len() {
        String::new()
    } else {
        let mut s = list[i].0.inspect();
        s.append(": ");
        let v = list[i].1.inspect();
        s.append(v.as_str());
        if i < list.len() - 1 {
            s.append(", ");
            let rest = obj_pairs_inspect(list, i + 1);
            s.append(rest.as_str());
        }
        proof {
            assert(s@ =~= spec_inspect_pairs(view_obj_pairs(list@, 0), i as int));
        }
        s
    }
}

impl Object {
    /// The canonical textual form of the value.
    pub fn inspect(&self) -> (r: String)
        ensures
            r@ == spec_inspect(self@),
        decreases self, 1int,
    {
        match self {
            Object::Int(n) => i64_string(*n),
            Object::Bool(b) => bool_string(*b),
            Object::Str(s) => s.clone(),
            Object::Return(r) => r.value.inspect(),
            Object::Function(f) => f.inspect(),
            Object::Builtin(b) => b.string(),
            Object::Array(a) => a.inspect(),
            Object::Hash(h) => h.inspect(),
            Object::Null => String::from_str("null"),
        }
    }
}

impl Function {
    /// The canonical textual form of a function value: its parameters and
    /// its body between braces.
    pub fn inspect(&self) -> (r: String)
        ensures
            r@ == "fn("@ + spec_print_params(view_params(self.parameters@), 0) + ") {\n"@
                + spec_print_block(view_block(self.body)) + "\n}"@,
        decreases self, 0int,
    {
        let mut s = String::from_str("fn(");
        let params = params_string(&self.parameters, 0);
        s.append(params.as_str());
        s.append(") {\n");
        let body = self.body.string();
        s.append(body.as_str());
        s.append("\n}");
        proof {
            assert(s@ =~= "fn("@ + spec_print_params(view_params(self.parameters@), 0) + ") {\n"@
                + spec_print_block(view_block(self.body)) + "\n}"@);
        }
        s
    }
}

impl Array {
    /// The canonical textual form of an array value.
    pub fn inspect(&self) -> (r: String)
        ensures
            r@ == "["@ + spec_inspects(view_objs(self.elements@, 0), 0) + "]"@,
        decreases self, 0int,
    {
        let mut s = String::from_str("[");
        let e = objs_inspect(&self.elements, 0);
        s.append(e.as_str());
        s.append("]");
        proof {
            assert(s@ =~= "["@ + spec_inspects(view_objs(self.elements@, 0), 0) + "]"@);
        }
        s
    }
}

impl MonkeyHash {
    /// The canonical textual form of a hash value, pairs in insertion
    /// order.
    pub fn inspect(&self) -> (r: String)
        ensures
            r@ == "{"@ + spec_inspect_pairs(view_obj_pairs(self.pairs@, 0), 0) + "}"@,
        decreases self, 0int,
    {
        let mut s = String::from_str("{");
        let p = obj_pairs_inspect(&self.pairs, 0);
        s.append(p.as_str());
        s.append("}");
        proof {
            assert(s@ =~= "{"@ + spec_inspect_pairs(view_obj_pairs(self.pairs@, 0), 0) + "}"@);
        }
        s
    }
}

impl Builtin {
    /// The canonical textual form of a built-in: its name.
    pub fn inspect(&self) -> (r: String)
        ensures
            r@ == spec_builtin_name(*self),
    {
        match self {
            Builtin::Len => String::from_str("len"),
            Builtin::First => String::from_str("first"),
            Builtin::Last => String::from_str("last"),
            Builtin::Rest => String::from_str("rest"),
            Builtin::Push => String::from_str("push"),
            Builtin::Puts => String::from_str("puts"),
        }
    }

    /// The canonical textual form of a built-in: its name.
    pub fn string(&self) -> (r: String)
        ensures
            r@ == spec_builtin_name(*self),
    {
        self.inspect()
    }

    /// The built-in exposed under `name`, if any.
    pub fn lookup(name: &str) -> (r: Option<Object>)
        ensures
            r == spec_builtin_lookup(name@),
    {
        if str_eq(name, "len") {
            Some(Object::Builtin(Builtin::Len))
        } else if str_eq(name, "first") {
            Some(Object::Builtin(Builtin::First))
        } else if str_eq(name, "last") {
            Some(Object::Builtin(Builtin::Last))
        } else if str_eq(name, "rest") {
            Some(Object::Builtin(Builtin::Rest))
        } else if str_eq(name, "push") {
            Some(Object::Builtin(Builtin::Push))
        } else if str_eq(name, "puts") {
            Some(Object::Builtin(Builtin::Puts))
        } else {
            None
        }
    }
}

/// One scope: its bindings in insertion order, and the index of the
/// enclosing scope, if any.
#[derive(Debug)]
pub struct Scope {
    pub bindings: Vec<(String, Object)>,
    pub outer: Option<usize>,
}

/// The mathematical model of one scope.
#[verifier::ext_equal]
pub ghost struct ScopeV {
    pub bindings: Seq<(Seq<char>, ObjV)>,
    pub outer: Option<int>,
}

/// The model of a binding list: names as character sequences, objects as
/// their models.
pub open spec fn view_bindings(bs: Seq<(String, Object)>) -> Seq<(Seq<char>, ObjV)> {
    bs.map_values(|p: (String, Object)| (p.0@, view_obj(p.1)))
}

impl View for Scope {
    type V = ScopeV;

    open spec fn view(&self) -> ScopeV {
        ScopeV {
            bindings: view_bindings(self.bindings@),
            outer: match self.outer {
                Some(o) => Some(o as int),
                None => None,
            },
        }
    }
}

/// The chained-scope store: an arena of scopes linked by parent indices.
/// Index 0 is the root scope created at start-up.
#[derive(Debug)]
pub struct Environment {
    scopes: Vec<Scope>,
}

impl View for Environment {
    type V = Seq<ScopeV>;

    closed spec fn view(&self) -> Seq<ScopeV> {
        self.scopes@.map_values(|s: Scope| s@)
    }
}

/// A well-formed store is non-empty and every scope's parent link points
/// strictly earlier in the arena, so lookup chains always terminate.
pub open spec fn spec_env_wf(env: Seq<ScopeV>) -> bool {
    &&& env.len() >= 1
    &&& forall|i: int|
        0 <= i < env.len() ==> match (#[trigger] env[i]).outer {
            Some(o) => 0 <= o < i,
            None => true,
        }
}

/// The index of the first binding of `name` at or after `i`, if any.
pub open spec fn spec_bindings_find(
    bs: Seq<(Seq<char>, ObjV)>,
    name: Seq<char>,
    i: int,
) -> Option<int>
    decreases bs.len() - i,
    when 0 <= i <= bs.len()
{
    if i >= bs.len() {
        None
    } else if bs[i].0 == name {
        Some(i)
    } else {
        spec_bindings_find(bs, name, i + 1)
    }
}

proof fn lemma_bindings_find_in_range(bs: Seq<(Seq<char>, ObjV)>, name: Seq<char>, i: int)
    requires
        0 <= i <= bs.len(),
    ensures
        match spec_bindings_find(bs, name, i) {
            Some(j) => i <= j < bs.len() && bs[j].0 == name,
            None => true,
        },
    decreases bs.len() - i,
{
    if i < bs.len() && bs[i].0 != name {
        lemma_bindings_find_in_range(bs, name, i + 1);
    }
}

/// Binding `name` in one scope: overwrite the binding already present, or
/// append a new one.
pub open spec fn spec_scope_set(
    bs: Seq<(Seq<char>, ObjV)>,
    name: Seq<char>,
    v: ObjV,
) -> Seq<(Seq<char>, ObjV)> {
    match spec_bindings_find(bs, name, 0) {
        Some(i) => bs.update(i, (name, v)),
        None => bs.push((name, v)),
    }
}

/// Binding `name` in scope `scope` of the store.
pub open spec fn spec_env_set(env: Seq<ScopeV>, scope: int, name: Seq<char>, v: ObjV) -> Seq<
    ScopeV,
> {
    env.update(
        scope,
        ScopeV { bindings: spec_scope_set(env[scope].bindings, name, v), outer: env[scope].outer },
    )
}

/// Lookup of `name` starting at scope `scope` and walking outward through
/// the parent links until found or the chain is exhausted.
pub open spec fn spec_env_get(env: Seq<ScopeV>, scope: int, name: Seq<char>) -> Option<ObjV>
    decreases scope,
    when 0 <= scope < env.len() && spec_env_wf(env)
{
    match spec_bindings_find(env[scope].bindings, name, 0) {
        Some(i) => Some(env[scope].bindings[i].1),
        None => match env[scope].outer {
            Some(o) => spec_env_get(env, o, name),
            None => None,
        },
    }
}

/// Finds the first binding of `name` in a scope's binding list.
fn bindings_find(bs: &Vec<(String, Object)>, name: &str) -> (r: Option<usize>)
    ensures
        match r {
            Some(i) => i < bs@.len() && spec_bindings_find(view_bindings(bs@), name@, 0) == Some(
                i as int,
            ),
            None => spec_bindings_find(view_bindings(bs@), name@, 0) is None,
        },
{
    let ghost bv = view_bindings(bs@);
    let mut i: usize = 0;
    while i < bs.len()
        invariant
            i <= bs@.len(),
            bv.len() == bs@.len(),
            spec_bindings_find(bv, name@, 0) == spec_bindings_find(bv, name@, i as int),
        decreases bs@.len() - i,
    {
        if str_eq(bs[i].0.as_str(), name) {
            return Some(i);
        }
        i = i + 1;
    }
    None
}

impl Environment {
    /// Creates a store holding only the root scope, which has no parent
    /// and no bindings.
    pub fn new() -> (r: Self)
        ensures
            r@ =~~= seq![ScopeV { bindings: seq![], outer: None }],
            spec_env_wf(r@),
    {
        let mut scopes: Vec<Scope> = Vec::new();
        scopes.push(Scope { bindings: Vec::new(), outer: None });
        let r = Environment { scopes };
        proof {
            assert(r@ =~~= seq![ScopeV { bindings: seq![], outer: None }]);
        }
        r
    }

    /// The number of scopes in the arena.
    pub fn len(&self) -> (r: usize)
        ensures
            r == self@.len(),
    {
        self.scopes.len()
    }

    /// Appends a fresh, empty scope whose parent is `outer`, and returns
    /// its index.
    pub fn new_enclosed(&mut self, outer: usize) -> (r: usize)
        requires
            outer < old(self)@.len(),
            spec_env_wf(old(self)@),
        ensures
            r == old(self)@.len(),
            final(self)@ =~~= old(self)@.push(
                ScopeV { bindings: seq![], outer: Some(outer as int) },
            ),
            spec_env_wf(final(self)@),
    {
        let r = self.scopes.len();
        self.scopes.push(Scope { bindings: Vec::new(), outer: Some(outer) });
        proof {
            assert(self@ =~~= old(self)@.push(
                ScopeV { bindings: seq![], outer: Some(outer as int) },
            ));
        }
        r
    }

    /// Binds `name` to `val` in scope `scope` only: an existing binding of
    /// the same name there is overwritten, enclosing scopes are untouched.
    pub fn set(&mut self, scope: usize, name: String, val: Object)
        requires
            scope < old(self)@.len(),
            spec_env_wf(old(self)@),
        ensures
            final(self)@ =~~= spec_env_set(old(self)@, scope as int, name@, val@),
            spec_env_wf(final(self)@),
    {
        let ghost gname = name@;
        let ghost gval = val@;
        let mut sc = Scope { bindings: Vec::new(), outer: None };
        self.scopes.set_and_swap(scope, &mut sc);
        let ghost obs = view_bindings(sc.bindings@);
        proof {
            assert(sc@ == old(self)@[scope as int]);
            assert(obs == old(self)@[scope as int].bindings);
        }
        match bindings_find(&sc.bindings, name.as_str()) {
            Some(i) => {
                sc.bindings.set(i, (name, val));
                proof {
                    assert(view_bindings(sc.bindings@) =~~= spec_scope_set(obs, gname, gval));
                }
            },
            None => {
                sc.bindings.push((name, val));
                proof {
                    assert(view_bindings(sc.bindings@) =~~= spec_scope_set(obs, gname, gval));
                }
            },
        }
        proof {
            assert(sc@ =~~= (ScopeV {
                bindings: spec_scope_set(obs, gname, gval),
                outer: old(self)@[scope as int].outer,
            }));
        }
        self.scopes.set(scope, sc);
        proof {
            assert(self@ =~~= spec_env_set(old(self)@, scope as int, gname, gval));
        }
    }

    /// Looks `name` up in scope `scope`, walking outward through parent
    /// links; the returned value is a copy of the bound object.
    pub fn get(&self, scope: usize, name: &str) -> (r: Option<Object>)
        requires
            scope < self@.len(),
            spec_env_wf(self@),
        ensures
            match spec_env_get(self@, scope as int, name@) {
                Some(v) => r is Some && r->0@ == v,
                None => r is None,
            },
    {
        let mut cur = scope;
        loop
            invariant
                cur < self@.len(),
                spec_env_wf(self@),
                spec_env_get(self@, scope as int, name@) == spec_env_get(
                    self@,
                    cur as int,
                    name@,
                ),
            decreases cur,
        {
            proof {
                assert(self@[cur as int] == self.scopes@[cur as int]@);
                lemma_bindings_find_in_range(self@[cur as int].bindings, name@, 0);
            }
            match bindings_find(&self.scopes[cur].bindings, name) {
                Some(i) => {
                    return Some(self.scopes[cur].bindings[i].1.duplicate());
                },
                None => {
                    match self.scopes[cur].outer {
                        Some(o) => {
                            cur = o;
                        },
                        None => {
                            return None;
                        },
                    }
                },
            }
        }
    }
}

/// The index of the first pair whose hashable key equals `k`, at or after
/// `i`. A pair whose key is not hashable can never be produced by the
/// evaluator and is skipped.
pub open spec fn spec_pairs_find(ps: Seq<(ObjV, ObjV)>, k: ObjV, i: int) -> Option<int>
    decreases ps.len() - i,
    when 0 <= i <= ps.len()
{
    if i >= ps.len() {
        None
    } else if spec_hashable(ps[i].0) && ps[i].0 == k {
        Some(i)
    } else {
        spec_pairs_find(ps, k, i + 1)
    }
}

proof fn lemma_pairs_find_in_range(ps: Seq<(ObjV, ObjV)>, k: ObjV, i: int)
    requires
        0 <= i <= ps.len(),
    ensures
        match spec_pairs_find(ps, k, i) {
            Some(j) => i <= j < ps.len() && ps[j].0 == k && spec_hashable(ps[j].0),
            None => true,
        },
    decreases ps.len() - i,
{
    if i < ps.len() && !(spec_hashable(ps[i].0) && ps[i].0 == k) {
        lemma_pairs_find_in_range(ps, k, i + 1);
    }
}

/// The value bound to key `k`, if any.
pub open spec fn spec_hash_get(ps: Seq<(ObjV, ObjV)>, k: ObjV) -> Option<ObjV> {
    match spec_pairs_find(ps, k, 0) {
        Some(i) => Some(ps[i].1),
        None => None,
    }
}

/// Binding `k` to `v` in a hash: overwrite the pair already keyed by `k`
/// in place, or append a new pair.
pub open spec fn spec_hash_set(ps: Seq<(ObjV, ObjV)>, k: ObjV, v: ObjV) -> Seq<(ObjV, ObjV)> {
    match spec_pairs_find(ps, k, 0) {
        Some(i) => ps.update(i, (k, v)),
        None => ps.push((k, v)),
    }
}

impl MonkeyHash {
    /// The value stored under `key`, if any; the result is a copy.
    pub fn get(&self, key: &Object) -> (r: Option<Object>)
        requires
            spec_hashable(key@),
        ensures
            match spec_hash_get(view_obj_pairs(self.pairs@, 0), key@) {
                Some(v) => r is Some && r->0@ == v,
                None => r is None,
            },
    {
        let ghost pv = view_obj_pairs(self.pairs@, 0);
        proof {
            lemma_view_obj_pairs_index(self.pairs@, 0);
            lemma_pairs_find_in_range(pv, key@, 0);
        }
        let mut i: usize = 0;
        while i < self.pairs.len()
            invariant
                i <= self.pairs@.len(),
                pv.len() == self.pairs@.len(),
                spec_pairs_find(pv, key@, 0) == spec_pairs_find(pv, key@, i as int),
            decreases self.pairs@.len() - i,
        {
            proof {
                lemma_view_obj_pairs_index(self.pairs@, 0);
            }
            if self.pairs[i].0.is_hashable() && hash_key_eq(&self.pairs[i].0, key) {
                return Some(self.pairs[i].1.duplicate());
            }
            i = i + 1;
        }
        None
    }

    /// Stores `value` under `key`: an existing pair with the same key is
    /// overwritten in place, otherwise the pair is appended.
    pub fn insert(&mut self, key: Object, value: Object)
        requires
            spec_hashable(key@),
        ensures
            view_obj_pairs(final(self).pairs@, 0) =~~= spec_hash_set(
                view_obj_pairs(old(self).pairs@, 0),
                key@,
                value@,
            ),
    {
        let ghost pv = view_obj_pairs(self.pairs@, 0);
        proof {
            lemma_view_obj_pairs_index(self.pairs@, 0);
            lemma_pairs_find_in_range(pv, key@, 0);
        }
        let mut i: usize = 0;
        while i < self.pairs.len()
            invariant
                i <= self.pairs@.len(),
                pv.len() == self.pairs@.len(),
                self.pairs@ == old(self).pairs@,
                spec_pairs_find(pv, key@, 0) == spec_pairs_find(pv, key@, i as int),
            decreases self.pairs@.len() - i,
        {
            proof {
                lemma_view_obj_pairs_index(self.pairs@, 0);
            }
            if self.pairs[i].0.is_hashable() && hash_key_eq(&self.pairs[i].0, &key) {
                self.pairs.set(i, (key, value));
                proof {
                    lemma_view_obj_pairs_index(self.pairs@, 0);
                    lemma_view_obj_pairs_index(old(self).pairs@, 0);
                    assert(view_obj_pairs(self.pairs@, 0) =~~= spec_hash_set(pv, key@, value@));
                }
                return ;
            }
            i = i + 1;
        }
        self.pairs.push((key, value));
        proof {
            lemma_view_obj_pairs_index(self.pairs@, 0);
            lemma_view_obj_pairs_index(old(self).pairs@, 0);
            assert(view_obj_pairs(self.pairs@, 0) =~~= spec_hash_set(pv, key@, value@));
        }
    }
}

/// The outcome of one built-in application: the produced value or error,
/// and the lines the built-in asks the host to print.
#[verifier::ext_equal]
pub ghost struct BuiltinStep {
    pub res: Result<ObjV, Seq<char>>,
    pub out: Seq<Seq<char>>,
}

/// One printed line per value, in order: the inspected forms of the values
/// from index `i` on.
pub open spec fn spec_inspect_lines(os: Seq<ObjV>, i: int) -> Seq<Seq<char>>
    decreases os.len() - i,
    when 0 <= i <= os.len()
{
    if i >= os.len() {
        seq![]
    } else {
        seq![spec_inspect(os[i])] + spec_inspect_lines(os, i + 1)
    }
}

/// A successful built-in outcome with no printed lines.
pub open spec fn bs_ok(o: ObjV) -> BuiltinStep {
    BuiltinStep { res: Ok(o), out: seq![] }
}

/// A failed built-in outcome with no printed lines.
pub open spec fn bs_err(m: Seq<char>) -> BuiltinStep {
    BuiltinStep { res: Err(m), out: seq![] }
}

/// What each built-in returns, for every argument list.
///
/// `len` accepts one string or array and returns its length (for a
/// string, the UTF-8 byte length of its text); `first`,
/// `last` and `rest` accept one array, with `first`/`last` yielding `null`
/// on an empty array and `rest` an empty array when the length is at most
/// one; `push` returns a new array with one element appended, leaving its
/// argument untouched; `puts` prints the inspected form of each argument
/// and returns `null`. Wrong arities and unsupported argument kinds are
/// errors.
pub open spec fn spec_builtin_apply(b: Builtin, args: Seq<ObjV>) -> BuiltinStep {
    match b {
        Builtin::Len => if args.len() != 1 {
            bs_err("len takes only 1 array or string argument"@)
        } else {
            match args[0] {
                ObjV::Str(s) => if crate::text::spec_utf8_len(s, 0) <= i64::MAX {
                    bs_ok(ObjV::Int(crate::text::spec_utf8_len(s, 0) as i64))
                } else {
                    bs_err("len overflow"@)
                },
                ObjV::Array(es) => if es.len() <= i64::MAX {
                    bs_ok(ObjV::Int(es.len() as i64))
                } else {
                    bs_err("len overflow"@)
                },
                o => bs_err(
                    "object "@ + spec_obj_kind(o) + " not supported as an argument for len"@,
                ),
            }
        },
        Builtin::First => if args.len() != 1 {
            bs_err("first takes only 1 array argument"@)
        } else {
            match args[0] {
                ObjV::Array(es) => if es.len() > 0 {
                    bs_ok(es[0])
                } else {
                    bs_ok(ObjV::Null)
                },
                o => bs_err(
                    "object "@ + spec_obj_kind(o) + " not supported as an argument for first"@,
                ),
            }
        },
        Builtin::Last => if args.len() != 1 {
            bs_err("last takes only 1 array argument"@)
        } else {
            match args[0] {
                ObjV::Array(es) => if es.len() > 0 {
                    bs_ok(es[es.len() - 1])
                } else {
                    bs_ok(ObjV::Null)
                },
                o => bs_err(
                    "object "@ + spec_obj_kind(o) + " not supported as an argument for last"@,
                ),
            }
        },
        Builtin::Rest => if args.len() != 1 {
            bs_err("rest takes only 1 array argument"@)
        } else {
            match args[0] {
                ObjV::Array(es) => if es.len() <= 1 {
                    bs_ok(ObjV::Array(seq![]))
                } else {
                    bs_ok(ObjV::Array(es.subrange(1, es.len() as int)))
                },
                o => bs_err(
                    "object "@ + spec_obj_kind(o) + " is not supported as an argument for rest"@,
                ),
            }
        },
        Builtin::Push => if args.len() != 2 {
            bs_err("push takes an array and an object"@)
        } else {
            match args[0] {
                ObjV::Array(es) => bs_ok(ObjV::Array(es.push(args[1]))),
                _ => bs_err("first argument to push must be an array"@),
            }
        },
        Builtin::Puts => BuiltinStep { res: Ok(ObjV::Null), out: spec_inspect_lines(args, 0) },
    }
}

/// Appends the inspected form of each argument from index `i` on to `out`,
/// one line per argument.
fn puts_lines(args: &Vec<Object>, i: usize, out: &mut Vec<String>)
    requires
        i <= args@.len(),
    ensures
        view_strings(final(out)@) =~= view_strings(old(out)@) + spec_inspect_lines(
            view_objs(args@, 0),
            i as int,
        ),
    decreases args@.len() - i,
{
    proof {
        lemma_view_objs_index(args@, 0);
    }
    if i < args.len() {
        let line = args[i].inspect();
        out.push(line);
        puts_lines(args, i + 1, out);
    }
}

impl Builtin {
    /// Applies the built-in to evaluated arguments. Printed lines are
    /// appended to `out` for the host to emit; nothing else leaves the
    /// library.
    pub fn apply(&self, args: &Vec<Object>, out: &mut Vec<String>) -> (r: Result<Object, String>)
        ensures
            ({
                let st = spec_builtin_apply(*self, view_objs(args@, 0));
                &&& view_strings(final(out)@) =~= view_strings(old(out)@) + st.out
                &&& match r {
                    Ok(o) => st.res is Ok && o@ == st.res->Ok_0,
                    Err(m) => st.res is Err && m@ == st.res->Err_0,
                }
            }),
    {
        proof {
            lemma_view_objs_index(args@, 0);
        }
        let ghost av = view_objs(args@, 0);
        match self {
            Builtin::Len => {
                if args.len() != 1 {
                    return Err(String::from_str("len takes only 1 array or string argument"));
                }
                match &args[0] {
                    Object::Str(s) => {
                        match crate::text::utf8_len_checked(s.as_str()) {
                            Some(n) => Ok(Object::Int(n as i64)),
                            None => Err(String::from_str("len overflow")),
                        }
                    },
                    Object::Array(a) => {
                        proof {
                            lemma_view_objs_index(a.elements@, 0);
                        }
                        let n = a.elements.len();
                        if n as u64 <= 9223372036854775807u64 {
                            Ok(Object::Int(n as i64))
                        } else {
                            Err(String::from_str("len overflow"))
                        }
                    },
                    o => {
                        let mut m = String::from_str("object ");
                        m.append(o.kind_name());
                        m.append(" not supported as an argument for len");
                        Err(m)
                    },
                }
            },
            Builtin::First => {
                if args.len() != 1 {
                    return Err(String::from_str("first takes only 1 array argument"));
                }
                match &args[0] {
                    Object::Array(a) => {
                        proof {
                            lemma_view_objs_index(a.elements@, 0);
                        }
                        if a.elements.len() > 0 {
                            Ok(a.elements[0].duplicate())
                        } else {
                            Ok(Object::Null)
                        }
                    },
                    o => {
                        let mut m = String::from_str("object ");
                        m.append(o.kind_name());
                        m.append(" not supported as an argument for first");
                        Err(m)
                    },
                }
            },
            Builtin::Last => {
                if args.len() != 1 {
                    return Err(String::from_str("last takes only 1 array argument"));
                }
                match &args[0] {
                    Object::Array(a) => {
                        proof {
                            lemma_view_objs_index(a.elements@, 0);
                        }
                        if a.elements.len() > 0 {
                            Ok(a.elements[a.elements.len() - 1].duplicate())
                        } else {
                            Ok(Object::Null)
                        }
                    },
                    o => {
                        let mut m = String::from_str("object ");
                        m.append(o.kind_name());
                        m.append(" not supported as an argument for last");
                        Err(m)
                    },
                }
            },
            Builtin::Rest => {
                if args.len() != 1 {
                    return Err(String::from_str("rest takes only 1 array argument"));
                }
                match &args[0] {
                    Object::Array(a) => {
                        if a.elements.len() <= 1 {
                            let elements: Vec<Object> = Vec::new();
                            proof {
                                lemma_view_objs_index(a.elements@, 0);
                                assert(view_objs(elements@, 0) =~= Seq::<ObjV>::empty());
                                assert(Seq::<ObjV>::empty() =~= seq![]);
                            }
                            Ok(Object::Array(Box::new(Array { elements })))
                        } else {
                            let ghost es = view_objs(a.elements@, 0);
                            let mut elements: Vec<Object> = Vec::new();
                            let mut j: usize = 1;
                            while j < a.elements.len()
                                invariant
                                    1 <= j <= a.elements@.len(),
                                    elements@.len() == j - 1,
                                    forall|k: int|
                                        0 <= k < j - 1 ==> view_obj(#[trigger] elements@[k])
                                            == view_obj(a.elements@[k + 1]),
                                decreases a.elements@.len() - j,
                            {
                                let d = a.elements[j].duplicate();
                                elements.push(d);
                                j = j + 1;
                            }
                            proof {
                                lemma_view_objs_index(a.elements@, 0);
                                lemma_view_objs_index(elements@, 0);
                                assert(view_objs(elements@, 0) =~= es.subrange(
                                    1,
                                    es.len() as int,
                                ));
                            }
                            Ok(Object::Array(Box::new(Array { elements })))
                        }
                    },
                    o => {
                        let mut m = String::from_str("object ");
                        m.append(o.kind_name());
                        m.append(" is not supported as an argument for rest");
                        Err(m)
                    },
                }
            },
            Builtin::Push => {
                if args.len() != 2 {
                    return Err(String::from_str("push takes an array and an object"));
                }
                match &args[0] {
                    Object::Array(a) => {
                        let mut elements = objs_duplicate(&a.elements);
                        let extra = args[1].duplicate();
                        elements.push(extra);
                        proof {
                            lemma_view_objs_index(a.elements@, 0);
                            lemma_view_objs_index(elements@, 0);
                            assert(view_objs(elements@, 0) =~= view_objs(a.elements@, 0).push(
                                av[1],
                            ));
                        }
                        Ok(Object::Array(Box::new(Array { elements })))
                    },
                    _ => Err(String::from_str("first argument to push must be an array")),
                }
            },
            Builtin::Puts => {
                puts_lines(args, 0, out);
                Ok(Object::Null)
            },
        }
    }
}

/// The built-in exposed under `name`, if any.
pub open spec fn spec_builtin_lookup(name: Seq<char>) -> Option<Object> {
    if name == "len"@ {
        Some(Object::Builtin(Builtin::Len))
    } else if name == "first"@ {
        Some(Object::Builtin(Builtin::First))
    } else if name == "last"@ {
        Some(Object::Builtin(Builtin::Last))
    } else if name == "rest"@ {
        Some(Object::Builtin(Builtin::Rest))
    } else if name == "push"@ {
        Some(Object::Builtin(Builtin::Push))
    } else if name == "puts"@ {
        Some(Object::Builtin(Builtin::Puts))
    } else {
        None
    }
}

} // verus!
