//! The scoped symbol table: a tree of scopes held in an index arena.
//! Parents are created before their children, so every child's parent index
//! is smaller than its own; lookups walk upward along parent indices and
//! child scopes are retained for post-analysis inspection.

use vstd::prelude::*;
use crate::tokens::DataType;

verus! {

/// Identity of one scope in the tree.
#[derive(Debug)]
pub enum Scope {
    Function(String),
    Block(usize),
    Global,
}

/// Value-likeness for scopes: same constructor, names compared by their
/// character sequences.
pub open spec fn scope_like(a: Scope, b: Scope) -> bool {
    match (a, b) {
        (Scope::Function(x), Scope::Function(y)) => x@ == y@,
        (Scope::Block(x), Scope::Block(y)) => x == y,
        (Scope::Global, Scope::Global) => true,
        _ => false,
    }
}

impl Clone for Scope {
    fn clone(&self) -> (r: Self)
        ensures
            scope_like(*self, r),
    {
        match self {
            Scope::Function(name) => Scope::Function(name.clone()),
            Scope::Block(i) => Scope::Block(*i),
            Scope::Global => Scope::Global,
        }
    }
}

impl PartialEq for Scope {
    fn eq(&self, other: &Scope) -> (r: bool) {
        match (self, other) {
            (Scope::Function(x), Scope::Function(y)) => x.eq(y),
            (Scope::Block(x), Scope::Block(y)) => x == y,
            (Scope::Global, Scope::Global) => true,
            _ => false,
        }
    }
}

impl vstd::std_specs::cmp::PartialEqSpecImpl for Scope {
    open spec fn obeys_eq_spec() -> bool {
        true
    }

    open spec fn eq_spec(&self, other: &Scope) -> bool {
        scope_like(*self, *other)
    }
}

/// Mathematical value of a [`VarAttribute`].
pub struct VarModel {
    pub data_type: Option<DataType>,
    pub size: Option<u32>,
    pub dimension: Option<u32>,
    pub line_declare: Option<u32>,
    pub line_ref: Seq<u32>,
    pub current_version: u32,
}

/// What the table records about one variable: optional declared type, size
/// and array dimension, declaration line, referencing lines, and the
/// version counter minted for IR temporaries.
#[derive(Debug)]
pub struct VarAttribute {
    pub data_type: Option<DataType>,
    pub size: Option<u32>,
    pub dimension: Option<u32>,
    pub line_declare: Option<u32>,
    pub line_ref: Vec<u32>,
    pub current_version: u32,
}

impl View for VarAttribute {
    type V = VarModel;

    open spec fn view(&self) -> VarModel {
        VarModel {
            data_type: self.data_type,
            size: self.size,
            dimension: self.dimension,
            line_declare: self.line_declare,
            line_ref: self.line_ref@,
            current_version: self.current_version,
        }
    }
}

/// The attribute a fresh insertion starts from: nothing recorded yet.
pub open spec fn fresh_var_model() -> VarModel {
    VarModel {
        data_type: None,
        size: None,
        dimension: None,
        line_declare: None,
        line_ref: Seq::empty(),
        current_version: 0,
    }
}

impl Clone for VarAttribute {
    fn clone(&self) -> (r: Self)
        ensures
            r@ == self@,
    {
        let line_ref = self.line_ref.clone();
        assert(line_ref@ =~= self.line_ref@);
        VarAttribute {
            data_type: match &self.data_type {
                Some(dt) => Some(dt.clone()),
                None => None,
            },
            size: self.size,
            dimension: self.dimension,
            line_declare: self.line_declare,
            line_ref,
            current_version: self.current_version,
        }
    }
}

impl VarAttribute {
    /// Record the declared type.
    pub fn set_data_type(&mut self, dt: DataType)
        ensures
            final(self)@ == (VarModel { data_type: Some(dt), ..old(self)@ }),
    {
        self.data_type = Some(dt);
    }

    /// Record the size in bytes.
    pub fn set_size(&mut self, size_in_byte: u32)
        ensures
            final(self)@ == (VarModel { size: Some(size_in_byte), ..old(self)@ }),
    {
        self.size = Some(size_in_byte);
    }

    /// Record the array dimension.
    pub fn set_dimension(&mut self, dimension: u32)
        ensures
            final(self)@ == (VarModel { dimension: Some(dimension), ..old(self)@ }),
    {
        self.dimension = Some(dimension);
    }

    /// Record the declaration line.
    pub fn set_line_declare(&mut self, line_declare: u32)
        ensures
            final(self)@ == (VarModel { line_declare: Some(line_declare), ..old(self)@ }),
    {
        self.line_declare = Some(line_declare);
    }

    /// Append a referencing line.
    pub fn push_line_ref(&mut self, line_ref: u32)
        ensures
            final(self)@ == (VarModel {
                line_ref: old(self)@.line_ref.push(line_ref),
                ..old(self)@
            }),
    {
        self.line_ref.push(line_ref);
    }
}

/// Mathematical value of a [`FuncAttribute`].
pub struct FuncModel {
    pub func_name: Seq<char>,
    pub line_declare: Option<u32>,
    pub line_used: Seq<u32>,
    pub parameter: Seq<(DataType, Seq<char>)>,
    pub return_type: DataType,
    pub func_table: usize,
}

/// What the table records about one function: name, declaration line, use
/// lines, parameters, return type, and the index of its dedicated scope.
#[derive(Debug)]
pub struct FuncAttribute {
    pub func_name: String,
    pub line_declare: Option<u32>,
    pub line_used: Vec<u32>,
    pub parameter: Vec<(DataType, String)>,
    pub return_type: DataType,
    pub func_table: usize,
}

/// The parameter list as a sequence of (type, name-characters) pairs.
pub open spec fn params_model(p: Seq<(DataType, String)>) -> Seq<(DataType, Seq<char>)> {
    p.map_values(|e: (DataType, String)| (e.0, e.1@))
}

impl View for FuncAttribute {
    type V = FuncModel;

    open spec fn view(&self) -> FuncModel {
        FuncModel {
            func_name: self.func_name@,
            line_declare: self.line_declare,
            line_used: self.line_used@,
            parameter: params_model(self.parameter@),
            return_type: self.return_type,
            func_table: self.func_table,
        }
    }
}

impl Clone for FuncAttribute {
    fn clone(&self) -> (r: Self)
        ensures
            r@ == self@,
    {
        let line_used = self.line_used.clone();
        assert(line_used@ =~= self.line_used@);
        let mut parameter: Vec<(DataType, String)> = Vec::new();
        let mut i: usize = 0;
        while i < self.parameter.len()
            invariant
                i <= self.parameter.len(),
                parameter@.len() == i,
                forall|j: int| 0 <= j < i ==> parameter@[j].0 == self.parameter@[j].0
                    && parameter@[j].1@ == self.parameter@[j].1@,
            decreases self.parameter.len() - i,
        {
            let entry = &self.parameter[i];
            parameter.push((entry.0.clone(), entry.1.clone()));
            i += 1;
        }
        assert(params_model(parameter@) =~= params_model(self.parameter@));
        FuncAttribute {
            func_name: self.func_name.clone(),
            line_declare: self.line_declare,
            line_used,
            parameter,
            return_type: self.return_type.clone(),
            func_table: self.func_table,
        }
    }
}

impl FuncAttribute {
    /// Record the return type.
    pub fn set_return_type(&mut self, dt: DataType)
        ensures
            final(self)@ == (FuncModel { return_type: dt, ..old(self)@ }),
    {
        self.return_type = dt;
    }

    /// Record the declaration line.
    pub fn set_line_declare(&mut self, line_declare: u32)
        ensures
            final(self)@ == (FuncModel { line_declare: Some(line_declare), ..old(self)@ }),
    {
        self.line_declare = Some(line_declare);
    }

    /// Append a line on which the function is used.
    pub fn push_line_used(&mut self, line_used: u32)
        ensures
            final(self)@ == (FuncModel {
                line_used: old(self)@.line_used.push(line_used),
                ..old(self)@
            }),
    {
        self.line_used.push(line_used);
    }

    /// Append one parameter (type, name).
    pub fn push_parameter(&mut self, param: (DataType, String))
        ensures
            final(self)@ == (FuncModel {
                parameter: old(self)@.parameter.push((param.0, param.1@)),
                ..old(self)@
            }),
    {
        self.parameter.push(param);
        assert(params_model(self.parameter@) =~= params_model(old(self).parameter@).push(
            (self.parameter@.last().0, self.parameter@.last().1@),
        ));
    }
}

/// The map an association list denotes: later entries shadow earlier ones
/// (entries are kept unique, so shadowing never actually occurs).
pub open spec fn assoc_map<V: View>(s: Seq<(String, V)>) -> Map<Seq<char>, <V as View>::V>
    decreases s.len(),
{
    if s.len() == 0 {
        Map::empty()
    } else {
        assoc_map(s.drop_last()).insert(s.last().0@, s.last().1@)
    }
}

/// No two entries share a key.
pub open spec fn keys_unique<V>(s: Seq<(String, V)>) -> bool {
    forall|i: int, j: int| 0 <= i < j < s.len() ==> s[i].0@ != s[j].0@
}

proof fn lemma_assoc_contains<V: View>(s: Seq<(String, V)>, n: Seq<char>)
    ensures
        assoc_map(s).contains_key(n) <==> exists|i: int| 0 <= i < s.len() && s[i].0@ == n,
    decreases s.len(),
{
    if s.len() > 0 {
        lemma_assoc_contains(s.drop_last(), n);
        if assoc_map(s).contains_key(n) && s.last().0@ != n {
            let i = choose|i: int| 0 <= i < s.drop_last().len() && s.drop_last()[i].0@ == n;
            assert(s[i].0@ == n);
        }
        if exists|i: int| 0 <= i < s.len() && s[i].0@ == n {
            let i = choose|i: int| 0 <= i < s.len() && s[i].0@ == n;
            if i < s.len() - 1 {
                assert(s.drop_last()[i].0@ == n);
            }
        }
    }
}

proof fn lemma_assoc_value<V: View>(s: Seq<(String, V)>, i: int)
    requires
        keys_unique(s),
        0 <= i < s.len(),
    ensures
        assoc_map(s).contains_key(s[i].0@),
        assoc_map(s)[s[i].0@] == s[i].1@,
    decreases s.len(),
{
    if i == s.len() - 1 {
    } else {
        lemma_assoc_value(s.drop_last(), i);
        assert(s.drop_last()[i] == s[i]);
    }
}

proof fn lemma_assoc_update<V: View>(s: Seq<(String, V)>, i: int, k: String, v: V)
    requires
        keys_unique(s),
        0 <= i < s.len(),
        k@ == s[i].0@,
    ensures
        assoc_map(s.update(i, (k, v))) == assoc_map(s).insert(k@, v@),
        keys_unique(s.update(i, (k, v))),
    decreases s.len(),
{
    let t = s.update(i, (k, v));
    assert(t.len() == s.len());
    if i == s.len() - 1 {
        assert(t.drop_last() =~= s.drop_last());
        assert(assoc_map(t) =~= assoc_map(s).insert(k@, v@));
    } else {
        assert(t.drop_last() =~= s.drop_last().update(i, (k, v)));
        lemma_assoc_update(s.drop_last(), i, k, v);
        assert(t.last() == s.last());
        assert(assoc_map(t) =~= assoc_map(s).insert(k@, v@));
    }
}

proof fn lemma_assoc_push<V: View>(s: Seq<(String, V)>, k: String, v: V)
    requires
        keys_unique(s),
        forall|i: int| 0 <= i < s.len() ==> s[i].0@ != k@,
    ensures
        assoc_map(s.push((k, v))) == assoc_map(s).insert(k@, v@),
        keys_unique(s.push((k, v))),
{
    let t = s.push((k, v));
    assert(t.drop_last() =~= s);
    assert(assoc_map(t) =~= assoc_map(s).insert(k@, v@));
}

/// Find the position of `name` in an association list.
fn find_key<V: View>(v: &Vec<(String, V)>, name: &String) -> (r: Option<usize>)
    ensures
        match r {
            Some(i) => i < v@.len() && v@[i as int].0@ == name@,
            None => forall|j: int| 0 <= j < v@.len() ==> v@[j].0@ != name@,
        },
{
    let mut i: usize = 0;
    while i < v.len()
        invariant
            i <= v@.len(),
            forall|j: int| 0 <= j < i ==> v@[j].0@ != name@,
        decreases v@.len() - i,
    {
        if v[i].0.eq(name) {
            return Some(i);
        }
        i += 1;
    }
    None
}

/// One scope of the tree: its identity, its variable and function tables,
/// the indices of the block scopes opened inside it, and its parent.
struct ScopeNode {
    scope: Scope,
    vars: Vec<(String, VarAttribute)>,
    funcs: Vec<(String, FuncAttribute)>,
    inner: Vec<usize>,
    parent: Option<usize>,
}

/// The scope tree. Scope indices are handed out by the insertion methods;
/// index `0` is the root passed to [`SymbolTable::new`].
pub struct SymbolTable {
    scopes: Vec<ScopeNode>,
}

impl SymbolTable {
    /// Number of scopes in the tree.
    pub closed spec fn scope_count(self) -> int {
        self.scopes@.len() as int
    }

    /// Identity of scope `sid`.
    pub closed spec fn scope_at(self, sid: int) -> Scope {
        self.scopes@[sid].scope
    }

    /// Parent index of scope `sid` (`None` only for the root).
    pub closed spec fn parent_of(self, sid: int) -> Option<usize> {
        self.scopes@[sid].parent
    }

    /// The variable table of scope `sid`, as a map from identifier
    /// characters to the recorded attribute.
    pub closed spec fn vars_at(self, sid: int) -> Map<Seq<char>, VarModel> {
        assoc_map(self.scopes@[sid].vars@)
    }

    /// The function table of scope `sid`.
    pub closed spec fn funcs_at(self, sid: int) -> Map<Seq<char>, FuncModel> {
        assoc_map(self.scopes@[sid].funcs@)
    }

    /// Indices of the block scopes opened directly inside scope `sid`,
    /// oldest first.
    pub closed spec fn inner_at(self, sid: int) -> Seq<usize> {
        self.scopes@[sid].inner@
    }

    spec fn node_ok(self, i: int) -> bool {
        let n = self.scopes@[i];
        &&& if i == 0 {
            n.parent is None
        } else {
            n.parent matches Some(p) && 0 <= p < i
        }
        &&& keys_unique(n.vars@)
        &&& keys_unique(n.funcs@)
        &&& forall|k: int| 0 <= k < n.inner@.len() ==> #[trigger] n.inner@[k] < self.scopes@.len()
        &&& forall|j: int|
            0 <= j < n.funcs@.len() ==> #[trigger] n.funcs@[j].1.func_table < self.scopes@.len()
    }

    /// The tree is well formed: there is a root, every other scope points to
    /// an earlier parent, tables have unique keys, and recorded scope
    /// indices are in range.
    pub closed spec fn wf(self) -> bool {
        &&& self.scopes@.len() >= 1
        &&& forall|i: int| 0 <= i < self.scopes@.len() ==> #[trigger] self.node_ok(i)
    }

    /// Both tables of scope `sid` and its identity, parent and child list
    /// are the same in `self` and `other`.
    pub open spec fn scope_unchanged(self, other: SymbolTable, sid: int) -> bool {
        &&& other.scope_at(sid) == self.scope_at(sid)
        &&& other.parent_of(sid) == self.parent_of(sid)
        &&& other.vars_at(sid) == self.vars_at(sid)
        &&& other.funcs_at(sid) == self.funcs_at(sid)
        &&& other.inner_at(sid) == self.inner_at(sid)
    }

    /// Where an identifier lookup starting at scope `sid` resolves: the
    /// nearest scope on the parent chain whose variable table holds `name`,
    /// the walk stopping once the global scope has been inspected.
    pub open spec fn find_var_scope(self, sid: int, name: Seq<char>) -> Option<int>
        decreases sid,
    {
        if self.vars_at(sid).contains_key(name) {
            Some(sid)
        } else if self.scope_at(sid) is Global {
            None
        } else {
            match self.parent_of(sid) {
                Some(p) => if 0 <= p < sid {
                    self.find_var_scope(p as int, name)
                } else {
                    None
                },
                None => None,
            }
        }
    }

    /// Like [`Self::find_var_scope`], over the function tables.
    pub open spec fn find_func_scope(self, sid: int, name: Seq<char>) -> Option<int>
        decreases sid,
    {
        if self.funcs_at(sid).contains_key(name) {
            Some(sid)
        } else if self.scope_at(sid) is Global {
            None
        } else {
            match self.parent_of(sid) {
                Some(p) => if 0 <= p < sid {
                    self.find_func_scope(p as int, name)
                } else {
                    None
                },
                None => None,
            }
        }
    }

    /// The nearest scope on the parent chain whose identity equals
    /// `target`.
    pub open spec fn find_scope_on_chain(self, sid: int, target: Scope) -> Option<int>
        decreases sid,
    {
        if scope_like(self.scope_at(sid), target) {
            Some(sid)
        } else {
            match self.parent_of(sid) {
                Some(p) => if 0 <= p < sid {
                    self.find_scope_on_chain(p as int, target)
                } else {
                    None
                },
                None => None,
            }
        }
    }

    /// Descriptor of the function whose body scope `sid` lies in: walk
    /// upward to the nearest function-tagged scope, then resolve its name in
    /// its parent's function table; if the name is absent there, the walk
    /// continues above that parent.
    pub open spec fn find_func_info(self, sid: int) -> Option<FuncModel>
        decreases sid,
    {
        match self.scope_at(sid) {
            Scope::Function(name) => match self.parent_of(sid) {
                Some(p) => if 0 <= p < sid {
                    if self.funcs_at(p as int).contains_key(name@) {
                        Some(self.funcs_at(p as int)[name@])
                    } else if self.scope_at(p as int) is Global {
                        None
                    } else {
                        match self.parent_of(p as int) {
                            Some(gp) => if 0 <= gp < p {
                                self.find_func_info(gp as int)
                            } else {
                                None
                            },
                            None => None,
                        }
                    }
                } else {
                    None
                },
                None => None,
            },
            Scope::Global => None,
            Scope::Block(_) => match self.parent_of(sid) {
                Some(p) => if 0 <= p < sid {
                    self.find_func_info(p as int)
                } else {
                    None
                },
                None => None,
            },
        }
    }

    /// A fresh tree holding only a root scope with the given identity.
    pub fn new(scope: Scope) -> (r: SymbolTable)
        ensures
            r.wf(),
            r.scope_count() == 1,
            scope_like(r.scope_at(0), scope),
            r.parent_of(0) is None,
            r.vars_at(0) == Map::<Seq<char>, VarModel>::empty(),
            r.funcs_at(0) == Map::<Seq<char>, FuncModel>::empty(),
            r.inner_at(0) == Seq::<usize>::empty(),
    {
        let mut scopes: Vec<ScopeNode> = Vec::new();
        scopes.push(
            ScopeNode {
                scope,
                vars: Vec::new(),
                funcs: Vec::new(),
                inner: Vec::new(),
                parent: None,
            },
        );
        let r = SymbolTable { scopes };
        proof {
            assert(r.node_ok(0));
        }
        r
    }

    /// Insert `identifier` into the variable table of scope `at` with a
    /// fresh attribute, replacing any previous entry.
    pub fn insert_var(&mut self, at: usize, identifier: String)
        requires
            old(self).wf(),
            at < old(self).scope_count(),
        ensures
            final(self).wf(),
            scopes_retained(*old(self), *final(self)),
            final(self).scope_count() == old(self).scope_count(),
            forall|s: int|
                0 <= s < old(self).scope_count() && s != at ==> old(self).scope_unchanged(
                    *final(self),
                    s,
                ),
            final(self).vars_at(at as int) == old(self).vars_at(at as int).insert(
                identifier@,
                fresh_var_model(),
            ),
            final(self).funcs_at(at as int) == old(self).funcs_at(at as int),
            final(self).scope_at(at as int) == old(self).scope_at(at as int),
            final(self).parent_of(at as int) == old(self).parent_of(at as int),
            final(self).inner_at(at as int) == old(self).inner_at(at as int),
    {
        let fresh = VarAttribute {
            data_type: None,
            size: None,
            dimension: None,
            line_declare: None,
            line_ref: Vec::new(),
            current_version: 0,
        };
        let node = &mut self.scopes[at];
        let found = find_key(&node.vars, &identifier);
        proof {
            assert(old(self).node_ok(at as int));
        }
        match found {
            Some(i) => {
                proof {
                    lemma_assoc_update(node.vars@, i as int, identifier, fresh);
                }
                node.vars[i] = (identifier, fresh);
            },
            None => {
                proof {
                    lemma_assoc_push(node.vars@, identifier, fresh);
                }
                node.vars.push((identifier, fresh));
            },
        }
        proof {
            assert(self.scopes@ =~= old(self).scopes@.update(at as int, self.scopes@[at as int]));
            assert forall|i: int| 0 <= i < self.scopes@.len() implies #[trigger] self.node_ok(i) by {
                assert(old(self).node_ok(i));
            }
        }
    }

    /// The current version counter of a variable of scope `at` itself.
    pub fn get_var_version(&self, at: usize, identifier: &String) -> (r: u32)
        requires
            self.wf(),
            at < self.scope_count(),
            self.vars_at(at as int).contains_key(identifier@),
        ensures
            r == self.vars_at(at as int)[identifier@].current_version,
    {
        let node = &self.scopes[at];
        proof {
            assert(self.node_ok(at as int));
            lemma_assoc_contains(node.vars@, identifier@);
        }
        let found = find_key(&node.vars, identifier);
        match found {
            Some(i) => {
                proof {
                    lemma_assoc_value(node.vars@, i as int);
                }
                node.vars[i].1.current_version
            },
            None => {
                proof {
                    assert(false);
                }
                0
            },
        }
    }

    /// Increment, then read, the version counter of a variable of scope
    /// `at` itself.
    pub fn consume_var_version(&mut self, at: usize, identifier: &String) -> (r: u32)
        requires
            old(self).wf(),
            at < old(self).scope_count(),
            old(self).vars_at(at as int).contains_key(identifier@),
            old(self).vars_at(at as int)[identifier@].current_version < u32::MAX,
        ensures
            final(self).wf(),
            scopes_retained(*old(self), *final(self)),
            final(self).scope_count() == old(self).scope_count(),
            forall|s: int|
                0 <= s < old(self).scope_count() && s != at ==> old(self).scope_unchanged(
                    *final(self),
                    s,
                ),
            r == old(self).vars_at(at as int)[identifier@].current_version + 1,
            final(self).vars_at(at as int) == old(self).vars_at(at as int).insert(
                identifier@,
                (VarModel { current_version: r, ..old(self).vars_at(at as int)[identifier@] }),
            ),
            final(self).funcs_at(at as int) == old(self).funcs_at(at as int),
            final(self).scope_at(at as int) == old(self).scope_at(at as int),
            final(self).parent_of(at as int) == old(self).parent_of(at as int),
            final(self).inner_at(at as int) == old(self).inner_at(at as int),
    {
        let node = &mut self.scopes[at];
        proof {
            assert(old(self).node_ok(at as int));
            lemma_assoc_contains(node.vars@, identifier@);
        }
        let found = find_key(&node.vars, identifier);
        match found {
            Some(i) => {
                proof {
                    lemma_assoc_value(node.vars@, i as int);
                }
                let ghost oldentry = node.vars@[i as int];
                let mut attr = node.vars[i].1.clone();
                let name = node.vars[i].0.clone();
                attr.current_version = attr.current_version + 1;
                let version = attr.current_version;
                proof {
                    lemma_assoc_update(node.vars@, i as int, name, attr);
                }
                node.vars[i] = (name, attr);
                proof {
                    assert(self.scopes@ =~= old(self).scopes@.update(
                        at as int,
                        self.scopes@[at as int],
                    ));
                    assert forall|i2: int| 0 <= i2 < self.scopes@.len() implies #[trigger] self
                        .node_ok(i2) by {
                        assert(old(self).node_ok(i2));
                    }
                }
                version
            },
            None => {
                proof {
                    assert(false);
                }
                0
            },
        }
    }

    /// Overwrite the recorded facts of a variable of scope `at` itself:
    /// each `Some` argument replaces the stored field, each `None` leaves
    /// it.
    pub fn update_var(
        &mut self,
        at: usize,
        identifier: &String,
        data_type: Option<DataType>,
        size: Option<u32>,
        dimension: Option<u32>,
        line_declare: Option<u32>,
    )
        requires
            old(self).wf(),
            at < old(self).scope_count(),
            old(self).vars_at(at as int).contains_key(identifier@),
        ensures
            final(self).wf(),
            scopes_retained(*old(self), *final(self)),
            final(self).scope_count() == old(self).scope_count(),
            forall|s: int|
                0 <= s < old(self).scope_count() && s != at ==> old(self).scope_unchanged(
                    *final(self),
                    s,
                ),
            final(self).vars_at(at as int) == old(self).vars_at(at as int).insert(
                identifier@,
                updated_var_model(
                    old(self).vars_at(at as int)[identifier@],
                    data_type,
                    size,
                    dimension,
                    line_declare,
                ),
            ),
            final(self).funcs_at(at as int) == old(self).funcs_at(at as int),
            final(self).scope_at(at as int) == old(self).scope_at(at as int),
            final(self).parent_of(at as int) == old(self).parent_of(at as int),
            final(self).inner_at(at as int) == old(self).inner_at(at as int),
    {
        let node = &mut self.scopes[at];
        proof {
            assert(old(self).node_ok(at as int));
            lemma_assoc_contains(node.vars@, identifier@);
        }
        let found = find_key(&node.vars, identifier);
        match found {
            Some(i) => {
                proof {
                    lemma_assoc_value(node.vars@, i as int);
                }
                let mut attr = node.vars[i].1.clone();
                let name = node.vars[i].0.clone();
                if data_type.is_some() {
                    attr.data_type = data_type;
                }
                if size.is_some() {
                    attr.size = size;
                }
                if dimension.is_some() {
                    attr.dimension = dimension;
                }
                if line_declare.is_some() {
                    attr.line_declare = line_declare;
                }
                proof {
                    lemma_assoc_update(node.vars@, i as int, name, attr);
                }
                node.vars[i] = (name, attr);
                proof {
                    assert(self.scopes@ =~= old(self).scopes@.update(
                        at as int,
                        self.scopes@[at as int],
                    ));
                    assert forall|i2: int| 0 <= i2 < self.scopes@.len() implies #[trigger] self
                        .node_ok(i2) by {
                        assert(old(self).node_ok(i2));
                    }
                }
            },
            None => {
                proof {
                    assert(false);
                }
            },
        }
    }

    /// Append a referencing line to a variable of scope `at` itself.
    pub fn var_push_line_ref(&mut self, at: usize, identifier: &String, line_ref: u32)
        requires
            old(self).wf(),
            at < old(self).scope_count(),
            old(self).vars_at(at as int).contains_key(identifier@),
        ensures
            final(self).wf(),
            scopes_retained(*old(self), *final(self)),
            final(self).scope_count() == old(self).scope_count(),
            forall|s: int|
                0 <= s < old(self).scope_count() && s != at ==> old(self).scope_unchanged(
                    *final(self),
                    s,
                ),
            final(self).vars_at(at as int) == old(self).vars_at(at as int).insert(
                identifier@,
                (VarModel {
                    line_ref: old(self).vars_at(at as int)[identifier@].line_ref.push(line_ref),
                    ..old(self).vars_at(at as int)[identifier@]
                }),
            ),
            final(self).funcs_at(at as int) == old(self).funcs_at(at as int),
            final(self).scope_at(at as int) == old(self).scope_at(at as int),
            final(self).parent_of(at as int) == old(self).parent_of(at as int),
            final(self).inner_at(at as int) == old(self).inner_at(at as int),
    {
        let node = &mut self.scopes[at];
        proof {
            assert(old(self).node_ok(at as int));
            lemma_assoc_contains(node.vars@, identifier@);
        }
        let found = find_key(&node.vars, identifier);
        match found {
            Some(i) => {
                proof {
                    lemma_assoc_value(node.vars@, i as int);
                }
                let mut attr = node.vars[i].1.clone();
                let name = node.vars[i].0.clone();
                attr.push_line_ref(line_ref);
                proof {
                    lemma_assoc_update(node.vars@, i as int, name, attr);
                }
                node.vars[i] = (name, attr);
                proof {
                    assert(self.scopes@ =~= old(self).scopes@.update(
                        at as int,
                        self.scopes@[at as int],
                    ));
                    assert forall|i2: int| 0 <= i2 < self.scopes@.len() implies #[trigger] self
                        .node_ok(i2) by {
                        assert(old(self).node_ok(i2));
                    }
                }
            },
            None => {
                proof {
                    assert(false);
                }
            },
        }
    }

    /// Walk from scope `at` to the nearest scope on its parent chain whose
    /// identity equals `target`, per [`Self::find_scope_on_chain`].
    fn walk_to_scope(&self, at: usize, target: &Scope) -> (r: usize)
        requires
            self.wf(),
            at < self.scope_count(),
            self.find_scope_on_chain(at as int, *target) is Some,
        ensures
            r < self.scope_count(),
            self.find_scope_on_chain(at as int, *target) == Some(r as int),
    {
        let mut cur = at;
        loop
            invariant
                self.wf(),
                cur < self.scope_count(),
                self.find_scope_on_chain(at as int, *target) == self.find_scope_on_chain(
                    cur as int,
                    *target,
                ),
                self.find_scope_on_chain(cur as int, *target) is Some,
            decreases cur,
        {
            let node = &self.scopes[cur];
            proof {
                assert(self.node_ok(cur as int));
            }
            if node.scope.eq(target) {
                return cur;
            }
            match node.parent {
                Some(p) => {
                    cur = p;
                },
                None => {
                    proof {
                        assert(false);
                    }
                },
            }
        }
    }

    /// Walk from `at` toward the root and resolve `identifier`: the nearest
    /// binding together with the identity of the scope holding it.
    pub fn lookup_var(&self, at: usize, identifier: &String) -> (r: Option<(VarAttribute, Scope)>)
        requires
            self.wf(),
            at < self.scope_count(),
        ensures
            r is Some <==> self.find_var_scope(at as int, identifier@) is Some,
            r matches Some(p) ==> {
                &&& self.find_var_scope(at as int, identifier@) matches Some(f)
                &&& p.0@ == self.vars_at(f)[identifier@]
                &&& scope_like(p.1, self.scope_at(f))
            },
    {
        let mut cur = at;
        loop
            invariant
                self.wf(),
                cur < self.scope_count(),
                self.find_var_scope(at as int, identifier@) == self.find_var_scope(
                    cur as int,
                    identifier@,
                ),
            decreases cur,
        {
            let node = &self.scopes[cur];
            proof {
                assert(self.node_ok(cur as int));
                lemma_assoc_contains(node.vars@, identifier@);
            }
            let found = find_key(&node.vars, identifier);
            match found {
                Some(i) => {
                    proof {
                        lemma_assoc_value(node.vars@, i as int);
                    }
                    return Some((node.vars[i].1.clone(), node.scope.clone()));
                },
                None => {},
            }
            if matches!(node.scope, Scope::Global) {
                return None;
            }
            match node.parent {
                Some(p) => {
                    cur = p;
                },
                None => {
                    return None;
                },
            }
        }
    }

    /// Walk from `at` toward the root and resolve a function name: the
    /// nearest descriptor together with the identity of the scope holding
    /// it.
    pub fn lookup_func(&self, at: usize, identifier: &String) -> (r: Option<(FuncAttribute, Scope)>)
        requires
            self.wf(),
            at < self.scope_count(),
        ensures
            r is Some <==> self.find_func_scope(at as int, identifier@) is Some,
            r matches Some(p) ==> {
                &&& self.find_func_scope(at as int, identifier@) matches Some(f)
                &&& p.0@ == self.funcs_at(f)[identifier@]
                &&& scope_like(p.1, self.scope_at(f))
            },
    {
        let mut cur = at;
        loop
            invariant
                self.wf(),
                cur < self.scope_count(),
                self.find_func_scope(at as int, identifier@) == self.find_func_scope(
                    cur as int,
                    identifier@,
                ),
            decreases cur,
        {
            let node = &self.scopes[cur];
            proof {
                assert(self.node_ok(cur as int));
                lemma_assoc_contains(node.funcs@, identifier@);
            }
            let found = find_key(&node.funcs, identifier);
            match found {
                Some(i) => {
                    proof {
                        lemma_assoc_value(node.funcs@, i as int);
                    }
                    return Some((node.funcs[i].1.clone(), node.scope.clone()));
                },
                None => {},
            }
            if matches!(node.scope, Scope::Global) {
                return None;
            }
            match node.parent {
                Some(p) => {
                    cur = p;
                },
                None => {
                    return None;
                },
            }
        }
    }

    /// Like [`Self::lookup_var`], but hand back the index of the scope the
    /// binding was found in.
    pub fn lookup_var_scope_id(&self, at: usize, identifier: &String) -> (r: Option<usize>)
        requires
            self.wf(),
            at < self.scope_count(),
        ensures
            match r {
                Some(f) => self.find_var_scope(at as int, identifier@) == Some(f as int) && f
                    < self.scope_count(),
                None => self.find_var_scope(at as int, identifier@) is None,
            },
    {
        let mut cur = at;
        loop
            invariant
                self.wf(),
                cur < self.scope_count(),
                self.find_var_scope(at as int, identifier@) == self.find_var_scope(
                    cur as int,
                    identifier@,
                ),
            decreases cur,
        {
            let node = &self.scopes[cur];
            proof {
                assert(self.node_ok(cur as int));
                lemma_assoc_contains(node.vars@, identifier@);
            }
            let found = find_key(&node.vars, identifier);
            match found {
                Some(_) => {
                    return Some(cur);
                },
                None => {},
            }
            if matches!(node.scope, Scope::Global) {
                return None;
            }
            match node.parent {
                Some(p) => {
                    cur = p;
                },
                None => {
                    return None;
                },
            }
        }
    }

    /// How many scopes the tree holds.
    pub fn num_scopes(&self) -> (r: usize)
        ensures
            r == self.scope_count(),
    {
        self.scopes.len()
    }

    /// Whether scope `at` itself binds `identifier`.
    pub fn has_own_var(&self, at: usize, identifier: &String) -> (r: bool)
        requires
            self.wf(),
            at < self.scope_count(),
        ensures
            r == self.vars_at(at as int).contains_key(identifier@),
    {
        proof {
            assert(self.node_ok(at as int));
            lemma_assoc_contains(self.scopes@[at as int].vars@, identifier@);
        }
        let found = find_key(&self.scopes[at].vars, identifier);
        found.is_some()
    }

    /// Whether scope `at` is the global scope.
    pub fn scope_at_is_global(&self, at: usize) -> (r: bool)
        requires
            self.wf(),
            at < self.scope_count(),
        ensures
            r == (self.scope_at(at as int) is Global),
    {
        matches!(self.scopes[at].scope, Scope::Global)
    }

    /// Open a fresh anonymous block scope inside scope `at` and return its
    /// index. The block is tagged with its position among the blocks of
    /// `at`.
    pub fn insert_block_scope(&mut self, at: usize) -> (r: usize)
        requires
            old(self).wf(),
            at < old(self).scope_count(),
        ensures
            final(self).wf(),
            scopes_retained(*old(self), *final(self)),
            r == old(self).scope_count(),
            final(self).scope_count() == old(self).scope_count() + 1,
            forall|s: int|
                0 <= s < old(self).scope_count() && s != at ==> old(self).scope_unchanged(
                    *final(self),
                    s,
                ),
            final(self).vars_at(at as int) == old(self).vars_at(at as int),
            final(self).funcs_at(at as int) == old(self).funcs_at(at as int),
            final(self).scope_at(at as int) == old(self).scope_at(at as int),
            final(self).parent_of(at as int) == old(self).parent_of(at as int),
            final(self).inner_at(at as int) == old(self).inner_at(at as int).push(r),
            scope_like(final(self).scope_at(r as int), Scope::Block(old(self).inner_at(at as int).len() as usize)),
            final(self).parent_of(r as int) == Some(at),
            final(self).vars_at(r as int) == Map::<Seq<char>, VarModel>::empty(),
            final(self).funcs_at(r as int) == Map::<Seq<char>, FuncModel>::empty(),
            final(self).inner_at(r as int) == Seq::<usize>::empty(),
    {
        let new_id = self.scopes.len();
        let block_index = self.scopes[at].inner.len();
        let child = ScopeNode {
            scope: Scope::Block(block_index),
            vars: Vec::new(),
            funcs: Vec::new(),
            inner: Vec::new(),
            parent: Some(at),
        };
        self.scopes.push(child);
        let node = &mut self.scopes[at];
        node.inner.push(new_id);
        proof {
            assert forall|i2: int| 0 <= i2 < self.scopes@.len() implies #[trigger] self.node_ok(i2)
                by {
                if i2 < old(self).scopes@.len() {
                    assert(old(self).node_ok(i2));
                }
            }
            assert forall|s: int|
                0 <= s < old(self).scope_count() && s != at implies old(self).scope_unchanged(
                *self,
                s,
            ) by {}
        }
        new_id
    }
}

impl SymbolTable {
    /// The scope index [`Self::find_scope_on_chain`] resolves to, where it
    /// resolves at all.
    pub open spec fn chain_scope_id(self, sid: int, target: Scope) -> int {
        match self.find_scope_on_chain(sid, target) {
            Some(f) => f,
            None => -1,
        }
    }

    /// Declare a function in scope `at`: record a fresh descriptor under
    /// `identifier` (replacing any previous one), create its dedicated
    /// child scope, and return that scope's index.
    pub fn insert_func(&mut self, at: usize, identifier: String) -> (r: usize)
        requires
            old(self).wf(),
            at < old(self).scope_count(),
        ensures
            final(self).wf(),
            scopes_retained(*old(self), *final(self)),
            r == old(self).scope_count(),
            final(self).scope_count() == old(self).scope_count() + 1,
            forall|s: int|
                0 <= s < old(self).scope_count() && s != at ==> old(self).scope_unchanged(
                    *final(self),
                    s,
                ),
            final(self).funcs_at(at as int) == old(self).funcs_at(at as int).insert(
                identifier@,
                (FuncModel {
                    func_name: identifier@,
                    line_declare: None,
                    line_used: Seq::empty(),
                    parameter: Seq::empty(),
                    return_type: DataType::Void,
                    func_table: r,
                }),
            ),
            final(self).vars_at(at as int) == old(self).vars_at(at as int),
            final(self).scope_at(at as int) == old(self).scope_at(at as int),
            final(self).parent_of(at as int) == old(self).parent_of(at as int),
            final(self).inner_at(at as int) == old(self).inner_at(at as int),
            scope_like(final(self).scope_at(r as int), Scope::Function(identifier)),
            final(self).parent_of(r as int) == Some(at),
            final(self).vars_at(r as int) == Map::<Seq<char>, VarModel>::empty(),
            final(self).funcs_at(r as int) == Map::<Seq<char>, FuncModel>::empty(),
            final(self).inner_at(r as int) == Seq::<usize>::empty(),
    {
        let new_id = self.scopes.len();
        let child = ScopeNode {
            scope: Scope::Function(identifier.clone()),
            vars: Vec::new(),
            funcs: Vec::new(),
            inner: Vec::new(),
            parent: Some(at),
        };
        self.scopes.push(child);
        let attr = FuncAttribute {
            func_name: identifier.clone(),
            line_declare: None,
            line_used: Vec::new(),
            parameter: Vec::new(),
            return_type: DataType::Void,
            func_table: new_id,
        };
        proof {
            assert(attr@ == (FuncModel {
                func_name: identifier@,
                line_declare: None,
                line_used: Seq::empty(),
                parameter: Seq::empty(),
                return_type: DataType::Void,
                func_table: new_id,
            })) by {
                assert(params_model(attr.parameter@) =~= Seq::<(DataType, Seq<char>)>::empty());
                assert(attr.line_used@ =~= Seq::<u32>::empty());
            }
        }
        let node = &mut self.scopes[at];
        proof {
            assert(old(self).node_ok(at as int));
        }
        let found = find_key(&node.funcs, &identifier);
        match found {
            Some(i) => {
                proof {
                    lemma_assoc_update(node.funcs@, i as int, identifier, attr);
                }
                node.funcs[i] = (identifier, attr);
            },
            None => {
                proof {
                    lemma_assoc_push(node.funcs@, identifier, attr);
                }
                node.funcs.push((identifier, attr));
            },
        }
        proof {
            assert forall|i2: int| 0 <= i2 < self.scopes@.len() implies #[trigger] self.node_ok(i2)
                by {
                if i2 < old(self).scopes@.len() {
                    assert(old(self).node_ok(i2));
                }
            }
            assert forall|s: int|
                0 <= s < old(self).scope_count() && s != at implies old(self).scope_unchanged(
                *self,
                s,
            ) by {}
        }
        new_id
    }

    /// Overwrite the recorded facts of a function of scope `at` itself:
    /// each `Some` argument replaces the stored field.
    pub fn update_func(
        &mut self,
        at: usize,
        identifier: &String,
        return_type: Option<DataType>,
        line_declare: Option<u32>,
    )
        requires
            old(self).wf(),
            at < old(self).scope_count(),
            old(self).funcs_at(at as int).contains_key(identifier@),
        ensures
            final(self).wf(),
            scopes_retained(*old(self), *final(self)),
            final(self).scope_count() == old(self).scope_count(),
            forall|s: int|
                0 <= s < old(self).scope_count() && s != at ==> old(self).scope_unchanged(
                    *final(self),
                    s,
                ),
            final(self).funcs_at(at as int) == old(self).funcs_at(at as int).insert(
                identifier@,
                updated_func_model(
                    old(self).funcs_at(at as int)[identifier@],
                    return_type,
                    line_declare,
                ),
            ),
            final(self).vars_at(at as int) == old(self).vars_at(at as int),
            final(self).scope_at(at as int) == old(self).scope_at(at as int),
            final(self).parent_of(at as int) == old(self).parent_of(at as int),
            final(self).inner_at(at as int) == old(self).inner_at(at as int),
    {
        let node = &mut self.scopes[at];
        proof {
            assert(old(self).node_ok(at as int));
            lemma_assoc_contains(node.funcs@, identifier@);
        }
        let found = find_key(&node.funcs, identifier);
        match found {
            Some(i) => {
                proof {
                    lemma_assoc_value(node.funcs@, i as int);
                }
                let mut attr = node.funcs[i].1.clone();
                let name = node.funcs[i].0.clone();
                match return_type {
                    Some(dt) => {
                        attr.return_type = dt;
                    },
                    None => {},
                }
                if line_declare.is_some() {
                    attr.line_declare = line_declare;
                }
                proof {
                    lemma_assoc_update(node.funcs@, i as int, name, attr);
                }
                node.funcs[i] = (name, attr);
                proof {
                    assert(self.scopes@ =~= old(self).scopes@.update(
                        at as int,
                        self.scopes@[at as int],
                    ));
                    assert forall|i2: int| 0 <= i2 < self.scopes@.len() implies #[trigger] self
                        .node_ok(i2) by {
                        assert(old(self).node_ok(i2));
                    }
                }
            },
            None => {
                proof {
                    assert(false);
                }
            },
        }
    }

    /// Append one parameter to a function descriptor of scope `at` itself.
    pub fn func_push_param(&mut self, at: usize, identifier: &String, data: (DataType, String))
        requires
            old(self).wf(),
            at < old(self).scope_count(),
            old(self).funcs_at(at as int).contains_key(identifier@),
        ensures
            final(self).wf(),
            scopes_retained(*old(self), *final(self)),
            final(self).scope_count() == old(self).scope_count(),
            forall|s: int|
                0 <= s < old(self).scope_count() && s != at ==> old(self).scope_unchanged(
                    *final(self),
                    s,
                ),
            final(self).funcs_at(at as int) == old(self).funcs_at(at as int).insert(
                identifier@,
                (FuncModel {
                    parameter: old(self).funcs_at(at as int)[identifier@].parameter.push(
                        (data.0, data.1@),
                    ),
                    ..old(self).funcs_at(at as int)[identifier@]
                }),
            ),
            final(self).vars_at(at as int) == old(self).vars_at(at as int),
            final(self).scope_at(at as int) == old(self).scope_at(at as int),
            final(self).parent_of(at as int) == old(self).parent_of(at as int),
            final(self).inner_at(at as int) == old(self).inner_at(at as int),
    {
        let node = &mut self.scopes[at];
        proof {
            assert(old(self).node_ok(at as int));
            lemma_assoc_contains(node.funcs@, identifier@);
        }
        let found = find_key(&node.funcs, identifier);
        match found {
            Some(i) => {
                proof {
                    lemma_assoc_value(node.funcs@, i as int);
                }
                let mut attr = node.funcs[i].1.clone();
                let name = node.funcs[i].0.clone();
                attr.push_parameter(data);
                proof {
                    lemma_assoc_update(node.funcs@, i as int, name, attr);
                }
                node.funcs[i] = (name, attr);
                proof {
                    assert(self.scopes@ =~= old(self).scopes@.update(
                        at as int,
                        self.scopes@[at as int],
                    ));
                    assert forall|i2: int| 0 <= i2 < self.scopes@.len() implies #[trigger] self
                        .node_ok(i2) by {
                        assert(old(self).node_ok(i2));
                    }
                }
            },
            None => {
                proof {
                    assert(false);
                }
            },
        }
    }

    /// Record a referencing line against the variable entry named
    /// `identifier` in scope `at` (the function-side bookkeeping shares the
    /// variable table).
    pub fn func_push_line_ref(&mut self, at: usize, identifier: &String, line_ref: u32)
        requires
            old(self).wf(),
            at < old(self).scope_count(),
            old(self).vars_at(at as int).contains_key(identifier@),
        ensures
            final(self).wf(),
            scopes_retained(*old(self), *final(self)),
            final(self).scope_count() == old(self).scope_count(),
            forall|s: int|
                0 <= s < old(self).scope_count() && s != at ==> old(self).scope_unchanged(
                    *final(self),
                    s,
                ),
            final(self).vars_at(at as int) == old(self).vars_at(at as int).insert(
                identifier@,
                (VarModel {
                    line_ref: old(self).vars_at(at as int)[identifier@].line_ref.push(line_ref),
                    ..old(self).vars_at(at as int)[identifier@]
                }),
            ),
            final(self).funcs_at(at as int) == old(self).funcs_at(at as int),
            final(self).scope_at(at as int) == old(self).scope_at(at as int),
            final(self).parent_of(at as int) == old(self).parent_of(at as int),
            final(self).inner_at(at as int) == old(self).inner_at(at as int),
    {
        self.var_push_line_ref(at, identifier, line_ref);
    }

    /// [`Self::update_var`] applied at the nearest chain scope whose
    /// identity equals `scope`.
    pub fn update_var_at(
        &mut self,
        at: usize,
        scope: Scope,
        identifier: &String,
        data_type: Option<DataType>,
        size: Option<u32>,
        dimension: Option<u32>,
        line_declare: Option<u32>,
    )
        requires
            old(self).wf(),
            at < old(self).scope_count(),
            old(self).find_scope_on_chain(at as int, scope) is Some,
            old(self).vars_at(old(self).chain_scope_id(at as int, scope)).contains_key(
                identifier@,
            ),
        ensures
            final(self).wf(),
            final(self).scope_count() == old(self).scope_count(),
            forall|s: int|
                0 <= s < old(self).scope_count() && s != old(self).chain_scope_id(at as int, scope)
                    ==> old(self).scope_unchanged(*final(self), s),
            final(self).vars_at(old(self).chain_scope_id(at as int, scope)) == old(self).vars_at(
                old(self).chain_scope_id(at as int, scope),
            ).insert(
                identifier@,
                updated_var_model(
                    old(self).vars_at(old(self).chain_scope_id(at as int, scope))[identifier@],
                    data_type,
                    size,
                    dimension,
                    line_declare,
                ),
            ),
            final(self).funcs_at(old(self).chain_scope_id(at as int, scope)) == old(self).funcs_at(
                old(self).chain_scope_id(at as int, scope),
            ),
            final(self).scope_at(old(self).chain_scope_id(at as int, scope)) == old(self).scope_at(
                old(self).chain_scope_id(at as int, scope),
            ),
            final(self).parent_of(old(self).chain_scope_id(at as int, scope)) == old(
                self,
            ).parent_of(old(self).chain_scope_id(at as int, scope)),
            final(self).inner_at(old(self).chain_scope_id(at as int, scope)) == old(self).inner_at(
                old(self).chain_scope_id(at as int, scope),
            ),
    {
        let f = self.walk_to_scope(at, &scope);
        self.update_var(f, identifier, data_type, size, dimension, line_declare);
    }

    /// [`Self::var_push_line_ref`] applied at the nearest chain scope whose
    /// identity equals `scope`.
    pub fn var_push_line_ref_at(&mut self, at: usize, scope: Scope, identifier: &String, line_ref: u32)
        requires
            old(self).wf(),
            at < old(self).scope_count(),
            old(self).find_scope_on_chain(at as int, scope) is Some,
            old(self).vars_at(old(self).chain_scope_id(at as int, scope)).contains_key(
                identifier@,
            ),
        ensures
            final(self).wf(),
            final(self).scope_count() == old(self).scope_count(),
            forall|s: int|
                0 <= s < old(self).scope_count() && s != old(self).chain_scope_id(at as int, scope)
                    ==> old(self).scope_unchanged(*final(self), s),
            final(self).vars_at(old(self).chain_scope_id(at as int, scope)) == old(self).vars_at(
                old(self).chain_scope_id(at as int, scope),
            ).insert(
                identifier@,
                (VarModel {
                    line_ref: old(self).vars_at(old(self).chain_scope_id(at as int, scope))[
                        identifier@].line_ref.push(line_ref),
                    ..old(self).vars_at(old(self).chain_scope_id(at as int, scope))[identifier@]
                }),
            ),
            final(self).funcs_at(old(self).chain_scope_id(at as int, scope)) == old(self).funcs_at(
                old(self).chain_scope_id(at as int, scope),
            ),
            final(self).scope_at(old(self).chain_scope_id(at as int, scope)) == old(self).scope_at(
                old(self).chain_scope_id(at as int, scope),
            ),
            final(self).parent_of(old(self).chain_scope_id(at as int, scope)) == old(
                self,
            ).parent_of(old(self).chain_scope_id(at as int, scope)),
            final(self).inner_at(old(self).chain_scope_id(at as int, scope)) == old(self).inner_at(
                old(self).chain_scope_id(at as int, scope),
            ),
    {
        let f = self.walk_to_scope(at, &scope);
        self.var_push_line_ref(f, identifier, line_ref);
    }

    /// [`Self::update_func`] applied at the nearest chain scope whose
    /// identity equals `scope`.
    pub fn update_func_at(
        &mut self,
        at: usize,
        scope: Scope,
        identifier: &String,
        return_type: Option<DataType>,
        line_declare: Option<u32>,
    )
        requires
            old(self).wf(),
            at < old(self).scope_count(),
            old(self).find_scope_on_chain(at as int, scope) is Some,
            old(self).funcs_at(old(self).chain_scope_id(at as int, scope)).contains_key(
                identifier@,
            ),
        ensures
            final(self).wf(),
            final(self).scope_count() == old(self).scope_count(),
            forall|s: int|
                0 <= s < old(self).scope_count() && s != old(self).chain_scope_id(at as int, scope)
                    ==> old(self).scope_unchanged(*final(self), s),
            final(self).funcs_at(old(self).chain_scope_id(at as int, scope)) == old(self).funcs_at(
                old(self).chain_scope_id(at as int, scope),
            ).insert(
                identifier@,
                updated_func_model(
                    old(self).funcs_at(old(self).chain_scope_id(at as int, scope))[identifier@],
                    return_type,
                    line_declare,
                ),
            ),
            final(self).vars_at(old(self).chain_scope_id(at as int, scope)) == old(self).vars_at(
                old(self).chain_scope_id(at as int, scope),
            ),
            final(self).scope_at(old(self).chain_scope_id(at as int, scope)) == old(self).scope_at(
                old(self).chain_scope_id(at as int, scope),
            ),
            final(self).parent_of(old(self).chain_scope_id(at as int, scope)) == old(
                self,
            ).parent_of(old(self).chain_scope_id(at as int, scope)),
            final(self).inner_at(old(self).chain_scope_id(at as int, scope)) == old(self).inner_at(
                old(self).chain_scope_id(at as int, scope),
            ),
    {
        let f = self.walk_to_scope(at, &scope);
        self.update_func(f, identifier, return_type, line_declare);
    }

    /// [`Self::func_push_line_ref`] applied at the nearest chain scope
    /// whose identity equals `scope`.
    pub fn func_push_line_ref_at(&mut self, at: usize, scope: Scope, identifier: &String, line_ref: u32)
        requires
            old(self).wf(),
            at < old(self).scope_count(),
            old(self).find_scope_on_chain(at as int, scope) is Some,
            old(self).vars_at(old(self).chain_scope_id(at as int, scope)).contains_key(
                identifier@,
            ),
        ensures
            final(self).wf(),
            final(self).scope_count() == old(self).scope_count(),
            forall|s: int|
                0 <= s < old(self).scope_count() && s != old(self).chain_scope_id(at as int, scope)
                    ==> old(self).scope_unchanged(*final(self), s),
            final(self).vars_at(old(self).chain_scope_id(at as int, scope)) == old(self).vars_at(
                old(self).chain_scope_id(at as int, scope),
            ).insert(
                identifier@,
                (VarModel {
                    line_ref: old(self).vars_at(old(self).chain_scope_id(at as int, scope))[
                        identifier@].line_ref.push(line_ref),
                    ..old(self).vars_at(old(self).chain_scope_id(at as int, scope))[identifier@]
                }),
            ),
            final(self).funcs_at(old(self).chain_scope_id(at as int, scope)) == old(self).funcs_at(
                old(self).chain_scope_id(at as int, scope),
            ),
    {
        let f = self.walk_to_scope(at, &scope);
        self.func_push_line_ref(f, identifier, line_ref);
    }

    /// [`Self::func_push_param`] applied at the nearest chain scope whose
    /// identity equals `scope`.
    pub fn func_push_param_at(
        &mut self,
        at: usize,
        scope: Scope,
        identifier: &String,
        data: (DataType, String),
    )
        requires
            old(self).wf(),
            at < old(self).scope_count(),
            old(self).find_scope_on_chain(at as int, scope) is Some,
            old(self).funcs_at(old(self).chain_scope_id(at as int, scope)).contains_key(
                identifier@,
            ),
        ensures
            final(self).wf(),
            final(self).scope_count() == old(self).scope_count(),
            forall|s: int|
                0 <= s < old(self).scope_count() && s != old(self).chain_scope_id(at as int, scope)
                    ==> old(self).scope_unchanged(*final(self), s),
            final(self).funcs_at(old(self).chain_scope_id(at as int, scope)) == old(self).funcs_at(
                old(self).chain_scope_id(at as int, scope),
            ).insert(
                identifier@,
                (FuncModel {
                    parameter: old(self).funcs_at(old(self).chain_scope_id(at as int, scope))[
                        identifier@].parameter.push((data.0, data.1@)),
                    ..old(self).funcs_at(old(self).chain_scope_id(at as int, scope))[identifier@]
                }),
            ),
            final(self).vars_at(old(self).chain_scope_id(at as int, scope)) == old(self).vars_at(
                old(self).chain_scope_id(at as int, scope),
            ),
    {
        let f = self.walk_to_scope(at, &scope);
        self.func_push_param(f, identifier, data);
    }

    /// Descriptor of the function whose body scope `at` lies in, per
    /// [`Self::find_func_info`].
    pub fn get_current_func_info(&self, at: usize) -> (r: Option<FuncAttribute>)
        requires
            self.wf(),
            at < self.scope_count(),
        ensures
            r is Some <==> self.find_func_info(at as int) is Some,
            r matches Some(f) ==> self.find_func_info(at as int) == Some(f@),
    {
        let mut cur = at;
        loop
            invariant
                self.wf(),
                cur < self.scope_count(),
                self.find_func_info(at as int) == self.find_func_info(cur as int),
            decreases cur,
        {
            let node = &self.scopes[cur];
            proof {
                assert(self.node_ok(cur as int));
            }
            match &node.scope {
                Scope::Function(name) => {
                    match node.parent {
                        Some(p) => {
                            let pnode = &self.scopes[p];
                            proof {
                                assert(self.node_ok(p as int));
                                lemma_assoc_contains(pnode.funcs@, name@);
                            }
                            let found = find_key(&pnode.funcs, name);
                            match found {
                                Some(i) => {
                                    proof {
                                        lemma_assoc_value(pnode.funcs@, i as int);
                                    }
                                    return Some(pnode.funcs[i].1.clone());
                                },
                                None => {},
                            }
                            if matches!(pnode.scope, Scope::Global) {
                                return None;
                            }
                            match pnode.parent {
                                Some(gp) => {
                                    cur = gp;
                                },
                                None => {
                                    return None;
                                },
                            }
                        },
                        None => {
                            return None;
                        },
                    }
                },
                Scope::Global => {
                    return None;
                },
                Scope::Block(_) => {
                    match node.parent {
                        Some(p) => {
                            cur = p;
                        },
                        None => {
                            return None;
                        },
                    }
                },
            }
        }
    }
}

/// The attribute [`SymbolTable::update_var`] leaves behind: each `Some`
/// argument overwrites the stored field.
pub open spec fn updated_var_model(
    m: VarModel,
    data_type: Option<DataType>,
    size: Option<u32>,
    dimension: Option<u32>,
    line_declare: Option<u32>,
) -> VarModel {
    VarModel {
        data_type: if data_type is Some {
            data_type
        } else {
            m.data_type
        },
        size: if size is Some {
            size
        } else {
            m.size
        },
        dimension: if dimension is Some {
            dimension
        } else {
            m.dimension
        },
        line_declare: if line_declare is Some {
            line_declare
        } else {
            m.line_declare
        },
        ..m
    }
}

impl SymbolTable {
    /// Whether scope `a` lies on the parent chain of scope `s`, `s` itself
    /// included.
    pub open spec fn on_chain(self, s: int, a: int) -> bool
        decreases s,
    {
        if s == a {
            true
        } else {
            match self.parent_of(s) {
                Some(p) => if 0 <= p < s {
                    self.on_chain(p as int, a)
                } else {
                    false
                },
                None => false,
            }
        }
    }
}

/// An identifier lookup resolves only along the parent chain: whatever
/// scope it finds is an ancestor (or the starting scope itself), carries the
/// identifier, and has an index no larger than the starting scope's.
pub proof fn lemma_lookup_resolves_on_chain(t: SymbolTable, s: int, n: Seq<char>)
    requires
        t.wf(),
        0 <= s < t.scope_count(),
    ensures
        t.find_var_scope(s, n) matches Some(f) ==> t.on_chain(s, f) && 0 <= f <= s
            && t.vars_at(f).contains_key(n),
    decreases s,
{
    if t.vars_at(s).contains_key(n) {
    } else if t.scope_at(s) is Global {
    } else {
        assert(t.node_ok(s));
        match t.parent_of(s) {
            Some(p) => {
                if 0 <= p < s {
                    lemma_lookup_resolves_on_chain(t, p as int, n);
                }
            },
            None => {},
        }
    }
}

/// A variable declared inside a block scope is invisible outside it: a
/// lookup starting at an earlier-created scope can never resolve to a
/// later-created one, and every scope's children are created after it.
pub proof fn lemma_block_scope_invisible(t: SymbolTable, s: int, b: int, n: Seq<char>)
    requires
        t.wf(),
        0 <= s < t.scope_count(),
        s < b,
    ensures
        t.find_var_scope(s, n) != Some(b),
{
    lemma_lookup_resolves_on_chain(t, s, n);
}

/// An enclosing scope's variables are visible inside a nested scope: where
/// the nested scope itself does not bind the identifier (and is not the
/// global scope), the lookup is exactly the lookup from its parent.
pub proof fn lemma_enclosing_visible(t: SymbolTable, s: int, n: Seq<char>)
    requires
        t.wf(),
        0 <= s < t.scope_count(),
        !t.vars_at(s).contains_key(n),
        !(t.scope_at(s) is Global),
        t.parent_of(s) is Some,
    ensures
        forall|p: usize| t.parent_of(s) == Some(p) ==> t.find_var_scope(s, n)
            == t.find_var_scope(p as int, n),
{
    assert(t.node_ok(s));
}

/// A same-named declaration in the nested scope shadows the enclosing one:
/// the lookup resolves to the nested scope itself.
pub proof fn lemma_shadowing(t: SymbolTable, s: int, n: Seq<char>)
    requires
        0 <= s < t.scope_count(),
        t.vars_at(s).contains_key(n),
    ensures
        t.find_var_scope(s, n) == Some(s),
{
}

/// Scopes are retained: `b` still holds every scope of `a`, with its
/// identity and parent link intact. New scopes may have been appended.
pub open spec fn scopes_retained(a: SymbolTable, b: SymbolTable) -> bool {
    &&& a.scope_count() <= b.scope_count()
    &&& forall|s: int|
        0 <= s < a.scope_count() ==> #[trigger] b.scope_at(s) == a.scope_at(s) && b.parent_of(s)
            == a.parent_of(s)
}

/// An unchanged tree retains its scopes.
pub broadcast proof fn lemma_retained_refl(a: SymbolTable)
    ensures
        #[trigger] scopes_retained(a, a),
{
}

/// Retention composes.
pub broadcast proof fn lemma_retained_trans(a: SymbolTable, b: SymbolTable, c: SymbolTable)
    requires
        scopes_retained(a, b),
        scopes_retained(b, c),
    ensures
        #![trigger scopes_retained(a, b), scopes_retained(b, c)]
        scopes_retained(a, c),
{
    assert forall|s: int|
        0 <= s < a.scope_count() implies #[trigger] c.scope_at(s) == a.scope_at(s) && c.parent_of(
        s,
    ) == a.parent_of(s) by {
        assert(b.scope_at(s) == a.scope_at(s) && b.parent_of(s) == a.parent_of(s));
    }
}

/// An operation that touches one scope's tables (and may append new
/// scopes) retains every scope.
pub proof fn lemma_retained_from_scope_op(a: SymbolTable, b: SymbolTable, at: int)
    requires
        a.scope_count() <= b.scope_count(),
        0 <= at < a.scope_count(),
        forall|s: int|
            0 <= s < a.scope_count() && s != at ==> #[trigger] a.scope_unchanged(b, s),
        b.scope_at(at) == a.scope_at(at),
        b.parent_of(at) == a.parent_of(at),
    ensures
        scopes_retained(a, b),
{
    assert forall|s: int|
        0 <= s < a.scope_count() implies #[trigger] b.scope_at(s) == a.scope_at(s) && b.parent_of(
        s,
    ) == a.parent_of(s) by {
        if s != at {
            assert(a.scope_unchanged(b, s));
        }
    }
}

/// Where an identifier lookup resolves depends only on the scopes'
/// identities, parents, and which names they bind — not on the recorded
/// attributes.
pub proof fn lemma_find_var_scope_congruence(a: SymbolTable, b: SymbolTable, sid: int, n: Seq<char>)
    requires
        b.scope_count() == a.scope_count(),
        0 <= sid < a.scope_count(),
        forall|s: int|
            0 <= s < a.scope_count() ==> #[trigger] b.scope_at(s) == a.scope_at(s)
                && b.parent_of(s) == a.parent_of(s) && b.vars_at(s).dom() == a.vars_at(s).dom(),
    ensures
        b.find_var_scope(sid, n) == a.find_var_scope(sid, n),
    decreases sid,
{
    assert(b.vars_at(sid).contains_key(n) == a.vars_at(sid).contains_key(n));
    if a.vars_at(sid).contains_key(n) {
    } else if a.scope_at(sid) is Global {
    } else {
        match a.parent_of(sid) {
            Some(p) => {
                if 0 <= p < sid {
                    lemma_find_var_scope_congruence(a, b, p as int, n);
                }
            },
            None => {},
        }
    }
}

/// Every function descriptor recorded in a well-formed tree points its
/// dedicated scope index inside the tree.
pub proof fn lemma_func_table_in_range(t: SymbolTable, sid: int, n: Seq<char>)
    requires
        t.wf(),
        0 <= sid < t.scope_count(),
        t.funcs_at(sid).contains_key(n),
    ensures
        0 <= t.funcs_at(sid)[n].func_table < t.scope_count(),
{
    assert(t.node_ok(sid));
    lemma_assoc_contains(t.scopes@[sid].funcs@, n);
    let j = choose|j: int|
        0 <= j < t.scopes@[sid].funcs@.len() && t.scopes@[sid].funcs@[j].0@ == n;
    lemma_assoc_value(t.scopes@[sid].funcs@, j);
}

/// The descriptor [`SymbolTable::update_func`] leaves behind: each `Some`
/// argument overwrites the stored field.
pub open spec fn updated_func_model(
    m: FuncModel,
    return_type: Option<DataType>,
    line_declare: Option<u32>,
) -> FuncModel {
    FuncModel {
        return_type: match return_type {
            Some(dt) => dt,
            None => m.return_type,
        },
        line_declare: if line_declare is Some {
            line_declare
        } else {
            m.line_declare
        },
        ..m
    }
}

} // verus!
