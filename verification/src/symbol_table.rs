use vstd::prelude::*;
use crate::diagnostics::{Diagnostic, DiagnosticKind};
use crate::syntax_node::{TypeLiteral, TypeModel, str_eq_check};
use crate::syntax_token::SyntaxToken;

verus! {

/// Mathematical model of one scope: its declarations in order, the index of
/// the enclosing scope, and the indices of the scopes nested in it.
pub struct ScopeModel {
    pub symbols: Seq<(Seq<char>, TypeModel)>,
    pub parent: Option<int>,
    pub children: Seq<int>,
}

/// Mathematical model of a scope tree: the scopes in creation order.
pub struct SymbolTableModel {
    pub scopes: Seq<ScopeModel>,
}

/// The type declared under `name` in a declaration list; the first entry
/// wins (entries are unique by construction).
pub open spec fn lookup_local(symbols: Seq<(Seq<char>, TypeModel)>, name: Seq<char>) -> Option<
    TypeModel,
>
    decreases symbols.len(),
{
    if symbols.len() == 0 {
        None
    } else if symbols[0].0 == name {
        Some(symbols[0].1)
    } else {
        lookup_local(symbols.drop_first(), name)
    }
}

/// Resolution of `name` from scope `id` outward: the local declarations
/// first, then the parent chain; `None` once the chain is exhausted.
/// Parents have strictly smaller indices, so resolution always terminates.
pub open spec fn resolve_spec(scopes: Seq<ScopeModel>, id: int, name: Seq<char>) -> Option<
    TypeModel,
>
    decreases id,
{
    if id < 0 || id >= scopes.len() {
        None
    } else {
        match lookup_local(scopes[id].symbols, name) {
            Some(t) => Some(t),
            None => match scopes[id].parent {
                Some(p) => if 0 <= p < id {
                    resolve_spec(scopes, p, name)
                } else {
                    None
                },
                None => None,
            },
        }
    }
}

/// Appending a declaration leaves earlier declarations in force: the new
/// entry is found only where the name was free before.
pub proof fn lemma_lookup_push(
    symbols: Seq<(Seq<char>, TypeModel)>,
    name: Seq<char>,
    entry: (Seq<char>, TypeModel),
)
    ensures
        lookup_local(symbols.push(entry), name) == match lookup_local(symbols, name) {
            Some(t) => Some(t),
            None => if entry.0 == name {
                Some(entry.1)
            } else {
                None
            },
        },
    decreases symbols.len(),
{
    if symbols.len() == 0 {
        assert(symbols.push(entry).drop_first() =~= Seq::<(Seq<char>, TypeModel)>::empty());
    } else {
        assert(symbols.push(entry).drop_first() =~= symbols.drop_first().push(entry));
        lemma_lookup_push(symbols.drop_first(), name, entry);
    }
}

/// The models of a declaration list.
pub open spec fn symbols_view(v: Seq<(String, TypeLiteral)>) -> Seq<(Seq<char>, TypeModel)> {
    v.map_values(|p: (String, TypeLiteral)| (p.0@, p.1@))
}

/// Scope indices as mathematical integers.
pub open spec fn indices_view(v: Seq<usize>) -> Seq<int> {
    v.map_values(|c: usize| c as int)
}

/// One scope of the tree.
#[derive(Debug)]
struct Scope {
    symbols: Vec<(String, TypeLiteral)>,
    parent: Option<usize>,
    children: Vec<usize>,
}

impl Scope {
    spec fn model(&self) -> ScopeModel {
        ScopeModel {
            symbols: symbols_view(self.symbols@),
            parent: match self.parent {
                Some(p) => Some(p as int),
                None => None,
            },
            children: indices_view(self.children@),
        }
    }
}

/// A scope tree: an arena of scope records addressed by stable index, with
/// the root at index zero. A scope is created by the analysis step that
/// opens the corresponding block, linked into its parent's child list, and
/// read again by the code generator.
#[derive(Debug)]
pub struct SymbolTable {
    scopes: Vec<Scope>,
}

impl View for SymbolTable {
    type V = SymbolTableModel;

    closed spec fn view(&self) -> SymbolTableModel {
        SymbolTableModel { scopes: self.scopes@.map_values(|s: Scope| s.model()) }
    }
}

impl SymbolTable {
    /// Every parent link points at an earlier scope and every child link at
    /// a later one, so the scopes form a forest rooted at index zero.
    pub open spec fn wf(&self) -> bool {
        &&& self@.scopes.len() >= 1
        &&& forall|i: int|
            0 <= i < self@.scopes.len() ==> match (#[trigger] self@.scopes[i]).parent {
                Some(p) => 0 <= p < i,
                None => true,
            }
        &&& forall|i: int, j: int|
            0 <= i < self@.scopes.len() && 0 <= j < self@.scopes[i].children.len() ==> i < (
            #[trigger] self@.scopes[i].children[j]) < self@.scopes.len()
    }

    /// A fresh tree holding only an empty root scope.
    pub fn new() -> (r: SymbolTable)
        ensures
            r.wf(),
            r@.scopes.len() == 1,
            r@.scopes[0].symbols == Seq::<(Seq<char>, TypeModel)>::empty(),
            r@.scopes[0].parent is None,
            r@.scopes[0].children == Seq::<int>::empty(),
    {
        let mut scopes: Vec<Scope> = Vec::new();
        scopes.push(Scope { symbols: Vec::new(), parent: None, children: Vec::new() });
        let r = SymbolTable { scopes };
        proof {
            assert(r@.scopes[0].symbols =~= Seq::<(Seq<char>, TypeModel)>::empty());
            assert(r@.scopes[0].children =~= Seq::<int>::empty());
        }
        r
    }

    /// Opens a new empty scope nested in `parent` and records it in the
    /// parent's child list; its index is returned.
    pub fn add_child(&mut self, parent: usize) -> (c: usize)
        requires
            old(self).wf(),
            parent < old(self)@.scopes.len(),
        ensures
            final(self).wf(),
            c as int == old(self)@.scopes.len(),
            final(self)@.scopes.len() == old(self)@.scopes.len() + 1,
            final(self)@.scopes[c as int] == (ScopeModel {
                symbols: Seq::<(Seq<char>, TypeModel)>::empty(),
                parent: Some(parent as int),
                children: Seq::<int>::empty(),
            }),
            final(self)@.scopes[parent as int] == (ScopeModel {
                children: old(self)@.scopes[parent as int].children.push(c as int),
                ..old(self)@.scopes[parent as int]
            }),
            forall|i: int|
                0 <= i < old(self)@.scopes.len() && i != parent ==> final(self)@.scopes[i] == old(
                    self,
                )@.scopes[i],
    {
        let c = self.scopes.len();
        self.scopes[parent].children.push(c);
        self.scopes.push(Scope { symbols: Vec::new(), parent: Some(parent), children: Vec::new() });
        proof {
            assert(self@.scopes[c as int].symbols =~= Seq::<(Seq<char>, TypeModel)>::empty());
            assert(self@.scopes[c as int].children =~= Seq::<int>::empty());
            assert(self@.scopes[parent as int].children =~= old(self)@.scopes[
                parent as int
            ].children.push(c as int));
            assert(self@.scopes[parent as int] == (ScopeModel {
                children: old(self)@.scopes[parent as int].children.push(c as int),
                ..old(self)@.scopes[parent as int]
            }));
            assert forall|i: int|
                0 <= i < old(self)@.scopes.len() && i != parent implies self@.scopes[i] == old(
                self,
            )@.scopes[i] by {
                assert(self.scopes@[i] == old(self).scopes@[i]);
            }
            assert forall|i: int|
                0 <= i < self@.scopes.len() implies match (#[trigger] self@.scopes[i]).parent {
                Some(p) => 0 <= p < i,
                None => true,
            } by {
                if i < old(self)@.scopes.len() && i != parent {
                    assert(self@.scopes[i] == old(self)@.scopes[i]);
                }
            }
            assert forall|i: int, j: int|
                0 <= i < self@.scopes.len() && 0 <= j < self@.scopes[i].children.len() implies i < (
            #[trigger] self@.scopes[i].children[j]) < self@.scopes.len() by {
                if i < old(self)@.scopes.len() && i != parent {
                    assert(self@.scopes[i] == old(self)@.scopes[i]);
                    assert(old(self)@.scopes[i].children[j] > i);
                } else if i == parent {
                    if j < old(self)@.scopes[parent as int].children.len() {
                        assert(old(self)@.scopes[parent as int].children[j] > i);
                    }
                }
            }
        }
        c
    }

    /// The declarations of scope `id`, in declaration order.
    pub fn get_all(&self, id: usize) -> (r: Vec<(String, TypeLiteral)>)
        requires
            self.wf(),
            id < self@.scopes.len(),
        ensures
            symbols_view(r@) == self@.scopes[id as int].symbols,
    {
        let src = &self.scopes[id].symbols;
        let mut r: Vec<(String, TypeLiteral)> = Vec::new();
        let n = src.len();
        let mut i: usize = 0;
        while i < n
            invariant
                n == src@.len(),
                0 <= i <= n,
                symbols_view(src@) == self@.scopes[id as int].symbols,
                symbols_view(r@) == self@.scopes[id as int].symbols.take(i as int),
            decreases n - i,
        {
            proof {
                assert(symbols_view(r@).len() == i as int);
                assert(r@.len() == i as int);
            }
            let name = src[i].0.clone();
            let ty = src[i].1.clone();
            r.push((name, ty));
            proof {
                assert(r@.len() == i + 1);
                assert(symbols_view(r@)[i as int] == symbols_view(src@)[i as int]);
                assert(symbols_view(r@) =~= self@.scopes[id as int].symbols.take(i + 1));
            }
            i = i + 1;
        }
        proof {
            assert(self@.scopes[id as int].symbols.take(n as int) =~= self@.scopes[
                id as int
            ].symbols);
        }
        r
    }

    /// The child scopes of scope `id`, in creation order.
    pub fn children_of(&self, id: usize) -> (r: &Vec<usize>)
        requires
            self.wf(),
            id < self@.scopes.len(),
        ensures
            indices_view(r@) == self@.scopes[id as int].children,
    {
        &self.scopes[id].children
    }

    /// The number of declarations of scope `id`.
    pub fn symbols_len(&self, id: usize) -> (r: usize)
        requires
            self.wf(),
            id < self@.scopes.len(),
        ensures
            r as int == self@.scopes[id as int].symbols.len(),
    {
        proof {
            assert(self@.scopes[id as int].symbols.len() == self.scopes@[id as int].symbols@.len());
        }
        self.scopes[id].symbols.len()
    }

    /// The number of scopes in the tree.
    pub fn len(&self) -> (r: usize)
        ensures
            r as int == self@.scopes.len(),
    {
        self.scopes.len()
    }

    /// The index of the declaration of `name` in scope `id`, if any.
    fn find_local(&self, id: usize, name: &str) -> (r: Option<usize>)
        requires
            self.wf(),
            id < self@.scopes.len(),
        ensures
            match r {
                Some(i) => i < self@.scopes[id as int].symbols.len() && self@.scopes[
                    id as int
                ].symbols[i as int].0 == name@ && lookup_local(
                    self@.scopes[id as int].symbols,
                    name@,
                ) == Some(self@.scopes[id as int].symbols[i as int].1),
                None => lookup_local(self@.scopes[id as int].symbols, name@) is None,
            },
    {
        let ghost symbols = self@.scopes[id as int].symbols;
        let src = &self.scopes[id].symbols;
        let n = src.len();
        let mut i: usize = 0;
        proof {
            assert(symbols.skip(0) =~= symbols);
        }
        while i < n
            invariant
                self.wf(),
                id < self@.scopes.len(),
                symbols == self@.scopes[id as int].symbols,
                n == src@.len(),
                symbols_view(src@) == symbols,
                0 <= i <= n,
                lookup_local(symbols, name@) == lookup_local(symbols.skip(i as int), name@),
            decreases n - i,
        {
            if str_eq_check(src[i].0.as_str(), name) {
                proof {
                    assert(symbols.skip(i as int)[0] == symbols[i as int]);
                }
                return Some(i);
            }
            proof {
                assert(symbols.skip(i as int).drop_first() =~= symbols.skip(i + 1));
                assert(symbols.skip(i as int)[0] == symbols[i as int]);
            }
            i = i + 1;
        }
        proof {
            assert(symbols.skip(n as int) =~= Seq::<(Seq<char>, TypeModel)>::empty());
        }
        None
    }

    /// Declares `name` with type `ty` in scope `id`. Fails where the same
    /// scope already declares the name, reporting the original
    /// declaration's position; shadowing a declaration of an enclosing
    /// scope is permitted.
    pub fn add_symbol(&mut self, id: usize, name: String, ty: TypeLiteral) -> (r: Result<
        (),
        Diagnostic,
    >)
        requires
            old(self).wf(),
            id < old(self)@.scopes.len(),
        ensures
            final(self).wf(),
            final(self)@.scopes.len() == old(self)@.scopes.len(),
            r is Ok <==> lookup_local(old(self)@.scopes[id as int].symbols, name@) is None,
            r is Ok ==> final(self)@.scopes == old(self)@.scopes.update(
                id as int,
                ScopeModel {
                    symbols: old(self)@.scopes[id as int].symbols.push((name@, ty@)),
                    ..old(self)@.scopes[id as int]
                },
            ),
            r is Err ==> final(self)@ == old(self)@ && r->Err_0@.kind
                == DiagnosticKind::ScopeError,
    {
        match self.find_local(id, name.as_str()) {
            Some(i) => {
                let prior = &self.scopes[id].symbols[i].1;
                let (line, col) = prior.line_col();
                let mut m = "variable '".to_owned();
                m.append(name.as_str());
                m.append("' already exists in this scope");
                Err(Diagnostic::new(DiagnosticKind::ScopeError, m, line, col))
            },
            None => {
                self.scopes[id].symbols.push((name, ty));
                proof {
                    assert(symbols_view(self.scopes@[id as int].symbols@) =~= old(self)@.scopes[
                        id as int
                    ].symbols.push((name@, ty@)));
                    assert(self@.scopes =~= old(self)@.scopes.update(
                        id as int,
                        ScopeModel {
                            symbols: old(self)@.scopes[id as int].symbols.push((name@, ty@)),
                            ..old(self)@.scopes[id as int]
                        },
                    ));
                }
                Ok(())
            },
        }
    }

    /// Resolves `name` from scope `id` outward through the parent chain;
    /// fails where the chain is exhausted, reporting the use site's
    /// position.
    pub fn get_symbol(&self, id: usize, name: &SyntaxToken) -> (r: Result<TypeLiteral, Diagnostic>)
        requires
            self.wf(),
            id < self@.scopes.len(),
        ensures
            match resolve_spec(self@.scopes, id as int, name@.text) {
                Some(t) => r is Ok && r->Ok_0@ == t,
                None => r is Err && r->Err_0@.kind == DiagnosticKind::ScopeError
                    && r->Err_0@.line == name@.span.line && r->Err_0@.col == name@.span.col,
            },
    {
        let mut cur: usize = id;
        loop
            invariant
                self.wf(),
                cur < self@.scopes.len(),
                resolve_spec(self@.scopes, id as int, name@.text) == resolve_spec(
                    self@.scopes,
                    cur as int,
                    name@.text,
                ),
            ensures
                resolve_spec(self@.scopes, id as int, name@.text) is None,
            decreases cur,
        {
            match self.find_local(cur, name.text.as_str()) {
                Some(i) => {
                    let t = self.scopes[cur].symbols[i].1.clone();
                    return Ok(t);
                },
                None => {
                    match self.scopes[cur].parent {
                        Some(p) => {
                            cur = p;
                        },
                        None => {
                            break ;
                        },
                    }
                },
            }
        }
        let mut m = "variable '".to_owned();
        m.append(name.text.as_str());
        m.append("' does not exist");
        Err(Diagnostic::new(DiagnosticKind::ScopeError, m, name.position.line_no, name.position.col_no))
    }
}

/// Law: declaring a name in a scope where it is free and resolving it
/// immediately in the same scope yields exactly the declared type, whatever
/// the scope tree around it holds; and resolving any name is a total
/// function that yields `None` (never an error of any other shape) where no
/// enclosing scope declares it.
pub proof fn lemma_declare_then_resolve(
    scopes: Seq<ScopeModel>,
    id: int,
    name: Seq<char>,
    t: TypeModel,
)
    requires
        0 <= id < scopes.len(),
        lookup_local(scopes[id].symbols, name) is None,
    ensures
        resolve_spec(
            scopes.update(
                id,
                ScopeModel { symbols: scopes[id].symbols.push((name, t)), ..scopes[id] },
            ),
            id,
            name,
        ) == Some(t),
{
    let updated = scopes.update(
        id,
        ScopeModel { symbols: scopes[id].symbols.push((name, t)), ..scopes[id] },
    );
    lemma_lookup_push(scopes[id].symbols, name, (name, t));
    assert(lookup_local(updated[id].symbols, name) == Some(t));
}

} // verus!
