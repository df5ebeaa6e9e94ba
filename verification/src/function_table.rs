use vstd::prelude::*;
use crate::diagnostics::{Diagnostic, DiagnosticKind};
use crate::syntax_node::{
    FunctionNode, TypeLiteral, TypeModel, spec_type_of_name, str_eq_check,
};

verus! {

/// The models of a list of type annotations.
pub open spec fn types_view(v: Seq<TypeLiteral>) -> Seq<TypeModel> {
    v.map_values(|t: TypeLiteral| t@)
}

/// The parameter types a parameter list declares.
pub open spec fn params_sig(ps: Seq<crate::syntax_node::ParamModel>) -> Seq<TypeModel> {
    ps.map_values(|p: crate::syntax_node::ParamModel| spec_type_of_name(p.ty))
}

/// Mathematical model of a registered signature.
pub struct FunctionInfoModel {
    pub name: Seq<char>,
    pub return_type: Option<TypeModel>,
    pub parameters: Seq<TypeModel>,
}

/// A registered function signature: name, optional return type and the
/// ordered parameter types.
#[derive(Debug)]
pub struct FunctionTableInfo {
    pub name: String,
    pub return_type: Option<TypeLiteral>,
    pub parameters: Vec<TypeLiteral>,
}

impl View for FunctionTableInfo {
    type V = FunctionInfoModel;

    open spec fn view(&self) -> FunctionInfoModel {
        FunctionInfoModel {
            name: self.name@,
            return_type: match self.return_type {
                Some(t) => Some(t@),
                None => None,
            },
            parameters: types_view(self.parameters@),
        }
    }
}

impl Clone for FunctionTableInfo {
    fn clone(&self) -> (r: Self)
        ensures
            r@ == self@,
    {
        let mut parameters: Vec<TypeLiteral> = Vec::new();
        let n = self.parameters.len();
        let mut i: usize = 0;
        while i < n
            invariant
                n == self.parameters@.len(),
                0 <= i <= n,
                types_view(parameters@) == types_view(self.parameters@).take(i as int),
            decreases n - i,
        {
            proof {
                assert(types_view(parameters@).len() == i as int);
                assert(parameters@.len() == i as int);
            }
            let elem = self.parameters[i].clone();
            proof {
                assert(elem@ == self.parameters@[i as int]@);
            }
            parameters.push(elem);
            proof {
                assert(parameters@.len() == i + 1);
                assert(types_view(parameters@)[i as int] == self.parameters@[i as int]@);
                assert(types_view(parameters@) =~= types_view(self.parameters@).take(i + 1));
            }
            i = i + 1;
        }
        proof {
            assert(types_view(self.parameters@).take(n as int) =~= types_view(self.parameters@));
        }
        let return_type = match &self.return_type {
            Some(t) => Some(t.clone()),
            None => None,
        };
        FunctionTableInfo { name: self.name.clone(), return_type, parameters }
    }
}

/// The model of the signature recorded for a function definition: the
/// parameter types are the types its parameter annotations denote.
pub open spec fn info_model_of(f: crate::syntax_node::FunctionModel) -> FunctionInfoModel {
    FunctionInfoModel {
        name: f.name.text,
        return_type: f.return_type,
        parameters: params_sig(f.parameters),
    }
}

impl FunctionTableInfo {
    pub fn new(name: String, return_type: Option<TypeLiteral>, parameters: Vec<TypeLiteral>) -> (r:
        FunctionTableInfo)
        ensures
            r.name == name,
            r.return_type == return_type,
            r.parameters == parameters,
    {
        FunctionTableInfo { name, return_type, parameters }
    }

    /// The signature of a function definition.
    pub fn from(func: &FunctionNode) -> (r: FunctionTableInfo)
        ensures
            r@ == info_model_of(func@),
    {
        let name = func.name.text.clone();
        let return_type = match &func.return_type {
            Some(t) => Some(t.clone()),
            None => None,
        };
        let mut parameters: Vec<TypeLiteral> = Vec::new();
        let n = func.parameters.len();
        let mut i: usize = 0;
        while i < n
            invariant
                n == func.parameters@.len(),
                func@.parameters.len() == n,
                0 <= i <= n,
                types_view(parameters@) == params_sig(func@.parameters).take(i as int),
            decreases n - i,
        {
            proof {
                assert(types_view(parameters@).len() == i as int);
                assert(parameters@.len() == i as int);
            }
            let ty = TypeLiteral::of_token(func.parameters[i].type_.clone());
            parameters.push(ty);
            proof {
                assert(parameters@.len() == i + 1);
                assert(func@.parameters[i as int] == func.parameters@[i as int]@);
                assert(types_view(parameters@)[i as int] == spec_type_of_name(
                    func@.parameters[i as int].ty,
                ));
                assert(types_view(parameters@) =~= params_sig(func@.parameters).take(i + 1));
            }
            i = i + 1;
        }
        proof {
            assert(params_sig(func@.parameters).take(n as int) =~= params_sig(func@.parameters));
        }
        FunctionTableInfo { name, return_type, parameters }
    }
}

/// The signature registered under `name`, if any; the first entry wins
/// (registration refuses duplicates, so entries are unique).
pub open spec fn table_lookup(
    entries: Seq<(Seq<char>, FunctionInfoModel)>,
    name: Seq<char>,
) -> Option<FunctionInfoModel>
    decreases entries.len(),
{
    if entries.len() == 0 {
        None
    } else if entries[0].0 == name {
        Some(entries[0].1)
    } else {
        table_lookup(entries.drop_first(), name)
    }
}

/// The global table of function signatures, populated once per function
/// after that function's body passes analysis and immutable afterwards.
#[derive(Debug)]
pub struct FunctionTable {
    functions: Vec<(String, FunctionTableInfo)>,
}

impl View for FunctionTable {
    type V = Seq<(Seq<char>, FunctionInfoModel)>;

    closed spec fn view(&self) -> Seq<(Seq<char>, FunctionInfoModel)> {
        self.functions@.map_values(|p: (String, FunctionTableInfo)| (p.0@, p.1@))
    }
}

impl FunctionTable {
    pub fn new() -> (r: FunctionTable)
        ensures
            r@ == Seq::<(Seq<char>, FunctionInfoModel)>::empty(),
    {
        let r = FunctionTable { functions: Vec::new() };
        proof {
            assert(r@ =~= Seq::<(Seq<char>, FunctionInfoModel)>::empty());
        }
        r
    }

    /// The index of the entry registered under `name`, if any.
    fn find(&self, name: &str) -> (r: Option<usize>)
        ensures
            match r {
                Some(i) => i < self@.len() && self@[i as int].0 == name@ && table_lookup(
                    self@,
                    name@,
                ) == Some(self@[i as int].1),
                None => table_lookup(self@, name@) is None,
            },
    {
        let ghost entries = self@;
        let n = self.functions.len();
        let mut i: usize = 0;
        proof {
            assert(entries.skip(0) =~= entries);
        }
        while i < n
            invariant
                entries == self@,
                n == entries.len(),
                0 <= i <= n,
                table_lookup(entries, name@) == table_lookup(entries.skip(i as int), name@),
            decreases n - i,
        {
            if str_eq_check(self.functions[i].0.as_str(), name) {
                proof {
                    assert(entries.skip(i as int)[0] == entries[i as int]);
                }
                return Some(i);
            }
            proof {
                assert(entries.skip(i as int)[0] == entries[i as int]);
                assert(entries.skip(i as int).drop_first() =~= entries.skip(i + 1));
            }
            i = i + 1;
        }
        proof {
            assert(entries.skip(n as int) =~= Seq::<(Seq<char>, FunctionInfoModel)>::empty());
        }
        None
    }

    /// Registers a signature; a name can be registered only once.
    pub fn add_function(&mut self, name: String, function_info: FunctionTableInfo) -> (r: Result<
        (),
        Diagnostic,
    >)
        ensures
            r is Ok <==> table_lookup(old(self)@, name@) is None,
            r is Ok ==> final(self)@ == old(self)@.push((name@, function_info@)),
            r is Err ==> final(self)@ == old(self)@ && r->Err_0@.kind
                == DiagnosticKind::ScopeError,
    {
        match self.find(name.as_str()) {
            Some(_) => {
                let mut m = "function '".to_owned();
                m.append(name.as_str());
                m.append("' already exists");
                Err(Diagnostic::new(DiagnosticKind::ScopeError, m, 0, 0))
            },
            None => {
                let ghost nm = name@;
                let ghost fm = function_info@;
                self.functions.push((name, function_info));
                proof {
                    assert(self@ =~= old(self)@.push((nm, fm)));
                }
                Ok(())
            },
        }
    }

    /// A copy of the whole table.
    pub fn clone_table(&self) -> (r: FunctionTable)
        ensures
            r@ == self@,
    {
        let mut functions: Vec<(String, FunctionTableInfo)> = Vec::new();
        let n = self.functions.len();
        let mut i: usize = 0;
        proof {
            assert(self@.len() == self.functions@.len());
        }
        while i < n
            invariant
                0 <= i <= n,
                n == self.functions@.len(),
                functions@.len() == i,
                forall|q: int|
                    0 <= q < i ==> (#[trigger] functions@[q]).0@ == self.functions@[q].0@
                        && functions@[q].1@ == self.functions@[q].1@,
            decreases n - i,
        {
            let name = self.functions[i].0.clone();
            let info = self.functions[i].1.clone();
            functions.push((name, info));
            i = i + 1;
        }
        let r = FunctionTable { functions };
        proof {
            assert(r@.len() == r.functions@.len());
            assert(r@ =~= self@);
        }
        r
    }

    /// The signature registered under `name`; fails where none is.
    pub fn get_function(&self, name: &String) -> (r: Result<FunctionTableInfo, Diagnostic>)
        ensures
            match table_lookup(self@, name@) {
                Some(info) => r is Ok && r->Ok_0@ == info,
                None => r is Err && r->Err_0@.kind == DiagnosticKind::ScopeError,
            },
    {
        match self.find(name.as_str()) {
            Some(i) => Ok(self.functions[i].1.clone()),
            None => {
                let mut m = "function '".to_owned();
                m.append(name.as_str());
                m.append("' does not exist");
                Err(Diagnostic::new(DiagnosticKind::ScopeError, m, 0, 0))
            },
        }
    }
}

} // verus!
