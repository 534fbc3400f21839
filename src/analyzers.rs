use vstd::prelude::*;

use crate::ast::{CodeBody, File, FunctionMetadata, FunctionV, MetaV, TopLevelStatement};
use crate::errors::{error_at, CompileError, CompileErrorV, CompilerResult, ErrorKind, ErrorKindV};
use crate::text::str_equals;
use crate::types::TypeInformation;
use crate::types_analyzer::{check_body, TypeAnalyzer, VarsV};

verus! {

broadcast use vstd::seq::group_seq_axioms, vstd::std_specs::vec::group_vec_axioms;

/// The built-in type that a return type name stands for.
pub open spec fn resolve_type(name: Seq<char>) -> Option<TypeInformation> {
    if name == "Num"@ {
        Some(TypeInformation::Number)
    } else if name == "String"@ {
        Some(TypeInformation::String(true))
    } else if name == "Bool"@ {
        Some(TypeInformation::Boolean)
    } else {
        None
    }
}

/// A function with its return type resolved.
pub open spec fn define_function(f: FunctionV) -> Result<FunctionV, CompileErrorV> {
    match resolve_type(f.return_type_name) {
        Some(t) => Ok(FunctionV { metadata: MetaV { return_type: Some(t), ..f.metadata }, ..f }),
        None => Err(error_at(f.return_type_location, ErrorKindV::UnknownType)),
    }
}

/// A function with its body annotated and its variables recorded.
pub open spec fn check_function(f: FunctionV) -> Result<FunctionV, CompileErrorV> {
    let ret = match f.metadata.return_type {
        Some(t) => t,
        None => TypeInformation::Number,
    };
    match check_body(f.body, Seq::empty(), ret) {
        Ok((body, vars)) => Ok(FunctionV { body, metadata: MetaV { var_types: vars, return_type: f.metadata.return_type }, ..f }),
        Err(e) => Err(e),
    }
}

/// Applies a pass to every function in order; the first error stops it.
pub open spec fn each(fs: Seq<FunctionV>, pass: spec_fn(FunctionV) -> Result<FunctionV, CompileErrorV>) -> Result<Seq<FunctionV>, CompileErrorV>
    decreases fs.len(),
{
    if fs.len() == 0 {
        Ok(Seq::empty())
    } else {
        match each(fs.drop_last(), pass) {
            Ok(done) => match pass(fs.last()) {
                Ok(f) => Ok(done.push(f)),
                Err(e) => Err(e),
            },
            Err(e) => Err(e),
        }
    }
}

/// Both semantic passes over a file: return types first, then bodies.
pub open spec fn analyze(fs: Seq<FunctionV>) -> Result<Seq<FunctionV>, CompileErrorV> {
    match each(fs, |f: FunctionV| define_function(f)) {
        Ok(defined) => each(defined, |f: FunctionV| check_function(f)),
        Err(e) => Err(e),
    }
}

pub proof fn lemma_each_prefix(
    fs: Seq<FunctionV>,
    pass: spec_fn(FunctionV) -> Result<FunctionV, CompileErrorV>,
    j: int,
)
    requires
        0 <= j <= fs.len(),
        each(fs.take(j), pass) is Err,
    ensures
        each(fs, pass) == each(fs.take(j), pass),
    decreases fs.len() - j,
{
    if j < fs.len() {
        assert(fs.take(j + 1).drop_last() =~= fs.take(j));
        lemma_each_prefix(fs, pass, j + 1);
    } else {
        assert(fs.take(j) =~= fs);
    }
}

pub open spec fn file_view(fs: Seq<TopLevelStatement>) -> Seq<FunctionV> {
    fs.map_values(|t: TopLevelStatement| t@)
}

/// Resolves the declared return type of each function.
pub struct DefinitionAnalyzer {}

impl DefinitionAnalyzer {
    pub fn new() -> Self {
        Self {}
    }

    fn get_type(&self, name: &String) -> (r: Option<TypeInformation>)
        ensures
            r == resolve_type(name@),
    {
        if str_equals(name.as_str(), "Num") {
            Some(TypeInformation::Number)
        } else if str_equals(name.as_str(), "String") {
            Some(TypeInformation::String(true))
        } else if str_equals(name.as_str(), "Bool") {
            Some(TypeInformation::Boolean)
        } else {
            None
        }
    }

    pub fn visit_toplevel(&self, statement: TopLevelStatement) -> (r: CompilerResult<TopLevelStatement>)
        ensures
            match r {
                Ok(x) => define_function(statement@) == Ok::<FunctionV, CompileErrorV>(x@),
                Err(e) => define_function(statement@) == Err::<FunctionV, CompileErrorV>(e@),
            },
    {
        match statement {
            TopLevelStatement::FunctionDefinition {
                function_name,
                body,
                return_type_name,
                return_type_location,
                metadata,
            } => match self.get_type(&return_type_name) {
                Some(t) => Ok(
                    TopLevelStatement::FunctionDefinition {
                        function_name,
                        body,
                        return_type_name,
                        return_type_location,
                        metadata: FunctionMetadata { var_types: metadata.var_types, return_type: Some(t) },
                    },
                ),
                None => Err(CompileError { location: return_type_location, kind: ErrorKind::UnknownType }),
            },
        }
    }
}

impl TypeAnalyzer {
    /// Checks one function: resets the variables, checks the body, records the variables.
    pub fn visit_toplevel(&mut self, statement: TopLevelStatement) -> (r: CompilerResult<TopLevelStatement>)
        ensures
            match r {
                Ok(x) => check_function(statement@) == Ok::<FunctionV, CompileErrorV>(x@),
                Err(e) => check_function(statement@) == Err::<FunctionV, CompileErrorV>(e@),
            },
    {
        match statement {
            TopLevelStatement::FunctionDefinition {
                function_name,
                body,
                return_type_name,
                return_type_location,
                metadata,
            } => {
                self.var_types = Vec::new();
                self.return_type = match metadata.return_type {
                    Some(t) => t,
                    None => TypeInformation::Number,
                };
                proof {
                    assert(self.vars() =~= Seq::empty());
                }
                match self.visit_body(body) {
                    Ok(b) => {
                        let mut var_types: Vec<(String, TypeInformation)> = Vec::new();
                        core::mem::swap(&mut var_types, &mut self.var_types);
                        Ok(
                            TopLevelStatement::FunctionDefinition {
                                function_name,
                                body: b,
                                return_type_name,
                                return_type_location,
                                metadata: FunctionMetadata { var_types, return_type: metadata.return_type },
                            },
                        )
                    },
                    Err(e) => Err(e),
                }
            },
        }
    }
}

/// Runs both semantic passes over a file, in place: resolves return types,
/// then annotates every expression and records every function's variables.
pub fn apply_analyzer(code: &mut File) -> (r: CompilerResult<()>)
    ensures
        match r {
            Ok(()) => analyze(old(code)@) == Ok::<Seq<FunctionV>, CompileErrorV>(final(code)@),
            Err(e) => analyze(old(code)@) == Err::<Seq<FunctionV>, CompileErrorV>(e@),
        },
{
    let mut fs: Vec<TopLevelStatement> = Vec::new();
    core::mem::swap(&mut fs, &mut code.0);
    let ghost orig = file_view(fs@);
    let definition_analyzer = DefinitionAnalyzer::new();
    let mut defined: Vec<TopLevelStatement> = Vec::new();
    let n = fs.len();
    let mut k: usize = 0;
    proof {
        assert(orig.take(0) =~= Seq::empty());
        assert(file_view(defined@) =~= Seq::empty());
    }
    while k < n
        invariant
            n == orig.len(),
            k <= n,
            file_view(fs@) == orig.skip(k as int),
            fs@.len() == n - k,
            defined@.len() == k,
            orig == old(code)@,
            each(orig.take(k as int), |f: FunctionV| define_function(f)) == Ok::<Seq<FunctionV>, CompileErrorV>(file_view(defined@)),
        decreases n - k,
    {
        proof {
            assert(file_view(fs@)[0] == fs@[0]@);
        }
        let ghost fs_before = fs@;
        let item = fs.remove(0);
        proof {
            assert(file_view(fs@) =~= file_view(fs_before).skip(1));
            assert(orig.skip(k as int).skip(1) =~= orig.skip(k + 1));
            assert(item@ == orig[k as int]);
            assert(orig.take(k + 1).drop_last() =~= orig.take(k as int));
        }
        let ghost before = defined@;
        match definition_analyzer.visit_toplevel(item) {
            Ok(x) => {
                defined.push(x);
                proof {
                    assert(file_view(defined@) =~= file_view(before).push(defined@.last()@));
                }
            },
            Err(e) => {
                proof {
                    lemma_each_prefix(orig, |f: FunctionV| define_function(f), k + 1);
                }
                return Err(e);
            },
        }
        k = k + 1;
    }
    proof {
        assert(orig.take(n as int) =~= orig);
    }
    let ghost dv = file_view(defined@);
    let mut type_analyzer = TypeAnalyzer::new();
    let mut checked: Vec<TopLevelStatement> = Vec::new();
    let mut j: usize = 0;
    proof {
        assert(dv.take(0) =~= Seq::empty());
        assert(file_view(checked@) =~= Seq::empty());
    }
    while j < n
        invariant
            n == dv.len(),
            j <= n,
            file_view(defined@) == dv.skip(j as int),
            defined@.len() == n - j,
            checked@.len() == j,
            analyze(old(code)@) == each(dv, |f: FunctionV| check_function(f)),
            each(dv.take(j as int), |f: FunctionV| check_function(f)) == Ok::<Seq<FunctionV>, CompileErrorV>(file_view(checked@)),
        decreases n - j,
    {
        proof {
            assert(file_view(defined@)[0] == defined@[0]@);
        }
        let ghost d_before = defined@;
        let item = defined.remove(0);
        proof {
            assert(file_view(defined@) =~= file_view(d_before).skip(1));
            assert(dv.skip(j as int).skip(1) =~= dv.skip(j + 1));
            assert(item@ == dv[j as int]);
            assert(dv.take(j + 1).drop_last() =~= dv.take(j as int));
        }
        let ghost before = checked@;
        match type_analyzer.visit_toplevel(item) {
            Ok(x) => {
                checked.push(x);
                proof {
                    assert(file_view(checked@) =~= file_view(before).push(checked@.last()@));
                }
            },
            Err(e) => {
                proof {
                    lemma_each_prefix(dv, |f: FunctionV| check_function(f), j + 1);
                }
                return Err(e);
            },
        }
        j = j + 1;
    }
    proof {
        assert(dv.take(n as int) =~= dv);
    }
    code.0 = checked;
    Ok(())
}

} // verus!
