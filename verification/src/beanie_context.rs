//! A parsed program, as the external parser hands it over, and the hygiene
//! rewrite applied to imported programs.

use vstd::prelude::*;
use crate::expression::BeanieExpression;
use crate::function::Function;
use crate::instruction::Instruction;
use crate::idents::{spec_suffixed, spec_suffix_math, add_suffix, suffix_math_text};
use crate::text::{str_to_chars, chars_to_string};

verus! {

/// The parse of one source file: its constant groups, functions and ordered
/// instructions.  Declared inputs and outputs are derived from the `In` and
/// `Out` instructions when the program is contextualized.
#[derive(Debug)]
pub struct BeanieContext {
    pub beanie_file_path: String,
    pub constants: Vec<(Vec<String>, BeanieExpression)>,
    pub functions: Vec<Function>,
    pub instructions: Vec<Instruction>,
}

/// An imported program as supplied to a run: the path a `Use` operation
/// names, the fresh hygiene suffix drawn for this import, and the parsed
/// program read from that path.
#[derive(Debug)]
pub struct ImportSource {
    pub file_path: String,
    pub suffix: String,
    pub program: BeanieContext,
}

/// What a run requires of its import sources: parser-shaped programs, none
/// of whose functions carries a foreign context.
pub open spec fn spec_imports_wf(imports: Seq<ImportSource>) -> bool {
    forall|s: int, k: int|
        0 <= s < imports.len() && 0 <= k < imports[s].program.functions@.len() ==> (#[trigger]
        imports[s].program.functions@[k].external_context) is None
}

/// The first import source for a path.
pub open spec fn spec_find_import(imports: Seq<ImportSource>, path: Seq<char>, k: int) -> Option<
    int,
>
    decreases imports.len() - k when 0 <= k <= imports.len()
{
    if k >= imports.len() {
        None
    } else if imports[k].file_path@ == path {
        Some(k)
    } else {
        spec_find_import(imports, path, k + 1)
    }
}

/// Finds the import source supplied for a path.
pub fn find_import<'a>(imports: &'a Vec<ImportSource>, path: &String) -> (r: Option<
    &'a ImportSource,
>)
    ensures
        match r {
            Some(src) => {
                &&& spec_find_import(imports@, path@, 0) matches Some(k)
                &&& 0 <= k < imports@.len()
                &&& *src == imports@[k]
            },
            None => spec_find_import(imports@, path@, 0) is None,
        },
{
    let path_chars = str_to_chars(path.as_str());
    let mut k: usize = 0;
    while k < imports.len()
        invariant
            0 <= k <= imports@.len(),
            path_chars@ == path@,
            spec_find_import(imports@, path@, 0) == spec_find_import(imports@, path@, k as int),
        decreases imports@.len() - k,
    {
        let entry = str_to_chars(imports[k].file_path.as_str());
        if crate::text::chars_eq(&entry, &path_chars) {
            return Some(&imports[k]);
        }
        k = k + 1;
    }
    None
}

/// The hygiene relation on one expression: math text is rewritten identifier
/// by identifier, anything else is left as it is.
pub open spec fn spec_suffix_expression(
    e: BeanieExpression,
    suffix: Seq<char>,
    r: BeanieExpression,
) -> bool {
    match e {
        BeanieExpression::Math(t, d) => match r {
            BeanieExpression::Math(t2, d2) => t2@ == spec_suffix_math(t@, suffix) && d2 == d,
            _ => false,
        },
        _ => r == e,
    }
}

/// Rewrites one expression by the hygiene suffix.
pub fn suffix_expression(e: &BeanieExpression, suffix: &Vec<char>) -> (r: BeanieExpression)
    ensures
        spec_suffix_expression(*e, suffix@, r),
{
    match e {
        BeanieExpression::Math(t, d) => {
            let chars = str_to_chars(t.as_str());
            let rewritten = suffix_math_text(&chars, suffix);
            BeanieExpression::Math(chars_to_string(&rewritten), *d)
        },
        _ => e.duplicate(),
    }
}

/// The hygiene relation on a list of names: each gains the suffix.
pub open spec fn spec_suffixed_names(names: Seq<String>, suffix: Seq<char>, r: Seq<String>) -> bool {
    &&& r.len() == names.len()
    &&& forall|i: int| 0 <= i < names.len() ==> (#[trigger] r[i])@ == spec_suffixed(names[i]@, suffix)
}

/// Appends the hygiene suffix to every name of a list.
pub fn suffix_names(names: &Vec<String>, suffix: &Vec<char>) -> (r: Vec<String>)
    ensures
        spec_suffixed_names(names@, suffix@, r@),
{
    let mut out: Vec<String> = Vec::new();
    let mut i: usize = 0;
    while i < names.len()
        invariant
            0 <= i <= names@.len(),
            out@.len() == i,
            forall|k: int|
                0 <= k < i ==> (#[trigger] out@[k])@ == spec_suffixed(names@[k]@, suffix@),
        decreases names.len() - i,
    {
        let chars = str_to_chars(names[i].as_str());
        let renamed = add_suffix(&chars, suffix);
        out.push(chars_to_string(&renamed));
        i = i + 1;
    }
    out
}

/// The hygiene relation on an argument list: keyword names stay, expression
/// values are rewritten.
pub open spec fn spec_suffixed_arguments(
    args: Seq<(String, BeanieExpression)>,
    suffix: Seq<char>,
    r: Seq<(String, BeanieExpression)>,
) -> bool {
    &&& r.len() == args.len()
    &&& forall|i: int|
        0 <= i < args.len() ==> (#[trigger] r[i]).0 == args[i].0 && spec_suffix_expression(
            args[i].1,
            suffix,
            r[i].1,
        )
}

fn suffix_arguments(args: &Vec<(String, BeanieExpression)>, suffix: &Vec<char>) -> (r: Vec<
    (String, BeanieExpression),
>)
    ensures
        spec_suffixed_arguments(args@, suffix@, r@),
{
    let mut out: Vec<(String, BeanieExpression)> = Vec::new();
    let mut i: usize = 0;
    while i < args.len()
        invariant
            0 <= i <= args@.len(),
            out@.len() == i,
            forall|k: int|
                0 <= k < i ==> (#[trigger] out@[k]).0 == args@[k].0 && spec_suffix_expression(
                    args@[k].1,
                    suffix@,
                    out@[k].1,
                ),
        decreases args.len() - i,
    {
        let value = suffix_expression(&args[i].1, suffix);
        out.push((args[i].0.clone(), value));
        i = i + 1;
    }
    out
}

impl BeanieContext {
    /// The hygiene relation on a whole program: every user-declared
    /// identifier — constant names, function names, parameter names, and
    /// every reference inside math text — gains the suffix; built-ins, file
    /// paths, argument keywords and everything else stay.
    pub open spec fn spec_suffixed_program(self, suffix: Seq<char>, r: BeanieContext) -> bool {
        &&& r.beanie_file_path == self.beanie_file_path
        &&& r.constants@.len() == self.constants@.len()
        &&& forall|g: int|
            0 <= g < self.constants@.len() ==> spec_suffixed_names(
                (#[trigger] self.constants@[g]).0@,
                suffix,
                r.constants@[g].0@,
            ) && spec_suffix_expression(self.constants@[g].1, suffix, r.constants@[g].1)
        &&& r.functions@.len() == self.functions@.len()
        &&& forall|k: int|
            0 <= k < self.functions@.len() ==> {
                &&& (#[trigger] r.functions@[k]).name@ == spec_suffixed(
                    self.functions@[k].name@,
                    suffix,
                )
                &&& spec_suffixed_names(
                    self.functions@[k].parameters@,
                    suffix,
                    r.functions@[k].parameters@,
                )
                &&& spec_suffix_expression(
                    self.functions@[k].expression,
                    suffix,
                    r.functions@[k].expression,
                )
                &&& r.functions@[k].external_context is None
            }
        &&& r.instructions@.len() == self.instructions@.len()
        &&& forall|n: int|
            0 <= n < self.instructions@.len() ==> {
                &&& (#[trigger] r.instructions@[n]).operation_type
                    == self.instructions@[n].operation_type
                &&& spec_suffix_expression(
                    self.instructions@[n].expression,
                    suffix,
                    r.instructions@[n].expression,
                )
                &&& spec_suffixed_arguments(
                    self.instructions@[n].arguments@,
                    suffix,
                    r.instructions@[n].arguments@,
                )
            }
    }

    /// Rewrites an imported program so that none of its user-declared names
    /// can collide with the importer's: each gains `_suffix`.
    pub fn apply_suffix(&self, suffix: &Vec<char>) -> (r: BeanieContext)
        requires
            forall|k: int|
                0 <= k < self.functions@.len() ==> (#[trigger] self.functions@[
                    k
                ].external_context) is None,
        ensures
            self.spec_suffixed_program(suffix@, r),
    {
        let mut constants: Vec<(Vec<String>, BeanieExpression)> = Vec::new();
        let mut g: usize = 0;
        while g < self.constants.len()
            invariant
                0 <= g <= self.constants@.len(),
                constants@.len() == g,
                forall|j: int|
                    0 <= j < g ==> spec_suffixed_names(
                        (#[trigger] self.constants@[j]).0@,
                        suffix@,
                        constants@[j].0@,
                    ) && spec_suffix_expression(self.constants@[j].1, suffix@, constants@[j].1),
            decreases self.constants.len() - g,
        {
            let names = suffix_names(&self.constants[g].0, suffix);
            let expr = suffix_expression(&self.constants[g].1, suffix);
            constants.push((names, expr));
            g = g + 1;
        }
        let mut functions: Vec<Function> = Vec::new();
        let mut k: usize = 0;
        while k < self.functions.len()
            invariant
                0 <= k <= self.functions@.len(),
                functions@.len() == k,
                forall|j: int|
                    0 <= j < self.functions@.len() ==> (#[trigger] self.functions@[
                        j
                    ].external_context) is None,
                forall|j: int|
                    0 <= j < k ==> {
                        &&& (#[trigger] functions@[j]).name@ == spec_suffixed(
                            self.functions@[j].name@,
                            suffix@,
                        )
                        &&& spec_suffixed_names(
                            self.functions@[j].parameters@,
                            suffix@,
                            functions@[j].parameters@,
                        )
                        &&& spec_suffix_expression(
                            self.functions@[j].expression,
                            suffix@,
                            functions@[j].expression,
                        )
                        &&& functions@[j].external_context is None
                    },
            decreases self.functions.len() - k,
        {
            let f = &self.functions[k];
            let name_chars = str_to_chars(f.name.as_str());
            let renamed = add_suffix(&name_chars, suffix);
            let parameters = suffix_names(&f.parameters, suffix);
            let expression = suffix_expression(&f.expression, suffix);
            functions.push(
                Function {
                    name: chars_to_string(&renamed),
                    parameters,
                    expression,
                    external_context: None,
                },
            );
            k = k + 1;
        }
        let mut instructions: Vec<Instruction> = Vec::new();
        let mut n: usize = 0;
        while n < self.instructions.len()
            invariant
                0 <= n <= self.instructions@.len(),
                instructions@.len() == n,
                forall|j: int|
                    0 <= j < n ==> {
                        &&& (#[trigger] instructions@[j]).operation_type == self.instructions@[
                            j
                        ].operation_type
                        &&& spec_suffix_expression(
                            self.instructions@[j].expression,
                            suffix@,
                            instructions@[j].expression,
                        )
                        &&& spec_suffixed_arguments(
                            self.instructions@[j].arguments@,
                            suffix@,
                            instructions@[j].arguments@,
                        )
                    },
            decreases self.instructions.len() - n,
        {
            let ins = &self.instructions[n];
            let expression = suffix_expression(&ins.expression, suffix);
            let arguments = suffix_arguments(&ins.arguments, suffix);
            instructions.push(
                Instruction { operation_type: ins.operation_type, expression, arguments },
            );
            n = n + 1;
        }
        BeanieContext {
            beanie_file_path: self.beanie_file_path.clone(),
            constants,
            functions,
            instructions,
        }
    }
}

} // verus!
