//! The per-program runtime context: constant groups, functions, declared
//! inputs and declared outputs.

use vstd::prelude::*;
use crate::expression::{BeanieExpression, spec_numeric};
use crate::function::Function;
use crate::text::chars_eq;
use crate::errors::BeanieError;

verus! {

/// Mutable per-program state.
///
/// `constants` maps each group of co-declared constant names to the one
/// expression that produces their values; a name's position inside its group
/// selects which value it takes when the expression yields several.
#[derive(Debug)]
pub struct BeanieRuntimeContext {
    pub beanie_file_path: String,
    pub constants: Vec<(Vec<String>, BeanieExpression)>,
    pub functions: Vec<Function>,
    pub inputs: Vec<String>,
    pub outputs: Vec<BeanieExpression>,
}

/// The first position of `name` in a group of constant names, from `k` on.
pub open spec fn spec_pos_in_group(group: Seq<String>, name: Seq<char>, k: int) -> Option<int>
    decreases group.len() - k when 0 <= k <= group.len()
{
    if k >= group.len() {
        None
    } else if group[k]@ == name {
        Some(k)
    } else {
        spec_pos_in_group(group, name, k + 1)
    }
}

/// The first constant group holding `name`, from group `g` on: the group's
/// index and the name's position inside it.
pub open spec fn spec_find_constant(
    constants: Seq<(Vec<String>, BeanieExpression)>,
    name: Seq<char>,
    g: int,
) -> Option<(int, int)>
    decreases constants.len() - g when 0 <= g <= constants.len()
{
    if g >= constants.len() {
        None
    } else {
        match spec_pos_in_group(constants[g].0@, name, 0) {
            Some(p) => Some((g, p)),
            None => spec_find_constant(constants, name, g + 1),
        }
    }
}

/// The first function named `name`, from index `k` on.
pub open spec fn spec_find_function(functions: Seq<Function>, name: Seq<char>, k: int) -> Option<
    int,
>
    decreases functions.len() - k when 0 <= k <= functions.len()
{
    if k >= functions.len() {
        None
    } else if functions[k].name@ == name {
        Some(k)
    } else {
        spec_find_function(functions, name, k + 1)
    }
}

/// A name found at `j` puts the first match at or before `j`.
pub proof fn lemma_pos_at_most(group: Seq<String>, name: Seq<char>, k: int, j: int)
    requires
        0 <= k <= j < group.len(),
        group[j]@ == name,
    ensures
        spec_pos_in_group(group, name, k) matches Some(p) && k <= p <= j,
    decreases j - k,
{
    if group[k]@ != name {
        lemma_pos_at_most(group, name, k + 1, j);
    }
}

/// A group declaring the name makes the constant search succeed.
pub proof fn lemma_find_constant_some(
    constants: Seq<(Vec<String>, BeanieExpression)>,
    name: Seq<char>,
    k: int,
    g: int,
)
    requires
        0 <= k <= g < constants.len(),
        spec_pos_in_group(constants[g].0@, name, 0) is Some,
    ensures
        spec_find_constant(constants, name, k) is Some,
    decreases g - k,
{
    if spec_pos_in_group(constants[k].0@, name, 0) is None {
        lemma_find_constant_some(constants, name, k + 1, g);
    }
}

/// A name that no group declares is not found.
pub proof fn lemma_find_constant_none_all(
    constants: Seq<(Vec<String>, BeanieExpression)>,
    name: Seq<char>,
    k: int,
)
    requires
        0 <= k <= constants.len(),
        forall|j: int|
            0 <= j < constants.len() ==> spec_pos_in_group(
                (#[trigger] constants[j]).0@,
                name,
                0,
            ) is None,
    ensures
        spec_find_constant(constants, name, k) is None,
    decreases constants.len() - k,
{
    if k < constants.len() {
        lemma_find_constant_none_all(constants, name, k + 1);
    }
}

/// A name none of the functions bears is not found.
pub proof fn lemma_find_function_none_all(functions: Seq<Function>, name: Seq<char>, k: int)
    requires
        0 <= k <= functions.len(),
        forall|j: int| 0 <= j < functions.len() ==> (#[trigger] functions[j]).name@ != name,
    ensures
        spec_find_function(functions, name, k) is None,
    decreases functions.len() - k,
{
    if k < functions.len() {
        lemma_find_function_none_all(functions, name, k + 1);
    }
}

/// A name whose earlier group entries all differ is first found at its own
/// position.
pub proof fn lemma_pos_exact(group: Seq<String>, name: Seq<char>, k: int, i: int)
    requires
        0 <= k <= i < group.len(),
        group[i]@ == name,
        forall|j: int| k <= j < i ==> (#[trigger] group[j])@ != name,
    ensures
        spec_pos_in_group(group, name, k) == Some(i),
    decreases i - k,
{
    if k < i {
        lemma_pos_exact(group, name, k + 1, i);
    }
}

pub(crate) fn pos_in_group(group: &Vec<String>, name: &Vec<char>) -> (r: Option<usize>)
    ensures
        match r {
            Some(p) => spec_pos_in_group(group@, name@, 0) == Some(p as int) && p < group@.len(),
            None => spec_pos_in_group(group@, name@, 0) is None,
        },
{
    let mut k: usize = 0;
    while k < group.len()
        invariant
            0 <= k <= group@.len(),
            spec_pos_in_group(group@, name@, 0) == spec_pos_in_group(group@, name@, k as int),
        decreases group@.len() - k,
    {
        let entry = crate::text::str_to_chars(group[k].as_str());
        if chars_eq(&entry, name) {
            return Some(k);
        }
        k = k + 1;
    }
    None
}

impl BeanieRuntimeContext {
    /// Where `name` is declared as a constant: its group index and its
    /// position within that group.
    pub open spec fn spec_constant(self, name: Seq<char>) -> Option<(int, int)> {
        spec_find_constant(self.constants@, name, 0)
    }

    /// Where `name` is declared as a function.
    pub open spec fn spec_function(self, name: Seq<char>) -> Option<int> {
        spec_find_function(self.functions@, name, 0)
    }

    /// An empty context for a source file.
    pub fn new(beanie_file_path: String) -> (r: BeanieRuntimeContext)
        ensures
            r.beanie_file_path == beanie_file_path,
            r.constants@ =~= Seq::<(Vec<String>, BeanieExpression)>::empty(),
            r.functions@ =~= Seq::<Function>::empty(),
            r.inputs@ =~= Seq::<String>::empty(),
            r.outputs@ =~= Seq::<BeanieExpression>::empty(),
    {
        BeanieRuntimeContext {
            beanie_file_path,
            constants: Vec::new(),
            functions: Vec::new(),
            inputs: Vec::new(),
            outputs: Vec::new(),
        }
    }

    /// Whether some constant group declares `name`.
    pub fn has_constant(&self, name: &Vec<char>) -> (r: bool)
        ensures
            r == (self.spec_constant(name@) is Some),
    {
        let mut g: usize = 0;
        while g < self.constants.len()
            invariant
                0 <= g <= self.constants@.len(),
                spec_find_constant(self.constants@, name@, 0) == spec_find_constant(
                    self.constants@,
                    name@,
                    g as int,
                ),
            decreases self.constants@.len() - g,
        {
            if pos_in_group(&self.constants[g].0, name).is_some() {
                return true;
            }
            g = g + 1;
        }
        false
    }

    /// The expression producing `name`'s value and `name`'s position in its
    /// group, from the first group that declares it.
    pub fn get_constant(&self, name: &Vec<char>) -> (r: Option<(&BeanieExpression, usize)>)
        ensures
            match r {
                Some((e, p)) => {
                    &&& self.spec_constant(name@) matches Some((g, sp))
                    &&& sp == p as int
                    &&& 0 <= g < self.constants@.len()
                    &&& *e == self.constants@[g].1
                },
                None => self.spec_constant(name@) is None,
            },
    {
        let mut g: usize = 0;
        while g < self.constants.len()
            invariant
                0 <= g <= self.constants@.len(),
                spec_find_constant(self.constants@, name@, 0) == spec_find_constant(
                    self.constants@,
                    name@,
                    g as int,
                ),
            decreases self.constants@.len() - g,
        {
            match pos_in_group(&self.constants[g].0, name) {
                Some(p) => {
                    return Some((&self.constants[g].1, p));
                }
                None => {}
            }
            g = g + 1;
        }
        None
    }

    /// Whether a function named `name` exists.
    pub fn has_function(&self, name: &Vec<char>) -> (r: bool)
        ensures
            r == (self.spec_function(name@) is Some),
    {
        let mut k: usize = 0;
        while k < self.functions.len()
            invariant
                0 <= k <= self.functions@.len(),
                spec_find_function(self.functions@, name@, 0) == spec_find_function(
                    self.functions@,
                    name@,
                    k as int,
                ),
            decreases self.functions@.len() - k,
        {
            let entry = crate::text::str_to_chars(self.functions[k].name.as_str());
            if chars_eq(&entry, name) {
                return true;
            }
            k = k + 1;
        }
        false
    }

    /// The first function named `name`.
    pub fn get_function(&self, name: &Vec<char>) -> (r: Option<&Function>)
        ensures
            match r {
                Some(f) => {
                    &&& self.spec_function(name@) matches Some(k)
                    &&& 0 <= k < self.functions@.len()
                    &&& *f == self.functions@[k]
                },
                None => self.spec_function(name@) is None,
            },
    {
        let mut k: usize = 0;
        while k < self.functions.len()
            invariant
                0 <= k <= self.functions@.len(),
                spec_find_function(self.functions@, name@, 0) == spec_find_function(
                    self.functions@,
                    name@,
                    k as int,
                ),
            decreases self.functions@.len() - k,
        {
            let entry = crate::text::str_to_chars(self.functions[k].name.as_str());
            if chars_eq(&entry, name) {
                return Some(&self.functions[k]);
            }
            k = k + 1;
        }
        None
    }

    /// Conditions the evaluation engine needs of every context it reads:
    /// constant groups produce numeric expressions and function bodies are
    /// math text.
    pub open spec fn local_wf(self) -> bool {
        &&& forall|g: int|
            0 <= g < self.constants@.len() ==> spec_numeric(#[trigger] self.constants@[g].1)
        &&& forall|k: int|
            0 <= k < self.functions@.len() ==> (#[trigger] self.functions@[k].expression) matches
                BeanieExpression::Math(_, _)
    }

    /// A context none of whose functions carries a foreign context: what the
    /// parser produces, and what an imported program's context looks like.
    pub open spec fn wf_inner(self) -> bool {
        &&& self.local_wf()
        &&& forall|k: int|
            0 <= k < self.functions@.len() ==> (#[trigger] self.functions@[k].external_context) is
                None
    }

    /// A well-formed runtime context: locally well formed, and every foreign
    /// context a function carries is itself well formed with no further
    /// foreign contexts inside (imports are one level of indirection).
    pub open spec fn wf(self) -> bool {
        &&& self.local_wf()
        &&& forall|k: int|
            0 <= k < self.functions@.len() ==> match #[trigger] self.functions@[
                k
            ].external_context {
                Some(c) => (*c).wf_inner(),
                None => true,
            }
    }

    /// One level up: a context with no foreign contexts is well formed.
    pub proof fn lemma_wf_inner_implies_wf(self)
        requires
            self.wf_inner(),
        ensures
            self.wf(),
    {
    }

    /// Whether binding `name` as a single constant can succeed: it must not
    /// sit inside a group of several co-declared names.
    pub open spec fn spec_bind_ok(self, name: Seq<char>) -> bool {
        match self.spec_constant(name) {
            None => true,
            Some((g, _)) => self.constants@[g].0@.len() == 1,
        }
    }

    /// What a successful bind leaves: a fresh single-name group, or the old
    /// single-name group with its expression replaced.
    pub open spec fn spec_bind_result(
        self,
        name: String,
        e: BeanieExpression,
        new: BeanieRuntimeContext,
    ) -> bool {
        &&& new.beanie_file_path == self.beanie_file_path
        &&& new.functions == self.functions
        &&& new.inputs == self.inputs
        &&& new.outputs == self.outputs
        &&& match self.spec_constant(name@) {
            None => {
                &&& new.constants@.len() == self.constants@.len() + 1
                &&& new.constants@.subrange(0, self.constants@.len() as int) == self.constants@
                &&& new.constants@.last().0@.len() == 1
                &&& new.constants@.last().0@[0] == name
                &&& new.constants@.last().1 == e
            },
            Some((g, _)) => {
                &&& new.constants@.len() == self.constants@.len()
                &&& forall|j: int|
                    0 <= j < self.constants@.len() && j != g ==> (#[trigger] new.constants@[j])
                        == self.constants@[j]
                &&& new.constants@[g].0 == self.constants@[g].0
                &&& new.constants@[g].1 == e
            },
        }
    }

    /// Binds `name` to the expression as a single-name constant group,
    /// replacing an existing single-name group of that name; a name inside a
    /// larger group is a fatal duplicate.
    pub fn bind_constant(&mut self, name: String, e: BeanieExpression) -> (r: Result<
        (),
        BeanieError,
    >)
        requires
            old(self).wf(),
            spec_numeric(e),
        ensures
            final(self).wf(),
            match r {
                Ok(()) => old(self).spec_bind_ok(name@) && old(self).spec_bind_result(
                    name,
                    e,
                    *final(self),
                ),
                Err(er) => {
                    &&& !old(self).spec_bind_ok(name@)
                    &&& er@ == crate::errors::ErrorView::DuplicateName(name@)
                    &&& *final(self) == *old(self)
                },
            },
    {
        let name_chars = crate::text::str_to_chars(name.as_str());
        let mut g: usize = 0;
        while g < self.constants.len()
            invariant
                0 <= g <= self.constants@.len(),
                old(self).wf(),
                *self == *old(self),
                name_chars@ == name@,
                spec_numeric(e),
                spec_find_constant(self.constants@, name_chars@, 0) == spec_find_constant(
                    self.constants@,
                    name_chars@,
                    g as int,
                ),
            decreases self.constants@.len() - g,
        {
            match pos_in_group(&self.constants[g].0, &name_chars) {
                Some(_) => {
                    if self.constants[g].0.len() == 1 {
                        let (names, _) = self.constants.remove(g);
                        self.constants.insert(g, (names, e));
                        proof {
                            assert(self.constants@ =~= old(self).constants@.update(
                                g as int,
                                (old(self).constants@[g as int].0, e),
                            ));
                            assert forall|j: int| 0 <= j < self.constants@.len() implies
                                spec_numeric(#[trigger] self.constants@[j].1) by {
                                if j != g {
                                    assert(self.constants@[j] == old(self).constants@[j]);
                                }
                            }
                        }
                        return Ok(());
                    } else {
                        return Err(BeanieError::DuplicateName(name));
                    }
                },
                None => {},
            }
            g = g + 1;
        }
        let mut group: Vec<String> = Vec::new();
        group.push(name);
        self.constants.push((group, e));
        proof {
            assert(self.constants@.subrange(0, old(self).constants@.len() as int) =~= old(
                self,
            ).constants@);
            assert forall|j: int| 0 <= j < self.constants@.len() implies
                spec_numeric(#[trigger] self.constants@[j].1) by {
                if j < old(self).constants@.len() {
                    assert(self.constants@[j] == old(self).constants@[j]);
                }
            }
        }
        Ok(())
    }
}

} // verus!
