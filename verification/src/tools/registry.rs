//! A registry of tools, looked up by name.

use vstd::prelude::*;
use crate::utils::text::{find_first, index_from, push_string};

verus! {

/// Tools with their names, in registration order.
pub struct ToolRegistry<T> {
    names: Vec<String>,
    tools: Vec<T>,
}

impl<T> View for ToolRegistry<T> {
    type V = Seq<(Seq<char>, T)>;

    closed spec fn view(&self) -> Seq<(Seq<char>, T)> {
        Seq::new(self.tools@.len(), |i: int| (self.names@[i]@, self.tools@[i]))
    }
}

impl<T> ToolRegistry<T> {
    #[verifier::type_invariant]
    spec fn wf(&self) -> bool {
        self.names@.len() == self.tools@.len()
    }

    /// The names of the registered tools, in order.
    pub open spec fn names_view(&self) -> Seq<Seq<char>> {
        self@.map_values(|e: (Seq<char>, T)| e.0)
    }

    /// An empty registry.
    pub fn new() -> (r: Self)
        ensures
            r@ == Seq::<(Seq<char>, T)>::empty(),
    {
        let r = ToolRegistry { names: Vec::new(), tools: Vec::new() };
        assert(r@ =~= Seq::<(Seq<char>, T)>::empty());
        r
    }

    /// Registers `tool` under `name`, after the tools already registered.
    pub fn register(&mut self, name: String, tool: T)
        ensures
            final(self)@ == old(self)@.push((name@, tool)),
    {
        proof {
            use_type_invariant(&*self);
        }
        let ghost n = name@;
        let mut current = ToolRegistry { names: Vec::new(), tools: Vec::new() };
        std::mem::swap(self, &mut current);
        proof {
            use_type_invariant(&current);
        }
        let ToolRegistry { mut names, mut tools } = current;
        names.push(name);
        tools.push(tool);
        *self = ToolRegistry { names, tools };
        assert(self@ =~= old(self)@.push((n, tool)));
    }

    /// The registered tools, in order.
    pub fn all(&self) -> (r: &Vec<T>)
        ensures
            r@.len() == self@.len(),
            forall|i: int| 0 <= i < r@.len() ==> r@[i] == self@[i].1,
    {
        proof {
            use_type_invariant(self);
        }
        &self.tools
    }

    /// The names of the registered tools, in order.
    pub fn names(&self) -> (r: &Vec<String>)
        ensures
            r.deep_view() == self.names_view(),
    {
        proof {
            use_type_invariant(self);
        }
        assert(self.names.deep_view() =~= self.names_view());
        &self.names
    }

    /// The first tool registered under `name`.
    pub fn get_by_name(&self, name: &str) -> (r: Option<&T>)
        ensures
            match index_from(self.names_view(), name@, 0) {
                Some(i) => r == Some(&self@[i].1),
                None => r is None,
            },
    {
        proof {
            use_type_invariant(self);
        }
        assert(self.names.deep_view() =~= self.names_view());
        proof {
            lemma_index_from_bounds(self.names_view(), name@, 0);
        }
        match find_first(&self.names, name) {
            Some(i) => {
                assert(self@[i as int].1 == self.tools@[i as int]);
                Some(&self.tools[i])
            },
            None => None,
        }
    }
}

proof fn lemma_index_from_bounds(names: Seq<Seq<char>>, name: Seq<char>, k: int)
    ensures
        index_from(names, name, k) matches Some(i) ==> k <= i < names.len() && names[i] == name,
    decreases names.len() - k,
{
    if !(k < 0 || k >= names.len()) && names[k] != name {
        lemma_index_from_bounds(names, name, k + 1);
    }
}

/// Lookup finds what registration stored: right after registering a tool under
/// a name that no earlier tool has, looking that name up gives that tool.
pub proof fn law_register_then_lookup<T>(reg: Seq<(Seq<char>, T)>, name: Seq<char>, tool: T)
    requires
        forall|i: int| 0 <= i < reg.len() ==> reg[i].0 != name,
    ensures
        ({
            let after = reg.push((name, tool));
            let names = after.map_values(|e: (Seq<char>, T)| e.0);
            index_from(names, name, 0) == Some(reg.len() as int) && after[reg.len() as int].1 == tool
        }),
{
    let after = reg.push((name, tool));
    let names = after.map_values(|e: (Seq<char>, T)| e.0);
    lemma_index_from_skip(names, name, 0, reg.len() as int);
}

proof fn lemma_index_from_skip(names: Seq<Seq<char>>, name: Seq<char>, k: int, target: int)
    requires
        0 <= k <= target < names.len(),
        names[target] == name,
        forall|i: int| k <= i < target ==> names[i] != name,
    ensures
        index_from(names, name, k) == Some(target),
    decreases target - k,
{
    if k < target {
        lemma_index_from_skip(names, name, k + 1, target);
    }
}

/// Registering a tool keeps every earlier name lookup as it was.
pub proof fn law_register_keeps_earlier<T>(reg: Seq<(Seq<char>, T)>, name: Seq<char>, tool: T, other: Seq<char>)
    requires
        index_from(reg.map_values(|e: (Seq<char>, T)| e.0), other, 0) is Some,
    ensures
        index_from(reg.push((name, tool)).map_values(|e: (Seq<char>, T)| e.0), other, 0) == index_from(
            reg.map_values(|e: (Seq<char>, T)| e.0),
            other,
            0,
        ),
{
    let n0 = reg.map_values(|e: (Seq<char>, T)| e.0);
    let n1 = reg.push((name, tool)).map_values(|e: (Seq<char>, T)| e.0);
    lemma_index_from_bounds(n0, other, 0);
    let i = index_from(n0, other, 0).unwrap();
    lemma_index_prefix(n0, n1, other, 0);
}

proof fn lemma_index_prefix(n0: Seq<Seq<char>>, n1: Seq<Seq<char>>, x: Seq<char>, k: int)
    requires
        n0.len() <= n1.len(),
        forall|i: int| 0 <= i < n0.len() ==> n0[i] == n1[i],
        index_from(n0, x, k) is Some,
    ensures
        index_from(n1, x, k) == index_from(n0, x, k),
    decreases n0.len() - k,
{
    lemma_index_from_bounds(n0, x, k);
    if n0[k] != x {
        lemma_index_prefix(n0, n1, x, k + 1);
    }
}

} // verus!
