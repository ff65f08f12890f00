use crate::node::{lemma_mapping_entries, scalar_text, scalar_to_text, text_is, Node, YamlV};
use vstd::prelude::*;

verus! {

/// Field name and text value of each parameter, in document order.
pub type ValuesV = Seq<(Seq<char>, Seq<char>)>;

/// Module name and its parameters, for each module entry of a task.
pub type ModuleV = Seq<(Seq<char>, ValuesV)>;

/// Whether entry `e` of a parameter mapping is a name with a scalar value.
pub open spec fn value_entry_ok(e: (YamlV, YamlV)) -> bool {
    e.0 is Str && scalar_text(e.1) is Some
}

/// The parameters that a node holds: it must be a mapping whose keys are
/// strings and whose values are scalars, each taken as its text.
pub open spec fn values_of(v: YamlV) -> Option<ValuesV> {
    match v {
        YamlV::Mapping(es) => if forall|i: int| 0 <= i < es.len() ==> value_entry_ok(#[trigger] es[i]) {
            Some(es.map_values(|e: (YamlV, YamlV)| (e.0->Str_0, scalar_text(e.1)->Some_0)))
        } else {
            None
        },
        _ => None,
    }
}

/// The parameters of one module: field name to text value.
#[derive(Debug)]
pub struct ModuleValues {
    values: Vec<(String, String)>,
}

impl View for ModuleValues {
    type V = ValuesV;

    closed spec fn view(&self) -> ValuesV {
        self.values@.map_values(|e: (String, String)| (e.0@, e.1@))
    }
}

/// The free-form part of a task: every key that is not a control field,
/// each naming a module with its parameters.
#[derive(Debug)]
pub struct Module {
    root: Vec<(String, ModuleValues)>,
}

impl View for Module {
    type V = ModuleV;

    closed spec fn view(&self) -> ModuleV {
        self.root@.map_values(|e: (String, ModuleValues)| (e.0@, e.1@))
    }
}

impl ModuleValues {
    /// Reads the parameters of one module from its node.
    pub fn from_node(n: &Node) -> (r: Option<ModuleValues>)
        ensures
            match r {
                Some(mv) => values_of(n@) == Some(mv@),
                None => values_of(n@) is None,
            },
    {
        match n {
            Node::Mapping(entries) => {
                proof {
                    lemma_mapping_entries(n);
                }
                let ghost es = n@->Mapping_0;
                let mut values: Vec<(String, String)> = Vec::new();
                let mut i: usize = 0;
                while i < entries.len()
                    invariant
                        n@ == YamlV::Mapping(es),
                        *n == Node::Mapping(*entries),
                        es.len() == entries.len(),
                        forall|j: int|
                            0 <= j < entries.len() ==> #[trigger] es[j] == (
                            entries[j].0@,
                            entries[j].1@,
                        ),
                        i <= entries.len(),
                        values@.len() == i,
                        forall|j: int| 0 <= j < i ==> value_entry_ok(#[trigger] es[j]),
                        forall|j: int|
                            0 <= j < i ==> (#[trigger] values@[j].0@, values@[j].1@) == (
                            es[j].0->Str_0,
                            scalar_text(es[j].1)->Some_0,
                        ),
                    decreases entries.len() - i,
                {
                    let key = match &entries[i].0 {
                        Node::Str(k) => k.clone(),
                        _ => {
                            assert(!value_entry_ok(es[i as int]));
                            return None;
                        },
                    };
                    let text = match scalar_to_text(&entries[i].1) {
                        Some(t) => t,
                        None => {
                            assert(!value_entry_ok(es[i as int]));
                            return None;
                        },
                    };
                    values.push((key, text));
                    i = i + 1;
                }
                let mv = ModuleValues { values };
                assert(mv@ =~= es.map_values(
                    |e: (YamlV, YamlV)| (e.0->Str_0, scalar_text(e.1)->Some_0),
                ));
                Some(mv)
            },
            _ => None,
        }
    }

    /// The number of parameters.
    pub fn len(&self) -> (r: usize)
        ensures
            r == self@.len(),
    {
        self.values.len()
    }

    /// The value of the first parameter named `field`, if any.
    pub fn get(&self, field: &str) -> (r: Option<&String>)
        ensures
            match r {
                Some(v) => exists|j: int|
                    0 <= j < self@.len() && #[trigger] self@[j].0 == field@ && self@[j].1
                        == v@ && forall|k: int| 0 <= k < j ==> self@[k].0 != field@,
                None => forall|j: int| 0 <= j < self@.len() ==> #[trigger] self@[j].0 != field@,
            },
    {
        let mut i: usize = 0;
        while i < self.values.len()
            invariant
                i <= self.values.len(),
                forall|k: int| 0 <= k < i ==> #[trigger] self@[k].0 != field@,
            decreases self.values.len() - i,
        {
            if text_is(&self.values[i].0, field) {
                assert(self@[i as int].0 == field@);
                return Some(&self.values[i].1);
            }
            i = i + 1;
        }
        None
    }
}

impl Module {
    /// A module bag with no entries.
    pub fn new() -> (r: Module)
        ensures
            r@ == Seq::<(Seq<char>, ValuesV)>::empty(),
    {
        let r = Module { root: Vec::new() };
        assert(r@ =~= Seq::<(Seq<char>, ValuesV)>::empty());
        r
    }

    /// Appends the module `name` with its parameters.
    pub fn push(&mut self, name: String, values: ModuleValues)
        ensures
            final(self)@ == old(self)@.push((name@, values@)),
    {
        self.root.push((name, values));
        assert(final(self)@ =~= old(self)@.push((name@, values@)));
    }

    /// The number of module entries.
    pub fn len(&self) -> (r: usize)
        ensures
            r == self@.len(),
    {
        self.root.len()
    }

    /// The parameters of the first module named `name`, if any.
    pub fn get(&self, name: &str) -> (r: Option<&ModuleValues>)
        ensures
            match r {
                Some(mv) => exists|j: int|
                    0 <= j < self@.len() && #[trigger] self@[j].0 == name@ && self@[j].1
                        == mv@ && forall|k: int| 0 <= k < j ==> self@[k].0 != name@,
                None => forall|j: int| 0 <= j < self@.len() ==> #[trigger] self@[j].0 != name@,
            },
    {
        let mut i: usize = 0;
        while i < self.root.len()
            invariant
                i <= self.root.len(),
                forall|k: int| 0 <= k < i ==> #[trigger] self@[k].0 != name@,
            decreases self.root.len() - i,
        {
            if text_is(&self.root[i].0, name) {
                assert(self@[i as int].0 == name@);
                return Some(&self.root[i].1);
            }
            i = i + 1;
        }
        None
    }
}

} // verus!
