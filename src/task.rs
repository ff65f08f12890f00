use crate::module::{values_of, Module, ModuleV, ModuleValues};
use crate::node::{lemma_list_items, lemma_mapping_entries, text_is, Node, YamlV};
use vstd::prelude::*;

verus! {

/// A guard condition: one expression, or several that must all hold.
pub enum WhenV {
    Single(Seq<char>),
    Multiple(Seq<Seq<char>>),
}

/// The fields of one task, as values.
pub struct TaskV {
    pub name: Option<Seq<char>>,
    pub include_vars: Option<Seq<char>>,
    pub include_tasks: Option<Seq<char>>,
    pub module: ModuleV,
    pub when: Option<WhenV>,
}

/// The condition that a `when` value states: a string is one guard, a
/// sequence of strings is several, in order; nothing else is a condition.
pub open spec fn when_of(v: YamlV) -> Option<WhenV> {
    match v {
        YamlV::Str(s) => Some(WhenV::Single(s)),
        YamlV::List(items) => if forall|i: int| 0 <= i < items.len() ==> #[trigger] items[i] is Str {
            Some(WhenV::Multiple(items.map_values(|x: YamlV| x->Str_0)))
        } else {
            None
        },
        _ => None,
    }
}

/// The value of an optional string field: null leaves it out, a string sets
/// it; anything else is not a legal value (outer `None`).
pub open spec fn text_field(v: YamlV) -> Option<Option<Seq<char>>> {
    match v {
        YamlV::Null => Some(None),
        YamlV::Str(s) => Some(Some(s)),
        _ => None,
    }
}

/// The value of the `when` field: null leaves it out.
pub open spec fn when_field(v: YamlV) -> Option<Option<WhenV>> {
    if v is Null {
        Some(None)
    } else {
        match when_of(v) {
            Some(w) => Some(Some(w)),
            None => None,
        }
    }
}

/// Whether `k` is one of the four control keys of a task.
pub open spec fn is_control_key(k: Seq<char>) -> bool {
    k == "name"@ || k == "include_vars"@ || k == "include_tasks"@ || k == "when"@
}

/// A task with no field set and an empty module bag.
pub open spec fn empty_task() -> TaskV {
    TaskV {
        name: None,
        include_vars: None,
        include_tasks: None,
        module: Seq::empty(),
        when: None,
    }
}

/// `t` after one more entry of the task record: a control key sets its
/// field, any other string key adds a module entry; a key that is not a
/// string, or a value of the wrong shape, rejects the record.
pub open spec fn task_step(t: TaskV, e: (YamlV, YamlV)) -> Option<TaskV> {
    match e.0 {
        YamlV::Str(k) => if k == "name"@ {
            match text_field(e.1) {
                Some(o) => Some(TaskV { name: o, ..t }),
                None => None,
            }
        } else if k == "include_vars"@ {
            match text_field(e.1) {
                Some(o) => Some(TaskV { include_vars: o, ..t }),
                None => None,
            }
        } else if k == "include_tasks"@ {
            match text_field(e.1) {
                Some(o) => Some(TaskV { include_tasks: o, ..t }),
                None => None,
            }
        } else if k == "when"@ {
            match when_field(e.1) {
                Some(o) => Some(TaskV { when: o, ..t }),
                None => None,
            }
        } else {
            match values_of(e.1) {
                Some(vs) => Some(TaskV { module: t.module.push((k, vs)), ..t }),
                None => None,
            }
        },
        _ => None,
    }
}

/// The task that the entries `es` of a record make, taken in order.
pub open spec fn task_fold(es: Seq<(YamlV, YamlV)>) -> Option<TaskV>
    decreases es.len(),
{
    if es.len() == 0 {
        Some(empty_task())
    } else {
        match task_fold(es.drop_last()) {
            Some(t) => task_step(t, es.last()),
            None => None,
        }
    }
}

/// The task that a node holds: only a mapping can be a task record.
pub open spec fn task_of(v: YamlV) -> Option<TaskV> {
    match v {
        YamlV::Mapping(es) => task_fold(es),
        _ => None,
    }
}

/// Once a prefix of a record is rejected, the whole record is.
pub proof fn lemma_task_fold_rejects(es: Seq<(YamlV, YamlV)>, i: int)
    requires
        0 <= i <= es.len(),
        task_fold(es.subrange(0, i)) is None,
    ensures
        task_fold(es) is None,
    decreases es.len() - i,
{
    if i == es.len() {
        assert(es.subrange(0, i) =~= es);
    } else {
        assert(es.subrange(0, i + 1).drop_last() =~= es.subrange(0, i));
        lemma_task_fold_rejects(es, i + 1);
    }
}

/// The guard condition of a task.
#[derive(Debug)]
pub enum WhenOpts {
    Single(String),
    Multiple(Vec<String>),
}

impl View for WhenOpts {
    type V = WhenV;

    open spec fn view(&self) -> WhenV {
        match self {
            WhenOpts::Single(s) => WhenV::Single(s@),
            WhenOpts::Multiple(v) => WhenV::Multiple(v@.map_values(|s: String| s@)),
        }
    }
}

/// The view of an optional string.
pub open spec fn opt_view(o: Option<String>) -> Option<Seq<char>> {
    match o {
        Some(s) => Some(s@),
        None => None,
    }
}

/// The view of an optional condition.
pub open spec fn opt_when_view(o: Option<WhenOpts>) -> Option<WhenV> {
    match o {
        Some(w) => Some(w@),
        None => None,
    }
}

impl WhenOpts {
    /// Reads a condition: a string first, else a sequence of strings.
    pub fn from_node(n: &Node) -> (r: Option<WhenOpts>)
        ensures
            match r {
                Some(w) => when_of(n@) == Some(w@),
                None => when_of(n@) is None,
            },
    {
        match n {
            Node::Str(s) => Some(WhenOpts::Single(s.clone())),
            Node::List(items) => {
                proof {
                    lemma_list_items(n);
                }
                let ghost vs = n@->List_0;
                let mut out: Vec<String> = Vec::new();
                let mut i: usize = 0;
                while i < items.len()
                    invariant
                        n@ == YamlV::List(vs),
                        vs.len() == items@.len(),
                        forall|j: int| 0 <= j < items@.len() ==> #[trigger] vs[j] == items@[j]@,
                        i <= items.len(),
                        out@.len() == i,
                        forall|j: int| 0 <= j < i ==> #[trigger] vs[j] is Str,
                        forall|j: int| 0 <= j < i ==> (#[trigger] out@[j])@ == vs[j]->Str_0,
                    decreases items.len() - i,
                {
                    match &items[i] {
                        Node::Str(s) => {
                            out.push(s.clone());
                        },
                        _ => {
                            assert(!(vs[i as int] is Str));
                            return None;
                        },
                    }
                    i = i + 1;
                }
                let w = WhenOpts::Multiple(out);
                assert(w@->Multiple_0 =~= vs.map_values(|x: YamlV| x->Str_0));
                Some(w)
            },
            _ => None,
        }
    }
}

/// One step of a task list: the control fields, and every other key of
/// the record in the module bag.
#[derive(Debug)]
pub struct Task {
    name: Option<String>,
    include_vars: Option<String>,
    include_tasks: Option<String>,
    module: Module,
    when: Option<WhenOpts>,
}

impl View for Task {
    type V = TaskV;

    closed spec fn view(&self) -> TaskV {
        TaskV {
            name: opt_view(self.name),
            include_vars: opt_view(self.include_vars),
            include_tasks: opt_view(self.include_tasks),
            module: self.module@,
            when: opt_when_view(self.when),
        }
    }
}

/// Reads an optional string field.
fn text_field_of(n: &Node) -> (r: Option<Option<String>>)
    ensures
        match r {
            Some(o) => text_field(n@) == Some(opt_view(o)),
            None => text_field(n@) is None,
        },
{
    match n {
        Node::Null => Some(None),
        Node::Str(s) => Some(Some(s.clone())),
        _ => None,
    }
}

/// Reads the `when` field.
fn when_field_of(n: &Node) -> (r: Option<Option<WhenOpts>>)
    ensures
        match r {
            Some(o) => when_field(n@) == Some(opt_when_view(o)),
            None => when_field(n@) is None,
        },
{
    match n {
        Node::Null => Some(None),
        _ => match WhenOpts::from_node(n) {
            Some(w) => Some(Some(w)),
            None => None,
        },
    }
}

impl Task {
    /// Reads one task record: a mapping whose control keys are taken by
    /// name and whose other keys go, in order, to the module bag.
    pub fn from_node(n: &Node) -> (r: Option<Task>)
        ensures
            match r {
                Some(t) => task_of(n@) == Some(t@),
                None => task_of(n@) is None,
            },
    {
        let entries = match n {
            Node::Mapping(entries) => entries,
            _ => {
                return None;
            },
        };
        proof {
            lemma_mapping_entries(n);
        }
        let ghost es = n@->Mapping_0;
        let mut task = Task {
            name: None,
            include_vars: None,
            include_tasks: None,
            module: Module::new(),
            when: None,
        };
        let mut i: usize = 0;
        assert(es.subrange(0, 0) =~= Seq::<(YamlV, YamlV)>::empty());
        while i < entries.len()
            invariant
                n@ == YamlV::Mapping(es),
                es.len() == entries@.len(),
                forall|j: int|
                    0 <= j < entries@.len() ==> #[trigger] es[j] == (
                    entries@[j].0@,
                    entries@[j].1@,
                ),
                i <= entries.len(),
                task_fold(es.subrange(0, i as int)) == Some(task@),
            decreases entries.len() - i,
        {
            let ghost before = task@;
            let key = &entries[i].0;
            let value = &entries[i].1;
            assert(es.subrange(0, i + 1).drop_last() =~= es.subrange(0, i as int));
            assert(es.subrange(0, i + 1).last() == es[i as int]);
            let accepted = match key {
                Node::Str(k) => if text_is(k, "name") {
                    match text_field_of(value) {
                        Some(o) => {
                            task.name = o;
                            true
                        },
                        None => false,
                    }
                } else if text_is(k, "include_vars") {
                    match text_field_of(value) {
                        Some(o) => {
                            task.include_vars = o;
                            true
                        },
                        None => false,
                    }
                } else if text_is(k, "include_tasks") {
                    match text_field_of(value) {
                        Some(o) => {
                            task.include_tasks = o;
                            true
                        },
                        None => false,
                    }
                } else if text_is(k, "when") {
                    match when_field_of(value) {
                        Some(o) => {
                            task.when = o;
                            true
                        },
                        None => false,
                    }
                } else {
                    match ModuleValues::from_node(value) {
                        Some(vs) => {
                            task.module.push(k.clone(), vs);
                            true
                        },
                        None => false,
                    }
                },
                _ => false,
            };
            if !accepted {
                proof {
                    lemma_task_fold_rejects(es, i + 1);
                }
                return None;
            }
            assert(task_step(before, es[i as int]) == Some(task@));
            i = i + 1;
        }
        assert(es.subrange(0, entries@.len() as int) =~= es);
        Some(task)
    }

    /// The task's label, if it has one.
    pub fn name(&self) -> (r: Option<&String>)
        ensures
            match r {
                Some(s) => self@.name == Some(s@),
                None => self@.name is None,
            },
    {
        self.name.as_ref()
    }

    /// The file of variables that the task includes, if any.
    pub fn include_vars(&self) -> (r: Option<&String>)
        ensures
            match r {
                Some(s) => self@.include_vars == Some(s@),
                None => self@.include_vars is None,
            },
    {
        self.include_vars.as_ref()
    }

    /// The file of tasks that the task includes, if any.
    pub fn include_tasks(&self) -> (r: Option<&String>)
        ensures
            match r {
                Some(s) => self@.include_tasks == Some(s@),
                None => self@.include_tasks is None,
            },
    {
        self.include_tasks.as_ref()
    }

    /// The task's guard condition, if it has one.
    pub fn when(&self) -> (r: Option<&WhenOpts>)
        ensures
            match r {
                Some(w) => self@.when == Some(w@),
                None => self@.when is None,
            },
    {
        self.when.as_ref()
    }

    /// The module bag: every key of the record that is not a control field.
    pub fn module(&self) -> (r: &Module)
        ensures
            r@ == self@.module,
    {
        &self.module
    }
}

} // verus!
