use crate::node::{lemma_list_items, lemma_mapping_entries, Node, YamlV};
use crate::task::{task_of, Task, TaskV};
use crate::yaml::{load_yaml, yaml_of};
use vstd::prelude::*;

verus! {

/// A parsed playbook file, as a value.
pub enum FileV {
    /// Tasks in execution order.
    Tasks(Seq<TaskV>),
    /// Named sub-documents, in document order.
    Object(Seq<(Seq<char>, FileV)>),
}

/// The document that a node holds, shapes tried in order: a sequence whose
/// every item is a task record is a task list; else a mapping from string
/// keys to documents is a grouping; nothing else is a document.
pub open spec fn doc_of(v: YamlV) -> Option<FileV>
    decreases v,
{
    match v {
        YamlV::List(items) => if forall|i: int|
            0 <= i < items.len() ==> #[trigger] task_of(items[i]) is Some {
            Some(FileV::Tasks(items.map_values(|x: YamlV| task_of(x)->Some_0)))
        } else {
            None
        },
        YamlV::Mapping(es) => if forall|i: int|
            0 <= i < es.len() ==> (#[trigger] es[i]).0 is Str && doc_of(es[i].1) is Some {
            Some(
                FileV::Object(
                    Seq::new(
                        es.len(),
                        |i: int|
                            if 0 <= i < es.len() {
                                (es[i].0->Str_0, doc_of(es[i].1)->Some_0)
                            } else {
                                (Seq::empty(), FileV::Tasks(Seq::empty()))
                            },
                    ),
                ),
            )
        } else {
            None
        },
        _ => None,
    }
}

/// Why a playbook file could not be read.
#[derive(Debug)]
#[allow(inconsistent_fields)]
pub enum FromParseError {
    /// The file could not be opened or read.
    IoError { source: std::io::Error },
    /// The text is not a playbook document: `source` holds serde_yaml's error
    /// where the text is not YAML, and is `None` where it is YAML of no
    /// document shape.
    DeserializationError { source: Option<serde_yaml::Error> },
}

/// A parsed playbook file: a list of tasks, or named sub-documents.
#[derive(Debug)]
pub enum AnsibleFile {
    Tasks(Vec<Task>),
    Object(Vec<(String, AnsibleFile)>),
}

impl View for AnsibleFile {
    type V = FileV;

    open spec fn view(&self) -> FileV
        decreases self,
    {
        match self {
            AnsibleFile::Tasks(ts) => FileV::Tasks(ts@.map_values(|t: Task| t@)),
            AnsibleFile::Object(es) => FileV::Object(
                Seq::new(
                    es@.len(),
                    |i: int|
                        if 0 <= i < es@.len() {
                            (es@[i].0@, es@[i].1.view())
                        } else {
                            (Seq::empty(), FileV::Tasks(Seq::empty()))
                        },
                ),
            ),
        }
    }
}

/// The entries of a grouping, as views.
pub proof fn lemma_object_entries(f: &AnsibleFile)
    requires
        f is Object,
    ensures
        f@ is Object,
        f@->Object_0.len() == f->Object_0@.len(),
        forall|i: int|
            0 <= i < f->Object_0@.len() ==> #[trigger] f@->Object_0[i] == (
            f->Object_0@[i].0@,
            f->Object_0@[i].1@,
        ),
{
    reveal_with_fuel(<AnsibleFile as View>::view, 2);
}

impl AnsibleFile {
    /// Resolves the shape of a document node: a task list if it is a
    /// sequence of task records, else a grouping if it is a mapping from
    /// strings to documents; `None` if it is neither.
    pub fn from_node(n: &Node) -> (r: Option<AnsibleFile>)
        ensures
            match r {
                Some(f) => doc_of(n@) == Some(f@),
                None => doc_of(n@) is None,
            },
        decreases n,
    {
        match n {
            Node::List(items) => {
                proof {
                    lemma_list_items(n);
                }
                let ghost vs = n@->List_0;
                let mut tasks: Vec<Task> = Vec::new();
                let mut i: usize = 0;
                while i < items.len()
                    invariant
                        n@ == YamlV::List(vs),
                        vs.len() == items@.len(),
                        forall|j: int| 0 <= j < items@.len() ==> #[trigger] vs[j] == items@[j]@,
                        i <= items.len(),
                        tasks@.len() == i,
                        forall|j: int|
                            0 <= j < i ==> task_of(#[trigger] vs[j]) == Some(tasks@[j]@),
                    decreases items.len() - i,
                {
                    match Task::from_node(&items[i]) {
                        Some(t) => {
                            tasks.push(t);
                        },
                        None => {
                            assert(task_of(vs[i as int]) is None);
                            return None;
                        },
                    }
                    i = i + 1;
                }
                let f = AnsibleFile::Tasks(tasks);
                assert(f@->Tasks_0 =~= vs.map_values(|x: YamlV| task_of(x)->Some_0));
                assert(doc_of(n@) == Some(f@));
                Some(f)
            },
            Node::Mapping(entries) => {
                proof {
                    lemma_mapping_entries(n);
                }
                let ghost es = n@->Mapping_0;
                let mut out: Vec<(String, AnsibleFile)> = Vec::new();
                let mut i: usize = 0;
                while i < entries.len()
                    invariant
                        n@ == YamlV::Mapping(es),
                        *n == Node::Mapping(*entries),
                        es.len() == entries@.len(),
                        forall|j: int|
                            0 <= j < entries@.len() ==> #[trigger] es[j] == (
                            entries@[j].0@,
                            entries@[j].1@,
                        ),
                        i <= entries.len(),
                        out@.len() == i,
                        forall|j: int|
                            0 <= j < i ==> (#[trigger] es[j]).0 is Str && doc_of(es[j].1) == Some(
                                out@[j].1@,
                            ) && es[j].0->Str_0 == out@[j].0@,
                    decreases entries.len() - i,
                {
                    let key = match &entries[i].0 {
                        Node::Str(k) => k.clone(),
                        _ => {
                            assert(!(es[i as int].0 is Str));
                            return None;
                        },
                    };
                    match AnsibleFile::from_node(&entries[i].1) {
                        Some(d) => {
                            out.push((key, d));
                        },
                        None => {
                            assert(doc_of(es[i as int].1) is None);
                            return None;
                        },
                    }
                    i = i + 1;
                }
                let f = AnsibleFile::Object(out);
                proof {
                    lemma_object_entries(&f);
                }
                assert(doc_of(n@) is Some);
                assert(f@->Object_0 =~= doc_of(n@)->Some_0->Object_0);
                Some(f)
            },
            _ => None,
        }
    }

    /// Parses the text of a playbook file: YAML first, then the document
    /// shape of its tree.
    pub fn from_str(s: &str) -> (r: Result<AnsibleFile, FromParseError>)
        ensures
            match yaml_of(s@) {
                None => r matches Err(FromParseError::DeserializationError { source: Some(_) }),
                Some(v) => match doc_of(v) {
                    Some(d) => r matches Ok(f) && f@ == d,
                    None => r matches Err(FromParseError::DeserializationError { source: None }),
                },
            },
    {
        match load_yaml(s) {
            Ok(n) => match AnsibleFile::from_node(&n) {
                Some(f) => Ok(f),
                None => Err(FromParseError::DeserializationError { source: None }),
            },
            Err(e) => Err(FromParseError::DeserializationError { source: Some(e) }),
        }
    }
}

} // verus!
