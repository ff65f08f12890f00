use crate::ansiblefile::doc_of;
use crate::module::{values_of, ModuleV, ValuesV};
use crate::node::YamlV;
use crate::task::{is_control_key, task_fold, task_of, text_field, when_field, TaskV, WhenV};
use vstd::prelude::*;

verus! {

/// The value of the last entry of `es` whose key is the string `k`.
pub open spec fn last_value(es: Seq<(YamlV, YamlV)>, k: Seq<char>) -> Option<YamlV>
    decreases es.len(),
{
    if es.len() == 0 {
        None
    } else if es.last().0 == YamlV::Str(k) {
        Some(es.last().1)
    } else {
        last_value(es.drop_last(), k)
    }
}

/// The string field `k` as a record `es` states it: absent where no entry
/// has that key.
pub open spec fn text_value(es: Seq<(YamlV, YamlV)>, k: Seq<char>) -> Option<Seq<char>> {
    match last_value(es, k) {
        Some(v) => text_field(v)->Some_0,
        None => None,
    }
}

/// The condition as a record `es` states it.
pub open spec fn when_value(es: Seq<(YamlV, YamlV)>) -> Option<WhenV> {
    match last_value(es, "when"@) {
        Some(v) => when_field(v)->Some_0,
        None => None,
    }
}

/// An entry with a control key and a value of that key's shape.
pub open spec fn control_entry_ok(e: (YamlV, YamlV)) -> bool {
    &&& e.0 is Str
    &&& is_control_key(e.0->Str_0)
    &&& if e.0->Str_0 == "when"@ {
        when_field(e.1) is Some
    } else {
        text_field(e.1) is Some
    }
}

proof fn lemma_control_keys_differ()
    ensures
        "name"@ != "include_vars"@,
        "name"@ != "include_tasks"@,
        "name"@ != "when"@,
        "include_vars"@ != "include_tasks"@,
        "include_vars"@ != "when"@,
        "include_tasks"@ != "when"@,
{
    reveal_strlit("name");
    reveal_strlit("include_vars");
    reveal_strlit("include_tasks");
    reveal_strlit("when");
    assert("name"@[0] != "include_vars"@[0]);
    assert("name"@[0] != "include_tasks"@[0]);
    assert("name"@[0] != "when"@[0]);
    assert("include_vars"@[8] != "include_tasks"@[8]);
    assert("include_vars"@[0] != "when"@[0]);
    assert("include_tasks"@[0] != "when"@[0]);
}

/// Every control field of an accepted task record is the value of the last
/// entry with its key, and absent where the record has no such entry.
pub proof fn lemma_task_fields(es: Seq<(YamlV, YamlV)>)
    requires
        task_fold(es) is Some,
    ensures
        task_fold(es)->Some_0.name == text_value(es, "name"@),
        task_fold(es)->Some_0.include_vars == text_value(es, "include_vars"@),
        task_fold(es)->Some_0.include_tasks == text_value(es, "include_tasks"@),
        task_fold(es)->Some_0.when == when_value(es),
    decreases es.len(),
{
    lemma_control_keys_differ();
    if es.len() > 0 {
        lemma_task_fields(es.drop_last());
    }
}

/// A task record whose keys are all control keys, each with a value of its
/// shape, is accepted: its fields are the values it states and its module
/// bag is empty.
pub proof fn lemma_control_only_record(es: Seq<(YamlV, YamlV)>)
    requires
        forall|i: int| 0 <= i < es.len() ==> control_entry_ok(#[trigger] es[i]),
    ensures
        task_of(YamlV::Mapping(es)) is Some,
        task_of(YamlV::Mapping(es))->Some_0 == (TaskV {
            name: text_value(es, "name"@),
            include_vars: text_value(es, "include_vars"@),
            include_tasks: text_value(es, "include_tasks"@),
            module: Seq::empty(),
            when: when_value(es),
        }),
    decreases es.len(),
{
    lemma_control_keys_differ();
    if es.len() > 0 {
        let init = es.drop_last();
        assert forall|i: int| 0 <= i < init.len() implies control_entry_ok(#[trigger] init[i]) by {
            assert(init[i] == es[i]);
        }
        lemma_control_only_record(init);
        assert(control_entry_ok(es[es.len() - 1]));
    }
    lemma_task_fields(es);
}

/// The module bag of an accepted task record never holds a control key:
/// control fields and module entries are disjoint.
pub proof fn lemma_module_keys_not_control(es: Seq<(YamlV, YamlV)>)
    requires
        task_fold(es) is Some,
    ensures
        forall|i: int|
            0 <= i < task_fold(es)->Some_0.module.len() ==> !is_control_key(
                #[trigger] task_fold(es)->Some_0.module[i].0,
            ),
    decreases es.len(),
{
    if es.len() > 0 {
        lemma_module_keys_not_control(es.drop_last());
    }
}

/// A record whose only key is `include_tasks`, holding a file name, is a
/// task that includes that file, with nothing else set and an empty module
/// bag.
pub proof fn lemma_include_tasks_record(file: Seq<char>)
    ensures
        task_of(YamlV::Mapping(seq![(YamlV::Str("include_tasks"@), YamlV::Str(file))]))
            == Some(TaskV {
            name: None,
            include_vars: None,
            include_tasks: Some(file),
            module: Seq::empty(),
            when: None,
        }),
{
    let es = seq![(YamlV::Str("include_tasks"@), YamlV::Str(file))];
    lemma_control_keys_differ();
    assert(es.drop_last() =~= Seq::<(YamlV, YamlV)>::empty());
    assert(control_entry_ok(es[0]));
    lemma_control_only_record(es);
    assert(es.last() == es[0]);
    assert(last_value(es.drop_last(), "name"@) is None);
    assert(last_value(es, "name"@) is None);
    assert(last_value(es.drop_last(), "include_vars"@) is None);
    assert(last_value(es, "include_vars"@) is None);
    assert(last_value(es.drop_last(), "when"@) is None);
    assert(last_value(es, "when"@) is None);
}

/// In any accepted task record, a `when` holding a string is that one
/// guard, and a `when` holding a sequence of strings is those guards in
/// the same order.
pub proof fn lemma_when_in_record(
    es: Seq<(YamlV, YamlV)>,
    guard: Seq<char>,
    guards: Seq<Seq<char>>,
)
    requires
        task_of(YamlV::Mapping(es)) is Some,
    ensures
        last_value(es, "when"@) == Some(YamlV::Str(guard)) ==> task_of(
            YamlV::Mapping(es),
        )->Some_0.when == Some(WhenV::Single(guard)),
        last_value(es, "when"@) == Some(
            YamlV::List(guards.map_values(|g: Seq<char>| YamlV::Str(g))),
        ) ==> task_of(YamlV::Mapping(es))->Some_0.when == Some(WhenV::Multiple(guards)),
{
    lemma_task_fields(es);
    let items = guards.map_values(|g: Seq<char>| YamlV::Str(g));
    assert(items.map_values(|x: YamlV| x->Str_0) =~= guards);
    assert(forall|i: int| 0 <= i < items.len() ==> #[trigger] items[i] is Str);
}

/// A sequence whose every item is a task record is a task list with one
/// task per item, in the same order.
pub proof fn lemma_sequence_is_task_list(items: Seq<YamlV>)
    requires
        forall|i: int| 0 <= i < items.len() ==> #[trigger] task_of(items[i]) is Some,
    ensures
        doc_of(YamlV::List(items)) is Some,
        doc_of(YamlV::List(items))->Some_0 is Tasks,
        doc_of(YamlV::List(items))->Some_0->Tasks_0.len() == items.len(),
        forall|i: int|
            0 <= i < items.len() ==> doc_of(YamlV::List(items))->Some_0->Tasks_0[i] == task_of(
                #[trigger] items[i],
            )->Some_0,
{
}

/// A mapping from string keys to documents is a grouping of those
/// documents under those names, in the same order.
pub proof fn lemma_mapping_is_grouping(es: Seq<(YamlV, YamlV)>)
    requires
        forall|i: int|
            0 <= i < es.len() ==> (#[trigger] es[i]).0 is Str && doc_of(es[i].1) is Some,
    ensures
        doc_of(YamlV::Mapping(es)) is Some,
        doc_of(YamlV::Mapping(es))->Some_0 is Object,
        doc_of(YamlV::Mapping(es))->Some_0->Object_0.len() == es.len(),
        forall|i: int|
            0 <= i < es.len() ==> doc_of(YamlV::Mapping(es))->Some_0->Object_0[i] == (
                (#[trigger] es[i]).0->Str_0,
                doc_of(es[i].1)->Some_0,
            ),
{
}

/// A mapping with a scalar among its values is no document: a scalar is
/// neither a task list nor a grouping.
pub proof fn lemma_scalar_value_rejects_grouping(es: Seq<(YamlV, YamlV)>, i: int)
    requires
        0 <= i < es.len(),
        es[i].1 is Null || es[i].1 is Bool || es[i].1 is Number || es[i].1 is Str,
    ensures
        doc_of(YamlV::Mapping(es)) is None,
{
    assert(doc_of(es[i].1) is None);
}

/// The node of an optional string field: the string, or null.
pub open spec fn text_node(o: Option<Seq<char>>) -> YamlV {
    match o {
        Some(s) => YamlV::Str(s),
        None => YamlV::Null,
    }
}

/// The node of a condition: a string, a sequence of strings, or null.
pub open spec fn when_node(o: Option<WhenV>) -> YamlV {
    match o {
        Some(WhenV::Single(s)) => YamlV::Str(s),
        Some(WhenV::Multiple(gs)) => YamlV::List(gs.map_values(|g: Seq<char>| YamlV::Str(g))),
        None => YamlV::Null,
    }
}

/// The node of a module's parameters: a mapping of strings to strings.
pub open spec fn values_node(vs: ValuesV) -> YamlV {
    YamlV::Mapping(
        vs.map_values(|e: (Seq<char>, Seq<char>)| (YamlV::Str(e.0), YamlV::Str(e.1))),
    )
}

/// The record entries of a module bag.
pub open spec fn module_entries(m: ModuleV) -> Seq<(YamlV, YamlV)> {
    m.map_values(|e: (Seq<char>, ValuesV)| (YamlV::Str(e.0), values_node(e.1)))
}

/// The control entries of a task record written out from `t`.
pub open spec fn control_entries(t: TaskV) -> Seq<(YamlV, YamlV)> {
    seq![
        (YamlV::Str("name"@), text_node(t.name)),
        (YamlV::Str("include_vars"@), text_node(t.include_vars)),
        (YamlV::Str("include_tasks"@), text_node(t.include_tasks)),
        (YamlV::Str("when"@), when_node(t.when)),
    ]
}

/// The task record that writes out the fields of `t`.
pub open spec fn task_record(t: TaskV) -> YamlV {
    YamlV::Mapping(control_entries(t) + module_entries(t.module))
}

proof fn lemma_control_entries_fold(t: TaskV)
    ensures
        task_fold(control_entries(t)) == Some(TaskV { module: Seq::empty(), ..t }),
{
    let c = control_entries(t);
    lemma_control_keys_differ();
    if let Some(WhenV::Multiple(gs)) = t.when {
        let items = gs.map_values(|g: Seq<char>| YamlV::Str(g));
        assert(items.map_values(|x: YamlV| x->Str_0) =~= gs);
        assert(forall|i: int| 0 <= i < items.len() ==> #[trigger] items[i] is Str);
    }
    assert forall|i: int| 0 <= i < c.len() implies control_entry_ok(#[trigger] c[i]) by {}
    lemma_control_only_record(c);
    let c3 = c.drop_last();
    let c2 = c3.drop_last();
    let c1 = c2.drop_last();
    assert(c1.drop_last() =~= Seq::<(YamlV, YamlV)>::empty());
    assert(c3 =~= c.take(3));
    assert(c2 =~= c.take(2));
    assert(c1 =~= c.take(1));
    assert(last_value(c1.drop_last(), "name"@) is None);
    assert(last_value(c1.drop_last(), "include_vars"@) is None);
    assert(last_value(c1.drop_last(), "include_tasks"@) is None);
    assert(last_value(c1, "include_vars"@) is None);
    assert(last_value(c1, "include_tasks"@) is None);
    assert(last_value(c2, "include_tasks"@) is None);
    assert(c1.last() == c[0]);
    assert(c2.last() == c[1]);
    assert(c3.last() == c[2]);
    assert(last_value(c1, "name"@) == Some(text_node(t.name)));
    assert(last_value(c2, "name"@) == Some(text_node(t.name)));
    assert(last_value(c3, "name"@) == Some(text_node(t.name)));
    assert(last_value(c, "name"@) == Some(text_node(t.name)));
    assert(last_value(c2, "include_vars"@) == Some(text_node(t.include_vars)));
    assert(last_value(c3, "include_vars"@) == Some(text_node(t.include_vars)));
    assert(last_value(c, "include_vars"@) == Some(text_node(t.include_vars)));
    assert(last_value(c3, "include_tasks"@) == Some(text_node(t.include_tasks)));
    assert(last_value(c, "include_tasks"@) == Some(text_node(t.include_tasks)));
}

proof fn lemma_module_prefix_fold(t: TaskV, j: int)
    requires
        0 <= j <= t.module.len(),
        forall|i: int| 0 <= i < t.module.len() ==> !is_control_key(#[trigger] t.module[i].0),
    ensures
        task_fold(control_entries(t) + module_entries(t.module).take(j)) == Some(
            TaskV { module: t.module.take(j), ..t },
        ),
    decreases j,
{
    let c = control_entries(t);
    let m = module_entries(t.module);
    if j == 0 {
        lemma_control_entries_fold(t);
        assert(c + m.take(0) =~= c);
        assert(t.module.take(0) =~= Seq::<(Seq<char>, ValuesV)>::empty());
    } else {
        lemma_module_prefix_fold(t, j - 1);
        let vs = t.module[j - 1].1;
        let ves = vs.map_values(|e: (Seq<char>, Seq<char>)| (YamlV::Str(e.0), YamlV::Str(e.1)));
        assert(ves.map_values(
            |e: (YamlV, YamlV)| (e.0->Str_0, crate::node::scalar_text(e.1)->Some_0),
        ) =~= vs);
        assert(forall|i: int|
            0 <= i < ves.len() ==> crate::module::value_entry_ok(#[trigger] ves[i]));
        assert(values_of(values_node(vs)) == Some(vs));
        assert((c + m.take(j)).drop_last() =~= c + m.take(j - 1));
        assert((c + m.take(j)).last() == m[j - 1]);
        assert(!is_control_key(t.module[j - 1].0));
        assert(t.module.take(j - 1).push(t.module[j - 1]) =~= t.module.take(j));
    }
}

/// Writing out the fields of a task as a record and reading that record
/// back gives the same task, field for field, whenever no module of the
/// task is named like a control field (as in every task that was read from
/// a record).
pub proof fn lemma_task_record_round_trip(t: TaskV)
    requires
        forall|i: int| 0 <= i < t.module.len() ==> !is_control_key(#[trigger] t.module[i].0),
    ensures
        task_of(task_record(t)) == Some(t),
{
    let m = module_entries(t.module);
    lemma_module_prefix_fold(t, t.module.len() as int);
    assert(m.take(m.len() as int) =~= m);
    assert(t.module.take(t.module.len() as int) =~= t.module);
}

} // verus!
