use anstool::{AnsibleFile, Arguments, FromParseError, Node, Task, WhenOpts};

fn tasks_of(f: &AnsibleFile) -> &Vec<Task> {
    match f {
        AnsibleFile::Tasks(ts) => ts,
        AnsibleFile::Object(_) => panic!("expected a task list"),
    }
}

#[test]
fn scenario_name_module_and_single_when() {
    let f = AnsibleFile::from_str("- name: t\n  mod:\n    k: \"v\"\n  when: c is defined\n").unwrap();
    let ts = tasks_of(&f);
    assert_eq!(ts.len(), 1);
    let t = &ts[0];
    assert_eq!(t.name().map(|s| s.as_str()), Some("t"));
    assert!(matches!(t.when(), Some(WhenOpts::Single(c)) if c == "c is defined"));
    assert_eq!(t.module().len(), 1);
    let m = t.module().get("mod").unwrap();
    assert_eq!(m.len(), 1);
    assert_eq!(m.get("k").map(|s| s.as_str()), Some("v"));
    assert!(t.include_vars().is_none());
    assert!(t.include_tasks().is_none());
}

#[test]
fn flat_module_value_is_rejected() {
    let r = AnsibleFile::from_str("- name: t\n  mod: \"flat-string\"\n");
    assert!(matches!(r, Err(FromParseError::DeserializationError { source: None })));
}

#[test]
fn control_fields_only_leave_module_empty() {
    let f = AnsibleFile::from_str("- name: n\n  include_vars: v.yml\n  when: x\n").unwrap();
    let t = &tasks_of(&f)[0];
    assert_eq!(t.name().map(|s| s.as_str()), Some("n"));
    assert_eq!(t.include_vars().map(|s| s.as_str()), Some("v.yml"));
    assert!(t.include_tasks().is_none());
    assert_eq!(t.module().len(), 0);
}

#[test]
fn include_tasks_only() {
    let f = AnsibleFile::from_str("- include_tasks: \"file.yml\"\n").unwrap();
    let t = &tasks_of(&f)[0];
    assert_eq!(t.include_tasks().map(|s| s.as_str()), Some("file.yml"));
    assert!(t.name().is_none());
    assert!(t.when().is_none());
    assert_eq!(t.module().len(), 0);
}

#[test]
fn when_sequence_keeps_order() {
    let f = AnsibleFile::from_str("- when:\n    - b\n    - a\n    - c\n").unwrap();
    let t = &tasks_of(&f)[0];
    match t.when() {
        Some(WhenOpts::Multiple(gs)) => assert_eq!(gs, &vec!["b".to_string(), "a".to_string(), "c".to_string()]),
        _ => panic!("expected several guards"),
    }
}

#[test]
fn when_number_is_rejected() {
    let r = AnsibleFile::from_str("- when: 5\n");
    assert!(matches!(r, Err(FromParseError::DeserializationError { source: None })));
}

#[test]
fn when_mapping_is_rejected() {
    let r = AnsibleFile::from_str("- when:\n    a: b\n");
    assert!(r.is_err());
}

#[test]
fn include_tasks_must_be_a_string() {
    let r = AnsibleFile::from_str("- include_tasks:\n    - a\n");
    assert!(matches!(r, Err(FromParseError::DeserializationError { source: None })));
}

#[test]
fn task_list_keeps_length_and_order() {
    let f = AnsibleFile::from_str("- name: one\n- name: two\n- name: three\n").unwrap();
    let ts = tasks_of(&f);
    assert_eq!(ts.len(), 3);
    let names: Vec<&str> = ts.iter().map(|t| t.name().unwrap().as_str()).collect();
    assert_eq!(names, vec!["one", "two", "three"]);
}

#[test]
fn mapping_of_documents_is_grouping() {
    let text = "role_a:\n  - name: a\nrole_b:\n  inner:\n    - name: b\n";
    let f = AnsibleFile::from_str(text).unwrap();
    match f {
        AnsibleFile::Object(es) => {
            assert_eq!(es.len(), 2);
            assert_eq!(es[0].0, "role_a");
            assert_eq!(tasks_of(&es[0].1).len(), 1);
            assert_eq!(es[1].0, "role_b");
            match &es[1].1 {
                AnsibleFile::Object(inner) => {
                    assert_eq!(inner[0].0, "inner");
                    assert_eq!(tasks_of(&inner[0].1)[0].name().unwrap(), "b");
                }
                _ => panic!("expected a nested grouping"),
            }
        }
        _ => panic!("expected a grouping"),
    }
}

#[test]
fn mapping_of_scalars_is_rejected() {
    let r = AnsibleFile::from_str("a: 1\nb: text\n");
    assert!(matches!(r, Err(FromParseError::DeserializationError { source: None })));
}

#[test]
fn scalar_document_is_rejected() {
    let r = AnsibleFile::from_str("just text\n");
    assert!(matches!(r, Err(FromParseError::DeserializationError { source: None })));
}

#[test]
fn text_that_is_not_yaml_is_rejected() {
    let r = AnsibleFile::from_str("- [unclosed\n");
    assert!(matches!(r, Err(FromParseError::DeserializationError { source: Some(_) })));
}

#[test]
fn empty_task_list() {
    let f = AnsibleFile::from_str("[]\n").unwrap();
    assert_eq!(tasks_of(&f).len(), 0);
}

#[test]
fn null_control_fields_are_absent() {
    let f = AnsibleFile::from_str("- name: ~\n  when: null\n").unwrap();
    let t = &tasks_of(&f)[0];
    assert!(t.name().is_none());
    assert!(t.when().is_none());
}

#[test]
fn module_scalars_are_coerced_to_text() {
    let f = AnsibleFile::from_str("- cmd:\n    count: 3\n    force: true\n").unwrap();
    let m = tasks_of(&f)[0].module().get("cmd").unwrap();
    assert_eq!(m.get("count").map(|s| s.as_str()), Some("3"));
    assert_eq!(m.get("force").map(|s| s.as_str()), Some("true"));
}

#[test]
fn module_null_value_is_rejected() {
    let r = AnsibleFile::from_str("- cmd:\n    k: ~\n");
    assert!(r.is_err());
}

#[test]
fn from_node_resolves_task_list() {
    let task = Node::Mapping(vec![
        (Node::Str("name".to_string()), Node::Str("t".to_string())),
        (Node::Str("when".to_string()), Node::List(vec![Node::Str("x".to_string())])),
    ]);
    let f = AnsibleFile::from_node(&Node::List(vec![task])).unwrap();
    let t = &tasks_of(&f)[0];
    assert_eq!(t.name().unwrap(), "t");
    assert!(matches!(t.when(), Some(WhenOpts::Multiple(gs)) if gs.len() == 1 && gs[0] == "x"));
}

#[test]
fn from_node_rejects_non_string_key() {
    let task = Node::Mapping(vec![(Node::Number("1".to_string()), Node::Null)]);
    assert!(Task::from_node(&task).is_none());
    let group = Node::Mapping(vec![(Node::Bool(true), Node::List(vec![]))]);
    assert!(AnsibleFile::from_node(&group).is_none());
}

#[test]
fn arguments_hold_input_path() {
    let a = Arguments::new("play.yml".to_string());
    assert_eq!(a.get_input(), "play.yml");
}
