use anstool::AnsibleFile;

#[test]
fn test_single_task_deserialize() {
    let s = r#"
---
- name: Test task
  module_name:
    test: "Test string"
"#;
    let _ = AnsibleFile::from_str(s).unwrap();
}

#[test]
fn test_single_task_include_vars_deserialize() {
    let s = r#"
---
- name: Test task
  include_vars: file.yml
  module_name:
    test: "Test string"
  when: test is not defined
"#;
    let _ = AnsibleFile::from_str(s).unwrap();
}

#[test]
fn test_single_task_include_tasks_deserialize() {
    let s = r#"
---
- name: Test task
  include_tasks: file.yml
"#;
    let _ = AnsibleFile::from_str(s).unwrap();
}

#[test]
fn test_single_task_include_tasks_single_when_deserialize() {
    let s = r#"
---
- name: Test task
  include_tasks: file.yml
  when: condition is not true
"#;
    let _ = AnsibleFile::from_str(s).unwrap();
}

#[test]
fn test_single_task_include_tasks_multiple_when_deserialize() {
    let s = r#"
---
- name: Test task
  include_tasks: file.yml
  when:
    - condition_1 is not true
    - condition_2 is not true
"#;
    let _ = AnsibleFile::from_str(s).unwrap();
}

#[test]
fn test_single_task_single_when_deserialize() {
    let s = r#"
---
- name: Test task
  module_name:
    test: "Test string"
  when: test is not defined
"#;
    let _ = AnsibleFile::from_str(s).unwrap();
}

#[test]
fn test_single_task_multiple_when_deserialize() {
    let s = r#"
---
- name: Test task
  module_name:
    test: "Test string"
  when:
    - test is not defined
    - condition 2 is not true
"#;
    let _ = AnsibleFile::from_str(s).unwrap();
}

#[test]
fn test_multiple_tasks_deserialize() {
    let s = r#"
---
- name: test task 1
  module_name:
    test_1: "test string 1"
  when: test_1 is not defined

- name: test task 2
  module_name:
    test_2: "test string 2"
  when: test_2 is not defined
"#;
    let _ = AnsibleFile::from_str(s).unwrap();
}
