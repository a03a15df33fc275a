use triggers_frontend::workflow::WorkflowInfo;
use triggers_frontend::workflow::add_workflows;
use triggers_frontend::workflow::find_element_index;
use triggers_frontend::workflow::remove_matching_workflow;
use triggers_frontend::workflow::remove_workflows;

fn wf(name: &str, url: &str) -> WorkflowInfo {
    WorkflowInfo {
        workflow_name: name.to_string(),
        workflow_url: url.to_string(),
        workflow_state: String::new(),
    }
}

fn names(ws: &Vec<WorkflowInfo>) -> Vec<String> {
    ws.iter().map(|w| w.workflow_name.clone()).collect()
}

#[test]
fn find_element_index_matches_url_and_name() {
    let list = vec![wf("a", "http://x"), wf("b", "http://y"), wf("a", "http://y")];
    assert_eq!(find_element_index(&wf("b", "http://y"), &list), 1);
    // Same name, different URL: no match at index 0.
    assert_eq!(find_element_index(&wf("a", "http://y"), &list), 2);
    assert_eq!(find_element_index(&wf("c", "http://x"), &list), -1);
}

#[test]
fn add_then_remove_same_pair_restores_list() {
    let before = vec![wf("a", "http://x"), wf("b", "http://y")];
    let mut list = before.clone();
    let new_wf = vec![wf("c", "http://z")];
    add_workflows(&mut list, &new_wf);
    assert_eq!(list.len(), 3);
    remove_workflows(&mut list, &new_wf);
    assert_eq!(names(&list), names(&before));
    for (got, want) in list.iter().zip(before.iter()) {
        assert_eq!(got.workflow_url, want.workflow_url);
        assert_eq!(got.workflow_name, want.workflow_name);
    }
}

#[test]
fn add_deduplicates_by_url_and_name() {
    let mut list = vec![wf("a", "http://x"), wf("b", "http://y")];
    // Re-adding an existing pair replaces it: the list does not grow.
    add_workflows(&mut list, &vec![wf("a", "http://x")]);
    assert_eq!(list.len(), 2);
    assert_eq!(names(&list), vec!["b".to_string(), "a".to_string()]);
}

#[test]
fn remove_takes_first_match_only() {
    let mut list = vec![wf("a", "http://x"), wf("a", "http://x"), wf("b", "http://y")];
    remove_matching_workflow(&mut list, &wf("a", "http://x"));
    assert_eq!(names(&list), vec!["a".to_string(), "b".to_string()]);
}

#[test]
fn remove_of_absent_pair_changes_nothing() {
    let mut list = vec![wf("a", "http://x")];
    remove_workflows(&mut list, &vec![wf("zz", "http://zz")]);
    assert_eq!(list.len(), 1);
    assert_eq!(list[0].workflow_name, "a");
}

#[test]
fn operations_on_empty_list() {
    let mut list: Vec<WorkflowInfo> = Vec::new();
    remove_workflows(&mut list, &vec![wf("a", "http://x")]);
    assert!(list.is_empty());
    add_workflows(&mut list, &vec![wf("a", "http://x")]);
    assert_eq!(list.len(), 1);
}
