use vegafusion::comm::{
    render_vegafusion, same_variable, CommPlan, ListenerKind, MsgReceiver, NodeValueIndex,
    ResponseValue, ScopedVariable, SpecUpdate, TaskGraphMapping, TaskValueKind, Variable, VariableNamespace,
    ViewAction,
};

fn var(name: &str, namespace: VariableNamespace, scope: Vec<u32>) -> ScopedVariable {
    ScopedVariable { variable: Variable { name: name.to_string(), namespace }, scope }
}

fn idx(node_index: u32) -> NodeValueIndex {
    NodeValueIndex { node_index, output_index: None }
}

fn plan_and_mapping() -> (CommPlan, TaskGraphMapping) {
    let plan = CommPlan {
        server_to_client: vec![var("data_0", VariableNamespace::Data, vec![]), var("width", VariableNamespace::Signal, vec![1])],
        client_to_server: vec![var("brush", VariableNamespace::Signal, vec![]), var("points", VariableNamespace::Data, vec![0])],
    };
    let mapping = TaskGraphMapping {
        entries: vec![
            (var("width", VariableNamespace::Signal, vec![]), idx(9)),
            (var("width", VariableNamespace::Signal, vec![1]), idx(4)),
            (var("data_0", VariableNamespace::Data, vec![]), idx(2)),
            (var("brush", VariableNamespace::Signal, vec![]), idx(7)),
            (var("points", VariableNamespace::Data, vec![0]), NodeValueIndex { node_index: 5, output_index: Some(1) }),
            (var("data_0", VariableNamespace::Data, vec![]), idx(99)),
        ],
    };
    (plan, mapping)
}

fn receiver() -> MsgReceiver {
    let (plan, mapping) = plan_and_mapping();
    MsgReceiver::new("chart", plan, mapping)
}

#[test]
fn render_requests_initial_values() {
    let (plan, mapping) = plan_and_mapping();
    let (r, request) = render_vegafusion("vis", plan, mapping);
    assert_eq!(r.element_id, "vis");
    assert_eq!(request, vec![idx(2), idx(4)]);
    assert_eq!(r.comm_plan.client_to_server.len(), 2);
}

#[test]
fn same_variable_compares_all_parts() {
    assert!(same_variable(&var("a", VariableNamespace::Signal, vec![1, 2]), &var("a", VariableNamespace::Signal, vec![1, 2])));
    assert!(!same_variable(&var("a", VariableNamespace::Signal, vec![1, 2]), &var("a", VariableNamespace::Signal, vec![1])));
    assert!(!same_variable(&var("a", VariableNamespace::Signal, vec![]), &var("a", VariableNamespace::Data, vec![])));
    assert!(!same_variable(&var("a", VariableNamespace::Signal, vec![]), &var("b", VariableNamespace::Signal, vec![])));
}

#[test]
fn mapping_uses_first_entry() {
    let r = receiver();
    assert_eq!(r.task_graph_mapping.get(&var("data_0", VariableNamespace::Data, vec![])), Some(idx(2)));
    assert_eq!(r.task_graph_mapping.get(&var("nothing", VariableNamespace::Data, vec![])), None);
}

#[test]
fn initial_request_is_server_to_client() {
    let r = receiver();
    assert_eq!(r.element_id, "chart");
    assert_eq!(r.server_to_client_value_indices, vec![idx(2), idx(4)]);
    assert_eq!(r.initial_node_value_indices(), vec![idx(2), idx(4)]);
}

#[test]
fn listeners_follow_namespaces() {
    let listeners = receiver().listeners();
    assert_eq!(listeners.len(), 2);
    assert_eq!(listeners[0].kind, ListenerKind::Signal);
    assert_eq!(listeners[0].name, "brush");
    assert_eq!(listeners[0].node_value_index, idx(7));
    assert_eq!(listeners[1].kind, ListenerKind::Data);
    assert_eq!(listeners[1].name, "points");
    assert_eq!(listeners[1].node_value_index, NodeValueIndex { node_index: 5, output_index: Some(1) });
}

#[test]
fn only_server_to_client_updates_are_requested() {
    let r = receiver();
    let updated = vec![idx(7), idx(4), idx(3), idx(2), idx(4)];
    assert_eq!(r.requested_indices(&updated), vec![idx(4), idx(2), idx(4)]);
    assert!(r.requested_indices(&vec![]).is_empty());
    let again = r.requested_indices(&r.requested_indices(&updated));
    assert_eq!(again, vec![idx(4), idx(2), idx(4)]);
}

#[test]
fn received_values_become_view_actions() {
    let values = vec![
        ResponseValue { name: "width".to_string(), scope: vec![1], kind: TaskValueKind::Scalar },
        ResponseValue { name: "data_0".to_string(), scope: vec![], kind: TaskValueKind::Table },
    ];
    let actions = receiver().receive(&Some(values));
    assert_eq!(actions.len(), 3);
    assert!(matches!(&actions[0], ViewAction::SetSignal { name, value: 0 } if name == "width"));
    assert!(matches!(&actions[1], ViewAction::SetData { name, value: 1 } if name == "data_0"));
    assert!(matches!(&actions[2], ViewAction::Run));
    let actions = receiver().receive(&Some(vec![]));
    assert!(matches!(actions.as_slice(), [ViewAction::Run]));
}

#[test]
fn message_without_response_does_nothing() {
    assert!(receiver().receive(&None).is_empty());
}

#[test]
fn first_values_update_the_spec() {
    let values = vec![
        ResponseValue { name: "width".to_string(), scope: vec![1, 0], kind: TaskValueKind::Scalar },
        ResponseValue { name: "data_0".to_string(), scope: vec![], kind: TaskValueKind::Table },
    ];
    let updates = receiver().init_spec(&values);
    assert_eq!(updates.len(), 2);
    assert!(matches!(&updates[0], SpecUpdate::SetSignalValue { scope, name, value: 0 } if name == "width" && scope == &vec![1, 0]));
    assert!(matches!(&updates[1], SpecUpdate::SetDataValues { scope, name, value: 1 } if name == "data_0" && scope.is_empty()));
    assert!(receiver().init_spec(&vec![]).is_empty());
}
