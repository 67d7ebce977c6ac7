//! Decisions of the chart driver that talks to the VegaFusion runtime.
//!
//! The driver keeps a communication plan: the variables whose values the
//! runtime sends to the chart (server to client) and the variables whose
//! changes the chart reports (client to server).  A task-graph mapping gives
//! each variable its node value index.  The driver decides which listeners
//! to register, which node values to request, and how to apply the values
//! that come back; the browser and the network do the rest.
use vstd::prelude::*;

verus! {

/// The namespace of a Vega variable.
#[derive(Clone, Copy, Debug, PartialEq, Eq, Structural)]
pub enum VariableNamespace {
    Signal,
    Data,
    Scale,
}

/// A Vega variable: a signal, data set or scale, by name.
#[derive(Debug)]
pub struct Variable {
    pub name: String,
    pub namespace: VariableNamespace,
}

/// A variable together with the path of nested group marks it lives in.
#[derive(Debug)]
pub struct ScopedVariable {
    pub variable: Variable,
    pub scope: Vec<u32>,
}

/// The position of a value in the task graph: a node and, for nodes with
/// several outputs, which output.
#[derive(Clone, Copy, Debug, PartialEq, Eq, Structural)]
pub struct NodeValueIndex {
    pub node_index: u32,
    pub output_index: Option<u32>,
}

/// Which variables travel in which direction between runtime and chart.
#[derive(Debug)]
pub struct CommPlan {
    pub server_to_client: Vec<ScopedVariable>,
    pub client_to_server: Vec<ScopedVariable>,
}

/// The node value index of each variable of the task graph; the first entry
/// of a variable counts.
#[derive(Debug)]
pub struct TaskGraphMapping {
    pub entries: Vec<(ScopedVariable, NodeValueIndex)>,
}

/// The kind of listener to register on the chart's view.
#[derive(Clone, Copy, Debug, PartialEq, Eq, Structural)]
pub enum ListenerKind {
    Signal,
    Data,
}

/// A listener to register: on a change of the variable `name` the chart
/// reports the new value of node value `node_value_index`.
#[derive(Debug)]
pub struct Listener {
    pub kind: ListenerKind,
    pub name: String,
    pub node_value_index: NodeValueIndex,
}

/// The kind of a value that the runtime sends.
#[derive(Clone, Copy, Debug, PartialEq, Eq, Structural)]
pub enum TaskValueKind {
    Scalar,
    Table,
}

/// A value the runtime sends, without its payload: the variable's name and
/// scope, and whether the value is a scalar or a table.
#[derive(Debug)]
pub struct ResponseValue {
    pub name: String,
    pub scope: Vec<u32>,
    pub kind: TaskValueKind,
}

/// A change to the chart specification before it is first shown; `value` is
/// the position of the payload among the values received.
#[derive(Debug)]
pub enum SpecUpdate {
    /// Set the value of the signal `name` in the group mark at `scope`.
    SetSignalValue { scope: Vec<u32>, name: String, value: usize },
    /// Set the values of the data set `name` in the group mark at `scope`.
    SetDataValues { scope: Vec<u32>, name: String, value: usize },
}

/// What to do on the chart's view; `value` is the position of the payload
/// among the values received.
#[derive(Debug)]
pub enum ViewAction {
    SetSignal { name: String, value: usize },
    SetData { name: String, value: usize },
    Run,
}

/// The driver's state: the element that shows the chart, the plan, the
/// mapping, and the node value indices of the server-to-client variables.
#[derive(Debug)]
pub struct MsgReceiver {
    pub element_id: String,
    pub comm_plan: CommPlan,
    pub task_graph_mapping: TaskGraphMapping,
    pub server_to_client_value_indices: Vec<NodeValueIndex>,
}

/// What identifies a scoped variable: name, namespace and scope.
pub open spec fn var_key(v: ScopedVariable) -> (Seq<char>, VariableNamespace, Seq<u32>) {
    (v.variable.name@, v.variable.namespace, v.scope@)
}

/// The node value index of the first entry for the variable `key`.
pub open spec fn lookup(
    entries: Seq<(ScopedVariable, NodeValueIndex)>,
    key: (Seq<char>, VariableNamespace, Seq<u32>),
) -> Option<NodeValueIndex>
    decreases entries.len(),
{
    if entries.len() == 0 {
        None
    } else if var_key(entries[0].0) == key {
        Some(entries[0].1)
    } else {
        lookup(entries.drop_first(), key)
    }
}

/// The node value indices among `updated` that the runtime sends to the
/// chart, in the order of `updated`.
pub open spec fn requested(
    updated: Seq<NodeValueIndex>,
    server_to_client: Seq<NodeValueIndex>,
) -> Seq<NodeValueIndex> {
    updated.filter(|n: NodeValueIndex| server_to_client.contains(n))
}

/// Every variable of `vars` has an entry in `entries`.
pub open spec fn all_mapped(
    vars: Seq<ScopedVariable>,
    entries: Seq<(ScopedVariable, NodeValueIndex)>,
) -> bool {
    forall|i: int| 0 <= i < vars.len() ==> (#[trigger] lookup(entries, var_key(vars[i]))) is Some
}

/// `out` holds, position by position, the node value index of each variable of `vars`.
pub open spec fn are_mapped_indices(
    vars: Seq<ScopedVariable>,
    entries: Seq<(ScopedVariable, NodeValueIndex)>,
    out: Seq<NodeValueIndex>,
) -> bool {
    &&& out.len() == vars.len()
    &&& forall|i: int|
        0 <= i < vars.len() ==> Some(#[trigger] out[i]) == lookup(entries, var_key(vars[i]))
}

/// No variable of `vars` is a scale.
pub open spec fn no_scales(vars: Seq<ScopedVariable>) -> bool {
    forall|i: int| 0 <= i < vars.len() ==> (#[trigger] vars[i]).variable.namespace != VariableNamespace::Scale
}

/// The listener that the client-to-server variable `v` needs.
pub open spec fn is_listener_for(
    l: Listener,
    v: ScopedVariable,
    entries: Seq<(ScopedVariable, NodeValueIndex)>,
) -> bool {
    &&& l.name == v.variable.name
    &&& Some(l.node_value_index) == lookup(entries, var_key(v))
    &&& l.kind == (if v.variable.namespace == VariableNamespace::Signal {
        ListenerKind::Signal
    } else {
        ListenerKind::Data
    })
}

/// The view action that applies the received value `v` at position `i`.
pub open spec fn is_action_for(a: ViewAction, v: ResponseValue, i: int) -> bool {
    match v.kind {
        TaskValueKind::Scalar => a matches ViewAction::SetSignal { name, value } && name == v.name
            && value == i,
        TaskValueKind::Table => a matches ViewAction::SetData { name, value } && name == v.name
            && value == i,
    }
}

/// The specification update that takes in the received value `v` at position `i`.
pub open spec fn is_update_for(u: SpecUpdate, v: ResponseValue, i: int) -> bool {
    match v.kind {
        TaskValueKind::Scalar => u matches SpecUpdate::SetSignalValue { scope, name, value }
            && scope@ == v.scope@ && name == v.name && value == i,
        TaskValueKind::Table => u matches SpecUpdate::SetDataValues { scope, name, value }
            && scope@ == v.scope@ && name == v.name && value == i,
    }
}

/// A copy of a scope path.
fn copy_scope(scope: &Vec<u32>) -> (res: Vec<u32>)
    ensures
        res@ == scope@,
{
    let mut res: Vec<u32> = Vec::new();
    let mut i: usize = 0;
    while i < scope.len()
        invariant
            i <= scope.len(),
            res@ == scope@.take(i as int),
        decreases scope.len() - i,
    {
        res.push(scope[i]);
        assert(scope@.take(i + 1) =~= scope@.take(i as int).push(scope@[i as int]));
        i = i + 1;
    }
    assert(scope@.take(scope@.len() as int) =~= scope@);
    res
}

/// Two scoped variables are the same: equal names, equal namespaces and
/// equal scope paths, element for element.
pub open spec fn is_same_variable(a: ScopedVariable, b: ScopedVariable) -> bool {
    &&& a.variable.name@ == b.variable.name@
    &&& a.variable.namespace == b.variable.namespace
    &&& a.scope@.len() == b.scope@.len()
    &&& forall|i: int| 0 <= i < a.scope@.len() ==> a.scope@[i] == b.scope@[i]
}

/// Whether two scoped variables are the same: same name, namespace and scope.
pub fn same_variable(a: &ScopedVariable, b: &ScopedVariable) -> (res: bool)
    ensures
        res == (var_key(*a) == var_key(*b)),
        res == is_same_variable(*a, *b),
{
    if a.variable.name != b.variable.name || a.variable.namespace != b.variable.namespace
        || a.scope.len() != b.scope.len() {
        return false;
    }
    let mut i: usize = 0;
    while i < a.scope.len()
        invariant
            i <= a.scope.len(),
            a.scope.len() == b.scope.len(),
            forall|j: int| 0 <= j < i ==> a.scope@[j] == b.scope@[j],
        decreases a.scope.len() - i,
    {
        if a.scope[i] != b.scope[i] {
            return false;
        }
        i = i + 1;
    }
    assert(a.scope@ =~= b.scope@);
    true
}

impl TaskGraphMapping {
    /// The node value index of `var`, if the mapping has it.
    #[verifier::loop_isolation(false)]
    pub fn get(&self, var: &ScopedVariable) -> (res: Option<NodeValueIndex>)
        ensures
            res == lookup(self.entries@, var_key(*var)),
            res matches Some(n) ==> exists|i: int|
                0 <= i < self.entries@.len() && is_same_variable(#[trigger] self.entries@[i].0, *var)
                    && self.entries@[i].1 == n && forall|j: int|
                    0 <= j < i ==> !is_same_variable(self.entries@[j].0, *var),
            res is None ==> forall|i: int|
                0 <= i < self.entries@.len() ==> !is_same_variable(#[trigger] self.entries@[i].0, *var),
    {
        proof {
            lemma_lookup_first_same(self.entries@, *var);
        }
        let mut i: usize = 0;
        assert(self.entries@.subrange(0, self.entries@.len() as int) =~= self.entries@);
        while i < self.entries.len()
            invariant
                i <= self.entries.len(),
                lookup(self.entries@, var_key(*var)) == lookup(
                    self.entries@.subrange(i as int, self.entries@.len() as int),
                    var_key(*var),
                ),
            decreases self.entries.len() - i,
        {
            let ghost rest = self.entries@.subrange(i as int, self.entries@.len() as int);
            assert(rest[0] == self.entries@[i as int]);
            assert(rest.drop_first() =~= self.entries@.subrange(
                i + 1,
                self.entries@.len() as int,
            ));
            if same_variable(&self.entries[i].0, var) {
                return Some(self.entries[i].1);
            }
            i = i + 1;
        }
        None
    }

    /// The node value index of each variable of `vars`, in order.
    pub fn indices_of(&self, vars: &Vec<ScopedVariable>) -> (res: Vec<NodeValueIndex>)
        requires
            all_mapped(vars@, self.entries@),
        ensures
            are_mapped_indices(vars@, self.entries@, res@),
    {
        let mut res: Vec<NodeValueIndex> = Vec::new();
        let mut i: usize = 0;
        while i < vars.len()
            invariant
                i <= vars.len(),
                all_mapped(vars@, self.entries@),
                res@.len() == i,
                forall|j: int|
                    0 <= j < i ==> Some(#[trigger] res@[j]) == lookup(
                        self.entries@,
                        var_key(vars@[j]),
                    ),
            decreases vars.len() - i,
        {
            assert(lookup(self.entries@, var_key(vars@[i as int])) is Some);
            match self.get(&vars[i]) {
                Some(index) => res.push(index),
                None => {
                    assert(false);
                },
            }
            i = i + 1;
        }
        res
    }
}

/// Whether `index` occurs in `indices`.
fn contains_index(indices: &Vec<NodeValueIndex>, index: NodeValueIndex) -> (res: bool)
    ensures
        res == indices@.contains(index),
{
    let mut i: usize = 0;
    while i < indices.len()
        invariant
            i <= indices.len(),
            forall|j: int| 0 <= j < i ==> indices@[j] != index,
        decreases indices.len() - i,
    {
        if indices[i] == index {
            assert(indices@[i as int] == index);
            return true;
        }
        i = i + 1;
    }
    false
}

impl MsgReceiver {
    /// The receiver's node value indices are those of its server-to-client variables.
    pub open spec fn well_formed(&self) -> bool {
        &&& all_mapped(self.comm_plan.server_to_client@, self.task_graph_mapping.entries@)
        &&& are_mapped_indices(
            self.comm_plan.server_to_client@,
            self.task_graph_mapping.entries@,
            self.server_to_client_value_indices@,
        )
    }

    /// Sets up the driver for the chart shown in `element_id`.
    pub fn new(element_id: &str, comm_plan: CommPlan, task_graph_mapping: TaskGraphMapping) -> (res:
        Self)
        requires
            all_mapped(comm_plan.server_to_client@, task_graph_mapping.entries@),
        ensures
            res.well_formed(),
            res.element_id@ == element_id@,
            res.comm_plan == comm_plan,
            res.task_graph_mapping == task_graph_mapping,
    {
        let server_to_client_value_indices = task_graph_mapping.indices_of(
            &comm_plan.server_to_client,
        );
        MsgReceiver {
            element_id: element_id.to_owned(),
            comm_plan,
            task_graph_mapping,
            server_to_client_value_indices,
        }
    }

    /// The node values to request first: those of the server-to-client variables.
    pub fn initial_node_value_indices(&self) -> (res: Vec<NodeValueIndex>)
        requires
            self.well_formed(),
        ensures
            are_mapped_indices(
                self.comm_plan.server_to_client@,
                self.task_graph_mapping.entries@,
                res@,
            ),
    {
        self.task_graph_mapping.indices_of(&self.comm_plan.server_to_client)
    }

    /// The listeners to register: one per client-to-server variable, a
    /// signal listener for a signal and a data listener for a data set.
    pub fn listeners(&self) -> (res: Vec<Listener>)
        requires
            all_mapped(self.comm_plan.client_to_server@, self.task_graph_mapping.entries@),
            no_scales(self.comm_plan.client_to_server@),
        ensures
            res@.len() == self.comm_plan.client_to_server@.len(),
            forall|i: int|
                0 <= i < res@.len() ==> is_listener_for(
                    #[trigger] res@[i],
                    self.comm_plan.client_to_server@[i],
                    self.task_graph_mapping.entries@,
                ),
    {
        let vars = &self.comm_plan.client_to_server;
        let mut res: Vec<Listener> = Vec::new();
        let mut i: usize = 0;
        while i < vars.len()
            invariant
                i <= vars.len(),
                vars == &self.comm_plan.client_to_server,
                all_mapped(vars@, self.task_graph_mapping.entries@),
                no_scales(vars@),
                res@.len() == i,
                forall|j: int|
                    0 <= j < i ==> is_listener_for(
                        #[trigger] res@[j],
                        vars@[j],
                        self.task_graph_mapping.entries@,
                    ),
            decreases vars.len() - i,
        {
            let var = &vars[i];
            assert(lookup(self.task_graph_mapping.entries@, var_key(vars@[i as int])) is Some);
            assert(vars@[i as int].variable.namespace != VariableNamespace::Scale);
            let kind = match var.variable.namespace {
                VariableNamespace::Signal => ListenerKind::Signal,
                _ => ListenerKind::Data,
            };
            match self.task_graph_mapping.get(var) {
                Some(index) => {
                    res.push(
                        Listener { kind, name: var.variable.name.clone(), node_value_index: index },
                    );
                },
                None => {
                    assert(false);
                },
            }
            i = i + 1;
        }
        res
    }

    /// How to apply a message from the runtime: without a response nothing
    /// is done; with one, each scalar is set as a signal and each table as a
    /// data set, by the variable's name, in the order received, and then the
    /// view runs.
    pub fn receive(&self, response: &Option<Vec<ResponseValue>>) -> (res: Vec<ViewAction>)
        ensures
            response is None ==> res@.len() == 0,
            response matches Some(values) ==> {
                &&& res@.len() == values@.len() + 1
                &&& forall|i: int|
                    0 <= i < values@.len() ==> is_action_for(#[trigger] res@[i], values@[i], i)
                &&& res@[values@.len() as int] matches ViewAction::Run
            },
    {
        let mut res: Vec<ViewAction> = Vec::new();
        match response {
            None => res,
            Some(values) => {
                let mut i: usize = 0;
                while i < values.len()
                    invariant
                        i <= values.len(),
                        res@.len() == i,
                        forall|j: int|
                            0 <= j < i ==> is_action_for(#[trigger] res@[j], values@[j], j),
                    decreases values.len() - i,
                {
                    let name = values[i].name.clone();
                    match values[i].kind {
                        TaskValueKind::Scalar => res.push(ViewAction::SetSignal { name, value: i }),
                        TaskValueKind::Table => res.push(ViewAction::SetData { name, value: i }),
                    }
                    i = i + 1;
                }
                res.push(ViewAction::Run);
                res
            },
        }
    }

    /// How to put the first values from the runtime into the chart
    /// specification: each scalar becomes the value of its signal and each
    /// table the values of its data set, in the group mark of its scope, in
    /// the order received.
    pub fn init_spec(&self, values: &Vec<ResponseValue>) -> (res: Vec<SpecUpdate>)
        ensures
            res@.len() == values@.len(),
            forall|i: int| 0 <= i < values@.len() ==> is_update_for(#[trigger] res@[i], values@[i], i),
    {
        let mut res: Vec<SpecUpdate> = Vec::new();
        let mut i: usize = 0;
        while i < values.len()
            invariant
                i <= values.len(),
                res@.len() == i,
                forall|j: int| 0 <= j < i ==> is_update_for(#[trigger] res@[j], values@[j], j),
            decreases values.len() - i,
        {
            let name = values[i].name.clone();
            let scope = copy_scope(&values[i].scope);
            match values[i].kind {
                TaskValueKind::Scalar => res.push(SpecUpdate::SetSignalValue { scope, name, value: i }),
                TaskValueKind::Table => res.push(SpecUpdate::SetDataValues { scope, name, value: i }),
            }
            i = i + 1;
        }
        res
    }

    /// The node values to request after the chart changed `updated`: those
    /// of them that the runtime sends to the chart, in the order given.
    pub fn requested_indices(&self, updated: &Vec<NodeValueIndex>) -> (res: Vec<NodeValueIndex>)
        ensures
            res@ == requested(updated@, self.server_to_client_value_indices@),
    {
        let ghost pred = |n: NodeValueIndex| self.server_to_client_value_indices@.contains(n);
        let mut res: Vec<NodeValueIndex> = Vec::new();
        let mut i: usize = 0;
        while i < updated.len()
            invariant
                i <= updated.len(),
                pred == (|n: NodeValueIndex| self.server_to_client_value_indices@.contains(n)),
                res@ == updated@.take(i as int).filter(pred),
            decreases updated.len() - i,
        {
            reveal_with_fuel(Seq::<_>::filter, 1);
            assert(updated@.take(i + 1).drop_last() =~= updated@.take(i as int));
            if contains_index(&self.server_to_client_value_indices, updated[i]) {
                res.push(updated[i]);
            }
            i = i + 1;
        }
        assert(updated@.take(updated@.len() as int) =~= updated@);
        res
    }
}

/// Variables have the same key exactly when they are the same variable: the
/// key keeps the whole name, the namespace and every element of the scope.
pub proof fn lemma_var_key_identifies(a: ScopedVariable, b: ScopedVariable)
    ensures
        var_key(a) == var_key(b) <==> is_same_variable(a, b),
{
    if is_same_variable(a, b) {
        assert(a.scope@ =~= b.scope@);
    }
}

/// A lookup finds the first entry for the same variable (same name,
/// namespace and whole scope), and finds nothing when no entry is for it.
pub proof fn lemma_lookup_first_same(entries: Seq<(ScopedVariable, NodeValueIndex)>, v: ScopedVariable)
    ensures
        lookup(entries, var_key(v)) matches Some(n) ==> exists|i: int|
            0 <= i < entries.len() && is_same_variable(#[trigger] entries[i].0, v) && entries[i].1
                == n && forall|j: int| 0 <= j < i ==> !is_same_variable(entries[j].0, v),
        lookup(entries, var_key(v)) is None ==> forall|i: int|
            0 <= i < entries.len() ==> !is_same_variable(#[trigger] entries[i].0, v),
    decreases entries.len(),
{
    if entries.len() > 0 {
        lemma_var_key_identifies(entries[0].0, v);
        let rest = entries.drop_first();
        lemma_lookup_first_same(rest, v);
        if !is_same_variable(entries[0].0, v) {
            if let Some(n) = lookup(entries, var_key(v)) {
                let k = choose|k: int|
                    0 <= k < rest.len() && is_same_variable(#[trigger] rest[k].0, v) && rest[k].1
                        == n && forall|j: int| 0 <= j < k ==> !is_same_variable(rest[j].0, v);
                assert(entries[k + 1] == rest[k]);
                assert forall|j: int| 0 <= j < k + 1 implies !is_same_variable(entries[j].0, v) by {
                    if j > 0 {
                        assert(entries[j] == rest[j - 1]);
                    }
                }
            } else {
                assert forall|i: int| 0 <= i < entries.len() implies !is_same_variable(
                    #[trigger] entries[i].0,
                    v,
                ) by {
                    if i > 0 {
                        assert(entries[i] == rest[i - 1]);
                    }
                }
            }
        }
    }
}

/// Sets up the driver for the chart shown in `element_id` and returns it
/// with the node values to request first, those of the server-to-client
/// variables.
pub fn render_vegafusion(
    element_id: &str,
    comm_plan: CommPlan,
    task_graph_mapping: TaskGraphMapping,
) -> (res: (MsgReceiver, Vec<NodeValueIndex>))
    requires
        all_mapped(comm_plan.server_to_client@, task_graph_mapping.entries@),
    ensures
        res.0.well_formed(),
        res.0.element_id@ == element_id@,
        res.0.comm_plan == comm_plan,
        res.0.task_graph_mapping == task_graph_mapping,
        are_mapped_indices(comm_plan.server_to_client@, task_graph_mapping.entries@, res.1@),
{
    let receiver = MsgReceiver::new(element_id, comm_plan, task_graph_mapping);
    let indices = receiver.initial_node_value_indices();
    (receiver, indices)
}

/// Requested node values are all server-to-client values and were all
/// updated; every updated server-to-client value is requested; and
/// requesting again from the requested ones changes nothing.
pub proof fn lemma_requested_within(
    updated: Seq<NodeValueIndex>,
    server_to_client: Seq<NodeValueIndex>,
)
    ensures
        forall|i: int|
            0 <= i < requested(updated, server_to_client).len() ==> server_to_client.contains(
                #[trigger] requested(updated, server_to_client)[i],
            ) && updated.contains(requested(updated, server_to_client)[i]),
        forall|i: int|
            0 <= i < updated.len() && server_to_client.contains(#[trigger] updated[i])
                ==> requested(updated, server_to_client).contains(updated[i]),
        requested(requested(updated, server_to_client), server_to_client) == requested(
            updated,
            server_to_client,
        ),
{
    let pred = |n: NodeValueIndex| server_to_client.contains(n);
    let f = updated.filter(pred);
    assert(f == requested(updated, server_to_client));
    assert forall|i: int| 0 <= i < f.len() implies server_to_client.contains(#[trigger] f[i])
        && updated.contains(f[i]) by {
        updated.lemma_filter_pred(pred, i);
        assert(f.contains(f[i]));
        updated.lemma_filter_contains_rev(pred, f[i]);
    }
    lemma_filter_of_all(f, pred);
    assert forall|i: int| 0 <= i < updated.len() && server_to_client.contains(
        #[trigger] updated[i],
    ) implies f.contains(updated[i]) by {
        updated.lemma_filter_contains(pred, i);
    }
}

/// Filtering a sequence all of whose elements pass keeps it whole.
proof fn lemma_filter_of_all(s: Seq<NodeValueIndex>, pred: spec_fn(NodeValueIndex) -> bool)
    requires
        forall|i: int| 0 <= i < s.len() ==> pred(#[trigger] s[i]),
    ensures
        s.filter(pred) == s,
    decreases s.len(),
{
    reveal_with_fuel(Seq::<_>::filter, 1);
    if s.len() > 0 {
        lemma_filter_of_all(s.drop_last(), pred);
        assert(s.drop_last().push(s.last()) =~= s);
    }
}

} // verus!
