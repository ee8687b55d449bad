//! Dora bridges: the built-in Moxin node types, bridge connection states,
//! the retry rule for connecting a bridge, and shutdown error precedence.

use vstd::prelude::*;

use crate::text::{chars_of, has_prefix, starts_with, str_eq};

verus! {

/// Prefix for Moxin built-in dynamic nodes in dataflow YAML.
pub const MOFA_NODE_PREFIX: &'static str = "moxin-";

/// Known Moxin widget node types.
#[derive(Debug, Clone, Copy, PartialEq, Eq, Structural, Hash)]
pub enum MoxinNodeType {
    /// Audio player widget - receives audio, plays through speaker
    AudioPlayer,
    /// Mic input widget - captures audio from microphone
    MicInput,
    /// Translation listener widget - receives source_text and the translator node output
    TranslationListener,
}

/// The dataflow node id of each widget type.
pub open spec fn node_id_spec(t: MoxinNodeType) -> Seq<char> {
    match t {
        MoxinNodeType::AudioPlayer => "moxin-audio-player"@,
        MoxinNodeType::MicInput => "moxin-mic-input"@,
        MoxinNodeType::TranslationListener => "moxin-translation-listener"@,
    }
}

/// The widget type a node id names.
pub open spec fn node_type_spec(id: Seq<char>) -> Option<MoxinNodeType> {
    if id == "moxin-audio-player"@ {
        Some(MoxinNodeType::AudioPlayer)
    } else if id == "moxin-mic-input"@ {
        Some(MoxinNodeType::MicInput)
    } else if id == "moxin-translation-listener"@ {
        Some(MoxinNodeType::TranslationListener)
    } else {
        None
    }
}

impl MoxinNodeType {
    /// Get the node ID for this widget type
    pub fn node_id(&self) -> (r: &'static str)
        ensures
            r@ == node_id_spec(*self),
    {
        match self {
            MoxinNodeType::AudioPlayer => "moxin-audio-player",
            MoxinNodeType::MicInput => "moxin-mic-input",
            MoxinNodeType::TranslationListener => "moxin-translation-listener",
        }
    }

    /// Parse node type from node ID
    pub fn from_node_id(node_id: &str) -> (r: Option<Self>)
        ensures
            r == node_type_spec(node_id@),
    {
        if str_eq(node_id, "moxin-audio-player") {
            Some(MoxinNodeType::AudioPlayer)
        } else if str_eq(node_id, "moxin-mic-input") {
            Some(MoxinNodeType::MicInput)
        } else if str_eq(node_id, "moxin-translation-listener") {
            Some(MoxinNodeType::TranslationListener)
        } else {
            None
        }
    }

    /// Check if a node ID is a Moxin widget node
    pub fn is_moxin_node(node_id: &str) -> (r: bool)
        ensures
            r == starts_with(node_id@, MOFA_NODE_PREFIX@),
    {
        let v = chars_of(node_id);
        let p = chars_of(MOFA_NODE_PREFIX);
        has_prefix(v.as_slice(), p.as_slice())
    }
}

/// Parsing the id of a widget type gives the type back.
pub proof fn law_node_id_round_trip(t: MoxinNodeType)
    ensures
        node_type_spec(node_id_spec(t)) == Some(t),
        starts_with(node_id_spec(t), MOFA_NODE_PREFIX@),
{
    reveal_strlit("moxin-audio-player");
    reveal_strlit("moxin-mic-input");
    reveal_strlit("moxin-translation-listener");
    reveal_strlit("moxin-");
    assert("moxin-audio-player"@[6] != "moxin-mic-input"@[6]);
    assert("moxin-mic-input"@[6] != "moxin-translation-listener"@[6]);
    assert("moxin-audio-player"@.subrange(0, 6) =~= "moxin-"@);
    assert("moxin-mic-input"@.subrange(0, 6) =~= "moxin-"@);
    assert("moxin-translation-listener"@.subrange(0, 6) =~= "moxin-"@);
}

/// Connection state of a bridge.
#[derive(Debug, Clone, Copy, PartialEq, Eq, Structural)]
pub enum BridgeState {
    Disconnected,
    Connecting,
    Connected,
    Error,
}

/// Errors of the bridges and the dataflow.
#[derive(Debug)]
pub enum BridgeError {
    DataflowNotRunning,
    ConnectionFailed(String),
    ThreadSpawnFailed(String),
    ThreadJoinFailed,
    NotSupported(String),
    Unknown(String),
}

/// `serde_json::Value`, the payload of bridge messages.
#[verifier::external_type_specification]
#[verifier::external_body]
pub struct ExJsonValue(serde_json::Value);

/// Data a bridge sends into the dataflow.
#[derive(Debug)]
pub enum DoraData {
    Json(serde_json::Value),
}

/// A call of `connect` or `disconnect` made on a bridge, with what it
/// returned.
#[derive(Debug)]
pub enum BridgeCall {
    Connect(Result<(), BridgeError>),
    Disconnect(Result<(), BridgeError>),
}

/// A widget connected to the dataflow as a dynamic node. The bridges
/// implement it outside verified code. Its contracts: `state` reads the
/// bridge's connection state; each `connect` or `disconnect` is recorded,
/// with its result, in the bridge's call record; and one that succeeds
/// leaves the bridge connected or disconnected. Whether they succeed, and
/// what sending does, is left to each bridge.
pub trait DoraBridge {
    /// The connection state the bridge is in.
    spec fn connection_state(&self) -> BridgeState;

    /// The `connect` and `disconnect` calls made on the bridge so far,
    /// oldest first.
    spec fn calls(&self) -> Vec<BridgeCall>;

    fn node_id(&self) -> &str;

    fn state(&self) -> (s: BridgeState)
        ensures
            s == self.connection_state(),
    ;

    /// Connects the bridge; once it succeeds the bridge is connected.
    fn connect(&mut self) -> (r: Result<(), BridgeError>)
        ensures
            r is Ok ==> final(self).connection_state() == BridgeState::Connected,
            final(self).calls()@ == old(self).calls()@.push(BridgeCall::Connect(r)),
    ;

    /// Disconnects the bridge; once it succeeds the bridge is disconnected.
    fn disconnect(&mut self) -> (r: Result<(), BridgeError>)
        ensures
            r is Ok ==> final(self).connection_state() == BridgeState::Disconnected,
            final(self).calls()@ == old(self).calls()@.push(BridgeCall::Disconnect(r)),
    ;

    fn send(&self, output_id: &str, data: DoraData) -> Result<(), BridgeError>;

    fn expected_inputs(&self) -> Vec<String>;

    fn expected_outputs(&self) -> Vec<String>;

    fn is_connected(&self) -> (r: bool)
        ensures
            r == (self.connection_state() == BridgeState::Connected),
    {
        self.state() == BridgeState::Connected
    }
}

/// What connecting a bridge in a given state takes.
#[derive(Debug, Clone, Copy, PartialEq, Eq, Structural)]
pub enum ConnectPlan {
    /// Already connected: leave it alone.
    KeepConnected,
    /// Disconnected: connect.
    Connect,
    /// A previous attempt left it connecting or failed: disconnect first so
    /// no second node with the same id is started, then connect.
    DisconnectThenConnect,
}

/// The plan for a bridge in state `s`.
pub open spec fn plan_spec(s: BridgeState) -> ConnectPlan {
    match s {
        BridgeState::Connected => ConnectPlan::KeepConnected,
        BridgeState::Disconnected => ConnectPlan::Connect,
        _ => ConnectPlan::DisconnectThenConnect,
    }
}

/// The plan for connecting a bridge in state `state`.
pub fn connect_plan(state: BridgeState) -> (p: ConnectPlan)
    ensures
        p == plan_spec(state),
{
    if state == BridgeState::Connected {
        ConnectPlan::KeepConnected
    } else if state == BridgeState::Disconnected {
        ConnectPlan::Connect
    } else {
        ConnectPlan::DisconnectThenConnect
    }
}

/// What connecting a bridge by `plan` does to its call record `before`,
/// ending with `after` and returning `r`: nothing for a connected bridge;
/// one `connect` for a disconnected one, whose result is returned; for
/// the others a `disconnect` first, whose error is returned, or, when it
/// succeeds, one `connect` after it, whose result is returned.
pub open spec fn connect_calls(
    plan: ConnectPlan,
    before: Seq<BridgeCall>,
    after: Seq<BridgeCall>,
    r: Result<(), BridgeError>,
) -> bool {
    match plan {
        ConnectPlan::KeepConnected => after == before && r is Ok,
        ConnectPlan::Connect => after == before.push(BridgeCall::Connect(r)),
        ConnectPlan::DisconnectThenConnect => {
            ||| r is Err && after == before.push(BridgeCall::Disconnect(r))
            ||| after == before.push(BridgeCall::Disconnect(Ok(()))).push(BridgeCall::Connect(r))
        },
    }
}

/// Connects a bridge following `connect_plan`: a connected bridge is left
/// alone, a failed or half-finished attempt is cleaned up before retrying.
/// What the bridge's own `connect` and `disconnect` return is passed on.
pub fn connect_bridge<B: DoraBridge>(bridge: &mut B) -> (r: Result<(), BridgeError>)
    ensures
        connect_calls(
            plan_spec(old(bridge).connection_state()),
            old(bridge).calls()@,
            final(bridge).calls()@,
            r,
        ),
        old(bridge).connection_state() == BridgeState::Connected ==> r is Ok && *final(bridge)
            == *old(bridge),
        r is Ok ==> final(bridge).connection_state() == BridgeState::Connected,
        r is Err ==> old(bridge).connection_state() != BridgeState::Connected,
{
    match connect_plan(bridge.state()) {
        ConnectPlan::KeepConnected => Ok(()),
        ConnectPlan::Connect => bridge.connect(),
        ConnectPlan::DisconnectThenConnect => {
            let disconnected = bridge.disconnect();
            match disconnected {
                Ok(u) => {
                    assert(u == ());
                    assert(disconnected == Ok::<(), BridgeError>(()));
                },
                Err(e) => {
                    let r = Err(e);
                    assert(r == disconnected);
                    return r;
                },
            }
            bridge.connect()
        },
    }
}

/// Which error a shutdown reports: stopping the dataflow failing wins over
/// disconnecting the bridges failing.
pub open spec fn shutdown_result(
    disconnect: Result<(), BridgeError>,
    stop: Result<(), BridgeError>,
) -> Result<(), BridgeError> {
    match stop {
        Err(e) => Err(e),
        Ok(()) => match disconnect {
            Err(e) => Err(e),
            Ok(()) => Ok(()),
        },
    }
}

/// Combines the outcomes of disconnecting the bridges and stopping the
/// dataflow.
pub fn combine_shutdown_results(
    disconnect_result: Result<(), BridgeError>,
    stop_result: Result<(), BridgeError>,
) -> (r: Result<(), BridgeError>)
    ensures
        r == shutdown_result(disconnect_result, stop_result),
{
    match (disconnect_result, stop_result) {
        (_, Err(stop_error)) => Err(stop_error),
        (Err(disconnect_error), Ok(())) => Err(disconnect_error),
        (Ok(()), Ok(())) => Ok(()),
    }
}

/// Binding between a widget and its dora node
#[derive(Debug)]
pub struct WidgetBinding {
    /// Widget identifier in the UI
    pub widget_id: String,
    /// Moxin node type
    pub node_type: MoxinNodeType,
    /// Node ID in the dataflow
    pub node_id: String,
    /// Connection state
    pub state: BridgeState,
}

/// Index of the first binding for `node_id`.
pub fn find_binding(bindings: &[WidgetBinding], node_id: &str) -> (r: Option<usize>)
    ensures
        match r {
            Some(i) => i < bindings@.len() && bindings@[i as int].node_id@ == node_id@ && forall|j: int|
                0 <= j < i ==> #[trigger] bindings@[j].node_id@ != node_id@,
            None => forall|j: int| 0 <= j < bindings@.len() ==> #[trigger] bindings@[j].node_id@ != node_id@,
        },
{
    let mut i: usize = 0;
    while i < bindings.len()
        invariant
            i <= bindings@.len(),
            forall|j: int| 0 <= j < i ==> #[trigger] bindings@[j].node_id@ != node_id@,
        decreases bindings@.len() - i,
    {
        if str_eq(bindings[i].node_id.as_str(), node_id) {
            return Some(i);
        }
        i += 1;
    }
    None
}

/// Records the new state of the first binding for `node_id`.
pub fn set_binding_state(bindings: &mut Vec<WidgetBinding>, node_id: &str, state: BridgeState)
    ensures
        final(bindings)@.len() == old(bindings)@.len(),
        forall|j: int|
            0 <= j < old(bindings)@.len() ==> {
                &&& #[trigger] final(bindings)@[j].node_id == old(bindings)@[j].node_id
                &&& final(bindings)@[j].widget_id == old(bindings)@[j].widget_id
                &&& final(bindings)@[j].node_type == old(bindings)@[j].node_type
            },
        forall|j: int|
            0 <= j < old(bindings)@.len() ==> #[trigger] final(bindings)@[j].state == if old(
                bindings,
            )@[j].node_id@ == node_id@ && forall|k: int|
                0 <= k < j ==> #[trigger] old(bindings)@[k].node_id@ != node_id@ {
                state
            } else {
                old(bindings)@[j].state
            },
{
    match find_binding(bindings.as_slice(), node_id) {
        Some(i) => {
            let mut b = bindings.remove(i);
            b.state = state;
            bindings.insert(i, b);
        },
        None => {},
    }
}

/// Builder for creating dispatchers with custom configuration.
pub struct DispatcherBuilder<C> {
    pub controller: Option<C>,
    pub auto_connect: bool,
}

impl<C> DispatcherBuilder<C> {
    /// A builder with no controller that does not connect on build.
    pub fn new() -> (b: Self)
        ensures
            b.controller is None,
            !b.auto_connect,
    {
        DispatcherBuilder { controller: None, auto_connect: false }
    }

    /// Uses `controller` for the dispatcher.
    pub fn with_controller(self, controller: C) -> (b: Self)
        ensures
            b.controller == Some(controller),
            b.auto_connect == self.auto_connect,
    {
        DispatcherBuilder { controller: Some(controller), auto_connect: self.auto_connect }
    }

    /// Whether `build` starts the dataflow and connects the bridges.
    pub fn auto_connect(self, auto: bool) -> (b: Self)
        ensures
            b.controller == self.controller,
            b.auto_connect == auto,
    {
        DispatcherBuilder { controller: self.controller, auto_connect: auto }
    }

    /// What building the dispatcher starts from: the controller, and
    /// whether the dataflow is to be started and the bridges connected
    /// right away. Without a controller, building fails.
    pub fn build(self) -> (r: Result<(C, bool), BridgeError>)
        ensures
            match self.controller {
                Some(c) => r == Ok::<(C, bool), BridgeError>((c, self.auto_connect)),
                None => r matches Err(BridgeError::Unknown(m)) && m@ == "No controller provided"@,
            },
    {
        match self.controller {
            Some(controller) => Ok((controller, self.auto_connect)),
            None => Err(BridgeError::Unknown("No controller provided".to_string())),
        }
    }
}

/// The bridges that are up and the last error, as the UI shows them.
#[derive(Debug)]
pub struct DoraStatus {
    pub active_bridges: Vec<String>,
    pub last_error: Option<String>,
}

/// The ids of the active bridges.
pub open spec fn bridges_view(s: DoraStatus) -> Seq<Seq<char>> {
    s.active_bridges@.map_values(|b: String| b@)
}

/// `bridges` without every occurrence of `id`.
pub open spec fn without(bridges: Seq<Seq<char>>, id: Seq<char>) -> Seq<Seq<char>> {
    bridges.filter(|b: Seq<char>| b != id)
}

impl DoraStatus {
    /// No bridge up and no error.
    pub fn new() -> (s: DoraStatus)
        ensures
            bridges_view(s).len() == 0,
            s.last_error is None,
    {
        let s = DoraStatus { active_bridges: Vec::new(), last_error: None };
        assert(bridges_view(s) =~= Seq::empty());
        s
    }

    /// Marks a bridge as active; one already listed is not listed twice.
    pub fn add_bridge(&mut self, bridge_id: String)
        ensures
            bridges_view(*final(self)) == if bridges_view(*old(self)).contains(bridge_id@) {
                bridges_view(*old(self))
            } else {
                bridges_view(*old(self)).push(bridge_id@)
            },
            final(self).last_error == old(self).last_error,
    {
        let ghost before = bridges_view(*self);
        let mut i: usize = 0;
        while i < self.active_bridges.len()
            invariant
                i <= self.active_bridges@.len(),
                before == bridges_view(*self),
                forall|j: int| 0 <= j < i ==> #[trigger] before[j] != bridge_id@,
            decreases self.active_bridges@.len() - i,
        {
            if str_eq(self.active_bridges[i].as_str(), bridge_id.as_str()) {
                assert(before[i as int] == bridge_id@);
                return;
            }
            i += 1;
        }
        self.active_bridges.push(bridge_id);
        assert(bridges_view(*self) =~= before.push(bridge_id@));
    }

    /// Marks a bridge as gone.
    pub fn remove_bridge(&mut self, bridge_id: &str)
        ensures
            bridges_view(*final(self)) == without(bridges_view(*old(self)), bridge_id@),
            final(self).last_error == old(self).last_error,
    {
        let ghost before = bridges_view(*self);
        let mut kept: Vec<String> = Vec::new();
        let mut i: usize = 0;
        while i < self.active_bridges.len()
            invariant
                i <= self.active_bridges@.len(),
                before == bridges_view(*self),
                kept@.map_values(|b: String| b@) == without(before.subrange(0, i as int), bridge_id@),
            decreases self.active_bridges@.len() - i,
        {
            proof {
                assert(before.subrange(0, i + 1).drop_last() =~= before.subrange(0, i as int));
                assert(before.subrange(0, i + 1).last() == before[i as int]);
                let pred = |b: Seq<char>| b != bridge_id@;
                reveal_with_fuel(Seq::<Seq<char>>::filter, 1);
                assert(before.subrange(0, i + 1).filter(pred) == if pred(before[i as int]) {
                    before.subrange(0, i as int).filter(pred).push(before[i as int])
                } else {
                    before.subrange(0, i as int).filter(pred)
                });
            }
            if !str_eq(self.active_bridges[i].as_str(), bridge_id) {
                kept.push(self.active_bridges[i].clone());
                assert(kept@.map_values(|b: String| b@) =~= without(before.subrange(0, i as int), bridge_id@).push(
                    before[i as int],
                ));
            }
            i += 1;
        }
        assert(before.subrange(0, before.len() as int) =~= before);
        self.active_bridges = kept;
    }

    /// Records (or clears) the last error.
    pub fn set_error(&mut self, error: Option<String>)
        ensures
            bridges_view(*final(self)) == bridges_view(*old(self)),
            final(self).last_error == error,
    {
        self.last_error = error;
    }
}

/// Adding a bridge twice lists it once, and removing it afterwards leaves
/// no trace of it.
pub proof fn law_bridge_list_add_remove(bridges: Seq<Seq<char>>, id: Seq<char>)
    ensures
        ({
            let once = if bridges.contains(id) {
                bridges
            } else {
                bridges.push(id)
            };
            let twice = if once.contains(id) {
                once
            } else {
                once.push(id)
            };
            &&& twice == once
            &&& once.contains(id)
            &&& !without(once, id).contains(id)
        }),
{
    let once = if bridges.contains(id) {
        bridges
    } else {
        bridges.push(id)
    };
    if !bridges.contains(id) {
        assert(once[bridges.len() as int] == id);
    }
    let w = without(once, id);
    if w.contains(id) {
        let k = choose|k: int| 0 <= k < w.len() && w[k] == id;
        once.lemma_filter_pred(|b: Seq<char>| b != id, k);
    }
}

/// What follows one attempt to connect every bridge while a dataflow
/// starts.
#[derive(Debug, Clone, Copy, PartialEq, Eq, Structural)]
pub enum ConnectStep {
    /// Every bridge is connected: the start succeeded.
    Connected,
    /// Wait two seconds and try again.
    RetryAfterDelay,
    /// The last attempt failed: report its error.
    GiveUp,
}

/// How many times connecting the bridges is attempted.
pub open spec fn max_connect_attempts() -> int {
    15
}

/// The step after attempt number `attempt` (counted from 1) succeeded or
/// not: success ends the retries, and failures are retried until fifteen
/// attempts were made.
pub fn after_connect_attempt(attempt: usize, connected: bool) -> (r: ConnectStep)
    requires
        1 <= attempt,
    ensures
        connected ==> r == ConnectStep::Connected,
        !connected && attempt < max_connect_attempts() ==> r == ConnectStep::RetryAfterDelay,
        !connected && attempt >= max_connect_attempts() ==> r == ConnectStep::GiveUp,
{
    if connected {
        ConnectStep::Connected
    } else if attempt < 15 {
        ConnectStep::RetryAfterDelay
    } else {
        ConnectStep::GiveUp
    }
}

/// What a bridge that started its worker does after looking at its state:
/// keep waiting, report success, or fail.
#[derive(Debug)]
pub enum ConnectWait {
    KeepWaiting,
    Connected,
    Failed(BridgeError),
}

/// The decision after poll number `iteration` (counted from 0) of a
/// translation listener's state, with `max_iterations` polls allowed: the
/// worker reaching `Connected` succeeds, reaching `Error` means its dora
/// node could not start, and running out of polls is a timeout.
pub fn translation_listener_wait(
    node_id: &str,
    state: BridgeState,
    iteration: usize,
    max_iterations: usize,
) -> (r: ConnectWait)
    ensures
        state == BridgeState::Connected ==> r is Connected,
        state == BridgeState::Error ==> (r matches ConnectWait::Failed(BridgeError::ConnectionFailed(m))
            && m@ == "TranslationListener "@ + node_id@ + " failed to init dora node"@),
        state != BridgeState::Connected && state != BridgeState::Error ==> if iteration + 1
            >= max_iterations {
            r matches ConnectWait::Failed(BridgeError::ConnectionFailed(m)) && m@
                == "TranslationListener "@ + node_id@ + " connection timeout"@
        } else {
            r is KeepWaiting
        },
{
    match state {
        BridgeState::Connected => ConnectWait::Connected,
        BridgeState::Error => {
            let a = crate::text::concat("TranslationListener ", node_id);
            ConnectWait::Failed(
                BridgeError::ConnectionFailed(crate::text::concat(a.as_str(), " failed to init dora node")),
            )
        },
        _ => if iteration >= max_iterations || max_iterations - iteration <= 1 {
            let a = crate::text::concat("TranslationListener ", node_id);
            ConnectWait::Failed(
                BridgeError::ConnectionFailed(crate::text::concat(a.as_str(), " connection timeout")),
            )
        } else {
            ConnectWait::KeepWaiting
        },
    }
}

} // verus!
