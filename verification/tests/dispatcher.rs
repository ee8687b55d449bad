use hen_local::bridge::{
    combine_shutdown_results, connect_bridge, BridgeCall, BridgeError, BridgeState, DoraBridge, DoraData,
    DispatcherBuilder, MoxinNodeType, DoraStatus, WidgetBinding, set_binding_state, find_binding,
};

struct RetryBridge {
    state: BridgeState,
    connect_calls: usize,
    disconnect_calls: usize,
    log: Vec<&'static str>,
}

impl DoraBridge for RetryBridge {
    fn connection_state(&self) -> BridgeState {
        self.state
    }

    fn calls(&self) -> Vec<BridgeCall> {
        self.log
            .iter()
            .map(|call| match *call {
                "connect" => BridgeCall::Connect(Ok(())),
                _ => BridgeCall::Disconnect(Ok(())),
            })
            .collect()
    }

    fn node_id(&self) -> &str {
        "retry-node"
    }

    fn state(&self) -> BridgeState {
        self.state
    }

    fn connect(&mut self) -> Result<(), BridgeError> {
        self.connect_calls += 1;
        self.log.push("connect");
        self.state = BridgeState::Connected;
        Ok(())
    }

    fn disconnect(&mut self) -> Result<(), BridgeError> {
        self.disconnect_calls += 1;
        self.log.push("disconnect");
        self.state = BridgeState::Disconnected;
        Ok(())
    }

    fn send(&self, _output_id: &str, _data: DoraData) -> Result<(), BridgeError> {
        Ok(())
    }

    fn expected_inputs(&self) -> Vec<String> {
        Vec::new()
    }

    fn expected_outputs(&self) -> Vec<String> {
        Vec::new()
    }
}

#[test]
fn retry_keeps_a_bridge_that_already_connected() {
    let mut bridge = RetryBridge {
        state: BridgeState::Connected,
        connect_calls: 1,
        disconnect_calls: 0,
        log: Vec::new(),
    };
    connect_bridge(&mut bridge).unwrap();
    assert_eq!(bridge.connect_calls, 1);
    assert_eq!(bridge.disconnect_calls, 0);
}

#[test]
fn retry_cleans_up_a_failed_worker_before_reconnecting() {
    let mut bridge = RetryBridge {
        state: BridgeState::Error,
        connect_calls: 0,
        disconnect_calls: 0,
        log: Vec::new(),
    };
    connect_bridge(&mut bridge).unwrap();
    assert_eq!(bridge.state, BridgeState::Connected);
    assert_eq!(bridge.connect_calls, 1);
    assert_eq!(bridge.disconnect_calls, 1);
}

#[test]
fn disconnected_bridge_connects_without_cleanup() {
    let mut bridge = RetryBridge {
        state: BridgeState::Disconnected,
        connect_calls: 0,
        disconnect_calls: 0,
        log: Vec::new(),
    };
    connect_bridge(&mut bridge).unwrap();
    assert!(bridge.is_connected());
    assert_eq!(bridge.disconnect_calls, 0);
}

#[test]
fn stop_error_takes_precedence_over_disconnect_error() {
    let r = combine_shutdown_results(
        Err(BridgeError::Unknown("disconnect".into())),
        Err(BridgeError::DataflowNotRunning),
    );
    assert!(matches!(r, Err(BridgeError::DataflowNotRunning)));
    let r = combine_shutdown_results(Err(BridgeError::Unknown("disconnect".into())), Ok(()));
    assert!(matches!(r, Err(BridgeError::Unknown(m)) if m == "disconnect"));
    assert!(combine_shutdown_results(Ok(()), Ok(())).is_ok());
}

#[test]
fn node_ids_round_trip() {
    for t in [MoxinNodeType::AudioPlayer, MoxinNodeType::MicInput, MoxinNodeType::TranslationListener] {
        assert_eq!(MoxinNodeType::from_node_id(t.node_id()), Some(t));
        assert!(MoxinNodeType::is_moxin_node(t.node_id()));
    }
    assert_eq!(MoxinNodeType::node_id(&MoxinNodeType::MicInput), "moxin-mic-input");
    assert_eq!(MoxinNodeType::from_node_id("dora-qwen3-asr"), None);
    assert!(!MoxinNodeType::is_moxin_node("dora-qwen3-asr"));
    assert!(MoxinNodeType::is_moxin_node("moxin-custom"));
}

#[test]
fn builder_records_its_settings() {
    let builder: DispatcherBuilder<u32> = DispatcherBuilder::new();
    assert!(builder.controller.is_none());
    assert!(!builder.auto_connect);
    let builder = builder.with_controller(7).auto_connect(true);
    assert_eq!(builder.controller, Some(7));
    assert!(builder.auto_connect);
    assert!(matches!(builder.build(), Ok((7, true))));
}

#[test]
fn building_without_a_controller_fails() {
    let builder: DispatcherBuilder<u32> = DispatcherBuilder::new();
    match builder.build() {
        Err(BridgeError::Unknown(message)) => assert_eq!(message, "No controller provided"),
        _ => panic!("a builder without a controller must not build"),
    }
}

#[test]
fn status_lists_each_bridge_once() {
    let mut status = DoraStatus::new();
    status.add_bridge("moxin-mic-input".into());
    status.add_bridge("moxin-translation-listener".into());
    status.add_bridge("moxin-mic-input".into());
    assert_eq!(status.active_bridges, vec!["moxin-mic-input".to_string(), "moxin-translation-listener".to_string()]);
    status.remove_bridge("moxin-mic-input");
    assert_eq!(status.active_bridges, vec!["moxin-translation-listener".to_string()]);
    status.set_error(Some("boom".into()));
    assert_eq!(status.last_error.as_deref(), Some("boom"));
}

#[test]
fn binding_state_updates_first_matching_node() {
    let mut bindings = vec![
        WidgetBinding { widget_id: "a".into(), node_type: MoxinNodeType::MicInput, node_id: "moxin-mic-input".into(), state: BridgeState::Disconnected },
        WidgetBinding { widget_id: "b".into(), node_type: MoxinNodeType::TranslationListener, node_id: "moxin-translation-listener".into(), state: BridgeState::Disconnected },
    ];
    set_binding_state(&mut bindings, "moxin-translation-listener", BridgeState::Connected);
    assert_eq!(bindings[0].state, BridgeState::Disconnected);
    assert_eq!(bindings[1].state, BridgeState::Connected);
    assert_eq!(bindings[1].widget_id, "b");
    assert_eq!(find_binding(&bindings, "moxin-mic-input"), Some(0));
    assert_eq!(find_binding(&bindings, "missing"), None);
}

use hen_local::bridge::{after_connect_attempt, ConnectStep};

#[test]
fn connecting_is_retried_fifteen_times() {
    assert_eq!(after_connect_attempt(1, true), ConnectStep::Connected);
    assert_eq!(after_connect_attempt(1, false), ConnectStep::RetryAfterDelay);
    assert_eq!(after_connect_attempt(14, false), ConnectStep::RetryAfterDelay);
    assert_eq!(after_connect_attempt(15, false), ConnectStep::GiveUp);
    assert_eq!(after_connect_attempt(15, true), ConnectStep::Connected);
}

use hen_local::bridge::{translation_listener_wait, ConnectWait};

#[test]
fn listener_connection_waits_then_reports() {
    assert!(matches!(
        translation_listener_wait("moxin-translation-listener", BridgeState::Connecting, 0, 50),
        ConnectWait::KeepWaiting
    ));
    assert!(matches!(
        translation_listener_wait("moxin-translation-listener", BridgeState::Connected, 3, 50),
        ConnectWait::Connected
    ));
    match translation_listener_wait("moxin-translation-listener", BridgeState::Error, 3, 50) {
        ConnectWait::Failed(BridgeError::ConnectionFailed(message)) => assert_eq!(
            message,
            "TranslationListener moxin-translation-listener failed to init dora node"
        ),
        other => panic!("unexpected {other:?}"),
    }
    match translation_listener_wait("node", BridgeState::Connecting, 49, 50) {
        ConnectWait::Failed(BridgeError::ConnectionFailed(message)) => {
            assert_eq!(message, "TranslationListener node connection timeout")
        }
        other => panic!("unexpected {other:?}"),
    }
}

#[test]
fn a_failed_bridge_is_disconnected_before_it_is_connected() {
    let mut bridge = RetryBridge {
        state: BridgeState::Connecting,
        connect_calls: 0,
        disconnect_calls: 0,
        log: Vec::new(),
    };
    assert!(connect_bridge(&mut bridge).is_ok());
    let calls = bridge.calls();
    assert_eq!(calls.len(), 2);
    assert!(matches!(calls[0], BridgeCall::Disconnect(Ok(()))));
    assert!(matches!(calls[1], BridgeCall::Connect(Ok(()))));
}

struct RefusingBridge {
    state: BridgeState,
    connect_calls: usize,
    disconnect_calls: usize,
}

impl DoraBridge for RefusingBridge {
    fn connection_state(&self) -> BridgeState {
        self.state
    }

    fn calls(&self) -> Vec<BridgeCall> {
        let mut calls = Vec::new();
        for _ in 0..self.disconnect_calls {
            calls.push(BridgeCall::Disconnect(Err(BridgeError::ThreadJoinFailed)));
        }
        for _ in 0..self.connect_calls {
            calls.push(BridgeCall::Connect(Ok(())));
        }
        calls
    }

    fn node_id(&self) -> &str {
        "refusing-node"
    }

    fn state(&self) -> BridgeState {
        self.state
    }

    fn connect(&mut self) -> Result<(), BridgeError> {
        self.connect_calls += 1;
        self.state = BridgeState::Connected;
        Ok(())
    }

    fn disconnect(&mut self) -> Result<(), BridgeError> {
        self.disconnect_calls += 1;
        Err(BridgeError::ThreadJoinFailed)
    }

    fn send(&self, _output_id: &str, _data: DoraData) -> Result<(), BridgeError> {
        Ok(())
    }

    fn expected_inputs(&self) -> Vec<String> {
        Vec::new()
    }

    fn expected_outputs(&self) -> Vec<String> {
        Vec::new()
    }
}

#[test]
fn a_failed_disconnect_stops_the_retry_with_its_error() {
    let mut bridge = RefusingBridge { state: BridgeState::Error, connect_calls: 0, disconnect_calls: 0 };
    let r = connect_bridge(&mut bridge);
    assert!(matches!(r, Err(BridgeError::ThreadJoinFailed)));
    assert_eq!(bridge.disconnect_calls, 1);
    assert_eq!(bridge.connect_calls, 0);
    assert_eq!(bridge.state, BridgeState::Error);

    let mut fresh = RefusingBridge { state: BridgeState::Disconnected, connect_calls: 0, disconnect_calls: 0 };
    assert!(connect_bridge(&mut fresh).is_ok());
    assert_eq!(fresh.disconnect_calls, 0);
    assert_eq!(fresh.connect_calls, 1);
}
