use dswm::dispatch::{GatewayCmd, WmEvent, WmState};
use dswm::monitor::{CrtcChange, OutputInfo};

fn primary() -> OutputInfo {
    OutputInfo { crtc: 1, pos_x: 0, pos_y: 0, width: 1920, height: 1080 }
}

#[test]
fn new_state_has_one_monitor_per_output() {
    let outputs = vec![
        primary(),
        OutputInfo { crtc: 2, pos_x: 1920, pos_y: 0, width: 800, height: 600 },
    ];
    let state = WmState::new(&outputs);
    assert_eq!(state.monitors.len(), 2);
    assert!(state.monitors[0].layout.clients.is_empty());
}

#[test]
fn map_request_routes_to_primary_monitor() {
    let outputs = vec![primary()];
    let mut state = WmState::new(&outputs);
    let cmds = state.handle_event(WmEvent::MapRequested { window: 10 });
    assert_eq!(
        cmds,
        vec![
            GatewayCmd::MapWindow { window: 10 },
            GatewayCmd::SetFocus { window: 10 },
            GatewayCmd::Configure { window: 10, x: 0, y: 0, width: 1920, height: 1080 },
        ]
    );
    assert_eq!(state.monitors[0].layout.clients.len(), 1);
}

#[test]
fn map_then_unmap_restores_sole_survivor() {
    let outputs = vec![primary()];
    let mut state = WmState::new(&outputs);
    let _ = state.handle_event(WmEvent::MapRequested { window: 10 });
    let _ = state.handle_event(WmEvent::MapRequested { window: 11 });
    let cmds = state.handle_event(WmEvent::Unmapped { window: 11 });
    assert_eq!(
        cmds,
        vec![
            GatewayCmd::SetFocus { window: 10 },
            GatewayCmd::Configure { window: 10, x: 0, y: 0, width: 1920, height: 1080 },
        ]
    );
    assert_eq!(state.monitors[0].layout.clients.len(), 1);
    assert_eq!(state.monitors[0].layout.clients[0].window, 10);
}

#[test]
fn topology_change_for_unknown_output_leaves_monitors_unchanged() {
    let outputs = vec![
        primary(),
        OutputInfo { crtc: 2, pos_x: 1920, pos_y: 0, width: 800, height: 600 },
    ];
    let mut state = WmState::new(&outputs);
    let change = CrtcChange { crtc: 77, pos_x: 1, pos_y: 2, width: 3, height: 4 };
    let cmds = state.handle_event(WmEvent::OutputTopologyChanged { change });
    assert_eq!(cmds, vec![]);
    for (m, o) in state.monitors.iter().zip(outputs.iter()) {
        assert_eq!(m.crtc, o.crtc);
        assert_eq!((m.pos_x, m.pos_y, m.width, m.height), (o.pos_x, o.pos_y, o.width, o.height));
    }
}

#[test]
fn topology_change_for_known_output_moves_it() {
    let outputs = vec![primary()];
    let mut state = WmState::new(&outputs);
    let change = CrtcChange { crtc: 1, pos_x: 100, pos_y: 200, width: 1280, height: 720 };
    let cmds = state.handle_event(WmEvent::OutputTopologyChanged { change });
    assert_eq!(cmds, vec![]);
    let m = &state.monitors[0];
    assert_eq!((m.pos_x, m.pos_y, m.width, m.height), (100, 200, 1280, 720));
    assert_eq!(m.crtc, 1);
}

#[test]
fn protocol_message_is_observed_but_not_acted_upon() {
    let outputs = vec![primary()];
    let mut state = WmState::new(&outputs);
    let _ = state.handle_event(WmEvent::MapRequested { window: 10 });
    let cmds = state.handle_event(WmEvent::ProtocolMessage { atom: 300, window: 10 });
    assert_eq!(cmds, vec![]);
    assert_eq!(state.monitors[0].layout.clients.len(), 1);
}

#[test]
fn monitor_origin_offsets_every_configure() {
    let outputs =
        vec![OutputInfo { crtc: 5, pos_x: -400, pos_y: 300, width: 1000, height: 900 }];
    let mut state = WmState::new(&outputs);
    let _ = state.handle_event(WmEvent::MapRequested { window: 1 });
    let cmds = state.handle_event(WmEvent::MapRequested { window: 2 });
    // window 2 is master at local (0,0); window 1 sits in the stack at
    // local (500, 0); both are translated by the monitor origin
    assert_eq!(
        cmds,
        vec![
            GatewayCmd::MapWindow { window: 2 },
            GatewayCmd::SetFocus { window: 2 },
            GatewayCmd::Configure { window: 1, x: 100, y: 300, width: 500, height: 900 },
            GatewayCmd::Configure { window: 2, x: -400, y: 300, width: 500, height: 900 },
        ]
    );
}
