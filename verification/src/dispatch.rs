//! The window-manager core: the event dispatcher.
//!
//! The display gateway — the unverified transport layer — delivers one
//! event at a time.  The dispatcher routes it to the monitor registry
//! and the layout engine and answers with the ordered list of commands
//! the gateway must issue.  Each event is processed to completion
//! before the next one, so the state invariants hold again whenever a
//! command list is handed back.

use vstd::prelude::*;

use crate::client::Client;
use crate::layout::{lemma_relayout_bounded, Layout};
use crate::monitor::{
    apply_crtc_change, clear_flags, cleared, first_match, lemma_first_match_spec, map_cmds,
    mapped_clients, same_frame, unmap_cmds, unmapped_clients, CrtcChange, Monitor, OutputInfo,
};

verus! {

/// An event delivered by the display gateway.
#[derive(Clone, Copy, Debug, PartialEq, Eq)]
pub enum WmEvent {
    /// A window asks to be shown.
    MapRequested { window: u32 },
    /// The display server reports a window unmapped.
    Unmapped { window: u32 },
    /// An output's geometry changed at runtime.
    OutputTopologyChanged { change: CrtcChange },
    /// A protocol message carrying an atom.  Observed but deliberately
    /// not yet acted upon; the explicit variant keeps the gap visible.
    ProtocolMessage { atom: u32, window: u32 },
}

/// A command the display gateway must issue, in list order.
#[derive(Clone, Copy, Debug, PartialEq, Eq)]
pub enum GatewayCmd {
    /// Make the window visible.
    MapWindow { window: u32 },
    /// Give the window input focus and advertise it as active.
    SetFocus { window: u32 },
    /// Request new geometry, in absolute screen coordinates.
    Configure { window: u32, x: i32, y: i32, width: u32, height: u32 },
}

/// The window a map request brings in: known only by identity, with
/// no geometry yet — the relayout assigns one before anything is
/// pushed out.
pub open spec fn spawned_client(window: u32) -> Client {
    Client { window, pos_x: 0, pos_y: 0, height: 0, width: 0, reconfigure: false }
}

/// A layout at rest between events: every window's position lies
/// inside the viewport and no reconfiguration is pending.
pub open spec fn layout_settled(l: Layout) -> bool {
    forall|j: int|
        0 <= j < l.clients@.len() ==> (#[trigger] l.clients@[j]).bounded()
            && !l.clients@[j].reconfigure
}

/// A layout whose windows are a relayout result with all flags
/// lowered is at rest.
proof fn lemma_cleared_settled(l: Layout, s: Seq<Client>)
    requires
        l.clients@ == clear_flags(s),
        forall|i: int| 0 <= i < s.len() ==> (#[trigger] s[i]).bounded(),
    ensures
        layout_settled(l),
{
    assert forall|j: int|
        0 <= j < l.clients@.len() implies (#[trigger] l.clients@[j]).bounded()
        && !l.clients@[j].reconfigure by {
        assert(l.clients@[j] == cleared(s[j]));
    };
}

/// Replacing the front monitor with one whose layout is at rest keeps
/// the registry well formed and the other monitors untouched.
proof fn lemma_front_replaced(pre: Seq<Monitor>, post: Seq<Monitor>, m: Monitor)
    requires
        pre.len() > 0,
        post == pre.remove(0).insert(0, m),
        layout_settled(m.layout),
        forall|i: int| 0 <= i < pre.len() ==> layout_settled((#[trigger] pre[i]).layout),
    ensures
        post.len() == pre.len(),
        post[0] == m,
        forall|i: int| 1 <= i < pre.len() ==> post[i] == pre[i],
        forall|i: int| 0 <= i < post.len() ==> layout_settled((#[trigger] post[i]).layout),
{
    assert forall|i: int| 1 <= i < pre.len() implies post[i] == pre[i] by {
        assert(pre.remove(0)[i - 1] == pre[i]);
    };
    assert(post[0] == m);
    assert forall|i: int| 0 <= i < post.len() implies layout_settled(
        (#[trigger] post[i]).layout,
    ) by {
        if i >= 1 {
            assert(post[i] == pre[i]);
        }
    };
}

/// The whole state the window manager keeps: the monitor registry,
/// initialized once from the enumerated output topology.
pub struct WmState {
    pub monitors: Vec<Monitor>,
}

impl WmState {
    /// The invariant restored after every fully processed event: each
    /// monitor's layout is at rest.
    pub open spec fn wf(self) -> bool {
        forall|i: int|
            0 <= i < self.monitors@.len() ==> layout_settled((#[trigger] self.monitors@[i]).layout)
    }

    /// Start managing the enumerated output topology: one monitor per
    /// output, each with an empty layout sized to its viewport.
    pub fn new(outputs: &Vec<OutputInfo>) -> (s: WmState)
        ensures
            s.wf(),
            s.monitors@.len() == outputs@.len(),
            forall|i: int|
                0 <= i < outputs@.len() ==> {
                    let m = #[trigger] s.monitors@[i];
                    let o = outputs@[i];
                    &&& m.crtc == o.crtc
                    &&& m.pos_x == o.pos_x
                    &&& m.pos_y == o.pos_y
                    &&& m.width == o.width
                    &&& m.height == o.height
                    &&& m.layout.width == o.width
                    &&& m.layout.height == o.height
                    &&& m.layout.clients@ == Seq::<Client>::empty()
                },
    {
        let monitors = Monitor::creat_monitors(outputs);
        WmState { monitors }
    }

    /// Process one gateway event to completion and answer with the
    /// commands the gateway must issue, in order.
    ///
    /// Per-window events are routed to the designated primary monitor,
    /// the first of the registry; topology changes go to the whole
    /// registry.  Between the call and its return no command is
    /// issued, so the state changes atomically with respect to the
    /// event stream.
    pub fn handle_event(&mut self, ev: WmEvent) -> (cmds: Vec<GatewayCmd>)
        requires
            old(self).wf(),
            old(self).monitors@.len() > 0,
        ensures
            final(self).wf(),
            final(self).monitors@.len() == old(self).monitors@.len(),
            match ev {
                WmEvent::MapRequested { window } => {
                    &&& same_frame(
                        old(self).monitors@[0],
                        final(self).monitors@[0],
                    )
                    &&& final(self).monitors@[0].layout.clients@ == clear_flags(
                        mapped_clients(old(self).monitors@[0], spawned_client(window)),
                    )
                    &&& cmds@ == map_cmds(old(self).monitors@[0], spawned_client(window))
                    &&& forall|i: int|
                        1 <= i < old(self).monitors@.len() ==> final(self).monitors@[i] == old(
                            self,
                        ).monitors@[i]
                },
                WmEvent::Unmapped { window } => {
                    &&& same_frame(
                        old(self).monitors@[0],
                        final(self).monitors@[0],
                    )
                    &&& final(self).monitors@[0].layout.clients@ == clear_flags(
                        unmapped_clients(old(self).monitors@[0], window),
                    )
                    &&& cmds@ == unmap_cmds(old(self).monitors@[0], window)
                    &&& forall|i: int|
                        1 <= i < old(self).monitors@.len() ==> final(self).monitors@[i] == old(
                            self,
                        ).monitors@[i]
                },
                WmEvent::OutputTopologyChanged { change } => {
                    &&& forall|i: int|
                        0 <= i < old(self).monitors@.len() ==> final(self).monitors@[i]
                            == apply_crtc_change(#[trigger] old(self).monitors@[i], change)
                    &&& cmds@ == Seq::<GatewayCmd>::empty()
                },
                WmEvent::ProtocolMessage { .. } => {
                    &&& *final(self) == *old(self)
                    &&& cmds@ == Seq::<GatewayCmd>::empty()
                },
            },
    {
        match ev {
            WmEvent::MapRequested { window } => {
                let client = Client::new(window, 0, 0, 0, 0);
                let mut m = self.monitors.remove(0);
                let cmds = m.map_client(client);
                proof {
                    lemma_relayout_bounded(
                        m.layout.width,
                        m.layout.height,
                        old(self).monitors@[0].layout.clients@.push(client),
                    );
                    lemma_cleared_settled(
                        m.layout,
                        mapped_clients(old(self).monitors@[0], client),
                    );
                }
                self.monitors.insert(0, m);
                proof {
                    lemma_front_replaced(old(self).monitors@, self.monitors@, m);
                }
                cmds
            },
            WmEvent::Unmapped { window } => {
                let mut m = self.monitors.remove(0);
                proof {
                    assert(layout_settled(old(self).monitors@[0].layout));
                }
                let cmds = m.unmap_window(window);
                proof {
                    lemma_first_match_spec(
                        old(self).monitors@[0].layout.clients@,
                        window,
                    );
                    match first_match(
                        old(self).monitors@[0].layout.clients@,
                        window,
                    ) {
                        Some(k) => {
                            lemma_relayout_bounded(
                                m.layout.width,
                                m.layout.height,
                                old(self).monitors@[0].layout.clients@.remove(k),
                            );
                        },
                        None => {},
                    }
                    lemma_cleared_settled(
                        m.layout,
                        unmapped_clients(old(self).monitors@[0], window),
                    );
                }
                self.monitors.insert(0, m);
                proof {
                    lemma_front_replaced(old(self).monitors@, self.monitors@, m);
                }
                cmds
            },
            WmEvent::OutputTopologyChanged { change } => {
                Monitor::handle_crtc_change(&mut self.monitors, change);
                proof {
                    assert forall|i: int| 0 <= i < self.monitors@.len() implies layout_settled(
                        (#[trigger] self.monitors@[i]).layout,
                    ) by {
                        assert(self.monitors@[i].layout == old(self).monitors@[i].layout);
                        assert(layout_settled(old(self).monitors@[i].layout));
                    };
                }
                Vec::new()
            },
            WmEvent::ProtocolMessage { .. } => {
                // A protocol message defines no transition yet: the
                // atom is observed by the shell and nothing changes.
                Vec::new()
            },
        }
    }
}

} // verus!
