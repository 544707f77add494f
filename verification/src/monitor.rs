//! The monitor registry: one entry per physical output, each owning
//! the layout of the windows shown on it.
//!
//! A monitor records the output's identity (its controller handle),
//! its absolute origin and size on the screen, and the layout of its
//! windows.  Window positions inside a layout are local to the
//! viewport; when configuration commands are emitted they are
//! translated to absolute coordinates by adding the monitor's origin.

use vstd::prelude::*;

use crate::client::Client;
use crate::dispatch::GatewayCmd;
use crate::layout::{lemma_relayout_bounded, relayout_spec, Layout};

verus! {

/// One entry of the output topology: identity, absolute origin, size.
#[derive(Clone, Copy, Debug, PartialEq, Eq)]
pub struct OutputInfo {
    pub crtc: u32,
    pub pos_x: i16,
    pub pos_y: i16,
    pub width: u16,
    pub height: u16,
}

/// A hot-plug notification: the named output now has this origin and
/// size.
#[derive(Clone, Copy, Debug, PartialEq, Eq)]
pub struct CrtcChange {
    pub crtc: u32,
    pub pos_x: i16,
    pub pos_y: i16,
    pub width: u16,
    pub height: u16,
}

/// The in-process model of one output: its identity and geometry, and
/// the owned layout of its windows.
pub struct Monitor {
    pub crtc: u32,
    pub pos_x: i16,
    pub pos_y: i16,
    pub height: u16,
    pub width: u16,
    pub layout: Layout,
}

/// The window with its reconfiguration flag lowered.
pub open spec fn cleared(c: Client) -> Client {
    Client { reconfigure: false, ..c }
}

/// The collection with every reconfiguration flag lowered.
pub open spec fn clear_flags(s: Seq<Client>) -> Seq<Client> {
    Seq::new(s.len(), |i: int| cleared(s[i]))
}

/// The configuration command for one window of a monitor whose origin
/// is `(mx, my)`: local position translated by exact origin addition.
pub open spec fn configure_of(mx: i16, my: i16, c: Client) -> GatewayCmd {
    GatewayCmd::Configure {
        window: c.window,
        x: (mx + c.pos_x) as i32,
        y: (my + c.pos_y) as i32,
        width: c.width as u32,
        height: c.height as u32,
    }
}

/// The configuration commands a monitor pushes out: one per window
/// whose reconfiguration flag is raised, in collection order.
pub open spec fn configure_cmds(mx: i16, my: i16, s: Seq<Client>) -> Seq<GatewayCmd>
    decreases s.len(),
{
    if s.len() == 0 {
        Seq::empty()
    } else if s.last().reconfigure {
        configure_cmds(mx, my, s.drop_last()).push(configure_of(mx, my, s.last()))
    } else {
        configure_cmds(mx, my, s.drop_last())
    }
}

/// The monitor's own geometry and its viewport dimensions are the
/// same in both states; only the layout's windows may differ.
pub open spec fn same_frame(a: Monitor, b: Monitor) -> bool {
    &&& a.crtc == b.crtc
    &&& a.pos_x == b.pos_x
    &&& a.pos_y == b.pos_y
    &&& a.width == b.width
    &&& a.height == b.height
    &&& a.layout.width == b.layout.width
    &&& a.layout.height == b.layout.height
}

/// A monitor after a topology change: geometry overwritten in place
/// when the identity matches, untouched otherwise.  The owned layout
/// persists either way (its stored viewport is not resized here; the
/// caller decides when to propagate it).
pub open spec fn apply_crtc_change(m: Monitor, change: CrtcChange) -> Monitor {
    if m.crtc == change.crtc {
        Monitor {
            pos_x: change.pos_x,
            pos_y: change.pos_y,
            width: change.width,
            height: change.height,
            ..m
        }
    } else {
        m
    }
}

/// The position of the first window of `s` whose identity is
/// `window`, if any.
pub open spec fn first_match(s: Seq<Client>, window: u32) -> Option<int>
    decreases s.len(),
{
    if s.len() == 0 {
        None
    } else if s[0].window == window {
        Some(0)
    } else {
        match first_match(s.drop_first(), window) {
            Some(i) => Some(i + 1),
            None => None,
        }
    }
}

/// What `first_match` finds: the match with the least position, or
/// nothing when no window of `s` has the identity.
pub proof fn lemma_first_match_spec(s: Seq<Client>, window: u32)
    ensures
        match first_match(s, window) {
            Some(i) => 0 <= i < s.len() && s[i].window == window && forall|j: int|
                0 <= j < i ==> (#[trigger] s[j]).window != window,
            None => forall|j: int| 0 <= j < s.len() ==> (#[trigger] s[j]).window != window,
        },
    decreases s.len(),
{
    if s.len() > 0 && s[0].window != window {
        let sub = s.drop_first();
        lemma_first_match_spec(sub, window);
        match first_match(sub, window) {
            Some(i) => {
                assert(sub[i] == s[i + 1]);
                assert forall|j: int| 0 <= j < i + 1 implies (#[trigger] s[j]).window
                    != window by {
                    if j > 0 {
                        assert(sub[j - 1] == s[j]);
                    }
                };
            },
            None => {
                assert forall|j: int| 0 <= j < s.len() implies (#[trigger] s[j]).window
                    != window by {
                    if j > 0 {
                        assert(sub[j - 1] == s[j]);
                    }
                };
            },
        }
    }
}

/// The windows still shown on `m` after the display server reports
/// `window` unmapped: the first match is removed and the rest are laid
/// out anew; an identity the monitor never managed changes nothing.
pub open spec fn unmapped_clients(m: Monitor, window: u32) -> Seq<Client> {
    match first_match(m.layout.clients@, window) {
        Some(i) => relayout_spec(m.layout.width, m.layout.height, m.layout.clients@.remove(i)),
        None => m.layout.clients@,
    }
}

/// The windows shown on `m` after `client` is mapped onto it.
pub open spec fn mapped_clients(m: Monitor, client: Client) -> Seq<Client> {
    relayout_spec(m.layout.width, m.layout.height, m.layout.clients@.push(client))
}

/// The gateway commands a map request produces: map and focus the new
/// window, then push every recomputed geometry.
pub open spec fn map_cmds(m: Monitor, client: Client) -> Seq<GatewayCmd> {
    seq![
        GatewayCmd::MapWindow { window: client.window },
        GatewayCmd::SetFocus { window: client.window },
    ] + configure_cmds(m.pos_x, m.pos_y, mapped_clients(m, client))
}

/// The gateway commands an unmap produces: focus the new candidate if
/// any window survives, then push every recomputed geometry.
pub open spec fn unmap_cmds(m: Monitor, window: u32) -> Seq<GatewayCmd> {
    let survivors = unmapped_clients(m, window);
    (if survivors.len() > 0 {
        seq![GatewayCmd::SetFocus { window: survivors.last().window }]
    } else {
        Seq::<GatewayCmd>::empty()
    }) + configure_cmds(m.pos_x, m.pos_y, survivors)
}

impl Monitor {
    /// Build the registry from an enumerated output topology: one
    /// monitor per output, each with a fresh, empty layout sized to
    /// that output's viewport.
    pub fn creat_monitors(outputs: &Vec<OutputInfo>) -> (monitors: Vec<Monitor>)
        ensures
            monitors@.len() == outputs@.len(),
            forall|i: int|
                0 <= i < outputs@.len() ==> {
                    let m = #[trigger] monitors@[i];
                    let o = outputs@[i];
                    &&& m.crtc == o.crtc
                    &&& m.pos_x == o.pos_x
                    &&& m.pos_y == o.pos_y
                    &&& m.width == o.width
                    &&& m.height == o.height
                    &&& m.layout.width == o.width
                    &&& m.layout.height == o.height
                    &&& m.layout.clients@ == Seq::<Client>::empty()
                },
    {
        let mut monitors: Vec<Monitor> = Vec::new();
        let mut i: usize = 0;
        while i < outputs.len()
            invariant
                i <= outputs@.len(),
                monitors@.len() == i,
                forall|k: int|
                    0 <= k < i ==> {
                        let m = #[trigger] monitors@[k];
                        let o = outputs@[k];
                        &&& m.crtc == o.crtc
                        &&& m.pos_x == o.pos_x
                        &&& m.pos_y == o.pos_y
                        &&& m.width == o.width
                        &&& m.height == o.height
                        &&& m.layout.width == o.width
                        &&& m.layout.height == o.height
                        &&& m.layout.clients@ == Seq::<Client>::empty()
                    },
            decreases outputs@.len() - i,
        {
            let o = outputs[i];
            monitors.push(
                Monitor {
                    crtc: o.crtc,
                    pos_x: o.pos_x,
                    pos_y: o.pos_y,
                    width: o.width,
                    height: o.height,
                    layout: Layout::new(o.width, o.height),
                },
            );
            i += 1;
        }
        monitors
    }

    /// Apply a hot-plug notification to the registry: every monitor
    /// whose identity matches has its origin and size overwritten in
    /// place; its identity and layout persist.  A notification for an
    /// output this process never enumerated changes nothing.
    pub fn handle_crtc_change(monitors: &mut Vec<Monitor>, change: CrtcChange)
        ensures
            final(monitors)@.len() == old(monitors)@.len(),
            forall|i: int|
                0 <= i < old(monitors)@.len() ==> final(monitors)@[i] == apply_crtc_change(
                    #[trigger] old(monitors)@[i],
                    change,
                ),
    {
        let n = monitors.len();
        let mut i: usize = 0;
        while i < n
            invariant
                i <= n,
                monitors@.len() == n,
                n == old(monitors)@.len(),
                forall|j: int|
                    0 <= j < i ==> monitors@[j] == apply_crtc_change(
                        #[trigger] old(monitors)@[j],
                        change,
                    ),
                forall|j: int| i <= j < n ==> monitors@[j] == #[trigger] old(monitors)@[j],
            decreases n - i,
        {
            if monitors[i].crtc == change.crtc {
                let mut m = monitors.remove(i);
                m.pos_x = change.pos_x;
                m.pos_y = change.pos_y;
                m.height = change.height;
                m.width = change.width;
                monitors.insert(i, m);
            }
            i += 1;
        }
    }

    /// Emit one configuration command, at absolute screen coordinates,
    /// for every window whose reconfiguration flag is raised, and
    /// lower all the flags: the new geometry is now on its way to the
    /// display server.
    pub fn reconfigure_clients(&mut self) -> (cmds: Vec<GatewayCmd>)
        requires
            forall|i: int|
                0 <= i < old(self).layout.clients@.len() ==> (#[trigger] old(
                    self,
                ).layout.clients@[i]).bounded(),
        ensures
            same_frame(*old(self), *final(self)),
            final(self).layout.clients@ == clear_flags(old(self).layout.clients@),
            cmds@ == configure_cmds(old(self).pos_x, old(self).pos_y, old(self).layout.clients@),
    {
        let ghost orig = self.layout.clients@;
        let mut cmds: Vec<GatewayCmd> = Vec::new();
        let n = self.layout.clients.len();
        let mut i: usize = 0;
        while i < n
            invariant
                i <= n,
                orig.len() == n,
                self.layout.clients@.len() == n,
                same_frame(*old(self), *self),
                self.pos_x == old(self).pos_x,
                self.pos_y == old(self).pos_y,
                forall|j: int| 0 <= j < n ==> (#[trigger] orig[j]).bounded(),
                forall|j: int| 0 <= j < i ==> self.layout.clients@[j] == cleared(#[trigger] orig[j]),
                forall|j: int| i <= j < n ==> self.layout.clients@[j] == #[trigger] orig[j],
                cmds@ == configure_cmds(old(self).pos_x, old(self).pos_y, orig.take(i as int)),
            decreases n - i,
        {
            let c = self.layout.clients[i];
            proof {
                assert(c == orig[i as int]);
                assert(orig[i as int].bounded());
            }
            if c.reconfigure {
                let screen_x: i32 = self.pos_x as i32 + c.pos_x;
                let screen_y: i32 = self.pos_y as i32 + c.pos_y;
                cmds.push(
                    GatewayCmd::Configure {
                        window: c.window,
                        x: screen_x,
                        y: screen_y,
                        width: c.width as u32,
                        height: c.height as u32,
                    },
                );
            }
            self.layout.clients.set(i, Client { reconfigure: false, ..c });
            proof {
                assert(orig.take(i + 1).drop_last() =~= orig.take(i as int));
                assert(orig.take(i + 1).last() == orig[i as int]);
            }
            i += 1;
        }
        proof {
            assert(orig.take(n as int) =~= orig);
            assert(self.layout.clients@ =~= clear_flags(orig));
        }
        cmds
    }

    /// A map request for a new window: ask the gateway to map and
    /// focus it, append it to the layout — it becomes master and focus
    /// candidate — and push every recomputed geometry.
    pub fn map_client(&mut self, client: Client) -> (cmds: Vec<GatewayCmd>)
        ensures
            same_frame(*old(self), *final(self)),
            final(self).layout.clients@ == clear_flags(mapped_clients(*old(self), client)),
            cmds@ == map_cmds(*old(self), client),
    {
        let mut cmds: Vec<GatewayCmd> = Vec::new();
        cmds.push(GatewayCmd::MapWindow { window: client.window });
        cmds.push(GatewayCmd::SetFocus { window: client.window });
        self.layout.position_new_client(client);
        proof {
            lemma_relayout_bounded(
                old(self).layout.width,
                old(self).layout.height,
                old(self).layout.clients@.push(client),
            );
        }
        let mut cfg = self.reconfigure_clients();
        cmds.append(&mut cfg);
        proof {
            assert(cmds@ =~= map_cmds(*old(self), client));
        }
        cmds
    }

    /// The display server reports `window` unmapped: drop the first
    /// window with that identity, if any, lay the survivors out anew,
    /// hand focus to the new candidate when one remains, and push
    /// every recomputed geometry.
    pub fn unmap_window(&mut self, window: u32) -> (cmds: Vec<GatewayCmd>)
        requires
            forall|i: int|
                0 <= i < old(self).layout.clients@.len() ==> (#[trigger] old(
                    self,
                ).layout.clients@[i]).bounded(),
        ensures
            same_frame(*old(self), *final(self)),
            final(self).layout.clients@ == clear_flags(unmapped_clients(*old(self), window)),
            cmds@ == unmap_cmds(*old(self), window),
    {
        let ghost orig = self.layout.clients@;
        let n = self.layout.clients.len();
        let mut idx: usize = 0;
        while idx < n && self.layout.clients[idx].window != window
            invariant
                idx <= n,
                n == self.layout.clients@.len(),
                *self == *old(self),
                forall|j: int|
                    0 <= j < idx ==> (#[trigger] self.layout.clients@[j]).window != window,
            decreases n - idx,
        {
            idx += 1;
        }
        proof {
            lemma_first_match_spec(orig, window);
            match first_match(orig, window) {
                Some(k) => {
                    assert(idx < n);
                    assert(k == idx);
                },
                None => {
                    assert(idx == n);
                },
            }
        }
        if idx < n {
            let _ = self.layout.remove_client(idx);
            proof {
                lemma_relayout_bounded(
                    old(self).layout.width,
                    old(self).layout.height,
                    orig.remove(idx as int),
                );
            }
        }
        let mut cmds: Vec<GatewayCmd> = Vec::new();
        match self.layout.get_client_to_focus() {
            Ok(c) => {
                cmds.push(GatewayCmd::SetFocus { window: c.window });
            },
            Err(_) => {},
        }
        let mut cfg = self.reconfigure_clients();
        cmds.append(&mut cfg);
        proof {
            assert(cmds@ =~= unmap_cmds(*old(self), window));
        }
        cmds
    }
}

/// Law: a topology change naming an output identity that no monitor
/// of the registry has leaves every monitor unchanged.
pub proof fn lemma_unknown_output_ignored(s: Seq<Monitor>, change: CrtcChange)
    requires
        forall|i: int| 0 <= i < s.len() ==> (#[trigger] s[i]).crtc != change.crtc,
    ensures
        forall|i: int| 0 <= i < s.len() ==> apply_crtc_change(#[trigger] s[i], change) == s[i],
{
}

} // verus!
