//! The layout engine: an ordered collection of managed windows for one
//! monitor, and the master-stack arrangement that assigns each of them
//! a screen rectangle.
//!
//! The order of the collection is the insertion order; the most
//! recently inserted window is at the same time the master window and
//! the focus candidate.  The arrangement is recomputed after every
//! insertion and removal:
//!
//! * one window fills the whole viewport;
//! * with more windows, the last one (the master) fills the left half,
//!   and the remaining ones are stacked top to bottom in the right
//!   half, each `floor(h / (n-1))` rows tall.  When `h` is not a
//!   multiple of `n - 1`, the bottom `h % (n-1)` rows of the stack
//!   column stay uncovered; that boundary behaviour is deliberate.

use vstd::arithmetic::div_mod::{
    lemma_div_pos_is_pos, lemma_fundamental_div_mod, lemma_mod_division_less_than_divisor,
};
use vstd::arithmetic::mul::{
    lemma_mul_inequality, lemma_mul_is_distributive_add_other_way, lemma_mul_nonnegative,
};
use vstd::prelude::*;

use crate::client::Client;

verus! {

/// The conditions a layout operation can signal.
#[derive(Clone, Copy, Debug, PartialEq, Eq)]
pub enum LayoutError {
    /// The layout holds no window, so there is nothing to focus.
    Empty,
    /// A removal named an index outside the collection.
    OutOfRange,
}

/// Height of one slot of the stack column when `n > 1` windows are
/// managed in a viewport `h` rows tall.
pub open spec fn stack_slot_height(h: u16, n: int) -> int
    recommends
        n > 1,
{
    h as int / (n - 1)
}

/// The rectangle the master-stack arrangement assigns to the window at
/// position `i` of `n`, inside a viewport of `w` columns and `h` rows.
/// Every assignment raises the window's reconfiguration flag.
pub open spec fn relayout_client(w: u16, h: u16, n: int, i: int, c: Client) -> Client
    recommends
        0 <= i < n,
{
    if n == 1 {
        Client { window: c.window, pos_x: 0, pos_y: 0, width: w, height: h, reconfigure: true }
    } else if i == n - 1 {
        Client {
            window: c.window,
            pos_x: 0,
            pos_y: 0,
            width: (w as int / 2) as u16,
            height: h,
            reconfigure: true,
        }
    } else {
        Client {
            window: c.window,
            pos_x: (w as int / 2) as i32,
            pos_y: (i * stack_slot_height(h, n)) as i32,
            width: (w as int / 2) as u16,
            height: stack_slot_height(h, n) as u16,
            reconfigure: true,
        }
    }
}

/// The whole collection after a relayout: same windows in the same
/// order, each with the rectangle of its position.
pub open spec fn relayout_spec(w: u16, h: u16, s: Seq<Client>) -> Seq<Client> {
    Seq::new(s.len(), |i: int| relayout_client(w, h, s.len() as int, i, s[i]))
}

/// Two rectangles do not overlap: one of them is empty, or they are
/// separated along one of the axes.
pub open spec fn rects_disjoint(a: Client, b: Client) -> bool {
    ||| a.width == 0
    ||| a.height == 0
    ||| b.width == 0
    ||| b.height == 0
    ||| a.pos_x + a.width <= b.pos_x
    ||| b.pos_x + b.width <= a.pos_x
    ||| a.pos_y + a.height <= b.pos_y
    ||| b.pos_y + b.height <= a.pos_y
}

/// Bounds of one stack slot: slots lie inside the viewport, so every
/// coordinate the arrangement produces fits the executable types.
pub proof fn lemma_stack_slot_bounds(h: u16, n: int, i: int)
    requires
        n > 1,
        0 <= i < n - 1,
    ensures
        0 <= stack_slot_height(h, n) <= h,
        0 <= i * stack_slot_height(h, n),
        i * stack_slot_height(h, n) + stack_slot_height(h, n) <= h,
{
    let st = stack_slot_height(h, n);
    lemma_div_pos_is_pos(h as int, n - 1);
    lemma_fundamental_div_mod(h as int, n - 1);
    lemma_mod_division_less_than_divisor(h as int, n - 1);
    lemma_mul_nonnegative(i, st);
    // (i + 1) * st <= (n - 1) * st == h - h % (n - 1) <= h
    lemma_mul_inequality(i + 1, n - 1, st);
    lemma_mul_is_distributive_add_other_way(st, i, 1);
    lemma_mul_inequality(1, n - 1, st);
}

/// A single managed viewport: its dimensions and the ordered windows
/// shown inside it.  The order encodes recency of insertion.
pub struct Layout {
    pub width: u16,
    pub height: u16,
    pub clients: Vec<Client>,
}

impl Layout {
    pub fn new(width: u16, height: u16) -> (l: Layout)
        ensures
            l.width == width,
            l.height == height,
            l.clients@ == Seq::<Client>::empty(),
    {
        Layout { width, height, clients: Vec::new() }
    }

    /// Recompute every window's rectangle for the current count, per
    /// the master-stack arrangement.
    pub fn reorder_clients(&mut self)
        ensures
            final(self).width == old(self).width,
            final(self).height == old(self).height,
            final(self).clients@ == relayout_spec(
                old(self).width,
                old(self).height,
                old(self).clients@,
            ),
    {
        let ghost orig = self.clients@;
        let ghost w0 = self.width;
        let ghost h0 = self.height;
        let n = self.clients.len();
        if n > 1 {
            let master_w = self.width / 2;
            let stack_us: usize = (self.height as usize) / (n - 1);
            proof {
                lemma_stack_slot_bounds(h0, n as int, 0);
            }
            let stack: u16 = stack_us as u16;
            let mut i: usize = 0;
            while i < n
                invariant
                    1 < n,
                    i <= n,
                    self.width == w0,
                    self.height == h0,
                    self.clients@.len() == n,
                    orig.len() == n,
                    stack as int == stack_slot_height(h0, n as int),
                    master_w == w0 as int / 2,
                    forall|j: int|
                        0 <= j < i ==> self.clients@[j] == relayout_client(
                            w0,
                            h0,
                            n as int,
                            j,
                            orig[j],
                        ),
                    forall|j: int| i <= j < n ==> self.clients@[j] == orig[j],
                decreases n - i,
            {
                let c = self.clients[i];
                let nc = if i == n - 1 {
                    Client {
                        window: c.window,
                        pos_x: 0,
                        pos_y: 0,
                        width: master_w,
                        height: self.height,
                        reconfigure: true,
                    }
                } else {
                    proof {
                        lemma_stack_slot_bounds(h0, n as int, i as int);
                    }
                    let y: usize = i * (stack as usize);
                    Client {
                        window: c.window,
                        pos_x: master_w as i32,
                        pos_y: y as i32,
                        width: master_w,
                        height: stack,
                        reconfigure: true,
                    }
                };
                self.clients.set(i, nc);
                i += 1;
            }
            proof {
                assert(self.clients@ =~= relayout_spec(w0, h0, orig));
            }
        } else if n == 1 {
            let c = self.clients[0];
            let w = self.width;
            let h = self.height;
            self.clients.set(
                0,
                Client { window: c.window, pos_x: 0, pos_y: 0, width: w, height: h, reconfigure: true },
            );
            proof {
                assert(self.clients@ =~= relayout_spec(w0, h0, orig));
            }
        } else {
            proof {
                assert(self.clients@ =~= relayout_spec(w0, h0, orig));
            }
        }
    }

    /// Append a freshly mapped window — it becomes master and focus
    /// candidate — and recompute all rectangles.  Always succeeds.
    pub fn position_new_client(&mut self, client: Client)
        ensures
            final(self).width == old(self).width,
            final(self).height == old(self).height,
            final(self).clients@ == relayout_spec(
                old(self).width,
                old(self).height,
                old(self).clients@.push(client),
            ),
    {
        self.clients.push(client);
        self.reorder_clients();
    }

    /// Remove the window at `client_index` and recompute all
    /// rectangles.  An index outside `[0, len)` signals `OutOfRange`
    /// and leaves the layout untouched.
    pub fn remove_client(&mut self, client_index: usize) -> (r: Result<(), LayoutError>)
        ensures
            final(self).width == old(self).width,
            final(self).height == old(self).height,
            client_index < old(self).clients@.len() ==> {
                &&& r == Ok::<(), LayoutError>(())
                &&& final(self).clients@ == relayout_spec(
                    old(self).width,
                    old(self).height,
                    old(self).clients@.remove(client_index as int),
                )
            },
            client_index >= old(self).clients@.len() ==> {
                &&& r == Err::<(), LayoutError>(LayoutError::OutOfRange)
                &&& *final(self) == *old(self)
            },
    {
        if client_index >= self.clients.len() {
            return Err(LayoutError::OutOfRange);
        }
        self.clients.remove(client_index);
        self.reorder_clients();
        Ok(())
    }

    /// The window input focus should go to: the most recently inserted
    /// one, at the end of the collection.  Signals `Empty` when no
    /// window is managed.
    pub fn get_client_to_focus(&self) -> (r: Result<&Client, LayoutError>)
        ensures
            match r {
                Ok(c) => self.clients@.len() > 0 && *c == self.clients@.last(),
                Err(e) => self.clients@.len() == 0 && e == LayoutError::Empty,
            },
    {
        if self.clients.len() == 0 {
            Err(LayoutError::Empty)
        } else {
            let i = self.clients.len() - 1;
            Ok(&self.clients[i])
        }
    }
}

/// Law: after a relayout the assigned rectangles are pairwise
/// non-overlapping.  Since every insertion and removal ends in a
/// relayout, this holds after any sequence of such operations.
pub proof fn lemma_relayout_disjoint(w: u16, h: u16, s: Seq<Client>)
    ensures
        forall|i: int, j: int|
            0 <= i < j < s.len() ==> rects_disjoint(
                #[trigger] relayout_spec(w, h, s)[i],
                #[trigger] relayout_spec(w, h, s)[j],
            ),
{
    let n = s.len() as int;
    assert forall|i: int, j: int| 0 <= i < j < n implies rects_disjoint(
        #[trigger] relayout_spec(w, h, s)[i],
        #[trigger] relayout_spec(w, h, s)[j],
    ) by {
        let a = relayout_spec(w, h, s)[i];
        let b = relayout_spec(w, h, s)[j];
        if j == n - 1 {
            // `a` is a stack slot, `b` the master: the master ends at
            // column w / 2, where the stack column begins.
            lemma_stack_slot_bounds(h, n, i);
            assert(b.pos_x + b.width <= a.pos_x);
        } else {
            // two stack slots: slot j starts where slot i + 1 starts
            // or later, and slot i ends where slot i + 1 starts.
            let st = stack_slot_height(h, n);
            lemma_stack_slot_bounds(h, n, i);
            lemma_stack_slot_bounds(h, n, j);
            lemma_mul_is_distributive_add_other_way(st, i, 1);
            lemma_mul_inequality(i + 1, j, st);
            assert(a.pos_y + a.height <= b.pos_y);
        }
    };
}

/// Law: with one window, its rectangle is the whole viewport; with
/// more, the most recently inserted window is the master and fills the
/// left half, full height.
pub proof fn lemma_master_geometry(w: u16, h: u16, s: Seq<Client>)
    requires
        s.len() >= 1,
    ensures
        s.len() == 1 ==> {
            let c = relayout_spec(w, h, s)[0];
            c.pos_x == 0 && c.pos_y == 0 && c.width == w && c.height == h
        },
        s.len() > 1 ==> {
            let c = relayout_spec(w, h, s)[s.len() - 1];
            c.pos_x == 0 && c.pos_y == 0 && c.width == w as int / 2 && c.height == h
        },
{
}

/// Law: for `n > 1` windows the `n - 1` stack slots tile the right
/// column contiguously — slot `k` starts `k * floor(h / (n-1))` rows
/// down and each is `floor(h / (n-1))` rows tall — so their union is
/// `(n-1) * floor(h / (n-1))` rows, which falls short of the viewport
/// height by exactly `h % (n-1)` uncovered rows at the bottom.
pub proof fn lemma_stack_coverage(w: u16, h: u16, s: Seq<Client>)
    requires
        s.len() > 1,
    ensures
        ({
            let n = s.len() as int;
            let st = stack_slot_height(h, n);
            &&& forall|k: int|
                0 <= k < n - 1 ==> (#[trigger] relayout_spec(w, h, s)[k]).pos_y == k * st
            &&& forall|k: int|
                0 <= k < n - 1 ==> (#[trigger] relayout_spec(w, h, s)[k]).height == st
            &&& (n - 1) * st + h as int % (n - 1) == h as int
            &&& 0 <= h as int % (n - 1) < n - 1
        }),
{
    let n = s.len() as int;
    let st = stack_slot_height(h, n);
    lemma_fundamental_div_mod(h as int, n - 1);
    lemma_mod_division_less_than_divisor(h as int, n - 1);
    assert forall|k: int| 0 <= k < n - 1 implies (#[trigger] relayout_spec(w, h, s)[k]).pos_y
        == k * st && relayout_spec(w, h, s)[k].height == st by {
        lemma_stack_slot_bounds(h, n, k);
    };
}

/// Law: a relayout is idempotent — running it again without an
/// intervening insertion or removal reproduces the same geometry.
pub proof fn lemma_relayout_idempotent(w: u16, h: u16, s: Seq<Client>)
    ensures
        relayout_spec(w, h, relayout_spec(w, h, s)) == relayout_spec(w, h, s),
{
    let s1 = relayout_spec(w, h, s);
    let s2 = relayout_spec(w, h, s1);
    assert forall|i: int| 0 <= i < s.len() implies s2[i] == s1[i] by {
        assert(s1[i].window == s[i].window);
    };
    assert(s2 =~= s1);
}

/// Law: the focus candidate — the last window — is always the most
/// recently inserted survivor.  Inserting a window makes it the
/// candidate; removing the candidate passes the role to the next most
/// recently inserted window, not to the oldest one.
pub proof fn lemma_focus_candidate_recency(w: u16, h: u16, s: Seq<Client>, c: Client)
    ensures
        relayout_spec(w, h, s.push(c)).last().window == c.window,
        s.len() > 1 ==> relayout_spec(w, h, s.remove(s.len() - 1)).last().window == s[
            s.len() - 2
        ].window,
{
}

/// Law: a relayout assigns geometry only; it keeps the number, the
/// identity and the insertion order of the windows.  Hence the last
/// window — the focus candidate — is always the most recently inserted
/// one that survived all removals.
pub proof fn lemma_relayout_preserves_windows(w: u16, h: u16, s: Seq<Client>)
    ensures
        relayout_spec(w, h, s).len() == s.len(),
        forall|i: int|
            0 <= i < s.len() ==> (#[trigger] relayout_spec(w, h, s)[i]).window == s[i].window,
{
}

/// Every position a relayout produces lies inside the viewport, so it
/// fits the bounds that absolute-coordinate translation relies on.
pub proof fn lemma_relayout_bounded(w: u16, h: u16, s: Seq<Client>)
    ensures
        forall|i: int| 0 <= i < s.len() ==> (#[trigger] relayout_spec(w, h, s)[i]).bounded(),
{
    assert forall|i: int| 0 <= i < s.len() implies (#[trigger] relayout_spec(w, h, s)[
        i
    ]).bounded() by {
        let n = s.len() as int;
        if n > 1 && i < n - 1 {
            lemma_stack_slot_bounds(h, n, i);
        }
    };
}

} // verus!
