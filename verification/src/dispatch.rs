//! Handling one mouse event on a scene, step by step: the scene decides what changes
//! and which widgets receive which events; the application delivers each event along
//! the widget's route (looking up widget properties and reporting their actions) and
//! asks for the next step.
use vstd::prelude::*;

use crate::event::{MouseEvent, MouseEventKind};
use crate::gui::Scene;
use crate::slotmap::SlotKey;

verus! {

/// What handling a mouse event asks of the application next.
#[derive(Copy, Clone, Debug, PartialEq, Eq, Structural)]
pub enum DispatchAction {
    /// Deliver `mouse` to `target` along its route, then take the next step.
    Deliver { target: SlotKey, mouse: MouseEvent },
    /// Take the next step.
    Continue,
    /// The requested popup cannot be shown: its menu has a parent other than the root
    /// panel, or its placement overflows.
    PopupRejected,
    /// The event has been handled.
    Done,
}

/// Where handling a mouse event stands.
#[derive(Copy, Clone, Debug, PartialEq, Eq, Structural)]
pub enum DispatchStage {
    /// A press may first close the popups.
    Start,
    /// The popups are closed.
    HidePopup,
    /// The event goes to the captured widget, else to the hovered one.
    Route,
    /// The captured widget has had the event; if it released the pointer, the hovered
    /// widget becomes the pointed one.
    AfterCaptured,
    /// A popup request made by the widgets is carried out.
    ApplyPopup,
    /// Nothing is left to do.
    Done,
}

/// The handling of one mouse event: the event, the widget under the pointer when it
/// came, where the handling stands and the deliveries still to make, first first.
pub struct MouseDispatch {
    pub mouse: MouseEvent,
    pub hovered: Option<SlotKey>,
    pub stage: DispatchStage,
    pub pending: Vec<(SlotKey, MouseEvent)>,
}

/// The `Leave` and `Enter` deliveries that pointing at `new` instead of `old` makes,
/// with the pointer at `mouse`'s position.
pub open spec fn pointer_moves(old: Option<SlotKey>, new: Option<SlotKey>, mouse: MouseEvent) -> Seq<(SlotKey, MouseEvent)> {
    if old == new {
        seq![]
    } else {
        let leave = match old {
            Some(o) => seq![(o, MouseEvent { kind: MouseEventKind::Leave, pointer: mouse.pointer })],
            None => seq![],
        };
        let enter = match new {
            Some(n) => seq![(n, MouseEvent { kind: MouseEventKind::Enter, pointer: mouse.pointer })],
            None => seq![],
        };
        leave + enter
    }
}

/// `new` is `old` with `pointed` as its pointed widget and nothing else changed.
pub open spec fn repointed(new: Scene, old: Scene, pointed: Option<SlotKey>) -> bool {
    &&& new.wf()
    &&& new.slots_view() == old.slots_view()
    &&& new.tree_view().pointed_to(old.tree_view(), pointed)
}

/// What a step does: `scene` and `d` are `old` and `d0` after the step, which asked
/// `r` of the application.
pub open spec fn step_applied(scene: Scene, old: Scene, d: MouseDispatch, d0: MouseDispatch, r: DispatchAction) -> bool {
    let pointed = old.tree_view().spec_pointed();
    &&& d.mouse == d0.mouse
    &&& d.hovered == d0.hovered
    &&& if d0.pending@.len() > 0 {
        &&& r == DispatchAction::Deliver { target: d0.pending@[0].0, mouse: d0.pending@[0].1 }
        &&& d.pending@ == d0.pending@.drop_first()
        &&& d.stage == d0.stage
        &&& scene == old
    } else {
        match d0.stage {
            DispatchStage::Start => {
                &&& r == DispatchAction::Continue
                &&& if d0.mouse.kind is ButtonDown && old.spec_press_dismisses_popup(d0.hovered) {
                    &&& repointed(scene, old, d0.hovered)
                    &&& d.pending@ == pointer_moves(pointed, d0.hovered, d0.mouse)
                    &&& d.stage == DispatchStage::HidePopup
                } else {
                    &&& scene == old
                    &&& d.pending@.len() == 0
                    &&& d.stage == DispatchStage::Route
                }
            },
            DispatchStage::HidePopup => {
                &&& r == DispatchAction::Continue
                &&& scene.wf()
                &&& scene.slots_view() == old.slots_view()
                &&& scene.tree_view().popup_tail_closed(old.tree_view(), 0)
                &&& scene.tree_view().popup_chain_view().len() == 0
                &&& scene.tree_view().spec_popup_owner() is None
                &&& scene.tree_view().spec_popup_request() is None
                &&& d.pending@.len() == 0
                &&& d.stage == DispatchStage::Route
            },
            DispatchStage::Route => {
                &&& r == DispatchAction::Continue
                &&& match old.tree_view().spec_captured() {
                    Some(c) => {
                        &&& repointed(scene, old, Some(c))
                        &&& d.pending@ == pointer_moves(pointed, Some(c), d0.mouse).push((c, d0.mouse))
                        &&& d.stage == DispatchStage::AfterCaptured
                    },
                    None => {
                        &&& repointed(scene, old, d0.hovered)
                        &&& d.pending@ == pointer_moves(pointed, d0.hovered, d0.mouse) + match d0.hovered {
                            Some(t) => seq![(t, d0.mouse)],
                            None => seq![],
                        }
                        &&& d.stage == DispatchStage::ApplyPopup
                    },
                }
            },
            DispatchStage::AfterCaptured => {
                &&& r == DispatchAction::Continue
                &&& if old.tree_view().spec_captured() is None {
                    &&& repointed(scene, old, d0.hovered)
                    &&& d.pending@ == pointer_moves(pointed, d0.hovered, d0.mouse)
                } else {
                    &&& scene == old
                    &&& d.pending@.len() == 0
                }
                &&& d.stage == DispatchStage::ApplyPopup
            },
            DispatchStage::ApplyPopup => {
                &&& d.pending@.len() == 0
                &&& d.stage == DispatchStage::Done
                &&& if old.can_apply_popup_request() {
                    &&& r == DispatchAction::Done
                    &&& scene.wf()
                    &&& scene.slots_view() == old.slots_view()
                    &&& scene.tree_view().spec_popup_request() is None
                    &&& scene.tree_view().popup_request_applied(old.tree_view(), old.requested_height())
                } else {
                    &&& r == DispatchAction::PopupRejected
                    &&& scene == old
                }
            },
            DispatchStage::Done => {
                &&& r == DispatchAction::Done
                &&& scene == old
                &&& d.pending@.len() == 0
                &&& d.stage == DispatchStage::Done
            },
        }
    }
}

/// Returns the deliveries that pointing at `new` makes, the pointer being at `mouse`.
fn moves_of(moved: (Option<SlotKey>, Option<SlotKey>), mouse: MouseEvent, Ghost(old): Ghost<Option<SlotKey>>, Ghost(new): Ghost<Option<SlotKey>>) -> (r: Vec<(SlotKey, MouseEvent)>)
    requires
        moved == if old == new { (None::<SlotKey>, None::<SlotKey>) } else { (old, new) },
    ensures
        r@ == pointer_moves(old, new, mouse),
{
    let mut r: Vec<(SlotKey, MouseEvent)> = Vec::new();
    match moved.0 {
        Some(o) => r.push((o, MouseEvent { kind: MouseEventKind::Leave, pointer: mouse.pointer })),
        None => {},
    }
    match moved.1 {
        Some(n) => r.push((n, MouseEvent { kind: MouseEventKind::Enter, pointer: mouse.pointer })),
        None => {},
    }
    proof {
        assert(r@ =~= pointer_moves(old, new, mouse));
    }
    r
}

impl Scene {
    /// Starts handling `mouse`: the widget under the pointer is the hovered one.
    pub fn start_mouse_dispatch(&self, mouse: MouseEvent) -> (d: MouseDispatch)
        requires
            self.wf(),
        ensures
            d.mouse == mouse,
            d.hovered == self.spec_hit_test(mouse.pointer),
            d.stage == DispatchStage::Start,
            d.pending@.len() == 0,
    {
        MouseDispatch { mouse, hovered: self.hit_test(mouse.pointer), stage: DispatchStage::Start, pending: Vec::new() }
    }

    /// Takes the next step of handling a mouse event (see [`step_applied`]). A press
    /// away from the open popups, their menus and the menu entries beside their owner
    /// first moves the pointer and closes them. The event then goes to the widget that
    /// captured the pointer, pointed at first; if that widget released the pointer, the
    /// hovered widget becomes the pointed one again. Without a capture the hovered
    /// widget becomes the pointed one and gets the event. Last, a popup request that
    /// the widgets made is carried out.
    pub fn dispatch_step(&mut self, d: &mut MouseDispatch) -> (r: DispatchAction)
        requires
            old(self).wf(),
        ensures
            final(self).wf(),
            step_applied(*final(self), *old(self), *final(d), *old(d), r),
    {
        if d.pending.len() > 0 {
            let (target, mouse) = d.pending.remove(0);
            return DispatchAction::Deliver { target, mouse };
        }
        let ghost pointed = self.tree_view().spec_pointed();
        match d.stage {
            DispatchStage::Start => {
                let press = match d.mouse.kind {
                    MouseEventKind::ButtonDown { .. } => true,
                    _ => false,
                };
                if press && self.press_dismisses_popup(d.hovered) {
                    let moved = self.update_pointed(d.hovered);
                    d.pending = moves_of(moved, d.mouse, Ghost(pointed), Ghost(d.hovered));
                    d.stage = DispatchStage::HidePopup;
                } else {
                    d.stage = DispatchStage::Route;
                }
                DispatchAction::Continue
            },
            DispatchStage::HidePopup => {
                self.hide_popup();
                d.stage = DispatchStage::Route;
                DispatchAction::Continue
            },
            DispatchStage::Route => {
                match self.tree().captured() {
                    Some(c) => {
                        let moved = self.update_pointed(Some(c));
                        let mut pending = moves_of(moved, d.mouse, Ghost(pointed), Ghost(Some(c)));
                        pending.push((c, d.mouse));
                        d.pending = pending;
                        d.stage = DispatchStage::AfterCaptured;
                    },
                    None => {
                        let moved = self.update_pointed(d.hovered);
                        let mut pending = moves_of(moved, d.mouse, Ghost(pointed), Ghost(d.hovered));
                        let ghost moves = pending@;
                        match d.hovered {
                            Some(t) => pending.push((t, d.mouse)),
                            None => {},
                        }
                        proof {
                            assert(pending@ =~= moves + match d.hovered {
                                Some(t) => seq![(t, d.mouse)],
                                None => seq![],
                            });
                        }
                        d.pending = pending;
                        d.stage = DispatchStage::ApplyPopup;
                    },
                }
                DispatchAction::Continue
            },
            DispatchStage::AfterCaptured => {
                if self.tree().captured().is_none() {
                    let moved = self.update_pointed(d.hovered);
                    d.pending = moves_of(moved, d.mouse, Ghost(pointed), Ghost(d.hovered));
                }
                d.stage = DispatchStage::ApplyPopup;
                DispatchAction::Continue
            },
            DispatchStage::ApplyPopup => {
                d.stage = DispatchStage::Done;
                if self.check_apply_popup_request() {
                    self.apply_popup_request();
                    DispatchAction::Done
                } else {
                    DispatchAction::PopupRejected
                }
            },
            DispatchStage::Done => DispatchAction::Done,
        }
    }
}

/// Only a button press may close the popups: at the start of handling any other event
/// the scene, its popup chain included, is left as it is, nothing is delivered, and
/// the event goes straight on to be routed.
pub proof fn law_only_press_closes_popups(scene: Scene, old: Scene, d: MouseDispatch, d0: MouseDispatch, r: DispatchAction)
    requires
        step_applied(scene, old, d, d0, r),
        d0.pending@.len() == 0,
        d0.stage == DispatchStage::Start,
        !(d0.mouse.kind is ButtonDown),
    ensures
        scene == old,
        scene.tree_view().popup_chain_view() == old.tree_view().popup_chain_view(),
        d.pending@.len() == 0,
        d.stage == DispatchStage::Route,
        r == DispatchAction::Continue,
{
}

/// A press away from the open popups closes them all: handling it first moves to
/// closing the popups, and that step leaves no popup open and none requested.
pub proof fn law_press_away_closes_popups(
    s1: Scene,
    s0: Scene,
    d1: MouseDispatch,
    d0: MouseDispatch,
    r1: DispatchAction,
    s2: Scene,
    d2: MouseDispatch,
    r2: DispatchAction,
)
    requires
        step_applied(s1, s0, d1, d0, r1),
        d0.pending@.len() == 0,
        d0.stage == DispatchStage::Start,
        d0.mouse.kind is ButtonDown,
        s0.spec_press_dismisses_popup(d0.hovered),
        d1.pending@.len() == 0,
        step_applied(s2, s1, d2, d1, r2),
    ensures
        d1.stage == DispatchStage::HidePopup,
        s2.tree_view().popup_chain_view().len() == 0,
        s2.tree_view().spec_popup_owner() is None,
        s2.tree_view().spec_popup_request() is None,
        d2.stage == DispatchStage::Route,
{
}

/// Routing an event: while a widget holds the pointer it alone receives the event and
/// becomes the pointed one; otherwise the widget under the pointer does. Before that,
/// the widget pointed before is told the pointer left (when another one is now
/// pointed), and the newly pointed one that it entered; nothing else is delivered and
/// the popups stay as they are.
pub proof fn law_route_delivers_to_one(scene: Scene, old: Scene, d: MouseDispatch, d0: MouseDispatch, r: DispatchAction)
    requires
        step_applied(scene, old, d, d0, r),
        d0.pending@.len() == 0,
        d0.stage == DispatchStage::Route,
    ensures
        ({
            let target = match old.tree_view().spec_captured() {
                Some(c) => Some(c),
                None => d0.hovered,
            };
            let before = old.tree_view().spec_pointed();
            &&& scene.tree_view().spec_pointed() == target
            &&& scene.tree_view().popup_chain_view() == old.tree_view().popup_chain_view()
            &&& scene.tree_view().spec_captured() == old.tree_view().spec_captured()
            &&& !(d0.mouse.kind is Enter || d0.mouse.kind is Leave) ==> forall|i: int| 0 <= i < d.pending@.len() && (#[trigger] d.pending@[i]).1 == d0.mouse
                ==> target == Some(d.pending@[i].0) && i == d.pending@.len() - 1
            &&& (target matches Some(t) ==> d.pending@.len() > 0 && d.pending@.last() == (t, d0.mouse))
            &&& (before != target && before is Some ==>
                d.pending@[0] == (before->Some_0, MouseEvent { kind: MouseEventKind::Leave, pointer: d0.mouse.pointer }))
            &&& (before == target ==> d.pending@.len() == (if target is Some { 1int } else { 0int }))
        }),
{
    let target = match old.tree_view().spec_captured() {
        Some(c) => Some(c),
        None => d0.hovered,
    };
    let before = old.tree_view().spec_pointed();
    let moves = pointer_moves(before, target, d0.mouse);
    assert forall|i: int| 0 <= i < moves.len() implies (#[trigger] moves[i]).1.kind is Enter || moves[i].1.kind is Leave by {}
    match old.tree_view().spec_captured() {
        Some(c) => {
            assert(d.pending@ == moves.push((c, d0.mouse)));
        },
        None => {
            assert(d.pending@ == moves + match d0.hovered {
                Some(t) => seq![(t, d0.mouse)],
                None => seq![],
            });
        },
    }
    assert forall|i: int| !(d0.mouse.kind is Enter || d0.mouse.kind is Leave) && 0 <= i < d.pending@.len() && (#[trigger] d.pending@[i]).1 == d0.mouse
        implies target == Some(d.pending@[i].0) && i == d.pending@.len() - 1 by {
        if i < moves.len() {
            assert(d.pending@[i] == moves[i]);
            assert(moves[i].1.kind is Enter || moves[i].1.kind is Leave);
            assert(d0.mouse.kind is Enter || d0.mouse.kind is Leave);
        }
    }
}

} // verus!
