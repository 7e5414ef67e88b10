//! Changing the role of a component's surface between a layer surface and a
//! window: when the change is refused, and what the shell tears down and
//! resets when it happens.
use vstd::prelude::*;
use crate::keyed::{keyed_remove, keyed_view};
use crate::shell::{
    action_views, bookkeeping_unchanged, child_popup_teardown, first_child_ids, focus_after_hide,
    focus_after_teardown, others_unchanged, parent_component, same_identity, ActionView, ComponentRuntime, Shell,
    ShellAction,
};
use crate::text;
use crate::types::{opt_text, SurfaceRole};

verus! {

/// The role a toggle switches a surface to.
pub open spec fn toggled(current: SurfaceRole) -> SurfaceRole {
    match current {
        SurfaceRole::Window => SurfaceRole::Layer,
        SurfaceRole::Layer => SurfaceRole::Window,
    }
}

pub fn toggled_surface_role(current: SurfaceRole) -> (r: SurfaceRole)
    ensures
        r == toggled(current),
{
    match current {
        SurfaceRole::Window => SurfaceRole::Layer,
        SurfaceRole::Layer => SurfaceRole::Window,
    }
}

/// Whether a change of surface `id` from `current` to `role` is refused: no
/// component owns the surface, the role is already `current`, the
/// component does not allow the change (`change_allowed`), the surface is
/// realized as a popover, or it is to become a window where the compositor
/// offers none (`window_supported`).
pub open spec fn role_change_refused(
    s: Shell,
    id: Seq<char>,
    role: SurfaceRole,
    current: SurfaceRole,
    change_allowed: bool,
    window_supported: bool,
) -> bool {
    match parent_component(s.components@, id) {
        None => true,
        Some(i) => {
            ||| current == role
            ||| !change_allowed
            ||| s.components@[i].popup_parent_surface is Some
            ||| role == SurfaceRole::Window && !window_supported
        },
    }
}

/// `new` is component `old` after its surface took `role`: no child
/// surfaces, a full present asked for, and for a window no keyboard
/// override.
pub open spec fn role_changed_component(new: ComponentRuntime, old: ComponentRuntime, role: SurfaceRole) -> bool {
    &&& same_identity(new, old)
    &&& new.keyboard_mode_override == if role == SurfaceRole::Window {
        None
    } else {
        old.keyboard_mode_override
    }
    &&& new.surface_exiting == old.surface_exiting
    &&& new.popup_parent_surface == old.popup_parent_surface
    &&& new.popup_promoted == old.popup_promoted
    &&& new.children@.len() == 0
    &&& new.force_full_present
}

/// `new` is `old` after surface `id` changed to `role`, with actions `r`:
/// the component's child surfaces are torn down (their popups destroyed,
/// their records dropped, their focus lost), the surface object is
/// destroyed, and the component is told of its new role. A window has no
/// keyboard interactivity of its own: the surface's transfer-owned keyboard
/// mode is forgotten and it loses keyboard focus.
pub open spec fn role_changed(new: Shell, old: Shell, id: Seq<char>, role: SurfaceRole, r: Seq<ActionView>) -> bool {
    let i = parent_component(old.components@, id).unwrap();
    let c = old.components@[i];
    let gone = first_child_ids(c.children@, c.children@.len() as int);
    let window = role == SurfaceRole::Window;
    &&& keyed_view(new.core_surfaces@) == keyed_view(old.core_surfaces@).remove_keys(gone)
    &&& keyed_view(new.surfaces@) == keyed_view(old.surfaces@).remove_keys(gone)
    &&& keyed_view(new.transfer_owned_keyboard_modes@) == if window {
        keyed_view(old.transfer_owned_keyboard_modes@).remove(id)
    } else {
        keyed_view(old.transfer_owned_keyboard_modes@)
    }
    &&& opt_text(new.keyboard_focus_surface) == if window {
        focus_after_hide(focus_after_teardown(opt_text(old.keyboard_focus_surface), gone), id)
    } else {
        focus_after_teardown(opt_text(old.keyboard_focus_surface), gone)
    }
    &&& others_unchanged(new.components@, old.components@, Some(i))
    &&& role_changed_component(new.components@[i], c, role)
    &&& r == child_popup_teardown(c.children@, c.children@.len() as int) + seq![
        ActionView::DestroySurface { surface_id: id },
        ActionView::ChangeSurfaceRole { component: i as usize, role },
    ]
    &&& new.pending_popover_hides == old.pending_popover_hides
    &&& new.debug == old.debug
    &&& bookkeeping_unchanged(new, old)
}

impl Shell {
    /// Changes the role of surface `surface_id` to `role`, given its
    /// component's `current_role`, whether the component allows the change
    /// (`change_allowed`) and whether the compositor offers windows
    /// (`window_supported`). A refused change changes nothing.
    pub fn set_surface_role(
        &mut self,
        surface_id: &str,
        role: SurfaceRole,
        current_role: SurfaceRole,
        change_allowed: bool,
        window_supported: bool,
    ) -> (r: Vec<ShellAction>)
        ensures
            role_change_refused(*old(self), surface_id@, role, current_role, change_allowed, window_supported)
                ==> *final(self) == *old(self) && r@.len() == 0,
            !role_change_refused(*old(self), surface_id@, role, current_role, change_allowed, window_supported)
                ==> role_changed(*final(self), *old(self), surface_id@, role, action_views(r@)),
    {
        let mut actions: Vec<ShellAction> = Vec::new();
        let index = match self.parent_index_for_surface(surface_id) {
            Some(index) => index,
            None => {
                return actions;
            },
        };
        if current_role == role || !change_allowed || self.components[index].popup_parent_surface.is_some() || (role
            == SurfaceRole::Window && !window_supported) {
            return actions;
        }
        let ghost c = self.components@[index as int];
        let ghost gone = first_child_ids(c.children@, c.children@.len() as int);
        let ghost focus0 = opt_text(self.keyboard_focus_surface);
        self.tear_down_child_surfaces(index, &mut actions);
        let ghost torn = action_views(actions@);
        assert(torn =~= child_popup_teardown(c.children@, c.children@.len() as int));
        self.components[index].children = Vec::new();
        actions.push(ShellAction::DestroySurface { surface_id: String::from_str(surface_id) });
        if role == SurfaceRole::Window {
            self.components[index].keyboard_mode_override = None;
            keyed_remove(&mut self.transfer_owned_keyboard_modes, surface_id);
            let focused = match &self.keyboard_focus_surface {
                Some(focus) => text::str_eq(focus.as_str(), surface_id),
                None => false,
            };
            if focused {
                self.keyboard_focus_surface = None;
            }
        } else {
            assert(opt_text(self.keyboard_focus_surface) == focus_after_teardown(focus0, gone));
        }
        actions.push(ShellAction::ChangeSurfaceRole { component: index, role });
        self.components[index].force_full_present = true;
        proof {
            assert(action_views(actions@) =~= torn + seq![
                ActionView::DestroySurface { surface_id: surface_id@ },
                ActionView::ChangeSurfaceRole { component: index, role },
            ]);
        }
        actions
    }

    /// Switches surface `surface_id` to the role it does not have, given its
    /// component's `current_role`; see `set_surface_role`.
    pub fn toggle_surface_role(
        &mut self,
        surface_id: &str,
        current_role: SurfaceRole,
        change_allowed: bool,
        window_supported: bool,
    ) -> (r: Vec<ShellAction>)
        ensures
            role_change_refused(*old(self), surface_id@, toggled(current_role), current_role, change_allowed, window_supported)
                ==> *final(self) == *old(self) && r@.len() == 0,
            !role_change_refused(*old(self), surface_id@, toggled(current_role), current_role, change_allowed, window_supported)
                ==> role_changed(*final(self), *old(self), surface_id@, toggled(current_role), action_views(r@)),
    {
        let role = toggled_surface_role(current_role);
        self.set_surface_role(surface_id, role, current_role, change_allowed, window_supported)
    }
}

/// Whether a change of the widget at `node_key` in surface `id` to `role`
/// is refused before its component is asked: the surface root cannot
/// change as a widget, no component owns the surface, or the widget is to
/// become a window where the compositor offers none.
pub open spec fn child_role_change_refused(s: Shell, id: Seq<char>, node_key: Seq<char>, role: SurfaceRole, window_supported: bool) -> bool {
    ||| node_key.len() == 0
    ||| node_key == "root"@
    ||| parent_component(s.components@, id) is None
    ||| role == SurfaceRole::Window && !window_supported
}

/// The first child surface of `c` built for the widget at `node_key`.
pub open spec fn first_child_for_node(c: ComponentRuntime, node_key: Seq<char>, k: int) -> bool {
    &&& 0 <= k < c.children@.len()
    &&& c.children@[k].node_key@ == node_key
    &&& forall|m: int| 0 <= m < k ==> c.children@[m].node_key@ != node_key
}

/// `new` is `old` after the child surface of surface `id` built for the
/// widget at `node_key`, if any, was torn down: its popup destroyed, its
/// records dropped, its focus lost, and the child itself removed.
pub open spec fn child_node_torn_down(new: Shell, old: Shell, id: Seq<char>, node_key: Seq<char>, r: Seq<ActionView>) -> bool {
    match parent_component(old.components@, id) {
        Some(i) if exists|k: int| first_child_for_node(old.components@[i], node_key, k) => {
            let c = old.components@[i];
            let k = choose|k: int| first_child_for_node(c, node_key, k);
            let child = c.children@[k];
            let gone = set![child.surface_id@];
            &&& keyed_view(new.core_surfaces@) == keyed_view(old.core_surfaces@).remove_keys(gone)
            &&& keyed_view(new.surfaces@) == keyed_view(old.surfaces@).remove_keys(gone)
            &&& opt_text(new.keyboard_focus_surface) == focus_after_teardown(opt_text(old.keyboard_focus_surface), gone)
            &&& others_unchanged(new.components@, old.components@, Some(i))
            &&& same_identity(new.components@[i], c)
            &&& new.components@[i].keyboard_mode_override == c.keyboard_mode_override
            &&& new.components@[i].surface_exiting == c.surface_exiting
            &&& new.components@[i].popup_parent_surface == c.popup_parent_surface
            &&& new.components@[i].popup_promoted == c.popup_promoted
            &&& new.components@[i].force_full_present == c.force_full_present
            &&& new.components@[i].children@ == c.children@.remove(k)
            &&& r == if child.popup_parent_surface is Some {
                seq![ActionView::DestroyPopup { surface_id: child.surface_id@ }]
            } else {
                seq![]
            }
            &&& new.transfer_owned_keyboard_modes == old.transfer_owned_keyboard_modes
            &&& new.pending_popover_hides == old.pending_popover_hides
            &&& new.debug == old.debug
            &&& bookkeeping_unchanged(new, old)
        },
        _ => new == old && r.len() == 0,
    }
}

impl Shell {
    /// Whether changing the widget at `node_key` in surface `surface_id` to
    /// `role` is refused before its component is asked.
    pub fn child_surface_role_change_refused(&self, surface_id: &str, node_key: &str, role: SurfaceRole, window_supported: bool) -> (r: bool)
        ensures
            r == child_role_change_refused(*self, surface_id@, node_key@, role, window_supported),
    {
        proof {
            reveal_strlit("root");
        }
        node_key.unicode_len() == 0 || text::str_eq(node_key, "root") || self.parent_index_for_surface(surface_id).is_none()
            || (role == SurfaceRole::Window && !window_supported)
    }

    /// Tears down the child surface of surface `surface_id` built for the
    /// widget at `node_key`, once the component switched the widget's role:
    /// a new child surface is built for it on the next frame.
    pub fn destroy_child_surface_for_node(&mut self, surface_id: &str, node_key: &str) -> (r: Vec<ShellAction>)
        ensures
            child_node_torn_down(*final(self), *old(self), surface_id@, node_key@, action_views(r@)),
    {
        let mut actions: Vec<ShellAction> = Vec::new();
        let index = match self.parent_index_for_surface(surface_id) {
            Some(index) => index,
            None => {
                return actions;
            },
        };
        let n = self.components[index].children.len();
        let mut k: usize = 0;
        while k < n && !text::str_eq(self.components[index].children[k].node_key.as_str(), node_key)
            invariant
                index < self.components@.len(),
                n == self.components@[index as int].children@.len(),
                k <= n,
                forall|m: int| 0 <= m < k ==> self.components@[index as int].children@[m].node_key@ != node_key@,
                *self == *old(self),
                actions@.len() == 0,
            decreases n - k,
        {
            k = k + 1;
        }
        if k == n {
            proof {
                assert(!exists|j: int| first_child_for_node(self.components@[index as int], node_key@, j));
            }
            return actions;
        }
        let ghost c = self.components@[index as int];
        proof {
            assert(first_child_for_node(c, node_key@, k as int));
            let j = choose|j: int| first_child_for_node(c, node_key@, j);
            assert(j == k as int) by {
                if j < k as int {
                } else if j > k as int {
                }
            }
        }
        self.tear_down_child_at(index, k)
    }

    /// Tears down child surface `k` of the component at `index`.
    #[verifier::spinoff_prover]
    fn tear_down_child_at(&mut self, index: usize, k: usize) -> (r: Vec<ShellAction>)
        requires
            index < old(self).components@.len(),
            k < old(self).components@[index as int].children@.len(),
        ensures
            ({
                let c = old(self).components@[index as int];
                let child = c.children@[k as int];
                let gone = set![child.surface_id@];
                &&& keyed_view(final(self).core_surfaces@) == keyed_view(old(self).core_surfaces@).remove_keys(gone)
                &&& keyed_view(final(self).surfaces@) == keyed_view(old(self).surfaces@).remove_keys(gone)
                &&& opt_text(final(self).keyboard_focus_surface) == focus_after_teardown(opt_text(old(self).keyboard_focus_surface), gone)
                &&& others_unchanged(final(self).components@, old(self).components@, Some(index as int))
                &&& same_identity(final(self).components@[index as int], c)
                &&& final(self).components@[index as int].keyboard_mode_override == c.keyboard_mode_override
                &&& final(self).components@[index as int].surface_exiting == c.surface_exiting
                &&& final(self).components@[index as int].popup_parent_surface == c.popup_parent_surface
                &&& final(self).components@[index as int].popup_promoted == c.popup_promoted
                &&& final(self).components@[index as int].force_full_present == c.force_full_present
                &&& final(self).components@[index as int].children@ == c.children@.remove(k as int)
                &&& action_views(r@) == if child.popup_parent_surface is Some {
                    seq![ActionView::DestroyPopup { surface_id: child.surface_id@ }]
                } else {
                    seq![]
                }
            }),
            final(self).transfer_owned_keyboard_modes == old(self).transfer_owned_keyboard_modes,
            final(self).pending_popover_hides == old(self).pending_popover_hides,
            final(self).debug == old(self).debug,
            bookkeeping_unchanged(*final(self), *old(self)),
    {
        let mut actions: Vec<ShellAction> = Vec::new();
        let ghost c = self.components@[index as int];
        let id = self.components[index].children[k].surface_id.clone();
        if self.components[index].children[k].popup_parent_surface.is_some() {
            actions.push(ShellAction::DestroyPopup { surface_id: id.clone() });
        }
        keyed_remove(&mut self.core_surfaces, id.as_str());
        keyed_remove(&mut self.surfaces, id.as_str());
        let focused = match &self.keyboard_focus_surface {
            Some(f) => text::str_eq(f.as_str(), id.as_str()),
            None => false,
        };
        if focused {
            self.keyboard_focus_surface = None;
        }
        self.components[index].children.remove(k);
        proof {
            assert(keyed_view(self.core_surfaces@) =~= keyed_view(old(self).core_surfaces@).remove_keys(set![id@]));
            assert(keyed_view(self.surfaces@) =~= keyed_view(old(self).surfaces@).remove_keys(set![id@]));
            assert(action_views(actions@) =~= if c.children@[k as int].popup_parent_surface is Some {
                seq![ActionView::DestroyPopup { surface_id: id@ }]
            } else {
                seq![]
            });
        }
        actions
    }
}

} // verus!
