//! Tab focus transfers between surfaces: the source gives up keyboard
//! delivery, the target takes it, exclusively while it owns the transfer,
//! and the keyboard mode it had before is kept to be handed back.
use vstd::prelude::*;
use crate::keyed::{keyed_view, keyed_get, keyed_put, keyed_remove};
use crate::shell::{
    ActionView, ComponentRuntime, Shell, ShellAction, SurfaceTarget, action_views, bookkeeping_unchanged,
    handed_back_mode, others_unchanged, override_only_changed, surface_component,
};
use crate::types::{CoreRequest, KeyboardMode, RequestView, TabFocusTarget, opt_text, opt_text_pair};

verus! {

/// The presentation targets with surface `id`'s keyboard mode set to `mode`,
/// if the surface has a target.
pub open spec fn with_keyboard_mode(
    targets: Map<Seq<char>, SurfaceTarget>,
    id: Seq<char>,
    mode: KeyboardMode,
) -> Map<Seq<char>, SurfaceTarget> {
    if targets.contains_key(id) {
        targets.insert(id, SurfaceTarget { keyboard_mode: mode, ..targets[id] })
    } else {
        targets
    }
}

/// Component `i` of `new` is that of `old` with its keyboard override set to
/// `mode`; the others are unchanged.
pub open spec fn override_set(new: Seq<ComponentRuntime>, old: Seq<ComponentRuntime>, i: int, mode: Option<KeyboardMode>) -> bool {
    &&& others_unchanged(new, old, Some(i))
    &&& override_only_changed(new[i], old[i])
    &&& new[i].keyboard_mode_override == mode
}

/// `new` is `old` after the source `from` of a focus transfer gave up the
/// keyboard, with actions `r`: its component is told that focus leaves and
/// loses its transfer-owned mode (an on-demand surface being reconfigured
/// without keyboard interactivity), keeping a no-interactivity override
/// only where it had no mode to hand back; its surface takes keyboard input
/// no more.
pub open spec fn source_released(new: Shell, old: Shell, from: Seq<char>, r: Seq<ActionView>) -> bool {
    let owned = keyed_view(old.transfer_owned_keyboard_modes@);
    let targets = keyed_view(old.surfaces@);
    let back = handed_back_mode(owned, targets, from);
    &&& keyed_view(new.surfaces@) == with_keyboard_mode(targets, from, KeyboardMode::NoInteractivity)
    &&& match surface_component(old.components@, from) {
        Some(i) => {
            &&& override_set(
                new.components@,
                old.components@,
                i,
                if back is Some {
                    None
                } else {
                    Some(KeyboardMode::NoInteractivity)
                },
            )
            &&& keyed_view(new.transfer_owned_keyboard_modes@) == owned.remove(from)
            &&& r == seq![ActionView::ReleaseFocusForTransfer { component: i as usize }] + if back == Some(
                KeyboardMode::OnDemand,
            ) {
                seq![ActionView::ConfigureKeyboardMode { surface_id: from, mode: KeyboardMode::NoInteractivity }]
            } else {
                seq![]
            }
        },
        None => {
            &&& new.components == old.components
            &&& new.transfer_owned_keyboard_modes == old.transfer_owned_keyboard_modes
            &&& r.len() == 0
        },
    }
    &&& new.core_surfaces == old.core_surfaces
    &&& new.pending_popover_hides == old.pending_popover_hides
    &&& new.keyboard_focus_surface == old.keyboard_focus_surface
    &&& new.debug == old.debug
    &&& bookkeeping_unchanged(new, old)
}

/// `new` is `old` after the target `to` of a focus transfer took the
/// keyboard, with actions `r` and follow-up `requests`. A target that owns
/// the transfer (it closes when left, or the source closes) keeps the mode
/// it had, to be handed back later, and takes keyboard input exclusively;
/// otherwise it takes it on demand. Without a component for the target the
/// transfer is dropped and its surface gets back the mode it had.
pub open spec fn target_focused(
    new: Shell,
    old: Shell,
    to: Seq<char>,
    target: TabFocusTarget,
    return_target: Option<(Seq<char>, Seq<char>)>,
    closes_on_leave: bool,
    close_source: Option<Seq<char>>,
    r: Seq<ActionView>,
    requests: Seq<RequestView>,
) -> bool {
    let owned = keyed_view(old.transfer_owned_keyboard_modes@);
    let targets = keyed_view(old.surfaces@);
    let restore = handed_back_mode(owned, targets, to);
    let owns = closes_on_leave || close_source is Some;
    &&& match surface_component(old.components@, to) {
        Some(i) => {
            &&& override_set(
                new.components@,
                old.components@,
                i,
                if owns {
                    Some(KeyboardMode::Exclusive)
                } else {
                    None
                },
            )
            &&& keyed_view(new.transfer_owned_keyboard_modes@) == if owns {
                owned.insert(
                    to,
                    match restore {
                        Some(m) => m,
                        None => KeyboardMode::NoInteractivity,
                    },
                )
            } else {
                owned.remove(to)
            }
            &&& keyed_view(new.surfaces@) == with_keyboard_mode(
                targets,
                to,
                if owns {
                    KeyboardMode::Exclusive
                } else {
                    KeyboardMode::OnDemand
                },
            )
            &&& opt_text(new.keyboard_focus_surface) == Some(to)
            &&& r == seq![
                ActionView::ReceiveFocusTransfer { component: i as usize, target, return_target, closes_on_leave },
            ]
            &&& requests == match close_source {
                Some(c) => seq![RequestView::HideSurface { surface_id: c }],
                None => seq![],
            }
        },
        None => {
            &&& new.components == old.components
            &&& keyed_view(new.transfer_owned_keyboard_modes@) == owned.remove(to)
            &&& keyed_view(new.surfaces@) == match restore {
                Some(m) => with_keyboard_mode(targets, to, m),
                None => targets,
            }
            &&& new.keyboard_focus_surface == old.keyboard_focus_surface
            &&& r.len() == 0
            &&& requests.len() == 0
        },
    }
    &&& new.core_surfaces == old.core_surfaces
    &&& new.pending_popover_hides == old.pending_popover_hides
    &&& new.debug == old.debug
    &&& bookkeeping_unchanged(new, old)
}

/// `new` is `old` after a tab focus transfer from `from` to `to`: the
/// source released, then the target focused.
pub open spec fn focus_transferred(
    new: Shell,
    old: Shell,
    from: Seq<char>,
    to: Seq<char>,
    target: TabFocusTarget,
    return_target: Option<(Seq<char>, Seq<char>)>,
    closes_on_leave: bool,
    close_source: Option<Seq<char>>,
    actions: Seq<ActionView>,
    requests: Seq<RequestView>,
) -> bool {
    exists|mid: Shell, released: Seq<ActionView>, received: Seq<ActionView>|
        #[trigger] source_released(mid, old, from, released) && #[trigger] target_focused(
            new,
            mid,
            to,
            target,
            return_target,
            closes_on_leave,
            close_source,
            received,
            requests,
        ) && actions == released + received
}

impl Shell {
    fn release_transfer_source(&mut self, from: &str) -> (r: Vec<ShellAction>)
        ensures
            source_released(*final(self), *old(self), from@, action_views(r@)),
    {
        let ghost owned = keyed_view(self.transfer_owned_keyboard_modes@);
        let ghost targets = keyed_view(self.surfaces@);
        let ghost back = handed_back_mode(owned, targets, from@);
        let mut actions: Vec<ShellAction> = Vec::new();
        if let Some((index, _)) = self.component_target_for_surface(from) {
            actions.push(ShellAction::ReleaseFocusForTransfer { component: index });
            self.components[index].keyboard_mode_override = Some(KeyboardMode::NoInteractivity);
            let ghost before = *self;
            let ghost released = action_views(actions@);
            proof {
                assert(released =~= seq![ActionView::ReleaseFocusForTransfer { component: index }]);
                assert(before.components@ == old(self).components@.update(
                    index as int,
                    ComponentRuntime { keyboard_mode_override: Some(KeyboardMode::NoInteractivity), ..old(self).components@[index as int] },
                ));
                crate::shell::lemma_surface_target_stable(before.components@, old(self).components@, from@);
                assert(surface_component(before.components@, from@) == Some(index as int));
            }
            let handed = self.clear_transfer_owned_keyboard_mode(from, &mut actions);
            proof {
                assert(handed == back);
                assert(action_views(actions@) =~= seq![ActionView::ReleaseFocusForTransfer { component: index }] + if back == Some(
                    KeyboardMode::OnDemand,
                ) {
                    seq![ActionView::ConfigureKeyboardMode { surface_id: from@, mode: KeyboardMode::NoInteractivity }]
                } else {
                    seq![]
                });
                assert(others_unchanged(self.components@, old(self).components@, Some(index as int)));
                assert(override_only_changed(self.components@[index as int], before.components@[index as int]));
                assert(override_only_changed(self.components@[index as int], old(self).components@[index as int]));
            }
        } else {
            proof {
                assert(action_views(actions@) =~= Seq::<ActionView>::empty());
            }
        }
        let ghost cleared = keyed_view(self.surfaces@);
        if let Some(surface) = keyed_get(&self.surfaces, from) {
            keyed_put(&mut self.surfaces, from, SurfaceTarget { keyboard_mode: KeyboardMode::NoInteractivity, ..surface });
        }
        proof {
            assert(cleared.contains_key(from@) == targets.contains_key(from@));
            if targets.contains_key(from@) {
                assert(cleared[from@].visible == targets[from@].visible);
                assert(cleared[from@].role == targets[from@].role);
                assert(keyed_view(self.surfaces@) =~= with_keyboard_mode(targets, from@, KeyboardMode::NoInteractivity));
            } else {
                assert(keyed_view(self.surfaces@) =~= with_keyboard_mode(targets, from@, KeyboardMode::NoInteractivity));
            }
        }
        actions
    }
}

impl Shell {
    fn focus_transfer_target(
        &mut self,
        to: &str,
        target: TabFocusTarget,
        return_target: Option<(String, String)>,
        closes_on_leave: bool,
        close_source: Option<String>,
    ) -> (r: (Vec<ShellAction>, Vec<CoreRequest>))
        ensures
            target_focused(
                *final(self),
                *old(self),
                to@,
                target,
                opt_text_pair(return_target),
                closes_on_leave,
                opt_text(close_source),
                action_views(r.0@),
                crate::shell::request_views(r.1@),
            ),
    {
        let ghost owned = keyed_view(self.transfer_owned_keyboard_modes@);
        let ghost targets = keyed_view(self.surfaces@);
        let ghost restore_spec = handed_back_mode(owned, targets, to@);
        let owns = closes_on_leave || close_source.is_some();
        let restore = match keyed_remove(&mut self.transfer_owned_keyboard_modes, to) {
            Some(mode) => Some(mode),
            None => match keyed_get(&self.surfaces, to) {
                Some(t) => Some(t.keyboard_mode),
                None => None,
            },
        };
        proof {
            assert(restore == restore_spec);
        }
        let mut actions: Vec<ShellAction> = Vec::new();
        let mut requests: Vec<CoreRequest> = Vec::new();
        match self.component_target_for_surface(to) {
            Some((index, _)) => {
                actions.push(ShellAction::ReceiveFocusTransfer {
                    component: index,
                    target,
                    return_target,
                    closes_on_leave,
                });
                self.components[index].keyboard_mode_override = if owns {
                    Some(KeyboardMode::Exclusive)
                } else {
                    None
                };
                let mode = if owns {
                    let kept = match restore {
                        Some(m) => m,
                        None => KeyboardMode::NoInteractivity,
                    };
                    keyed_put(&mut self.transfer_owned_keyboard_modes, to, kept);
                    proof {
                        assert(keyed_view(self.transfer_owned_keyboard_modes@) =~= owned.insert(to@, kept));
                    }
                    KeyboardMode::Exclusive
                } else {
                    KeyboardMode::OnDemand
                };
                if let Some(t) = keyed_get(&self.surfaces, to) {
                    keyed_put(&mut self.surfaces, to, SurfaceTarget { keyboard_mode: mode, ..t });
                }
                proof {
                    assert(keyed_view(self.surfaces@) =~= with_keyboard_mode(targets, to@, mode));
                }
                self.keyboard_focus_surface = Some(String::from_str(to));
                match close_source {
                    Some(c) => {
                        requests.push(CoreRequest::HideSurface { surface_id: c });
                        proof {
                            assert(crate::shell::request_views(requests@) =~= seq![RequestView::HideSurface { surface_id: c@ }]);
                        }
                    },
                    None => {
                        proof {
                            assert(crate::shell::request_views(requests@) =~= Seq::<RequestView>::empty());
                        }
                    },
                }
                proof {
                    assert(override_set(
                        self.components@,
                        old(self).components@,
                        index as int,
                        if owns {
                            Some(KeyboardMode::Exclusive)
                        } else {
                            None
                        },
                    ));
                    assert(action_views(actions@) =~= seq![
                        ActionView::ReceiveFocusTransfer {
                            component: index,
                            target,
                            return_target: opt_text_pair(return_target),
                            closes_on_leave,
                        },
                    ]);
                }
            },
            None => {
                if let Some(m) = restore {
                    if let Some(t) = keyed_get(&self.surfaces, to) {
                        keyed_put(&mut self.surfaces, to, SurfaceTarget { keyboard_mode: m, ..t });
                    }
                    proof {
                        assert(keyed_view(self.surfaces@) =~= with_keyboard_mode(targets, to@, m));
                    }
                }
                proof {
                    assert(action_views(actions@) =~= Seq::<ActionView>::empty());
                    assert(crate::shell::request_views(requests@) =~= Seq::<RequestView>::empty());
                }
            },
        }
        (actions, requests)
    }

    /// Moves keyboard focus from one surface to another: the source gives up
    /// the keyboard, then the target takes it; the source is closed
    /// afterwards when asked.
    pub fn apply_transfer_tab_focus(
        &mut self,
        from_surface: &str,
        to_surface: &str,
        target: TabFocusTarget,
        return_target: Option<(String, String)>,
        target_closes_on_leave: bool,
        close_source: Option<String>,
    ) -> (r: (Vec<ShellAction>, Vec<CoreRequest>))
        ensures
            focus_transferred(
                *final(self),
                *old(self),
                from_surface@,
                to_surface@,
                target,
                opt_text_pair(return_target),
                target_closes_on_leave,
                opt_text(close_source),
                action_views(r.0@),
                crate::shell::request_views(r.1@),
            ),
    {
        let ghost rt = opt_text_pair(return_target);
        let ghost cs = opt_text(close_source);
        let mut released = self.release_transfer_source(from_surface);
        let ghost mid = *self;
        let ghost released_views = action_views(released@);
        let (mut received, requests) = self.focus_transfer_target(
            to_surface,
            target,
            return_target,
            target_closes_on_leave,
            close_source,
        );
        let ghost received_views = action_views(received@);
        released.append(&mut received);
        proof {
            assert(action_views(released@) =~= released_views + received_views);
            assert(source_released(mid, *old(self), from_surface@, released_views));
            assert(target_focused(
                *self,
                mid,
                to_surface@,
                target,
                rt,
                target_closes_on_leave,
                cs,
                received_views,
                crate::shell::request_views(requests@),
            ));
        }
        (released, requests)
    }
}

} // verus!
