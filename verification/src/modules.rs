//! Whether a module may be enabled or disabled: the checks made before the
//! change is written to the module graph.
use vstd::prelude::*;
use crate::backend::{ModuleGraph, active_provider, find_selection};
use crate::services::error_views;
use crate::shell::{BackendSlot, Shell};
use crate::text;
use crate::types::opt_text;

verus! {

/// The module that owns the shell's settings surface.
pub const SETTINGS_MODULE_ID: &'static str = "@mesh/settings";

/// What the checks of a module enable change concluded.
#[derive(Debug)]
pub enum ModuleEnableVerdict {
    /// Write the change.
    Proceed,
    /// A profile switch is under way; the change is dropped silently.
    Ignored,
    /// Refused, with the lifecycle error recorded for the settings module.
    Rejected { code: String, message: String },
}

pub enum VerdictView {
    Proceed,
    Ignored,
    Rejected { code: Seq<char>, message: Seq<char> },
}

impl View for ModuleEnableVerdict {
    type V = VerdictView;

    open spec fn view(&self) -> VerdictView {
        match self {
            ModuleEnableVerdict::Proceed => VerdictView::Proceed,
            ModuleEnableVerdict::Ignored => VerdictView::Ignored,
            ModuleEnableVerdict::Rejected { code, message } => VerdictView::Rejected { code: code@, message: message@ },
        }
    }
}

pub open spec fn installed(g: ModuleGraph, module_id: Seq<char>) -> bool {
    exists|i: int| 0 <= i < g.modules@.len() && (#[trigger] g.modules@[i])@ == module_id
}

/// Whether some pending provider start is for `module_id`.
pub open spec fn being_prepared(pending: Seq<BackendSlot>, module_id: Seq<char>) -> bool {
    exists|i: int| 0 <= i < pending.len() && (#[trigger] pending[i]).provider_id@ == module_id
}

/// The first interface, in declaration order, that `module_id` declares a
/// provider for and is the selected provider of.
pub open spec fn first_active_provision(g: ModuleGraph, module_id: Seq<char>, n: int) -> Option<Seq<char>>
    decreases n,
{
    if n <= 0 {
        None
    } else {
        match first_active_provision(g, module_id, n - 1) {
            Some(found) => Some(found),
            None => {
                let p = g.provider_contributions@[n - 1];
                if p.module_id@ == module_id && active_provider(g.active_providers@, p.interface@) == Some(module_id) {
                    Some(p.interface@)
                } else {
                    None
                }
            },
        }
    }
}

pub open spec fn invalid(message: Seq<char>) -> VerdictView {
    VerdictView::Rejected { code: "invalid_module_enabled_selection"@, message }
}

/// The verdict on enabling (`enabled`) or disabling `module_id`, in order of
/// the checks: configured composition recovery refuses every change; a
/// profile switch drops it; a module being prepared as a provider cannot be
/// disabled; the graph must load and hold the module; the settings module
/// cannot disable itself; outside a profile the root layout cannot be
/// disabled; nor a module that is the selected provider of an interface.
pub open spec fn module_enable_verdict(
    pending: Seq<BackendSlot>,
    module_id: Seq<char>,
    enabled: bool,
    recovery: bool,
    profile_switching: bool,
    uses_profile: bool,
    graph: Result<ModuleGraph, Seq<char>>,
    graph_path: Seq<char>,
) -> VerdictView {
    if recovery {
        VerdictView::Rejected {
            code: "configured_composition_recovery"@,
            message: "cannot change module "@ + module_id + " while the shell is in configured composition recovery"@,
        }
    } else if profile_switching {
        VerdictView::Ignored
    } else if !enabled && being_prepared(pending, module_id) {
        invalid("cannot disable "@ + module_id + " while it is being prepared as an active provider"@)
    } else {
        match graph {
            Err(e) => invalid("cannot update module "@ + module_id + ": failed to load "@ + graph_path + ": "@ + e),
            Ok(g) => if !installed(g, module_id) {
                invalid("cannot update unknown module "@ + module_id)
            } else if !enabled && module_id == SETTINGS_MODULE_ID@ {
                invalid("cannot disable @mesh/settings from its own settings surface"@)
            } else if !uses_profile && !enabled && opt_text(g.root_layout) == Some(module_id) {
                invalid("cannot disable "@ + module_id + " while it is the active root layout"@)
            } else if !enabled && first_active_provision(g, module_id, g.provider_contributions@.len() as int) is Some {
                invalid(
                    "cannot disable "@ + module_id + " while it is the active provider for "@ + first_active_provision(
                        g,
                        module_id,
                        g.provider_contributions@.len() as int,
                    ).unwrap() + "; select another provider first"@,
                )
            } else {
                VerdictView::Proceed
            },
        }
    }
}

fn is_installed(g: &ModuleGraph, module_id: &str) -> (r: bool)
    ensures
        r == installed(*g, module_id@),
{
    let mut i: usize = 0;
    while i < g.modules.len()
        invariant
            i <= g.modules@.len(),
            forall|j: int| 0 <= j < i ==> (#[trigger] g.modules@[j])@ != module_id@,
        decreases g.modules.len() - i,
    {
        if text::str_eq(g.modules[i].as_str(), module_id) {
            return true;
        }
        i = i + 1;
    }
    false
}

fn is_being_prepared(pending: &Vec<BackendSlot>, module_id: &str) -> (r: bool)
    ensures
        r == being_prepared(pending@, module_id@),
{
    let mut i: usize = 0;
    while i < pending.len()
        invariant
            i <= pending@.len(),
            forall|j: int| 0 <= j < i ==> (#[trigger] pending@[j]).provider_id@ != module_id@,
        decreases pending.len() - i,
    {
        if text::str_eq(pending[i].provider_id.as_str(), module_id) {
            return true;
        }
        i = i + 1;
    }
    false
}

fn active_provision(g: &ModuleGraph, module_id: &str) -> (r: Option<String>)
    ensures
        opt_text(r) == first_active_provision(*g, module_id@, g.provider_contributions@.len() as int),
{
    let mut k: usize = 0;
    while k < g.provider_contributions.len()
        invariant
            k <= g.provider_contributions@.len(),
            first_active_provision(*g, module_id@, k as int) is None,
        decreases g.provider_contributions.len() - k,
    {
        let p = &g.provider_contributions[k];
        if text::str_eq(p.module_id.as_str(), module_id) {
            if let Some(i) = find_selection(&g.active_providers, p.interface.as_str()) {
                if text::str_eq(g.active_providers[i].module_id.as_str(), module_id) {
                    proof {
                        assert(first_active_provision(*g, module_id@, k + 1) == Some(p.interface@));
                        lemma_first_provision_stays(*g, module_id@, k + 1, g.provider_contributions@.len() as int);
                    }
                    return Some(p.interface.clone());
                }
            }
        }
        k = k + 1;
    }
    None
}

proof fn lemma_first_provision_stays(g: ModuleGraph, module_id: Seq<char>, k: int, n: int)
    requires
        0 <= k <= n,
        first_active_provision(g, module_id, k) is Some,
    ensures
        first_active_provision(g, module_id, n) == first_active_provision(g, module_id, k),
    decreases n - k,
{
    if k < n {
        lemma_first_provision_stays(g, module_id, k, n - 1);
    }
}

impl Shell {
    /// Checks a change of whether `module_id` is enabled before it is
    /// written; a rejection is recorded as a lifecycle error of the settings
    /// module. `graph` is the installed module graph as loaded from
    /// `graph_path`, or why it could not be loaded.
    pub fn check_module_enabled_change(
        &mut self,
        module_id: &str,
        enabled: bool,
        recovery: bool,
        profile_switching: bool,
        uses_profile: bool,
        graph: Result<&ModuleGraph, String>,
        graph_path: &str,
    ) -> (r: ModuleEnableVerdict)
        ensures
            r@ == module_enable_verdict(
                old(self).pending_backend_runtimes@,
                module_id@,
                enabled,
                recovery,
                profile_switching,
                uses_profile,
                match graph {
                    Ok(g) => Ok(*g),
                    Err(e) => Err(e@),
                },
                graph_path@,
            ),
            error_views(final(self).diagnostics@) == match r@ {
                VerdictView::Rejected { code, message } => error_views(old(self).diagnostics@).push(
                    (SETTINGS_MODULE_ID@, code, message),
                ),
                _ => error_views(old(self).diagnostics@),
            },
            *final(self) == (Shell { diagnostics: final(self).diagnostics, ..*old(self) }),
    {
        let verdict = self.module_enabled_verdict(module_id, enabled, recovery, profile_switching, uses_profile, graph, graph_path);
        if let ModuleEnableVerdict::Rejected { code, message } = &verdict {
            self.record_lifecycle_error(String::from_str(SETTINGS_MODULE_ID), code.as_str(), message.clone());
        }
        verdict
    }

    fn module_enabled_verdict(
        &self,
        module_id: &str,
        enabled: bool,
        recovery: bool,
        profile_switching: bool,
        uses_profile: bool,
        graph: Result<&ModuleGraph, String>,
        graph_path: &str,
    ) -> (r: ModuleEnableVerdict)
        ensures
            r@ == module_enable_verdict(
                self.pending_backend_runtimes@,
                module_id@,
                enabled,
                recovery,
                profile_switching,
                uses_profile,
                match graph {
                    Ok(g) => Ok(*g),
                    Err(e) => Err(e@),
                },
                graph_path@,
            ),
    {
        let invalid_code = "invalid_module_enabled_selection";
        if recovery {
            return ModuleEnableVerdict::Rejected {
                code: String::from_str("configured_composition_recovery"),
                message: text::concat3(
                    "cannot change module ",
                    module_id,
                    " while the shell is in configured composition recovery",
                ),
            };
        }
        if profile_switching {
            return ModuleEnableVerdict::Ignored;
        }
        if !enabled && is_being_prepared(&self.pending_backend_runtimes, module_id) {
            return ModuleEnableVerdict::Rejected {
                code: String::from_str(invalid_code),
                message: text::concat3("cannot disable ", module_id, " while it is being prepared as an active provider"),
            };
        }
        let g = match graph {
            Err(e) => {
                return ModuleEnableVerdict::Rejected {
                    code: String::from_str(invalid_code),
                    message: text::concat3("cannot update module ", module_id, ": failed to load ").concat(
                        graph_path,
                    ).concat(": ").concat(e.as_str()),
                };
            },
            Ok(g) => g,
        };
        if !is_installed(g, module_id) {
            return ModuleEnableVerdict::Rejected {
                code: String::from_str(invalid_code),
                message: text::concat2("cannot update unknown module ", module_id),
            };
        }
        if !enabled && text::str_eq(module_id, SETTINGS_MODULE_ID) {
            return ModuleEnableVerdict::Rejected {
                code: String::from_str(invalid_code),
                message: String::from_str("cannot disable @mesh/settings from its own settings surface"),
            };
        }
        let is_root = match &g.root_layout {
            Some(root) => text::str_eq(root.as_str(), module_id),
            None => false,
        };
        if !uses_profile && !enabled && is_root {
            return ModuleEnableVerdict::Rejected {
                code: String::from_str(invalid_code),
                message: text::concat3("cannot disable ", module_id, " while it is the active root layout"),
            };
        }
        if !enabled {
            if let Some(interface) = active_provision(g, module_id) {
                return ModuleEnableVerdict::Rejected {
                    code: String::from_str(invalid_code),
                    message: text::concat3("cannot disable ", module_id, " while it is the active provider for ").concat(
                        interface.as_str(),
                    ).concat("; select another provider first"),
                };
            }
        }
        ModuleEnableVerdict::Proceed
    }
}

// ---------------------------------------------------------------------------
// Completing profile writes.

/// A write of the profile or module graph that ran off the shell's thread.
#[derive(Debug)]
pub enum ProfileWriteOperation {
    /// A node slot edit, switching to the profile afterwards when asked.
    NodeSlot { profile_id: String, apply_switch: bool },
    /// The selection of a provider that became ready for an interface.
    BackendProviderSelection { interface: String, provider_id: String },
    /// The selection of the provider already running for an interface.
    ProviderSelection { interface: String, provider_id: String },
    /// A module's enabled state, under the active profile if there is one.
    ModuleEnabled { module_id: String, active_profile_id: Option<String> },
}

/// What a write that succeeded handed back.
#[derive(Debug, Clone, Copy, PartialEq, Eq, Structural)]
pub enum ProfileWriteResult {
    Complete,
    /// The write can be undone; the means to undo it stay with the caller.
    Rollback,
}

/// What the shell does next after a profile write finished.
#[derive(Debug)]
pub enum ProfileWriteStep {
    Nothing,
    /// Switch to the profile.
    SwitchProfile { profile_id: String },
    /// The provider switch fails with the message.
    FailProviderSwitch { interface: String, provider_id: String, message: String },
    /// The provider switch completes now that its selection is saved.
    CompleteProviderSwitch { interface: String, provider_id: String },
    /// Reload the module graph for the saved selection.
    ReloadGraphForSelection { interface: String },
    /// Activate the profile, with the write's rollback.
    ActivateProfile { profile_id: String },
    /// Load the module graph and activate it, with the write's rollback.
    ActivateGraph { module_id: String },
}

pub enum StepView {
    Nothing,
    SwitchProfile { profile_id: Seq<char> },
    FailProviderSwitch { interface: Seq<char>, provider_id: Seq<char>, message: Seq<char> },
    CompleteProviderSwitch { interface: Seq<char>, provider_id: Seq<char> },
    ReloadGraphForSelection { interface: Seq<char> },
    ActivateProfile { profile_id: Seq<char> },
    ActivateGraph { module_id: Seq<char> },
}

impl View for ProfileWriteStep {
    type V = StepView;

    open spec fn view(&self) -> StepView {
        match self {
            ProfileWriteStep::Nothing => StepView::Nothing,
            ProfileWriteStep::SwitchProfile { profile_id } => StepView::SwitchProfile { profile_id: profile_id@ },
            ProfileWriteStep::FailProviderSwitch { interface, provider_id, message } => StepView::FailProviderSwitch {
                interface: interface@,
                provider_id: provider_id@,
                message: message@,
            },
            ProfileWriteStep::CompleteProviderSwitch { interface, provider_id } => StepView::CompleteProviderSwitch {
                interface: interface@,
                provider_id: provider_id@,
            },
            ProfileWriteStep::ReloadGraphForSelection { interface } => StepView::ReloadGraphForSelection {
                interface: interface@,
            },
            ProfileWriteStep::ActivateProfile { profile_id } => StepView::ActivateProfile { profile_id: profile_id@ },
            ProfileWriteStep::ActivateGraph { module_id } => StepView::ActivateGraph { module_id: module_id@ },
        }
    }
}

pub enum OperationView {
    NodeSlot { profile_id: Seq<char>, apply_switch: bool },
    BackendProviderSelection { interface: Seq<char>, provider_id: Seq<char> },
    ProviderSelection { interface: Seq<char>, provider_id: Seq<char> },
    ModuleEnabled { module_id: Seq<char>, active_profile_id: Option<Seq<char>> },
}

impl View for ProfileWriteOperation {
    type V = OperationView;

    open spec fn view(&self) -> OperationView {
        match self {
            ProfileWriteOperation::NodeSlot { profile_id, apply_switch } => OperationView::NodeSlot {
                profile_id: profile_id@,
                apply_switch: *apply_switch,
            },
            ProfileWriteOperation::BackendProviderSelection { interface, provider_id } =>
                OperationView::BackendProviderSelection { interface: interface@, provider_id: provider_id@ },
            ProfileWriteOperation::ProviderSelection { interface, provider_id } => OperationView::ProviderSelection {
                interface: interface@,
                provider_id: provider_id@,
            },
            ProfileWriteOperation::ModuleEnabled { module_id, active_profile_id } => OperationView::ModuleEnabled {
                module_id: module_id@,
                active_profile_id: opt_text(*active_profile_id),
            },
        }
    }
}

/// The next step after a profile write finished with `result`, and the
/// lifecycle error of the settings module it records, if any.
pub open spec fn profile_write_completion(op: OperationView, result: Result<ProfileWriteResult, Seq<char>>) -> (
    StepView,
    Option<(Seq<char>, Seq<char>)>,
) {
    match result {
        Err(error) => (
            match op {
                OperationView::BackendProviderSelection { interface, provider_id } => StepView::FailProviderSwitch {
                    interface,
                    provider_id,
                    message: "provider "@ + provider_id + " became ready for "@ + interface
                        + ", but its selection could not be saved: "@ + error,
                },
                _ => StepView::Nothing,
            },
            Some(("profile_write_rejected"@, error)),
        ),
        Ok(r) => match op {
            OperationView::NodeSlot { profile_id, apply_switch } => (
                if apply_switch {
                    StepView::SwitchProfile { profile_id }
                } else {
                    StepView::Nothing
                },
                None,
            ),
            OperationView::BackendProviderSelection { interface, provider_id } => if r != ProfileWriteResult::Complete {
                (
                    StepView::FailProviderSwitch {
                        interface,
                        provider_id,
                        message: "provider "@ + provider_id + " became ready for "@ + interface
                            + ", but its selection worker returned an invalid result"@,
                    },
                    None,
                )
            } else {
                (StepView::CompleteProviderSwitch { interface, provider_id }, None)
            },
            OperationView::ProviderSelection { interface, .. } => if r != ProfileWriteResult::Complete {
                (
                    StepView::Nothing,
                    Some(
                        (
                            "provider_selection_write_invalid_result"@,
                            "provider selection for "@ + interface + " returned an unexpected rollback"@,
                        ),
                    ),
                )
            } else {
                (StepView::ReloadGraphForSelection { interface }, None)
            },
            OperationView::ModuleEnabled { module_id, active_profile_id } => if r != ProfileWriteResult::Rollback {
                (
                    StepView::Nothing,
                    Some(
                        (
                            "module_enabled_write_invalid_result"@,
                            "enabled state write for "@ + module_id + " returned no rollback"@,
                        ),
                    ),
                )
            } else {
                match active_profile_id {
                    Some(profile_id) => (StepView::ActivateProfile { profile_id }, None),
                    None => (StepView::ActivateGraph { module_id }, None),
                }
            },
        },
    }
}

impl Shell {
    /// Decides what follows a profile write that finished with `result`,
    /// recording a rejected or unexpected write as a lifecycle error of the
    /// settings module.
    pub fn complete_profile_write(
        &mut self,
        operation: ProfileWriteOperation,
        result: Result<ProfileWriteResult, String>,
    ) -> (r: ProfileWriteStep)
        ensures
            ({
                let (step, error) = profile_write_completion(
                    operation@,
                    match result {
                        Ok(x) => Ok(x),
                        Err(e) => Err(e@),
                    },
                );
                &&& r@ == step
                &&& error_views(final(self).diagnostics@) == match error {
                    Some((code, message)) => error_views(old(self).diagnostics@).push(
                        (SETTINGS_MODULE_ID@, code, message),
                    ),
                    None => error_views(old(self).diagnostics@),
                }
                &&& *final(self) == (Shell { diagnostics: final(self).diagnostics, ..*old(self) })
            }),
    {
        let result = match result {
            Err(error) => {
                let step = match &operation {
                    ProfileWriteOperation::BackendProviderSelection { interface, provider_id } => {
                        ProfileWriteStep::FailProviderSwitch {
                            interface: interface.clone(),
                            provider_id: provider_id.clone(),
                            message: text::concat3("provider ", provider_id.as_str(), " became ready for ").concat(
                                interface.as_str(),
                            ).concat(", but its selection could not be saved: ").concat(error.as_str()),
                        }
                    },
                    _ => ProfileWriteStep::Nothing,
                };
                self.record_lifecycle_error(String::from_str(SETTINGS_MODULE_ID), "profile_write_rejected", error);
                return step;
            },
            Ok(result) => result,
        };
        match operation {
            ProfileWriteOperation::NodeSlot { profile_id, apply_switch } => {
                if apply_switch {
                    ProfileWriteStep::SwitchProfile { profile_id }
                } else {
                    ProfileWriteStep::Nothing
                }
            },
            ProfileWriteOperation::BackendProviderSelection { interface, provider_id } => {
                if result != ProfileWriteResult::Complete {
                    let message = text::concat3("provider ", provider_id.as_str(), " became ready for ").concat(
                        interface.as_str(),
                    ).concat(", but its selection worker returned an invalid result");
                    ProfileWriteStep::FailProviderSwitch { interface, provider_id, message }
                } else {
                    ProfileWriteStep::CompleteProviderSwitch { interface, provider_id }
                }
            },
            ProfileWriteOperation::ProviderSelection { interface, .. } => {
                if result != ProfileWriteResult::Complete {
                    self.record_lifecycle_error(
                        String::from_str(SETTINGS_MODULE_ID),
                        "provider_selection_write_invalid_result",
                        text::concat3("provider selection for ", interface.as_str(), " returned an unexpected rollback"),
                    );
                    ProfileWriteStep::Nothing
                } else {
                    ProfileWriteStep::ReloadGraphForSelection { interface }
                }
            },
            ProfileWriteOperation::ModuleEnabled { module_id, active_profile_id } => {
                if result != ProfileWriteResult::Rollback {
                    self.record_lifecycle_error(
                        String::from_str(SETTINGS_MODULE_ID),
                        "module_enabled_write_invalid_result",
                        text::concat3("enabled state write for ", module_id.as_str(), " returned no rollback"),
                    );
                    ProfileWriteStep::Nothing
                } else {
                    match active_profile_id {
                        Some(profile_id) => ProfileWriteStep::ActivateProfile { profile_id },
                        None => ProfileWriteStep::ActivateGraph { module_id },
                    }
                }
            },
        }
    }

    /// Records what went wrong reloading the module graph for a saved
    /// provider selection: the candidate graph did not load, or its locale
    /// catalogs could not be committed.
    pub fn record_selection_reload_outcome(&mut self, interface: &str, load_error: Option<String>, commit_error: Option<String>) -> (r:
        bool)
        ensures
            r == (load_error is None && commit_error is None),
            error_views(final(self).diagnostics@) == match opt_text(load_error) {
                Some(e) => error_views(old(self).diagnostics@).push(
                    (
                        SETTINGS_MODULE_ID@,
                        "provider_selection_graph_reload_failed"@,
                        "provider selection for "@ + interface@ + " was saved but the candidate graph could not be loaded: "@ + e,
                    ),
                ),
                None => match opt_text(commit_error) {
                    Some(e) => error_views(old(self).diagnostics@).push(
                        (
                            SETTINGS_MODULE_ID@,
                            "provider_selection_locale_reload_failed"@,
                            "provider selection for "@ + interface@ + " was saved but locale catalogs could not be committed: "@
                                + e,
                        ),
                    ),
                    None => error_views(old(self).diagnostics@),
                },
            },
            *final(self) == (Shell { diagnostics: final(self).diagnostics, ..*old(self) }),
    {
        if let Some(e) = load_error {
            let message = text::concat3(
                "provider selection for ",
                interface,
                " was saved but the candidate graph could not be loaded: ",
            ).concat(e.as_str());
            self.record_lifecycle_error(String::from_str(SETTINGS_MODULE_ID), "provider_selection_graph_reload_failed", message);
            return false;
        }
        if let Some(e) = commit_error {
            let message = text::concat3(
                "provider selection for ",
                interface,
                " was saved but locale catalogs could not be committed: ",
            ).concat(e.as_str());
            self.record_lifecycle_error(String::from_str(SETTINGS_MODULE_ID), "provider_selection_locale_reload_failed", message);
            return false;
        }
        true
    }

    /// Records that a module enabled change produced a module graph that
    /// does not load, with the rollback's own failure if it failed too.
    pub fn record_module_graph_reload_failure(&mut self, module_id: &str, error: &str, restore_error: Option<String>)
        ensures
            error_views(final(self).diagnostics@) == error_views(old(self).diagnostics@).push(
                (
                    SETTINGS_MODULE_ID@,
                    "module_enabled_graph_reload_failed"@,
                    "module "@ + module_id@ + " update produced an unloadable graph: "@ + error@ + match opt_text(restore_error) {
                        Some(e) => "; rollback also failed: "@ + e,
                        None => seq![],
                    },
                ),
            ),
            *final(self) == (Shell { diagnostics: final(self).diagnostics, ..*old(self) }),
    {
        let mut message = text::concat3("module ", module_id, " update produced an unloadable graph: ").concat(error);
        if let Some(e) = restore_error {
            message = message.concat("; rollback also failed: ").concat(e.as_str());
        }
        proof {
            assert(message@ == "module "@ + module_id@ + " update produced an unloadable graph: "@ + error@ + match opt_text(
                restore_error,
            ) {
                Some(e) => "; rollback also failed: "@ + e,
                None => seq![],
            });
        }
        self.record_lifecycle_error(String::from_str(SETTINGS_MODULE_ID), "module_enabled_graph_reload_failed", message);
    }
}

} // verus!
