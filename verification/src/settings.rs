//! Reloading the shell's settings file and changing the locale: when the
//! file is looked at, whether it changed, what a changed file asks to be
//! prepared and committed, what a rejected reload records, and the state
//! the locale service publishes.
use vstd::prelude::*;
use crate::json::{items_view, JsonValue, JsonView};
use crate::services::error_views;
use crate::shell::{same_identity, ComponentRuntime, Shell};
use crate::text;

verus! {

/// How often the settings file is looked at, in milliseconds.
pub const SETTINGS_RELOAD_POLL_INTERVAL_MS: u64 = 500;

/// The module the shell's own lifecycle errors are recorded under.
pub const SHELL_MODULE_ID: &'static str = "@mesh/shell";

/// When the settings file is next looked at, and the modification time of
/// the version last committed.
#[derive(Debug, Clone, Copy, PartialEq, Eq, Structural)]
pub struct SettingsWatch {
    pub next_check_ms: u64,
    pub modified_at: Option<u64>,
}

pub open spec fn sat_add(a: u64, b: u64) -> u64 {
    if a + b > u64::MAX {
        u64::MAX
    } else {
        (a + b) as u64
    }
}

impl SettingsWatch {
    pub fn new() -> (r: SettingsWatch)
        ensures
            r.next_check_ms == 0,
            r.modified_at is None,
    {
        SettingsWatch { next_check_ms: 0, modified_at: None }
    }

    /// Whether a look at the file is due at `now_ms`; when it is, the next
    /// one is due a poll interval later.
    pub fn poll(&mut self, now_ms: u64) -> (due: bool)
        ensures
            due == (now_ms >= old(self).next_check_ms),
            due ==> final(self).next_check_ms == sat_add(now_ms, SETTINGS_RELOAD_POLL_INTERVAL_MS),
            !due ==> final(self).next_check_ms == old(self).next_check_ms,
            final(self).modified_at == old(self).modified_at,
    {
        if now_ms < self.next_check_ms {
            return false;
        }
        self.next_check_ms = now_ms.saturating_add(SETTINGS_RELOAD_POLL_INTERVAL_MS);
        true
    }

    /// Whether the file, last modified at `modified_at` (if that could be
    /// read), differs from the version last committed.
    pub fn file_changed(&self, modified_at: Option<u64>) -> (r: bool)
        ensures
            r == (modified_at is Some && modified_at != self.modified_at),
    {
        match modified_at {
            None => false,
            Some(m) => match self.modified_at {
                Some(seen) => m != seen,
                None => true,
            },
        }
    }

    /// Records that the version modified at `modified_at` was committed.
    pub fn committed(&mut self, modified_at: u64)
        ensures
            final(self).modified_at == Some(modified_at),
            final(self).next_check_ms == old(self).next_check_ms,
    {
        self.modified_at = Some(modified_at);
    }
}

/// The locale selection of the settings.
#[derive(Debug)]
pub struct LocaleSettings {
    pub locale: String,
    pub fallback_locale: String,
    pub policy: String,
}

/// Whether the locale selection changed: its locale, fallback or policy.
pub fn locale_settings_changed(old: &LocaleSettings, new: &LocaleSettings) -> (r: bool)
    ensures
        r == (old.locale@ != new.locale@ || old.fallback_locale@ != new.fallback_locale@ || old.policy@
            != new.policy@),
{
    !text::str_eq(old.locale.as_str(), new.locale.as_str()) || !text::str_eq(
        old.fallback_locale.as_str(),
        new.fallback_locale.as_str(),
    ) || !text::str_eq(old.policy.as_str(), new.policy.as_str())
}

/// What a changed settings file asks for: a new locale catalog when the
/// locale selection changed, a new theme when the theme or fonts changed,
/// and a commit that refreshes theme consumers when the theme, fonts or
/// icons changed and locale consumers when the locale changed.
#[derive(Debug, Clone, Copy, PartialEq, Eq, Structural)]
pub struct SettingsReloadPlan {
    pub prepare_locale: bool,
    pub prepare_theme: bool,
    pub refresh_theme: bool,
    pub refresh_locale: bool,
}

pub fn settings_reload_plan(locale_changed: bool, theme_or_fonts_changed: bool, icons_changed: bool) -> (r:
    SettingsReloadPlan)
    ensures
        r.prepare_locale == locale_changed,
        r.prepare_theme == theme_or_fonts_changed,
        r.refresh_theme == (theme_or_fonts_changed || icons_changed),
        r.refresh_locale == locale_changed,
{
    SettingsReloadPlan {
        prepare_locale: locale_changed,
        prepare_theme: theme_or_fonts_changed,
        refresh_theme: theme_or_fonts_changed || icons_changed,
        refresh_locale: locale_changed,
    }
}

/// The locale a request asks for: the request without surrounding
/// whitespace, none when nothing is left.
pub open spec fn requested_locale_of(request: Seq<char>) -> Option<Seq<char>> {
    if text::trim(request).len() == 0 {
        None
    } else {
        Some(text::trim(request))
    }
}

pub fn requested_locale(request: &str) -> (r: Option<String>)
    ensures
        match r {
            Some(l) => requested_locale_of(request@) == Some(l@),
            None => requested_locale_of(request@) is None,
        },
{
    let locale = text::trimmed(request);
    if locale.unicode_len() == 0 {
        None
    } else {
        Some(locale)
    }
}

/// Whether a locale request changes nothing: the normalized selection is
/// the current one and the policy is already manual.
pub fn locale_change_is_noop(
    requested: &str,
    requested_fallback: &str,
    current: &str,
    current_fallback: &str,
    policy_is_manual: bool,
) -> (r: bool)
    ensures
        r == (requested@ == current@ && requested_fallback@ == current_fallback@ && policy_is_manual),
{
    text::str_eq(requested, current) && text::str_eq(requested_fallback, current_fallback) && policy_is_manual
}

// ---------------------------------------------------------------------------
// The locale service state.

pub open spec fn texts_view(ts: Seq<String>) -> Seq<JsonView> {
    Seq::new(ts.len(), |i: int| JsonView::Str(ts[i]@))
}

/// The state the locale service publishes for the active selection.
pub open spec fn locale_state(
    locale: Seq<char>,
    chain: Seq<String>,
    direction: Seq<char>,
    policy: Seq<char>,
    revision: Seq<char>,
    durable_revision: Seq<char>,
) -> JsonView {
    JsonView::Object(seq![]).with_field("locale"@, JsonView::Str(locale)).with_field(
        "current"@,
        JsonView::Str(locale),
    ).with_field("chain"@, JsonView::Array(texts_view(chain))).with_field(
        "direction"@,
        JsonView::Str(direction),
    ).with_field("policy"@, JsonView::Str(policy)).with_field("revision"@, JsonView::Str(revision)).with_field(
        "durable_revision"@,
        JsonView::Str(durable_revision),
    )
}

pub fn locale_state_payload(
    locale: &str,
    chain: &Vec<String>,
    direction: &str,
    policy: &str,
    revision: &str,
    durable_revision: &str,
) -> (r: JsonValue)
    ensures
        r@ == locale_state(locale@, chain@, direction@, policy@, revision@, durable_revision@),
{
    let mut items: Vec<JsonValue> = Vec::new();
    let mut i: usize = 0;
    while i < chain.len()
        invariant
            i <= chain@.len(),
            items_view(items@) == texts_view(chain@.subrange(0, i as int)),
        decreases chain.len() - i,
    {
        let ghost before = items@;
        items.push(JsonValue::text(chain[i].as_str()));
        proof {
            assert(items@.drop_last() =~= before);
            assert(texts_view(chain@.subrange(0, i + 1)) =~= texts_view(chain@.subrange(0, i as int)).push(
                JsonView::Str(chain@[i as int]@),
            ));
        }
        i = i + 1;
    }
    proof {
        assert(chain@.subrange(0, chain@.len() as int) =~= chain@);
    }
    let mut v = JsonValue::empty_object();
    v.set_field("locale", JsonValue::text(locale));
    v.set_field("current", JsonValue::text(locale));
    v.set_field("chain", JsonValue::Array(items));
    v.set_field("direction", JsonValue::text(direction));
    v.set_field("policy", JsonValue::text(policy));
    v.set_field("revision", JsonValue::text(revision));
    v.set_field("durable_revision", JsonValue::text(durable_revision));
    v
}

// ---------------------------------------------------------------------------
// Rejections and notifications.

impl Shell {
    /// Records that a reloaded locale selection was rejected: the prior
    /// selection stays.
    pub fn record_locale_reload_rejected(&mut self, error: String)
        ensures
            error_views(final(self).diagnostics@) == error_views(old(self).diagnostics@).push(
                (SHELL_MODULE_ID@, "locale_reload_rejected"@, error@),
            ),
            *final(self) == (Shell { diagnostics: final(self).diagnostics, ..*old(self) }),
    {
        self.record_lifecycle_error(String::from_str(SHELL_MODULE_ID), "locale_reload_rejected", error);
    }

    /// Records that a reloaded theme was rejected: the last good theme stays.
    pub fn record_theme_reload_failure(&mut self, error: String)
        ensures
            error_views(final(self).diagnostics@) == error_views(old(self).diagnostics@).push(
                (SHELL_MODULE_ID@, "theme_reload_rejected"@, error@),
            ),
            *final(self) == (Shell { diagnostics: final(self).diagnostics, ..*old(self) }),
    {
        self.record_lifecycle_error(String::from_str(SHELL_MODULE_ID), "theme_reload_rejected", error);
    }

    /// Records that a requested locale change was rejected.
    pub fn record_locale_change_rejected(&mut self, error: String)
        ensures
            error_views(final(self).diagnostics@) == error_views(old(self).diagnostics@).push(
                (SHELL_MODULE_ID@, "locale_change_rejected"@, error@),
            ),
            *final(self) == (Shell { diagnostics: final(self).diagnostics, ..*old(self) }),
    {
        self.record_lifecycle_error(String::from_str(SHELL_MODULE_ID), "locale_change_rejected", error);
    }
}

/// The components among the first `n` that are not quarantined, in order.
pub open spec fn live_components(cs: Seq<ComponentRuntime>, n: int) -> Seq<usize>
    decreases n,
{
    if n <= 0 {
        seq![]
    } else if cs[n - 1].quarantined {
        live_components(cs, n - 1)
    } else {
        live_components(cs, n - 1).push((n - 1) as usize)
    }
}

/// `new` is `old` with components `told` (those that took a theme or
/// locale change) asked for a full present, and nothing else changed.
pub open spec fn presents_forced(new: Seq<ComponentRuntime>, old: Seq<ComponentRuntime>, told: Seq<usize>) -> bool {
    &&& new.len() == old.len()
    &&& forall|i: int| 0 <= i < old.len() ==> {
        &&& same_identity(#[trigger] new[i], old[i])
        &&& new[i].keyboard_mode_override == old[i].keyboard_mode_override
        &&& new[i].surface_exiting == old[i].surface_exiting
        &&& new[i].popup_parent_surface == old[i].popup_parent_surface
        &&& new[i].popup_promoted == old[i].popup_promoted
        &&& new[i].children == old[i].children
        &&& new[i].force_full_present == (old[i].force_full_present || told.contains(i as usize))
    }
}

impl Shell {
    /// The components told of a theme or locale change: those not
    /// quarantined, in order.
    pub fn components_to_notify(&self) -> (r: Vec<usize>)
        ensures
            r@ == live_components(self.components@, self.components@.len() as int),
    {
        let mut out: Vec<usize> = Vec::new();
        let mut i: usize = 0;
        while i < self.components.len()
            invariant
                i <= self.components@.len(),
                out@ == live_components(self.components@, i as int),
            decreases self.components.len() - i,
        {
            if !self.components[i].quarantined {
                out.push(i);
            }
            i = i + 1;
        }
        out
    }

    /// Asks the components that took a theme or locale change for a full
    /// present; indices without a component are ignored.
    pub fn force_full_present_for(&mut self, told: &Vec<usize>)
        ensures
            presents_forced(final(self).components@, old(self).components@, told@),
            *final(self) == (Shell { components: final(self).components, ..*old(self) }),
    {
        let mut k: usize = 0;
        while k < told.len()
            invariant
                k <= told@.len(),
                presents_forced(self.components@, old(self).components@, told@.subrange(0, k as int)),
                *self == (Shell { components: self.components, ..*old(self) }),
            decreases told.len() - k,
        {
            let i = told[k];
            let ghost before = self.components@;
            if i < self.components.len() {
                self.components[i].force_full_present = true;
            }
            proof {
                let done = told@.subrange(0, k + 1);
                assert(done =~= told@.subrange(0, k as int).push(i));
                assert forall|j: int| 0 <= j < old(self).components@.len() implies {
                    &&& same_identity(#[trigger] self.components@[j], old(self).components@[j])
                    &&& self.components@[j].keyboard_mode_override == old(self).components@[j].keyboard_mode_override
                    &&& self.components@[j].surface_exiting == old(self).components@[j].surface_exiting
                    &&& self.components@[j].popup_parent_surface == old(self).components@[j].popup_parent_surface
                    &&& self.components@[j].popup_promoted == old(self).components@[j].popup_promoted
                    &&& self.components@[j].children == old(self).components@[j].children
                    &&& self.components@[j].force_full_present == (old(self).components@[j].force_full_present
                        || done.contains(j as usize))
                } by {
                    let prev = told@.subrange(0, k as int);
                    assert(same_identity(before[j], old(self).components@[j]));
                    assert(done[k as int] == i);
                    if j as usize == i {
                        assert(done.contains(i));
                    } else {
                        if done.contains(j as usize) {
                            let m = choose|m: int| 0 <= m < done.len() && done[m] == j as usize;
                            assert(m < k);
                            assert(prev[m] == j as usize);
                        }
                        if prev.contains(j as usize) {
                            let m = choose|m: int| 0 <= m < prev.len() && prev[m] == j as usize;
                            assert(done[m] == j as usize);
                        }
                    }
                }
            }
            k = k + 1;
        }
        proof {
            assert(told@.subrange(0, told@.len() as int) =~= told@);
        }
    }
}

// ---------------------------------------------------------------------------
// Theme choices in profile settings.

/// Profile shell settings as an object: a value that is not one starts over empty.
pub open spec fn settings_object(settings: JsonView) -> JsonView {
    if settings is Object {
        settings
    } else {
        JsonView::Object(seq![])
    }
}

/// The `theme` member of settings when it is an object, else an empty object.
pub open spec fn theme_object(settings: JsonView) -> JsonView {
    match settings.field("theme"@) {
        Some(t) => if t is Object {
            t
        } else {
            JsonView::Object(seq![])
        },
        None => JsonView::Object(seq![]),
    }
}

/// Settings choosing theme `theme_id`: its mode is no longer pinned.
pub open spec fn with_theme_selection(settings: JsonView, theme_id: Seq<char>) -> JsonView {
    let s = settings_object(settings);
    s.with_field("theme"@, theme_object(s).without_field("mode"@).with_field("active"@, JsonView::Str(theme_id)))
}

/// Settings pinning the theme mode `mode`.
pub open spec fn with_theme_mode(settings: JsonView, mode: Seq<char>) -> JsonView {
    let s = settings_object(settings);
    s.with_field("theme"@, theme_object(s).with_field("mode"@, JsonView::Str(mode)))
}

fn theme_object_of(settings: &JsonValue) -> (r: JsonValue)
    ensures
        r@ == theme_object(settings@),
{
    match settings.get("theme") {
        Some(t) => if t.is_object() {
            t.duplicate()
        } else {
            JsonValue::empty_object()
        },
        None => JsonValue::empty_object(),
    }
}

pub fn set_profile_theme_selection(settings: &mut JsonValue, theme_id: &str)
    ensures
        final(settings)@ == with_theme_selection(old(settings)@, theme_id@),
{
    if !settings.is_object() {
        *settings = JsonValue::empty_object();
    }
    let mut theme = theme_object_of(settings);
    theme.remove_field("mode");
    theme.set_field("active", JsonValue::text(theme_id));
    settings.set_field("theme", theme);
}

pub fn set_profile_theme_mode(settings: &mut JsonValue, mode: &str)
    ensures
        final(settings)@ == with_theme_mode(old(settings)@, mode@),
{
    if !settings.is_object() {
        *settings = JsonValue::empty_object();
    }
    let mut theme = theme_object_of(settings);
    theme.set_field("mode", JsonValue::text(mode));
    settings.set_field("theme", theme);
}

/// A theme chosen in profile settings reads back as the active theme, and
/// a pinned mode reads back as the theme mode.
pub proof fn law_theme_choices_read_back(settings: JsonView, theme_id: Seq<char>, mode: Seq<char>)
    ensures
        with_theme_selection(settings, theme_id).field("theme"@) matches Some(t) && t.field("active"@) == Some(
            JsonView::Str(theme_id),
        ),
        with_theme_mode(settings, mode).field("theme"@) matches Some(t) && t.field("mode"@) == Some(JsonView::Str(mode)),
{
    let s = settings_object(settings);
    let chosen = theme_object(s).without_field("mode"@).with_field("active"@, JsonView::Str(theme_id));
    crate::json::lemma_with_field_reads_back(s, "theme"@, chosen);
    crate::json::lemma_with_field_reads_back(theme_object(s).without_field("mode"@), "active"@, JsonView::Str(theme_id));
    let pinned = theme_object(s).with_field("mode"@, JsonView::Str(mode));
    crate::json::lemma_with_field_reads_back(s, "theme"@, pinned);
    crate::json::lemma_with_field_reads_back(theme_object(s), "mode"@, JsonView::Str(mode));
}

} // verus!
