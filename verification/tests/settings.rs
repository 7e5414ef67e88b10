use mesh_shell::json::JsonValue;
use mesh_shell::settings::{
    locale_change_is_noop, locale_settings_changed, locale_state_payload, requested_locale, set_profile_theme_mode,
    set_profile_theme_selection, settings_reload_plan, LocaleSettings, SettingsWatch, SETTINGS_RELOAD_POLL_INTERVAL_MS,
};
use mesh_shell::shell::{ComponentRuntime, Shell};
use mesh_shell::text::trimmed;

fn component(id: &str, quarantined: bool) -> ComponentRuntime {
    ComponentRuntime {
        component_id: id.to_string(),
        surface_id: id.to_string(),
        quarantined,
        failure_count: 0,
        popup_parent_surface: None,
        popup_promoted: false,
        hide_transition_ms: 0,
        surface_exiting: false,
        keyboard_mode_override: None,
        paint_requested: false,
        force_full_present: false,
        theme_changed: false,
        locale_changed: false,
        children: Vec::new(),
    }
}

fn locale(locale: &str, fallback: &str, policy: &str) -> LocaleSettings {
    LocaleSettings { locale: locale.to_string(), fallback_locale: fallback.to_string(), policy: policy.to_string() }
}

#[test]
fn the_settings_file_is_looked_at_once_per_poll_interval() {
    let mut watch = SettingsWatch::new();
    assert!(watch.poll(1_000));
    assert_eq!(watch.next_check_ms, 1_000 + SETTINGS_RELOAD_POLL_INTERVAL_MS);
    assert!(!watch.poll(1_499));
    assert!(watch.poll(1_500));
    assert_eq!(watch.next_check_ms, 2_000);
    let mut late = SettingsWatch { next_check_ms: 0, modified_at: None };
    assert!(late.poll(u64::MAX));
    assert_eq!(late.next_check_ms, u64::MAX);
}

#[test]
fn only_a_new_modification_time_counts_as_a_change() {
    let mut watch = SettingsWatch::new();
    assert!(!watch.file_changed(None));
    assert!(watch.file_changed(Some(10)));
    watch.committed(10);
    assert!(!watch.file_changed(Some(10)));
    assert!(watch.file_changed(Some(11)));
}

#[test]
fn a_changed_file_prepares_and_refreshes_what_it_changes() {
    assert!(!locale_settings_changed(&locale("en", "en", "system"), &locale("en", "en", "system")));
    assert!(locale_settings_changed(&locale("en", "en", "system"), &locale("de", "en", "system")));
    assert!(locale_settings_changed(&locale("en", "en", "system"), &locale("en", "fr", "system")));
    assert!(locale_settings_changed(&locale("en", "en", "system"), &locale("en", "en", "manual")));

    let icons_only = settings_reload_plan(false, false, true);
    assert!(!icons_only.prepare_locale && !icons_only.prepare_theme);
    assert!(icons_only.refresh_theme && !icons_only.refresh_locale);
    let everything = settings_reload_plan(true, true, false);
    assert!(everything.prepare_locale && everything.prepare_theme);
    assert!(everything.refresh_theme && everything.refresh_locale);
}

#[test]
fn locale_requests_are_trimmed_and_blank_ones_ignored() {
    assert_eq!(trimmed("  de-DE \t"), "de-DE");
    assert_eq!(trimmed("\u{3000}x y\u{2009}"), "x y");
    assert_eq!(requested_locale(" fr "), Some("fr".to_string()));
    assert_eq!(requested_locale(" \n "), None);
    assert!(locale_change_is_noop("fr", "en", "fr", "en", true));
    assert!(!locale_change_is_noop("fr", "en", "fr", "en", false));
    assert!(!locale_change_is_noop("de", "en", "fr", "en", true));
}

#[test]
fn the_locale_state_lists_the_selection_and_its_chain() {
    let chain = vec!["de-AT".to_string(), "de".to_string(), "en".to_string()];
    let state = locale_state_payload("de-AT", &chain, "ltr", "manual", "3", "7:2");
    assert_eq!(state.get("locale").and_then(|v| v.as_str()), Some("de-AT"));
    assert_eq!(state.get("current").and_then(|v| v.as_str()), Some("de-AT"));
    match state.get("chain") {
        Some(JsonValue::Array(items)) => {
            let texts: Vec<&str> = items.iter().filter_map(|v| v.as_str()).collect();
            assert_eq!(texts, vec!["de-AT", "de", "en"]);
        }
        other => panic!("expected the chain as an array, got {other:?}"),
    }
    assert_eq!(state.get("direction").and_then(|v| v.as_str()), Some("ltr"));
    assert_eq!(state.get("policy").and_then(|v| v.as_str()), Some("manual"));
    assert_eq!(state.get("revision").and_then(|v| v.as_str()), Some("3"));
    assert_eq!(state.get("durable_revision").and_then(|v| v.as_str()), Some("7:2"));
}

#[test]
fn rejected_reloads_are_recorded_under_the_shell() {
    let mut shell = Shell::new();
    shell.record_locale_reload_rejected("no catalog".to_string());
    shell.record_theme_reload_failure("theme not found".to_string());
    shell.record_locale_change_rejected("bad locale".to_string());
    let codes: Vec<&str> = shell.diagnostics.iter().map(|e| e.code.as_str()).collect();
    assert_eq!(codes, vec!["locale_reload_rejected", "theme_reload_rejected", "locale_change_rejected"]);
    assert!(shell.diagnostics.iter().all(|e| e.module_id == "@mesh/shell"));
    assert_eq!(shell.diagnostics[1].message, "theme not found");
}

#[test]
fn only_live_components_are_told_and_those_that_took_it_repaint_fully() {
    let mut shell = Shell::new();
    shell.components.push(component("@test/a", false));
    shell.components.push(component("@test/b", true));
    shell.components.push(component("@test/c", false));
    let told = shell.components_to_notify();
    assert_eq!(told, vec![0, 2]);
    shell.force_full_present_for(&vec![2, 9]);
    assert!(!shell.components[0].force_full_present);
    assert!(!shell.components[1].force_full_present);
    assert!(shell.components[2].force_full_present);
}

fn theme_member<'a>(settings: &'a JsonValue, key: &str) -> Option<&'a str> {
    settings.get("theme").and_then(|t| t.get(key)).and_then(|v| v.as_str())
}

#[test]
fn choosing_a_theme_unpins_its_mode_and_pinning_keeps_the_theme() {
    let mut settings = JsonValue::Null;
    set_profile_theme_mode(&mut settings, "dark");
    assert_eq!(theme_member(&settings, "mode"), Some("dark"));

    set_profile_theme_selection(&mut settings, "@mesh/nord");
    assert_eq!(theme_member(&settings, "active"), Some("@mesh/nord"));
    assert!(settings.get("theme").and_then(|t| t.get("mode")).is_none());

    set_profile_theme_mode(&mut settings, "light");
    assert_eq!(theme_member(&settings, "active"), Some("@mesh/nord"));
    assert_eq!(theme_member(&settings, "mode"), Some("light"));

    let mut odd = JsonValue::empty_object();
    odd.set_field("theme", JsonValue::text("not an object"));
    odd.set_field("other", JsonValue::boolean(true));
    set_profile_theme_selection(&mut odd, "@mesh/default");
    assert_eq!(theme_member(&odd, "active"), Some("@mesh/default"));
    assert_eq!(odd.get("other").and_then(|v| v.as_bool()), Some(true));
}
