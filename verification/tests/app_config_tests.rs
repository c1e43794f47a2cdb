use danmu_tools::app_config::{
    default_connect_api_url, is_http_connect_api_url, should_persist_window_position,
    should_persist_window_size, should_persist_window_size_for_panel, AppConfig, ConfigPatch,
};

#[test]
fn defaults_to_showing_person_panel() {
    let config = AppConfig::default();

    assert!(!config.panel_collapsed);
}

#[test]
fn defaults_to_one_person_history_message() {
    let config = AppConfig::default();

    assert_eq!(config.person_history_count, 1);
}

#[test]
fn discards_narrow_saved_width_when_person_panel_is_visible() {
    let mut config = AppConfig {
        panel_collapsed: false,
        window_width: Some(460),
        window_height: Some(780),
        ..AppConfig::default()
    };

    config.sanitize_window_geometry();

    assert_eq!(config.window_width, None);
    assert_eq!(config.window_height, None);
}

#[test]
fn config_patch_clamps_display_values_and_keeps_window_geometry() {
    let mut config = AppConfig {
        window_x: Some(11),
        window_y: Some(22),
        window_width: Some(333),
        window_height: Some(444),
        ..AppConfig::default()
    };

    config.apply_patch(ConfigPatch {
        connect_api_url: Some(
            "http://127.0.0.1:2333/api/v1/external/danmu-reader/connect?token=abc".to_string(),
        ),
        font_size: Some(3),
        panel_collapsed: Some(false),
        person_history_count: Some(9),
    });

    assert_eq!(
        config.connect_api_url,
        "http://127.0.0.1:2333/api/v1/external/danmu-reader/connect?token=abc"
    );
    assert_eq!(config.font_size, 12);
    assert_eq!(config.window_x, Some(11));
    assert_eq!(config.window_height, Some(444));
    assert!(!config.panel_collapsed);
    assert_eq!(config.person_history_count, 3);
}

#[test]
fn rejects_non_http_connect_api_url_patches() {
    let mut config = AppConfig {
        connect_api_url: "https://example.test/connect".to_string(),
        ..AppConfig::default()
    };

    config.apply_patch(ConfigPatch {
        connect_api_url: Some("ws://127.0.0.1:17878".to_string()),
        font_size: None,
        panel_collapsed: None,
        person_history_count: None,
    });

    assert_eq!(config.connect_api_url, "https://example.test/connect");
}

#[test]
fn rejects_windows_hidden_window_geometry() {
    assert!(!should_persist_window_position(-32000, -32000));
    assert!(!should_persist_window_size(144, 19));
}

#[test]
fn sanitizes_hidden_window_geometry_from_loaded_config() {
    let mut config = AppConfig {
        window_x: Some(-32000),
        window_y: Some(-32000),
        window_width: Some(144),
        window_height: Some(19),
        ..AppConfig::default()
    };

    config.sanitize_window_geometry();

    assert_eq!(config.window_x, None);
    assert_eq!(config.window_y, None);
    assert_eq!(config.window_width, None);
    assert_eq!(config.window_height, None);
}

#[test]
fn defaults_point_at_the_local_reader_service() {
    let config = AppConfig::default();
    assert_eq!(config.connect_api_url, default_connect_api_url());
    assert_eq!(
        config.connect_api_url,
        "http://127.0.0.1:2333/api/v1/external/danmu-reader/connect"
    );
    assert_eq!(config.font_size, 14);
    assert_eq!(config.main_capacity, 1000);
    assert_eq!(config.per_user_capacity, 50);
    assert_eq!(config.window_x, None);
}

#[test]
fn sanitize_replaces_a_non_http_address_and_is_idempotent() {
    let mut config = AppConfig {
        connect_api_url: "ws://127.0.0.1:17878".to_string(),
        window_x: Some(10),
        window_y: Some(-30001),
        window_width: Some(600),
        window_height: Some(520),
        ..AppConfig::default()
    };
    config.sanitize_window_geometry();
    assert_eq!(config.connect_api_url, default_connect_api_url());
    assert_eq!(config.window_x, None);
    assert_eq!(config.window_width, Some(600));
    let once = config.clone();
    config.sanitize_window_geometry();
    assert_eq!(config.connect_api_url, once.connect_api_url);
    assert_eq!(config.window_width, once.window_width);
    assert_eq!(config.window_x, once.window_x);
}

#[test]
fn window_size_rules_depend_on_the_person_panel() {
    assert!(should_persist_window_size_for_panel(420, 520, true));
    assert!(!should_persist_window_size_for_panel(420, 520, false));
    assert!(should_persist_window_size_for_panel(600, 520, false));
    assert!(!should_persist_window_size_for_panel(600, 519, false));
    assert!(should_persist_window_position(-29999, 0));
    assert!(!should_persist_window_position(-30000, 0));
}

#[test]
fn remembered_geometry_is_only_what_is_worth_saving() {
    let mut config = AppConfig::default();
    assert!(!config.remember_window_position(-32000, -32000));
    assert_eq!(config.window_x, None);
    assert!(config.remember_window_position(5, 6));
    assert_eq!((config.window_x, config.window_y), (Some(5), Some(6)));
    assert!(!config.remember_window_size(500, 600));
    assert_eq!(config.window_width, None);
    config.panel_collapsed = true;
    assert!(config.remember_window_size(500, 600));
    assert_eq!((config.window_width, config.window_height), (Some(500), Some(600)));
}

#[test]
fn connect_api_address_must_start_with_http() {
    assert!(is_http_connect_api_url("http://x"));
    assert!(is_http_connect_api_url("https://x"));
    assert!(!is_http_connect_api_url("HTTP://x"));
    assert!(!is_http_connect_api_url("ws://x"));
    let mut config = AppConfig::default();
    config.apply_patch(ConfigPatch {
        connect_api_url: None,
        font_size: Some(30),
        panel_collapsed: Some(true),
        person_history_count: Some(2),
    });
    assert_eq!(config.font_size, 18);
    assert!(config.panel_collapsed);
    assert_eq!(config.person_history_count, 2);
}
