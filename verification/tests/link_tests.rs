use danmu_tools::link::{
    api_retry_status, is_timeout_error, link_step, retry_status, ws_retry_status, LinkEvent,
};
use danmu_tools::tray::tray_menu_item_specs;
use danmu_tools::viewport::{
    clamp_viewport_size, clamp_viewport_start, max_viewport_start, scroll_viewport_start,
};

#[test]
fn formats_api_retry_statuses_concisely() {
    assert_eq!(
        api_retry_status("", "接口地址必须是 http:// 或 https://"),
        "接口.未开启, 2秒后重试"
    );
    assert_eq!(
        api_retry_status("http://127.0.0.1:2333/connect", "连接接口请求超时"),
        "接口.请求超时, 2秒后重试"
    );
    assert_eq!(
        api_retry_status(
            "http://127.0.0.1:2333/connect",
            "连接接口返回 JSON 解析失败"
        ),
        "接口.解析异常, 2秒后重试"
    );
}

#[test]
fn formats_ws_retry_statuses_concisely() {
    assert_eq!(ws_retry_status(true), "连接.请求超时, 2秒后重试");
    assert_eq!(ws_retry_status(false), "连接.意外断开, 2秒后重试");
}

#[test]
fn tray_menu_excludes_disconnect_and_reconnect_actions() {
    let ids: Vec<&str> = tray_menu_item_specs().iter().map(|item| item.id).collect();

    assert_eq!(ids, vec!["show", "settings", "quit"]);
    assert!(!ids.contains(&"disconnect"));
    assert!(!ids.contains(&"reconnect"));
}

#[test]
fn tray_menu_labels() {
    let labels: Vec<&str> = tray_menu_item_specs().iter().map(|item| item.label).collect();
    assert_eq!(labels, vec!["显示/隐藏", "设置", "退出"]);
}

#[test]
fn timeouts_are_recognised_in_any_ascii_case() {
    assert!(is_timeout_error("operation TIMED OUT"));
    assert!(is_timeout_error("Timeout while reading"));
    assert!(is_timeout_error("请求超时了"));
    assert!(!is_timeout_error("connection refused"));
    assert_eq!(retry_status("x"), "x, 2秒后重试");
    assert_eq!(
        api_retry_status("http://127.0.0.1:2333/connect", "error sending request: timed out"),
        "接口.请求超时, 2秒后重试"
    );
    assert_eq!(
        api_retry_status("ftp://127.0.0.1/connect", "连接接口请求超时"),
        "接口.未开启, 2秒后重试"
    );
}

#[test]
fn the_connection_loop_steps() {
    let url = "http://127.0.0.1:2333/connect";
    let step = link_step(url, &LinkEvent::Resolving);
    assert_eq!(step.status, Some(("对接中...".to_string(), false)));
    assert!(!step.retry);
    let step = link_step(url, &LinkEvent::ResolveFailed("连接接口请求超时".to_string()));
    assert_eq!(step.status, Some(("接口.请求超时, 2秒后重试".to_string(), false)));
    assert!(step.retry && !step.clear_cached_connect_info);
    let step = link_step(url, &LinkEvent::ConnectTimedOut);
    assert_eq!(step.status, Some(("连接.请求超时, 2秒后重试".to_string(), false)));
    assert!(step.retry && step.clear_cached_connect_info);
    for event in [LinkEvent::ConnectFailed, LinkEvent::EnterFailed, LinkEvent::StreamLost] {
        let step = link_step(url, &event);
        assert_eq!(step.status, Some(("连接.意外断开, 2秒后重试".to_string(), false)));
        assert!(step.retry && step.clear_cached_connect_info);
    }
    assert_eq!(
        link_step(url, &LinkEvent::EnterSent).status,
        Some(("连接中...".to_string(), true))
    );
    assert_eq!(
        link_step(url, &LinkEvent::FrameRead { room_entered: true }).status,
        Some(("已连接！".to_string(), true))
    );
    assert_eq!(link_step(url, &LinkEvent::FrameRead { room_entered: false }).status, None);
    assert_eq!(
        link_step(url, &LinkEvent::Resolved).status,
        Some(("连接中...".to_string(), false))
    );
}

#[test]
fn viewport_arithmetic() {
    assert_eq!(max_viewport_start(10, 4), 6);
    assert_eq!(max_viewport_start(3, 4), 0);
    assert_eq!(clamp_viewport_start(9, 10, 4), 6);
    assert_eq!(scroll_viewport_start(2, -5, 10, 4), 0);
    assert_eq!(scroll_viewport_start(2, 3, 10, 4), 5);
    assert_eq!(clamp_viewport_size(0), 1);
    assert_eq!(clamp_viewport_size(500), 100);
}
