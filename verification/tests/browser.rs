use eoka::browser::{
    closes_browser, connect_script, data_dir_name, launch_args, proxy_auth, setup_session,
    stealth_args, stealth_args_with, tabs, TargetInfo,
};
use eoka::cdp::Connection;
use eoka::StealthConfig;

#[test]
fn a_browser_is_started_with_its_arguments() {
    let config = StealthConfig {
        headless: true,
        proxy: Some("http://p:1".to_string()),
        extra_args: vec!["--x".to_string(), "--y=z".to_string()],
        viewport_width: 800,
        viewport_height: 600,
        ..StealthConfig::default()
    };
    let args = stealth_args_with(&config, "UA");
    assert_eq!(args.len(), 27 + 2 + 1 + 1 + 2);
    assert_eq!(args[0], "--disable-blink-features=AutomationControlled");
    assert_eq!(args[26], "--excludeSwitches=enable-automation");
    assert_eq!(
        args[27..],
        [
            "--window-size=800,600",
            "--user-agent=UA",
            "--headless=new",
            "--proxy-server=http://p:1",
            "--x",
            "--y=z"
        ]
    );
    let args = launch_args(stealth_args_with(&config, "UA"), "/tmp/d");
    assert_eq!(args.last().unwrap(), "--user-data-dir=/tmp/d");
    assert_eq!(data_dir_name(12, 0), "eoka-browser-12-0");
}

#[test]
fn the_user_agent_is_claimed_or_drawn() {
    let mut config = StealthConfig {
        headless: false,
        ..StealthConfig::default()
    };
    let args = stealth_args(&config);
    assert_eq!(args.len(), 29);
    assert!(args[28].starts_with("--user-agent=Mozilla/5.0 ("));
    config.user_agent = Some("mine".to_string());
    assert_eq!(stealth_args(&config)[28], "--user-agent=mine");
}

#[test]
fn a_proxy_needs_both_name_and_password() {
    let mut config = StealthConfig::default();
    assert!(proxy_auth(&config).is_none());
    config.proxy_username = Some("u".to_string());
    assert!(proxy_auth(&config).is_none());
    config.proxy_password = Some("p".to_string());
    assert_eq!(proxy_auth(&config), Some(("u".to_string(), "p".to_string())));
}

#[test]
fn a_session_is_set_up() {
    let session = Connection::new(()).attached("T", "S");
    assert_eq!(session.session_id(), "S");
    assert_eq!(session.target_id(), "T");
    let methods = |config: &StealthConfig| -> Vec<String> {
        setup_session(config, &session, "script")
            .into_iter()
            .map(|c| {
                assert_eq!(c.session_id.as_deref(), Some("S"));
                format!("{} {}", c.method, c.params_text().ok().unwrap())
            })
            .collect()
    };
    let mut config = StealthConfig::default();
    let inject = r#"Page.addScriptToEvaluateOnNewDocument {"source":"script"}"#;
    assert_eq!(methods(&config), vec!["Page.enable {}", inject]);
    config.proxy_username = Some("u".to_string());
    config.proxy_password = Some("p".to_string());
    let challenges = r#"Fetch.enable {"handleAuthRequests":true}"#;
    assert_eq!(methods(&config), vec!["Page.enable {}", challenges, inject]);
    assert_eq!(methods(&StealthConfig::live()), vec!["Page.enable {}"]);
}

#[test]
fn somebodys_own_browser_is_left_alone() {
    let live = StealthConfig::live();
    assert!(live.live_session && !live.filter_cdp);
    assert_eq!(connect_script(&live), "");
    assert!(!closes_browser(&live));
    let own = StealthConfig::default();
    assert!(!own.live_session && own.filter_cdp);
    assert!(own.headless && own.patch_binary && own.human_mouse && own.human_typing);
    assert_eq!(own.cdp_timeout, 30);
    assert!(closes_browser(&own));
    assert!(connect_script(&own).contains("webdriver"));
}

#[test]
fn tabs_are_the_pages_among_the_targets() {
    let target = |kind: &str, id: &str| TargetInfo {
        target_id: id.to_string(),
        kind: kind.to_string(),
        title: format!("title {id}"),
        url: format!("url {id}"),
    };
    let found = tabs(&vec![
        target("page", "1"),
        target("iframe", "2"),
        target("page", "3"),
        target("Page", "4"),
    ]);
    let ids: Vec<_> = found
        .iter()
        .map(|t| (t.id.as_str(), t.title.as_str(), t.url.as_str()))
        .collect();
    assert_eq!(ids, vec![("1", "title 1", "url 1"), ("3", "title 3", "url 3")]);
}
