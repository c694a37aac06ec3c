//! Starting a browser, and what to do with its tabs.

use vstd::prelude::*;

use crate::cdp::command::{flag_param, text_param, Command, CommandView, ParamView, ScalarView};
use crate::cdp::connection::{command, Session};
use crate::cdp::transport::pair_view;
use crate::config::StealthConfig;
use crate::decimal::{decimal, digits};
use crate::stealth::evasions::{build_evasion_script, script_for};
use crate::stealth::fingerprint::{
    chrome_versions, random_agent, random_user_agent, some_identity, FingerprintView,
};
use crate::text::{concat, opt_view, same, string_views};

verus! {

/// The arguments that every browser is started with.
pub open spec fn base_args() -> Seq<Seq<char>> {
    seq![
        "--disable-blink-features=AutomationControlled"@,
        "--disable-automation"@,
        "--disable-features=IsolateOrigins,site-per-process,AutomationControlled,EnableAutomation"@,
        "--enable-features=NetworkService,NetworkServiceInProcess"@,
        "--disable-infobars"@,
        "--disable-dev-shm-usage"@,
        "--disable-ipc-flooding-protection"@,
        "--disable-renderer-backgrounding"@,
        "--disable-background-timer-throttling"@,
        "--disable-backgrounding-occluded-windows"@,
        "--no-first-run"@,
        "--no-default-browser-check"@,
        "--no-sandbox"@,
        "--disable-extensions-except="@,
        "--disable-default-apps"@,
        "--disable-component-extensions-with-background-pages"@,
        "--disable-hang-monitor"@,
        "--disable-popup-blocking"@,
        "--disable-prompt-on-repost"@,
        "--disable-sync"@,
        "--disable-translate"@,
        "--metrics-recording-only"@,
        "--safebrowsing-disable-auto-update"@,
        "--disable-client-side-phishing-detection"@,
        "--password-store=basic"@,
        "--use-mock-keychain"@,
        "--excludeSwitches=enable-automation"@,
    ]
}

/// The argument for the window's size.
pub open spec fn window_arg(width: u32, height: u32) -> Seq<char> {
    "--window-size="@ + digits(width as nat) + ","@ + digits(height as nat)
}

/// The arguments for a configuration, with the given user agent.
pub open spec fn args_for(config: StealthConfig, user_agent: Seq<char>) -> Seq<Seq<char>> {
    base_args() + seq![
        window_arg(config.viewport_width, config.viewport_height),
        "--user-agent="@ + user_agent,
    ] + (if config.headless {
        seq!["--headless=new"@]
    } else {
        Seq::empty()
    }) + (match config.proxy {
        Some(proxy) => seq!["--proxy-server="@ + proxy@],
        None => Seq::empty(),
    }) + string_views(config.extra_args@)
}

/// The arguments for a configuration, with the given user agent.
pub fn stealth_args_with(config: &StealthConfig, user_agent: &str) -> (args: Vec<String>)
    ensures
        string_views(args@) == args_for(*config, user_agent@),
{
    let mut args: Vec<String> = vec![
        "--disable-blink-features=AutomationControlled".to_string(),
        "--disable-automation".to_string(),
        "--disable-features=IsolateOrigins,site-per-process,AutomationControlled,EnableAutomation".to_string(),
        "--enable-features=NetworkService,NetworkServiceInProcess".to_string(),
        "--disable-infobars".to_string(),
        "--disable-dev-shm-usage".to_string(),
        "--disable-ipc-flooding-protection".to_string(),
        "--disable-renderer-backgrounding".to_string(),
        "--disable-background-timer-throttling".to_string(),
        "--disable-backgrounding-occluded-windows".to_string(),
        "--no-first-run".to_string(),
        "--no-default-browser-check".to_string(),
        "--no-sandbox".to_string(),
        "--disable-extensions-except=".to_string(),
        "--disable-default-apps".to_string(),
        "--disable-component-extensions-with-background-pages".to_string(),
        "--disable-hang-monitor".to_string(),
        "--disable-popup-blocking".to_string(),
        "--disable-prompt-on-repost".to_string(),
        "--disable-sync".to_string(),
        "--disable-translate".to_string(),
        "--metrics-recording-only".to_string(),
        "--safebrowsing-disable-auto-update".to_string(),
        "--disable-client-side-phishing-detection".to_string(),
        "--password-store=basic".to_string(),
        "--use-mock-keychain".to_string(),
        "--excludeSwitches=enable-automation".to_string(),
    ];
    assert(string_views(args@) =~= base_args());
    let mut window = concat("--window-size=", decimal(config.viewport_width as u64).as_str());
    window.append(",");
    window.append(decimal(config.viewport_height as u64).as_str());
    args.push(window);
    args.push(concat("--user-agent=", user_agent));
    let ghost fixed = string_views(args@);
    assert(fixed =~= base_args() + seq![
        window_arg(config.viewport_width, config.viewport_height),
        "--user-agent="@ + user_agent@,
    ]);
    if config.headless {
        args.push("--headless=new".to_string());
    }
    if let Some(proxy) = &config.proxy {
        args.push(concat("--proxy-server=", proxy.as_str()));
    }
    let ghost extra = string_views(config.extra_args@);
    let ghost before = string_views(args@);
    assert(before + extra =~= args_for(*config, user_agent@));
    let mut i: usize = 0;
    assert(before + extra.take(0) =~= before);
    while i < config.extra_args.len()
        invariant
            i <= config.extra_args@.len(),
            extra == string_views(config.extra_args@),
            string_views(args@) == before + extra.take(i as int),
        decreases config.extra_args@.len() - i,
    {
        let ghost so_far = string_views(args@);
        args.push(config.extra_args[i].clone());
        assert(string_views(args@) =~= so_far.push(extra[i as int]));
        assert(extra.take(i + 1) =~= extra.take(i as int).push(extra[i as int]));
        i = i + 1;
    }
    assert(extra.take(i as int) =~= extra);
    args
}

/// The arguments for a configuration. Chance decides about the user agent where
/// the configuration does not.
pub fn stealth_args(config: &StealthConfig) -> (args: Vec<String>)
    ensures
        match config.user_agent {
            Some(ua) => string_views(args@) == args_for(*config, ua@),
            None => exists|mac: bool, v: int|
                0 <= v < chrome_versions().len() && string_views(args@) == args_for(
                    *config,
                    #[trigger] random_agent(mac, v),
                ),
        },
{
    match &config.user_agent {
        Some(ua) => stealth_args_with(config, ua.as_str()),
        None => {
            let ua = random_user_agent();
            stealth_args_with(config, ua.as_str())
        },
    }
}

/// The name of the directory for a browser's data.
pub fn data_dir_name(process: u32, instance: u64) -> (out: String)
    ensures
        out@ == "eoka-browser-"@ + digits(process as nat) + "-"@ + digits(instance as nat),
{
    let mut out = concat("eoka-browser-", decimal(process as u64).as_str());
    out.append("-");
    out.append(decimal(instance).as_str());
    out
}

/// All arguments to start a browser with: those for its configuration, and the
/// directory for its data.
pub fn launch_args(stealth: Vec<String>, data_dir: &str) -> (args: Vec<String>)
    ensures
        string_views(args@) == string_views(stealth@).push("--user-data-dir="@ + data_dir@),
{
    let mut args = stealth;
    let ghost before = string_views(args@);
    args.push(concat("--user-data-dir=", data_dir));
    assert(string_views(args@) =~= before.push("--user-data-dir="@ + data_dir@));
    args
}

/// The user name and password for a proxy, where both are given.
pub open spec fn proxy_pair(config: StealthConfig) -> Option<(Seq<char>, Seq<char>)> {
    match (config.proxy_username, config.proxy_password) {
        (Some(u), Some(p)) => Some((u@, p@)),
        _ => None,
    }
}

/// The user name and password for a proxy, where both are given.
pub fn proxy_auth(config: &StealthConfig) -> (r: Option<(String, String)>)
    ensures
        pair_view(r) == proxy_pair(*config),
{
    match (&config.proxy_username, &config.proxy_password) {
        (Some(u), Some(p)) => Some((u.clone(), p.clone())),
        _ => None,
    }
}

/// The script to inject into the pages of a browser that was already running: none
/// where it is somebody's own.
pub fn connect_script(config: &StealthConfig) -> (script: String)
    ensures
        if config.live_session {
            script@ == Seq::<char>::empty()
        } else {
            exists|fp: FingerprintView|
                some_identity(opt_view(config.user_agent), opt_view(config.timezone), fp) && script@
                    == #[trigger] script_for(*config, fp)
        },
{
    if config.live_session {
        String::new()
    } else {
        build_evasion_script(config)
    }
}

/// What is sent to a new session before anything else: the page's events are asked
/// for, a proxy's challenges where there is a password for them, and the script is
/// injected, unless the browser is somebody's own.
pub open spec fn setup_commands(
    config: StealthConfig,
    session_id: Seq<char>,
    script: Seq<char>,
) -> Seq<CommandView> {
    seq![command(Some(session_id), "Page.enable"@, Seq::empty())] + (if proxy_pair(config) is Some {
        seq![
            command(
                Some(session_id),
                "Fetch.enable"@,
                seq![("handleAuthRequests"@, flag_param(true))],
            ),
        ]
    } else {
        Seq::empty()
    }) + (if config.live_session {
        Seq::empty()
    } else {
        seq![
            command(
                Some(session_id),
                "Page.addScriptToEvaluateOnNewDocument"@,
                seq![("source"@, text_param(script))],
            ),
        ]
    })
}

/// The views of commands.
pub open spec fn command_views(commands: Seq<Command>) -> Seq<CommandView> {
    commands.map_values(|c: Command| c@)
}

/// What is sent to a new session before anything else.
pub fn setup_session(config: &StealthConfig, session: &Session, script: &str) -> (r: Vec<Command>)
    ensures
        command_views(r@) == setup_commands(*config, session@.session_id, script@),
{
    let mut r: Vec<Command> = Vec::new();
    r.push(session.page_enable());
    if config.proxy_username.is_some() && config.proxy_password.is_some() {
        r.push(session.fetch_enable(true));
    }
    if !config.live_session {
        r.push(session.add_script_to_evaluate_on_new_document(script));
    }
    assert(command_views(r@) =~= setup_commands(*config, session@.session_id, script@));
    r
}

/// A target of the browser, as it tells it.
pub struct TargetInfo {
    /// Its id.
    pub target_id: String,
    /// Its kind.
    pub kind: String,
    /// Its title.
    pub title: String,
    /// Its URL.
    pub url: String,
}

/// An open tab.
#[derive(Debug)]
pub struct TabInfo {
    /// Its id.
    pub id: String,
    /// Its title.
    pub title: String,
    /// Its URL.
    pub url: String,
}

/// The value behind a `TabInfo`.
pub struct TabInfoView {
    pub id: Seq<char>,
    pub title: Seq<char>,
    pub url: Seq<char>,
}

impl View for TabInfo {
    type V = TabInfoView;

    open spec fn view(&self) -> TabInfoView {
        TabInfoView { id: self.id@, title: self.title@, url: self.url@ }
    }
}

/// The tab that a target is.
pub open spec fn tab_of(t: TargetInfo) -> TabInfoView {
    TabInfoView { id: t.target_id@, title: t.title@, url: t.url@ }
}

/// The views of tabs.
pub open spec fn tab_views(tabs: Seq<TabInfo>) -> Seq<TabInfoView> {
    tabs.map_values(|t: TabInfo| t@)
}

/// The tabs among the browser's targets.
pub fn tabs(targets: &Vec<TargetInfo>) -> (r: Vec<TabInfo>)
    ensures
        tab_views(r@) == targets@.filter(|t: TargetInfo| t.kind@ == "page"@).map_values(
            |t: TargetInfo| tab_of(t),
        ),
{
    let ghost keep = |t: TargetInfo| t.kind@ == "page"@;
    let ghost get = |t: TargetInfo| tab_of(t);
    let mut r: Vec<TabInfo> = Vec::new();
    let mut i: usize = 0;
    reveal(Seq::filter);
    assert(tab_views(r@) =~= targets@.take(0).filter(keep).map_values(get));
    while i < targets.len()
        invariant
            i <= targets@.len(),
            keep == (|t: TargetInfo| t.kind@ == "page"@),
            get == (|t: TargetInfo| tab_of(t)),
            tab_views(r@) == targets@.take(i as int).filter(keep).map_values(get),
        decreases targets@.len() - i,
    {
        reveal(Seq::filter);
        let ghost before = tab_views(r@);
        let ghost kept = targets@.take(i as int).filter(keep);
        let target = &targets[i];
        assert(targets@.take(i + 1).drop_last() =~= targets@.take(i as int));
        if same(target.kind.as_str(), "page") {
            r.push(
                TabInfo {
                    id: target.target_id.clone(),
                    title: target.title.clone(),
                    url: target.url.clone(),
                },
            );
            assert(tab_views(r@) =~= before.push(tab_of(*target)));
            assert(kept.push(*target).map_values(get) =~= kept.map_values(get).push(
                tab_of(*target),
            ));
        }
        i = i + 1;
    }
    assert(targets@.take(i as int) =~= targets@);
    r
}

/// Whether closing the connection closes the browser: not where it is somebody's
/// own.
pub fn closes_browser(config: &StealthConfig) -> (r: bool)
    ensures
        r == !config.live_session,
{
    !config.live_session
}

/// Nothing is injected into the pages of somebody's own browser.
pub proof fn law_live_session_injects_nothing(
    config: StealthConfig,
    session_id: Seq<char>,
    script: Seq<char>,
)
    requires
        config.live_session,
    ensures
        forall|i: int|
            0 <= i < setup_commands(config, session_id, script).len() ==> (
            #[trigger] setup_commands(config, session_id, script)[i]).method
                != "Page.addScriptToEvaluateOnNewDocument"@,
{
    reveal_strlit("Page.enable");
    reveal_strlit("Fetch.enable");
    reveal_strlit("Page.addScriptToEvaluateOnNewDocument");
    assert("Page.enable"@.len() == 11);
    assert("Fetch.enable"@.len() == 12);
    assert("Page.addScriptToEvaluateOnNewDocument"@.len() == 37);
}

/// Every browser is started with these arguments, whatever its configuration.
pub proof fn law_base_arguments(config: StealthConfig, user_agent: Seq<char>)
    ensures
        args_for(config, user_agent).contains("--disable-blink-features=AutomationControlled"@),
        args_for(config, user_agent).contains("--disable-automation"@),
        args_for(config, user_agent).contains("--disable-features=IsolateOrigins,site-per-process,AutomationControlled,EnableAutomation"@),
        args_for(config, user_agent).contains("--enable-features=NetworkService,NetworkServiceInProcess"@),
        args_for(config, user_agent).contains("--disable-infobars"@),
        args_for(config, user_agent).contains("--disable-dev-shm-usage"@),
        args_for(config, user_agent).contains("--disable-ipc-flooding-protection"@),
        args_for(config, user_agent).contains("--disable-renderer-backgrounding"@),
        args_for(config, user_agent).contains("--disable-background-timer-throttling"@),
        args_for(config, user_agent).contains("--disable-backgrounding-occluded-windows"@),
        args_for(config, user_agent).contains("--no-first-run"@),
        args_for(config, user_agent).contains("--no-default-browser-check"@),
        args_for(config, user_agent).contains("--no-sandbox"@),
        args_for(config, user_agent).contains("--disable-extensions-except="@),
        args_for(config, user_agent).contains("--disable-default-apps"@),
        args_for(config, user_agent).contains("--disable-component-extensions-with-background-pages"@),
        args_for(config, user_agent).contains("--disable-hang-monitor"@),
        args_for(config, user_agent).contains("--disable-popup-blocking"@),
        args_for(config, user_agent).contains("--disable-prompt-on-repost"@),
        args_for(config, user_agent).contains("--disable-sync"@),
        args_for(config, user_agent).contains("--disable-translate"@),
        args_for(config, user_agent).contains("--metrics-recording-only"@),
        args_for(config, user_agent).contains("--safebrowsing-disable-auto-update"@),
        args_for(config, user_agent).contains("--disable-client-side-phishing-detection"@),
        args_for(config, user_agent).contains("--password-store=basic"@),
        args_for(config, user_agent).contains("--use-mock-keychain"@),
        args_for(config, user_agent).contains("--excludeSwitches=enable-automation"@),
        base_args().len() == 27,
{
    let all = args_for(config, user_agent);
    assert(all[0] == "--disable-blink-features=AutomationControlled"@);
    assert(all[1] == "--disable-automation"@);
    assert(all[2] == "--disable-features=IsolateOrigins,site-per-process,AutomationControlled,EnableAutomation"@);
    assert(all[3] == "--enable-features=NetworkService,NetworkServiceInProcess"@);
    assert(all[4] == "--disable-infobars"@);
    assert(all[5] == "--disable-dev-shm-usage"@);
    assert(all[6] == "--disable-ipc-flooding-protection"@);
    assert(all[7] == "--disable-renderer-backgrounding"@);
    assert(all[8] == "--disable-background-timer-throttling"@);
    assert(all[9] == "--disable-backgrounding-occluded-windows"@);
    assert(all[10] == "--no-first-run"@);
    assert(all[11] == "--no-default-browser-check"@);
    assert(all[12] == "--no-sandbox"@);
    assert(all[13] == "--disable-extensions-except="@);
    assert(all[14] == "--disable-default-apps"@);
    assert(all[15] == "--disable-component-extensions-with-background-pages"@);
    assert(all[16] == "--disable-hang-monitor"@);
    assert(all[17] == "--disable-popup-blocking"@);
    assert(all[18] == "--disable-prompt-on-repost"@);
    assert(all[19] == "--disable-sync"@);
    assert(all[20] == "--disable-translate"@);
    assert(all[21] == "--metrics-recording-only"@);
    assert(all[22] == "--safebrowsing-disable-auto-update"@);
    assert(all[23] == "--disable-client-side-phishing-detection"@);
    assert(all[24] == "--password-store=basic"@);
    assert(all[25] == "--use-mock-keychain"@);
    assert(all[26] == "--excludeSwitches=enable-automation"@);
}

/// The arguments tell the browser its window's width and height, its user agent, to
/// show no window exactly where that is configured, the proxy exactly where there is
/// one, and end with those that were added, in order.
pub proof fn law_arguments_tell_configuration(config: StealthConfig, user_agent: Seq<char>)
    ensures
        args_for(config, user_agent).contains(
            "--window-size="@ + digits(config.viewport_width as nat) + ","@ + digits(
                config.viewport_height as nat,
            ),
        ),
        args_for(config, user_agent).contains("--user-agent="@ + user_agent),
        config.headless ==> args_for(config, user_agent).contains("--headless=new"@),
        config.proxy matches Some(proxy) ==> args_for(config, user_agent).contains(
            "--proxy-server="@ + proxy@,
        ),
        args_for(config, user_agent).len() == 29 + (if config.headless {
            1int
        } else {
            0
        }) + (if config.proxy is Some {
            1int
        } else {
            0
        }) + config.extra_args@.len(),
        forall|i: int|
            0 <= i < config.extra_args@.len() ==> args_for(config, user_agent)[args_for(
                config,
                user_agent,
            ).len() - config.extra_args@.len() + i] == (#[trigger] config.extra_args@[i])@,
{
    let all = args_for(config, user_agent);
    assert(all[27] == "--window-size="@ + digits(config.viewport_width as nat) + ","@ + digits(
        config.viewport_height as nat,
    ));
    assert(all[28] == "--user-agent="@ + user_agent);
    let at: int = if config.headless {
        30
    } else {
        29
    };
    if config.headless {
        assert(all[29] == "--headless=new"@);
    }
    if let Some(proxy) = config.proxy {
        assert(all[at] == "--proxy-server="@ + proxy@);
    }
    assert forall|i: int| 0 <= i < config.extra_args@.len() implies all[all.len()
        - config.extra_args@.len() + i] == (#[trigger] config.extra_args@[i])@ by {
        assert(string_views(config.extra_args@)[i] == config.extra_args@[i]@);
    }
}

/// A new session's events are asked for first; a proxy's challenges are asked for
/// exactly where there is both a user name and a password; and the script is injected
/// last, unless the browser is somebody's own. All of it is for that session.
pub proof fn law_session_is_set_up(
    config: StealthConfig,
    session_id: Seq<char>,
    script: Seq<char>,
)
    ensures
        ({
            let all = setup_commands(config, session_id, script);
            let challenges = config.proxy_username is Some && config.proxy_password is Some;
            &&& all.len() == 1 + (if challenges {
                1int
            } else {
                0
            }) + (if config.live_session {
                0int
            } else {
                1
            })
            &&& all[0].method == "Page.enable"@
            &&& challenges ==> {
                &&& all[1].method == "Fetch.enable"@
                &&& all[1].params.len() == 1
                &&& all[1].params[0] == ("handleAuthRequests"@, ParamView::One(
                    ScalarView::Flag(true),
                ))
            }
            &&& !config.live_session ==> {
                &&& all.last().method == "Page.addScriptToEvaluateOnNewDocument"@
                &&& all.last().params.len() == 1
                &&& all.last().params[0] == ("source"@, ParamView::One(ScalarView::Text(script)))
            }
            &&& forall|i: int|
                0 <= i < all.len() ==> (#[trigger] all[i]).session_id == Some(session_id)
        }),
{
}

/// A proxy's user name and password are used together or not at all.
pub proof fn law_proxy_needs_both(config: StealthConfig)
    ensures
        proxy_pair(config) is Some <==> (config.proxy_username is Some && config.proxy_password
            is Some),
        proxy_pair(config) matches Some((user, password)) ==> user == config.proxy_username->0@
            && password == config.proxy_password->0@,
{
}

/// A tab goes by its target's id, and has its title and its URL.
pub proof fn law_tab_is_its_target(t: TargetInfo)
    ensures
        tab_of(t).id == t.target_id@,
        tab_of(t).title == t.title@,
        tab_of(t).url == t.url@,
{
}

} // verus!
