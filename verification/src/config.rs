//! How a browser is started and driven.

use vstd::prelude::*;

verus! {

/// How a browser is started and driven.
#[derive(Debug)]
pub struct StealthConfig {
    /// The window's width in pixels.
    pub viewport_width: u32,
    /// The window's height in pixels.
    pub viewport_height: u32,
    /// The user agent to claim, or a random one.
    pub user_agent: Option<String>,
    /// Whether the browser shows no window.
    pub headless: bool,
    /// The proxy to go through.
    pub proxy: Option<String>,
    /// The user name for the proxy.
    pub proxy_username: Option<String>,
    /// The password for the proxy.
    pub proxy_password: Option<String>,
    /// Further arguments for the browser.
    pub extra_args: Vec<String>,
    /// The browser's binary, or the one that is found.
    pub chrome_path: Option<String>,
    /// Whether to start a copy of the binary without tell-tale strings.
    pub patch_binary: bool,
    /// How many seconds a command may take.
    pub cdp_timeout: u64,
    /// Whether detectable commands are held back.
    pub filter_cdp: bool,
    /// Whether the browser is somebody's own: nothing is injected into its pages,
    /// and it is not closed.
    pub live_session: bool,
    /// The time zone to claim, or a random one.
    pub timezone: Option<String>,
    /// Whether to proxy `document` and patch reflection as well.
    pub aggressive_cdp_evasion: bool,
    /// Whether to claim another graphics card.
    pub webgl_spoof: bool,
    /// Whether to perturb canvases.
    pub canvas_spoof: bool,
    /// Whether to perturb audio.
    pub audio_spoof: bool,
    /// Whether the mouse moves along curves.
    pub human_mouse: bool,
    /// Whether keys are typed with varying delays.
    pub human_typing: bool,
    /// Where screenshots for debugging go.
    pub debug_dir: Option<String>,
}

impl StealthConfig {
    /// Everything is left to the library, but for what a live session changes.
    pub open spec fn plain(&self) -> bool {
        &&& self.viewport_width == 1280
        &&& self.viewport_height == 720
        &&& self.user_agent is None
        &&& self.headless
        &&& self.proxy is None
        &&& self.proxy_username is None
        &&& self.proxy_password is None
        &&& self.extra_args@.len() == 0
        &&& self.chrome_path is None
        &&& self.patch_binary
        &&& self.cdp_timeout == 30
        &&& self.timezone is None
        &&& !self.aggressive_cdp_evasion
        &&& self.webgl_spoof
        &&& self.canvas_spoof
        &&& self.audio_spoof
        &&& self.human_mouse
        &&& self.human_typing
        &&& self.debug_dir is None
    }

    /// For somebody's own browser: nothing is injected, every command is let
    /// through.
    pub fn live() -> (c: StealthConfig)
        ensures
            c.plain(),
            c.live_session,
            !c.filter_cdp,
    {
        let mut c = StealthConfig::default();
        c.live_session = true;
        c.filter_cdp = false;
        c
    }
}

impl Default for StealthConfig {
    fn default() -> (c: StealthConfig)
        ensures
            c.plain(),
            !c.live_session,
            c.filter_cdp,
    {
        StealthConfig {
            viewport_width: 1280,
            viewport_height: 720,
            user_agent: None,
            headless: true,
            proxy: None,
            proxy_username: None,
            proxy_password: None,
            extra_args: Vec::new(),
            chrome_path: None,
            patch_binary: true,
            cdp_timeout: 30,
            filter_cdp: true,
            live_session: false,
            timezone: None,
            aggressive_cdp_evasion: false,
            webgl_spoof: true,
            canvas_spoof: true,
            audio_spoof: true,
            human_mouse: true,
            human_typing: true,
            debug_dir: None,
        }
    }
}

/// What a configuration is where nothing was chosen.
pub proof fn law_nothing_chosen(c: StealthConfig)
    requires
        c.plain(),
    ensures
        c.viewport_width == 1280 && c.viewport_height == 720,
        c.headless,
        c.user_agent is None && c.proxy is None && c.timezone is None && c.chrome_path is None,
        c.proxy_username is None && c.proxy_password is None && c.debug_dir is None,
        c.extra_args@.len() == 0,
        c.patch_binary,
        c.cdp_timeout == 30,
        !c.aggressive_cdp_evasion,
        c.webgl_spoof && c.canvas_spoof && c.audio_spoof,
        c.human_mouse && c.human_typing,
{
}

} // verus!
