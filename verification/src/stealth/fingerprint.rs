//! Browser identities.
//!
//! The user agent, the versions, the screen and the graphics card of an identity are
//! all ones of its platform. The maker of the graphics card is the platform's usual
//! one, whichever card was drawn. A browser with a lasting profile keeps its
//! identity: one that changed its graphics card between visits would look like
//! another device.

use vstd::prelude::*;

use crate::decimal::{all_digits, decimal, digits, is_digit};
use crate::json::member_views;
use crate::random::{random_below, random_from};
use crate::text::{
    chars_of, concat3, contains, find_from, holds, law_split_at_first, lemma_find_from,
    lemma_find_from_advance, lemma_split_from_nonempty, occurs_at, opt_str_view, same, split,
    split_from, split_on, string_views, views,
};

verus! {

/// The name of the file that holds a profile's identity.
pub const PERSISTED_FINGERPRINT_FILE: &'static str = ".eoka-fingerprint.json";

/// An operating system.
#[derive(Debug, Clone, Copy, PartialEq, Eq, Structural)]
pub enum Platform {
    /// macOS.
    MacOS,
    /// Windows.
    Windows,
    /// Linux.
    Linux,
}

/// A processor architecture that Linux browsers claim.
#[derive(Debug, Clone, Copy, PartialEq, Eq, Structural)]
pub enum LinuxArch {
    /// 64-bit x86.
    X86,
    /// 64-bit ARM.
    Arm,
}

/// The machine that the browser runs on.
#[derive(Debug, Clone, Copy, PartialEq, Eq, Structural)]
pub struct Host {
    /// Its operating system.
    pub platform: Platform,
    /// What it is called where that is Linux.
    pub linux_arch: LinuxArch,
}

/// Recent browser versions: the major number and the whole version.
pub open spec fn chrome_versions() -> Seq<(Seq<char>, Seq<char>)> {
    seq![
        ("133"@, "133.0.6943.142"@),
        ("134"@, "134.0.6998.118"@),
        ("135"@, "135.0.7049.96"@),
        ("136"@, "136.0.7103.114"@),
        ("137"@, "137.0.7151.119"@),
        ("138"@, "138.0.7204.101"@),
        ("139"@, "139.0.7258.139"@),
        ("140"@, "140.0.7312.86"@),
        ("150"@, "150.0.7871.182"@),
    ]
}

fn chrome_version(at: usize) -> (r: (&'static str, &'static str))
    requires
        at < chrome_versions().len(),
    ensures
        (r.0@, r.1@) == chrome_versions()[at as int],
{
    let all: Vec<(&'static str, &'static str)> = vec![
        ("133", "133.0.6943.142"),
        ("134", "134.0.6998.118"),
        ("135", "135.0.7049.96"),
        ("136", "136.0.7103.114"),
        ("137", "137.0.7151.119"),
        ("138", "138.0.7204.101"),
        ("139", "139.0.7258.139"),
        ("140", "140.0.7312.86"),
        ("150", "150.0.7871.182"),
    ];
    all[at]
}

/// The versions of each platform that client hints tell. The one in a Mac's user
/// agent is frozen; Linux tells the kernel's.
pub open spec fn ch_versions(platform: Platform) -> Seq<Seq<char>> {
    match platform {
        Platform::MacOS => seq![
            "13.6.0"@,
            "14.4.1"@,
            "14.5.0"@,
            "14.6.1"@,
            "15.0.0"@,
            "15.1.0"@,
        ],
        Platform::Windows => seq!["10.0.0"@, "15.0.0"@],
        Platform::Linux => seq!["5.15.0"@, "6.8.0"@],
    }
}

fn ch_version_list(platform: Platform) -> (all: Vec<&'static str>)
    ensures
        views(all@) == ch_versions(platform),
{
    let all: Vec<&'static str> = match platform {
        Platform::MacOS => vec!["13.6.0", "14.4.1", "14.5.0", "14.6.1", "15.0.0", "15.1.0"],
        Platform::Windows => vec!["10.0.0", "15.0.0"],
        Platform::Linux => vec!["5.15.0", "6.8.0"],
    };
    assert(views(all@) =~= ch_versions(platform));
    all
}

/// The graphics cards of each platform.
pub open spec fn renderers(platform: Platform) -> Seq<Seq<char>> {
    match platform {
        Platform::MacOS => seq![
            "ANGLE (Apple, Apple M1 Pro, OpenGL 4.1)"@,
            "ANGLE (Apple, Apple M1, OpenGL 4.1)"@,
            "ANGLE (Apple, Apple M2, OpenGL 4.1)"@,
            "ANGLE (Apple, Apple M3, OpenGL 4.1)"@,
            "ANGLE (Intel, Intel Iris Pro Graphics 6200, OpenGL 4.1)"@,
            "ANGLE (Intel, Intel UHD Graphics 630, OpenGL 4.1)"@,
        ],
        Platform::Windows => seq![
            "ANGLE (NVIDIA, NVIDIA GeForce RTX 3080 Direct3D11 vs_5_0 ps_5_0, D3D11)"@,
            "ANGLE (NVIDIA, NVIDIA GeForce RTX 4070 Direct3D11 vs_5_0 ps_5_0, D3D11)"@,
            "ANGLE (NVIDIA, NVIDIA GeForce GTX 1080 Direct3D11 vs_5_0 ps_5_0, D3D11)"@,
            "ANGLE (AMD, AMD Radeon RX 6800 XT Direct3D11 vs_5_0 ps_5_0, D3D11)"@,
            "ANGLE (Intel, Intel(R) UHD Graphics 770 Direct3D11 vs_5_0 ps_5_0, D3D11)"@,
        ],
        Platform::Linux => seq![
            "ANGLE (Google, Vulkan 1.3.0 (SwiftShader Device (LLVM 16.0.0) (0x0000C0DE)), SwiftShader driver)"@,
        ],
    }
}

/// The graphics cards of each platform.
pub fn webgl_renderers(platform: Platform) -> (all: Vec<&'static str>)
    ensures
        views(all@) == renderers(platform),
{
    let all: Vec<&'static str> = match platform {
        Platform::MacOS => vec![
            "ANGLE (Apple, Apple M1 Pro, OpenGL 4.1)",
            "ANGLE (Apple, Apple M1, OpenGL 4.1)",
            "ANGLE (Apple, Apple M2, OpenGL 4.1)",
            "ANGLE (Apple, Apple M3, OpenGL 4.1)",
            "ANGLE (Intel, Intel Iris Pro Graphics 6200, OpenGL 4.1)",
            "ANGLE (Intel, Intel UHD Graphics 630, OpenGL 4.1)",
        ],
        Platform::Windows => vec![
            "ANGLE (NVIDIA, NVIDIA GeForce RTX 3080 Direct3D11 vs_5_0 ps_5_0, D3D11)",
            "ANGLE (NVIDIA, NVIDIA GeForce RTX 4070 Direct3D11 vs_5_0 ps_5_0, D3D11)",
            "ANGLE (NVIDIA, NVIDIA GeForce GTX 1080 Direct3D11 vs_5_0 ps_5_0, D3D11)",
            "ANGLE (AMD, AMD Radeon RX 6800 XT Direct3D11 vs_5_0 ps_5_0, D3D11)",
            "ANGLE (Intel, Intel(R) UHD Graphics 770 Direct3D11 vs_5_0 ps_5_0, D3D11)",
        ],
        Platform::Linux => vec![
            "ANGLE (Google, Vulkan 1.3.0 (SwiftShader Device (LLVM 16.0.0) (0x0000C0DE)), SwiftShader driver)",
        ],
    };
    assert(views(all@) =~= renderers(platform));
    all
}

/// The maker of each platform's graphics cards.
pub open spec fn vendor(platform: Platform) -> Seq<char> {
    match platform {
        Platform::MacOS => "Google Inc. (Apple)"@,
        Platform::Windows => "Google Inc. (NVIDIA)"@,
        Platform::Linux => "Google Inc. (Google)"@,
    }
}

/// The screens of each platform.
pub open spec fn screens(platform: Platform) -> Seq<(u32, u32)> {
    match platform {
        Platform::MacOS => seq![
            (1440u32, 900u32),
            (1680u32, 1050u32),
            (2560u32, 1600u32),
            (1920u32, 1080u32),
            (3024u32, 1964u32),
            (3456u32, 2234u32),
        ],
        Platform::Windows => seq![
            (1920u32, 1080u32),
            (2560u32, 1440u32),
            (3840u32, 2160u32),
            (1366u32, 768u32),
            (1536u32, 864u32),
            (1600u32, 900u32),
        ],
        Platform::Linux => seq![
            (1920u32, 1080u32),
            (2560u32, 1440u32),
            (1366u32, 768u32),
            (1600u32, 900u32),
        ],
    }
}

/// The screens of each platform.
pub fn screen_resolutions(platform: Platform) -> (all: Vec<(u32, u32)>)
    ensures
        all@ == screens(platform),
{
    match platform {
        Platform::MacOS => vec![
            (1440u32, 900u32),
            (1680u32, 1050u32),
            (2560u32, 1600u32),
            (1920u32, 1080u32),
            (3024u32, 1964u32),
            (3456u32, 2234u32),
        ],
        Platform::Windows => vec![
            (1920u32, 1080u32),
            (2560u32, 1440u32),
            (3840u32, 2160u32),
            (1366u32, 768u32),
            (1536u32, 864u32),
            (1600u32, 900u32),
        ],
        Platform::Linux => vec![
            (1920u32, 1080u32),
            (2560u32, 1440u32),
            (1366u32, 768u32),
            (1600u32, 900u32),
        ],
    }
}

/// How many processors there may be.
pub open spec fn core_counts() -> Seq<u8> {
    seq![4u8, 8u8, 10u8, 12u8, 16u8]
}

/// How many gigabytes of memory there may be.
pub open spec fn memory_sizes() -> Seq<u8> {
    seq![8u8, 8u8, 16u8, 32u8]
}

/// Time zones, balanced across regions.
pub open spec fn common_timezones() -> Seq<Seq<char>> {
    seq![
        "America/New_York"@,
        "America/Chicago"@,
        "America/Los_Angeles"@,
        "America/Sao_Paulo"@,
        "Europe/London"@,
        "Europe/Paris"@,
        "Europe/Berlin"@,
        "Europe/Moscow"@,
        "Asia/Tokyo"@,
        "Asia/Shanghai"@,
        "Asia/Kolkata"@,
        "Australia/Sydney"@,
    ]
}

fn common_timezone(at: usize) -> (r: &'static str)
    requires
        at < common_timezones().len(),
    ensures
        r@ == common_timezones()[at as int],
{
    let all: Vec<&'static str> = vec![
        "America/New_York",
        "America/Chicago",
        "America/Los_Angeles",
        "America/Sao_Paulo",
        "Europe/London",
        "Europe/Paris",
        "Europe/Berlin",
        "Europe/Moscow",
        "Asia/Tokyo",
        "Asia/Shanghai",
        "Asia/Kolkata",
        "Australia/Sydney",
    ];
    all[at]
}

/// What chance decided about an identity: a position in each list, and a seed.
#[derive(Debug, Clone, Copy)]
pub struct Draws {
    /// Which of the browser versions.
    pub version: usize,
    /// Which of the platform's graphics cards.
    pub renderer: usize,
    /// Which of the platform's versions.
    pub ch_version: usize,
    /// Which of the platform's screens.
    pub screen: usize,
    /// Which number of processors.
    pub cores: usize,
    /// Which amount of memory.
    pub memory: usize,
    /// Which time zone.
    pub timezone: usize,
    /// The seed of the perturbations.
    pub noise_seed: u32,
}

/// The draws lie within the lists for `platform`.
pub open spec fn fits(d: Draws, platform: Platform) -> bool {
    &&& d.version < chrome_versions().len()
    &&& d.renderer < renderers(platform).len()
    &&& d.ch_version < ch_versions(platform).len()
    &&& d.screen < screens(platform).len()
    &&& d.cores < core_counts().len()
    &&& d.memory < memory_sizes().len()
    &&& d.timezone < common_timezones().len()
    &&& d.noise_seed >= 1
}

/// Lets chance decide about an identity for `platform`.
pub fn draw(platform: Platform) -> (d: Draws)
    ensures
        fits(d, platform),
{
    let renderer_count: usize = webgl_renderers(platform).len();
    let version_count: usize = ch_version_list(platform).len();
    let screen_count: usize = screen_resolutions(platform).len();
    proof {
        assert(renderers(platform).len() > 0);
        assert(ch_versions(platform).len() > 0);
    }
    Draws {
        version: random_below(9),
        renderer: random_below(renderer_count),
        ch_version: random_below(version_count),
        screen: random_below(screen_count),
        cores: random_below(5),
        memory: random_below(4),
        timezone: random_below(12),
        noise_seed: random_from(1),
    }
}

/// What a Linux browser calls its architecture.
pub open spec fn arch_name(arch: LinuxArch) -> Seq<char> {
    match arch {
        LinuxArch::X86 => "x86_64"@,
        LinuxArch::Arm => "aarch64"@,
    }
}

/// What a Linux browser calls its architecture.
pub fn native_linux_arch(arch: LinuxArch) -> (r: &'static str)
    ensures
        r@ == arch_name(arch),
{
    match arch {
        LinuxArch::X86 => "x86_64",
        LinuxArch::Arm => "aarch64",
    }
}

/// The user agent of a browser with the given version.
pub open spec fn user_agent_of(platform: Platform, arch: LinuxArch, version: Seq<char>) -> Seq<
    char,
> {
    match platform {
        Platform::MacOS =>
            "Mozilla/5.0 (Macintosh; Intel Mac OS X 10_15_7) AppleWebKit/537.36 (KHTML, like Gecko) Chrome/"@
            + version + " Safari/537.36"@,
        Platform::Windows =>
            "Mozilla/5.0 (Windows NT 10.0; Win64; x64) AppleWebKit/537.36 (KHTML, like Gecko) Chrome/"@
            + version + " Safari/537.36"@,
        Platform::Linux => "Mozilla/5.0 (X11; Linux "@ + arch_name(arch)
            + ") AppleWebKit/537.36 (KHTML, like Gecko) Chrome/"@ + version + " Safari/537.36"@,
    }
}

/// The user agent of a browser with the given version.
pub fn ua_for(platform: Platform, arch: LinuxArch, chrome_full_version: &str) -> (out: String)
    ensures
        out@ == user_agent_of(platform, arch, chrome_full_version@),
{
    match platform {
        Platform::MacOS => concat3(
            "Mozilla/5.0 (Macintosh; Intel Mac OS X 10_15_7) AppleWebKit/537.36 (KHTML, like Gecko) Chrome/",
            chrome_full_version,
            " Safari/537.36",
        ),
        Platform::Windows => concat3(
            "Mozilla/5.0 (Windows NT 10.0; Win64; x64) AppleWebKit/537.36 (KHTML, like Gecko) Chrome/",
            chrome_full_version,
            " Safari/537.36",
        ),
        Platform::Linux => {
            let mut out = concat3(
                "Mozilla/5.0 (X11; Linux ",
                native_linux_arch(arch),
                ") AppleWebKit/537.36 (KHTML, like Gecko) Chrome/",
            );
            out.append(chrome_full_version);
            out.append(" Safari/537.36");
            out
        },
    }
}

/// A browser identity.
#[derive(Debug, Clone)]
pub struct Fingerprint {
    /// The user agent.
    pub user_agent: String,
    /// The operating system.
    pub platform: Platform,
    /// The browser's major version.
    pub chrome_major: String,
    /// The browser's whole version.
    pub chrome_full_version: String,
    /// The platform's version in client hints.
    pub platform_version: String,
    /// The screen's width in pixels.
    pub screen_width: u32,
    /// The screen's height in pixels.
    pub screen_height: u32,
    /// The screen's colour depth in bits.
    pub color_depth: u8,
    /// The number of logical processors.
    pub hardware_concurrency: u8,
    /// The memory in gigabytes.
    pub device_memory: u8,
    /// The IANA name of the time zone.
    pub timezone: String,
    /// The preferred languages.
    pub languages: Vec<String>,
    /// The maker of the graphics card.
    pub webgl_vendor: String,
    /// The graphics card.
    pub webgl_renderer: String,
    /// The seed of canvas and audio perturbations.
    pub noise_seed: u32,
}

/// The value behind a `Fingerprint`.
pub struct FingerprintView {
    pub user_agent: Seq<char>,
    pub platform: Platform,
    pub chrome_major: Seq<char>,
    pub chrome_full_version: Seq<char>,
    pub platform_version: Seq<char>,
    pub screen: (u32, u32),
    pub color_depth: u8,
    pub hardware_concurrency: u8,
    pub device_memory: u8,
    pub timezone: Seq<char>,
    pub languages: Seq<Seq<char>>,
    pub webgl_vendor: Seq<char>,
    pub webgl_renderer: Seq<char>,
    pub noise_seed: u32,
}

impl View for Fingerprint {
    type V = FingerprintView;

    open spec fn view(&self) -> FingerprintView {
        FingerprintView {
            user_agent: self.user_agent@,
            platform: self.platform,
            chrome_major: self.chrome_major@,
            chrome_full_version: self.chrome_full_version@,
            platform_version: self.platform_version@,
            screen: (self.screen_width, self.screen_height),
            color_depth: self.color_depth,
            hardware_concurrency: self.hardware_concurrency,
            device_memory: self.device_memory,
            timezone: self.timezone@,
            languages: string_views(self.languages@),
            webgl_vendor: self.webgl_vendor@,
            webgl_renderer: self.webgl_renderer@,
            noise_seed: self.noise_seed,
        }
    }
}

/// The identity with the given user agent, platform and version on which chance
/// decided as `d` says.
pub open spec fn identity(
    user_agent: Seq<char>,
    platform: Platform,
    version: (Seq<char>, Seq<char>),
    d: Draws,
) -> FingerprintView {
    FingerprintView {
        user_agent,
        platform,
        chrome_major: version.0,
        chrome_full_version: version.1,
        platform_version: ch_versions(platform)[d.ch_version as int],
        screen: screens(platform)[d.screen as int],
        color_depth: 24,
        hardware_concurrency: core_counts()[d.cores as int],
        device_memory: memory_sizes()[d.memory as int],
        timezone: common_timezones()[d.timezone as int],
        languages: seq!["en-US"@, "en"@],
        webgl_vendor: vendor(platform),
        webgl_renderer: renderers(platform)[d.renderer as int],
        noise_seed: d.noise_seed,
    }
}

/// The graphics card, its maker and the platform's version on which chance decided
/// as `d` says.
pub fn platform_surfaces(platform: Platform, d: &Draws) -> (r: (&'static str, String, String))
    requires
        fits(*d, platform),
    ensures
        r.0@ == vendor(platform),
        r.1@ == renderers(platform)[d.renderer as int],
        r.2@ == ch_versions(platform)[d.ch_version as int],
{
    let cards = webgl_renderers(platform);
    let versions = ch_version_list(platform);
    assert(views(cards@).len() == cards@.len());
    assert(views(versions@).len() == versions@.len());
    let maker = match platform {
        Platform::MacOS => "Google Inc. (Apple)",
        Platform::Windows => "Google Inc. (NVIDIA)",
        Platform::Linux => "Google Inc. (Google)",
    };
    (maker, cards[d.renderer].to_string(), versions[d.ch_version].to_string())
}

/// The screen on which chance decided as `d` says.
pub fn platform_screen(platform: Platform, d: &Draws) -> (r: (u32, u32))
    requires
        fits(*d, platform),
    ensures
        r == screens(platform)[d.screen as int],
{
    let all = screen_resolutions(platform);
    all[d.screen]
}

/// The platform that a user agent tells.
pub open spec fn platform_told(ua: Seq<char>) -> Platform {
    if contains(ua, "Macintosh"@) || contains(ua, "Mac OS X"@) {
        Platform::MacOS
    } else if contains(ua, "Linux"@) {
        Platform::Linux
    } else {
        Platform::Windows
    }
}

/// The platform that a user agent tells.
pub fn platform_of(ua: &str) -> (r: Platform)
    ensures
        r == platform_told(ua@),
{
    if holds(ua, "Macintosh") || holds(ua, "Mac OS X") {
        Platform::MacOS
    } else if holds(ua, "Linux") {
        Platform::Linux
    } else {
        Platform::Windows
    }
}

/// The browser version, major and whole, that a user agent tells: what stands
/// between the first `Chrome/` and the next one or a space.
pub open spec fn version_told(ua: Seq<char>) -> Option<(Seq<char>, Seq<char>)> {
    let pieces = split(ua, "Chrome/"@);
    if pieces.len() > 1 {
        let full = split(pieces[1], seq![' '])[0];
        if full.len() > 0 {
            Some((split(full, seq!['.'])[0], full))
        } else {
            None
        }
    } else {
        None
    }
}

/// The first piece of `text` before the separator.
fn first_piece<'a>(text: &'a str, sep: &str) -> (r: &'a str)
    requires
        sep@.len() > 0,
    ensures
        r@ == split(text@, sep@)[0],
{
    proof {
        lemma_split_from_nonempty(text@, sep@, 0);
    }
    let pieces = split_on(text, sep);
    assert(views(pieces@).len() == pieces@.len());
    assert(pieces@[0]@ == split(text@, sep@)[0]);
    pieces[0]
}

/// The browser version, major and whole, that a user agent tells.
pub fn version_of(ua: &str) -> (r: Option<(String, String)>)
    ensures
        match r {
            Some((major, full)) => version_told(ua@) == Some((major@, full@)),
            None => version_told(ua@) is None,
        },
{
    proof {
        reveal_strlit("Chrome/");
        reveal_strlit(" ");
        reveal_strlit(".");
        assert(" "@ =~= seq![' ']);
        assert("."@ =~= seq!['.']);
    }
    let pieces = split_on(ua, "Chrome/");
    assert(views(pieces@).len() == pieces@.len());
    if pieces.len() <= 1 {
        return None;
    }
    assert(pieces@[1]@ == split(ua@, "Chrome/"@)[1]);
    let full = first_piece(pieces[1], " ");
    if full.unicode_len() == 0 {
        return None;
    }
    let major = first_piece(full, ".");
    Some((major.to_string(), full.to_string()))
}

/// Which platform a random identity has.
pub open spec fn random_platform(mac: bool) -> Platform {
    if mac {
        Platform::MacOS
    } else {
        Platform::Windows
    }
}

/// The platform of the identity for a user agent, or of a random one.
pub open spec fn chosen_platform(user_agent: Option<Seq<char>>, mac: bool) -> Platform {
    match user_agent {
        Some(ua) => platform_told(ua),
        None => random_platform(mac),
    }
}

/// The identity for a user agent and a time zone, or a random one, on which chance
/// decided as `mac` and `d` say.
pub open spec fn resolved(
    user_agent: Option<Seq<char>>,
    timezone: Option<Seq<char>>,
    mac: bool,
    d: Draws,
) -> FingerprintView {
    let platform = chosen_platform(user_agent, mac);
    let drawn = chrome_versions()[d.version as int];
    let made = match user_agent {
        Some(ua) => identity(
            ua,
            platform,
            match version_told(ua) {
                Some(version) => version,
                None => drawn,
            },
            d,
        ),
        None => identity(user_agent_of(platform, LinuxArch::X86, drawn.1), platform, drawn, d),
    };
    match timezone {
        Some(tz) => FingerprintView { timezone: tz, ..made },
        None => made,
    }
}

/// Every part of a browser version is a number.
pub open spec fn is_version(text: Seq<char>) -> bool {
    let parts = split(text, seq!['.']);
    forall|i: int|
        0 <= i < parts.len() ==> (#[trigger] parts[i]).len() > 0 && all_digits(parts[i])
}

fn is_number(text: &str) -> (r: bool)
    ensures
        r == (text@.len() > 0 && all_digits(text@)),
{
    let chars = chars_of(text);
    let mut i: usize = 0;
    while i < chars.len()
        invariant
            i <= chars.len(),
            chars@ == text@,
            forall|j: int| 0 <= j < i ==> is_digit(#[trigger] text@[j]),
        decreases chars.len() - i,
    {
        let c = chars[i];
        if !('0' <= c && c <= '9') {
            assert(!is_digit(text@[i as int]));
            return false;
        }
        i = i + 1;
    }
    chars.len() > 0
}

impl Fingerprint {
    /// The user agent of the browser that runs on `host`, where its version is one.
    pub fn native_chrome_user_agent(chrome_full_version: &str, host: Host) -> (r: Option<String>)
        ensures
            match r {
                Some(ua) => is_version(chrome_full_version@) && ua@ == user_agent_of(
                    host.platform,
                    host.linux_arch,
                    chrome_full_version@,
                ),
                None => !is_version(chrome_full_version@),
            },
    {
        proof {
            reveal_strlit(".");
            assert("."@ =~= seq!['.']);
        }
        let parts = split_on(chrome_full_version, ".");
        let ghost all = split(chrome_full_version@, seq!['.']);
        assert(views(parts@).len() == parts@.len());
        let mut i: usize = 0;
        while i < parts.len()
            invariant
                i <= parts.len(),
                all == views(parts@),
                all.len() == parts.len(),
                all == split(chrome_full_version@, seq!['.']),
                forall|j: int|
                    0 <= j < i ==> (#[trigger] all[j]).len() > 0 && all_digits(all[j]),
            decreases parts.len() - i,
        {
            assert(all[i as int] == parts@[i as int]@);
            if !is_number(parts[i]) {
                return None;
            }
            i = i + 1;
        }
        Some(ua_for(host.platform, host.linux_arch, chrome_full_version))
    }

    /// The identity with the given user agent, platform and version.
    pub fn build(
        user_agent: String,
        platform: Platform,
        chrome_major: String,
        chrome_full_version: String,
        d: &Draws,
    ) -> (fp: Fingerprint)
        requires
            fits(*d, platform),
        ensures
            fp@ == identity(
                user_agent@,
                platform,
                (chrome_major@, chrome_full_version@),
                *d,
            ),
    {
        let (webgl_vendor, webgl_renderer, platform_version) = platform_surfaces(platform, d);
        let (screen_width, screen_height) = platform_screen(platform, d);
        let cores: Vec<u8> = vec![4u8, 8u8, 10u8, 12u8, 16u8];
        let sizes: Vec<u8> = vec![8u8, 8u8, 16u8, 32u8];
        let languages: Vec<String> = vec!["en-US".to_string(), "en".to_string()];
        assert(string_views(languages@) =~= seq!["en-US"@, "en"@]);
        Fingerprint {
            user_agent,
            platform,
            chrome_major,
            chrome_full_version,
            platform_version,
            screen_width,
            screen_height,
            color_depth: 24,
            hardware_concurrency: cores[d.cores],
            device_memory: sizes[d.memory],
            timezone: common_timezone(d.timezone).to_string(),
            languages,
            webgl_vendor: webgl_vendor.to_string(),
            webgl_renderer,
            noise_seed: d.noise_seed,
        }
    }

    /// The identity for a user agent and a time zone, or a random one, given what
    /// chance decided.
    pub fn resolve_with(
        user_agent: Option<&str>,
        timezone: Option<&str>,
        mac: bool,
        d: &Draws,
    ) -> (fp: Fingerprint)
        requires
            fits(*d, chosen_platform(opt_str_view(user_agent), mac)),
        ensures
            fp@ == resolved(opt_str_view(user_agent), opt_str_view(timezone), mac, *d),
    {
        let (drawn_major, drawn_full) = chrome_version(d.version);
        let mut fp = match user_agent {
            Some(ua) => {
                let platform = platform_of(ua);
                match version_of(ua) {
                    Some((major, full)) => Fingerprint::build(
                        ua.to_string(),
                        platform,
                        major,
                        full,
                        d,
                    ),
                    None => Fingerprint::build(
                        ua.to_string(),
                        platform,
                        drawn_major.to_string(),
                        drawn_full.to_string(),
                        d,
                    ),
                }
            },
            None => {
                let platform = if mac {
                    Platform::MacOS
                } else {
                    Platform::Windows
                };
                Fingerprint::build(
                    ua_for(platform, LinuxArch::X86, drawn_full),
                    platform,
                    drawn_major.to_string(),
                    drawn_full.to_string(),
                    d,
                )
            },
        };
        if let Some(tz) = timezone {
            fp.timezone = tz.to_string();
        }
        fp
    }

    /// A random identity: a Mac in three cases of ten, otherwise Windows.
    pub fn random() -> (fp: Fingerprint)
        ensures
            exists|mac: bool, d: Draws|
                fits(d, random_platform(mac)) && fp@ == #[trigger] resolved(None, None, mac, d),
    {
        Fingerprint::resolve(None, None)
    }

    /// The identity for a user agent and a time zone. Chance decides about the
    /// rest, and about the user agent and time zone where none is given.
    pub fn resolve(user_agent: Option<&str>, timezone: Option<&str>) -> (fp: Fingerprint)
        ensures
            exists|mac: bool, d: Draws|
                fits(d, chosen_platform(opt_str_view(user_agent), mac)) && fp@
                    == #[trigger] resolved(
                    opt_str_view(user_agent),
                    opt_str_view(timezone),
                    mac,
                    d,
                ),
    {
        let mac = random_below(10) < 3;
        let platform = match user_agent {
            Some(ua) => platform_of(ua),
            None => if mac {
                Platform::MacOS
            } else {
                Platform::Windows
            },
        };
        let d = draw(platform);
        let fp = Fingerprint::resolve_with(user_agent, timezone, mac, &d);
        assert(fits(d, chosen_platform(opt_str_view(user_agent), mac)));
        assert(fp@ == resolved(opt_str_view(user_agent), opt_str_view(timezone), mac, d));
        fp
    }

    /// The identity of a browser with the given profile: the one that is stored
    /// with it, a new one to store, or a new one where there is no profile.
    pub fn resolve_for_profile(
        user_agent: Option<&str>,
        timezone: Option<&str>,
        profile: Profile,
    ) -> (r: Result<ProfileIdentity, ProfileError>)
        ensures
            match profile {
                Profile::Absent => r matches Ok(ProfileIdentity::Passing(fp)) && some_identity(
                    opt_str_view(user_agent),
                    opt_str_view(timezone),
                    fp@,
                ),
                Profile::New => r matches Ok(ProfileIdentity::ToStore(fp)) && some_identity(
                    opt_str_view(user_agent),
                    opt_str_view(timezone),
                    fp@,
                ),
                Profile::Stored(stored) => comes_to(
                    r,
                    admitted(opt_str_view(user_agent), opt_str_view(timezone), stored@),
                ),
                Profile::Unreadable { path, cause } => r matches Err(ProfileError::InvalidData(m))
                    && m@ == "invalid persisted browser identity "@ + path@ + ": "@ + cause@,
            },
    {
        match profile {
            Profile::Absent => Ok(
                ProfileIdentity::Passing(Fingerprint::resolve(user_agent, timezone)),
            ),
            Profile::New => Ok(ProfileIdentity::ToStore(Fingerprint::resolve(user_agent, timezone))),
            Profile::Stored(stored) => {
                if let Some(ua) = user_agent {
                    if !same(ua, stored.user_agent.as_str()) {
                        return Err(
                            ProfileError::InvalidInput(
                                "configured user agent conflicts with persisted browser identity".to_string(),
                            ),
                        );
                    }
                }
                if let Some(tz) = timezone {
                    if !same(tz, stored.timezone.as_str()) {
                        return Err(
                            ProfileError::InvalidInput(
                                "configured timezone conflicts with persisted browser identity".to_string(),
                            ),
                        );
                    }
                }
                Ok(ProfileIdentity::Passing(stored))
            },
            Profile::Unreadable { path, cause } => {
                let mut message = concat3(
                    "invalid persisted browser identity ",
                    path.as_str(),
                    ": ",
                );
                message.append(cause.as_str());
                Err(ProfileError::InvalidData(message))
            },
        }
    }

    /// The value of `navigator.platform`.
    pub fn nav_platform(&self) -> (r: &'static str)
        ensures
            r@ == nav_platform_of(self.platform),
    {
        match self.platform {
            Platform::MacOS => "MacIntel",
            Platform::Windows => "Win32",
            Platform::Linux => "Linux x86_64",
        }
    }

    /// The platform's name in client hints.
    pub fn ch_platform(&self) -> (r: &'static str)
        ensures
            r@ == ch_platform_of(self.platform),
    {
        match self.platform {
            Platform::MacOS => "macOS",
            Platform::Windows => "Windows",
            Platform::Linux => "Linux",
        }
    }

    /// The brands in client hints, each with the major version.
    pub fn ch_brands(&self) -> (r: Vec<(String, String)>)
        ensures
            member_views(r@) == seq![
                ("Chromium"@, self.chrome_major@),
                ("Google Chrome"@, self.chrome_major@),
                ("Not?A_Brand"@, "24"@),
            ],
    {
        let r: Vec<(String, String)> = vec![
            ("Chromium".to_string(), self.chrome_major.clone()),
            ("Google Chrome".to_string(), self.chrome_major.clone()),
            ("Not?A_Brand".to_string(), "24".to_string()),
        ];
        assert(member_views(r@) =~= seq![
            ("Chromium"@, self.chrome_major@),
            ("Google Chrome"@, self.chrome_major@),
            ("Not?A_Brand"@, "24"@),
        ]);
        r
    }

    /// The brands in client hints, each with the whole version.
    pub fn ch_full_version_brands(&self) -> (r: Vec<(String, String)>)
        ensures
            member_views(r@) == seq![
                ("Chromium"@, self.chrome_full_version@),
                ("Google Chrome"@, self.chrome_full_version@),
                ("Not?A_Brand"@, "24.0.0.0"@),
            ],
    {
        let r: Vec<(String, String)> = vec![
            ("Chromium".to_string(), self.chrome_full_version.clone()),
            ("Google Chrome".to_string(), self.chrome_full_version.clone()),
            ("Not?A_Brand".to_string(), "24.0.0.0".to_string()),
        ];
        assert(member_views(r@) =~= seq![
            ("Chromium"@, self.chrome_full_version@),
            ("Google Chrome"@, self.chrome_full_version@),
            ("Not?A_Brand"@, "24.0.0.0"@),
        ]);
        r
    }
}

/// The value of `navigator.platform` on each platform.
pub open spec fn nav_platform_of(platform: Platform) -> Seq<char> {
    match platform {
        Platform::MacOS => "MacIntel"@,
        Platform::Windows => "Win32"@,
        Platform::Linux => "Linux x86_64"@,
    }
}

/// Each platform's name in client hints.
pub open spec fn ch_platform_of(platform: Platform) -> Seq<char> {
    match platform {
        Platform::MacOS => "macOS"@,
        Platform::Windows => "Windows"@,
        Platform::Linux => "Linux"@,
    }
}

/// A random user agent.
pub fn random_user_agent() -> (ua: String)
    ensures
        exists|mac: bool, v: int|
            0 <= v < chrome_versions().len() && ua@ == #[trigger] random_agent(mac, v),
{
    let fp = Fingerprint::random();
    proof {
        let (mac, d) = choose|mac: bool, d: Draws|
            fits(d, random_platform(mac)) && fp@ == #[trigger] resolved(None, None, mac, d);
        assert(fp.user_agent@ == random_agent(mac, d.version as int));
    }
    fp.user_agent
}

/// The user agent of a random identity with the `v`th of the browser versions.
pub open spec fn random_agent(mac: bool, v: int) -> Seq<char> {
    user_agent_of(random_platform(mac), LinuxArch::X86, chrome_versions()[v].1)
}

/// What is known of a browser's profile.
pub enum Profile {
    /// There is none.
    Absent,
    /// No identity is stored with it.
    New,
    /// This identity is stored with it.
    Stored(Fingerprint),
    /// What is stored with it is no identity.
    Unreadable {
        /// Where it is stored.
        path: String,
        /// What is wrong with it.
        cause: String,
    },
}

/// The identity to use.
pub enum ProfileIdentity {
    /// One that need not be stored.
    Passing(Fingerprint),
    /// One that is to be stored with the profile.
    ToStore(Fingerprint),
}

/// Why a profile has no identity to use.
pub enum ProfileError {
    /// What is stored is no identity.
    InvalidData(String),
    /// What is asked for is not what is stored.
    InvalidInput(String),
}

/// The outcome for a profile with a stored identity is `expected`.
pub open spec fn comes_to(
    r: Result<ProfileIdentity, ProfileError>,
    expected: Result<FingerprintView, Seq<char>>,
) -> bool {
    match r {
        Ok(ProfileIdentity::Passing(fp)) => expected == Ok::<FingerprintView, Seq<char>>(fp@),
        Err(ProfileError::InvalidInput(m)) => expected == Err::<FingerprintView, Seq<char>>(m@),
        _ => false,
    }
}

/// A stored identity is used as it is, and only where what is asked for agrees
/// with it.
pub open spec fn admitted(
    user_agent: Option<Seq<char>>,
    timezone: Option<Seq<char>>,
    stored: FingerprintView,
) -> Result<FingerprintView, Seq<char>> {
    if user_agent is Some && user_agent != Some(stored.user_agent) {
        Err("configured user agent conflicts with persisted browser identity"@)
    } else if timezone is Some && timezone != Some(stored.timezone) {
        Err("configured timezone conflicts with persisted browser identity"@)
    } else {
        Ok(stored)
    }
}

/// An identity that may come out for a user agent and a time zone.
pub open spec fn some_identity(
    user_agent: Option<Seq<char>>,
    timezone: Option<Seq<char>>,
    fp: FingerprintView,
) -> bool {
    exists|mac: bool, d: Draws|
        fits(d, chosen_platform(user_agent, mac)) && fp == #[trigger] resolved(
            user_agent,
            timezone,
            mac,
            d,
        )
}

/// The name under which an identity is written before it takes its place.
pub fn temporary_file(process: u32) -> (out: String)
    ensures
        out@ == PERSISTED_FINGERPRINT_FILE@ + ".tmp-"@ + digits(process as nat),
{
    concat3(PERSISTED_FINGERPRINT_FILE, ".tmp-", decimal(process as u64).as_str())
}

/// Every part of an identity belongs to its platform, and what was asked for is
/// kept as it is.
pub proof fn law_identity_fits_its_platform(
    user_agent: Option<Seq<char>>,
    timezone: Option<Seq<char>>,
    mac: bool,
    d: Draws,
)
    requires
        fits(d, chosen_platform(user_agent, mac)),
    ensures
        ({
            let fp = resolved(user_agent, timezone, mac, d);
            &&& renderers(fp.platform).contains(fp.webgl_renderer)
            &&& fp.webgl_vendor == vendor(fp.platform)
            &&& screens(fp.platform).contains(fp.screen)
            &&& ch_versions(fp.platform).contains(fp.platform_version)
            &&& core_counts().contains(fp.hardware_concurrency)
            &&& memory_sizes().contains(fp.device_memory)
            &&& user_agent matches Some(ua) ==> fp.user_agent == ua && fp.platform
                == platform_told(ua)
            &&& timezone matches Some(tz) ==> fp.timezone == tz
            &&& timezone is None ==> common_timezones().contains(fp.timezone)
        }),
{
    let fp = resolved(user_agent, timezone, mac, d);
    assert(renderers(fp.platform)[d.renderer as int] == fp.webgl_renderer);
    assert(screens(fp.platform)[d.screen as int] == fp.screen);
    assert(ch_versions(fp.platform)[d.ch_version as int] == fp.platform_version);
    assert(core_counts()[d.cores as int] == fp.hardware_concurrency);
    assert(memory_sizes()[d.memory as int] == fp.device_memory);
}

/// `pat` stands in the middle of a text.
proof fn lemma_contains_middle(before: Seq<char>, pat: Seq<char>, after: Seq<char>)
    ensures
        contains(before + pat + after, pat),
{
    let text = before + pat + after;
    assert(text.subrange(before.len() as int, before.len() as int + pat.len()) =~= pat);
    assert(occurs_at(text, pat, before.len() as int));
}

/// The first piece between separators is a prefix.
proof fn lemma_first_piece_is_prefix(text: Seq<char>, sep: Seq<char>)
    requires
        sep.len() > 0,
    ensures
        split(text, sep)[0].is_prefix_of(text),
{
    lemma_find_from(text, sep, 0);
    match find_from(text, sep, 0) {
        Some(at) => {
            assert(split(text, sep)[0] == text.subrange(0, at));
        },
        None => {
            assert(split(text, sep)[0] =~= text);
        },
    }
}

/// The major number of each known version begins it.
proof fn lemma_known_versions(v: int)
    requires
        0 <= v < chrome_versions().len(),
    ensures
        chrome_versions()[v].0.is_prefix_of(chrome_versions()[v].1),
{
    reveal_strlit("133");
    reveal_strlit("133.0.6943.142");
    reveal_strlit("134");
    reveal_strlit("134.0.6998.118");
    reveal_strlit("135");
    reveal_strlit("135.0.7049.96");
    reveal_strlit("136");
    reveal_strlit("136.0.7103.114");
    reveal_strlit("137");
    reveal_strlit("137.0.7151.119");
    reveal_strlit("138");
    reveal_strlit("138.0.7204.101");
    reveal_strlit("139");
    reveal_strlit("139.0.7258.139");
    reveal_strlit("140");
    reveal_strlit("140.0.7312.86");
    reveal_strlit("150");
    reveal_strlit("150.0.7871.182");
    let (major, full) = chrome_versions()[v];
    assert(full.subrange(0, 3) =~= major);
}

/// The whole version begins with the major one, and the user agent tells it
/// wherever it tells a version at all.
pub proof fn law_versions_agree(
    user_agent: Option<Seq<char>>,
    timezone: Option<Seq<char>>,
    mac: bool,
    d: Draws,
)
    requires
        fits(d, chosen_platform(user_agent, mac)),
    ensures
        ({
            let fp = resolved(user_agent, timezone, mac, d);
            &&& fp.chrome_major.is_prefix_of(fp.chrome_full_version)
            &&& fp.chrome_full_version.len() > 0
            &&& (user_agent matches Some(ua) ==> version_told(ua) is Some) ==> contains(
                fp.user_agent,
                fp.chrome_full_version,
            )
        }),
{
    let fp = resolved(user_agent, timezone, mac, d);
    lemma_known_versions(d.version as int);
    lemma_known_versions_not_empty(d.version as int);
    match user_agent {
        Some(ua) => {
            reveal_strlit("Chrome/");
            let pieces = split(ua, "Chrome/"@);
            if pieces.len() > 1 {
                let rest = pieces[1];
                let full = split(rest, seq![' '])[0];
                lemma_first_piece_is_prefix(rest, seq![' ']);
                lemma_first_piece_is_prefix(full, seq!['.']);
                lemma_find_from(ua, "Chrome/"@, 0);
                let at = find_from(ua, "Chrome/"@, 0)->0;
                let tail = split_from(ua, "Chrome/"@, at + 7);
                lemma_split_from_nonempty(ua, "Chrome/"@, at + 7);
                assert(pieces[1] == tail[0]);
                lemma_find_from(ua, "Chrome/"@, at + 7);
                let end = match find_from(ua, "Chrome/"@, at + 7) {
                    Some(e) => e,
                    None => ua.len() as int,
                };
                assert(rest =~= ua.subrange(at + 7, end));
                assert(ua.subrange(at + 7, at + 7 + full.len()) =~= full);
                assert(occurs_at(ua, full, at + 7));
            }
        },
        None => {
            let platform = random_platform(mac);
            let full = fp.chrome_full_version;
            let tail = " Safari/537.36"@;
            match platform {
                Platform::MacOS => lemma_contains_middle(
                    "Mozilla/5.0 (Macintosh; Intel Mac OS X 10_15_7) AppleWebKit/537.36 (KHTML, like Gecko) Chrome/"@,
                    full,
                    tail,
                ),
                _ => lemma_contains_middle(
                    "Mozilla/5.0 (Windows NT 10.0; Win64; x64) AppleWebKit/537.36 (KHTML, like Gecko) Chrome/"@,
                    full,
                    tail,
                ),
            }
        },
    }
}

proof fn lemma_known_versions_not_empty(v: int)
    requires
        0 <= v < chrome_versions().len(),
    ensures
        chrome_versions()[v].1.len() > 0,
{
    reveal_strlit("133.0.6943.142");
    reveal_strlit("134.0.6998.118");
    reveal_strlit("135.0.7049.96");
    reveal_strlit("136.0.7103.114");
    reveal_strlit("137.0.7151.119");
    reveal_strlit("138.0.7204.101");
    reveal_strlit("139.0.7258.139");
    reveal_strlit("140.0.7312.86");
    reveal_strlit("150.0.7871.182");
}

/// `pat` stands in `head`, and so in every text that begins with it.
proof fn lemma_contains_head(head: Seq<char>, after: Seq<char>, pat: Seq<char>, at: int)
    requires
        occurs_at(head, pat, at),
    ensures
        contains(head + after, pat),
{
    assert((head + after).subrange(at, at + pat.len()) =~= head.subrange(at, at + pat.len()));
    assert(occurs_at(head + after, pat, at));
}

/// The user agent of a random identity names its platform, the way that browsers
/// do.
pub proof fn law_random_agent_names_platform(mac: bool, v: int)
    ensures
        "Mozilla/5.0"@.is_prefix_of(random_agent(mac, v)),
        contains(random_agent(mac, v), "Chrome/"@),
        contains(random_agent(mac, v), "Safari/537.36"@),
        mac ==> contains(random_agent(mac, v), "Macintosh"@) && contains(
            random_agent(mac, v),
            "Mac OS X 10_15_7"@,
        ),
        !mac ==> contains(random_agent(mac, v), "Windows NT 10.0"@),
{
    reveal_strlit("Mozilla/5.0");
    reveal_strlit("Chrome/");
    reveal_strlit("Safari/537.36");
    reveal_strlit(" Safari/537.36");
    let version = chrome_versions()[v].1;
    let tail = " Safari/537.36"@;
    let ua = random_agent(mac, v);
    if mac {
        reveal_strlit("Macintosh");
        reveal_strlit("Mac OS X 10_15_7");
        reveal_strlit(
            "Mozilla/5.0 (Macintosh; Intel Mac OS X 10_15_7) AppleWebKit/537.36 (KHTML, like Gecko) Chrome/",
        );
        let head =
            "Mozilla/5.0 (Macintosh; Intel Mac OS X 10_15_7) AppleWebKit/537.36 (KHTML, like Gecko) Chrome/"@;
        let after = version + tail;
        assert(ua =~= head + after);
        assert(head.subrange(0, 11) =~= "Mozilla/5.0"@);
        assert(head.subrange(13, 22) =~= "Macintosh"@);
        assert(head.subrange(30, 46) =~= "Mac OS X 10_15_7"@);
        assert(head.subrange(87, 94) =~= "Chrome/"@);
        lemma_contains_head(head, after, "Macintosh"@, 13);
        lemma_contains_head(head, after, "Mac OS X 10_15_7"@, 30);
        lemma_contains_head(head, after, "Chrome/"@, 87);
        assert(ua.subrange(0, 11) =~= "Mozilla/5.0"@);
    } else {
        reveal_strlit("Windows NT 10.0");
        reveal_strlit(
            "Mozilla/5.0 (Windows NT 10.0; Win64; x64) AppleWebKit/537.36 (KHTML, like Gecko) Chrome/",
        );
        let head =
            "Mozilla/5.0 (Windows NT 10.0; Win64; x64) AppleWebKit/537.36 (KHTML, like Gecko) Chrome/"@;
        let after = version + tail;
        assert(ua =~= head + after);
        assert(head.subrange(13, 28) =~= "Windows NT 10.0"@);
        assert(head.subrange(81, 88) =~= "Chrome/"@);
        lemma_contains_head(head, after, "Windows NT 10.0"@, 13);
        lemma_contains_head(head, after, "Chrome/"@, 81);
        assert(ua.subrange(0, 11) =~= "Mozilla/5.0"@);
    }
    assert(" Safari/537.36"@ =~= " "@ + "Safari/537.36"@) by {
        reveal_strlit(" ");
    }
    let n = ua.len() as int;
    assert(ua.subrange(n - 13, n) =~= "Safari/537.36"@);
    assert(occurs_at(ua, "Safari/537.36"@, n - 13));
}

/// In `text`, `a` is always followed by something else than `b`.
spec fn never_followed(text: Seq<char>, a: char, b: char) -> bool {
    forall|k: int|
        0 <= k < text.len() && #[trigger] text[k] == a ==> k + 1 < text.len() && text[k + 1] != b
}

proof fn lemma_never_followed(x: Seq<char>, y: Seq<char>, a: char, b: char)
    requires
        never_followed(x, a, b),
        never_followed(y, a, b),
    ensures
        never_followed(x + y, a, b),
{
    let text = x + y;
    assert forall|k: int| 0 <= k < text.len() && #[trigger] text[k] == a implies k + 1 < text.len()
        && text[k + 1] != b by {
        if k < x.len() {
            assert(x[k] == a);
        } else {
            assert(y[k - x.len()] == a);
        }
    }
}

proof fn lemma_not_contained(text: Seq<char>, pat: Seq<char>)
    requires
        pat.len() >= 2,
        never_followed(text, pat[0], pat[1]),
    ensures
        !contains(text, pat),
{
    if contains(text, pat) {
        let k = choose|k: int| occurs_at(text, pat, k);
        let found = text.subrange(k, k + pat.len());
        assert(found[0] == pat[0] && found[1] == pat[1]);
        assert(text[k] == pat[0]);
    }
}

/// A version, as it stands in a user agent.
pub open spec fn is_dotted(version: Seq<char>) -> bool {
    version.len() > 0 && forall|i: int|
        0 <= i < version.len() ==> is_digit(#[trigger] version[i]) || version[i] == '.'
}

/// The version between `Chrome/` and a space is read as it stands there.
proof fn lemma_version_read(before: Seq<char>, version: Seq<char>, rest: Seq<char>)
    requires
        is_dotted(version),
        !before.contains('C'),
        !rest.contains('C'),
    ensures
        version_told(before + "Chrome/"@ + version + (seq![' '] + rest)) == Some(
            (split(version, seq!['.'])[0], version),
        ),
{
    reveal_strlit("Chrome/");
    let sep = "Chrome/"@;
    let tail = version + (seq![' '] + rest);
    let text = before + sep + version + (seq![' '] + rest);
    let n = before.len() as int;
    assert(text =~= before + sep + tail);
    assert forall|k: int| 0 <= k < n implies !occurs_at(text, sep, k) by {
        if occurs_at(text, sep, k) {
            assert(text.subrange(k, k + 7)[0] == 'C');
            assert(before[k] == 'C');
        }
    }
    lemma_find_from_advance(text, sep, 0, n);
    assert(text.subrange(n, n + 7) =~= sep);
    assert(occurs_at(text, sep, n));
    lemma_find_from(text, sep, n + 7);
    if let Some(k) = find_from(text, sep, n + 7) {
        assert(text.subrange(k, k + 7)[0] == 'C');
        assert(text[k] == tail[k - n - 7]);
        let j = k - n - 7;
        if j < version.len() {
            assert(is_digit(version[j]) || version[j] == '.');
        } else if j > version.len() {
            assert(rest[j - version.len() - 1] == 'C');
        }
    }
    assert(text.skip(n + 7) =~= tail);
    assert(split_from(text, sep, n + 7) =~= seq![tail]);
    assert(split(text, sep) =~= seq![before] + seq![tail]) by {
        assert(text.subrange(0, n) =~= before);
    }
    assert(split(text, sep)[1] == tail);
    let m = version.len() as int;
    assert forall|k: int| 0 <= k < m implies !occurs_at(tail, seq![' '], k) by {
        if occurs_at(tail, seq![' '], k) {
            assert(tail.subrange(k, k + 1)[0] == ' ');
            assert(is_digit(version[k]) || version[k] == '.');
        }
    }
    lemma_find_from_advance(tail, seq![' '], 0, m);
    assert(tail.subrange(m, m + 1) =~= seq![' ']);
    assert(occurs_at(tail, seq![' '], m));
    assert(split(tail, seq![' '])[0] =~= version) by {
        assert(tail.subrange(0, m) =~= version);
    }
}

/// A user agent tells the platform and the version that it was made for.
pub proof fn law_agent_tells_what_it_was_made_for(
    platform: Platform,
    arch: LinuxArch,
    version: Seq<char>,
)
    requires
        is_dotted(version),
    ensures
        platform_told(user_agent_of(platform, arch, version)) == platform,
        version_told(user_agent_of(platform, arch, version)) == Some(
            (split(version, seq!['.'])[0], version),
        ),
{
    reveal_strlit("Chrome/");
    reveal_strlit(" Safari/537.36");
    reveal_strlit("Safari/537.36");
    reveal_strlit("Macintosh");
    reveal_strlit("Mac OS X");
    reveal_strlit("Linux");
    let tail = " Safari/537.36"@;
    let ua = user_agent_of(platform, arch, version);
    assert(tail =~= seq![' '] + "Safari/537.36"@);
    assert(never_followed(version, 'M', 'a') && never_followed(version, 'L', 'i')) by {
        assert forall|k: int| 0 <= k < version.len() implies #[trigger] version[k] != 'M'
            && version[k] != 'L' by {
            assert(is_digit(version[k]) || version[k] == '.');
        }
    }
    assert(never_followed(tail, 'M', 'a') && never_followed(tail, 'L', 'i'));
    match platform {
        Platform::MacOS => {
            reveal_strlit(
                "Mozilla/5.0 (Macintosh; Intel Mac OS X 10_15_7) AppleWebKit/537.36 (KHTML, like Gecko) Chrome/",
            );
            let head =
                "Mozilla/5.0 (Macintosh; Intel Mac OS X 10_15_7) AppleWebKit/537.36 (KHTML, like Gecko) Chrome/"@;
            let before = head.take(87);
            assert(head =~= before + "Chrome/"@);
            assert(ua =~= before + "Chrome/"@ + version + tail);
            assert(head.subrange(13, 22) =~= "Macintosh"@);
            lemma_contains_head(head, version + tail, "Macintosh"@, 13);
            assert(ua =~= head + (version + tail));
            lemma_version_read(before, version, "Safari/537.36"@);
        },
        Platform::Windows => {
            reveal_strlit(
                "Mozilla/5.0 (Windows NT 10.0; Win64; x64) AppleWebKit/537.36 (KHTML, like Gecko) Chrome/",
            );
            let head =
                "Mozilla/5.0 (Windows NT 10.0; Win64; x64) AppleWebKit/537.36 (KHTML, like Gecko) Chrome/"@;
            let before = head.take(81);
            assert(head =~= before + "Chrome/"@);
            assert(ua =~= before + "Chrome/"@ + version + tail);
            assert(never_followed(head, 'M', 'a') && never_followed(head, 'L', 'i'));
            lemma_never_followed(head, version, 'M', 'a');
            lemma_never_followed(head + version, tail, 'M', 'a');
            lemma_never_followed(head, version, 'L', 'i');
            lemma_never_followed(head + version, tail, 'L', 'i');
            lemma_not_contained(ua, "Macintosh"@);
            lemma_not_contained(ua, "Mac OS X"@);
            lemma_not_contained(ua, "Linux"@);
            lemma_version_read(before, version, "Safari/537.36"@);
        },
        Platform::Linux => {
            reveal_strlit("Mozilla/5.0 (X11; Linux ");
            reveal_strlit(") AppleWebKit/537.36 (KHTML, like Gecko) Chrome/");
            reveal_strlit("x86_64");
            reveal_strlit("aarch64");
            let first = "Mozilla/5.0 (X11; Linux "@;
            let name = arch_name(arch);
            let second = ") AppleWebKit/537.36 (KHTML, like Gecko) Chrome/"@;
            let between = second.take(41);
            let before = first + name + between;
            assert(second =~= between + "Chrome/"@);
            assert(ua =~= before + "Chrome/"@ + version + tail);
            assert(never_followed(first, 'M', 'a'));
            assert(never_followed(name, 'M', 'a'));
            assert(never_followed(second, 'M', 'a'));
            lemma_never_followed(first, name, 'M', 'a');
            lemma_never_followed(first + name, second, 'M', 'a');
            lemma_never_followed(first + name + second, version, 'M', 'a');
            lemma_never_followed(first + name + second + version, tail, 'M', 'a');
            lemma_not_contained(ua, "Macintosh"@);
            lemma_not_contained(ua, "Mac OS X"@);
            assert(first.subrange(18, 23) =~= "Linux"@);
            lemma_contains_head(first, name + second + version + tail, "Linux"@, 18);
            assert(ua =~= first + (name + second + version + tail));
            assert(!before.contains('C'));
            lemma_version_read(before, version, "Safari/537.36"@);
        },
    }
}

/// A profile keeps its identity: what was stored on the first use comes back on
/// every later one that asks for the same.
pub proof fn law_profile_identity_is_stable(
    user_agent: Option<Seq<char>>,
    timezone: Option<Seq<char>>,
    fp: FingerprintView,
)
    requires
        some_identity(user_agent, timezone, fp),
    ensures
        admitted(user_agent, timezone, fp) == Ok::<FingerprintView, Seq<char>>(fp),
        admitted(None, None, fp) == Ok::<FingerprintView, Seq<char>>(fp),
{
}

/// Another user agent than the stored one is refused.
pub proof fn law_profile_refuses_other_agent(
    user_agent: Seq<char>,
    timezone: Option<Seq<char>>,
    stored: FingerprintView,
)
    requires
        user_agent != stored.user_agent,
    ensures
        admitted(Some(user_agent), timezone, stored) is Err,
{
}

/// Each graphics card is one that browsers of its platform tell: through OpenGL on a
/// Mac, through Direct3D 11 on Windows, drawn by software on Linux.
pub proof fn law_cards_fit_their_platform(platform: Platform, i: int)
    requires
        0 <= i < renderers(platform).len(),
    ensures
        "ANGLE ("@.is_prefix_of(renderers(platform)[i]),
        platform == Platform::MacOS ==> contains(renderers(platform)[i], ", OpenGL 4.1)"@),
        platform == Platform::Windows ==> contains(
            renderers(platform)[i],
            " Direct3D11 vs_5_0 ps_5_0, D3D11)"@,
        ),
        platform == Platform::Linux ==> contains(renderers(platform)[i], "SwiftShader driver)"@),
{
    reveal_strlit("ANGLE (");
    reveal_strlit(", OpenGL 4.1)");
    reveal_strlit(" Direct3D11 vs_5_0 ps_5_0, D3D11)");
    reveal_strlit("SwiftShader driver)");
    let card = renderers(platform)[i];
    let n = card.len() as int;
    match platform {
        Platform::MacOS => {
            lemma_mac_card(i);
            assert(occurs_at(card, ", OpenGL 4.1)"@, n - 13));
        },
        Platform::Windows => {
            lemma_windows_card(i);
            assert(occurs_at(card, " Direct3D11 vs_5_0 ps_5_0, D3D11)"@, n - 33));
        },
        Platform::Linux => {
            lemma_linux_card(i);
            assert(occurs_at(card, "SwiftShader driver)"@, n - 19));
        },
    }
}

proof fn lemma_mac_card(i: int)
    requires
        0 <= i < renderers(Platform::MacOS).len(),
    ensures
        ({
            let card = renderers(Platform::MacOS)[i];
            let n = card.len() as int;
            &&& n > 34
            &&& card.subrange(0, 7) == "ANGLE ("@
            &&& card.subrange(n - 13, n) == ", OpenGL 4.1)"@
        }),
{
    reveal_strlit("ANGLE (");
    reveal_strlit(", OpenGL 4.1)");
    if i == 0 {
        reveal_strlit(
            "ANGLE (Apple, Apple M1 Pro, OpenGL 4.1)",
        );
        let card = "ANGLE (Apple, Apple M1 Pro, OpenGL 4.1)"@;
        assert(card.subrange(0, 7) =~= "ANGLE ("@);
        assert(card.subrange(26, 39) =~= ", OpenGL 4.1)"@);
    }
    if i == 1 {
        reveal_strlit(
            "ANGLE (Apple, Apple M1, OpenGL 4.1)",
        );
        let card = "ANGLE (Apple, Apple M1, OpenGL 4.1)"@;
        assert(card.subrange(0, 7) =~= "ANGLE ("@);
        assert(card.subrange(22, 35) =~= ", OpenGL 4.1)"@);
    }
    if i == 2 {
        reveal_strlit(
            "ANGLE (Apple, Apple M2, OpenGL 4.1)",
        );
        let card = "ANGLE (Apple, Apple M2, OpenGL 4.1)"@;
        assert(card.subrange(0, 7) =~= "ANGLE ("@);
        assert(card.subrange(22, 35) =~= ", OpenGL 4.1)"@);
    }
    if i == 3 {
        reveal_strlit(
            "ANGLE (Apple, Apple M3, OpenGL 4.1)",
        );
        let card = "ANGLE (Apple, Apple M3, OpenGL 4.1)"@;
        assert(card.subrange(0, 7) =~= "ANGLE ("@);
        assert(card.subrange(22, 35) =~= ", OpenGL 4.1)"@);
    }
    if i == 4 {
        reveal_strlit(
            "ANGLE (Intel, Intel Iris Pro Graphics 6200, OpenGL 4.1)",
        );
        let card = "ANGLE (Intel, Intel Iris Pro Graphics 6200, OpenGL 4.1)"@;
        assert(card.subrange(0, 7) =~= "ANGLE ("@);
        assert(card.subrange(42, 55) =~= ", OpenGL 4.1)"@);
    }
    if i == 5 {
        reveal_strlit(
            "ANGLE (Intel, Intel UHD Graphics 630, OpenGL 4.1)",
        );
        let card = "ANGLE (Intel, Intel UHD Graphics 630, OpenGL 4.1)"@;
        assert(card.subrange(0, 7) =~= "ANGLE ("@);
        assert(card.subrange(36, 49) =~= ", OpenGL 4.1)"@);
    }
}

proof fn lemma_windows_card(i: int)
    requires
        0 <= i < renderers(Platform::Windows).len(),
    ensures
        ({
            let card = renderers(Platform::Windows)[i];
            let n = card.len() as int;
            &&& n > 34
            &&& card.subrange(0, 7) == "ANGLE ("@
            &&& card.subrange(n - 33, n) == " Direct3D11 vs_5_0 ps_5_0, D3D11)"@
        }),
{
    reveal_strlit("ANGLE (");
    reveal_strlit(" Direct3D11 vs_5_0 ps_5_0, D3D11)");
    if i == 0 {
        reveal_strlit(
            "ANGLE (NVIDIA, NVIDIA GeForce RTX 3080 Direct3D11 vs_5_0 ps_5_0, D3D11)",
        );
        let card = "ANGLE (NVIDIA, NVIDIA GeForce RTX 3080 Direct3D11 vs_5_0 ps_5_0, D3D11)"@;
        assert(card.subrange(0, 7) =~= "ANGLE ("@);
        assert(card.subrange(38, 71) =~= " Direct3D11 vs_5_0 ps_5_0, D3D11)"@);
    }
    if i == 1 {
        reveal_strlit(
            "ANGLE (NVIDIA, NVIDIA GeForce RTX 4070 Direct3D11 vs_5_0 ps_5_0, D3D11)",
        );
        let card = "ANGLE (NVIDIA, NVIDIA GeForce RTX 4070 Direct3D11 vs_5_0 ps_5_0, D3D11)"@;
        assert(card.subrange(0, 7) =~= "ANGLE ("@);
        assert(card.subrange(38, 71) =~= " Direct3D11 vs_5_0 ps_5_0, D3D11)"@);
    }
    if i == 2 {
        reveal_strlit(
            "ANGLE (NVIDIA, NVIDIA GeForce GTX 1080 Direct3D11 vs_5_0 ps_5_0, D3D11)",
        );
        let card = "ANGLE (NVIDIA, NVIDIA GeForce GTX 1080 Direct3D11 vs_5_0 ps_5_0, D3D11)"@;
        assert(card.subrange(0, 7) =~= "ANGLE ("@);
        assert(card.subrange(38, 71) =~= " Direct3D11 vs_5_0 ps_5_0, D3D11)"@);
    }
    if i == 3 {
        reveal_strlit(
            "ANGLE (AMD, AMD Radeon RX 6800 XT Direct3D11 vs_5_0 ps_5_0, D3D11)",
        );
        let card = "ANGLE (AMD, AMD Radeon RX 6800 XT Direct3D11 vs_5_0 ps_5_0, D3D11)"@;
        assert(card.subrange(0, 7) =~= "ANGLE ("@);
        assert(card.subrange(33, 66) =~= " Direct3D11 vs_5_0 ps_5_0, D3D11)"@);
    }
    if i == 4 {
        reveal_strlit(
            "ANGLE (Intel, Intel(R) UHD Graphics 770 Direct3D11 vs_5_0 ps_5_0, D3D11)",
        );
        let card = "ANGLE (Intel, Intel(R) UHD Graphics 770 Direct3D11 vs_5_0 ps_5_0, D3D11)"@;
        assert(card.subrange(0, 7) =~= "ANGLE ("@);
        assert(card.subrange(39, 72) =~= " Direct3D11 vs_5_0 ps_5_0, D3D11)"@);
    }
}

proof fn lemma_linux_card(i: int)
    requires
        0 <= i < renderers(Platform::Linux).len(),
    ensures
        ({
            let card = renderers(Platform::Linux)[i];
            let n = card.len() as int;
            &&& n > 34
            &&& card.subrange(0, 7) == "ANGLE ("@
            &&& card.subrange(n - 19, n) == "SwiftShader driver)"@
        }),
{
    reveal_strlit("ANGLE (");
    reveal_strlit("SwiftShader driver)");
    if i == 0 {
        reveal_strlit(
            "ANGLE (Google, Vulkan 1.3.0 (SwiftShader Device (LLVM 16.0.0) (0x0000C0DE)), SwiftShader driver)",
        );
        let card = "ANGLE (Google, Vulkan 1.3.0 (SwiftShader Device (LLVM 16.0.0) (0x0000C0DE)), SwiftShader driver)"@;
        assert(card.subrange(0, 7) =~= "ANGLE ("@);
        assert(card.subrange(77, 96) =~= "SwiftShader driver)"@);
    }
}

/// Each known version is its major number, a zero and two more numbers, with dots
/// between them.
pub proof fn law_known_versions(v: int)
    requires
        0 <= v < chrome_versions().len(),
    ensures
        is_dotted(chrome_versions()[v].1),
        (chrome_versions()[v].0 + seq!['.', '0', '.']).is_prefix_of(chrome_versions()[v].1),
        chrome_versions()[v].0.len() == 3,
{
    reveal_strlit("133");
    reveal_strlit("133.0.6943.142");
    reveal_strlit("134");
    reveal_strlit("134.0.6998.118");
    reveal_strlit("135");
    reveal_strlit("135.0.7049.96");
    reveal_strlit("136");
    reveal_strlit("136.0.7103.114");
    reveal_strlit("137");
    reveal_strlit("137.0.7151.119");
    reveal_strlit("138");
    reveal_strlit("138.0.7204.101");
    reveal_strlit("139");
    reveal_strlit("139.0.7258.139");
    reveal_strlit("140");
    reveal_strlit("140.0.7312.86");
    reveal_strlit("150");
    reveal_strlit("150.0.7871.182");
    let (major, full) = chrome_versions()[v];
    assert(full.subrange(0, 6) =~= major + seq!['.', '0', '.']);
}

/// What the drawn parts of an identity can be: a screen that is wider than high, one
/// of five counts of processors, one of three sizes of memory, a seed that is not
/// zero. The rest is the same for all.
pub proof fn law_identity_is_plausible(
    user_agent: Option<Seq<char>>,
    timezone: Option<Seq<char>>,
    mac: bool,
    d: Draws,
)
    requires
        fits(d, chosen_platform(user_agent, mac)),
    ensures
        ({
            let fp = resolved(user_agent, timezone, mac, d);
            &&& fp.screen.0 > fp.screen.1 >= 768
            &&& fp.hardware_concurrency == 4 || fp.hardware_concurrency == 8
                || fp.hardware_concurrency == 10 || fp.hardware_concurrency == 12
                || fp.hardware_concurrency == 16
            &&& fp.device_memory == 8 || fp.device_memory == 16 || fp.device_memory == 32
            &&& fp.noise_seed >= 1 && fp.noise_seed == d.noise_seed
            &&& fp.color_depth == 24
            &&& fp.languages.len() == 2 && fp.languages[0] == "en-US"@ && fp.languages[1] == "en"@
            &&& fp.platform == Platform::MacOS ==> fp.webgl_vendor == "Google Inc. (Apple)"@
            &&& fp.platform == Platform::Windows ==> fp.webgl_vendor == "Google Inc. (NVIDIA)"@
            &&& fp.platform == Platform::Linux ==> fp.webgl_vendor == "Google Inc. (Google)"@
            &&& user_agent is None ==> (fp.platform == Platform::MacOS <==> mac)
            &&& user_agent is None ==> (fp.platform == Platform::Windows <==> !mac)
        }),
{
}

/// The same draws in two identities of one platform give the same device, and a draw
/// decides about its own part only.
pub proof fn law_draws_decide_apart(ua: Seq<char>, timezone: Option<Seq<char>>, d: Draws, e: Draws)
    requires
        fits(d, platform_told(ua)),
        fits(e, platform_told(ua)),
    ensures
        ({
            let a = resolved(Some(ua), timezone, false, d);
            let b = resolved(Some(ua), timezone, false, e);
            &&& d.screen == e.screen ==> a.screen == b.screen
            &&& d.cores == e.cores ==> a.hardware_concurrency == b.hardware_concurrency
            &&& d.memory == e.memory ==> a.device_memory == b.device_memory
            &&& d.renderer == e.renderer ==> a.webgl_renderer == b.webgl_renderer
            &&& d.ch_version == e.ch_version ==> a.platform_version == b.platform_version
            &&& d.timezone == e.timezone ==> a.timezone == b.timezone
            &&& a.user_agent == b.user_agent && a.platform == b.platform
        }),
{
}

/// A user agent tells a Mac by either of two words, Linux by its name where neither
/// stands, and Windows otherwise.
pub proof fn law_platform_is_told_by_its_words(ua: Seq<char>)
    ensures
        platform_told(ua) == Platform::MacOS <==> (contains(ua, "Macintosh"@) || contains(
            ua,
            "Mac OS X"@,
        )),
        platform_told(ua) == Platform::Linux <==> (contains(ua, "Linux"@) && !contains(
            ua,
            "Macintosh"@,
        ) && !contains(ua, "Mac OS X"@)),
{
}

/// The words for the platforms.
pub proof fn law_platform_names(platform: Platform)
    ensures
        platform == Platform::MacOS ==> nav_platform_of(platform) == "MacIntel"@
            && ch_platform_of(platform) == "macOS"@,
        platform == Platform::Windows ==> nav_platform_of(platform) == "Win32"@ && ch_platform_of(
            platform,
        ) == "Windows"@,
        platform == Platform::Linux ==> nav_platform_of(platform) == "Linux x86_64"@
            && ch_platform_of(platform) == "Linux"@,
{
}

/// A Linux user agent names the architecture.
pub proof fn law_linux_agent_names_architecture(arch: LinuxArch, version: Seq<char>)
    ensures
        arch == LinuxArch::X86 ==> contains(
            user_agent_of(Platform::Linux, arch, version),
            "x86_64"@,
        ),
        arch == LinuxArch::Arm ==> contains(
            user_agent_of(Platform::Linux, arch, version),
            "aarch64"@,
        ),
{
    let before = "Mozilla/5.0 (X11; Linux "@;
    let after = ") AppleWebKit/537.36 (KHTML, like Gecko) Chrome/"@ + version + " Safari/537.36"@;
    assert(user_agent_of(Platform::Linux, arch, version) =~= before + arch_name(arch) + after);
    lemma_contains_middle(before, arch_name(arch), after);
}

/// Another time zone than the stored one is refused, and so is nothing else.
pub proof fn law_profile_refuses_other_timezone(
    user_agent: Option<Seq<char>>,
    timezone: Option<Seq<char>>,
    stored: FingerprintView,
)
    ensures
        timezone is Some && timezone->0 != stored.timezone ==> admitted(
            user_agent,
            timezone,
            stored,
        ) is Err,
        admitted(user_agent, timezone, stored) is Err <==> ((user_agent is Some && user_agent->0
            != stored.user_agent) || (timezone is Some && timezone->0 != stored.timezone)),
        admitted(user_agent, timezone, stored) is Ok ==> admitted(user_agent, timezone, stored)
            == Ok::<FingerprintView, Seq<char>>(stored),
{
}

/// The user agent of a random identity tells the platform that was drawn and the
/// version that was drawn.
pub proof fn law_random_agent_tells_what_was_drawn(mac: bool, v: int)
    requires
        0 <= v < chrome_versions().len(),
    ensures
        platform_told(random_agent(mac, v)) == (if mac {
            Platform::MacOS
        } else {
            Platform::Windows
        }),
        version_told(random_agent(mac, v)) == Some(chrome_versions()[v]),
{
    law_known_versions(v);
    let (major, full) = chrome_versions()[v];
    law_agent_tells_what_it_was_made_for(random_platform(mac), LinuxArch::X86, full);
    let rest = full.skip(4);
    let start = major + seq!['.', '0', '.'];
    assert(full.subrange(0, start.len() as int) == start);
    assert(full =~= major + seq!['.'] + rest) by {
        assert forall|k: int| 0 <= k < 4 implies full[k] == (major + seq!['.'])[k] by {
            assert(full.subrange(0, start.len() as int)[k] == start[k]);
        }
    }
    assert(!major.contains('.')) by {
        lemma_majors_have_no_dot(v);
    }
    law_split_at_first(major, '.', rest);
}

proof fn lemma_majors_have_no_dot(v: int)
    requires
        0 <= v < chrome_versions().len(),
    ensures
        !chrome_versions()[v].0.contains('.'),
{
    reveal_strlit("133");
    reveal_strlit("134");
    reveal_strlit("135");
    reveal_strlit("136");
    reveal_strlit("137");
    reveal_strlit("138");
    reveal_strlit("139");
    reveal_strlit("140");
    reveal_strlit("150");
    let major = chrome_versions()[v].0;
    assert(major.len() == 3);
    assert(major[0] != '.' && major[1] != '.' && major[2] != '.');
}

/// The versions of the platforms that client hints tell.
pub proof fn law_client_hint_versions(version: Seq<char>)
    ensures
        ch_versions(Platform::MacOS).contains(version) ==> version == "13.6.0"@ || version
            == "14.4.1"@ || version == "14.5.0"@ || version == "14.6.1"@ || version == "15.0.0"@
            || version == "15.1.0"@,
        ch_versions(Platform::Windows).contains(version) ==> version == "10.0.0"@ || version
            == "15.0.0"@,
        ch_versions(Platform::Linux).contains(version) ==> version == "5.15.0"@ || version
            == "6.8.0"@,
{
}

/// The time zones that are drawn from are the names of places in four parts of the
/// world.
pub proof fn law_drawn_timezones(i: int)
    requires
        0 <= i < common_timezones().len(),
    ensures
        ({
            let zone = common_timezones()[i];
            "America/"@.is_prefix_of(zone) || "Europe/"@.is_prefix_of(zone)
                || "Asia/"@.is_prefix_of(zone) || "Australia/"@.is_prefix_of(zone)
        }),
        common_timezones().len() == 12,
{
    reveal_strlit("America/");
    reveal_strlit("Europe/");
    reveal_strlit("Asia/");
    reveal_strlit("Australia/");
    if i == 0 {
        reveal_strlit("America/New_York");
        assert("America/New_York"@.subrange(0, 8) =~= "America/"@);
    }
    if i == 1 {
        reveal_strlit("America/Chicago");
        assert("America/Chicago"@.subrange(0, 8) =~= "America/"@);
    }
    if i == 2 {
        reveal_strlit("America/Los_Angeles");
        assert("America/Los_Angeles"@.subrange(0, 8) =~= "America/"@);
    }
    if i == 3 {
        reveal_strlit("America/Sao_Paulo");
        assert("America/Sao_Paulo"@.subrange(0, 8) =~= "America/"@);
    }
    if i == 4 {
        reveal_strlit("Europe/London");
        assert("Europe/London"@.subrange(0, 7) =~= "Europe/"@);
    }
    if i == 5 {
        reveal_strlit("Europe/Paris");
        assert("Europe/Paris"@.subrange(0, 7) =~= "Europe/"@);
    }
    if i == 6 {
        reveal_strlit("Europe/Berlin");
        assert("Europe/Berlin"@.subrange(0, 7) =~= "Europe/"@);
    }
    if i == 7 {
        reveal_strlit("Europe/Moscow");
        assert("Europe/Moscow"@.subrange(0, 7) =~= "Europe/"@);
    }
    if i == 8 {
        reveal_strlit("Asia/Tokyo");
        assert("Asia/Tokyo"@.subrange(0, 5) =~= "Asia/"@);
    }
    if i == 9 {
        reveal_strlit("Asia/Shanghai");
        assert("Asia/Shanghai"@.subrange(0, 5) =~= "Asia/"@);
    }
    if i == 10 {
        reveal_strlit("Asia/Kolkata");
        assert("Asia/Kolkata"@.subrange(0, 5) =~= "Asia/"@);
    }
    if i == 11 {
        reveal_strlit("Australia/Sydney");
        assert("Australia/Sydney"@.subrange(0, 10) =~= "Australia/"@);
    }
}

/// A profile whose stored identity agrees with what is asked for has that identity, and
/// one whose identity does not is refused.
pub proof fn law_stored_identity_decides(
    r: Result<ProfileIdentity, ProfileError>,
    user_agent: Option<Seq<char>>,
    timezone: Option<Seq<char>>,
    stored: FingerprintView,
)
    requires
        comes_to(r, admitted(user_agent, timezone, stored)),
    ensures
        r is Ok <==> (user_agent matches Some(ua) ==> ua == stored.user_agent) && (
        timezone matches Some(tz) ==> tz == stored.timezone),
        r matches Ok(identity) ==> (identity matches ProfileIdentity::Passing(fp) && fp@ == stored),
        r matches Err(e) ==> e is InvalidInput,
{
}

} // verus!
