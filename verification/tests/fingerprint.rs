use eoka::stealth::fingerprint::{
    random_user_agent, screen_resolutions, webgl_renderers, Draws, Fingerprint, Host, LinuxArch,
    Platform, Profile, ProfileError, ProfileIdentity,
};

const LINUX: Host = Host {
    platform: Platform::Linux,
    linux_arch: LinuxArch::X86,
};

#[test]
fn test_random_user_agent_format() {
    for _ in 0..20 {
        let ua = random_user_agent();
        assert!(ua.starts_with("Mozilla/5.0"));
        assert!(ua.contains("Chrome/"));
        assert!(ua.contains("Safari/537.36"));
    }
}

#[test]
fn test_fingerprint_random_is_consistent() {
    for _ in 0..50 {
        let fp = Fingerprint::random();
        assert!(!fp.user_agent.is_empty());
        assert!(fp.screen_width > 0 && fp.screen_height > 0);
        assert!([4, 8, 10, 12, 16].contains(&fp.hardware_concurrency));
        assert!([8, 16, 32].contains(&fp.device_memory));
        match fp.platform {
            Platform::MacOS => {
                assert!(fp.user_agent.contains("Macintosh"));
                assert_eq!(fp.nav_platform(), "MacIntel");
                assert_eq!(fp.ch_platform(), "macOS");
                // Chrome freezes the macOS UA token at 10_15_7.
                assert!(fp.user_agent.contains("Mac OS X 10_15_7"));
            }
            Platform::Windows => {
                assert!(fp.user_agent.contains("Windows NT 10.0"));
                assert_eq!(fp.nav_platform(), "Win32");
                assert_eq!(fp.ch_platform(), "Windows");
            }
            Platform::Linux => {
                unreachable!("random profiles currently target macOS or Windows")
            }
        }
        assert!(fp.user_agent.contains(&fp.chrome_full_version));
        assert!(fp.chrome_full_version.starts_with(&fp.chrome_major));
    }
}

#[test]
fn test_resolve_respects_pinned_ua() {
    let ua = "Mozilla/5.0 (Windows NT 10.0; Win64; x64) AppleWebKit/537.36 (KHTML, like Gecko) Chrome/140.0.7312.86 Safari/537.36";
    let fp = Fingerprint::resolve(Some(ua), None);
    assert_eq!(fp.user_agent, ua);
    assert_eq!(fp.platform, Platform::Windows);
    assert_eq!(fp.chrome_major, "140");
    assert_eq!(fp.nav_platform(), "Win32");
}

#[test]
fn test_native_chrome_user_agent_uses_supplied_version() {
    let ua = Fingerprint::native_chrome_user_agent("150.0.7871.182", LINUX).unwrap();
    assert!(ua.contains("Chrome/150.0.7871.182"));
    assert!(Fingerprint::native_chrome_user_agent("not-a-version", LINUX).is_none());
}

#[test]
fn test_random_is_internally_coherent_over_samples() {
    for _ in 0..200 {
        let fp = Fingerprint::random();
        match fp.platform {
            Platform::MacOS => {
                assert!(
                    fp.user_agent.contains("Macintosh"),
                    "mac UA missing Macintosh: {}",
                    fp.user_agent
                );
                assert!(
                    fp.user_agent.contains("Mac OS X 10_15_7"),
                    "mac UA missing frozen OS token: {}",
                    fp.user_agent
                );
                assert_eq!(fp.nav_platform(), "MacIntel");
                assert_eq!(fp.ch_platform(), "macOS");
            }
            Platform::Windows => {
                assert!(
                    fp.user_agent.contains("Windows NT 10.0"),
                    "windows UA missing NT token: {}",
                    fp.user_agent
                );
                assert_eq!(fp.nav_platform(), "Win32");
                assert_eq!(fp.ch_platform(), "Windows");
            }
            Platform::Linux => {
                unreachable!("random profiles currently target macOS or Windows")
            }
        }
        // The UA always advertises the full Chrome version, and the full
        // version always begins with the major.
        assert!(
            fp.user_agent.contains(&fp.chrome_full_version),
            "UA missing full version {}: {}",
            fp.chrome_full_version,
            fp.user_agent
        );
        assert!(
            fp.chrome_full_version.starts_with(&fp.chrome_major),
            "full version {} does not start with major {}",
            fp.chrome_full_version,
            fp.chrome_major
        );
    }
}

#[test]
fn test_screen_resolution_partitioned_by_platform() {
    // Resolutions unique to each platform's list.
    let mac_only = [(3024u32, 1964u32), (3456, 2234)];
    let windows_only = [(1366u32, 768u32), (1536, 864)];

    // Sanity-check the assumptions against the actual consts.
    for res in &mac_only {
        assert!(screen_resolutions(Platform::MacOS).contains(res));
        assert!(!screen_resolutions(Platform::Windows).contains(res));
    }
    for res in &windows_only {
        assert!(screen_resolutions(Platform::Windows).contains(res));
        assert!(!screen_resolutions(Platform::MacOS).contains(res));
    }

    for _ in 0..300 {
        let fp = Fingerprint::random();
        let res = (fp.screen_width, fp.screen_height);
        match fp.platform {
            Platform::Windows => {
                assert!(
                    !mac_only.contains(&res),
                    "windows fingerprint reported mac-only resolution {:?}",
                    res
                );
                assert!(
                    screen_resolutions(Platform::Windows).contains(&res),
                    "windows resolution {:?} not in windows list",
                    res
                );
            }
            Platform::MacOS => {
                assert!(
                    !windows_only.contains(&res),
                    "mac fingerprint reported windows-only resolution {:?}",
                    res
                );
                assert!(
                    screen_resolutions(Platform::MacOS).contains(&res),
                    "mac resolution {:?} not in mac list",
                    res
                );
            }
            Platform::Linux => {
                unreachable!("random profiles currently target macOS or Windows")
            }
        }
    }
}

#[test]
fn test_resolve_windows_ua_is_coherent() {
    let ua = "Mozilla/5.0 (Windows NT 10.0; Win64; x64) AppleWebKit/537.36 (KHTML, like Gecko) Chrome/140.0.7312.86 Safari/537.36";
    let fp = Fingerprint::resolve(Some(ua), None);
    assert_eq!(fp.platform, Platform::Windows);
    assert_eq!(fp.chrome_major, "140");
    assert_eq!(fp.user_agent, ua, "explicit UA must be preserved verbatim");
    assert!(
        webgl_renderers(Platform::Windows).contains(&fp.webgl_renderer.as_str()),
        "windows fp got non-windows renderer: {}",
        fp.webgl_renderer
    );
}

#[test]
fn test_resolve_mac_ua_is_coherent() {
    let ua = "Mozilla/5.0 (Macintosh; Intel Mac OS X 10_15_7) AppleWebKit/537.36 (KHTML, like Gecko) Chrome/140.0.7312.86 Safari/537.36";
    let fp = Fingerprint::resolve(Some(ua), None);
    assert_eq!(fp.platform, Platform::MacOS);
    assert_eq!(fp.chrome_major, "140");
    assert_eq!(fp.user_agent, ua, "explicit UA must be preserved verbatim");
    assert_eq!(fp.nav_platform(), "MacIntel");
    assert!(
        webgl_renderers(Platform::MacOS).contains(&fp.webgl_renderer.as_str()),
        "mac fp got non-mac renderer: {}",
        fp.webgl_renderer
    );
}

#[test]
fn test_resolve_linux_ua_is_coherent() {
    let ua = "Mozilla/5.0 (X11; Linux aarch64) AppleWebKit/537.36 (KHTML, like Gecko) Chrome/150.0.7871.186 Safari/537.36";
    let fp = Fingerprint::resolve(Some(ua), Some("America/Los_Angeles"));
    assert_eq!(fp.platform, Platform::Linux);
    assert_eq!(fp.nav_platform(), "Linux x86_64");
    assert_eq!(fp.ch_platform(), "Linux");
    assert_eq!(fp.timezone, "America/Los_Angeles");
    assert!(webgl_renderers(Platform::Linux).contains(&fp.webgl_renderer.as_str()));
}

#[test]
fn test_resolve_applies_timezone() {
    let fp = Fingerprint::resolve(None, Some("Asia/Tokyo"));
    assert_eq!(fp.timezone, "Asia/Tokyo");
}

#[test]
fn test_resolve_ua_without_chrome_token_falls_back() {
    // A UA with no "Chrome/" token must still yield a plausible Chrome
    // full version via the fallback branch.
    let ua = "Mozilla/5.0 (Windows NT 10.0; Win64; x64) AppleWebKit/537.36 (KHTML, like Gecko) Safari/537.36";
    let fp = Fingerprint::resolve(Some(ua), None);
    assert!(
        !fp.chrome_full_version.is_empty(),
        "fallback should populate chrome_full_version"
    );
    assert!(
        fp.chrome_full_version.starts_with(&fp.chrome_major),
        "fallback full version {} must start with major {}",
        fp.chrome_full_version,
        fp.chrome_major
    );
}

#[test]
fn test_ch_brands_shape() {
    let fp = Fingerprint::resolve(
        Some("Mozilla/5.0 (Windows NT 10.0; Win64; x64) AppleWebKit/537.36 (KHTML, like Gecko) Chrome/140.0.7312.86 Safari/537.36"),
        None,
    );
    let brands = fp.ch_brands();
    assert_eq!(brands.len(), 3);
    assert!(
        brands.contains(&("Google Chrome".to_string(), "140".to_string())),
        "ch_brands must include Google Chrome with major version: {:?}",
        brands
    );
    assert!(
        brands.iter().any(|(b, _)| b == "Not?A_Brand"),
        "ch_brands must include a GREASE Not?A_Brand entry: {:?}",
        brands
    );
}

#[test]
fn test_ch_full_version_brands_shape() {
    let fp = Fingerprint::resolve(
        Some("Mozilla/5.0 (Windows NT 10.0; Win64; x64) AppleWebKit/537.36 (KHTML, like Gecko) Chrome/140.0.7312.86 Safari/537.36"),
        None,
    );
    let brands = fp.ch_full_version_brands();
    assert_eq!(brands.len(), 3);
    assert!(
        brands.contains(&("Google Chrome".to_string(), "140.0.7312.86".to_string())),
        "ch_full_version_brands must include Google Chrome with full version: {:?}",
        brands
    );
    assert!(
        brands.iter().any(|(b, _)| b == "Not?A_Brand"),
        "ch_full_version_brands must include a GREASE Not?A_Brand entry: {:?}",
        brands
    );
}

const DRAWS: Draws = Draws {
    version: 7,
    renderer: 0,
    ch_version: 1,
    screen: 2,
    cores: 4,
    memory: 3,
    timezone: 8,
    noise_seed: 99,
};

#[test]
fn an_identity_follows_from_what_was_drawn() {
    let fp = Fingerprint::resolve_with(None, None, true, &DRAWS);
    assert_eq!(fp.platform, Platform::MacOS);
    assert_eq!(
        fp.user_agent,
        "Mozilla/5.0 (Macintosh; Intel Mac OS X 10_15_7) AppleWebKit/537.36 (KHTML, like Gecko) Chrome/140.0.7312.86 Safari/537.36"
    );
    assert_eq!(fp.chrome_major, "140");
    assert_eq!(fp.chrome_full_version, "140.0.7312.86");
    assert_eq!(fp.platform_version, "14.4.1");
    assert_eq!((fp.screen_width, fp.screen_height), (2560, 1600));
    assert_eq!(fp.color_depth, 24);
    assert_eq!(fp.hardware_concurrency, 16);
    assert_eq!(fp.device_memory, 32);
    assert_eq!(fp.timezone, "Asia/Tokyo");
    assert_eq!(fp.languages, vec!["en-US".to_string(), "en".to_string()]);
    assert_eq!(fp.webgl_vendor, "Google Inc. (Apple)");
    assert_eq!(fp.webgl_renderer, "ANGLE (Apple, Apple M1 Pro, OpenGL 4.1)");
    assert_eq!(fp.noise_seed, 99);
}

#[test]
fn a_pinned_agent_decides_platform_and_version() {
    let fp = Fingerprint::resolve_with(
        Some("X (X11; Linux aarch64) Chrome/9.8.7 Chrome/1 Safari"),
        Some("Europe/Rome"),
        true,
        &DRAWS,
    );
    assert_eq!(fp.platform, Platform::Linux);
    assert_eq!(fp.chrome_major, "9");
    assert_eq!(fp.chrome_full_version, "9.8.7");
    assert_eq!(fp.timezone, "Europe/Rome");
    assert_eq!(fp.platform_version, "6.8.0");

    let fp = Fingerprint::resolve_with(Some("Chrome/ x"), None, false, &DRAWS);
    assert_eq!(fp.chrome_full_version, "140.0.7312.86");
    assert_eq!(fp.platform, Platform::Windows);
}

#[test]
fn native_agents_name_the_host() {
    let mac = Host {
        platform: Platform::MacOS,
        linux_arch: LinuxArch::Arm,
    };
    assert_eq!(
        Fingerprint::native_chrome_user_agent("1.2", mac).unwrap(),
        "Mozilla/5.0 (Macintosh; Intel Mac OS X 10_15_7) AppleWebKit/537.36 (KHTML, like Gecko) Chrome/1.2 Safari/537.36"
    );
    let arm = Host {
        platform: Platform::Linux,
        linux_arch: LinuxArch::Arm,
    };
    assert_eq!(
        Fingerprint::native_chrome_user_agent("150", arm).unwrap(),
        "Mozilla/5.0 (X11; Linux aarch64) AppleWebKit/537.36 (KHTML, like Gecko) Chrome/150 Safari/537.36"
    );
    for bad in ["", ".", "1.", ".1", "1..2", "1.x", "\u{0661}"] {
        assert!(Fingerprint::native_chrome_user_agent(bad, arm).is_none(), "{bad}");
    }
}

#[test]
fn test_profile_identity_is_stable_across_launches() {
    let first = Fingerprint::resolve_for_profile(None, Some("America/Los_Angeles"), Profile::New);
    let stored = match first {
        Ok(ProfileIdentity::ToStore(fp)) => fp,
        _ => panic!("a new profile stores its identity"),
    };
    let second = Fingerprint::resolve_for_profile(
        None,
        Some("America/Los_Angeles"),
        Profile::Stored(stored.clone()),
    );
    match second {
        Ok(ProfileIdentity::Passing(fp)) => {
            assert_eq!(fp.user_agent, stored.user_agent);
            assert_eq!(fp.hardware_concurrency, stored.hardware_concurrency);
            assert_eq!(fp.device_memory, stored.device_memory);
            assert_eq!(fp.webgl_renderer, stored.webgl_renderer);
            assert_eq!(fp.noise_seed, stored.noise_seed);
        }
        _ => panic!("a stored identity is used"),
    }
}

#[test]
fn test_profile_identity_rejects_conflicting_user_agent() {
    let stored = Fingerprint::resolve_with(Some("Mozilla/5.0 first"), None, false, &DRAWS);
    let other = Fingerprint::resolve_for_profile(
        Some("Mozilla/5.0 second"),
        None,
        Profile::Stored(stored.clone()),
    );
    match other {
        Err(ProfileError::InvalidInput(m)) => assert_eq!(
            m,
            "configured user agent conflicts with persisted browser identity"
        ),
        _ => panic!("the user agents differ"),
    }
    let elsewhere = Fingerprint::resolve_for_profile(
        Some("Mozilla/5.0 first"),
        Some("Asia/Kolkata"),
        Profile::Stored(stored),
    );
    match elsewhere {
        Err(ProfileError::InvalidInput(m)) => assert_eq!(
            m,
            "configured timezone conflicts with persisted browser identity"
        ),
        _ => panic!("the time zones differ"),
    }
    let broken = Fingerprint::resolve_for_profile(
        None,
        None,
        Profile::Unreadable {
            path: "/p/.eoka-fingerprint.json".to_string(),
            cause: "EOF".to_string(),
        },
    );
    match broken {
        Err(ProfileError::InvalidData(m)) => assert_eq!(
            m,
            "invalid persisted browser identity /p/.eoka-fingerprint.json: EOF"
        ),
        _ => panic!("nothing can be read"),
    }
    assert!(matches!(
        Fingerprint::resolve_for_profile(None, None, Profile::Absent),
        Ok(ProfileIdentity::Passing(_))
    ));
    assert_eq!(
        eoka::stealth::fingerprint::temporary_file(77),
        ".eoka-fingerprint.json.tmp-77"
    );
}

#[test]
fn a_user_agent_tells_what_it_was_made_for() {
    for platform in [Platform::MacOS, Platform::Windows, Platform::Linux] {
        for linux_arch in [LinuxArch::X86, LinuxArch::Arm] {
            let host = Host {
                platform,
                linux_arch,
            };
            let ua = Fingerprint::native_chrome_user_agent("150.0.1.2", host).unwrap();
            let fp = Fingerprint::resolve(Some(&ua), None);
            assert_eq!(fp.platform, platform);
            assert_eq!(fp.chrome_major, "150");
            assert_eq!(fp.chrome_full_version, "150.0.1.2");
        }
    }
}
