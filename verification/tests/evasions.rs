use eoka::stealth::evasions::{
    build_evasion_script, build_evasion_script_for, NATIVE_TOSTRING_EVASION, TIMEZONE_EVASION,
};
use eoka::stealth::fingerprint::{Draws, Fingerprint};
use eoka::StealthConfig;

#[test]
fn test_build_full_script() {
    let config = StealthConfig::default();
    let script = build_evasion_script(&config);
    assert!(script.contains("webdriver"));
    assert!(script.contains("WebGLRenderingContext"));
    assert!(script.contains("HTMLCanvasElement"));
    assert!(script.contains("AudioBuffer"));
    assert!(!script.contains("const documentProxy"));
}

#[test]
fn test_aggressive_cdp_evasion_is_opt_in() {
    let config = StealthConfig {
        aggressive_cdp_evasion: true,
        ..StealthConfig::default()
    };
    assert!(build_evasion_script(&config).contains("const documentProxy"));
}

#[test]
fn test_placeholders_are_filled() {
    let script = build_evasion_script(&StealthConfig::default());
    assert!(
        !script.contains("__EOKA_"),
        "unresolved placeholder in script"
    );
    assert!(script.contains("_eoka_mark"));
}

#[test]
fn test_script_is_wrapped_in_iife() {
    let config = StealthConfig::default();
    let script = build_evasion_script(&config);
    assert!(script.starts_with("(function()"));
    assert!(script.ends_with("})();"));
}

#[test]
fn test_build_script_for_known_windows_fp() {
    let fp = Fingerprint::resolve(
        Some("Mozilla/5.0 (Windows NT 10.0; Win64; x64) AppleWebKit/537.36 (KHTML, like Gecko) Chrome/140.0.7312.86 Safari/537.36"),
        None,
    );
    let config = StealthConfig::default();
    let script = build_evasion_script_for(&config, &fp);

    // navigator.platform comes from the fingerprint (Win32), and the old
    // hardcoded MacIntel must be gone.
    assert!(
        script.contains("'Win32'"),
        "script must contain the fingerprint nav_platform 'Win32'"
    );
    assert!(
        !script.contains("'MacIntel'"),
        "script must not contain the old hardcoded 'MacIntel'"
    );

    // WebGL renderer and hardware values flow from the fingerprint.
    assert!(
        script.contains(&fp.webgl_renderer),
        "script must contain the fingerprint webgl_renderer: {}",
        fp.webgl_renderer
    );
    assert!(
        script.contains(&fp.hardware_concurrency.to_string()),
        "script must contain hardware_concurrency"
    );
    assert!(
        script.contains(&fp.device_memory.to_string()),
        "script must contain device_memory"
    );

    // toString-masking machinery is present.
    assert!(script.contains("_eoka_mark"));
    assert!(script.contains("[native code]"));

    // No leftover placeholders, and the removed beacon must be gone.
    assert!(
        !script.contains("__EOKA_"),
        "script must not contain unresolved placeholders"
    );
    assert!(
        !script.contains("__eoka_pending_requests"),
        "removed request-beacon must not reappear"
    );
}

#[test]
fn test_config_values_are_js_escaped() {
    let config = StealthConfig {
        timezone: Some("Foo'Bar".into()),
        ..StealthConfig::default()
    };
    let script = build_evasion_script(&config);
    assert!(
        script.contains(r"Foo\'Bar"),
        "timezone single quote must be escaped via escape_js_string"
    );
    assert!(
        !script.contains("'Foo'Bar'"),
        "unescaped single quote must not appear"
    );
}

#[test]
fn a_script_holds_what_the_identity_says() {
    let mut fp = Fingerprint::resolve_with(
        None,
        Some("Asia/O'Tokyo"),
        false,
        &Draws {
            version: 0,
            renderer: 1,
            ch_version: 0,
            screen: 0,
            cores: 2,
            memory: 2,
            timezone: 0,
            noise_seed: 4242,
        },
    );
    let config = StealthConfig {
        webgl_spoof: false,
        canvas_spoof: false,
        audio_spoof: false,
        ..StealthConfig::default()
    };
    let script = build_evasion_script_for(&config, &fp);
    assert!(script.contains(r"const targetTimezone = 'Asia/O\'Tokyo';"));
    assert!(script.contains("(4242 >>> 0) || 1"));
    assert!(script.contains("['en-US','en']"));
    assert!(!script.contains("_eoka_noiseCanvas"));
    assert!(script.starts_with("(function(){\nconst _eoka_spoofed"));

    fp.languages = vec!["d'e".to_string()];
    let script = build_evasion_script_for(&StealthConfig::default(), &fp);
    assert!(script.contains(r"['d\'e']"));
    assert!(script.contains("_eoka_noiseCanvas"));
    assert!(script.contains("RTX 4070"));

    let zoned = StealthConfig {
        timezone: Some("Europe/Oslo".to_string()),
        ..StealthConfig::default()
    };
    let script = build_evasion_script_for(&zoned, &fp);
    assert!(script.contains("const targetTimezone = 'Europe/Oslo';"));
    assert!(NATIVE_TOSTRING_EVASION.contains("__EOKA_NOISE_SEED__"));
    assert!(TIMEZONE_EVASION.contains("__EOKA_TIMEZONE__"));
}
