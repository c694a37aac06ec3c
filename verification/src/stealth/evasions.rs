//! Scripts that run in a page before anything of its own does.

use vstd::prelude::*;

use crate::config::StealthConfig;
use crate::decimal::{decimal, digits};
use crate::page::escape::{escape_js_string, escaped};
use crate::stealth::fingerprint::{nav_platform_of, some_identity, Fingerprint, FingerprintView};
use crate::text::{
    concat3, join, joined, opt_view, replace, replace_all, string_views,
};

verus! {

/// Lets functions marked with `_eoka_mark` report native code from `toString`, and
/// seeds the perturbations.
pub const NATIVE_TOSTRING_EVASION: &'static str = r#"
const _eoka_spoofed = new WeakMap();
const _eoka_origToString = Function.prototype.toString;
const _eoka_mark = (fn, name) => {
    if (typeof fn === 'function') {
        _eoka_spoofed.set(fn, name || fn.name || '');
    }
    return fn;
};
const _eoka_toStringProxy = new Proxy(_eoka_origToString, {
    apply(target, thisArg, args) {
        if (typeof thisArg === 'function' && _eoka_spoofed.has(thisArg)) {
            const name = _eoka_spoofed.get(thisArg);
            return name ? 'function ' + name + '() { [native code] }'
                        : 'function () { [native code] }';
        }
        if (thisArg === _eoka_toStringProxy) {
            return 'function toString() { [native code] }';
        }
        return Reflect.apply(target, thisArg, args);
    }
});
Function.prototype.toString = _eoka_toStringProxy;
_eoka_mark(Function.prototype.toString, 'toString');

// Deterministic per-session PRNG (LCG), seeded from Rust.
const _eoka_lcg = (s) => (Math.imul(s >>> 0, 1664525) + 1013904223) >>> 0;
let _eoka_seed = (__EOKA_NOISE_SEED__ >>> 0) || 1;
const _eoka_rand = () => {
    _eoka_seed = _eoka_lcg(_eoka_seed);
    return _eoka_seed / 4294967296;
};
"#;

/// Defines `webdriver` as false on the prototype.
pub const WEBDRIVER_EVASION: &'static str = r#"
const _eoka_webdriverGet = _eoka_mark(() => false, 'get webdriver');
Object.defineProperty(Object.getPrototypeOf(navigator), 'webdriver', {
    get: _eoka_webdriverGet,
    configurable: true,
    enumerable: true
});
try {
    Object.defineProperty(Navigator.prototype, 'webdriver', {
        get: _eoka_webdriverGet,
        configurable: true,
        enumerable: true
    });
} catch(e) {}

// Remove automation-related properties from window
const automationProps = [
    'callPhantom', '_phantom', 'phantom', '__nightmare', 'domAutomation',
    'domAutomationController', '_selenium', '_Selenium_IDE_Recorder',
    'callSelenium', '__webdriver_script_fn', '__driver_evaluate',
    '__webdriver_evaluate', '__fxdriver_evaluate', '__driver_unwrapped',
    '__webdriver_unwrapped', '__fxdriver_unwrapped', '__selenium_unwrapped',
    '_WEBDRIVER_ELEM_CACHE', 'ChromeDriverw', 'driver-evaluate',
    'webdriver-evaluate', 'selenium-evaluate', 'webdriverCommand',
    'webdriver-evaluate-response', '__webdriverFunc', '__lastWatirAlert',
    '__lastWatirConfirm', '__lastWatirPrompt', '$chrome_asyncScriptInfo',
    '__selenium_evaluate', '__webdriver_script_function'
];

automationProps.forEach(prop => {
    try {
        if (prop in window) delete window[prop];
    } catch(e) {}
});

// Fix for Chrome's runtime.bindingsCalled check
if (window.chrome && window.chrome.runtime) {
    try {
        delete window.chrome.runtime.bindingsCalled;
    } catch(e) {}
}
"#;

/// Cleans up what automation leaves on `window` and `document`.
pub const CDP_EVASION: &'static str = r#"
// Pattern to match CDP/automation markers
const cdcPattern = /^cdc_|^\$cdc_|^__webdriver|^__selenium|^__driver|^\$chrome_|^\$wdc_/;

// Clean up CDP markers from window
const cleanupWindow = () => {
    for (const prop of Object.getOwnPropertyNames(window)) {
        if (cdcPattern.test(prop)) {
            try { delete window[prop]; } catch(e) {}
        }
    }
};

// Clean up CDP markers from document
const cleanupDocument = () => {
    for (const prop of Object.getOwnPropertyNames(document)) {
        if (cdcPattern.test(prop)) {
            try { delete document[prop]; } catch(e) {}
        }
    }
};

// Run cleanup immediately
cleanupWindow();
cleanupDocument();

// Override Object.getOwnPropertyNames to filter out CDP markers
const originalGetOwnPropertyNames = Object.getOwnPropertyNames;
Object.getOwnPropertyNames = _eoka_mark(function getOwnPropertyNames(obj) {
    const names = originalGetOwnPropertyNames.call(this, obj);
    if (obj === window || obj === document) {
        return names.filter(name => !cdcPattern.test(name));
    }
    return names;
}, 'getOwnPropertyNames');

// Override Object.keys to filter out CDP markers
const originalKeys = Object.keys;
Object.keys = _eoka_mark(function keys(obj) {
    const keys = originalKeys.call(this, obj);
    if (obj === window || obj === document) {
        return keys.filter(key => !cdcPattern.test(key));
    }
    return keys;
}, 'keys');

// Override hasOwnProperty to hide CDP markers
const originalHasOwnProperty = Object.prototype.hasOwnProperty;
Object.prototype.hasOwnProperty = _eoka_mark(function hasOwnProperty(prop) {
    if ((this === window || this === document) && cdcPattern.test(prop)) {
        return false;
    }
    return originalHasOwnProperty.call(this, prop);
}, 'hasOwnProperty');

// Override Object.getOwnPropertyDescriptor to hide CDP markers
const originalGetOwnPropertyDescriptor = Object.getOwnPropertyDescriptor;
Object.getOwnPropertyDescriptor = _eoka_mark(function getOwnPropertyDescriptor(obj, prop) {
    if ((obj === window || obj === document) && cdcPattern.test(prop)) {
        return undefined;
    }
    return originalGetOwnPropertyDescriptor.call(this, obj, prop);
}, 'getOwnPropertyDescriptor');

// Intercept direct property access on document using a Proxy (bound fns cached for stable identity).
const realDocument = document;
const _eoka_boundCache = new WeakMap();
try {
    const documentProxy = new Proxy(realDocument, {
        get(target, prop, receiver) {
            if (typeof prop === 'string' && cdcPattern.test(prop)) {
                return undefined;
            }
            const value = Reflect.get(target, prop, target);
            if (typeof value === 'function') {
                let cache = _eoka_boundCache.get(target);
                if (!cache) { cache = new Map(); _eoka_boundCache.set(target, cache); }
                if (!cache.has(prop)) cache.set(prop, value.bind(target));
                return cache.get(prop);
            }
            return value;
        },
        has(target, prop) {
            if (typeof prop === 'string' && cdcPattern.test(prop)) {
                return false;
            }
            return Reflect.has(target, prop);
        },
        getOwnPropertyDescriptor(target, prop) {
            if (typeof prop === 'string' && cdcPattern.test(prop)) {
                return undefined;
            }
            return Reflect.getOwnPropertyDescriptor(target, prop);
        },
        ownKeys(target) {
            return Reflect.ownKeys(target).filter(key =>
                typeof key !== 'string' || !cdcPattern.test(key)
            );
        }
    });

    Object.defineProperty(window, 'document', {
        get: _eoka_mark(() => documentProxy, 'get document'),
        configurable: true
    });
} catch(e) {
    let cleanupCount = 0;
    const cleanupTimer = setInterval(() => {
        cleanupWindow();
        cleanupDocument();
        if (++cleanupCount >= 10) clearInterval(cleanupTimer);
    }, 200);
}

// Clean up document element attributes
const cleanupDocAttributes = () => {
    const attrs = ['selenium', 'webdriver', 'driver'];
    const docElement = document.documentElement;
    if (docElement) {
        attrs.forEach(attr => {
            try {
                if (docElement.hasAttribute(attr)) {
                    docElement.removeAttribute(attr);
                }
            } catch(e) {}
        });
    }
};

if (document.documentElement) {
    cleanupDocAttributes();
}
document.addEventListener('DOMContentLoaded', cleanupDocAttributes);
"#;

/// Provides the `chrome` runtime object.
pub const CHROME_RUNTIME_EVASION: &'static str = r#"
window.chrome = {
    runtime: {
        onConnect: {
            addListener: function() {},
            removeListener: function() {}
        },
        onMessage: {
            addListener: function() {},
            removeListener: function() {}
        },
        connect: function() {
            return {
                onMessage: { addListener: function() {} },
                onDisconnect: { addListener: function() {} },
                postMessage: function() {}
            };
        },
        sendMessage: function() {},
        id: undefined
    },
    loadTimes: function() {
        return {
            commitLoadTime: Date.now() / 1000 - _eoka_rand() * 2,
            connectionInfo: "h2",
            finishDocumentLoadTime: Date.now() / 1000 - _eoka_rand(),
            finishLoadTime: Date.now() / 1000 - _eoka_rand() * 0.5,
            firstPaintAfterLoadTime: 0,
            firstPaintTime: Date.now() / 1000 - _eoka_rand() * 1.5,
            navigationType: "Other",
            npnNegotiatedProtocol: "h2",
            requestTime: Date.now() / 1000 - _eoka_rand() * 3,
            startLoadTime: Date.now() / 1000 - _eoka_rand() * 2.5,
            wasAlternateProtocolAvailable: false,
            wasFetchedViaSpdy: true,
            wasNpnNegotiated: true
        };
    },
    csi: function() {
        return {
            onloadT: Date.now(),
            pageT: _eoka_rand() * 1000 + 500,
            startE: Date.now() - _eoka_rand() * 3000,
            tran: 15
        };
    },
    app: {
        isInstalled: false,
        InstallState: { DISABLED: "disabled", INSTALLED: "installed", NOT_INSTALLED: "not_installed" },
        RunningState: { CANNOT_RUN: "cannot_run", READY_TO_RUN: "ready_to_run", RUNNING: "running" }
    }
};
"#;

/// Makes the permissions API agree with itself.
pub const PERMISSIONS_EVASION: &'static str = r#"
// Fix Notification/Permissions API consistency
const originalPermissionsQuery = navigator.permissions.query.bind(navigator.permissions);

try {
    Object.defineProperty(Notification, 'permission', {
        get: _eoka_mark(() => 'default', 'get permission'),
        configurable: true,
        enumerable: true
    });
} catch(e) {}

navigator.permissions.query = _eoka_mark(function query(parameters) {
    const name = parameters.name;

    if (name === 'notifications') {
        return Promise.resolve({
            state: 'prompt',
            name: 'notifications',
            onchange: null,
            addEventListener: function() {},
            removeEventListener: function() {},
            dispatchEvent: function() { return true; }
        });
    }

    if (name === 'clipboard-read' || name === 'clipboard-write') {
        return Promise.resolve({
            state: 'prompt',
            name: name,
            onchange: null,
            addEventListener: function() {},
            removeEventListener: function() {},
            dispatchEvent: function() { return true; }
        });
    }

    return originalPermissionsQuery(parameters).then(function(result) {
        return {
            state: result.state,
            name: result.name || name,
            onchange: result.onchange,
            addEventListener: result.addEventListener?.bind(result) || function() {},
            removeEventListener: result.removeEventListener?.bind(result) || function() {},
            dispatchEvent: result.dispatchEvent?.bind(result) || function() { return true; }
        };
    }).catch(function() {
        return {
            state: 'prompt',
            name: name,
            onchange: null,
            addEventListener: function() {},
            removeEventListener: function() {},
            dispatchEvent: function() { return true; }
        };
    });
}, 'query');
"#;

/// Provides plugins, under a stable reference on the prototype.
pub const PLUGINS_EVASION: &'static str = r#"
const _eoka_buildPlugins = () => {
    const plugins = [
        { name: 'PDF Viewer', filename: 'internal-pdf-viewer', description: 'Portable Document Format' },
        { name: 'Chrome PDF Viewer', filename: 'internal-pdf-viewer', description: 'Portable Document Format' },
        { name: 'Chromium PDF Viewer', filename: 'internal-pdf-viewer', description: 'Portable Document Format' },
        { name: 'Microsoft Edge PDF Viewer', filename: 'internal-pdf-viewer', description: 'Portable Document Format' },
        { name: 'WebKit built-in PDF', filename: 'internal-pdf-viewer', description: 'Portable Document Format' }
    ];

    const pluginArray = Object.create(PluginArray.prototype);
    plugins.forEach((p, i) => {
        const plugin = Object.create(Plugin.prototype);
        Object.defineProperties(plugin, {
            name: { value: p.name, enumerable: true },
            filename: { value: p.filename, enumerable: true },
            description: { value: p.description, enumerable: true },
            length: { value: 1, enumerable: true }
        });
        pluginArray[i] = plugin;
        pluginArray[p.name] = plugin;
    });

    Object.defineProperty(pluginArray, 'length', { value: plugins.length });
    pluginArray.item = _eoka_mark((i) => pluginArray[i] || null, 'item');
    pluginArray.namedItem = _eoka_mark((name) => pluginArray[name] || null, 'namedItem');
    pluginArray.refresh = _eoka_mark(() => {}, 'refresh');
    return pluginArray;
};

const _eoka_pluginArray = _eoka_buildPlugins();
Object.defineProperty(Navigator.prototype, 'plugins', {
    get: _eoka_mark(() => _eoka_pluginArray, 'get plugins'),
    configurable: true,
    enumerable: true
});
"#;

/// Fills in languages, platform and hardware.
pub const NAVIGATOR_PROPS_EVASION: &'static str = r#"
const navProps = {
    languages: { get: () => Object.freeze(__EOKA_LANGUAGES__) },
    language: { get: () => '__EOKA_LANGUAGE__' },
    platform: { get: () => '__EOKA_PLATFORM__' },
    vendor: { get: () => 'Google Inc.' },
    hardwareConcurrency: { get: () => __EOKA_HW__ },
    deviceMemory: { get: () => __EOKA_MEM__ },
    maxTouchPoints: { get: () => 0 }
};
for (const [prop, desc] of Object.entries(navProps)) {
    _eoka_mark(desc.get, 'get ' + prop);
    Object.defineProperty(Navigator.prototype, prop, {
        ...desc,
        configurable: true,
        enumerable: true
    });
}
"#;

/// Provides what a browser without a window lacks.
pub const HEADLESS_EVASION: &'static str = r#"
// Fix screen properties
Object.defineProperty(screen, 'availWidth', { get: _eoka_mark(() => screen.width, 'get availWidth'), configurable: true });
Object.defineProperty(screen, 'availHeight', { get: _eoka_mark(() => screen.height - 40, 'get availHeight'), configurable: true });

// Mock window dimensions
Object.defineProperty(window, 'outerWidth', { get: _eoka_mark(() => window.innerWidth, 'get outerWidth'), configurable: true });
Object.defineProperty(window, 'outerHeight', { get: _eoka_mark(() => window.innerHeight + 85, 'get outerHeight'), configurable: true });

// Fix window.matchMedia
const originalMatchMedia = window.matchMedia;
if (originalMatchMedia) {
    window.matchMedia = _eoka_mark(function matchMedia(query) {
        const result = originalMatchMedia.call(window, query);
        if (query.includes('prefers-reduced-motion')) {
            return {
                matches: false,
                media: query,
                onchange: null,
                addListener: function() {},
                removeListener: function() {},
                addEventListener: function() {},
                removeEventListener: function() {},
                dispatchEvent: function() { return true; }
            };
        }
        return result;
    }, 'matchMedia');
}

// Ensure window.origin is correct
try {
    if (!window.origin || window.origin === 'null') {
        Object.defineProperty(window, 'origin', {
            get: _eoka_mark(function() { return window.location.origin; }, 'get origin'),
            configurable: true
        });
    }
} catch(e) {}
"#;

/// Answers for the battery in front of the real one.
pub const BATTERY_EVASION: &'static str = r#"
const originalGetBattery = Navigator.prototype.getBattery;
if (originalGetBattery) {
    Object.defineProperty(Navigator.prototype, 'getBattery', {
        value: _eoka_mark(function getBattery() {
            return originalGetBattery.call(this).then(function(battery) {
                return new Proxy(battery, {
                    get(target, prop) {
                        switch (prop) {
                            case 'charging': return true;
                            case 'chargingTime': return 0;
                            case 'dischargingTime': return Infinity;
                            case 'level': return 1;
                        }
                        const v = target[prop];
                        return typeof v === 'function' ? v.bind(target) : v;
                    }
                });
            });
        }, 'getBattery'),
        configurable: true,
        writable: true
    });
}
"#;

/// Tidies the connection and the user agent data.
pub const NAVIGATOR_EXTRA_EVASION: &'static str = r#"
if (navigator.userAgentData) {
    const originalGetHighEntropyValues = navigator.userAgentData.getHighEntropyValues?.bind(navigator.userAgentData);
    if (originalGetHighEntropyValues) {
        navigator.userAgentData.getHighEntropyValues = _eoka_mark(function getHighEntropyValues(hints) {
            return originalGetHighEntropyValues(hints).then(function(data) {
                if (data.brands) {
                    data.brands = data.brands.filter(b =>
                        !b.brand.toLowerCase().includes('headless')
                    );
                }
                return data;
            });
        }, 'getHighEntropyValues');
    }
}

// Fix navigator.connection
if (navigator.connection) {
    try {
        const connectionProps = {
            downlink: 10,
            effectiveType: '4g',
            rtt: 50,
            saveData: false
        };

        for (const [key, value] of Object.entries(connectionProps)) {
            try {
                Object.defineProperty(navigator.connection, key, {
                    get: _eoka_mark(() => value, 'get ' + key),
                    configurable: true,
                    enumerable: true
                });
            } catch(e) {}
        }
    } catch(e) {}
}
"#;

/// Masks WebGL and perturbs canvas and audio.
pub const FINGERPRINT_EVASION: &'static str = r#"
const _eoka_spoofWebGL = (proto) => {
    const orig = proto.getParameter;
    proto.getParameter = _eoka_mark(function getParameter(p) {
        if (p === 37445) return '__EOKA_WEBGL_VENDOR__';
        if (p === 37446) return '__EOKA_WEBGL_RENDERER__';
        return orig.call(this, p);
    }, 'getParameter');
};
_eoka_spoofWebGL(WebGLRenderingContext.prototype);
if (typeof WebGL2RenderingContext !== 'undefined') _eoka_spoofWebGL(WebGL2RenderingContext.prototype);

// Canvas noise — deterministic, applied on a temp copy.
const _eoka_noiseCanvas = (canvas) => {
    const w = canvas.width | 0, h = canvas.height | 0;
    if (w <= 0 || h <= 0) return canvas;
    try {
        const tmp = document.createElement('canvas');
        tmp.width = w; tmp.height = h;
        const tctx = tmp.getContext('2d');
        tctx.drawImage(canvas, 0, 0);
        const img = tctx.getImageData(0, 0, w, h);
        const data = img.data;
        let s = (__EOKA_NOISE_SEED__ >>> 0) || 1;
        for (let i = 0; i < data.length; i += 4) {
            s = _eoka_lcg(s);
            data[i] = data[i] ^ (s & 1);
        }
        tctx.putImageData(img, 0, 0);
        return tmp;
    } catch(e) {
        return canvas;
    }
};

const origToDataURL = HTMLCanvasElement.prototype.toDataURL;
HTMLCanvasElement.prototype.toDataURL = _eoka_mark(function toDataURL(...args) {
    return origToDataURL.apply(_eoka_noiseCanvas(this), args);
}, 'toDataURL');

const origToBlob = HTMLCanvasElement.prototype.toBlob;
if (origToBlob) {
    HTMLCanvasElement.prototype.toBlob = _eoka_mark(function toBlob(...args) {
        return origToBlob.apply(_eoka_noiseCanvas(this), args);
    }, 'toBlob');
}

// Audio noise — deterministic, applied once per channel buffer.
const origGetChannelData = AudioBuffer.prototype.getChannelData;
const _eoka_audioSeen = new WeakSet();
AudioBuffer.prototype.getChannelData = _eoka_mark(function getChannelData(ch) {
    const d = origGetChannelData.call(this, ch);
    if (!_eoka_audioSeen.has(d)) {
        let s = ((__EOKA_NOISE_SEED__ >>> 0) ^ (ch >>> 0)) >>> 0 || 1;
        for (let i = 0; i < d.length; i += 100) {
            s = _eoka_lcg(s);
            d[i] += (s / 4294967296 - 0.5) * 0.0001;
        }
        _eoka_audioSeen.add(d);
    }
    return d;
}, 'getChannelData');
"#;

/// Keeps public STUN servers from learning the address.
pub const WEBRTC_EVASION: &'static str = r#"
if (typeof RTCPeerConnection !== 'undefined') {
    const origRTCPeerConnection = RTCPeerConnection;

    const _eoka_filterServers = (config) => {
        if (config && config.iceServers) {
            config.iceServers = config.iceServers.filter(server => {
                const urls = Array.isArray(server.urls) ? server.urls : [server.urls];
                return !urls.some(url =>
                    /^stuns?:/i.test(url) || /^turns?:/i.test(url)
                );
            });
        }
        return config;
    };

    window.RTCPeerConnection = _eoka_mark(function RTCPeerConnection(config, constraints) {
        return new origRTCPeerConnection(_eoka_filterServers(config), constraints);
    }, 'RTCPeerConnection');

    window.RTCPeerConnection.prototype = origRTCPeerConnection.prototype;
    Object.keys(origRTCPeerConnection).forEach(key => {
        window.RTCPeerConnection[key] = origRTCPeerConnection[key];
    });
}

if (typeof webkitRTCPeerConnection !== 'undefined') {
    window.webkitRTCPeerConnection = window.RTCPeerConnection;
}
"#;

/// Provides voices where there are none.
pub const SPEECH_EVASION: &'static str = r#"
if (typeof speechSynthesis !== 'undefined') {
    const defaultVoices = [
        { name: 'Alex', lang: 'en-US', localService: true, default: true, voiceURI: 'Alex' },
        { name: 'Samantha', lang: 'en-US', localService: true, default: false, voiceURI: 'Samantha' },
        { name: 'Victoria', lang: 'en-US', localService: true, default: false, voiceURI: 'Victoria' },
        { name: 'Daniel', lang: 'en-GB', localService: true, default: false, voiceURI: 'Daniel' },
        { name: 'Google US English', lang: 'en-US', localService: false, default: false, voiceURI: 'Google US English' }
    ].map(v => {
        const voice = Object.create(SpeechSynthesisVoice.prototype);
        Object.defineProperties(voice, {
            name: { value: v.name, enumerable: true },
            lang: { value: v.lang, enumerable: true },
            localService: { value: v.localService, enumerable: true },
            default: { value: v.default, enumerable: true },
            voiceURI: { value: v.voiceURI, enumerable: true }
        });
        return voice;
    });

    const origGetVoices = speechSynthesis.getVoices.bind(speechSynthesis);
    speechSynthesis.getVoices = _eoka_mark(function getVoices() {
        const voices = origGetVoices();
        return voices.length > 0 ? voices : defaultVoices;
    }, 'getVoices');
}
"#;

/// Provides media devices where there are none.
pub const MEDIA_DEVICES_EVASION: &'static str = r#"
if (navigator.mediaDevices && navigator.mediaDevices.enumerateDevices) {
    const origEnumerateDevices = navigator.mediaDevices.enumerateDevices.bind(navigator.mediaDevices);

    navigator.mediaDevices.enumerateDevices = _eoka_mark(async function enumerateDevices() {
        const devices = await origEnumerateDevices();
        if (devices.length === 0) {
            const fake = [
                { deviceId: 'default', groupId: '5f8b2c1e9a3d', kind: 'audioinput', label: '' },
                { deviceId: 'default', groupId: '5f8b2c1e9a3d', kind: 'audiooutput', label: '' },
                { deviceId: 'e2d4a6c8b0f1', groupId: '9c3e7a1d4b6f', kind: 'videoinput', label: '' }
            ];
            return fake.map(d => {
                const device = Object.create(MediaDeviceInfo.prototype);
                Object.defineProperties(device, {
                    deviceId: { value: d.deviceId, enumerable: true },
                    groupId: { value: d.groupId, enumerable: true },
                    kind: { value: d.kind, enumerable: true },
                    label: { value: d.label, enumerable: true },
                    toJSON: { value: _eoka_mark(() => d, 'toJSON') }
                });
                return device;
            });
        }
        return devices;
    }, 'enumerateDevices');
}
"#;

/// Provides the Bluetooth API where it is missing.
pub const BLUETOOTH_EVASION: &'static str = r#"
if (!navigator.bluetooth) {
    Object.defineProperty(Navigator.prototype, 'bluetooth', {
        get: _eoka_mark(() => ({
            getAvailability: () => Promise.resolve(false),
            requestDevice: () => Promise.reject(new DOMException('User cancelled', 'NotFoundError')),
            getDevices: () => Promise.resolve([]),
            addEventListener: () => {},
            removeEventListener: () => {},
            dispatchEvent: () => true
        }), 'get bluetooth'),
        configurable: true,
        enumerable: true
    });
}
"#;

/// Makes dates agree with the time zone that is claimed.
pub const TIMEZONE_EVASION: &'static str = r#"
// Ensure Intl.DateTimeFormat returns consistent timezone
const targetTimezone = '__EOKA_TIMEZONE__';
const origDateTimeFormat = Intl.DateTimeFormat;

Intl.DateTimeFormat = _eoka_mark(function DateTimeFormat(locales, options) {
    if (!options) options = {};
    if (!options.timeZone) options.timeZone = targetTimezone;
    return new origDateTimeFormat(locales, options);
}, 'DateTimeFormat');
Intl.DateTimeFormat.prototype = origDateTimeFormat.prototype;
Intl.DateTimeFormat.supportedLocalesOf = origDateTimeFormat.supportedLocalesOf;

// Override Date.prototype.getTimezoneOffset to match the target timezone.
// Precompute offsets for Jan and Jul to handle DST, avoiding per-call
// toLocaleString() which is ~10x slower than native and timing-detectable.
{
    const _origGetTZO = Date.prototype.getTimezoneOffset;
    function _calcOffset(date) {
        const utcStr = date.toLocaleString('en-US', { timeZone: 'UTC' });
        const tzStr = date.toLocaleString('en-US', { timeZone: targetTimezone });
        return (new Date(utcStr) - new Date(tzStr)) / 60000;
    }
    const year = new Date().getFullYear();
    const janOffset = _calcOffset(new Date(year, 0, 15));
    const julOffset = _calcOffset(new Date(year, 6, 15));
    // Standard offset is the larger value (more positive = further west)
    const stdOffset = Math.max(janOffset, julOffset);
    const dstOffset = Math.min(janOffset, julOffset);
    // If offsets differ, this timezone observes DST
    const hasDST = janOffset !== julOffset;
    // Which months are DST depends on hemisphere: if Jul is the smaller
    // offset, DST is northern-hemisphere (Mar-Nov); otherwise southern.
    const dstIsJul = julOffset < janOffset;

    Date.prototype.getTimezoneOffset = _eoka_mark(function getTimezoneOffset() {
        if (!hasDST) return stdOffset;
        // Quick month-based check — accurate for the vast majority of dates.
        const m = this.getUTCMonth();
        const isDST = dstIsJul ? (m >= 2 && m <= 10) : (m <= 2 || m >= 10);
        return isDST ? dstOffset : stdOffset;
    }, 'getTimezoneOffset');
}
"#;

/// The modules that every script holds, in order. The first defines what the
/// others use.
pub open spec fn base_modules() -> Seq<Seq<char>> {
    seq![
        NATIVE_TOSTRING_EVASION@,
        WEBDRIVER_EVASION@,
        CHROME_RUNTIME_EVASION@,
        PERMISSIONS_EVASION@,
        PLUGINS_EVASION@,
        NAVIGATOR_PROPS_EVASION@,
        HEADLESS_EVASION@,
        BATTERY_EVASION@,
        NAVIGATOR_EXTRA_EVASION@,
        WEBRTC_EVASION@,
        SPEECH_EVASION@,
        MEDIA_DEVICES_EVASION@,
        BLUETOOTH_EVASION@,
        TIMEZONE_EVASION@,
    ]
}

/// The modules of a script.
pub open spec fn modules(aggressive: bool, perturbing: bool) -> Seq<Seq<char>> {
    base_modules() + (if aggressive {
        seq![CDP_EVASION@]
    } else {
        Seq::empty()
    }) + (if perturbing {
        seq![FINGERPRINT_EVASION@]
    } else {
        Seq::empty()
    })
}

/// The modules of a script.
fn module_list(aggressive: bool, perturbing: bool) -> (list: Vec<String>)
    ensures
        string_views(list@) == modules(aggressive, perturbing),
{
    let mut list: Vec<String> = vec![
        NATIVE_TOSTRING_EVASION.to_string(),
        WEBDRIVER_EVASION.to_string(),
        CHROME_RUNTIME_EVASION.to_string(),
        PERMISSIONS_EVASION.to_string(),
        PLUGINS_EVASION.to_string(),
        NAVIGATOR_PROPS_EVASION.to_string(),
        HEADLESS_EVASION.to_string(),
        BATTERY_EVASION.to_string(),
        NAVIGATOR_EXTRA_EVASION.to_string(),
        WEBRTC_EVASION.to_string(),
        SPEECH_EVASION.to_string(),
        MEDIA_DEVICES_EVASION.to_string(),
        BLUETOOTH_EVASION.to_string(),
        TIMEZONE_EVASION.to_string(),
    ];
    if aggressive {
        list.push(CDP_EVASION.to_string());
    }
    if perturbing {
        list.push(FINGERPRINT_EVASION.to_string());
    }
    assert(string_views(list@) =~= modules(aggressive, perturbing));
    list
}

/// A JavaScript string literal in single quotes.
pub open spec fn literal(text: Seq<char>) -> Seq<char> {
    "'"@ + escaped(text) + "'"@
}

/// A JavaScript array of string literals.
pub open spec fn literal_list(texts: Seq<Seq<char>>) -> Seq<char> {
    "["@ + join(texts.map_values(|t: Seq<char>| literal(t)), ","@) + "]"@
}

/// A JavaScript array of string literals.
fn literals(texts: &Vec<String>) -> (out: String)
    ensures
        out@ == literal_list(string_views(texts@)),
{
    let ghost all = string_views(texts@);
    let mut parts: Vec<String> = Vec::new();
    while parts.len() < texts.len()
        invariant
            parts.len() <= texts.len(),
            all == string_views(texts@),
            forall|j: int| 0 <= j < parts.len() ==> (#[trigger] parts@[j])@ == literal(all[j]),
        decreases texts.len() - parts.len(),
    {
        let text = &texts[parts.len()];
        let body = escape_js_string(text.as_str());
        parts.push(concat3("'", body.as_str(), "'"));
    }
    assert(string_views(parts@) =~= all.map_values(|t: Seq<char>| literal(t)));
    let body = joined(&parts, ",");
    concat3("[", body.as_str(), "]")
}

/// The first of the languages, or nothing.
pub open spec fn first_language(languages: Seq<Seq<char>>) -> Seq<char> {
    if languages.len() > 0 {
        languages[0]
    } else {
        Seq::empty()
    }
}

/// The modules in a function of their own, called at once.
pub open spec fn wrapped(list: Seq<Seq<char>>) -> Seq<char> {
    "(function(){"@ + join(list, "\n"@) + "})();"@
}

/// A script with its places filled in from the time zone and the identity.
pub open spec fn filled(script: Seq<char>, timezone: Seq<char>, fp: FingerprintView) -> Seq<char> {
    let s1 = replace_all(script, "__EOKA_TIMEZONE__"@, escaped(timezone));
    let s2 = replace_all(s1, "__EOKA_PLATFORM__"@, escaped(nav_platform_of(fp.platform)));
    let s3 = replace_all(s2, "__EOKA_LANGUAGES__"@, literal_list(fp.languages));
    let s4 = replace_all(s3, "__EOKA_LANGUAGE__"@, escaped(first_language(fp.languages)));
    let s5 = replace_all(s4, "__EOKA_HW__"@, digits(fp.hardware_concurrency as nat));
    let s6 = replace_all(s5, "__EOKA_MEM__"@, digits(fp.device_memory as nat));
    let s7 = replace_all(s6, "__EOKA_WEBGL_VENDOR__"@, escaped(fp.webgl_vendor));
    let s8 = replace_all(s7, "__EOKA_WEBGL_RENDERER__"@, escaped(fp.webgl_renderer));
    replace_all(s8, "__EOKA_NOISE_SEED__"@, digits(fp.noise_seed as nat))
}

/// The script for a configuration and an identity.
pub open spec fn script_for(config: StealthConfig, fp: FingerprintView) -> Seq<char> {
    filled(
        wrapped(
            modules(
                config.aggressive_cdp_evasion,
                config.webgl_spoof || config.canvas_spoof || config.audio_spoof,
            ),
        ),
        match config.timezone {
            Some(tz) => tz@,
            None => fp.timezone,
        },
        fp,
    )
}

fn fill(script: String, place: &str, value: &str) -> (out: String)
    requires
        place@.len() > 0,
    ensures
        out@ == replace_all(script@, place@, value@),
{
    replace(script.as_str(), place, value)
}

/// The script for a configuration and an identity.
pub fn build_evasion_script_for(config: &StealthConfig, fp: &Fingerprint) -> (script: String)
    ensures
        script@ == script_for(*config, fp@),
{
    proof {
        reveal_strlit("__EOKA_TIMEZONE__");
        reveal_strlit("__EOKA_PLATFORM__");
        reveal_strlit("__EOKA_LANGUAGES__");
        reveal_strlit("__EOKA_LANGUAGE__");
        reveal_strlit("__EOKA_HW__");
        reveal_strlit("__EOKA_MEM__");
        reveal_strlit("__EOKA_WEBGL_VENDOR__");
        reveal_strlit("__EOKA_WEBGL_RENDERER__");
        reveal_strlit("__EOKA_NOISE_SEED__");
        reveal_strlit("");
    }
    let timezone = match &config.timezone {
        Some(tz) => tz.clone(),
        None => fp.timezone.clone(),
    };
    let language = if fp.languages.len() > 0 {
        fp.languages[0].clone()
    } else {
        "".to_string()
    };
    assert(language@ =~= first_language(fp@.languages));
    let list = module_list(
        config.aggressive_cdp_evasion,
        config.webgl_spoof || config.canvas_spoof || config.audio_spoof,
    );
    let body = joined(&list, "\n");
    let script = concat3("(function(){", body.as_str(), "})();");
    let script = fill(
        script,
        "__EOKA_TIMEZONE__",
        escape_js_string(timezone.as_str()).as_str(),
    );
    let script = fill(script, "__EOKA_PLATFORM__", escape_js_string(fp.nav_platform()).as_str());
    let script = fill(script, "__EOKA_LANGUAGES__", literals(&fp.languages).as_str());
    let script = fill(
        script,
        "__EOKA_LANGUAGE__",
        escape_js_string(language.as_str()).as_str(),
    );
    let script = fill(
        script,
        "__EOKA_HW__",
        decimal(fp.hardware_concurrency as u64).as_str(),
    );
    let script = fill(script, "__EOKA_MEM__", decimal(fp.device_memory as u64).as_str());
    let script = fill(
        script,
        "__EOKA_WEBGL_VENDOR__",
        escape_js_string(fp.webgl_vendor.as_str()).as_str(),
    );
    let script = fill(
        script,
        "__EOKA_WEBGL_RENDERER__",
        escape_js_string(fp.webgl_renderer.as_str()).as_str(),
    );
    fill(script, "__EOKA_NOISE_SEED__", decimal(fp.noise_seed as u64).as_str())
}

/// The script for a configuration. Chance decides about the identity where the
/// configuration does not.
pub fn build_evasion_script(config: &StealthConfig) -> (script: String)
    ensures
        exists|fp: FingerprintView|
            some_identity(opt_view(config.user_agent), opt_view(config.timezone), fp) && script@
                == #[trigger] script_for(*config, fp),
{
    let user_agent: Option<&str> = match &config.user_agent {
        Some(ua) => Some(ua.as_str()),
        None => None,
    };
    let timezone: Option<&str> = match &config.timezone {
        Some(tz) => Some(tz.as_str()),
        None => None,
    };
    let fp = Fingerprint::resolve(user_agent, timezone);
    let script = build_evasion_script_for(config, &fp);
    assert(some_identity(opt_view(config.user_agent), opt_view(config.timezone), fp@));
    assert(script@ == script_for(*config, fp@));
    script
}

/// The modules that every script holds come first and in the same order, whatever
/// the configuration adds.
pub proof fn law_base_modules_always_present(aggressive: bool, perturbing: bool)
    ensures
        base_modules().is_prefix_of(modules(aggressive, perturbing)),
        modules(aggressive, perturbing).contains(CDP_EVASION@) <== aggressive,
        modules(aggressive, perturbing).contains(FINGERPRINT_EVASION@) <== perturbing,
        modules(aggressive, perturbing).len() == base_modules().len() + (if aggressive {
            1int
        } else {
            0
        }) + (if perturbing {
            1int
        } else {
            0
        }),
{
    let list = modules(aggressive, perturbing);
    assert(list.take(base_modules().len() as int) =~= base_modules());
    if aggressive {
        assert(list[14] == CDP_EVASION@);
    }
    if perturbing {
        assert(list.last() == FINGERPRINT_EVASION@);
    }
}

/// Whatever the configuration, the script is made of these modules.
pub proof fn law_modules_of_every_script(aggressive: bool, perturbing: bool)
    ensures
        modules(aggressive, perturbing).contains(NATIVE_TOSTRING_EVASION@),
        modules(aggressive, perturbing).contains(WEBDRIVER_EVASION@),
        modules(aggressive, perturbing).contains(CHROME_RUNTIME_EVASION@),
        modules(aggressive, perturbing).contains(PERMISSIONS_EVASION@),
        modules(aggressive, perturbing).contains(PLUGINS_EVASION@),
        modules(aggressive, perturbing).contains(NAVIGATOR_PROPS_EVASION@),
        modules(aggressive, perturbing).contains(HEADLESS_EVASION@),
        modules(aggressive, perturbing).contains(BATTERY_EVASION@),
        modules(aggressive, perturbing).contains(NAVIGATOR_EXTRA_EVASION@),
        modules(aggressive, perturbing).contains(WEBRTC_EVASION@),
        modules(aggressive, perturbing).contains(SPEECH_EVASION@),
        modules(aggressive, perturbing).contains(MEDIA_DEVICES_EVASION@),
        modules(aggressive, perturbing).contains(BLUETOOTH_EVASION@),
        modules(aggressive, perturbing).contains(TIMEZONE_EVASION@),
        modules(aggressive, perturbing)[0] == NATIVE_TOSTRING_EVASION@,
{
    let list = modules(aggressive, perturbing);
    assert(list[0] == NATIVE_TOSTRING_EVASION@);
    assert(list[1] == WEBDRIVER_EVASION@);
    assert(list[2] == CHROME_RUNTIME_EVASION@);
    assert(list[3] == PERMISSIONS_EVASION@);
    assert(list[4] == PLUGINS_EVASION@);
    assert(list[5] == NAVIGATOR_PROPS_EVASION@);
    assert(list[6] == HEADLESS_EVASION@);
    assert(list[7] == BATTERY_EVASION@);
    assert(list[8] == NAVIGATOR_EXTRA_EVASION@);
    assert(list[9] == WEBRTC_EVASION@);
    assert(list[10] == SPEECH_EVASION@);
    assert(list[11] == MEDIA_DEVICES_EVASION@);
    assert(list[12] == BLUETOOTH_EVASION@);
    assert(list[13] == TIMEZONE_EVASION@);
}

/// The modules stand one to a line in a function that is called at once.
pub proof fn law_modules_are_called_at_once(first: Seq<char>, second: Seq<char>)
    ensures
        wrapped(seq![first]) == "(function(){"@ + first + "})();"@,
        wrapped(seq![first, second]) == "(function(){"@ + first + "\n"@ + second + "})();"@,
{
    reveal_with_fuel(join, 3);
    assert(seq![first, second].drop_last() =~= seq![first]);
    assert(seq![first, second].skip(1) =~= seq![second]);
    assert(wrapped(seq![first, second]) =~= "(function(){"@ + first + "\n"@ + second
        + "})();"@);
}

/// The first language is the one that the list begins with, and none where there is
/// none.
pub proof fn law_first_language(first: Seq<char>, others: Seq<Seq<char>>)
    ensures
        first_language(seq![first] + others) == first,
        first_language(Seq::empty()) == Seq::<char>::empty(),
{
}

} // verus!
