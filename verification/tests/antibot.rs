use voidweb::antibot::{
    antibot_js, BOT_REVEAL_HEADERS, CHROME_128_CIPHERS, CHROME_128_EXTENSIONS, CHROME_H2_HEADER_ORDER,
    CHROME_H2_SETTINGS, CHROME_H2_WINDOW_UPDATE,
};

#[test]
fn script_is_the_injected_shield() {
    let js = antibot_js();
    assert!(js.starts_with("\n    // NebulaBrowser Anti-Bot Shield"));
    assert!(js.contains("Object.defineProperty(navigator, 'webdriver'"));
    assert!(js.trim_end().ends_with("})();"));
}

#[test]
fn fingerprint_constants() {
    assert_eq!(BOT_REVEAL_HEADERS.len(), 5);
    assert_eq!(BOT_REVEAL_HEADERS[1], "x-automation");
    assert!(CHROME_128_CIPHERS.starts_with("TLS_AES_128_GCM_SHA256:"));
    assert!(CHROME_128_CIPHERS.ends_with("AES128-SHA:AES256-SHA"));
    assert_eq!(CHROME_128_EXTENSIONS.len(), 17);
    assert_eq!(CHROME_128_EXTENSIONS[2], 0xff01);
    assert_eq!(CHROME_H2_SETTINGS[3], (4, 6291456));
    assert_eq!(CHROME_H2_WINDOW_UPDATE, 15663105);
    assert_eq!(CHROME_H2_HEADER_ORDER.len(), 18);
    assert_eq!(CHROME_H2_HEADER_ORDER[0], ":method");
}
