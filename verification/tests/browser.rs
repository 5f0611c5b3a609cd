use danger_write::browser::{browser_key, BrowserKey};

#[test]
fn shortcuts_are_left_to_the_browser() {
    assert_eq!(browser_key("c", true, false, false), BrowserKey::Leave);
    assert_eq!(browser_key("c", false, true, false), BrowserKey::Leave);
    assert_eq!(browser_key("r", false, false, true), BrowserKey::Leave);
}

#[test]
fn keys_of_the_session_are_swallowed() {
    for key in ["a", "/", " ", "é", "日", "Enter", "Tab", "Backspace", "ArrowUp", "ArrowDown"] {
        assert_eq!(browser_key(key, false, false, false), BrowserKey::Swallow, "{key}");
    }
}

#[test]
fn other_keys_are_shared() {
    for key in ["", "F5", "Escape", "ArrowLeft", "Shift", "enter", "👍🏽"] {
        assert_eq!(browser_key(key, false, false, false), BrowserKey::Share, "{key}");
    }
}
