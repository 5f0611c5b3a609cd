use danger_write::clipboard::{clipboard_payload, clipboard_tools};

fn words(wayland: bool, x11: bool) -> Vec<String> {
    clipboard_tools(wayland, x11)
        .iter()
        .map(|tool| format!("{} {}", tool.command, tool.args.join(" ")).trim().to_string())
        .collect()
}

#[test]
fn tools_in_the_order_they_are_tried() {
    let everywhere = ["pbcopy", "clip.exe", "clip"];
    let x11 = ["xclip -selection clipboard", "xsel --clipboard --input"];
    assert_eq!(words(false, false), everywhere);
    assert_eq!(words(true, false), [&["wl-copy"][..], &everywhere].concat());
    assert_eq!(words(false, true), [&x11[..], &everywhere].concat());
    assert_eq!(words(true, true), [&["wl-copy"][..], &x11, &everywhere].concat());
}

#[test]
fn windows_tools_get_windows_line_ends() {
    assert_eq!(clipboard_payload("clip", "a\nb\n"), "a\r\nb\r\n");
    assert_eq!(clipboard_payload("clip.exe", "\n\n"), "\r\n\r\n");
    assert_eq!(clipboard_payload("clip.exe", "no line end"), "no line end");
    assert_eq!(clipboard_payload("clip", "kept\r\n"), "kept\r\r\n");
}

#[test]
fn other_tools_get_the_text_as_it_is() {
    for command in ["wl-copy", "xclip", "xsel", "pbcopy", "cli", "", "Clip"] {
        assert_eq!(clipboard_payload(command, "ä\nb\r\n"), "ä\nb\r\n");
    }
}

#[test]
fn windows_line_ends_can_be_taken_out_again() {
    let text = "one\ntwo\n\nthree";
    let payload = clipboard_payload("clip", text);
    assert_eq!(payload.replace("\r\n", "\n"), text);
    assert_eq!(payload, text.replace('\n', "\r\n"));
}
