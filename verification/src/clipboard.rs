//! Which clipboard tools to try, in which order, and what to feed them.

use crate::text::chars_of;
use vstd::prelude::*;

verus! {

/// A command that puts what it reads from its standard input on the clipboard.
#[derive(Debug)]
pub struct ClipboardTool {
    pub command: &'static str,
    pub args: Vec<&'static str>,
}

/// A tool as its words: the command and its arguments.
pub ghost struct ToolView {
    pub command: Seq<char>,
    pub args: Seq<Seq<char>>,
}

impl View for ClipboardTool {
    type V = ToolView;

    open spec fn view(&self) -> ToolView {
        ToolView {
            command: self.command@,
            args: self.args@.map_values(|arg: &'static str| arg@),
        }
    }
}

/// A tool without arguments.
pub open spec fn bare(command: Seq<char>) -> ToolView {
    ToolView { command, args: Seq::empty() }
}

/// The tools of a Wayland session.
pub open spec fn wayland_tools() -> Seq<ToolView> {
    seq![bare("wl-copy"@)]
}

/// The tools of an X11 session.
pub open spec fn x11_tools() -> Seq<ToolView> {
    seq![
        ToolView { command: "xclip"@, args: seq!["-selection"@, "clipboard"@] },
        ToolView { command: "xsel"@, args: seq!["--clipboard"@, "--input"@] },
    ]
}

/// The tools of macOS, of Windows seen from WSL, and of Windows.
pub open spec fn other_tools() -> Seq<ToolView> {
    seq![bare("pbcopy"@), bare("clip.exe"@), bare("clip"@)]
}

/// The tools to try, in order.
pub open spec fn candidates(wayland: bool, x11: bool) -> Seq<ToolView> {
    (if wayland {
        wayland_tools()
    } else {
        Seq::empty()
    }) + (if x11 {
        x11_tools()
    } else {
        Seq::empty()
    }) + other_tools()
}

/// A list of tools as their words.
pub open spec fn tool_views(tools: Seq<ClipboardTool>) -> Seq<ToolView> {
    tools.map_values(|tool: ClipboardTool| tool@)
}

/// The tools to try, in order: those of the display servers that are there, then those
/// that belong to no display server.
pub fn clipboard_tools(wayland: bool, x11: bool) -> (tools: Vec<ClipboardTool>)
    ensures
        tool_views(tools@) == candidates(wayland, x11),
{
    let mut tools: Vec<ClipboardTool> = Vec::new();
    if wayland {
        push_bare(&mut tools, "wl-copy");
    }
    if x11 {
        push_with(&mut tools, "xclip", "-selection", "clipboard");
        push_with(&mut tools, "xsel", "--clipboard", "--input");
    }
    push_bare(&mut tools, "pbcopy");
    push_bare(&mut tools, "clip.exe");
    push_bare(&mut tools, "clip");
    proof {
        assert(tool_views(tools@) =~= candidates(wayland, x11));
    }
    tools
}

/// Appends a tool without arguments to a list.
fn push_bare(tools: &mut Vec<ClipboardTool>, command: &'static str)
    ensures
        tool_views(final(tools)@) == tool_views(old(tools)@).push(bare(command@)),
{
    let ghost before = tool_views(tools@);
    tools.push(ClipboardTool { command, args: Vec::new() });
    proof {
        assert(tools@.last()@.args =~= Seq::<Seq<char>>::empty());
        assert(tool_views(tools@) =~= before.push(tools@.last()@));
    }
}

/// Appends a tool with two arguments to a list.
fn push_with(
    tools: &mut Vec<ClipboardTool>,
    command: &'static str,
    first: &'static str,
    second: &'static str,
)
    ensures
        tool_views(final(tools)@) == tool_views(old(tools)@).push(
            (ToolView { command: command@, args: seq![first@, second@] }),
        ),
{
    let ghost before = tool_views(tools@);
    tools.push(ClipboardTool { command, args: vec![first, second] });
    proof {
        assert(tools@.last()@.args =~= seq![first@, second@]);
        assert(tool_views(tools@) =~= before.push(tools@.last()@));
    }
}

/// Whether a command expects Windows line ends: one whose name begins with `clip`.
pub open spec fn wants_crlf(command: Seq<char>) -> bool {
    command.len() >= 4 && command.take(4) == "clip"@
}

/// `text` with a carriage return before every line feed.
pub open spec fn crlf(text: Seq<char>) -> Seq<char>
    decreases text.len(),
{
    if text.len() == 0 {
        Seq::empty()
    } else if text.last() == '\n' {
        crlf(text.drop_last()).push('\r').push('\n')
    } else {
        crlf(text.drop_last()).push(text.last())
    }
}

/// What to feed to `command` so that `text` comes to be on the clipboard.
pub fn clipboard_payload(command: &str, text: &str) -> (payload: String)
    ensures
        payload@ == (if wants_crlf(command@) {
            crlf(text@)
        } else {
            text@
        }),
{
    let name = chars_of(command);
    proof {
        reveal_strlit("clip");
    }
    let windows: bool = name.len() >= 4 && name[0] == 'c' && name[1] == 'l' && name[2] == 'i'
        && name[3] == 'p';
    proof {
        if name@.len() >= 4 {
            let head = name@.take(4);
            if windows {
                assert(head =~= "clip"@);
            } else {
                assert(head[0] == name@[0] && head[1] == name@[1] && head[2] == name@[2] && head[3]
                    == name@[3]);
            }
        }
        assert(windows == wants_crlf(command@));
    }
    let chars = chars_of(text);
    let mut payload = String::new();
    let mut i: usize = 0;
    while i < chars.len()
        invariant
            i <= chars.len(),
            payload@ == (if windows {
                crlf(chars@.take(i as int))
            } else {
                chars@.take(i as int)
            }),
        decreases chars.len() - i,
    {
        proof {
            assert(chars@.take(i + 1).drop_last() =~= chars@.take(i as int));
        }
        let c: char = chars[i];
        if windows && c == '\n' {
            payload.push('\r');
        }
        payload.push(c);
        i = i + 1;
        proof {
            assert(chars@.take(i - 1).push(c) =~= chars@.take(i as int));
        }
    }
    proof {
        assert(chars@.take(i as int) =~= chars@);
    }
    payload
}

/// In a payload with Windows line ends every line feed stands behind a carriage return.
pub proof fn law_crlf_ends_every_line(text: Seq<char>)
    ensures
        forall|i: int|
            0 <= i < crlf(text).len() && #[trigger] crlf(text)[i] == '\n' ==> i > 0 && crlf(
                text,
            )[i - 1] == '\r',
    decreases text.len(),
{
    if text.len() > 0 {
        let front = crlf(text.drop_last());
        law_crlf_ends_every_line(text.drop_last());
        assert forall|i: int|
            0 <= i < crlf(text).len() && #[trigger] crlf(text)[i] == '\n' implies i > 0 && crlf(
            text,
        )[i - 1] == '\r' by {
            if i < front.len() {
                assert(front[i] == '\n');
            }
        }
    }
}

/// Taking the carriage returns out again gives back a text that had none.
pub proof fn law_crlf_can_be_undone(text: Seq<char>)
    requires
        !text.contains('\r'),
    ensures
        crlf(text).filter(|c: char| c != '\r') == text,
    decreases text.len(),
{
    reveal(Seq::filter);
    if text.len() > 0 {
        let front = text.drop_last();
        assert(text.contains(text.last()));
        assert forall|c: char| front.contains(c) implies text.contains(c) by {
            let i = choose|i: int| 0 <= i < front.len() && front[i] == c;
            assert(text[i] == c);
        }
        law_crlf_can_be_undone(front);
        assert(front.push(text.last()) =~= text);
        let keep = |c: char| c != '\r';
        let shorter = crlf(front);
        if text.last() == '\n' {
            assert(shorter.push('\r').push('\n').drop_last() =~= shorter.push('\r'));
            assert(shorter.push('\r').drop_last() =~= shorter);
            assert(shorter.push('\r').filter(keep) == shorter.filter(keep));
        } else {
            assert(shorter.push(text.last()).drop_last() =~= shorter);
        }
    }
}

/// Windows line ends are put in character by character: a line feed becomes a carriage
/// return and a line feed, and every other character stays as it is.
pub proof fn law_crlf_changes_line_feeds_only(text: Seq<char>, c: char)
    ensures
        crlf(Seq::empty()) == Seq::<char>::empty(),
        c == '\n' ==> crlf(text.push(c)) == crlf(text) + seq!['\r', '\n'],
        c != '\n' ==> crlf(text.push(c)) == crlf(text) + seq![c],
{
    assert(text.push(c).drop_last() =~= text);
    assert(crlf(text).push('\r').push('\n') =~= crlf(text) + seq!['\r', '\n']);
    assert(crlf(text).push(c) =~= crlf(text) + seq![c]);
}

/// Texts that are put together are put on the clipboard as their parts would be.
pub proof fn law_crlf_of_parts(a: Seq<char>, b: Seq<char>)
    ensures
        crlf(a + b) == crlf(a) + crlf(b),
    decreases b.len(),
{
    if b.len() == 0 {
        assert(a + b =~= a);
        assert(crlf(a) + crlf(b) =~= crlf(a));
    } else {
        law_crlf_of_parts(a, b.drop_last());
        assert((a + b).drop_last() =~= a + b.drop_last());
        assert(crlf(a + b) =~= crlf(a) + crlf(b));
    }
}

/// Only the tools of Windows, whose names begin with `clip`, are fed Windows line ends.
pub proof fn law_only_windows_wants_crlf(command: Seq<char>)
    ensures
        wants_crlf(command) <==> command.len() >= 4 && command[0] == 'c' && command[1] == 'l'
            && command[2] == 'i' && command[3] == 'p',
{
    reveal_strlit("clip");
    if command.len() >= 4 {
        let head = command.take(4);
        assert(head[0] == command[0] && head[1] == command[1] && head[2] == command[2] && head[3]
            == command[3]);
        if command[0] == 'c' && command[1] == 'l' && command[2] == 'i' && command[3] == 'p' {
            assert(head =~= "clip"@);
        }
    }
}

/// The tools of a display server are tried exactly where it is there, Wayland's before those
/// of X11, and behind them always those that need none.
pub proof fn law_tools_follow_the_display(wayland: bool, x11: bool)
    ensures
        ({
            let tools = candidates(wayland, x11);
            let none = Seq::<Seq<char>>::empty();
            let first: int = if wayland {
                1
            } else {
                0
            };
            let last: int = first + (if x11 {
                2int
            } else {
                0
            });
            &&& tools.len() == last + 3
            &&& wayland ==> tools[0] == (ToolView { command: "wl-copy"@, args: none })
            &&& x11 ==> tools[first] == (ToolView {
                command: "xclip"@,
                args: seq!["-selection"@, "clipboard"@],
            })
            &&& x11 ==> tools[first + 1] == (ToolView {
                command: "xsel"@,
                args: seq!["--clipboard"@, "--input"@],
            })
            &&& tools[last] == (ToolView { command: "pbcopy"@, args: none })
            &&& tools[last + 1] == (ToolView { command: "clip.exe"@, args: none })
            &&& tools[last + 2] == (ToolView { command: "clip"@, args: none })
        }),
{
}

/// A list of tools is read as it was given: command and arguments, in order.
pub proof fn law_tools_are_read_as_given(tools: Seq<ClipboardTool>, i: int)
    requires
        0 <= i < tools.len(),
    ensures
        tool_views(tools).len() == tools.len(),
        tool_views(tools)[i].command == tools[i].command@,
        tool_views(tools)[i].args.len() == tools[i].args@.len(),
        forall|k: int|
            0 <= k < tools[i].args@.len() ==> #[trigger] tool_views(tools)[i].args[k]
                == tools[i].args@[k]@,
{
}

} // verus!
