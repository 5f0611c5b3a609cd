//! Colours, and how they follow the idle clock.
//!
//! The terminal build stays theme-neutral: it borrows the terminal's own colours, so it
//! looks right in whatever theme the user runs. The web build has no terminal to borrow
//! from, so it ships an explicit gruvbox palette.

use crate::canvas::Color;
use crate::session::{App, Phase, Session};
use crate::time::{Duration, Instant};
use vstd::prelude::*;

verus! {

/// Where the program runs.
#[derive(Clone, Copy, Debug, PartialEq, Eq, Structural)]
pub enum Platform {
    Native,
    Web,
}

/// A colour that can be mixed: red, green and blue.
pub type Mix = (u8, u8, u8);

/// The colours of a platform: a [`Color`] where it is drawn as it is, a [`Mix`] where it is
/// an end of a fade.
#[derive(Clone, Copy, Debug, PartialEq, Eq)]
pub struct Theme {
    /// Header and end-screen hints.
    pub muted: Color,
    /// Live text, before any fade.
    pub safe_fg: Color,
    pub fade_from: Mix,
    pub fade_to: Mix,
    pub border_calm: Mix,
    pub danger: Mix,
    pub won: Color,
    pub lost: Color,
    /// End-screen sub-line.
    pub detail: Color,
}

/// A colour, or a point on the way from one to another: `part` of `whole` along it, and no
/// further than its end.
#[derive(Clone, Copy, Debug, PartialEq, Eq)]
pub enum Shade {
    Plain(Color),
    Blend { from: Mix, to: Mix, part: Duration, whole: Duration },
}

/// A mix as it is drawn.
pub open spec fn mixed(mix: Mix) -> Color {
    Color::Rgb(mix.0, mix.1, mix.2)
}

/// A mix as it is drawn.
pub fn mix_color(mix: Mix) -> (color: Color)
    ensures
        color == mixed(mix),
{
    Color::Rgb(mix.0, mix.1, mix.2)
}

impl Shade {
    /// The colour of the shade: `blend` where it is on its way, and where it has come to an
    /// end, that end.
    pub open spec fn settled(self, blend: Color) -> Color {
        match self {
            Shade::Plain(color) => color,
            Shade::Blend { from, to, part, whole } => if part.nanos >= whole.nanos {
                mixed(to)
            } else {
                blend
            },
        }
    }

    /// The colour of the shade: `blend` where it is on its way, and where it has come to an
    /// end, that end.
    pub fn settle(&self, blend: Color) -> (color: Color)
        ensures
            color == self.settled(blend),
    {
        match *self {
            Shade::Plain(color) => color,
            Shade::Blend { from: _, to, part, whole } => {
                if part.nanos >= whole.nanos {
                    mix_color(to)
                } else {
                    blend
                }
            },
        }
    }
}

impl Theme {
    /// The colours of `platform`.
    pub open spec fn on(platform: Platform) -> Theme {
        match platform {
            Platform::Native => Theme {
                muted: Color::DarkGray,
                safe_fg: Color::Reset,
                fade_from: (220, 220, 220),
                fade_to: (90, 90, 90),
                border_calm: (60, 60, 60),
                danger: (200, 40, 40),
                won: Color::Green,
                lost: Color::Red,
                detail: Color::Gray,
            },
            Platform::Web => Theme {
                muted: Color::Rgb(0x92, 0x83, 0x74),
                safe_fg: Color::Rgb(0xeb, 0xdb, 0xb2),
                fade_from: (0xeb, 0xdb, 0xb2),
                fade_to: (0x66, 0x5c, 0x54),
                border_calm: (0x50, 0x49, 0x45),
                danger: (0xfb, 0x49, 0x34),
                won: Color::Rgb(0xb8, 0xbb, 0x26),
                lost: Color::Rgb(0xfb, 0x49, 0x34),
                detail: Color::Rgb(0xa8, 0x99, 0x84),
            },
        }
    }

    /// The colours of `platform`.
    pub fn of(platform: Platform) -> (theme: Theme)
        ensures
            theme == Theme::on(platform),
    {
        match platform {
            Platform::Native => Theme {
                muted: Color::DarkGray,
                safe_fg: Color::Reset,
                fade_from: (220, 220, 220),
                fade_to: (90, 90, 90),
                border_calm: (60, 60, 60),
                danger: (200, 40, 40),
                won: Color::Green,
                lost: Color::Red,
                detail: Color::Gray,
            },
            Platform::Web => Theme {
                muted: Color::Rgb(0x92, 0x83, 0x74),
                safe_fg: Color::Rgb(0xeb, 0xdb, 0xb2),
                fade_from: (0xeb, 0xdb, 0xb2),
                fade_to: (0x66, 0x5c, 0x54),
                border_calm: (0x50, 0x49, 0x45),
                danger: (0xfb, 0x49, 0x34),
                won: Color::Rgb(0xb8, 0xbb, 0x26),
                lost: Color::Rgb(0xfb, 0x49, 0x34),
                detail: Color::Rgb(0xa8, 0x99, 0x84),
            },
        }
    }
}

impl Session {
    /// How long a pause lasts before the text begins to fade.
    pub open spec fn fade_start(self) -> Duration {
        self.idle_limit.less(self.fade_window)
    }

    /// Whether a pause has lasted so long that the text fades.
    pub open spec fn fading(self, now: Instant) -> bool {
        self.idle(now).nanos > self.fade_start().nanos
    }

    /// The way between two colours, as far as the pause has come in the fade window.
    pub open spec fn fade(self, from: Mix, to: Mix, now: Instant) -> Shade {
        Shade::Blend {
            from,
            to,
            part: self.idle(now).less(self.fade_start()),
            whole: self.fade_window,
        }
    }

    /// The shade of the text.
    pub open spec fn text_shade(self, theme: Theme, now: Instant) -> Shade {
        if self.phase == Phase::Won || !self.fading(now) {
            Shade::Plain(theme.safe_fg)
        } else {
            self.fade(theme.fade_from, theme.fade_to, now)
        }
    }

    /// The shade of the border.
    pub open spec fn border_shade(self, theme: Theme, now: Instant) -> Shade {
        if self.phase == Phase::Dying || self.phase == Phase::Dead {
            Shade::Plain(mixed(theme.danger))
        } else if self.phase != Phase::Writing || !self.fading(now) {
            Shade::Plain(mixed(theme.border_calm))
        } else {
            self.fade(theme.border_calm, theme.danger, now)
        }
    }
}

/// The writing colour: from bright to danger-dim as idle time rises. It stops at a dim
/// tone, not black, so the text stays readable right up until it's wiped.
pub fn fade_color(app: &App, theme: &Theme, now: Instant) -> (shade: Shade)
    ensures
        shade == app@.text_shade(*theme, now),
{
    if app.phase == Phase::Won {
        return Shade::Plain(theme.safe_fg);
    }
    let idle = now.duration_since(app.last_key);
    let fade_start = app.idle_limit.saturating_sub(app.fade_window);
    if idle.nanos <= fade_start.nanos {
        return Shade::Plain(theme.safe_fg);
    }
    Shade::Blend {
        from: theme.fade_from,
        to: theme.fade_to,
        part: idle.saturating_sub(fade_start),
        whole: app.fade_window,
    }
}

/// The colour of the border: pushed toward red over the same window the text fades, so the
/// whole frame reddens as erasure approaches.
pub fn border_color(app: &App, theme: &Theme, now: Instant) -> (shade: Shade)
    ensures
        shade == app@.border_shade(*theme, now),
{
    if app.phase == Phase::Dying || app.phase == Phase::Dead {
        return Shade::Plain(mix_color(theme.danger));
    }
    if app.phase != Phase::Writing {
        return Shade::Plain(mix_color(theme.border_calm));
    }
    let idle = now.duration_since(app.last_key);
    let fade_start = app.idle_limit.saturating_sub(app.fade_window);
    if idle.nanos <= fade_start.nanos {
        return Shade::Plain(mix_color(theme.border_calm));
    }
    Shade::Blend {
        from: theme.border_calm,
        to: theme.danger,
        part: idle.saturating_sub(fade_start),
        whole: app.fade_window,
    }
}

/// While writing, text and border fade over the same window: both are plain or both have
/// come equally far.
pub proof fn law_text_and_border_fade_together(s: Session, theme: Theme, now: Instant)
    requires
        s.phase == Phase::Writing,
    ensures
        s.text_shade(theme, now) is Blend <==> s.border_shade(theme, now) is Blend,
        s.text_shade(theme, now) matches Shade::Blend { part, whole, .. } ==> {
            &&& s.border_shade(theme, now)->part == part
            &&& s.border_shade(theme, now)->whole == whole
        },
{
}

/// A fade has begun but not ended as long as the pause is within the limit, and it ends
/// where the limit is reached.
pub proof fn law_fade_ends_at_the_limit(s: Session, theme: Theme, now: Instant)
    requires
        s.phase == Phase::Writing,
        s.fade_window.nanos <= s.idle_limit.nanos,
        s.text_shade(theme, now) is Blend,
    ensures
        s.text_shade(theme, now)->part.nanos > 0,
        s.text_shade(theme, now)->part.nanos >= s.text_shade(theme, now)->whole.nanos <==> s.idle(
            now,
        ).nanos >= s.idle_limit.nanos,
{
}

/// At the moment the words die, text and border have the colours that their fades lead to.
pub proof fn law_fade_is_complete_when_words_die(
    s: Session,
    theme: Theme,
    now: Instant,
    blend: Color,
)
    requires
        s.phase == Phase::Writing,
        0 < s.fade_window.nanos <= s.idle_limit.nanos,
        s.idle(now).nanos >= s.idle_limit.nanos,
    ensures
        s.text_shade(theme, now).settled(blend) == mixed(theme.fade_to),
        s.border_shade(theme, now).settled(blend) == mixed(theme.danger),
{
}

/// A text that has been saved does not fade, however long you wait.
pub proof fn law_saved_text_does_not_fade(s: Session, theme: Theme, now: Instant)
    requires
        s.phase == Phase::Won,
    ensures
        s.text_shade(theme, now) == Shade::Plain(theme.safe_fg),
        s.border_shade(theme, now) == Shade::Plain(mixed(theme.border_calm)),
{
}

/// How far a fade has come: while a pause lasts no longer than the limit less the window,
/// nothing fades; from then on the part that has faded is what the pause has lasted longer.
pub proof fn law_fade_follows_the_pause(s: Session, theme: Theme, now: Instant)
    requires
        s.phase == Phase::Writing,
        s.fade_window.nanos <= s.idle_limit.nanos,
        s.last_key.nanos <= now.nanos,
    ensures
        ({
            let pause = now.nanos - s.last_key.nanos;
            let start = s.idle_limit.nanos - s.fade_window.nanos;
            &&& pause <= start ==> s.text_shade(theme, now) == Shade::Plain(theme.safe_fg)
                && s.border_shade(theme, now) == Shade::Plain(
                Color::Rgb(theme.border_calm.0, theme.border_calm.1, theme.border_calm.2),
            )
            &&& pause > start ==> s.text_shade(theme, now) == (Shade::Blend {
                from: theme.fade_from,
                to: theme.fade_to,
                part: Duration { nanos: (pause - start) as u128 },
                whole: s.fade_window,
            }) && s.border_shade(theme, now) == (Shade::Blend {
                from: theme.border_calm,
                to: theme.danger,
                part: Duration { nanos: (pause - start) as u128 },
                whole: s.fade_window,
            })
        }),
{
}

/// Where the window is longer than the limit, the fade begins with the pause.
pub proof fn law_long_windows_fade_at_once(s: Session, theme: Theme, now: Instant)
    requires
        s.phase == Phase::Writing,
        s.fade_window.nanos > s.idle_limit.nanos,
    ensures
        s.idle(now).nanos == 0 ==> s.text_shade(theme, now) == Shade::Plain(theme.safe_fg)
            && s.border_shade(theme, now) == Shade::Plain(mixed(theme.border_calm)),
        s.idle(now).nanos > 0 ==> s.text_shade(theme, now) == (Shade::Blend {
            from: theme.fade_from,
            to: theme.fade_to,
            part: s.idle(now),
            whole: s.fade_window,
        }) && s.border_shade(theme, now) == (Shade::Blend {
            from: theme.border_calm,
            to: theme.danger,
            part: s.idle(now),
            whole: s.fade_window,
        }),
{
}

/// The border of a session whose words are dying or gone is in the colour of danger, and in
/// no other phase but while writing does it leave its calm. A text that is not saved goes on
/// fading as while writing.
pub proof fn law_shades_after_writing(s: Session, theme: Theme, now: Instant)
    requires
        s.phase != Phase::Writing,
    ensures
        s.phase == Phase::Dying || s.phase == Phase::Dead ==> s.border_shade(theme, now)
            == Shade::Plain(Color::Rgb(theme.danger.0, theme.danger.1, theme.danger.2)),
        s.phase == Phase::Won || s.phase == Phase::Menu ==> s.border_shade(theme, now)
            == Shade::Plain(
            Color::Rgb(theme.border_calm.0, theme.border_calm.1, theme.border_calm.2),
        ),
        s.phase == Phase::Won ==> s.text_shade(theme, now) == Shade::Plain(theme.safe_fg),
        s.phase != Phase::Won ==> s.text_shade(theme, now) == (Session {
            phase: Phase::Writing,
            ..s
        }).text_shade(theme, now),
{
}

/// A plain shade is its colour, a fade on its way the blend that is given, and a fade that
/// has come to its end the colour it leads to.
pub proof fn law_shades_settle(shade: Shade, blend: Color)
    ensures
        match shade {
            Shade::Plain(color) => shade.settled(blend) == color,
            Shade::Blend { from, to, part, whole } => {
                &&& part.nanos < whole.nanos ==> shade.settled(blend) == blend
                &&& part.nanos >= whole.nanos ==> shade.settled(blend) == Color::Rgb(
                    to.0,
                    to.1,
                    to.2,
                )
            },
        },
{
}

/// The terminal keeps to the colours of its own theme but for what fades, and the browser
/// has colours of its own. On both the text fades to something darker but not to black, and
/// the border reddens.
pub proof fn law_palettes()
    ensures
        ({
            let native = Theme::on(Platform::Native);
            let web = Theme::on(Platform::Web);
            &&& native.muted == Color::DarkGray && native.safe_fg == Color::Reset
            &&& native.won == Color::Green && native.lost == Color::Red
            &&& native.detail == Color::Gray
            &&& native.fade_from == (220u8, 220u8, 220u8) && native.fade_to == (90u8, 90u8, 90u8)
            &&& native.border_calm == (60u8, 60u8, 60u8) && native.danger == (200u8, 40u8, 40u8)
            &&& web.muted == Color::Rgb(146, 131, 116) && web.safe_fg == mixed(web.fade_from)
            &&& web.fade_from == (235u8, 219u8, 178u8) && web.fade_to == (102u8, 92u8, 84u8)
            &&& web.border_calm == (80u8, 73u8, 69u8) && web.danger == (251u8, 73u8, 52u8)
            &&& web.won == Color::Rgb(184, 187, 38) && web.lost == mixed(web.danger)
            &&& web.detail == Color::Rgb(168, 153, 132)
        }),
        forall|mix: Mix| #[trigger] mixed(mix) == Color::Rgb(mix.0, mix.1, mix.2),
{
}

} // verus!
