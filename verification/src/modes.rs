//! Display and sorting modes, with their integer codes on the bridge and
//! their names in the settings file.
use vstd::prelude::*;

use crate::text::{chars_eq, chars_of, is_ws, lower_char, lower_seq, to_ascii_lower, trim, trim_end, trim_start, trim_str, upper_char, upper_seq};

verus! {

/// Whether characters spell a string literal.
pub fn eq_lit(v: &Vec<char>, lit: &str) -> (r: bool)
    ensures
        r == (v@ == lit@),
{
    let l = chars_of(lit);
    chars_eq(v, &l)
}

/// Trimmed, ASCII-lowercased text of a settings value.
pub open spec fn settings_key(raw: Seq<char>) -> Seq<char> {
    lower_seq(trim(raw))
}

fn settings_key_of(raw: &str) -> (k: Vec<char>)
    ensures
        k@ == settings_key(raw@),
{
    let t = trim_str(raw);
    to_ascii_lower(&t)
}

/// Order of albums under an artist in the library tree.
#[derive(Debug, Clone, Copy, PartialEq, Eq, Structural, Default)]
pub enum LibrarySortMode {
    #[default]
    Year,
    Title,
}

impl LibrarySortMode {
    pub open spec fn spec_from_i32(value: i32) -> LibrarySortMode {
        if value == 1 {
            LibrarySortMode::Title
        } else {
            LibrarySortMode::Year
        }
    }

    pub open spec fn code(self) -> i32 {
        match self {
            LibrarySortMode::Year => 0,
            LibrarySortMode::Title => 1,
        }
    }

    /// `1` is title order; any other code is year order.
    pub fn from_i32(value: i32) -> (m: Self)
        ensures
            m == Self::spec_from_i32(value),
    {
        if value == 1 {
            LibrarySortMode::Title
        } else {
            LibrarySortMode::Year
        }
    }

    pub fn to_i32(self) -> (v: i32)
        ensures
            v == self.code(),
    {
        match self {
            LibrarySortMode::Year => 0,
            LibrarySortMode::Title => 1,
        }
    }
}

/// Spectrogram channel layout.
#[derive(Debug, Clone, Copy, PartialEq, Eq, Structural)]
pub enum SpectrogramViewMode {
    Downmix,
    PerChannel,
}

pub open spec fn view_mode_parse(key: Seq<char>) -> Option<SpectrogramViewMode> {
    if key == "downmix"@ || key == "single"@ || key == "mono"@ || key == "0"@ {
        Some(SpectrogramViewMode::Downmix)
    } else if key == "per_channel"@ || key == "per-channel"@ || key == "channels"@ || key
        == "1"@ {
        Some(SpectrogramViewMode::PerChannel)
    } else {
        None
    }
}

impl SpectrogramViewMode {
    pub open spec fn spec_from_i32(value: i32) -> SpectrogramViewMode {
        if value == 1 {
            SpectrogramViewMode::PerChannel
        } else {
            SpectrogramViewMode::Downmix
        }
    }

    pub open spec fn code(self) -> i32 {
        match self {
            SpectrogramViewMode::Downmix => 0,
            SpectrogramViewMode::PerChannel => 1,
        }
    }

    pub open spec fn name(self) -> Seq<char> {
        match self {
            SpectrogramViewMode::Downmix => "downmix"@,
            SpectrogramViewMode::PerChannel => "per_channel"@,
        }
    }

    pub fn from_i32(value: i32) -> (m: Self)
        ensures
            m == Self::spec_from_i32(value),
    {
        if value == 1 {
            SpectrogramViewMode::PerChannel
        } else {
            SpectrogramViewMode::Downmix
        }
    }

    pub fn to_i32(self) -> (v: i32)
        ensures
            v == self.code(),
    {
        match self {
            SpectrogramViewMode::Downmix => 0,
            SpectrogramViewMode::PerChannel => 1,
        }
    }

    /// Reads a settings value: surrounding whitespace and ASCII case are ignored.
    pub fn parse_settings_value(raw: &str) -> (m: Option<Self>)
        ensures
            m == view_mode_parse(settings_key(raw@)),
    {
        let k = settings_key_of(raw);
        if eq_lit(&k, "downmix") || eq_lit(&k, "single") || eq_lit(&k, "mono") || eq_lit(&k, "0") {
            Some(SpectrogramViewMode::Downmix)
        } else if eq_lit(&k, "per_channel") || eq_lit(&k, "per-channel") || eq_lit(&k, "channels")
            || eq_lit(&k, "1") {
            Some(SpectrogramViewMode::PerChannel)
        } else {
            None
        }
    }

    pub fn settings_value(self) -> (s: &'static str)
        ensures
            s@ == self.name(),
    {
        match self {
            SpectrogramViewMode::Downmix => "downmix",
            SpectrogramViewMode::PerChannel => "per_channel",
        }
    }
}

/// How the spectrogram scrolls.
#[derive(Debug, Clone, Copy, PartialEq, Eq, Structural)]
pub enum SpectrogramDisplayMode {
    Rolling,
    Centered,
}

pub open spec fn display_mode_parse(key: Seq<char>) -> Option<SpectrogramDisplayMode> {
    if key == "rolling"@ || key == "0"@ {
        Some(SpectrogramDisplayMode::Rolling)
    } else if key == "centered"@ || key == "centred"@ || key == "1"@ {
        Some(SpectrogramDisplayMode::Centered)
    } else {
        None
    }
}

impl SpectrogramDisplayMode {
    pub open spec fn name(self) -> Seq<char> {
        match self {
            SpectrogramDisplayMode::Rolling => "rolling"@,
            SpectrogramDisplayMode::Centered => "centered"@,
        }
    }

    /// Reads a settings value: surrounding whitespace and ASCII case are ignored.
    pub fn parse_settings_value(raw: &str) -> (m: Option<Self>)
        ensures
            m == display_mode_parse(settings_key(raw@)),
    {
        let k = settings_key_of(raw);
        if eq_lit(&k, "rolling") || eq_lit(&k, "0") {
            Some(SpectrogramDisplayMode::Rolling)
        } else if eq_lit(&k, "centered") || eq_lit(&k, "centred") || eq_lit(&k, "1") {
            Some(SpectrogramDisplayMode::Centered)
        } else {
            None
        }
    }

    pub fn settings_value(self) -> (s: &'static str)
        ensures
            s@ == self.name(),
    {
        match self {
            SpectrogramDisplayMode::Rolling => "rolling",
            SpectrogramDisplayMode::Centered => "centered",
        }
    }
}

/// Where the full-screen viewer opens.
#[derive(Debug, Clone, Copy, PartialEq, Eq, Structural)]
pub enum ViewerFullscreenMode {
    WithinWindow,
    WholeScreen,
}

pub open spec fn fullscreen_mode_parse(key: Seq<char>) -> Option<ViewerFullscreenMode> {
    if key == "within_window"@ {
        Some(ViewerFullscreenMode::WithinWindow)
    } else if key == "whole_screen"@ {
        Some(ViewerFullscreenMode::WholeScreen)
    } else {
        None
    }
}

impl ViewerFullscreenMode {
    pub open spec fn spec_from_i32(value: i32) -> ViewerFullscreenMode {
        if value == 1 {
            ViewerFullscreenMode::WholeScreen
        } else {
            ViewerFullscreenMode::WithinWindow
        }
    }

    pub open spec fn code(self) -> i32 {
        match self {
            ViewerFullscreenMode::WithinWindow => 0,
            ViewerFullscreenMode::WholeScreen => 1,
        }
    }

    pub open spec fn name(self) -> Seq<char> {
        match self {
            ViewerFullscreenMode::WithinWindow => "within_window"@,
            ViewerFullscreenMode::WholeScreen => "whole_screen"@,
        }
    }

    pub fn from_i32(value: i32) -> (m: Self)
        ensures
            m == Self::spec_from_i32(value),
    {
        if value == 1 {
            ViewerFullscreenMode::WholeScreen
        } else {
            ViewerFullscreenMode::WithinWindow
        }
    }

    pub fn to_i32(self) -> (v: i32)
        ensures
            v == self.code(),
    {
        match self {
            ViewerFullscreenMode::WithinWindow => 0,
            ViewerFullscreenMode::WholeScreen => 1,
        }
    }

    /// Reads a settings value: surrounding whitespace is ignored, case is not.
    pub fn parse_settings_value(raw: &str) -> (m: Option<Self>)
        ensures
            m == fullscreen_mode_parse(trim(raw@)),
    {
        let k = trim_str(raw);
        if eq_lit(&k, "within_window") {
            Some(ViewerFullscreenMode::WithinWindow)
        } else if eq_lit(&k, "whole_screen") {
            Some(ViewerFullscreenMode::WholeScreen)
        } else {
            None
        }
    }

    pub fn settings_value(self) -> (s: &'static str)
        ensures
            s@ == self.name(),
    {
        match self {
            ViewerFullscreenMode::WithinWindow => "within_window",
            ViewerFullscreenMode::WholeScreen => "whole_screen",
        }
    }
}

// ---------------------------------------------------------------------------
// Laws
// ---------------------------------------------------------------------------

/// A string with no whitespace at either end is its own trim.
pub proof fn lemma_trim_of_clean(s: Seq<char>)
    requires
        s.len() > 0,
        !crate::text::is_ws(s[0]),
        !crate::text::is_ws(s.last()),
    ensures
        trim(s) == s,
{
    crate::text::lemma_trim_start_skip(s, 0);
    assert(s.skip(0) =~= s);
    crate::text::lemma_trim_end_take(s, s.len() as int);
    assert(s.take(s.len() as int) =~= s);
}

/// The integer code of each mode decodes to that mode.
pub proof fn law_mode_codes_round_trip(
    a: LibrarySortMode,
    b: SpectrogramViewMode,
    c: ViewerFullscreenMode,
)
    ensures
        LibrarySortMode::spec_from_i32(a.code()) == a,
        SpectrogramViewMode::spec_from_i32(b.code()) == b,
        ViewerFullscreenMode::spec_from_i32(c.code()) == c,
{
}

/// The name that the settings file stores for each mode reads back as that mode.
pub proof fn law_mode_names_round_trip(
    b: SpectrogramViewMode,
    d: SpectrogramDisplayMode,
    c: ViewerFullscreenMode,
)
    ensures
        view_mode_parse(settings_key(b.name())) == Some(b),
        display_mode_parse(settings_key(d.name())) == Some(d),
        fullscreen_mode_parse(trim(c.name())) == Some(c),
{
    reveal_strlit("downmix");
    reveal_strlit("per_channel");
    reveal_strlit("rolling");
    reveal_strlit("centered");
    reveal_strlit("within_window");
    reveal_strlit("whole_screen");
    reveal_strlit("single");
    reveal_strlit("mono");
    reveal_strlit("0");
    reveal_strlit("1");
    reveal_strlit("per-channel");
    reveal_strlit("channels");
    reveal_strlit("centred");
    lemma_trim_of_clean(b.name());
    lemma_trim_of_clean(d.name());
    lemma_trim_of_clean(c.name());
    assert(lower_seq(b.name()) =~= b.name());
    assert(lower_seq(d.name()) =~= d.name());
}

/// Only whitespace.
pub open spec fn blank(s: Seq<char>) -> bool {
    forall|k: int| 0 <= k < s.len() ==> is_ws(#[trigger] s[k])
}

proof fn lemma_trim_start_blank_prefix(p: Seq<char>, y: Seq<char>)
    requires
        blank(p),
    ensures
        trim_start(p + y) == trim_start(y),
    decreases p.len(),
{
    if p.len() > 0 {
        assert((p + y)[0] == p[0]);
        assert((p + y).drop_first() =~= p.drop_first() + y);
        lemma_trim_start_blank_prefix(p.drop_first(), y);
    } else {
        assert(p + y =~= y);
    }
}

proof fn lemma_trim_start_blank(q: Seq<char>)
    requires
        blank(q),
    ensures
        trim_start(q).len() == 0,
    decreases q.len(),
{
    if q.len() > 0 {
        lemma_trim_start_blank(q.drop_first());
    }
}

proof fn lemma_trim_end_blank_suffix(y: Seq<char>, q: Seq<char>)
    requires
        blank(q),
    ensures
        trim_end(y + q) == trim_end(y),
    decreases q.len(),
{
    if q.len() > 0 {
        assert((y + q).last() == q.last());
        assert((y + q).drop_last() =~= y + q.drop_last());
        lemma_trim_end_blank_suffix(y, q.drop_last());
    } else {
        assert(y + q =~= y);
    }
}

proof fn lemma_trim_blank_suffix(y: Seq<char>, q: Seq<char>)
    requires
        blank(q),
    ensures
        trim_end(trim_start(y + q)) == trim_end(trim_start(y)),
    decreases y.len(),
{
    if y.len() == 0 {
        assert(y + q =~= q);
        lemma_trim_start_blank(q);
        assert(trim_start(q) =~= Seq::<char>::empty());
    } else if is_ws(y[0]) {
        assert((y + q)[0] == y[0]);
        assert((y + q).drop_first() =~= y.drop_first() + q);
        lemma_trim_blank_suffix(y.drop_first(), q);
    } else {
        assert((y + q)[0] == y[0]);
        lemma_trim_end_blank_suffix(y, q);
    }
}

proof fn lemma_upper_keeps_whitespace(c: char)
    ensures
        is_ws(upper_char(c)) == is_ws(c),
        lower_char(upper_char(c)) == lower_char(c),
{
}

proof fn lemma_trim_start_upper(x: Seq<char>)
    ensures
        trim_start(upper_seq(x)) == upper_seq(trim_start(x)),
    decreases x.len(),
{
    if x.len() > 0 {
        lemma_upper_keeps_whitespace(x[0]);
        assert(upper_seq(x)[0] == upper_char(x[0]));
        assert(upper_seq(x).drop_first() =~= upper_seq(x.drop_first()));
        lemma_trim_start_upper(x.drop_first());
    }
}

proof fn lemma_trim_end_upper(x: Seq<char>)
    ensures
        trim_end(upper_seq(x)) == upper_seq(trim_end(x)),
    decreases x.len(),
{
    if x.len() > 0 {
        lemma_upper_keeps_whitespace(x.last());
        assert(upper_seq(x).last() == upper_char(x.last()));
        assert(upper_seq(x).drop_last() =~= upper_seq(x.drop_last()));
        lemma_trim_end_upper(x.drop_last());
    }
}

/// A settings value reads the same whatever its case and whatever blanks
/// surround it: `"  CENTERED  "` names the centered display, as
/// `"centered"` does.
pub proof fn law_settings_values_ignore_case_and_blanks(p: Seq<char>, raw: Seq<char>, q: Seq<char>)
    requires
        blank(p),
        blank(q),
    ensures
        settings_key(p + upper_seq(raw) + q) == settings_key(raw),
        display_mode_parse(settings_key(p + upper_seq(raw) + q)) == display_mode_parse(settings_key(raw)),
        view_mode_parse(settings_key(p + upper_seq(raw) + q)) == view_mode_parse(settings_key(raw)),
{
    let u = upper_seq(raw);
    assert(p + u + q =~= p + (u + q));
    lemma_trim_start_blank_prefix(p, u + q);
    lemma_trim_blank_suffix(u, q);
    lemma_trim_start_upper(raw);
    lemma_trim_end_upper(trim_start(raw));
    let t = trim(raw);
    assert(trim(p + u + q) == upper_seq(t));
    assert forall|k: int| 0 <= k < t.len() implies #[trigger] lower_seq(upper_seq(t))[k] == lower_seq(t)[k] by {
        lemma_upper_keeps_whitespace(t[k]);
    }
    assert(lower_seq(upper_seq(t)) =~= lower_seq(t));
}

} // verus!
