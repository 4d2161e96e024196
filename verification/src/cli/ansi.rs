//! Colors and other styles of terminal output.
use crate::text;
use vstd::prelude::*;

verus! {

/// A color of the terminal.
#[derive(Debug, Clone, Copy, PartialEq, Eq, Structural)]
pub enum Color {
    /// One of the 256 indexed colors.
    AnsiValue(u8),
    Red,
    Yellow,
    Green,
}

/// Slate cyan.
pub const MUTED_CYAN: u8 = 73;

/// Soft grey.
pub const MUTED_GREY: u8 = 244;

/// Brick red.
pub const MUTED_RED: u8 = 131;

/// Amber.
pub const MUTED_YELLOW: u8 = 136;

/// Muted green.
pub const MUTED_GREEN: u8 = 71;

/// The faint background of a panel.
pub const BG_PANEL: u8 = 236;

impl Color {
    /// The parameters by which a color is selected.
    pub open spec fn code(self) -> Seq<char> {
        match self {
            Color::AnsiValue(n) => "5;"@ + text::spec_decimal(n as nat),
            Color::Red => "5;9"@,
            Color::Yellow => "5;11"@,
            Color::Green => "5;10"@,
        }
    }
}

/// The text that `crossterm::style::SetForegroundColor` writes. It selects the
/// color; where the environment asks for no color, it selects none.
#[verifier::external_body]
fn foreground(color: Color) -> (r: String)
    ensures
        r@ == "\x1b[38;"@ + color.code() + "m"@ || r@ == "\x1b[m"@,
{
    let color = match color {
        Color::AnsiValue(n) => crossterm::style::Color::AnsiValue(n),
        Color::Red => crossterm::style::Color::Red,
        Color::Yellow => crossterm::style::Color::Yellow,
        Color::Green => crossterm::style::Color::Green,
    };
    crossterm::style::SetForegroundColor(color).to_string()
}

/// The text that `crossterm::style::SetBackgroundColor` writes. It selects the
/// color; where the environment asks for no color, it selects none.
#[verifier::external_body]
fn background(index: u8) -> (r: String)
    ensures
        r@ == "\x1b[48;"@ + Color::AnsiValue(index).code() + "m"@ || r@ == "\x1b[m"@,
{
    crossterm::style::SetBackgroundColor(crossterm::style::Color::AnsiValue(index)).to_string()
}

/// The text that `crossterm::style::ResetColor` writes.
#[verifier::external_body]
fn reset_color() -> (r: String)
    ensures
        r@ == "\x1b[0m"@,
{
    crossterm::style::ResetColor.to_string()
}

/// The text that `crossterm::style::SetAttribute` writes for bold type.
#[verifier::external_body]
fn bold_attribute() -> (r: String)
    ensures
        r@ == "\x1b[1m"@,
{
    crossterm::style::SetAttribute(crossterm::style::Attribute::Bold).to_string()
}

/// The text that `crossterm::style::SetAttribute` writes to drop all attributes.
#[verifier::external_body]
fn reset_attribute() -> (r: String)
    ensures
        r@ == "\x1b[0m"@,
{
    crossterm::style::SetAttribute(crossterm::style::Attribute::Reset).to_string()
}

// ------------------------------------------------------------------- styles
/// A color that output is written in.
#[derive(Debug, Clone, Copy, PartialEq, Eq, Structural)]
pub enum Shade {
    Cyan,
    Grey,
    Red,
    Yellow,
    Green,
    BrightRed,
    BrightYellow,
    BrightGreen,
}

impl Shade {
    /// The color.
    pub open spec fn color(self) -> Color {
        match self {
            Shade::Cyan => Color::AnsiValue(MUTED_CYAN),
            Shade::Grey => Color::AnsiValue(MUTED_GREY),
            Shade::Red => Color::AnsiValue(MUTED_RED),
            Shade::Yellow => Color::AnsiValue(MUTED_YELLOW),
            Shade::Green => Color::AnsiValue(MUTED_GREEN),
            Shade::BrightRed => Color::Red,
            Shade::BrightYellow => Color::Yellow,
            Shade::BrightGreen => Color::Green,
        }
    }
}

/// Whether output is styled, and the texts that select the styles.
pub struct Ansi {
    on: bool,
    cyan: String,
    grey: String,
    red: String,
    yellow: String,
    green: String,
    bright_red: String,
    bright_yellow: String,
    bright_green: String,
    panel: String,
}

/// What an `Ansi` stands for.
pub ghost struct AnsiView {
    pub on: bool,
    pub cyan: Seq<char>,
    pub grey: Seq<char>,
    pub red: Seq<char>,
    pub yellow: Seq<char>,
    pub green: Seq<char>,
    pub bright_red: Seq<char>,
    pub bright_yellow: Seq<char>,
    pub bright_green: Seq<char>,
    pub panel: Seq<char>,
}

impl DeepView for Ansi {
    type V = AnsiView;

    closed spec fn deep_view(&self) -> AnsiView {
        AnsiView {
            on: self.on,
            cyan: self.cyan@,
            grey: self.grey@,
            red: self.red@,
            yellow: self.yellow@,
            green: self.green@,
            bright_red: self.bright_red@,
            bright_yellow: self.bright_yellow@,
            bright_green: self.bright_green@,
            panel: self.panel@,
        }
    }
}

/// Whether a text selects a color, or none where the environment asks for none.
pub open spec fn selects(code: Seq<char>, layer: Seq<char>, color: Color) -> bool {
    code == layer + color.code() + "m"@ || code == "\x1b[m"@
}

impl AnsiView {
    /// The text that selects a shade.
    pub open spec fn select(self, shade: Shade) -> Seq<char> {
        match shade {
            Shade::Cyan => self.cyan,
            Shade::Grey => self.grey,
            Shade::Red => self.red,
            Shade::Yellow => self.yellow,
            Shade::Green => self.green,
            Shade::BrightRed => self.bright_red,
            Shade::BrightYellow => self.bright_yellow,
            Shade::BrightGreen => self.bright_green,
        }
    }

    /// Whether each text selects what it is there for.
    pub open spec fn wf(self) -> bool {
        &&& forall|shade: Shade| selects(#[trigger] self.select(shade), "\x1b[38;"@, shade.color())
        &&& selects(self.panel, "\x1b[48;"@, Color::AnsiValue(BG_PANEL))
    }
}

/// Reads the texts that select styles. Output is styled on a terminal unless the
/// environment asks for no color.
pub fn init_color(is_terminal: bool, no_color: bool) -> (r: Ansi)
    ensures
        r.deep_view().on == (is_terminal && !no_color),
        r.deep_view().wf(),
{
    Ansi {
        on: is_terminal && !no_color,
        cyan: foreground(Color::AnsiValue(MUTED_CYAN)),
        grey: foreground(Color::AnsiValue(MUTED_GREY)),
        red: foreground(Color::AnsiValue(MUTED_RED)),
        yellow: foreground(Color::AnsiValue(MUTED_YELLOW)),
        green: foreground(Color::AnsiValue(MUTED_GREEN)),
        bright_red: foreground(Color::Red),
        bright_yellow: foreground(Color::Yellow),
        bright_green: foreground(Color::Green),
        panel: background(BG_PANEL),
    }
}

/// Whether output is styled.
pub fn enabled(ansi: &Ansi) -> (r: bool)
    ensures
        r == ansi.deep_view().on,
{
    ansi.on
}

/// Turns the styling of output on or off.
pub fn set_color(ansi: &mut Ansi, on: bool)
    ensures
        final(ansi).deep_view() == (AnsiView { on, ..old(ansi).deep_view() }),
{
    ansi.on = on;
}

/// A text in a color, with everything reset behind it.
pub open spec fn in_shade(a: AnsiView, s: Seq<char>, shade: Shade) -> Seq<char> {
    if a.on {
        a.select(shade) + s + "\x1b[0m"@ + "\x1b[0m"@
    } else {
        s
    }
}

/// A text in a color, with the color alone reset behind it.
pub open spec fn in_foreground(a: AnsiView, s: Seq<char>, shade: Shade) -> Seq<char> {
    if a.on {
        a.select(shade) + s + "\x1b[39m"@
    } else {
        s
    }
}

/// A text on the background of a panel.
pub open spec fn on_panel(a: AnsiView, s: Seq<char>) -> Seq<char> {
    if a.on {
        a.panel + s + "\x1b[0m"@
    } else {
        s
    }
}

/// A text in bold type.
pub open spec fn in_bold(a: AnsiView, s: Seq<char>) -> Seq<char> {
    if a.on {
        "\x1b[1m"@ + s + "\x1b[0m"@
    } else {
        s
    }
}

impl Ansi {
    fn selector(&self, shade: Shade) -> (r: &str)
        ensures
            r@ == self.deep_view().select(shade),
    {
        match shade {
            Shade::Cyan => self.cyan.as_str(),
            Shade::Grey => self.grey.as_str(),
            Shade::Red => self.red.as_str(),
            Shade::Yellow => self.yellow.as_str(),
            Shade::Green => self.green.as_str(),
            Shade::BrightRed => self.bright_red.as_str(),
            Shade::BrightYellow => self.bright_yellow.as_str(),
            Shade::BrightGreen => self.bright_green.as_str(),
        }
    }
}

fn styled(ansi: &Ansi, s: &str, shade: Shade) -> (r: String)
    ensures
        r@ == in_shade(ansi.deep_view(), s@, shade),
{
    if !ansi.on {
        return s.to_owned();
    }
    text::concat4(ansi.selector(shade), s, &reset_color(), &reset_attribute())
}

/// A text in a color. Only the color is reset behind it, so a background stays.
pub fn fg_only(ansi: &Ansi, s: &str, shade: Shade) -> (r: String)
    ensures
        r@ == in_foreground(ansi.deep_view(), s@, shade),
{
    if !ansi.on {
        return s.to_owned();
    }
    text::concat3(ansi.selector(shade), s, "\x1b[39m")
}

/// A text on the background of a panel.
pub fn tint_cell(ansi: &Ansi, content: &str) -> (r: String)
    ensures
        r@ == on_panel(ansi.deep_view(), content@),
{
    if !ansi.on {
        return content.to_owned();
    }
    text::concat3(&ansi.panel, content, &reset_color())
}

/// Whether a control sequence resets everything; one that resets the color
/// alone does not.
pub fn is_full_reset(seq: &str) -> (r: bool)
    ensures
        r == (seq@ == "\x1b[0m"@),
{
    text::same(seq, "\x1b[0m")
}

/// A text in cyan.
pub fn cyan(ansi: &Ansi, s: &str) -> (r: String)
    ensures
        r@ == in_shade(ansi.deep_view(), s@, Shade::Cyan),
{
    styled(ansi, s, Shade::Cyan)
}

/// A text in grey.
pub fn dim(ansi: &Ansi, s: &str) -> (r: String)
    ensures
        r@ == in_shade(ansi.deep_view(), s@, Shade::Grey),
{
    styled(ansi, s, Shade::Grey)
}

/// A text in red.
pub fn red(ansi: &Ansi, s: &str) -> (r: String)
    ensures
        r@ == in_shade(ansi.deep_view(), s@, Shade::Red),
{
    styled(ansi, s, Shade::Red)
}

/// A text in yellow.
pub fn yellow(ansi: &Ansi, s: &str) -> (r: String)
    ensures
        r@ == in_shade(ansi.deep_view(), s@, Shade::Yellow),
{
    styled(ansi, s, Shade::Yellow)
}

/// A text in green.
pub fn green(ansi: &Ansi, s: &str) -> (r: String)
    ensures
        r@ == in_shade(ansi.deep_view(), s@, Shade::Green),
{
    styled(ansi, s, Shade::Green)
}

/// A text in bold type.
pub fn bold(ansi: &Ansi, s: &str) -> (r: String)
    ensures
        r@ == in_bold(ansi.deep_view(), s@),
{
    if !ansi.on {
        return s.to_owned();
    }
    text::concat3(&bold_attribute(), s, &reset_attribute())
}

// ------------------------------------------------------------ control sequences
/// Whether a character, by its low byte, ends a control sequence.
pub open spec fn ends_sequence(c: char) -> bool {
    0x40 <= (c as u32) % 256 <= 0x7e
}

/// The position behind the control sequence whose parameters begin at `from`.
pub open spec fn sequence_end(s: Seq<char>, from: int) -> int
    decreases s.len() - from,
{
    if from < 0 || from >= s.len() {
        s.len() as int
    } else if ends_sequence(s[from]) {
        from + 1
    } else {
        sequence_end(s, from + 1)
    }
}

/// What is visible of a text from `from` on.
pub open spec fn visible_from(s: Seq<char>, from: int) -> Seq<char>
    decreases s.len() - from,
{
    if from < 0 || from >= s.len() {
        seq![]
    } else if s[from] != '\x1b' {
        seq![s[from]] + visible_from(s, from + 1)
    } else if from + 1 < s.len() && s[from + 1] == '[' {
        let end = sequence_end(s, from + 2);
        if from < end <= s.len() {
            visible_from(s, end)
        } else {
            seq![]
        }
    } else {
        visible_from(s, from + 1)
    }
}

/// What is visible of a text: all but its control sequences.
pub open spec fn visible(s: Seq<char>) -> Seq<char> {
    visible_from(s, 0)
}

fn end_of_sequence(s: &[char], from: usize) -> (r: usize)
    requires
        from <= s@.len(),
    ensures
        r == sequence_end(s@, from as int),
        from <= r <= s@.len(),
{
    let mut i: usize = from;
    while i < s.len()
        invariant
            from <= i <= s@.len(),
            sequence_end(s@, from as int) == sequence_end(s@, i as int),
        decreases s.len() - i,
    {
        let low = (s[i] as u32) % 256;
        if 0x40 <= low && low <= 0x7e {
            return i + 1;
        }
        i += 1;
    }
    i
}

/// The text without its control sequences.
pub fn strip_ansi(s: &str) -> (r: String)
    ensures
        r@ == visible(s@),
{
    let x = text::chars_of(s);
    let mut out = String::new();
    let mut i: usize = 0;
    assert(out@ + visible_from(s@, 0) =~= visible(s@));
    while i < x.len()
        invariant
            x@ == s@,
            i <= x@.len(),
            out@ + visible_from(s@, i as int) == visible(s@),
        decreases x.len() - i,
    {
        if x[i] == '\x1b' {
            if i + 1 < x.len() && x[i + 1] == '[' {
                i = end_of_sequence(&x, i + 2);
            } else {
                i += 1;
            }
        } else {
            assert(out@ + (seq![s@[i as int]] + visible_from(s@, i + 1)) =~= out@.push(
                s@[i as int],
            ) + visible_from(s@, i + 1));
            out.push(x[i]);
            i += 1;
        }
    }
    assert(out@ + visible_from(s@, i as int) =~= out@);
    out
}

/// How many characters of a text are visible.
pub fn visible_width(s: &str) -> (r: usize)
    ensures
        r == visible(s@).len(),
{
    text::count(&strip_ansi(s))
}

/// A text without control sequences is visible as a whole.
pub proof fn law_plain_text_is_visible(s: Seq<char>)
    requires
        !s.contains('\x1b'),
    ensures
        visible(s) == s,
{
    lemma_plain_visible_from(s, 0);
    assert(s.skip(0) =~= s);
}

proof fn lemma_plain_visible_from(s: Seq<char>, from: int)
    requires
        0 <= from <= s.len(),
        !s.contains('\x1b'),
    ensures
        visible_from(s, from) == s.skip(from),
    decreases s.len() - from,
{
    if from < s.len() {
        assert(s[from] != '\x1b') by {
            assert(s.contains(s[from]));
        }
        lemma_plain_visible_from(s, from + 1);
        assert(s.skip(from) =~= seq![s[from]] + s.skip(from + 1));
    } else {
        assert(s.skip(from) =~= seq![]);
    }
}

// ------------------------------------------------------------------ markdown
/// A line with `code` and **bold** spans rendered.
pub open spec fn inline_of(a: AnsiView, s: Seq<char>) -> Seq<char>
    decreases s.len(),
{
    if s.len() == 0 {
        seq![]
    } else {
        let code = text::find_from(s, "`"@, 1);
        let strong = text::find_from(s, "**"@, 2);
        if s[0] == '`' && code is Some && 1 <= code->0 < s.len() {
            in_shade(a, s.subrange(1, code->0), Shade::Grey) + inline_of(a, s.skip(code->0 + 1))
        } else if text::begins(s, "**"@) && strong is Some && 2 <= strong->0 <= s.len() - 2 {
            in_bold(a, s.subrange(2, strong->0)) + inline_of(a, s.skip(strong->0 + 2))
        } else {
            seq![s[0]] + inline_of(a, s.skip(1))
        }
    }
}

/// Renders `code` and **bold** spans.
pub fn render_inline(ansi: &Ansi, s: &str) -> (r: String)
    ensures
        r@ == inline_of(ansi.deep_view(), s@),
{
    let ghost a = ansi.deep_view();
    let mut out = String::new();
    let mut rest = s.to_owned();
    assert(out@ + inline_of(a, rest@) =~= inline_of(a, s@));
    while text::count(&rest) > 0
        invariant
            a == ansi.deep_view(),
            out@ + inline_of(a, rest@) == inline_of(a, s@),
        decreases rest@.len(),
    {
        let ghost before = rest@;
        let ghost had = out@;
        proof {
            reveal_strlit("`");
            reveal_strlit("**");
            text::lemma_find_from(before, "`"@, 1);
            text::lemma_find_from(before, "**"@, 2);
        }
        let n = text::count(&rest);
        let (piece, used) = next_span(ansi, &rest);
        out.append(&piece);
        let next = text::sub_string(&rest, used, n);
        assert(next@ =~= before.skip(used as int));
        assert(had + (piece@ + inline_of(a, next@)) =~= had + piece@ + inline_of(a, next@));
        rest = next;
    }
    assert(out@ + inline_of(a, rest@) =~= out@);
    out
}

fn next_span(ansi: &Ansi, s: &str) -> (r: (String, usize))
    requires
        s@.len() > 0,
    ensures
        0 < r.1 <= s@.len(),
        inline_of(ansi.deep_view(), s@) == r.0@ + inline_of(ansi.deep_view(), s@.skip(r.1 as int)),
{
    proof {
        reveal_strlit("`");
        reveal_strlit("**");
        text::lemma_find_from(s@, "`"@, 1);
        text::lemma_find_from(s@, "**"@, 2);
    }
    let n = text::count(s);
    let first = text::sub_string(s, 0, 1);
    if text::same(&first, "`") {
        assert(first@[0] == '`');
        assert(s@[0] == '`');
        if let Some(end) = text::find_at(s, "`", 1) {
            return (dim(ansi, &text::sub_string(s, 1, end)), end + 1);
        }
    } else {
        assert(s@[0] == '`' ==> first@ =~= "`"@);
    }
    if text::starts_with(s, "**") && n >= 2 {
        if let Some(end) = text::find_at(s, "**", 2) {
            return (bold(ansi, &text::sub_string(s, 2, end)), end + 2);
        }
    }
    assert(first@ =~= seq![s@[0]]);
    (first, 1)
}

/// A line outside of a code block, given without white space around it.
pub open spec fn line_of(a: AnsiView, s: Seq<char>) -> Seq<char> {
    if s == "---"@ || s == "***"@ || s == "___"@ {
        in_shade(a, text::repeated('─', 40), Shade::Grey)
    } else if text::without_prefix(s, "### "@) is Some {
        in_bold(a, in_shade(a, text::without_prefix(s, "### "@)->0, Shade::Cyan))
    } else if text::without_prefix(s, "## "@) is Some {
        in_bold(a, in_shade(a, text::without_prefix(s, "## "@)->0, Shade::Cyan))
    } else if text::without_prefix(s, "# "@) is Some {
        in_bold(a, in_shade(a, text::without_prefix(s, "# "@)->0, Shade::Cyan))
    } else if text::without_prefix(s, "- "@) is Some {
        "  • "@ + inline_of(a, text::without_prefix(s, "- "@)->0)
    } else if text::without_prefix(s, "* "@) is Some {
        "  • "@ + inline_of(a, text::without_prefix(s, "* "@)->0)
    } else {
        inline_of(a, s)
    }
}

fn render_line(ansi: &Ansi, s: &str) -> (r: String)
    ensures
        r@ == line_of(ansi.deep_view(), s@),
{
    if text::same(s, "---") || text::same(s, "***") || text::same(s, "___") {
        return dim(ansi, &text::repeat('─', 40));
    }
    if let Some(rest) = text::strip_prefix(s, "### ") {
        return bold(ansi, &cyan(ansi, &rest));
    }
    if let Some(rest) = text::strip_prefix(s, "## ") {
        return bold(ansi, &cyan(ansi, &rest));
    }
    if let Some(rest) = text::strip_prefix(s, "# ") {
        return bold(ansi, &cyan(ansi, &rest));
    }
    if let Some(rest) = text::strip_prefix(s, "- ") {
        return text::concat("  • ", &render_inline(ansi, &rest));
    }
    if let Some(rest) = text::strip_prefix(s, "* ") {
        return text::concat("  • ", &render_inline(ansi, &rest));
    }
    render_inline(ansi, s)
}

/// Whether a code block is open behind these lines.
pub open spec fn fenced(lines: Seq<Seq<char>>) -> bool
    decreases lines.len(),
{
    if lines.len() == 0 {
        false
    } else if text::begins(text::spec_trim(lines.last()), "```"@) {
        !fenced(lines.drop_last())
    } else {
        fenced(lines.drop_last())
    }
}

/// Lines rendered: a line feed follows each, and the marks of code blocks are
/// dropped.
pub open spec fn lines_of(a: AnsiView, lines: Seq<Seq<char>>) -> Seq<char>
    decreases lines.len(),
{
    if lines.len() == 0 {
        seq![]
    } else {
        let before = lines_of(a, lines.drop_last());
        let line = lines.last();
        if text::begins(text::spec_trim(line), "```"@) {
            before.push('\n')
        } else if fenced(lines.drop_last()) {
            (before + in_shade(a, line, Shade::Grey)).push('\n')
        } else {
            (before + line_of(a, text::spec_trim(line))).push('\n')
        }
    }
}

/// A text rendered.
pub open spec fn markdown_of(a: AnsiView, s: Seq<char>) -> Seq<char> {
    lines_of(a, text::spec_lines(s))
}

/// Renders the marks that matter in replies: headings, rules, lists, code blocks,
/// and `code` and **bold** spans.
pub fn render_markdown(ansi: &Ansi, s: &str) -> (r: String)
    ensures
        r@ == markdown_of(ansi.deep_view(), s@),
{
    let ghost a = ansi.deep_view();
    let lines = text::lines(s);
    let ghost view = lines.deep_view();
    let mut out = String::new();
    let mut in_fence = false;
    let mut i: usize = 0;
    assert(view.take(0) =~= seq![]);
    while i < lines.len()
        invariant
            a == ansi.deep_view(),
            i <= lines.len(),
            view == lines.deep_view(),
            out@ == lines_of(a, view.take(i as int)),
            in_fence == fenced(view.take(i as int)),
        decreases lines.len() - i,
    {
        assert(view.take(i + 1).drop_last() =~= view.take(i as int));
        assert(view[i as int] == lines@[i as int]@);
        let trimmed = text::trim(&lines[i]);
        if text::starts_with(&trimmed, "```") {
            in_fence = !in_fence;
        } else if in_fence {
            out.append(&dim(ansi, &lines[i]));
        } else {
            out.append(&render_line(ansi, &trimmed));
        }
        out.push('\n');
        i += 1;
    }
    assert(view.take(view.len() as int) =~= view);
    out
}

// --------------------------------------------------------------------- laws
/// Whether a text holds no escape character.
pub open spec fn no_escape(s: Seq<char>) -> bool {
    !s.contains('\x1b')
}

proof fn lemma_no_escape_add(a: Seq<char>, b: Seq<char>)
    requires
        no_escape(a),
        no_escape(b),
    ensures
        no_escape(a + b),
{
    if (a + b).contains('\x1b') {
        let i = choose|i: int| 0 <= i < (a + b).len() && (a + b)[i] == '\x1b';
        if i < a.len() {
            assert(a[i] == '\x1b');
        } else {
            assert(b[i - a.len()] == '\x1b');
        }
    }
}

proof fn lemma_no_escape_part(s: Seq<char>, from: int, to: int)
    requires
        no_escape(s),
        0 <= from <= to <= s.len(),
    ensures
        no_escape(s.subrange(from, to)),
{
    let part = s.subrange(from, to);
    if part.contains('\x1b') {
        let i = choose|i: int| 0 <= i < part.len() && part[i] == '\x1b';
        assert(s[from + i] == '\x1b');
    }
}

proof fn lemma_inline_no_escape(a: AnsiView, s: Seq<char>)
    requires
        !a.on,
        no_escape(s),
    ensures
        no_escape(inline_of(a, s)),
    decreases s.len(),
{
    if s.len() > 0 {
        let code = text::find_from(s, "`"@, 1);
        let strong = text::find_from(s, "**"@, 2);
        let end = s.len() as int;
        if s[0] == '`' && code is Some && 1 <= code->0 < s.len() {
            lemma_no_escape_part(s, 1, code->0);
            lemma_no_escape_part(s, code->0 + 1, end);
            assert(s.skip(code->0 + 1) =~= s.subrange(code->0 + 1, end));
            lemma_inline_no_escape(a, s.skip(code->0 + 1));
            lemma_no_escape_add(s.subrange(1, code->0), inline_of(a, s.skip(code->0 + 1)));
        } else if text::begins(s, "**"@) && strong is Some && 2 <= strong->0 <= s.len() - 2 {
            lemma_no_escape_part(s, 2, strong->0);
            lemma_no_escape_part(s, strong->0 + 2, end);
            assert(s.skip(strong->0 + 2) =~= s.subrange(strong->0 + 2, end));
            lemma_inline_no_escape(a, s.skip(strong->0 + 2));
            lemma_no_escape_add(s.subrange(2, strong->0), inline_of(a, s.skip(strong->0 + 2)));
        } else {
            lemma_no_escape_part(s, 0, 1);
            lemma_no_escape_part(s, 1, end);
            assert(s.subrange(0, 1) =~= seq![s[0]]);
            assert(s.skip(1) =~= s.subrange(1, end));
            lemma_inline_no_escape(a, s.skip(1));
            lemma_no_escape_add(seq![s[0]], inline_of(a, s.skip(1)));
        }
    }
}

proof fn lemma_prefix_no_escape(s: Seq<char>, p: Seq<char>)
    requires
        no_escape(s),
    ensures
        text::without_prefix(s, p) matches Some(rest) ==> no_escape(rest),
{
    if let Some(rest) = text::without_prefix(s, p) {
        lemma_no_escape_part(s, p.len() as int, s.len() as int);
        assert(rest =~= s.subrange(p.len() as int, s.len() as int));
    }
}

proof fn lemma_line_no_escape(a: AnsiView, s: Seq<char>)
    requires
        !a.on,
        no_escape(s),
    ensures
        no_escape(line_of(a, s)),
{
    lemma_prefix_no_escape(s, "### "@);
    lemma_prefix_no_escape(s, "## "@);
    lemma_prefix_no_escape(s, "# "@);
    lemma_prefix_no_escape(s, "- "@);
    lemma_prefix_no_escape(s, "* "@);
    lemma_inline_no_escape(a, s);
    reveal_strlit("  • ");
    assert(no_escape("  • "@));
    if text::without_prefix(s, "- "@) is Some {
        let rest = text::without_prefix(s, "- "@)->0;
        lemma_inline_no_escape(a, rest);
        lemma_no_escape_add("  • "@, inline_of(a, rest));
    }
    if text::without_prefix(s, "* "@) is Some {
        let rest = text::without_prefix(s, "* "@)->0;
        lemma_inline_no_escape(a, rest);
        lemma_no_escape_add("  • "@, inline_of(a, rest));
    }
}

proof fn lemma_trim_no_escape(s: Seq<char>)
    requires
        no_escape(s),
    ensures
        no_escape(text::spec_trim(s)),
{
    lemma_trim_start_no_escape(s);
    lemma_trim_end_no_escape(text::spec_trim_start(s));
    lemma_trim_end_no_escape(s);
    lemma_trim_start_no_escape(text::spec_trim_end(s));
}

proof fn lemma_trim_start_no_escape(s: Seq<char>)
    requires
        no_escape(s),
    ensures
        no_escape(text::spec_trim_start(s)),
    decreases s.len(),
{
    if s.len() > 0 {
        lemma_no_escape_part(s, 1, s.len() as int);
        assert(s.skip(1) =~= s.subrange(1, s.len() as int));
        lemma_trim_start_no_escape(s.skip(1));
    }
}

proof fn lemma_trim_end_no_escape(s: Seq<char>)
    requires
        no_escape(s),
    ensures
        no_escape(text::spec_trim_end(s)),
    decreases s.len(),
{
    if s.len() > 0 {
        lemma_no_escape_part(s, 0, s.len() - 1);
        assert(s.drop_last() =~= s.subrange(0, s.len() - 1));
        lemma_trim_end_no_escape(s.drop_last());
    }
}

proof fn lemma_lines_no_escape(a: AnsiView, lines: Seq<Seq<char>>)
    requires
        !a.on,
        forall|i: int| 0 <= i < lines.len() ==> no_escape(#[trigger] lines[i]),
    ensures
        no_escape(lines_of(a, lines)),
    decreases lines.len(),
{
    if lines.len() > 0 {
        let before = lines.drop_last();
        assert forall|i: int| 0 <= i < before.len() implies no_escape(#[trigger] before[i]) by {
            assert(before[i] == lines[i]);
        }
        lemma_lines_no_escape(a, before);
        let line = lines.last();
        assert(line == lines[lines.len() - 1]);
        lemma_trim_no_escape(line);
        lemma_line_no_escape(a, text::spec_trim(line));
        lemma_no_escape_add(lines_of(a, before), line);
        lemma_no_escape_add(lines_of(a, before), line_of(a, text::spec_trim(line)));
        assert(no_escape(seq!['\n']));
        lemma_no_escape_add(lines_of(a, before), seq!['\n']);
        lemma_no_escape_add(lines_of(a, before) + line, seq!['\n']);
        lemma_no_escape_add(
            lines_of(a, before) + line_of(a, text::spec_trim(line)),
            seq!['\n'],
        );
        assert(lines_of(a, before).push('\n') =~= lines_of(a, before) + seq!['\n']);
        assert((lines_of(a, before) + line).push('\n') =~= lines_of(a, before) + line + seq!['\n']);
        assert((lines_of(a, before) + line_of(a, text::spec_trim(line))).push('\n') =~= lines_of(
            a,
            before,
        ) + line_of(a, text::spec_trim(line)) + seq!['\n']);
    }
}

/// Where output is not styled, rendering adds no control sequence to a text.
pub proof fn law_unstyled_output_is_plain(a: AnsiView, s: Seq<char>)
    requires
        !a.on,
        no_escape(s),
    ensures
        no_escape(markdown_of(a, s)),
{
    let lines = text::spec_lines(s);
    assert forall|i: int| 0 <= i < lines.len() implies no_escape(#[trigger] lines[i]) by {
        if lines[i].contains('\x1b') {
            text::lemma_lines_are_parts(s, i, '\x1b');
        }
    }
    lemma_lines_no_escape(a, lines);
}

} // verus!
