//! An application state dedicated to help.
use vstd::prelude::*;
use crate::markup::{render_line, render_markup};
use crate::screen_area::{clamp_offset, ScreenArea};

verus! {

/// A user command, already decoded from the keyboard.
pub enum Action {
    Back,
    FixPattern,
    MoveSelection(i32),
    Select(String),
    OpenSelection,
    Verb(String),
    Quit,
    PatternEdit(String),
    Next,
}

/// How the stack of application states changes after an action.
#[derive(Debug, Clone, Copy, PartialEq, Eq, Structural)]
pub enum AppStateCmdResult {
    /// Stay in the current state.
    Keep,
    /// Leave the current state and go back to the previous one.
    PopState,
    /// Leave the application.
    Quit,
}

/// One entry of the verb registry: the key that triggers it, its name and
/// what it does.
pub struct VerbEntry {
    pub key: String,
    pub name: String,
    pub description: String,
}

/// Width into which verb names are right-aligned.
pub const VERB_NAME_WIDTH: usize = 14;

/// `n` spaces.
pub open spec fn spaces(n: nat) -> Seq<char> {
    Seq::new(n, |i: int| ' ')
}

/// `s` right-aligned in `width` columns: spaces in front of it up to that
/// width, none when it is already as wide.
pub open spec fn padded(s: Seq<char>, width: nat) -> Seq<char> {
    if s.len() < width {
        spaces((width - s.len()) as nat) + s
    } else {
        s
    }
}

/// The markup line that presents one verb.
pub open spec fn verb_markup(v: VerbEntry) -> Seq<char> {
    padded(v.name@, VERB_NAME_WIDTH as nat) + " : `"@ + v.key@ + "` => "@ + v.description@
}

/// The fixed lines in front of the verbs.
pub open spec fn intro_markup() -> Seq<Seq<char>> {
    seq![
        ""@,
        " **broot** (pronounce \"b-root\") lets you explore directory trees"@,
        "    and launch various commands on files."@,
        ""@,
        " `<esc>` gets you back to the previous state."@,
        " `/pattern` filters the tree by file names."@,
        "    Use `<enter>` to freeze the filtering."@,
        " Typing a file key selects the relevant file."@,
        " Typing a file key, space, then a verb executes the verb on the file."@,
        ""@,
        " Current Verbs:"@,
    ]
}

/// The lines after the verbs, naming where the configuration is.
pub open spec fn outro_markup(conf_location: Seq<char>) -> Seq<Seq<char>> {
    seq![""@, " Verbs are configured in "@ + conf_location + "."@]
}

/// The whole help text in markup: the introduction, one line per verb in
/// registry order, and the configuration line.
pub open spec fn help_markup(verbs: Seq<VerbEntry>, conf_location: Seq<char>) -> Seq<Seq<char>> {
    intro_markup() + verbs.map_values(|v: VerbEntry| verb_markup(v)) + outro_markup(conf_location)
}

/// The help text as it is drawn.
pub open spec fn help_lines(verbs: Seq<VerbEntry>, conf_location: Seq<char>) -> Seq<Seq<char>> {
    help_markup(verbs, conf_location).map_values(|l: Seq<char>| render_markup(l))
}

/// The hint shown in the status line.
pub open spec fn status_hint() -> Seq<char> {
    "Hit <esc> to get back to the tree"@
}

/// Rendered lines, appended one at a time.
pub struct HelpText {
    pub lines: Vec<String>,
}

impl View for HelpText {
    type V = Seq<Seq<char>>;

    open spec fn view(&self) -> Seq<Seq<char>> {
        self.lines@.map_values(|l: String| l@)
    }
}

impl HelpText {
    pub fn new() -> (r: HelpText)
        ensures
            r@ == Seq::<Seq<char>>::empty(),
    {
        HelpText { lines: Vec::new() }
    }

    /// Renders one line of markup and appends it.
    pub fn md(&mut self, line: &str)
        ensures
            final(self)@ == old(self)@.push(render_markup(line@)),
    {
        let rendered = render_line(line);
        self.lines.push(rendered);
        assert(final(self)@ =~= old(self)@.push(render_markup(line@)));
    }
}

/// `s` right-aligned in `width` columns.
fn pad_left(s: &str, width: usize) -> (r: String)
    ensures
        r@ == padded(s@, width as nat),
{
    let len = s.unicode_len();
    let mut out = String::new();
    let mut k: usize = len;
    while k < width
        invariant
            len == s@.len(),
            len <= k <= width || (k == len && len > width),
            out@ == spaces((k - len) as nat),
        decreases width - k,
    {
        let ghost prev = out@;
        out.append(" ");
        proof {
            reveal_strlit(" ");
        }
        assert(out@ =~= spaces((k + 1 - len) as nat));
        k = k + 1;
    }
    out.append(s);
    assert(out@ =~= padded(s@, width as nat));
    out
}

/// The markup line that presents one verb.
fn verb_line(v: &VerbEntry) -> (r: String)
    ensures
        r@ == verb_markup(*v),
{
    let mut line = pad_left(v.name.as_str(), VERB_NAME_WIDTH);
    line.append(" : `");
    line.append(v.key.as_str());
    line.append("` => ");
    line.append(v.description.as_str());
    line
}

/// Renders the whole help text for the given verbs and configuration
/// location.
pub fn help_text(verbs: &Vec<VerbEntry>, conf_location: &str) -> (r: HelpText)
    ensures
        r@ == help_lines(verbs@, conf_location@),
{
    let mut text = HelpText::new();
    text.md("");
    text.md(" **broot** (pronounce \"b-root\") lets you explore directory trees");
    text.md("    and launch various commands on files.");
    text.md("");
    text.md(" `<esc>` gets you back to the previous state.");
    text.md(" `/pattern` filters the tree by file names.");
    text.md("    Use `<enter>` to freeze the filtering.");
    text.md(" Typing a file key selects the relevant file.");
    text.md(" Typing a file key, space, then a verb executes the verb on the file.");
    text.md("");
    text.md(" Current Verbs:");
    let ghost intro = intro_markup().map_values(|l: Seq<char>| render_markup(l));
    assert(text@ =~= intro);
    let mut i: usize = 0;
    while i < verbs.len()
        invariant
            i <= verbs@.len(),
            text@ == intro + verbs@.subrange(0, i as int).map_values(
                |v: VerbEntry| render_markup(verb_markup(v)),
            ),
        decreases verbs@.len() - i,
    {
        let line = verb_line(&verbs[i]);
        let ghost prev = text@;
        text.md(line.as_str());
        assert(verbs@.subrange(0, i + 1) =~= verbs@.subrange(0, i as int).push(verbs@[i as int]));
        assert(text@ =~= intro + verbs@.subrange(0, i + 1).map_values(
            |v: VerbEntry| render_markup(verb_markup(v)),
        ));
        i = i + 1;
    }
    text.md("");
    let mut last = String::from_str(" Verbs are configured in ");
    last.append(conf_location);
    last.append(".");
    text.md(last.as_str());
    assert(verbs@.subrange(0, verbs@.len() as int) =~= verbs@);
    assert(text@ =~= help_lines(verbs@, conf_location@));
    text
}

/// The help overlay.
pub struct HelpState {
    /// Where the help is drawn.
    pub area: ScreenArea,
}

impl HelpState {
    pub open spec fn wf(&self) -> bool {
        self.area.wf()
    }

    /// The state for a terminal of `screen_height` rows: the help is drawn
    /// from the second row, above the status line.
    pub fn new(_about: &str, screen_height: u16) -> (r: HelpState)
        requires
            screen_height >= 3,
        ensures
            r.wf(),
            r.area.top == 1,
            r.area.visible_height == screen_height - 2,
            r.area.top_line == 0,
            r.area.content_length == 0,
    {
        let area = ScreenArea::new(1, (screen_height - 2) as i32);
        HelpState { area }
    }

    /// Reacts to an action: back leaves the state, quit leaves the
    /// application, a selection move scrolls the help; the others change
    /// nothing.
    pub fn apply(&mut self, action: &Action) -> (r: AppStateCmdResult)
        requires
            old(self).wf(),
        ensures
            final(self).wf(),
            match *action {
                Action::Back => r == AppStateCmdResult::PopState && final(self).area == old(
                    self,
                ).area,
                Action::Quit => r == AppStateCmdResult::Quit && final(self).area == old(self).area,
                Action::MoveSelection(dy) => {
                    &&& r == AppStateCmdResult::Keep
                    &&& final(self).area.top_line == clamp_offset(
                        old(self).area.top_line + dy,
                        old(self).area.max_top_line(),
                    )
                    &&& final(self).area.top == old(self).area.top
                    &&& final(self).area.visible_height == old(self).area.visible_height
                    &&& final(self).area.content_length == old(self).area.content_length
                },
                _ => r == AppStateCmdResult::Keep && final(self).area == old(self).area,
            },
    {
        match action {
            Action::Back => AppStateCmdResult::PopState,
            Action::MoveSelection(dy) => {
                self.area.try_scroll(*dy);
                AppStateCmdResult::Keep
            },
            Action::Quit => AppStateCmdResult::Quit,
            _ => AppStateCmdResult::Keep,
        }
    }

    /// Renders the help text, records its length in the area, and returns
    /// the lines that fall in the visible window, from the current offset.
    pub fn display(&mut self, verbs: &Vec<VerbEntry>, conf_location: &str) -> (r: Vec<String>)
        requires
            old(self).wf(),
            verbs@.len() + 13 <= i32::MAX,
        ensures
            final(self).wf(),
            final(self).area.content_length == help_lines(verbs@, conf_location@).len(),
            final(self).area.top_line == clamp_offset(
                old(self).area.top_line as int,
                final(self).area.max_top_line(),
            ),
            final(self).area.top == old(self).area.top,
            final(self).area.visible_height == old(self).area.visible_height,
            r@.map_values(|l: String| l@) == help_lines(verbs@, conf_location@).subrange(
                final(self).area.top_line as int,
                if final(self).area.top_line + final(self).area.visible_height
                    < help_lines(verbs@, conf_location@).len() {
                    final(self).area.top_line + final(self).area.visible_height
                } else {
                    help_lines(verbs@, conf_location@).len() as int
                },
            ),
    {
        let text = help_text(verbs, conf_location);
        let n = text.lines.len();
        assert(intro_markup().len() == 11);
        assert(help_lines(verbs@, conf_location@).len() == verbs@.len() + 13);
        assert(n == text@.len());
        self.area.set_content_length(n as i32);
        let start = self.area.top_line as usize;
        let end: usize = if (self.area.top_line as i64 + self.area.visible_height as i64) < (
        n as i64) {
            (self.area.top_line + self.area.visible_height) as usize
        } else {
            n
        };
        let ghost all = text@;
        let mut out: Vec<String> = Vec::new();
        let mut i: usize = start;
        while i < end
            invariant
                start <= i <= end,
                end <= n,
                n == text.lines@.len(),
                all == text@,
                out@.map_values(|l: String| l@) == all.subrange(start as int, i as int),
            decreases end - i,
        {
            let line = text.lines[i].clone();
            assert(line@ == all[i as int]);
            let ghost prev = out@;
            out.push(line);
            assert(out@ == prev.push(line));
            assert(out@.map_values(|l: String| l@) =~= prev.map_values(|l: String| l@).push(
                line@,
            ));
            assert(all.subrange(start as int, i + 1) =~= all.subrange(start as int, i as int).push(
                all[i as int],
            ));
            assert(out@.map_values(|l: String| l@) =~= all.subrange(start as int, i + 1));
            i = i + 1;
        }
        out
    }

    /// The hint for the status line.
    pub fn status_text(&self) -> (r: String)
        ensures
            r@ == status_hint(),
    {
        String::from_str("Hit <esc> to get back to the tree")
    }
}

} // verus!
