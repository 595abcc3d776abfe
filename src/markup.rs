//! A two-token markup dialect: `**emphasis**` and `` `code` ``.
//!
//! A line is rendered in two passes. The first replaces each emphasis span
//! with its text between the bold and reset sequences; the second, on the
//! result of the first, replaces each code span with its text padded by one
//! space on each side and drawn on a grey background. Within a pass spans
//! are taken left to right and never overlap; a delimiter that opens no
//! complete span is kept as it is.
use vstd::prelude::*;

verus! {

/// Index of the first `stop` at or after `from`, or the length of `s`.
pub open spec fn run_end(s: Seq<char>, from: int, stop: char) -> int
    decreases s.len() - from,
{
    if from >= s.len() || s[from] == stop {
        from
    } else {
        run_end(s, from + 1, stop)
    }
}

/// `n` copies of `stop` stand in `s` from index `i`.
pub open spec fn delim_at(s: Seq<char>, i: int, n: nat, stop: char) -> bool {
    &&& 0 <= i
    &&& i + n <= s.len()
    &&& forall|k: int| 0 <= k < n ==> #[trigger] s[i + k] == stop
}

/// A span starts at `i`: a delimiter of `n` copies of `stop`, at least one
/// character other than `stop`, and a second delimiter.
pub open spec fn span_at(s: Seq<char>, i: int, n: nat, stop: char) -> bool {
    &&& delim_at(s, i, n, stop)
    &&& run_end(s, i + n, stop) > i + n
    &&& delim_at(s, run_end(s, i + n, stop), n, stop)
}

/// `s` from index `i` on, with every span (taken left to right) replaced by
/// its inner text between `before` and `after`.
pub open spec fn replaced_from(
    s: Seq<char>,
    i: int,
    n: nat,
    stop: char,
    before: Seq<char>,
    after: Seq<char>,
) -> Seq<char>
    decreases s.len() - i,
{
    if i < 0 || i >= s.len() {
        Seq::empty()
    } else if span_at(s, i, n, stop) {
        let e = run_end(s, i + n, stop);
        before + s.subrange(i + n, e) + after + replaced_from(s, e + n, n, stop, before, after)
    } else {
        seq![s[i]] + replaced_from(s, i + 1, n, stop, before, after)
    }
}

/// `s` with every span replaced.
pub open spec fn replaced(
    s: Seq<char>,
    n: nat,
    stop: char,
    before: Seq<char>,
    after: Seq<char>,
) -> Seq<char> {
    replaced_from(s, 0, n, stop, before, after)
}

/// The decimal digits of `n`, without leading zeros.
pub open spec fn decimal(n: nat) -> Seq<char>
    decreases n,
{
    let digit = seq!['0', '1', '2', '3', '4', '5', '6', '7', '8', '9'][(n % 10) as int];
    if n < 10 {
        seq![digit]
    } else {
        decimal(n / 10).push(digit)
    }
}

/// The escape sequence that turns bold on.
pub open spec fn bold_seq() -> Seq<char> {
    "\x1b[1m"@
}

/// The escape sequence that resets all text attributes.
pub open spec fn reset_seq() -> Seq<char> {
    "\x1b[m"@
}

/// The escape sequence that sets the background to 256-colour value `v`.
pub open spec fn ansi_bg_seq(v: nat) -> Seq<char> {
    "\x1b[48;5;"@ + decimal(v) + "m"@
}

/// The escape sequence that restores the default background.
pub open spec fn bg_reset_seq() -> Seq<char> {
    "\x1b[49m"@
}

/// Grey shade, out of the 24 of the 256-colour palette, behind code spans.
pub const CODE_SHADE: u8 = 2;

/// Palette index of the code background.
pub open spec fn code_bg_value() -> nat {
    (232 + CODE_SHADE) as nat
}

/// What precedes the text of a code span.
pub open spec fn code_open_seq() -> Seq<char> {
    ansi_bg_seq(code_bg_value()) + " "@
}

/// What follows the text of a code span.
pub open spec fn code_close_seq() -> Seq<char> {
    " "@ + bg_reset_seq()
}

/// The emphasis pass.
pub open spec fn bold_pass(s: Seq<char>) -> Seq<char> {
    replaced(s, 2, '*', bold_seq(), reset_seq())
}

/// The code pass.
pub open spec fn code_pass(s: Seq<char>) -> Seq<char> {
    replaced(s, 1, '`', code_open_seq(), code_close_seq())
}

/// A rendered line: the emphasis pass, then the code pass on its result.
pub open spec fn render_markup(s: Seq<char>) -> Seq<char> {
    code_pass(bold_pass(s))
}

/// `s` holds no `c`.
pub open spec fn lacks(s: Seq<char>, c: char) -> bool {
    forall|k: int| 0 <= k < s.len() ==> s[k] != c
}

/// Over a run of characters other than `stop`, a pass copies them.
proof fn lemma_copy_run(
    s: Seq<char>,
    i: int,
    j: int,
    n: nat,
    stop: char,
    before: Seq<char>,
    after: Seq<char>,
)
    requires
        0 <= i <= j <= s.len(),
        n >= 1,
        forall|k: int| i <= k < j ==> s[k] != stop,
    ensures
        replaced_from(s, i, n, stop, before, after) == s.subrange(i, j) + replaced_from(
            s,
            j,
            n,
            stop,
            before,
            after,
        ),
    decreases j - i,
{
    if i < j {
        assert(s[i + 0] != stop);
        assert(!span_at(s, i, n, stop));
        lemma_copy_run(s, i + 1, j, n, stop, before, after);
        assert(s.subrange(i, j) =~= seq![s[i]] + s.subrange(i + 1, j));
    } else {
        assert(s.subrange(i, j) =~= Seq::<char>::empty());
    }
}

/// A run of characters other than `stop` ends at the next `stop`.
proof fn lemma_run_end_at(s: Seq<char>, from: int, j: int, stop: char)
    requires
        0 <= from <= j <= s.len(),
        forall|k: int| from <= k < j ==> s[k] != stop,
        j == s.len() || s[j] == stop,
    ensures
        run_end(s, from, stop) == j,
    decreases j - from,
{
    if from < j {
        lemma_run_end_at(s, from + 1, j, stop);
    }
}

/// A line without any `stop` goes through a pass unchanged.
proof fn lemma_pass_keeps(s: Seq<char>, n: nat, stop: char, before: Seq<char>, after: Seq<char>)
    requires
        n >= 1,
        lacks(s, stop),
    ensures
        replaced(s, n, stop, before, after) == s,
{
    lemma_copy_run(s, 0, s.len() as int, n, stop, before, after);
    assert(s.subrange(0, s.len() as int) =~= s);
    assert(s + Seq::<char>::empty() =~= s);
}

/// Rendering is a function of the line alone: the same line renders to the
/// same styled text every time.
pub proof fn lemma_render_deterministic(a: Seq<char>, b: Seq<char>)
    requires
        a == b,
    ensures
        render_markup(a) == render_markup(b),
{
}

/// A line with neither `*` nor a backtick renders unchanged.
pub proof fn lemma_plain_line_unchanged(s: Seq<char>)
    requires
        lacks(s, '*'),
        lacks(s, '`'),
    ensures
        render_markup(s) == s,
{
    lemma_pass_keeps(s, 2, '*', bold_seq(), reset_seq());
    lemma_pass_keeps(s, 1, '`', code_open_seq(), code_close_seq());
}

/// In a line with at most one backtick, the code pass changes nothing: a
/// lone backtick is kept as it is.
pub proof fn lemma_lone_backtick_kept(s: Seq<char>)
    requires
        forall|i: int, j: int| 0 <= i < j < s.len() ==> !(s[i] == '`' && s[j] == '`'),
    ensures
        code_pass(s) == s,
{
    let (before, after) = (code_open_seq(), code_close_seq());
    assert forall|i: int| 0 <= i < s.len() implies !span_at(s, i, 1, '`') by {
        if span_at(s, i, 1, '`') {
            let e = run_end(s, i + 1, '`');
            assert(s[i + 0] == '`');
            assert(s[e + 0] == '`');
        }
    }
    lemma_no_span_from(s, 0, before, after);
    assert(s.subrange(0, s.len() as int) =~= s);
}

proof fn lemma_no_span_from(s: Seq<char>, i: int, before: Seq<char>, after: Seq<char>)
    requires
        0 <= i <= s.len(),
        forall|k: int| 0 <= k < s.len() ==> !span_at(s, k, 1, '`'),
    ensures
        replaced_from(s, i, 1, '`', before, after) == s.subrange(i, s.len() as int),
    decreases s.len() - i,
{
    if i < s.len() {
        lemma_no_span_from(s, i + 1, before, after);
        assert(s.subrange(i, s.len() as int) =~= seq![s[i]] + s.subrange(i + 1, s.len() as int));
    } else {
        assert(s.subrange(i, s.len() as int) =~= Seq::<char>::empty());
    }
}

/// A line with neither `*` nor a backtick, save for one stray backtick,
/// renders unchanged.
pub proof fn lemma_stray_backtick_unchanged(s: Seq<char>)
    requires
        lacks(s, '*'),
        forall|i: int, j: int| 0 <= i < j < s.len() ==> !(s[i] == '`' && s[j] == '`'),
    ensures
        render_markup(s) == s,
{
    lemma_pass_keeps(s, 2, '*', bold_seq(), reset_seq());
    lemma_lone_backtick_kept(s);
}

/// `**u**`: an emphasis span around `u`.
pub open spec fn emphasis_span(u: Seq<char>) -> Seq<char> {
    seq!['*', '*'] + u + seq!['*', '*']
}

/// `` `v` ``: a code span around `v`.
pub open spec fn code_span(v: Seq<char>) -> Seq<char> {
    seq!['`'] + v + seq!['`']
}

/// Text that can stand inside a span of either kind.
pub open spec fn span_text(u: Seq<char>) -> bool {
    u.len() > 0 && lacks(u, '*') && lacks(u, '`')
}

/// A complete span at `i` whose inner text is `m` characters long.
proof fn lemma_span_here(
    s: Seq<char>,
    i: int,
    m: int,
    n: nat,
    stop: char,
    before: Seq<char>,
    after: Seq<char>,
)
    requires
        n >= 1,
        m >= 1,
        delim_at(s, i, n, stop),
        forall|k: int| i + n <= k < i + n + m ==> s[k] != stop,
        delim_at(s, i + n + m, n, stop),
    ensures
        replaced_from(s, i, n, stop, before, after) == before + s.subrange(i + n, i + n + m)
            + after + replaced_from(s, i + 2 * n + m, n, stop, before, after),
{
    assert(s[(i + n + m) + 0] == stop);
    lemma_run_end_at(s, i + n, i + n + m, stop);
    assert(i + n + m + n == i + 2 * n + m);
}

/// The escape sequences of the emphasis pass hold no backtick.
proof fn lemma_bold_sequences_lack_backtick()
    ensures
        lacks(bold_seq(), '`'),
        lacks(reset_seq(), '`'),
{
    reveal_strlit("\x1b[1m");
    reveal_strlit("\x1b[m");
}

/// The emphasis pass on a line whose only `*` are those of one span.
proof fn lemma_bold_pass_one_span(x: Seq<char>, u: Seq<char>, y: Seq<char>)
    requires
        lacks(x, '*'),
        span_text(u),
        lacks(y, '*'),
    ensures
        bold_pass(x + emphasis_span(u) + y) == x + bold_seq() + u + reset_seq() + y,
{
    let s = x + emphasis_span(u) + y;
    let (b, r) = (bold_seq(), reset_seq());
    let i = x.len() as int;
    let m = u.len() as int;
    assert(s.subrange(i + 2, i + 2 + m) =~= u);
    assert(s.subrange(0, i) =~= x);
    assert(s.subrange(i + 4 + m, s.len() as int) =~= y);
    lemma_copy_run(s, 0, i, 2, '*', b, r);
    lemma_span_here(s, i, m, 2, '*', b, r);
    lemma_copy_run(s, i + 4 + m, s.len() as int, 2, '*', b, r);
    assert(x + b + u + r + y =~= x + (b + u + r + (y + Seq::<char>::empty())));
}

/// The code pass on a line whose only backticks are those of one span.
proof fn lemma_code_pass_one_span(x: Seq<char>, v: Seq<char>, y: Seq<char>)
    requires
        lacks(x, '`'),
        v.len() > 0,
        lacks(v, '`'),
        lacks(y, '`'),
    ensures
        code_pass(x + code_span(v) + y) == x + code_open_seq() + v + code_close_seq() + y,
{
    let s = x + code_span(v) + y;
    let (b, r) = (code_open_seq(), code_close_seq());
    let i = x.len() as int;
    let m = v.len() as int;
    assert(s.subrange(i + 1, i + 1 + m) =~= v);
    assert(s.subrange(0, i) =~= x);
    assert(s.subrange(i + 2 + m, s.len() as int) =~= y);
    lemma_copy_run(s, 0, i, 1, '`', b, r);
    lemma_span_here(s, i, m, 1, '`', b, r);
    lemma_copy_run(s, i + 2 + m, s.len() as int, 1, '`', b, r);
    assert(x + b + v + r + y =~= x + (b + v + r + (y + Seq::<char>::empty())));
}

/// An emphasis span and a code span that do not overlap each render to
/// their own styled text, in the order in which they stand in the line.
pub proof fn lemma_spans_render_in_order(u: Seq<char>, v: Seq<char>)
    requires
        span_text(u),
        span_text(v),
    ensures
        render_markup(emphasis_span(u)) == bold_seq() + u + reset_seq(),
        render_markup(code_span(v)) == code_open_seq() + v + code_close_seq(),
        render_markup(emphasis_span(u) + code_span(v)) == render_markup(emphasis_span(u))
            + render_markup(code_span(v)),
        render_markup(code_span(v) + emphasis_span(u)) == render_markup(code_span(v))
            + render_markup(emphasis_span(u)),
{
    let e = emphasis_span(u);
    let c = code_span(v);
    let empty = Seq::<char>::empty();
    let styled_u = bold_seq() + u + reset_seq();
    let styled_v = code_open_seq() + v + code_close_seq();
    lemma_bold_sequences_lack_backtick();
    assert(lacks(c, '*'));
    assert(lacks(styled_u, '`'));
    // the emphasis span alone
    lemma_bold_pass_one_span(empty, u, empty);
    assert(empty + e + empty =~= e);
    assert(empty + bold_seq() + u + reset_seq() + empty =~= styled_u);
    lemma_pass_keeps(styled_u, 1, '`', code_open_seq(), code_close_seq());
    // the code span alone
    lemma_pass_keeps(c, 2, '*', bold_seq(), reset_seq());
    lemma_code_pass_one_span(empty, v, empty);
    assert(empty + c + empty =~= c);
    assert(empty + code_open_seq() + v + code_close_seq() + empty =~= styled_v);
    // emphasis first
    lemma_bold_pass_one_span(empty, u, c);
    assert(empty + e + c =~= e + c);
    assert(empty + bold_seq() + u + reset_seq() + c =~= styled_u + c);
    lemma_code_pass_one_span(styled_u, v, empty);
    assert(styled_u + c + empty =~= styled_u + c);
    assert(styled_u + code_open_seq() + v + code_close_seq() + empty =~= styled_u + styled_v);
    // code first
    lemma_bold_pass_one_span(c, u, empty);
    assert(c + e + empty =~= c + e);
    assert(c + bold_seq() + u + reset_seq() + empty =~= c + styled_u);
    lemma_code_pass_one_span(empty, v, styled_u);
    assert(empty + c + styled_u =~= c + styled_u);
    assert(empty + code_open_seq() + v + code_close_seq() + styled_u =~= styled_v + styled_u);
}

/// Emphasis runs before code: an emphasis span inside a code span is
/// rendered bold, and the whole stays on the code background.
pub proof fn lemma_emphasis_inside_code(x: Seq<char>, u: Seq<char>, y: Seq<char>)
    requires
        lacks(x, '*'),
        lacks(x, '`'),
        span_text(u),
        lacks(y, '*'),
        lacks(y, '`'),
    ensures
        render_markup(code_span(x + emphasis_span(u) + y)) == code_open_seq() + x + bold_seq() + u
            + reset_seq() + y + code_close_seq(),
{
    let tick = seq!['`'];
    let styled = x + bold_seq() + u + reset_seq() + y;
    lemma_bold_sequences_lack_backtick();
    lemma_bold_pass_one_span(tick + x, u, y + tick);
    assert(code_span(x + emphasis_span(u) + y) =~= (tick + x) + emphasis_span(u) + (y + tick));
    assert((tick + x) + bold_seq() + u + reset_seq() + (y + tick) =~= code_span(styled));
    assert(lacks(styled, '`'));
    let empty = Seq::<char>::empty();
    lemma_code_pass_one_span(empty, styled, empty);
    assert(empty + code_span(styled) + empty =~= code_span(styled));
    assert(empty + code_open_seq() + styled + code_close_seq() + empty =~= code_open_seq() + x
        + bold_seq() + u + reset_seq() + y + code_close_seq());
}

/// Relies on the `Display` of `termion::style::Bold`, which writes `ESC [ 1 m`.
#[verifier::external_body]
fn bold_on() -> (r: String)
    ensures
        r@ == bold_seq(),
{
    format!("{}", termion::style::Bold)
}

/// Relies on the `Display` of `termion::style::Reset`, which writes `ESC [ m`.
#[verifier::external_body]
fn style_reset() -> (r: String)
    ensures
        r@ == reset_seq(),
{
    format!("{}", termion::style::Reset)
}

/// Relies on `termion::color::AnsiValue::grayscale`: shade `s` (of 24) is
/// palette index `232 + s`; it asserts `s < 24` and adds in `u8`.
#[verifier::external_body]
fn gray_value(shade: u8) -> (r: u8)
    requires
        shade < 24,
    ensures
        r == 232 + shade,
{
    termion::color::AnsiValue::grayscale(shade).0
}

/// Relies on `termion::color::AnsiValue::bg_string`: `ESC [ 48;5; v m`, with
/// `v` in decimal.
#[verifier::external_body]
fn ansi_bg(v: u8) -> (r: String)
    ensures
        r@ == ansi_bg_seq(v as nat),
{
    termion::color::AnsiValue(v).bg_string()
}

/// Relies on `termion::color::Reset::bg_str`: `ESC [ 49 m`.
#[verifier::external_body]
fn bg_reset() -> (r: String)
    ensures
        r@ == bg_reset_seq(),
{
    String::from(termion::color::Reset.bg_str())
}

/// Index of the first `stop` at or after `from`, or `len`.
fn find_run_end(s: &str, len: usize, from: usize, stop: char) -> (r: usize)
    requires
        len == s@.len(),
        from <= len,
    ensures
        r == run_end(s@, from as int, stop),
        from <= r <= len,
{
    let mut j: usize = from;
    while j < len && s.get_char(j) != stop
        invariant
            len == s@.len(),
            from <= j <= len,
            run_end(s@, j as int, stop) == run_end(s@, from as int, stop),
        decreases len - j,
    {
        j = j + 1;
    }
    j
}

/// Whether `n` copies of `stop` stand in `s` from index `i`.
fn has_delim(s: &str, len: usize, i: usize, n: usize, stop: char) -> (r: bool)
    requires
        len == s@.len(),
        i <= len,
    ensures
        r == delim_at(s@, i as int, n as nat, stop),
{
    if n > len - i {
        return false;
    }
    let mut k: usize = 0;
    while k < n
        invariant
            len == s@.len(),
            i + n <= len,
            k <= n,
            forall|m: int| 0 <= m < k ==> #[trigger] s@[i + m] == stop,
        decreases n - k,
    {
        if s.get_char(i + k) != stop {
            return false;
        }
        k = k + 1;
    }
    true
}

/// `s` with every span of `n` copies of `stop` replaced, as `replaced`
/// states it.
pub fn replace_spans(s: &str, n: usize, stop: char, before: &str, after: &str) -> (r: String)
    ensures
        r@ == replaced(s@, n as nat, stop, before@, after@),
{
    let len = s.unicode_len();
    let mut out = String::new();
    let mut i: usize = 0;
    while i < len
        invariant
            len == s@.len(),
            i <= len,
            out@ + replaced_from(s@, i as int, n as nat, stop, before@, after@) == replaced(
                s@,
                n as nat,
                stop,
                before@,
                after@,
            ),
        decreases len - i,
    {
        let ghost rest = replaced_from(s@, i as int, n as nat, stop, before@, after@);
        let mut span = false;
        let mut e: usize = i;
        if has_delim(s, len, i, n, stop) {
            e = find_run_end(s, len, i + n, stop);
            if e > i + n && has_delim(s, len, e, n, stop) {
                span = true;
            }
        }
        if span {
            let ghost next = replaced_from(s@, (e + n) as int, n as nat, stop, before@, after@);
            assert(rest == before@ + s@.subrange(i + n, e as int) + after@ + next);
            let ghost prev = out@;
            out.append(before);
            out.append(s.substring_char(i + n, e));
            out.append(after);
            assert(out@ + next =~= prev + rest);
            i = e + n;
        } else {
            assert(!span_at(s@, i as int, n as nat, stop));
            let ghost prev = out@;
            out.append(s.substring_char(i, i + 1));
            assert(out@ + replaced_from(s@, i + 1, n as nat, stop, before@, after@) =~= prev + rest);
            i = i + 1;
        }
    }
    assert(out@ + Seq::<char>::empty() =~= out@);
    out
}

/// Renders one line of markup: emphasis spans first, then code spans.
pub fn render_line(line: &str) -> (r: String)
    ensures
        r@ == render_markup(line@),
{
    let bold = bold_on();
    let reset = style_reset();
    let emphasised = replace_spans(line, 2, '*', bold.as_str(), reset.as_str());
    let mut code_open = ansi_bg(gray_value(CODE_SHADE));
    code_open.append(" ");
    let mut code_close = String::from_str(" ");
    code_close.append(bg_reset().as_str());
    replace_spans(emphasised.as_str(), 1, '`', code_open.as_str(), code_close.as_str())
}

} // verus!
