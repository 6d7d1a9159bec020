use vstd::prelude::*;

verus! {

/// The five message levels, least to most severe.
#[derive(Clone, Copy, PartialEq, Eq, Structural, Debug)]
pub enum LogLevel {
    DEBUG,
    INFO,
    WARN,
    ERROR,
    FATAL,
}

/// The rank of a level: messages below a threshold's rank are dropped.
pub open spec fn severity_spec(l: LogLevel) -> int {
    match l {
        LogLevel::DEBUG => 0,
        LogLevel::INFO => 1,
        LogLevel::WARN => 2,
        LogLevel::ERROR => 3,
        LogLevel::FATAL => 4,
    }
}

/// The 24-bit colour a level is rendered in.
pub open spec fn color_spec(l: LogLevel) -> u32 {
    match l {
        LogLevel::DEBUG => 0x80_80_80,
        LogLevel::INFO => 0xF0_F0_F0,
        LogLevel::WARN => 0xF0_F0_00,
        LogLevel::ERROR => 0xD0_00_00,
        LogLevel::FATAL => 0xFF_00_00,
    }
}

/// The lower-case tag a level is printed under.
pub open spec fn name_spec(l: LogLevel) -> Seq<char> {
    match l {
        LogLevel::DEBUG => "debug"@,
        LogLevel::INFO => "info"@,
        LogLevel::WARN => "warn"@,
        LogLevel::ERROR => "error"@,
        LogLevel::FATAL => "fatal"@,
    }
}

impl LogLevel {
    /// The level's rank.
    pub fn severity(self) -> (r: u32)
        ensures
            r as int == severity_spec(self),
    {
        match self {
            LogLevel::DEBUG => 0,
            LogLevel::INFO => 1,
            LogLevel::WARN => 2,
            LogLevel::ERROR => 3,
            LogLevel::FATAL => 4,
        }
    }

    /// The level's colour.
    pub fn color(self) -> (r: u32)
        ensures
            r == color_spec(self),
    {
        match self {
            LogLevel::DEBUG => 0x80_80_80,
            LogLevel::INFO => 0xF0_F0_F0,
            LogLevel::WARN => 0xF0_F0_00,
            LogLevel::ERROR => 0xD0_00_00,
            LogLevel::FATAL => 0xFF_00_00,
        }
    }

    /// The level's tag.
    pub fn name(self) -> (r: &'static str)
        ensures
            r@ == name_spec(self),
    {
        match self {
            LogLevel::DEBUG => "debug",
            LogLevel::INFO => "info",
            LogLevel::WARN => "warn",
            LogLevel::ERROR => "error",
            LogLevel::FATAL => "fatal",
        }
    }
}

/// The character of one decimal digit.
pub open spec fn digit_char(d: int) -> char {
    if d == 0 {
        '0'
    } else if d == 1 {
        '1'
    } else if d == 2 {
        '2'
    } else if d == 3 {
        '3'
    } else if d == 4 {
        '4'
    } else if d == 5 {
        '5'
    } else if d == 6 {
        '6'
    } else if d == 7 {
        '7'
    } else if d == 8 {
        '8'
    } else {
        '9'
    }
}

/// The decimal rendering of a number, most significant digit first, with
/// no leading zeroes.
pub open spec fn decimal_digits(n: int) -> Seq<char>
    decreases n,
{
    if n < 10 {
        seq![digit_char(n)]
    } else {
        decimal_digits(n / 10).push(digit_char(n % 10))
    }
}

/// One decimal digit as a string slice.
fn digitStr(d: u32) -> (r: &'static str)
    requires
        d < 10,
    ensures
        r@ == seq![digit_char(d as int)],
{
    proof {
        reveal_strlit("0");
        reveal_strlit("1");
        reveal_strlit("2");
        reveal_strlit("3");
        reveal_strlit("4");
        reveal_strlit("5");
        reveal_strlit("6");
        reveal_strlit("7");
        reveal_strlit("8");
        reveal_strlit("9");
    }
    let r = if d == 0 {
        "0"
    } else if d == 1 {
        "1"
    } else if d == 2 {
        "2"
    } else if d == 3 {
        "3"
    } else if d == 4 {
        "4"
    } else if d == 5 {
        "5"
    } else if d == 6 {
        "6"
    } else if d == 7 {
        "7"
    } else if d == 8 {
        "8"
    } else {
        "9"
    };
    proof {
        assert(r@ =~= seq![digit_char(d as int)]);
    }
    r
}

/// Renders a number in decimal.
pub fn u32ToDecimal(n: u32) -> (r: String)
    ensures
        r@ == decimal_digits(n as int),
    decreases n,
{
    if n < 10 {
        let d = digitStr(n);
        d.to_owned()
    } else {
        let mut r = u32ToDecimal(n / 10);
        let d = digitStr(n % 10);
        r.append(d);
        proof {
            assert(r@ =~= decimal_digits((n / 10) as int).push(digit_char((n % 10) as int)));
        }
        r
    }
}

/// The ANSI escape that selects a 24-bit foreground colour.
pub open spec fn ansi_color_spec(color: u32) -> Seq<char> {
    "\u{1b}[38;2;"@ + decimal_digits(((color >> 16) & 0xFF) as int) + ";"@ + decimal_digits(
        ((color >> 8) & 0xFF) as int,
    ) + ";"@ + decimal_digits((color & 0xFF) as int) + "m"@
}

/// Builds the ANSI escape that selects a 24-bit foreground colour.
pub fn ansiColor(color: u32) -> (r: String)
    ensures
        r@ == ansi_color_spec(color),
{
    let red = (color >> 16) & 0xFF;
    let green = (color >> 8) & 0xFF;
    let blue = color & 0xFF;
    let mut r = String::from_str("\u{1b}[38;2;");
    let rd = u32ToDecimal(red);
    r.append(rd.as_str());
    r.append(";");
    let gd = u32ToDecimal(green);
    r.append(gd.as_str());
    r.append(";");
    let bd = u32ToDecimal(blue);
    r.append(bd.as_str());
    r.append("m");
    proof {
        assert(r@ =~= ansi_color_spec(color));
    }
    r
}

/// The position of the first newline, or the length when there is none.
pub open spec fn find_newline(s: Seq<char>) -> int
    decreases s.len(),
{
    if s.len() == 0 {
        0
    } else if s[0] == '\n' {
        0
    } else {
        1 + find_newline(s.skip(1))
    }
}

/// `find_newline` points at the first newline, or past the end.
proof fn lemma_find_newline_bounds(s: Seq<char>)
    ensures
        0 <= find_newline(s) <= s.len(),
        find_newline(s) < s.len() ==> s[find_newline(s)] == '\n',
        forall|k: int| 0 <= k < find_newline(s) ==> s[k] != '\n',
    decreases s.len(),
{
    if s.len() > 0 && s[0] != '\n' {
        lemma_find_newline_bounds(s.skip(1));
        assert forall|k: int| 0 <= k < find_newline(s) implies s[k] != '\n' by {
            if k >= 1 {
                assert(s.skip(1)[k - 1] == s[k]);
            }
        }
    }
}

/// Any position with no newline before it and a newline (or the end) at it
/// is where `find_newline` points.
proof fn lemma_find_newline_at(s: Seq<char>, i: int)
    requires
        0 <= i <= s.len(),
        forall|k: int| 0 <= k < i ==> s[k] != '\n',
        i < s.len() ==> s[i] == '\n',
    ensures
        find_newline(s) == i,
    decreases s.len(),
{
    if s.len() == 0 {
    } else if s[0] == '\n' {
        assert(i == 0);
    } else {
        assert(i >= 1);
        assert(forall|k: int| 0 <= k < i - 1 ==> s.skip(1)[k] == s[k + 1]);
        assert(i - 1 < s.skip(1).len() ==> s.skip(1)[i - 1] == s[i]);
        lemma_find_newline_at(s.skip(1), i - 1);
    }
}

/// A line's trailing carriage return is not part of the line when the line
/// was ended by a newline.
pub open spec fn strip_cr(s: Seq<char>) -> Seq<char> {
    if s.len() > 0 && s.last() == '\r' {
        s.drop_last()
    } else {
        s
    }
}

/// The lines of a text: split at every newline, a carriage return directly
/// before a newline dropped, and a final newline ending the last line
/// rather than opening an empty one.
pub open spec fn lines_of(s: Seq<char>) -> Seq<Seq<char>>
    decreases s.len(),
    via lines_of_decreases
{
    if s.len() == 0 {
        Seq::empty()
    } else {
        let i = find_newline(s);
        if i == s.len() {
            seq![s]
        } else {
            seq![strip_cr(s.take(i))] + lines_of(s.skip(i + 1))
        }
    }
}

#[via_fn]
proof fn lines_of_decreases(s: Seq<char>) {
    lemma_find_newline_bounds(s);
}

/// Finds the first newline, or the length when there is none.
fn findNewline(s: &str) -> (r: usize)
    ensures
        r == find_newline(s@),
{
    let n = s.unicode_len();
    let mut first: usize = n;
    let mut i: usize = 0;
    while i < n
        invariant
            n == s@.len(),
            i <= n,
            first == n || (first < i && s@[first as int] == '\n' && (forall|k: int|
                0 <= k < first ==> s@[k] != '\n')),
            first == n ==> forall|k: int| 0 <= k < i ==> s@[k] != '\n',
        decreases n - i,
    {
        if first == n {
            if s.get_char(i) == '\n' {
                first = i;
            }
        }
        i = i + 1;
    }
    proof {
        lemma_find_newline_at(s@, first as int);
    }
    first
}

/// Splits a text into its lines.
pub fn splitLines(s: &str) -> (r: Vec<String>)
    ensures
        r@.len() == lines_of(s@).len(),
        forall|i: int| 0 <= i < r@.len() ==> (#[trigger] r@[i])@ == lines_of(s@)[i],
    decreases s@.len(),
{
    let n = s.unicode_len();
    if n == 0 {
        let r: Vec<String> = Vec::new();
        return r;
    }
    let i = findNewline(s);
    proof {
        lemma_find_newline_bounds(s@);
    }
    if i == n {
        let mut r: Vec<String> = Vec::new();
        r.push(s.to_owned());
        return r;
    }
    let end = if i > 0 && s.get_char(i - 1) == '\r' {
        i - 1
    } else {
        i
    };
    let head = s.substring_char(0, end);
    let tail = s.substring_char(i + 1, n);
    proof {
        assert(tail@ =~= s@.skip(i as int + 1));
        if i > 0 && s@[i as int - 1] == '\r' {
            assert(s@.take(i as int).last() == '\r');
            assert(head@ =~= strip_cr(s@.take(i as int)));
        } else {
            assert(head@ =~= strip_cr(s@.take(i as int)));
        }
    }
    let mut rest = splitLines(tail);
    let mut r: Vec<String> = Vec::new();
    r.push(head.to_owned());
    r.append(&mut rest);
    proof {
        let ls = lines_of(s@);
        assert(ls == seq![strip_cr(s@.take(i as int))] + lines_of(s@.skip(i as int + 1)));
        assert forall|j: int| 0 <= j < r@.len() implies (#[trigger] r@[j])@ == ls[j] by {
            if j > 0 {
                assert(ls[j] == lines_of(s@.skip(i as int + 1))[j - 1]);
            }
        }
    }
    r
}

/// One rendered line: the level's colour escape, its tag, the launcher
/// prefix, the line itself, then the reset escape.
pub open spec fn format_line_spec(level: LogLevel, line: Seq<char>) -> Seq<char> {
    ansi_color_spec(color_spec(level)) + "["@ + name_spec(level) + "][RLaunch] "@ + line
        + "\u{1b}[0m"@
}

/// What a log call renders: nothing when the level falls below the
/// threshold, otherwise one coloured line per line of the message.
pub open spec fn rendered_lines_spec(level: LogLevel, threshold: LogLevel, msg: Seq<char>) -> Seq<
    Seq<char>,
> {
    if severity_spec(level) >= severity_spec(threshold) {
        lines_of(msg).map_values(|l: Seq<char>| format_line_spec(level, l))
    } else {
        Seq::empty()
    }
}

/// Renders a message at a level against a threshold. The caller prints the
/// returned lines; this library computes and never writes.
pub fn log(level: LogLevel, threshold: LogLevel, message: &str) -> (r: Vec<String>)
    ensures
        r@.len() == rendered_lines_spec(level, threshold, message@).len(),
        forall|i: int|
            0 <= i < r@.len() ==> (#[trigger] r@[i])@ == rendered_lines_spec(
                level,
                threshold,
                message@,
            )[i],
{
    if level.severity() < threshold.severity() {
        let r: Vec<String> = Vec::new();
        return r;
    }
    let pieces = splitLines(message);
    let mut r: Vec<String> = Vec::new();
    let mut j: usize = 0;
    while j < pieces.len()
        invariant
            severity_spec(level) >= severity_spec(threshold),
            pieces@.len() == lines_of(message@).len(),
            forall|k: int|
                0 <= k < pieces@.len() ==> (#[trigger] pieces@[k])@ == lines_of(message@)[k],
            j <= pieces@.len(),
            r@.len() == j,
            forall|k: int|
                0 <= k < j ==> (#[trigger] r@[k])@ == format_line_spec(
                    level,
                    lines_of(message@)[k],
                ),
        decreases pieces@.len() - j,
    {
        let mut out = ansiColor(level.color());
        out.append("[");
        out.append(level.name());
        out.append("][RLaunch] ");
        out.append(pieces[j].as_str());
        out.append("\u{1b}[0m");
        proof {
            assert(out@ =~= format_line_spec(level, lines_of(message@)[j as int]));
        }
        r.push(out);
        j = j + 1;
    }
    r
}

/// Renders a message at the debug level.
pub fn debug(message: &str) -> (r: Vec<String>)
    ensures
        r@.len() == rendered_lines_spec(LogLevel::DEBUG, LogLevel::DEBUG, message@).len(),
        forall|i: int|
            0 <= i < r@.len() ==> (#[trigger] r@[i])@ == rendered_lines_spec(
                LogLevel::DEBUG,
                LogLevel::DEBUG,
                message@,
            )[i],
{
    log(LogLevel::DEBUG, LogLevel::DEBUG, message)
}

/// Renders a message at the info level.
pub fn info(message: &str) -> (r: Vec<String>)
    ensures
        r@.len() == rendered_lines_spec(LogLevel::INFO, LogLevel::DEBUG, message@).len(),
        forall|i: int|
            0 <= i < r@.len() ==> (#[trigger] r@[i])@ == rendered_lines_spec(
                LogLevel::INFO,
                LogLevel::DEBUG,
                message@,
            )[i],
{
    log(LogLevel::INFO, LogLevel::DEBUG, message)
}

/// Renders a message at the warn level.
pub fn warn(message: &str) -> (r: Vec<String>)
    ensures
        r@.len() == rendered_lines_spec(LogLevel::WARN, LogLevel::DEBUG, message@).len(),
        forall|i: int|
            0 <= i < r@.len() ==> (#[trigger] r@[i])@ == rendered_lines_spec(
                LogLevel::WARN,
                LogLevel::DEBUG,
                message@,
            )[i],
{
    log(LogLevel::WARN, LogLevel::DEBUG, message)
}

/// Renders a message at the error level.
pub fn error(message: &str) -> (r: Vec<String>)
    ensures
        r@.len() == rendered_lines_spec(LogLevel::ERROR, LogLevel::DEBUG, message@).len(),
        forall|i: int|
            0 <= i < r@.len() ==> (#[trigger] r@[i])@ == rendered_lines_spec(
                LogLevel::ERROR,
                LogLevel::DEBUG,
                message@,
            )[i],
{
    log(LogLevel::ERROR, LogLevel::DEBUG, message)
}

} // verus!
