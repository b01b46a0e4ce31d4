//! Logging towards libobs: the logger's settings, taken from the environment
//! and from OBS's command line, and the lines that one log record becomes
//! when it is handed to `blog`.
use vstd::prelude::*;

use crate::text::{decimal, push_char, push_chars, push_decimal};

verus! {

/// The severity of a log record (the levels of the `log` facade).
#[derive(Clone, Copy, Debug, PartialEq, Eq, Structural)]
pub enum LogLevel {
    Error,
    Warn,
    Info,
    Debug,
    Trace,
}

/// The most characters of a message that go into one `blog` call.
pub const MAX_CHUNK_SIZE: usize = 3500;

/// libobs's `LOG_ERROR`.
pub const OBS_LOG_ERROR: i32 = 100;

/// libobs's `LOG_WARNING`.
pub const OBS_LOG_WARNING: i32 = 200;

/// libobs's `LOG_INFO`.
pub const OBS_LOG_INFO: i32 = 300;

/// The libobs level that a record of `level` is logged at: libobs has no
/// debug or trace level that shows by default, so these go out as info.
pub open spec fn obs_level_of(level: LogLevel) -> i32 {
    match level {
        LogLevel::Trace => OBS_LOG_INFO,
        LogLevel::Debug => OBS_LOG_INFO,
        LogLevel::Info => OBS_LOG_INFO,
        LogLevel::Warn => OBS_LOG_WARNING,
        LogLevel::Error => OBS_LOG_ERROR,
    }
}

/// The tag in front of a record's location: `[T] ` for trace, `[D] ` for
/// debug, nothing for the levels that libobs has itself.
pub open spec fn level_tag(level: LogLevel) -> Seq<char> {
    match level {
        LogLevel::Trace => seq!['[', 'T', ']', ' '],
        LogLevel::Debug => seq!['[', 'D', ']', ' '],
        _ => Seq::empty(),
    }
}

/// Where a record comes from: its target, or when that is empty its module
/// path, or `unk` when it has neither.
pub open spec fn source_name(target: Seq<char>, module: Option<Seq<char>>) -> Seq<char> {
    if target.len() == 0 {
        match module {
            Some(p) => p,
            None => seq!['u', 'n', 'k'],
        }
    } else {
        target
    }
}

/// The characters of an optional string.
pub open spec fn str_view(s: Option<&str>) -> Option<Seq<char>> {
    match s {
        Some(t) => Some(t@),
        None => None,
    }
}

/// The line number written for a record: 0 when it has none.
pub open spec fn line_number(line: Option<u32>) -> nat {
    match line {
        Some(l) => l as nat,
        None => 0,
    }
}

/// `{tag}[{source}:{line}]`, the prefix of every line of a record.
pub open spec fn message_prefix(level: LogLevel, source: Seq<char>, line: nat) -> Seq<char> {
    level_tag(level) + seq!['['] + source + seq![':'] + decimal(line) + seq![']']
}

/// How many pieces a message of `len` characters is cut into.
pub open spec fn chunk_count(len: nat) -> nat {
    if len % (MAX_CHUNK_SIZE as nat) == 0 {
        len / (MAX_CHUNK_SIZE as nat)
    } else {
        len / (MAX_CHUNK_SIZE as nat) + 1
    }
}

/// Piece `i` of a message: the characters from `i * MAX_CHUNK_SIZE` up to the
/// next multiple of `MAX_CHUNK_SIZE` or the end of the message.
pub open spec fn chunk_of(message: Seq<char>, i: int) -> Seq<char> {
    let start = i * (MAX_CHUNK_SIZE as int);
    let end = if start + (MAX_CHUNK_SIZE as int) <= message.len() {
        start + (MAX_CHUNK_SIZE as int)
    } else {
        message.len() as int
    };
    message.subrange(start, end)
}

/// The pieces of a message, in order (none for an empty message).
pub open spec fn chunks(message: Seq<char>) -> Seq<Seq<char>> {
    Seq::new(chunk_count(message.len()), |i: int| chunk_of(message, i))
}

/// The text handed to `blog` for piece `index` (from 0) of `count` pieces:
/// `{prefix}: {piece}` when the message fits in one piece, else
/// `{prefix}: MULTIPART [{index + 1}/{count}] {piece}`; always ended by a
/// NUL character, since libobs reads it as a C string.
pub open spec fn line_text(prefix: Seq<char>, index: nat, count: nat, piece: Seq<char>) -> Seq<
    char,
> {
    if count == 1 {
        prefix + seq![':', ' '] + piece + seq!['\0']
    } else {
        prefix + seq![':', ' ', 'M', 'U', 'L', 'T', 'I', 'P', 'A', 'R', 'T', ' ', '['] + decimal(
            index + 1,
        ) + seq!['/'] + decimal(count) + seq![']', ' '] + piece + seq!['\0']
    }
}

/// One call of libobs's `blog`: the level and the NUL-ended text.
pub struct ObsLogLine {
    pub level: i32,
    pub text: String,
}

/// The libobs level for `level`.
pub fn obs_log_level(level: LogLevel) -> (r: i32)
    ensures
        r == obs_level_of(level),
{
    match level {
        LogLevel::Trace => OBS_LOG_INFO,
        LogLevel::Debug => OBS_LOG_INFO,
        LogLevel::Info => OBS_LOG_INFO,
        LogLevel::Warn => OBS_LOG_WARNING,
        LogLevel::Error => OBS_LOG_ERROR,
    }
}

fn push_level_tag(s: &mut String, level: LogLevel)
    ensures
        final(s)@ == old(s)@ + level_tag(level),
{
    match level {
        LogLevel::Trace => {
            push_char(s, '[');
            push_char(s, 'T');
            push_char(s, ']');
            push_char(s, ' ');
        },
        LogLevel::Debug => {
            push_char(s, '[');
            push_char(s, 'D');
            push_char(s, ']');
            push_char(s, ' ');
        },
        _ => {},
    }
    assert(final(s)@ =~= old(s)@ + level_tag(level));
}

fn push_str(s: &mut String, t: &str)
    ensures
        final(s)@ == old(s)@ + t@,
{
    s.append(t);
}

/// The prefix `{tag}[{source}:{line}]` of the lines of a record; a record
/// without a line number counts as line 0.
pub fn log_message_prefix(
    level: LogLevel,
    target: &str,
    module: Option<&str>,
    line: Option<u32>,
) -> (r: String)
    ensures
        r@ == message_prefix(
            level,
            source_name(target@, str_view(module)),
            line_number(line),
        ),
{
    let mut s = String::new();
    push_level_tag(&mut s, level);
    push_char(&mut s, '[');
    if target.is_empty() {
        match module {
            Some(p) => push_str(&mut s, p),
            None => {
                push_char(&mut s, 'u');
                push_char(&mut s, 'n');
                push_char(&mut s, 'k');
            },
        }
    } else {
        push_str(&mut s, target);
    }
    push_char(&mut s, ':');
    let n: u32 = match line {
        Some(l) => l,
        None => 0,
    };
    push_decimal(&mut s, n as u64);
    push_char(&mut s, ']');
    let ghost src = source_name(target@, str_view(module));
    assert(s@ =~= message_prefix(level, src, n as nat));
    s
}

proof fn lemma_chunk_arith(len: nat, i: int)
    requires
        0 <= i < chunk_count(len),
    ensures
        i * (MAX_CHUNK_SIZE as int) < len,
        (i + 1) * (MAX_CHUNK_SIZE as int) <= len + MAX_CHUNK_SIZE,
{
    assert((i + 1) * 3500 == i * 3500 + 3500);
    let q = len / 3500;
    assert(len == q * 3500 + len % 3500);
    if len % 3500 == 0 {
        assert(i < q);
        assert(i * 3500 < q * 3500) by (nonlinear_arith)
            requires
                i < q,
        ;
    } else {
        assert(i <= q);
        assert(i * 3500 <= q * 3500) by (nonlinear_arith)
            requires
                i <= q,
        ;
    }
}

fn build_line(
    prefix: &String,
    index: usize,
    count: usize,
    message: &Vec<char>,
    start: usize,
    end: usize,
) -> (text: String)
    requires
        index < count,
        start <= end <= message@.len(),
    ensures
        text@ == line_text(
            prefix@,
            index as nat,
            count as nat,
            message@.subrange(start as int, end as int),
        ),
{
    let mut text = prefix.clone();
    push_char(&mut text, ':');
    push_char(&mut text, ' ');
    if count != 1 {
        push_char(&mut text, 'M');
        push_char(&mut text, 'U');
        push_char(&mut text, 'L');
        push_char(&mut text, 'T');
        push_char(&mut text, 'I');
        push_char(&mut text, 'P');
        push_char(&mut text, 'A');
        push_char(&mut text, 'R');
        push_char(&mut text, 'T');
        push_char(&mut text, ' ');
        push_char(&mut text, '[');
        push_decimal(&mut text, (index + 1) as u64);
        push_char(&mut text, '/');
        push_decimal(&mut text, count as u64);
        push_char(&mut text, ']');
        push_char(&mut text, ' ');
    }
    push_chars(&mut text, message, start, end);
    push_char(&mut text, '\0');
    assert(text@ =~= line_text(
        prefix@,
        index as nat,
        count as nat,
        message@.subrange(start as int, end as int),
    ));
    text
}

/// The calls of `blog` that one log record becomes. The message is cut into
/// pieces of at most `MAX_CHUNK_SIZE` characters; each piece becomes one
/// line at the record's libobs level, numbered `MULTIPART [k/n]` when there
/// is more than one. An empty message gives no line at all.
pub fn format_log_lines(
    level: LogLevel,
    target: &str,
    module: Option<&str>,
    line: Option<u32>,
    message: &Vec<char>,
) -> (lines: Vec<ObsLogLine>)
    ensures
        lines@.len() == chunk_count(message@.len()),
        forall|i: int|
            0 <= i < lines@.len() ==> {
                &&& #[trigger] lines@[i].level == obs_level_of(level)
                &&& lines@[i].text@ == line_text(
                    message_prefix(
                        level,
                        source_name(target@, str_view(module)),
                        line_number(line),
                    ),
                    i as nat,
                    chunk_count(message@.len()),
                    chunk_of(message@, i),
                )
            },
{
    let prefix = log_message_prefix(level, target, module, line);
    let ghost p = message_prefix(level, source_name(target@, str_view(module)), line_number(line));
    let obs_level = obs_log_level(level);
    let len = message.len();
    let count: usize = if len % MAX_CHUNK_SIZE == 0 {
        len / MAX_CHUNK_SIZE
    } else {
        len / MAX_CHUNK_SIZE + 1
    };
    assert(count == chunk_count(len as nat));
    let mut lines: Vec<ObsLogLine> = Vec::new();
    let mut index: usize = 0;
    while index < count
        invariant
            index <= count,
            count == chunk_count(message@.len()),
            len == message@.len(),
            lines@.len() == index,
            forall|i: int|
                0 <= i < index ==> {
                    &&& #[trigger] lines@[i].level == obs_level_of(level)
                    &&& lines@[i].text@ == line_text(
                        p,
                        i as nat,
                        count as nat,
                        chunk_of(message@, i),
                    )
                },
            obs_level == obs_level_of(level),
            prefix@ == p,
        decreases count - index,
    {
        proof {
            lemma_chunk_arith(len as nat, index as int);
        }
        let start: usize = index * MAX_CHUNK_SIZE;
        let end: usize = if len - start >= MAX_CHUNK_SIZE {
            start + MAX_CHUNK_SIZE
        } else {
            len
        };
        let text = build_line(&prefix, index, count, message, start, end);
        lines.push(ObsLogLine { level: obs_level, text });
        index = index + 1;
    }
    assert forall|i: int| 0 <= i < lines@.len() implies #[trigger] lines@[i].text@ == line_text(
        p,
        i as nat,
        count as nat,
        chunk_of(message@, i),
    ) by {
        assert(lines@[i].level == obs_level_of(level));
    }
    lines
}

/// The command-line argument that turns on the logging of WHIP requests and
/// responses.
pub open spec fn whip_debug_flag() -> Seq<char> {
    "--debug-webrtc-whip"@
}

/// The command-line argument whose next argument replaces the log filter.
pub open spec fn filter_flag() -> Seq<char> {
    "--debug-webrtc-filter"@
}

/// The log filter when `RUST_LOG` is not set.
pub open spec fn default_filter() -> Seq<char> {
    "INFO"@
}

/// Reading OBS's arguments from position `i` on, with the WHIP debug switch
/// and the filter found so far: the debug flag turns the switch on; the
/// filter flag takes the argument after it as the filter (that argument is
/// not read as a flag itself), and does nothing when it is the last one;
/// other arguments are skipped.
pub open spec fn scan_args(args: Seq<Seq<char>>, i: int, debug: bool, filter: Seq<char>) -> (
    bool,
    Seq<char>,
)
    decreases args.len() - i,
{
    if i < 0 || i >= args.len() {
        (debug, filter)
    } else if args[i] == whip_debug_flag() {
        scan_args(args, i + 1, true, filter)
    } else if args[i] == filter_flag() {
        if i + 1 < args.len() {
            scan_args(args, i + 2, debug, args[i + 1])
        } else {
            (debug, filter)
        }
    } else {
        scan_args(args, i + 1, debug, filter)
    }
}

/// The characters of each argument.
pub open spec fn args_view(args: Seq<String>) -> Seq<Seq<char>> {
    args.map_values(|a: String| a@)
}

/// The filter that the logger starts from: `RUST_LOG` when it is set, else
/// `INFO`.
pub open spec fn initial_filter(env_filter: Option<Seq<char>>) -> Seq<char> {
    match env_filter {
        Some(f) => f,
        None => default_filter(),
    }
}

/// The logger's settings: whether WHIP traffic is logged, and the filter
/// (in `env_logger`'s syntax) that records must pass.
pub struct LogSettings {
    pub debug_whip: bool,
    pub filter: String,
}

impl LogSettings {
    /// The settings from `RUST_LOG` (`None` when it is not set) and OBS's
    /// command-line arguments.
    pub fn from_cmdline(env_filter: Option<String>, args: &Vec<String>) -> (s: LogSettings)
        ensures
            (s.debug_whip, s.filter@) == scan_args(
                args_view(args@),
                0,
                false,
                initial_filter(
                    match env_filter {
                        Some(f) => Some(f@),
                        None => None,
                    },
                ),
            ),
    {
        let ghost all = args_view(args@);
        let mut filter = match env_filter {
            Some(f) => f,
            None => String::from_str("INFO"),
        };
        let ghost start = filter@;
        let whip_flag = String::from_str("--debug-webrtc-whip");
        let filt_flag = String::from_str("--debug-webrtc-filter");
        let mut debug = false;
        let mut i: usize = 0;
        while i < args.len()
            invariant
                i <= args@.len(),
                all == args_view(args@),
                whip_flag@ == whip_debug_flag(),
                filt_flag@ == filter_flag(),
                scan_args(all, 0, false, start) == scan_args(all, i as int, debug, filter@),
            decreases args@.len() - i,
        {
            assert(all[i as int] == args@[i as int]@);
            if args[i] == whip_flag {
                debug = true;
                i = i + 1;
            } else if args[i] == filt_flag {
                if i + 1 < args.len() {
                    assert(all[i + 1] == args@[i + 1]@);
                    filter = args[i + 1].clone();
                    i = i + 2;
                } else {
                    i = args.len();
                }
            } else {
                i = i + 1;
            }
        }
        LogSettings { debug_whip: debug, filter }
    }
}

/// Whether the WHIP requests and responses are to be logged.
pub fn debug_whip(settings: &LogSettings) -> (r: bool)
    ensures
        r == settings.debug_whip,
{
    settings.debug_whip
}

/// Law: cutting a message into pieces loses and reorders nothing; the
/// pieces, put back together in order, are the message.
pub proof fn lemma_pieces_reassemble(message: Seq<char>)
    ensures
        chunks(message).flatten() == message,
    decreases message.len(),
{
    let n = message.len();
    if n == 0 {
        assert(chunk_count(0) == 0);
        assert(chunks(message) =~= Seq::<Seq<char>>::empty());
        assert(message =~= Seq::<char>::empty());
    } else if n <= MAX_CHUNK_SIZE {
        assert(chunk_count(n) == 1) by (nonlinear_arith)
            requires
                0 < n <= 3500,
                chunk_count(n) == (if n % 3500 == 0 {
                    n / 3500
                } else {
                    n / 3500 + 1
                }),
        ;
        assert(chunk_of(message, 0) =~= message);
        assert(chunks(message).drop_first() =~= Seq::<Seq<char>>::empty());
        assert(chunks(message).first() == message);
        assert(chunks(message).drop_first().flatten() =~= Seq::<char>::empty());
        assert(message + Seq::<char>::empty() =~= message);
    } else {
        let rest = message.subrange(MAX_CHUNK_SIZE as int, n as int);
        lemma_pieces_reassemble(rest);
        lemma_chunk_count_step(n);
        assert(chunks(message).drop_first() =~= chunks(rest)) by {
            assert forall|i: int| 0 <= i < chunks(rest).len() implies chunks(
                message,
            ).drop_first()[i] == chunks(rest)[i] by {
                assert((i + 1) * 3500 == i * 3500 + 3500);
                assert(chunk_of(message, i + 1) =~= chunk_of(rest, i));
            }
        }
        assert(chunks(message).first() =~= message.subrange(0, MAX_CHUNK_SIZE as int));
        assert(message =~= message.subrange(0, MAX_CHUNK_SIZE as int) + rest);
        assert(chunks(message).len() > 0);
    }
}

proof fn lemma_chunk_count_step(n: nat)
    requires
        n > MAX_CHUNK_SIZE,
    ensures
        chunk_count(n) == chunk_count((n - MAX_CHUNK_SIZE) as nat) + 1,
{
    let m = (n - 3500) as nat;
    assert(n / 3500 == m / 3500 + 1 && n % 3500 == m % 3500) by (nonlinear_arith)
        requires
            m == n - 3500,
            n > 3500,
    ;
}

/// Law: every piece of a message holds at least one and at most
/// `MAX_CHUNK_SIZE` characters, and there are as many pieces as it takes:
/// none for an empty message, one for a message of at most
/// `MAX_CHUNK_SIZE` characters, more otherwise.
pub proof fn lemma_piece_sizes(message: Seq<char>, i: int)
    requires
        0 <= i < chunk_count(message.len()),
    ensures
        0 < chunk_of(message, i).len() <= MAX_CHUNK_SIZE,
        chunk_count(message.len()) == 1 <==> (0 < message.len() <= MAX_CHUNK_SIZE),
{
    lemma_chunk_arith(message.len(), i);
    let n = message.len();
    assert(chunk_count(n) == 1 <==> (0 < n <= 3500)) by (nonlinear_arith)
        requires
            chunk_count(n) == (if n % 3500 == 0 {
                n / 3500
            } else {
                n / 3500 + 1
            }),
    ;
}

/// Law: the text of every line handed to libobs ends with a NUL character.
pub proof fn lemma_lines_end_with_nul(prefix: Seq<char>, index: nat, count: nat, piece: Seq<char>)
    ensures
        line_text(prefix, index, count, piece).len() > 0,
        line_text(prefix, index, count, piece).last() == '\0',
{
}

/// Law: once the WHIP debug switch is on, no later argument turns it off.
pub proof fn lemma_debug_switch_stays_on(args: Seq<Seq<char>>, i: int, filter: Seq<char>)
    ensures
        scan_args(args, i, true, filter).0,
    decreases args.len() - i,
{
    if 0 <= i < args.len() {
        if args[i] == whip_debug_flag() {
            lemma_debug_switch_stays_on(args, i + 1, filter);
        } else if args[i] == filter_flag() {
            if i + 1 < args.len() {
                lemma_debug_switch_stays_on(args, i + 2, args[i + 1]);
            }
        } else {
            lemma_debug_switch_stays_on(args, i + 1, filter);
        }
    }
}

/// Law: arguments that hold neither flag change nothing: the switch and the
/// filter stay as they were.
pub proof fn lemma_other_args_change_nothing(
    args: Seq<Seq<char>>,
    i: int,
    debug: bool,
    filter: Seq<char>,
)
    requires
        forall|k: int|
            0 <= k < args.len() ==> #[trigger] args[k] != whip_debug_flag() && args[k]
                != filter_flag(),
    ensures
        scan_args(args, i, debug, filter) == (debug, filter),
    decreases args.len() - i,
{
    if 0 <= i < args.len() {
        lemma_other_args_change_nothing(args, i + 1, debug, filter);
    }
}

/// Law: the filter in force is the one the logger started from or one of
/// OBS's arguments; nothing else can become the filter.
pub proof fn lemma_filter_comes_from_input(
    args: Seq<Seq<char>>,
    i: int,
    debug: bool,
    filter: Seq<char>,
)
    ensures
        scan_args(args, i, debug, filter).1 == filter || exists|k: int|
            0 <= k < args.len() && scan_args(args, i, debug, filter).1 == #[trigger] args[k],
    decreases args.len() - i,
{
    if 0 <= i < args.len() {
        if args[i] == whip_debug_flag() {
            lemma_filter_comes_from_input(args, i + 1, true, filter);
        } else if args[i] == filter_flag() {
            if i + 1 < args.len() {
                lemma_filter_comes_from_input(args, i + 2, debug, args[i + 1]);
            }
        } else {
            lemma_filter_comes_from_input(args, i + 1, debug, filter);
        }
    }
}

/// Law: an argument read as a flag that is `--debug-webrtc-whip` turns the
/// WHIP debug switch on, wherever it stands, the last argument included.
pub proof fn lemma_whip_flag_turns_switch_on(
    args: Seq<Seq<char>>,
    i: int,
    debug: bool,
    filter: Seq<char>,
)
    requires
        0 <= i < args.len(),
        args[i] == whip_debug_flag(),
    ensures
        scan_args(args, i, debug, filter).0,
{
    lemma_debug_switch_stays_on(args, i + 1, filter);
}

/// Law: when no argument is `--debug-webrtc-filter`, every argument is read
/// as a flag, and the WHIP debug switch ends on exactly when it was on or
/// one of the arguments is `--debug-webrtc-whip`.
pub proof fn lemma_switch_on_iff_flag_given(
    args: Seq<Seq<char>>,
    i: int,
    debug: bool,
    filter: Seq<char>,
)
    requires
        0 <= i <= args.len(),
        forall|k: int| 0 <= k < args.len() ==> #[trigger] args[k] != filter_flag(),
    ensures
        scan_args(args, i, debug, filter).0 <==> (debug || exists|k: int|
            i <= k < args.len() && #[trigger] args[k] == whip_debug_flag()),
        scan_args(args, i, debug, filter).1 == filter,
    decreases args.len() - i,
{
    if i < args.len() {
        if args[i] == whip_debug_flag() {
            lemma_switch_on_iff_flag_given(args, i + 1, true, filter);
        } else {
            lemma_switch_on_iff_flag_given(args, i + 1, debug, filter);
            if exists|k: int| i <= k < args.len() && #[trigger] args[k] == whip_debug_flag() {
                let k = choose|k: int| i <= k < args.len() && #[trigger] args[k] == whip_debug_flag();
                assert(k != i);
            }
        }
    }
}

/// Law: libobs hears a record at its info level exactly when the record is
/// info, debug or trace; warnings at its warning level, and errors at its
/// error level; so a more severe record never gets a less severe level.
pub proof fn lemma_levels_by_severity(level: LogLevel)
    ensures
        obs_level_of(level) == 300 <==> (level == LogLevel::Info || level == LogLevel::Debug
            || level == LogLevel::Trace),
        obs_level_of(level) == 200 <==> level == LogLevel::Warn,
        obs_level_of(level) == 100 <==> level == LogLevel::Error,
{
}

/// Law: only debug and trace records carry a tag, of four characters: a
/// bracketed `D` for debug, a bracketed `T` for trace, then a space.
pub proof fn lemma_tags(level: LogLevel)
    ensures
        level_tag(level).len() > 0 <==> (level == LogLevel::Debug || level == LogLevel::Trace),
        level == LogLevel::Debug ==> level_tag(level) =~= seq!['[', 'D', ']', ' '],
        level == LogLevel::Trace ==> level_tag(level) =~= seq!['[', 'T', ']', ' '],
{
}

/// Law: the pieces are as long as they can be: every piece but the last
/// holds exactly `MAX_CHUNK_SIZE` characters.
pub proof fn lemma_pieces_are_full(message: Seq<char>, i: int)
    requires
        0 <= i < chunk_count(message.len()) - 1,
    ensures
        chunk_of(message, i).len() == MAX_CHUNK_SIZE,
{
    lemma_chunk_arith(message.len(), i + 1);
    assert((i + 1) * 3500 == i * 3500 + 3500);
}

/// Law: when `--debug-webrtc-filter` and a value are the last two arguments
/// and the flag is read as a flag, the filter ends as that value.
pub proof fn lemma_last_filter_value_wins(args: Seq<Seq<char>>, i: int, debug: bool, filter: Seq<char>)
    requires
        0 <= i,
        i + 2 == args.len(),
        args[i] == filter_flag(),
    ensures
        scan_args(args, i, debug, filter).1 == args[i + 1],
{
    reveal_strlit("--debug-webrtc-whip");
    reveal_strlit("--debug-webrtc-filter");
    assert(args[i] != whip_debug_flag()) by {
        assert(whip_debug_flag().len() != filter_flag().len());
    }
    assert(scan_args(args, i + 2, debug, args[i + 1]) == (debug, args[i + 1]));
}

} // verus!
