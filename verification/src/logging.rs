use vstd::prelude::*;

verus! {

/// Severity of one log record.
#[derive(Clone, Copy, Debug, PartialEq, Eq, Structural)]
pub enum LogLevel {
    Error,
    Warn,
    Info,
    Debug,
    Trace,
}

/// The most verbose severity that is let through.
#[derive(Clone, Copy, Debug, PartialEq, Eq, Structural)]
pub enum LevelFilter {
    Off,
    Error,
    Warn,
    Info,
    Debug,
    Trace,
}

/// The decimal digits of `n`, most significant first.
pub open spec fn spec_dec(n: u64) -> Seq<u8>
    decreases n,
{
    if n < 10 {
        seq![(48 + n) as u8]
    } else {
        spec_dec(n / 10) + seq![(48 + n % 10) as u8]
    }
}

/// Append the decimal digits of `n`.
pub fn push_dec(out: &mut Vec<u8>, n: u64)
    ensures
        final(out)@ == old(out)@ + spec_dec(n),
    decreases n,
{
    if n < 10 {
        out.push(48 + n as u8);
        proof {
            assert(final(out)@ =~= old(out)@ + spec_dec(n));
        }
    } else {
        proof {
            assert(n / 10 < n) by (nonlinear_arith)
                requires
                    n >= 10,
            ;
        }
        push_dec(out, n / 10);
        out.push(48 + (n % 10) as u8);
        proof {
            assert(final(out)@ =~= old(out)@ + spec_dec(n));
        }
    }
}

/// The escape sequence that selects color `code`: ESC `[` digits `m`.
pub open spec fn spec_csi(code: u64) -> Seq<u8> {
    seq![27u8, 91u8] + spec_dec(code) + seq![109u8]
}

/// The escape sequence that restores the default color: ESC `[` `m`.
pub open spec fn spec_reset() -> Seq<u8> {
    seq![27u8, 91u8, 109u8]
}

/// Append the color-select escape sequence for `code`.
fn push_csi(out: &mut Vec<u8>, code: u64)
    ensures
        final(out)@ == old(out)@ + spec_csi(code),
{
    out.push(27);
    out.push(91);
    push_dec(out, code);
    out.push(109);
    proof {
        assert(final(out)@ =~= old(out)@ + spec_csi(code));
    }
}

/// Append the color-restore escape sequence.
fn push_reset(out: &mut Vec<u8>)
    ensures
        final(out)@ == old(out)@ + spec_reset(),
{
    out.push(27);
    out.push(91);
    out.push(109);
    proof {
        assert(final(out)@ =~= old(out)@ + spec_reset());
    }
}

/// Append a whole byte row.
fn push_bytes(out: &mut Vec<u8>, s: &Vec<u8>)
    ensures
        final(out)@ == old(out)@ + s@,
{
    let n = s.len();
    let mut i: usize = 0;
    proof {
        assert(out@ =~= old(out)@ + s@.take(0));
    }
    while i < n
        invariant
            n == s@.len(),
            i <= n,
            out@ == old(out)@ + s@.take(i as int),
        decreases n - i,
    {
        out.push(s[i]);
        proof {
            assert(old(out)@ + s@.take(i as int + 1) =~= (old(out)@ + s@.take(i as int)).push(
                s@[i as int],
            ));
        }
        i = i + 1;
    }
    proof {
        assert(s@.take(n as int) =~= s@);
    }
}

/// The name of a severity, padded to five columns.
pub open spec fn spec_level_name(level: LogLevel) -> Seq<u8> {
    match level {
        LogLevel::Error => seq![69u8, 82u8, 82u8, 79u8, 82u8],
        LogLevel::Warn => seq![87u8, 65u8, 82u8, 78u8, 32u8],
        LogLevel::Info => seq![73u8, 78u8, 70u8, 79u8, 32u8],
        LogLevel::Debug => seq![68u8, 69u8, 66u8, 85u8, 71u8],
        LogLevel::Trace => seq![84u8, 82u8, 65u8, 67u8, 69u8],
    }
}

/// Append the padded severity name.
fn push_level_name(out: &mut Vec<u8>, level: LogLevel)
    ensures
        final(out)@ == old(out)@ + spec_level_name(level),
{
    match level {
        LogLevel::Error => {
            out.push(69u8);
            out.push(82u8);
            out.push(82u8);
            out.push(79u8);
            out.push(82u8);
        },
        LogLevel::Warn => {
            out.push(87u8);
            out.push(65u8);
            out.push(82u8);
            out.push(78u8);
            out.push(32u8);
        },
        LogLevel::Info => {
            out.push(73u8);
            out.push(78u8);
            out.push(70u8);
            out.push(79u8);
            out.push(32u8);
        },
        LogLevel::Debug => {
            out.push(68u8);
            out.push(69u8);
            out.push(66u8);
            out.push(85u8);
            out.push(71u8);
        },
        LogLevel::Trace => {
            out.push(84u8);
            out.push(82u8);
            out.push(65u8);
            out.push(67u8);
            out.push(69u8);
        },
    }
    proof {
        assert(final(out)@ =~= old(out)@ + spec_level_name(level));
    }
}

/// The bright color that paints a severity name.
pub open spec fn spec_level_color(level: LogLevel) -> u64 {
    match level {
        LogLevel::Error => 91,
        LogLevel::Warn => 93,
        LogLevel::Info => 92,
        LogLevel::Debug => 96,
        LogLevel::Trace => 90,
    }
}

/// The color that paints the message body.
pub open spec fn spec_args_color(level: LogLevel) -> u64 {
    match level {
        LogLevel::Error => 31,
        LogLevel::Warn => 33,
        LogLevel::Info => 32,
        LogLevel::Debug => 36,
        LogLevel::Trace => 90,
    }
}

/// The bright color that paints a severity name.
pub fn level_color(level: LogLevel) -> (c: u64)
    ensures
        c == spec_level_color(level),
{
    match level {
        LogLevel::Error => 91,
        LogLevel::Warn => 93,
        LogLevel::Info => 92,
        LogLevel::Debug => 96,
        LogLevel::Trace => 90,
    }
}

/// The color that paints the message body.
pub fn args_color(level: LogLevel) -> (c: u64)
    ensures
        c == spec_args_color(level),
{
    match level {
        LogLevel::Error => 31,
        LogLevel::Warn => 33,
        LogLevel::Info => 32,
        LogLevel::Debug => 36,
        LogLevel::Trace => 90,
    }
}

/// One rendered log line:
/// `[LEVEL cpu] (target:line) message`, each part under its color, the
/// whole line under white, with a trailing newline.
pub open spec fn spec_log_line(
    level: LogLevel,
    cpu_id: u64,
    target: Seq<u8>,
    line: u64,
    msg: Seq<u8>,
) -> Seq<u8> {
    spec_csi(37) + seq![91u8] + spec_csi(spec_level_color(level)) + spec_level_name(level)
        + spec_reset() + seq![32u8] + spec_csi(37) + spec_dec(cpu_id) + spec_reset() + seq![
        93u8,
        32u8,
    ] + spec_csi(37) + seq![40u8] + target + seq![58u8] + spec_dec(line) + seq![41u8]
        + spec_reset() + seq![32u8] + spec_csi(spec_args_color(level)) + msg + spec_reset() + seq![
        10u8,
    ] + spec_reset()
}

/// Render one log record as the byte row the console receives, colored by
/// severity and prefixed with the CPU that wrote it.
pub fn format_log_line(
    level: LogLevel,
    cpu_id: u64,
    target: &Vec<u8>,
    line: u64,
    msg: &Vec<u8>,
) -> (out: Vec<u8>)
    ensures
        out@ == spec_log_line(level, cpu_id, target@, line, msg@),
{
    let mut out: Vec<u8> = Vec::new();
    push_csi(&mut out, 37);
    out.push(91u8);
    push_csi(&mut out, level_color(level));
    push_level_name(&mut out, level);
    push_reset(&mut out);
    out.push(32u8);
    push_csi(&mut out, 37);
    push_dec(&mut out, cpu_id);
    push_reset(&mut out);
    out.push(93u8);
    out.push(32u8);
    push_csi(&mut out, 37);
    out.push(40u8);
    push_bytes(&mut out, target);
    out.push(58u8);
    push_dec(&mut out, line);
    out.push(41u8);
    push_reset(&mut out);
    out.push(32u8);
    push_csi(&mut out, args_color(level));
    push_bytes(&mut out, msg);
    push_reset(&mut out);
    out.push(10u8);
    push_reset(&mut out);
    proof {
        assert(out@ =~= spec_log_line(level, cpu_id, target@, line, msg@));
    }
    out
}

/// A message with every newline turned into carriage return plus newline,
/// ready for the UART.
pub open spec fn spec_crlf(s: Seq<u8>) -> Seq<u8>
    decreases s.len(),
{
    if s.len() == 0 {
        Seq::empty()
    } else {
        spec_crlf(s.drop_last()) + (if s.last() == 10 {
            seq![13u8, 10u8]
        } else {
            seq![s.last()]
        })
    }
}

/// The value half of the console write path: turn a rendered message into
/// the exact byte row the UART transmits, newlines expanded to carriage
/// return plus newline. Feeding the bytes to the UART, under the print
/// lock, is the caller's part.
pub fn print(msg: &Vec<u8>) -> (out: Vec<u8>)
    ensures
        out@ == spec_crlf(msg@),
{
    let mut out: Vec<u8> = Vec::new();
    let n = msg.len();
    let mut i: usize = 0;
    proof {
        assert(msg@.take(0) =~= Seq::<u8>::empty());
    }
    while i < n
        invariant
            n == msg@.len(),
            i <= n,
            out@ == spec_crlf(msg@.take(i as int)),
        decreases n - i,
    {
        let b = msg[i];
        if b == 10 {
            out.push(13);
            out.push(10);
        } else {
            out.push(b);
        }
        proof {
            assert(msg@.take(i as int + 1).drop_last() =~= msg@.take(i as int));
            assert(msg@.take(i as int + 1).last() == msg@[i as int]);
            if msg@[i as int] == 10 {
                assert(out@ =~= spec_crlf(msg@.take(i as int)) + seq![13u8, 10u8]);
            } else {
                assert(out@ =~= spec_crlf(msg@.take(i as int)) + seq![msg@[i as int]]);
            }
        }
        i = i + 1;
    }
    proof {
        assert(msg@.take(n as int) =~= msg@);
    }
    out
}

/// The keyword that selects a filter, as bytes.
pub open spec fn spec_level_from_env(s: Seq<u8>) -> LevelFilter {
    if s == seq![101u8, 114u8, 114u8, 111u8, 114u8] {
        LevelFilter::Error
    } else if s == seq![119u8, 97u8, 114u8, 110u8] {
        LevelFilter::Warn
    } else if s == seq![105u8, 110u8, 102u8, 111u8] {
        LevelFilter::Info
    } else if s == seq![100u8, 101u8, 98u8, 117u8, 103u8] {
        LevelFilter::Debug
    } else if s == seq![116u8, 114u8, 97u8, 99u8, 101u8] {
        LevelFilter::Trace
    } else {
        LevelFilter::Off
    }
}

/// Whether two byte rows hold the same bytes.
fn bytes_eq(a: &Vec<u8>, b: &Vec<u8>) -> (r: bool)
    ensures
        r == (a@ == b@),
{
    if a.len() != b.len() {
        return false;
    }
    let n = a.len();
    let mut i: usize = 0;
    while i < n
        invariant
            n == a@.len(),
            n == b@.len(),
            i <= n,
            forall|k: int| 0 <= k < i ==> a@[k] == b@[k],
        decreases n - i,
    {
        if a[i] != b[i] {
            return false;
        }
        i = i + 1;
    }
    proof {
        assert(a@ =~= b@);
    }
    true
}

/// Choose the logging filter from the environment's level word: the five
/// severity names select themselves, anything else (a missing word
/// included) turns logging off. Installing the chosen filter in the
/// logging facility is the caller's part.
pub fn init(env: Option<&Vec<u8>>) -> (r: LevelFilter)
    ensures
        env is None ==> r == LevelFilter::Off,
        env matches Some(v) ==> r == spec_level_from_env(v@),
{
    match env {
        None => LevelFilter::Off,
        Some(v) => {
            let kw_error: Vec<u8> = vec![101u8, 114u8, 114u8, 111u8, 114u8];
            let kw_warn: Vec<u8> = vec![119u8, 97u8, 114u8, 110u8];
            let kw_info: Vec<u8> = vec![105u8, 110u8, 102u8, 111u8];
            let kw_debug: Vec<u8> = vec![100u8, 101u8, 98u8, 117u8, 103u8];
            let kw_trace: Vec<u8> = vec![116u8, 114u8, 97u8, 99u8, 101u8];
            if bytes_eq(v, &kw_error) {
                LevelFilter::Error
            } else if bytes_eq(v, &kw_warn) {
                LevelFilter::Warn
            } else if bytes_eq(v, &kw_info) {
                LevelFilter::Info
            } else if bytes_eq(v, &kw_debug) {
                LevelFilter::Debug
            } else if bytes_eq(v, &kw_trace) {
                LevelFilter::Trace
            } else {
                LevelFilter::Off
            }
        },
    }
}

} // verus!
