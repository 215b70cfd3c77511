//! The command line: options of the `detect` and `flash` commands, the wire
//! protocol, addresses and clock speeds, and the dispatch on the command word.

use vstd::prelude::*;
use crate::models::strings_view;
use crate::text::{
    all_digits, is_piece_of, lemma_piece_of_piece, lemma_trim_char, lemma_trim_ws_piece, decimal, digits_in, digits_value, is_white_space, lemma_digits_ignore_case, lemma_digits_in_value, upper_seq, lemma_trim_plain, has_prefix, lower_seq, parse_u32, parse_u64, parse_unsigned, parse_usize, push_str,
    starts_with_char, str_eq, strip_prefix, to_ascii_lowercase, trim, trim_char, trim_matches, trim_ws,
    u64_from_str_radix,
};

verus! {

/// The debug wire protocols.
#[derive(Clone, Copy, PartialEq, Eq, Debug)]
pub enum Protocol {
    Swd,
    Jtag,
}

/// How to reach the target: which probe (numbered from 1), the protocol, the
/// clock in kHz and whether to connect while the target is held in reset.
#[derive(Clone, Copy, Debug)]
pub struct ConnectionOptions {
    pub probe_number: usize,
    pub protocol: Protocol,
    pub speed_khz: u32,
    pub connect_under_reset: bool,
}

/// The defaults: probe 1, SWD, 4000 kHz, no connect under reset.
pub open spec fn default_connection() -> ConnectionOptions {
    ConnectionOptions { probe_number: 1, protocol: Protocol::Swd, speed_khz: 4000, connect_under_reset: false }
}

impl Default for ConnectionOptions {
    fn default() -> (r: ConnectionOptions)
        ensures
            r == default_connection(),
    {
        ConnectionOptions { probe_number: 1, protocol: Protocol::Swd, speed_khz: 4_000, connect_under_reset: false }
    }
}

/// What the `flash` command was asked to do.
#[derive(Debug)]
pub struct FlashOptions {
    pub connection: ConnectionOptions,
    pub firmware: String,
    pub target: Option<String>,
    pub base_address: Option<u64>,
    pub verify: bool,
    pub chip_erase: bool,
    pub reset_after: bool,
}

/// The settings gathered while reading options (of `flash`; `detect` reads
/// only the connection part).
pub struct OptionsView {
    pub connection: ConnectionOptions,
    pub target: Option<Seq<char>>,
    pub base_address: Option<u64>,
    pub verify: bool,
    pub chip_erase: bool,
    pub reset_after: bool,
}

/// The content of [`FlashOptions`].
pub struct FlashOptionsView {
    pub connection: ConnectionOptions,
    pub firmware: Seq<char>,
    pub target: Option<Seq<char>>,
    pub base_address: Option<u64>,
    pub verify: bool,
    pub chip_erase: bool,
    pub reset_after: bool,
}

impl View for FlashOptions {
    type V = FlashOptionsView;

    open spec fn view(&self) -> FlashOptionsView {
        FlashOptionsView {
            connection: self.connection,
            firmware: self.firmware@,
            target: match self.target {
                Some(t) => Some(t@),
                None => None,
            },
            base_address: self.base_address,
            verify: self.verify,
            chip_erase: self.chip_erase,
            reset_after: self.reset_after,
        }
    }
}

/// Settings before any option: the default connection, no target, no base
/// address, verify and reset on, chip erase off.
pub open spec fn initial_options() -> OptionsView {
    OptionsView {
        connection: default_connection(),
        target: None,
        base_address: None,
        verify: true,
        chip_erase: false,
        reset_after: true,
    }
}

// ---------------------------------------------------------------------------
// Single values
// ---------------------------------------------------------------------------

/// The protocol named by `value` (trimmed, ASCII case ignored).
pub open spec fn protocol_of(value: Seq<char>) -> Result<Protocol, Seq<char>> {
    let v = lower_seq(trim_ws(value));
    if v == "swd"@ {
        Ok(Protocol::Swd)
    } else if v == "jtag"@ {
        Ok(Protocol::Jtag)
    } else {
        Err("协议仅支持 SWD 或 JTAG"@)
    }
}

/// Reads a protocol name: `swd` or `jtag`, ignoring surrounding whitespace
/// and ASCII case.
pub fn parse_protocol(value: &str) -> (r: Result<Protocol, String>)
    ensures
        result_view(r) == protocol_of(value@),
{
    let v = to_ascii_lowercase(trim(value));
    if str_eq(v.as_str(), "swd") {
        Ok(Protocol::Swd)
    } else if str_eq(v.as_str(), "jtag") {
        Ok(Protocol::Jtag)
    } else {
        Err("协议仅支持 SWD 或 JTAG".to_owned())
    }
}

/// A result whose error is a string, seen with the error's characters.
pub open spec fn result_view<T>(r: Result<T, String>) -> Result<T, Seq<char>> {
    match r {
        Ok(v) => Ok(v),
        Err(e) => Err(e@),
    }
}

/// The address denoted by `value`: after trimming, hexadecimal after a `0x`
/// or `0X` prefix, decimal otherwise.
pub open spec fn address_of(value: Seq<char>) -> Result<u64, Seq<char>> {
    let v = trim_ws(value);
    let parsed = if has_prefix(v, "0x"@) || has_prefix(v, "0X"@) {
        parse_unsigned(v.skip(2), 16, u64::MAX as nat)
    } else {
        parse_unsigned(v, 10, u64::MAX as nat)
    };
    match parsed {
        Some(n) => Ok(n as u64),
        None => Err("无效地址："@ + v),
    }
}

/// Reads an address: hexadecimal with a `0x`/`0X` prefix, else decimal.
pub fn parse_address(value: &str) -> (r: Result<u64, String>)
    ensures
        result_view(r) == address_of(value@),
{
    let value = trim(value);
    let hex = match strip_prefix(value, "0x") {
        Some(rest) => Some(rest),
        None => strip_prefix(value, "0X"),
    };
    let parsed = match hex {
        Some(digits) => {
            assert("0x"@.len() == 2 && "0X"@.len() == 2) by {
                reveal_strlit("0x");
                reveal_strlit("0X");
            }
            u64_from_str_radix(digits, 16)
        },
        None => parse_u64(value),
    };
    match parsed {
        Some(n) => Ok(n),
        None => {
            let mut e = String::new();
            push_str(&mut e, "无效地址：");
            push_str(&mut e, value);
            Err(e)
        },
    }
}

/// A number written in decimal, or in hexadecimal (digits in either case)
/// after `0x` or `0X`, reads back as that number, also with spaces around.
pub proof fn lemma_address_forms(n: u64)
    ensures
        address_of(decimal(n as nat)) == Ok::<u64, Seq<char>>(n),
        address_of("0x"@ + digits_in(n as nat, 16)) == Ok::<u64, Seq<char>>(n),
        address_of("0X"@ + digits_in(n as nat, 16)) == Ok::<u64, Seq<char>>(n),
        address_of("0x"@ + upper_seq(digits_in(n as nat, 16))) == Ok::<u64, Seq<char>>(n),
        address_of("0X"@ + upper_seq(digits_in(n as nat, 16))) == Ok::<u64, Seq<char>>(n),
        address_of(seq![' '] + decimal(n as nat) + seq![' ']) == Ok::<u64, Seq<char>>(n),
        address_of(seq![' '] + "0x"@ + digits_in(n as nat, 16) + seq![' ']) == Ok::<u64, Seq<char>>(n),
{
    let d = decimal(n as nat);
    lemma_digits_in_value(n as nat, 10);
    lemma_address_text(d, d, 10, n);
    let x = digits_in(n as nat, 16);
    lemma_digits_in_value(n as nat, 16);
    reveal_strlit("0x");
    reveal_strlit("0X");
    assert(("0x"@ + x).take(2) =~= "0x"@ && ("0x"@ + x).skip(2) =~= x);
    assert(("0X"@ + x).take(2) =~= "0X"@ && ("0X"@ + x).skip(2) =~= x);
    lemma_address_text("0x"@ + x, x, 16, n);
    lemma_address_text("0X"@ + x, x, 16, n);
    let ux = upper_seq(x);
    lemma_digits_ignore_case(x, 16);
    assert forall|i: int| 0 <= i < ux.len() implies {
        let c = #[trigger] ux[i];
        &&& !is_white_space(c)
        &&& c != '+'
        &&& c != 'x'
        &&& c != 'X'
    } by {
        let c = x[i];
        assert(!is_white_space(c) && c != '+' && c != 'x' && c != 'X');
        if 'a' <= c && c <= 'z' {
            assert(((c as u32) - 32) as char as u32 == (c as u32) - 32);
        }
    }
    assert(("0x"@ + ux).take(2) =~= "0x"@ && ("0x"@ + ux).skip(2) =~= ux);
    assert(("0X"@ + ux).take(2) =~= "0X"@ && ("0X"@ + ux).skip(2) =~= ux);
    lemma_address_text("0x"@ + ux, ux, 16, n);
    lemma_address_text("0X"@ + ux, ux, 16, n);
    lemma_spaces_around(d);
    assert(address_of(seq![' '] + d + seq![' ']) == address_of(d));
    lemma_spaces_around("0x"@ + x);
    assert(seq![' '] + "0x"@ + x + seq![' '] =~= seq![' '] + ("0x"@ + x) + seq![' ']);
}

/// Digits `body` (after `0x`/`0X` in radix 16, alone in radix 10) without
/// sign, spaces or `x` that denote `n`: the text `t` reads back as `n`.
proof fn lemma_address_text(t: Seq<char>, body: Seq<char>, radix: nat, n: u64)
    requires
        radix == 10 || radix == 16,
        radix == 16 ==> t.len() > 2 && (t.take(2) == "0x"@ || t.take(2) == "0X"@) && body == t.skip(2),
        radix == 10 ==> body == t,
        body.len() > 0,
        all_digits(body, radix),
        digits_value(body, radix) == n,
        forall|i: int| 0 <= i < body.len() ==> {
            let c = #[trigger] body[i];
            &&& !is_white_space(c)
            &&& c != '+'
            &&& c != 'x'
            &&& c != 'X'
        },
    ensures
        address_of(t) == Ok::<u64, Seq<char>>(n),
{
    reveal_strlit("0x");
    reveal_strlit("0X");
    assert(body[0] != '+');
    assert(!is_white_space(body[body.len() - 1]));
    if radix == 16 {
        assert(t[0] == t.take(2)[0]);
        assert(t.last() == body[body.len() - 1]);
        assert(!is_white_space(t[0]));
        lemma_trim_plain(t);
    } else {
        assert(!is_white_space(body[0]));
        lemma_trim_plain(t);
        if t.len() >= 2 {
            assert(t[1] != 'x' && t[1] != 'X');
            assert(t.take(2) != "0x"@) by {
                assert(t.take(2)[1] == t[1]);
            }
            assert(t.take(2) != "0X"@) by {
                assert(t.take(2)[1] == t[1]);
            }
        }
    }
}

/// One space on either side of text that neither starts nor ends with
/// whitespace is trimmed away.
proof fn lemma_spaces_around(t: Seq<char>)
    requires
        t.len() > 0,
        !is_white_space(t[0]),
        !is_white_space(t.last()),
    ensures
        trim_ws(seq![' '] + t + seq![' ']) == t,
{
    let s = seq![' '] + t + seq![' '];
    assert(is_white_space(' '));
    assert(s.drop_first() =~= t + seq![' ']);
    let u = t + seq![' '];
    assert(u[0] == t[0]);
    assert(s[0] == ' ');
    assert(crate::text::trim_start_ws(u) == u);
    assert(crate::text::trim_start_ws(s) == u);
    assert(u.drop_last() =~= t);
    assert(crate::text::trim_end_ws(t) == t);
}

/// An address that cannot be read is reported with the trimmed text.
pub proof fn lemma_address_error(value: Seq<char>)
    ensures
        address_of(value) matches Err(e) ==> e == "无效地址："@ + trim_ws(value),
{
}

/// The clock speed denoted by `value`, at least 1 kHz.
pub open spec fn speed_of(value: Seq<char>) -> Result<u32, Seq<char>> {
    match parse_unsigned(value, 10, u32::MAX as nat) {
        Some(n) => Ok(if n < 1 { 1u32 } else { n as u32 }),
        None => Err("--speed 必须是正整数"@),
    }
}

/// A clock speed that is read is never below 1 kHz.
pub proof fn lemma_speed_positive(value: Seq<char>)
    ensures
        speed_of(value) matches Ok(s) ==> s >= 1,
{
}

/// Reads a clock speed in kHz; zero is raised to 1.
pub fn parse_speed(value: &str) -> (r: Result<u32, String>)
    ensures
        result_view(r) == speed_of(value@),
{
    match parse_u32(value) {
        Some(n) => Ok(if n < 1 { 1 } else { n }),
        None => Err("--speed 必须是正整数".to_owned()),
    }
}

/// The probe number denoted by `value`.
pub open spec fn probe_number_of(value: Seq<char>) -> Result<usize, Seq<char>> {
    match parse_unsigned(value, 10, usize::MAX as nat) {
        Some(n) => Ok(n as usize),
        None => Err("--probe 必须是数字"@),
    }
}

/// Reads a probe number.
pub fn parse_probe_number(value: &str) -> (r: Result<usize, String>)
    ensures
        result_view(r) == probe_number_of(value@),
{
    match parse_usize(value) {
        Some(n) => Ok(n),
        None => Err("--probe 必须是数字".to_owned()),
    }
}

/// A path with surrounding whitespace, then double quotes, then single
/// quotes removed.
pub open spec fn unquoted(value: Seq<char>) -> Seq<char> {
    trim_char(trim_char(trim_ws(value), '"'), '\'')
}

/// Removes the quotes a pasted path may carry.
pub fn strip_path_quotes(value: &str) -> (r: String)
    ensures
        r@ == unquoted(value@),
{
    trim_matches(trim_matches(trim(value), '"'), '\'').to_owned()
}

/// Removing quotes keeps a contiguous piece of the text, which neither starts
/// nor ends with a single quote; a path whose ends are neither whitespace nor
/// quotes is kept as it is (quotes inside it included).
pub proof fn lemma_unquoted(value: Seq<char>)
    ensures
        is_piece_of(unquoted(value), value),
        unquoted(value).len() > 0 ==> unquoted(value)[0] != '\'' && unquoted(value).last() != '\'',
        value.len() == 0 || ({
            let a = value[0];
            let b = value.last();
            &&& !is_white_space(a) && a != '"' && a != '\''
            &&& !is_white_space(b) && b != '"' && b != '\''
        }) ==> unquoted(value) == value,
{
    let t = trim_ws(value);
    let u = trim_char(t, '"');
    lemma_trim_ws_piece(value);
    lemma_trim_char(t, '"');
    lemma_trim_char(u, '\'');
    lemma_piece_of_piece(u, t, value);
    lemma_piece_of_piece(unquoted(value), u, value);
    if value.len() > 0 && !is_white_space(value[0]) && !is_white_space(value.last()) {
        lemma_trim_plain(value);
    }
}

// ---------------------------------------------------------------------------
// Option lists
// ---------------------------------------------------------------------------

/// The options a command line can hold.
#[derive(PartialEq, Eq, Debug)]
pub enum Flag {
    Probe,
    Protocol,
    Speed,
    ConnectUnderReset,
    Target,
    BaseAddress,
    ChipErase,
    NoVerify,
    NoReset,
    Unknown,
}

/// Which option `arg` is; the `flash`-only options count only when
/// `flash_options` holds.
pub open spec fn flag_of(arg: Seq<char>, flash_options: bool) -> Flag {
    if arg == "--probe"@ {
        Flag::Probe
    } else if arg == "--protocol"@ {
        Flag::Protocol
    } else if arg == "--speed"@ {
        Flag::Speed
    } else if arg == "--connect-under-reset"@ {
        Flag::ConnectUnderReset
    } else if flash_options && arg == "--target"@ {
        Flag::Target
    } else if flash_options && arg == "--base-address"@ {
        Flag::BaseAddress
    } else if flash_options && arg == "--chip-erase"@ {
        Flag::ChipErase
    } else if flash_options && arg == "--no-verify"@ {
        Flag::NoVerify
    } else if flash_options && arg == "--no-reset"@ {
        Flag::NoReset
    } else {
        Flag::Unknown
    }
}

/// Which option `arg` is.
pub fn classify_flag(arg: &str, flash_options: bool) -> (r: Flag)
    ensures
        r == flag_of(arg@, flash_options),
{
    if str_eq(arg, "--probe") {
        Flag::Probe
    } else if str_eq(arg, "--protocol") {
        Flag::Protocol
    } else if str_eq(arg, "--speed") {
        Flag::Speed
    } else if str_eq(arg, "--connect-under-reset") {
        Flag::ConnectUnderReset
    } else if flash_options && str_eq(arg, "--target") {
        Flag::Target
    } else if flash_options && str_eq(arg, "--base-address") {
        Flag::BaseAddress
    } else if flash_options && str_eq(arg, "--chip-erase") {
        Flag::ChipErase
    } else if flash_options && str_eq(arg, "--no-verify") {
        Flag::NoVerify
    } else if flash_options && str_eq(arg, "--no-reset") {
        Flag::NoReset
    } else {
        Flag::Unknown
    }
}

/// The value after the option at `index`, or the error that it is missing.
pub open spec fn value_after(args: Seq<Seq<char>>, index: int, name: Seq<char>) -> Result<Seq<char>, Seq<char>> {
    if index + 1 < args.len() {
        Ok(args[index + 1])
    } else {
        Err(name + " 缺少参数"@)
    }
}

/// Steps `index` to the option's value and gives it, or the error that the
/// value is missing.
pub fn next_value<'a>(args: &'a [String], index: &mut usize, name: &str) -> (r: Result<&'a str, String>)
    requires
        *old(index) < usize::MAX,
    ensures
        *final(index) == *old(index) + 1,
        result_view_str(r) == value_after(strings_view(args@), *old(index) as int, name@),
{
    *index = *index + 1;
    if *index < args.len() {
        Ok(args[*index].as_str())
    } else {
        let mut e = String::new();
        push_str(&mut e, name);
        push_str(&mut e, " 缺少参数");
        Err(e)
    }
}

/// A result holding a string slice, seen with characters on both sides.
pub open spec fn result_view_str(r: Result<&str, String>) -> Result<Seq<char>, Seq<char>> {
    match r {
        Ok(v) => Ok(v@),
        Err(e) => Err(e@),
    }
}

/// The settings after reading the options from `index` on, or the first error.
pub open spec fn options_from(args: Seq<Seq<char>>, index: int, st: OptionsView, flash_options: bool) -> Result<
    OptionsView,
    Seq<char>,
>
    decreases args.len() - index,
{
    if index < 0 || index >= args.len() {
        Ok(st)
    } else {
        let c = st.connection;
        match flag_of(args[index], flash_options) {
            Flag::Probe => match value_after(args, index, "--probe"@) {
                Ok(v) => match probe_number_of(v) {
                    Ok(n) => options_from(
                        args,
                        index + 2,
                        OptionsView { connection: ConnectionOptions { probe_number: n, ..c }, ..st },
                        flash_options,
                    ),
                    Err(e) => Err(e),
                },
                Err(e) => Err(e),
            },
            Flag::Protocol => match value_after(args, index, "--protocol"@) {
                Ok(v) => match protocol_of(v) {
                    Ok(p) => options_from(
                        args,
                        index + 2,
                        OptionsView { connection: ConnectionOptions { protocol: p, ..c }, ..st },
                        flash_options,
                    ),
                    Err(e) => Err(e),
                },
                Err(e) => Err(e),
            },
            Flag::Speed => match value_after(args, index, "--speed"@) {
                Ok(v) => match speed_of(v) {
                    Ok(s) => options_from(
                        args,
                        index + 2,
                        OptionsView { connection: ConnectionOptions { speed_khz: s, ..c }, ..st },
                        flash_options,
                    ),
                    Err(e) => Err(e),
                },
                Err(e) => Err(e),
            },
            Flag::ConnectUnderReset => options_from(
                args,
                index + 1,
                OptionsView { connection: ConnectionOptions { connect_under_reset: true, ..c }, ..st },
                flash_options,
            ),
            Flag::Target => match value_after(args, index, "--target"@) {
                Ok(v) => options_from(args, index + 2, OptionsView { target: Some(v), ..st }, flash_options),
                Err(e) => Err(e),
            },
            Flag::BaseAddress => match value_after(args, index, "--base-address"@) {
                Ok(v) => match address_of(v) {
                    Ok(a) => options_from(args, index + 2, OptionsView { base_address: Some(a), ..st }, flash_options),
                    Err(e) => Err(e),
                },
                Err(e) => Err(e),
            },
            Flag::ChipErase => options_from(args, index + 1, OptionsView { chip_erase: true, ..st }, flash_options),
            Flag::NoVerify => options_from(args, index + 1, OptionsView { verify: false, ..st }, flash_options),
            Flag::NoReset => options_from(args, index + 1, OptionsView { reset_after: false, ..st }, flash_options),
            Flag::Unknown => Err("未知选项："@ + args[index]),
        }
    }
}

/// Options that start from a clock of at least 1 kHz end with one.
pub proof fn lemma_options_keep_clock_positive(args: Seq<Seq<char>>, index: int, st: OptionsView, flash_options: bool)
    requires
        st.connection.speed_khz >= 1,
    ensures
        options_from(args, index, st, flash_options) matches Ok(o) ==> o.connection.speed_khz >= 1,
    decreases args.len() - index,
{
    if 0 <= index < args.len() {
        let c = st.connection;
        match flag_of(args[index], flash_options) {
            Flag::Probe => if let Ok(v) = value_after(args, index, "--probe"@) {
                if let Ok(n) = probe_number_of(v) {
                    lemma_options_keep_clock_positive(args, index + 2, OptionsView { connection: ConnectionOptions { probe_number: n, ..c }, ..st }, flash_options);
                }
            },
            Flag::Protocol => if let Ok(v) = value_after(args, index, "--protocol"@) {
                if let Ok(p) = protocol_of(v) {
                    lemma_options_keep_clock_positive(args, index + 2, OptionsView { connection: ConnectionOptions { protocol: p, ..c }, ..st }, flash_options);
                }
            },
            Flag::Speed => if let Ok(v) = value_after(args, index, "--speed"@) {
                lemma_speed_positive(v);
                if let Ok(sp) = speed_of(v) {
                    lemma_options_keep_clock_positive(args, index + 2, OptionsView { connection: ConnectionOptions { speed_khz: sp, ..c }, ..st }, flash_options);
                }
            },
            Flag::ConnectUnderReset => {
                lemma_options_keep_clock_positive(args, index + 1, OptionsView { connection: ConnectionOptions { connect_under_reset: true, ..c }, ..st }, flash_options);
            },
            Flag::Target => if let Ok(v) = value_after(args, index, "--target"@) {
                lemma_options_keep_clock_positive(args, index + 2, OptionsView { target: Some(v), ..st }, flash_options);
            },
            Flag::BaseAddress => if let Ok(v) = value_after(args, index, "--base-address"@) {
                if let Ok(a) = address_of(v) {
                    lemma_options_keep_clock_positive(args, index + 2, OptionsView { base_address: Some(a), ..st }, flash_options);
                }
            },
            Flag::ChipErase => {
                lemma_options_keep_clock_positive(args, index + 1, OptionsView { chip_erase: true, ..st }, flash_options);
            },
            Flag::NoVerify => {
                lemma_options_keep_clock_positive(args, index + 1, OptionsView { verify: false, ..st }, flash_options);
            },
            Flag::NoReset => {
                lemma_options_keep_clock_positive(args, index + 1, OptionsView { reset_after: false, ..st }, flash_options);
            },
            Flag::Unknown => {},
        }
    }
}

/// Options are read one after another: when the options in `a` (from
/// `index` on) read without error, the options of `a` followed by `b` are
/// those of `b` read on top of the settings that `a` gave.
pub proof fn lemma_options_in_sequence(
    a: Seq<Seq<char>>,
    b: Seq<Seq<char>>,
    index: int,
    st: OptionsView,
    flash_options: bool,
)
    requires
        0 <= index <= a.len(),
        options_from(a, index, st, flash_options) is Ok,
    ensures
        options_from(a + b, index, st, flash_options) == options_from(
            a + b,
            a.len() as int,
            options_from(a, index, st, flash_options)->Ok_0,
            flash_options,
        ),
    decreases a.len() - index,
{
    let ab = a + b;
    if index < a.len() {
        assert(ab[index] == a[index]);
        if index + 1 < a.len() {
            assert(ab[index + 1] == a[index + 1]);
        }
        let c = st.connection;
        match flag_of(a[index], flash_options) {
            Flag::Probe => {
                let v = a[index + 1];
                if let Ok(n) = probe_number_of(v) {
                    lemma_options_in_sequence(a, b, index + 2, OptionsView { connection: ConnectionOptions { probe_number: n, ..c }, ..st }, flash_options);
                }
            },
            Flag::Protocol => {
                let v = a[index + 1];
                if let Ok(p) = protocol_of(v) {
                    lemma_options_in_sequence(a, b, index + 2, OptionsView { connection: ConnectionOptions { protocol: p, ..c }, ..st }, flash_options);
                }
            },
            Flag::Speed => {
                let v = a[index + 1];
                if let Ok(sp) = speed_of(v) {
                    lemma_options_in_sequence(a, b, index + 2, OptionsView { connection: ConnectionOptions { speed_khz: sp, ..c }, ..st }, flash_options);
                }
            },
            Flag::ConnectUnderReset => {
                lemma_options_in_sequence(a, b, index + 1, OptionsView { connection: ConnectionOptions { connect_under_reset: true, ..c }, ..st }, flash_options);
            },
            Flag::Target => {
                let v = a[index + 1];
                lemma_options_in_sequence(a, b, index + 2, OptionsView { target: Some(v), ..st }, flash_options);
            },
            Flag::BaseAddress => {
                let v = a[index + 1];
                if let Ok(ad) = address_of(v) {
                    lemma_options_in_sequence(a, b, index + 2, OptionsView { base_address: Some(ad), ..st }, flash_options);
                }
            },
            Flag::ChipErase => {
                lemma_options_in_sequence(a, b, index + 1, OptionsView { chip_erase: true, ..st }, flash_options);
            },
            Flag::NoVerify => {
                lemma_options_in_sequence(a, b, index + 1, OptionsView { verify: false, ..st }, flash_options);
            },
            Flag::NoReset => {
                lemma_options_in_sequence(a, b, index + 1, OptionsView { reset_after: false, ..st }, flash_options);
            },
            Flag::Unknown => {},
        }
    }
}

/// The last of repeated options wins: a `--speed` or `--target` given after
/// options that read without error sets the clock or the target, whatever
/// came before.
pub proof fn lemma_last_option_wins(a: Seq<Seq<char>>, v: Seq<char>, index: int, st: OptionsView)
    requires
        0 <= index <= a.len(),
        options_from(a, index, st, true) is Ok,
    ensures
        ({
            let o = options_from(a, index, st, true)->Ok_0;
            &&& options_from(a + seq!["--speed"@, v], index, st, true) == match speed_of(v) {
                Ok(sp) => Ok(OptionsView { connection: ConnectionOptions { speed_khz: sp, ..o.connection }, ..o }),
                Err(e) => Err(e),
            }
            &&& options_from(a + seq!["--target"@, v], index, st, true) == Ok::<OptionsView, Seq<char>>(
                OptionsView { target: Some(v), ..o },
            )
        }),
{
    reveal_strlit("--probe");
    reveal_strlit("--protocol");
    reveal_strlit("--speed");
    reveal_strlit("--connect-under-reset");
    reveal_strlit("--target");
    let o = options_from(a, index, st, true)->Ok_0;
    let b1 = seq!["--speed"@, v];
    let b2 = seq!["--target"@, v];
    lemma_options_in_sequence(a, b1, index, st, true);
    lemma_options_in_sequence(a, b2, index, st, true);
    let s1 = a + b1;
    let s2 = a + b2;
    assert(s1[a.len() as int] == "--speed"@ && s1[a.len() as int + 1] == v);
    assert(s2[a.len() as int] == "--target"@ && s2[a.len() as int + 1] == v);
    assert("--speed"@ != "--probe"@) by {
        assert("--speed"@[2] != "--probe"@[2]);
    }
    assert(flag_of("--speed"@, true) == Flag::Speed);
    assert(flag_of("--target"@, true) == Flag::Target);
    let c = o.connection;
    if let Ok(sp) = speed_of(v) {
        let o2 = OptionsView { connection: ConnectionOptions { speed_khz: sp, ..c }, ..o };
        assert(options_from(s1, a.len() as int + 2, o2, true) == Ok::<OptionsView, Seq<char>>(o2));
    }
    assert(options_from(s2, a.len() as int + 2, OptionsView { target: Some(v), ..o }, true) == Ok::<OptionsView, Seq<char>>(
        OptionsView { target: Some(v), ..o },
    ));
}

/// An unknown option where an option is expected is refused with its text,
/// whatever follows it.
pub proof fn lemma_unknown_option_refused(
    a: Seq<Seq<char>>,
    v: Seq<char>,
    b: Seq<Seq<char>>,
    index: int,
    st: OptionsView,
    flash_options: bool,
)
    requires
        0 <= index <= a.len(),
        options_from(a, index, st, flash_options) is Ok,
        flag_of(v, flash_options) == Flag::Unknown,
    ensures
        options_from(a + seq![v] + b, index, st, flash_options) == Err::<OptionsView, Seq<char>>("未知选项："@ + v),
{
    let tail = seq![v] + b;
    assert(a + seq![v] + b =~= a + tail);
    lemma_options_in_sequence(a, tail, index, st, flash_options);
    assert((a + tail)[a.len() as int] == v);
}

/// The options that are followed by a value.
pub open spec fn takes_value(f: Flag) -> bool {
    f == Flag::Probe || f == Flag::Protocol || f == Flag::Speed || f == Flag::Target || f == Flag::BaseAddress
}

/// From `index` on, every argument is a known option or the value right
/// after an option that takes one.
pub open spec fn option_layout(args: Seq<Seq<char>>, index: int, flash_options: bool) -> bool
    decreases args.len() - index,
{
    if index < 0 || index >= args.len() {
        true
    } else {
        let f = flag_of(args[index], flash_options);
        f != Flag::Unknown && if takes_value(f) {
            index + 1 < args.len() && option_layout(args, index + 2, flash_options)
        } else {
            option_layout(args, index + 1, flash_options)
        }
    }
}

/// Option `g` is given from `index` on (reading options and their values
/// as the parser does).
pub open spec fn gives_flag(args: Seq<Seq<char>>, index: int, flash_options: bool, g: Flag) -> bool
    decreases args.len() - index,
{
    if index < 0 || index >= args.len() {
        false
    } else {
        let f = flag_of(args[index], flash_options);
        f == g || if takes_value(f) {
            index + 1 < args.len() && gives_flag(args, index + 2, flash_options, g)
        } else {
            gives_flag(args, index + 1, flash_options, g)
        }
    }
}

/// The setting of option `f` is the same in `a` and `b`.
pub open spec fn same_setting(a: OptionsView, b: OptionsView, f: Flag) -> bool {
    match f {
        Flag::Probe => a.connection.probe_number == b.connection.probe_number,
        Flag::Protocol => a.connection.protocol == b.connection.protocol,
        Flag::Speed => a.connection.speed_khz == b.connection.speed_khz,
        Flag::Target => a.target == b.target,
        Flag::BaseAddress => a.base_address == b.base_address,
        _ => true,
    }
}

/// `o` holds what option `f` with value `v` sets.
pub open spec fn sets(o: OptionsView, f: Flag, v: Seq<char>) -> bool {
    match f {
        Flag::Probe => probe_number_of(v) == Ok::<usize, Seq<char>>(o.connection.probe_number),
        Flag::Protocol => protocol_of(v) == Ok::<Protocol, Seq<char>>(o.connection.protocol),
        Flag::Speed => speed_of(v) == Ok::<u32, Seq<char>>(o.connection.speed_khz),
        Flag::Target => o.target == Some(v),
        Flag::BaseAddress => o.base_address is Some && address_of(v) == Ok::<u64, Seq<char>>(o.base_address->0),
        _ => true,
    }
}

/// What reading options from `index` gives, when it gives settings: every
/// argument was a known option or its value; a flag without value is set
/// exactly when given; an option with a value that is not given keeps its
/// setting; and the clock stays at least 1 kHz.
pub proof fn lemma_options_settings(args: Seq<Seq<char>>, index: int, st: OptionsView, flash_options: bool)
    ensures
        options_from(args, index, st, flash_options) matches Ok(o) ==> {
            &&& option_layout(args, index, flash_options)
            &&& o.connection.connect_under_reset == (st.connection.connect_under_reset || gives_flag(
                args,
                index,
                flash_options,
                Flag::ConnectUnderReset,
            ))
            &&& o.chip_erase == (st.chip_erase || gives_flag(args, index, flash_options, Flag::ChipErase))
            &&& o.verify == (st.verify && !gives_flag(args, index, flash_options, Flag::NoVerify))
            &&& o.reset_after == (st.reset_after && !gives_flag(args, index, flash_options, Flag::NoReset))
            &&& forall|g: Flag| #[trigger] takes_value(g) && !gives_flag(args, index, flash_options, g) ==> same_setting(o, st, g)
            &&& st.connection.speed_khz >= 1 ==> o.connection.speed_khz >= 1
        },
    decreases args.len() - index,
{
    if 0 <= index < args.len() {
        let c = st.connection;
        let f = flag_of(args[index], flash_options);
        let next = if takes_value(f) { index + 2 } else { index + 1 };
        let st2 = match f {
            Flag::Probe => match value_after(args, index, "--probe"@) {
                Ok(v) => match probe_number_of(v) {
                    Ok(n) => OptionsView { connection: ConnectionOptions { probe_number: n, ..c }, ..st },
                    Err(_) => st,
                },
                Err(_) => st,
            },
            Flag::Protocol => match value_after(args, index, "--protocol"@) {
                Ok(v) => match protocol_of(v) {
                    Ok(p) => OptionsView { connection: ConnectionOptions { protocol: p, ..c }, ..st },
                    Err(_) => st,
                },
                Err(_) => st,
            },
            Flag::Speed => match value_after(args, index, "--speed"@) {
                Ok(v) => match speed_of(v) {
                    Ok(sp) => OptionsView { connection: ConnectionOptions { speed_khz: sp, ..c }, ..st },
                    Err(_) => st,
                },
                Err(_) => st,
            },
            Flag::ConnectUnderReset => OptionsView { connection: ConnectionOptions { connect_under_reset: true, ..c }, ..st },
            Flag::Target => match value_after(args, index, "--target"@) {
                Ok(v) => OptionsView { target: Some(v), ..st },
                Err(_) => st,
            },
            Flag::BaseAddress => match value_after(args, index, "--base-address"@) {
                Ok(v) => match address_of(v) {
                    Ok(a) => OptionsView { base_address: Some(a), ..st },
                    Err(_) => st,
                },
                Err(_) => st,
            },
            Flag::ChipErase => OptionsView { chip_erase: true, ..st },
            Flag::NoVerify => OptionsView { verify: false, ..st },
            Flag::NoReset => OptionsView { reset_after: false, ..st },
            Flag::Unknown => st,
        };
        if let Ok(o) = options_from(args, index, st, flash_options) {
            assert(f != Flag::Unknown);
            assert(takes_value(f) ==> index + 1 < args.len());
            if f == Flag::Speed {
                lemma_speed_positive(args[index + 1]);
            }
            assert(options_from(args, index, st, flash_options) == options_from(args, next, st2, flash_options));
            lemma_options_settings(args, next, st2, flash_options);
            assert forall|g: Flag| #[trigger] takes_value(g) && !gives_flag(args, index, flash_options, g) implies same_setting(o, st, g) by {
                assert(g != f);
                assert(same_setting(o, st2, g));
            }
        }
    }
}

/// An option with a value that is not given again later sets what its own
/// value says.
pub proof fn lemma_last_occurrence(args: Seq<Seq<char>>, k: int, st: OptionsView, flash_options: bool)
    requires
        0 <= k < args.len(),
        takes_value(flag_of(args[k], flash_options)),
        !gives_flag(args, k + 2, flash_options, flag_of(args[k], flash_options)),
        options_from(args, k, st, flash_options) is Ok,
    ensures
        k + 1 < args.len(),
        sets(options_from(args, k, st, flash_options)->Ok_0, flag_of(args[k], flash_options), args[k + 1]),
{
    let f = flag_of(args[k], flash_options);
    let v = args[k + 1];
    let c = st.connection;
    let st2 = match f {
        Flag::Probe => OptionsView { connection: ConnectionOptions { probe_number: probe_number_of(v)->Ok_0, ..c }, ..st },
        Flag::Protocol => OptionsView { connection: ConnectionOptions { protocol: protocol_of(v)->Ok_0, ..c }, ..st },
        Flag::Speed => OptionsView { connection: ConnectionOptions { speed_khz: speed_of(v)->Ok_0, ..c }, ..st },
        Flag::Target => OptionsView { target: Some(v), ..st },
        _ => OptionsView { base_address: Some(address_of(v)->Ok_0), ..st },
    };
    assert(options_from(args, k, st, flash_options) == options_from(args, k + 2, st2, flash_options));
    lemma_options_settings(args, k + 2, st2, flash_options);
    assert(takes_value(f) && !gives_flag(args, k + 2, flash_options, f));
}

/// The settings part of `flash` options.
pub open spec fn flash_settings(o: FlashOptionsView) -> OptionsView {
    OptionsView {
        connection: o.connection,
        target: o.target,
        base_address: o.base_address,
        verify: o.verify,
        chip_erase: o.chip_erase,
        reset_after: o.reset_after,
    }
}

/// `k` is where the parser reads an option: the arguments before it (after
/// the firmware path) read without error.
pub open spec fn option_position(args: Seq<Seq<char>>, k: int) -> bool {
    1 <= k < args.len() && options_from(args.take(k), 1, initial_options(), true) is Ok
}

/// The `flash` command line as a whole.  When it reads without error: the
/// firmware path is the first argument (not starting with `-`) without its
/// quotes; every later argument is a known option or the value right after
/// one; `--connect-under-reset` and `--chip-erase` are on, and verifying and
/// resetting off, exactly when given; an option with a value that is not
/// given keeps its default; of an option given more than once the last
/// occurrence wins; and the clock is at least 1 kHz.  An unknown option
/// where an option is expected makes the whole line fail with its text.
pub proof fn lemma_flash_command_line(args: Seq<Seq<char>>)
    ensures
        flash_options_of(args) matches Ok(fo) ==> {
            let o = flash_settings(fo);
            &&& args.len() > 0
            &&& !(args[0].len() > 0 && args[0][0] == '-')
            &&& fo.firmware == unquoted(args[0])
            &&& option_layout(args, 1, true)
            &&& o.connection.connect_under_reset == gives_flag(args, 1, true, Flag::ConnectUnderReset)
            &&& o.chip_erase == gives_flag(args, 1, true, Flag::ChipErase)
            &&& o.verify == !gives_flag(args, 1, true, Flag::NoVerify)
            &&& o.reset_after == !gives_flag(args, 1, true, Flag::NoReset)
            &&& forall|g: Flag| #[trigger] takes_value(g) && !gives_flag(args, 1, true, g) ==> same_setting(o, initial_options(), g)
            &&& forall|k: int|
                option_position(args, k) && takes_value(#[trigger] flag_of(args[k], true)) && !gives_flag(
                    args,
                    k + 2,
                    true,
                    flag_of(args[k], true),
                ) ==> k + 1 < args.len() && sets(o, flag_of(args[k], true), args[k + 1])
            &&& o.connection.speed_khz >= 1
        },
        forall|k: int|
            args.len() > 0 && !(args[0].len() > 0 && args[0][0] == '-') && option_position(args, k) && #[trigger] flag_of(
                args[k],
                true,
            ) == Flag::Unknown ==> flash_options_of(args) == Err::<FlashOptionsView, Seq<char>>("未知选项："@ + args[k]),
{
    let init = initial_options();
    lemma_options_settings(args, 1, init, true);
    assert forall|k: int| option_position(args, k) implies options_from(args, 1, init, true) == options_from(
        args,
        k,
        options_from(args.take(k), 1, init, true)->Ok_0,
        true,
    ) by {
        let a = args.take(k);
        let b = args.skip(k);
        assert(a + b =~= args);
        lemma_options_in_sequence(a, b, 1, init, true);
    }
    if let Ok(fo) = flash_options_of(args) {
        assert forall|k: int|
            option_position(args, k) && takes_value(#[trigger] flag_of(args[k], true)) && !gives_flag(
                args,
                k + 2,
                true,
                flag_of(args[k], true),
            ) implies k + 1 < args.len() && sets(flash_settings(fo), flag_of(args[k], true), args[k + 1]) by {
            let ok = options_from(args.take(k), 1, init, true)->Ok_0;
            lemma_last_occurrence(args, k, ok, true);
        }
    }
}

/// Each option word names its own option: `--probe`, `--protocol`,
/// `--speed` and `--connect-under-reset` in every command, the other five
/// only for `flash` (elsewhere they are unknown).
pub proof fn lemma_option_words(flash_options: bool)
    ensures
        flag_of("--probe"@, flash_options) == Flag::Probe,
        flag_of("--protocol"@, flash_options) == Flag::Protocol,
        flag_of("--speed"@, flash_options) == Flag::Speed,
        flag_of("--connect-under-reset"@, flash_options) == Flag::ConnectUnderReset,
        flag_of("--target"@, flash_options) == if flash_options { Flag::Target } else { Flag::Unknown },
        flag_of("--base-address"@, flash_options) == if flash_options { Flag::BaseAddress } else { Flag::Unknown },
        flag_of("--chip-erase"@, flash_options) == if flash_options { Flag::ChipErase } else { Flag::Unknown },
        flag_of("--no-verify"@, flash_options) == if flash_options { Flag::NoVerify } else { Flag::Unknown },
        flag_of("--no-reset"@, flash_options) == if flash_options { Flag::NoReset } else { Flag::Unknown },
{
    reveal_strlit("--probe");
    reveal_strlit("--protocol");
    reveal_strlit("--speed");
    reveal_strlit("--connect-under-reset");
    reveal_strlit("--target");
    reveal_strlit("--base-address");
    reveal_strlit("--chip-erase");
    reveal_strlit("--no-verify");
    reveal_strlit("--no-reset");
    let probe = "--probe"@;
    let protocol = "--protocol"@;
    let speed = "--speed"@;
    let cur = "--connect-under-reset"@;
    let target = "--target"@;
    let base = "--base-address"@;
    let erase = "--chip-erase"@;
    let skip_verify = "--no-verify"@;
    let skip_reset = "--no-reset"@;
    assert(probe.len() == 7 && protocol.len() == 10 && speed.len() == 7 && cur.len() == 21 && target.len() == 8);
    assert(base.len() == 14 && erase.len() == 12 && skip_verify.len() == 11 && skip_reset.len() == 10);
    assert(speed != probe) by {
        assert(speed[2] != probe[2]);
    }
    assert(skip_reset != protocol) by {
        assert(skip_reset[2] != protocol[2]);
    }
}

/// A `flash` line of the firmware path alone, or with one switch: the
/// defaults (first probe, SWD, 4000 kHz, normal connect, no target or base
/// address, verify, no chip erase, reset afterwards), each switch changing
/// only its own setting: `--no-verify` turns verifying off, `--no-reset`
/// resetting, `--chip-erase` turns the full erase on, and
/// `--connect-under-reset` the connect under reset.
pub proof fn lemma_flash_switches(p: Seq<char>)
    requires
        !(p.len() > 0 && p[0] == '-'),
    ensures
        ({
            let d = FlashOptionsView {
                connection: ConnectionOptions {
                    probe_number: 1,
                    protocol: Protocol::Swd,
                    speed_khz: 4000,
                    connect_under_reset: false,
                },
                firmware: unquoted(p),
                target: None,
                base_address: None,
                verify: true,
                chip_erase: false,
                reset_after: true,
            };
            &&& flash_options_of(seq![p]) == Ok::<FlashOptionsView, Seq<char>>(d)
            &&& flash_options_of(seq![p, "--no-verify"@]) == Ok::<FlashOptionsView, Seq<char>>(
                FlashOptionsView { verify: false, ..d },
            )
            &&& flash_options_of(seq![p, "--no-reset"@]) == Ok::<FlashOptionsView, Seq<char>>(
                FlashOptionsView { reset_after: false, ..d },
            )
            &&& flash_options_of(seq![p, "--chip-erase"@]) == Ok::<FlashOptionsView, Seq<char>>(
                FlashOptionsView { chip_erase: true, ..d },
            )
            &&& flash_options_of(seq![p, "--connect-under-reset"@]) == Ok::<FlashOptionsView, Seq<char>>(
                FlashOptionsView { connection: ConnectionOptions { connect_under_reset: true, ..d.connection }, ..d },
            )
        }),
{
    lemma_option_words(true);
    let init = initial_options();
    assert(options_from(seq![p], 1, init, true) == Ok::<OptionsView, Seq<char>>(init));
    let w = seq!["--no-verify"@, "--no-reset"@, "--chip-erase"@, "--connect-under-reset"@];
    assert(seq![p, "--no-verify"@][1] == "--no-verify"@);
    assert(seq![p, "--no-reset"@][1] == "--no-reset"@);
    assert(seq![p, "--chip-erase"@][1] == "--chip-erase"@);
    assert(seq![p, "--connect-under-reset"@][1] == "--connect-under-reset"@);
    assert(options_from(seq![p, "--no-verify"@], 2, OptionsView { verify: false, ..init }, true) == Ok::<
        OptionsView,
        Seq<char>,
    >(OptionsView { verify: false, ..init }));
    assert(options_from(seq![p, "--no-reset"@], 2, OptionsView { reset_after: false, ..init }, true) == Ok::<
        OptionsView,
        Seq<char>,
    >(OptionsView { reset_after: false, ..init }));
    assert(options_from(seq![p, "--chip-erase"@], 2, OptionsView { chip_erase: true, ..init }, true) == Ok::<
        OptionsView,
        Seq<char>,
    >(OptionsView { chip_erase: true, ..init }));
    let cur = OptionsView { connection: ConnectionOptions { connect_under_reset: true, ..init.connection }, ..init };
    assert(options_from(seq![p, "--connect-under-reset"@], 2, cur, true) == Ok::<OptionsView, Seq<char>>(cur));
}

/// The protocol is named `swd` or `jtag`, in any ASCII case and with spaces
/// around; any other text is refused.
pub proof fn lemma_protocol_words(value: Seq<char>)
    ensures
        lower_seq(trim_ws(value)) == "swd"@ ==> protocol_of(value) == Ok::<Protocol, Seq<char>>(Protocol::Swd),
        lower_seq(trim_ws(value)) == "jtag"@ ==> protocol_of(value) == Ok::<Protocol, Seq<char>>(Protocol::Jtag),
        lower_seq(trim_ws(value)) != "swd"@ && lower_seq(trim_ws(value)) != "jtag"@ ==> protocol_of(value) is Err,
{
    reveal_strlit("swd");
    reveal_strlit("jtag");
    assert("swd"@.len() != "jtag"@.len());
}

/// A clock written in decimal reads back as itself, zero raised to 1 kHz;
/// a probe number reads back as itself.
pub proof fn lemma_numbers_read_back(speed: u32, number: usize)
    ensures
        speed_of(decimal(speed as nat)) == Ok::<u32, Seq<char>>(if speed == 0 { 1 } else { speed }),
        probe_number_of(decimal(number as nat)) == Ok::<usize, Seq<char>>(number),
{
    lemma_digits_in_value(speed as nat, 10);
    lemma_digits_in_value(number as nat, 10);
    let a = decimal(speed as nat);
    let b = decimal(number as nat);
    assert(a[0] != '+' && b[0] != '+');
}

/// What `flash` options that read without error hold: the firmware path is
/// the first argument (which does not start with `-`) without its quotes,
/// and the clock is at least 1 kHz.
pub proof fn lemma_flash_options_read(args: Seq<Seq<char>>)
    ensures
        flash_options_of(args) matches Ok(f) ==> {
            &&& args.len() > 0
            &&& !(args[0].len() > 0 && args[0][0] == '-')
            &&& f.firmware == unquoted(args[0])
            &&& f.connection.speed_khz >= 1
        },
{
    lemma_options_keep_clock_positive(args, 1, initial_options(), true);
}

/// The settings read so far.
#[derive(Debug)]
pub struct OptionSettings {
    pub connection: ConnectionOptions,
    pub target: Option<String>,
    pub base_address: Option<u64>,
    pub verify: bool,
    pub chip_erase: bool,
    pub reset_after: bool,
}

impl View for OptionSettings {
    type V = OptionsView;

    open spec fn view(&self) -> OptionsView {
        OptionsView {
            connection: self.connection,
            target: match self.target {
                Some(t) => Some(t@),
                None => None,
            },
            base_address: self.base_address,
            verify: self.verify,
            chip_erase: self.chip_erase,
            reset_after: self.reset_after,
        }
    }
}

/// A result holding settings, seen through their views.
pub open spec fn settings_result_view(r: Result<OptionSettings, String>) -> Result<OptionsView, Seq<char>> {
    match r {
        Ok(s) => Ok(s@),
        Err(e) => Err(e@),
    }
}

/// Reads the options from position `start` on.
pub fn read_options(args: &[String], start: usize, flash_options: bool) -> (r: Result<OptionSettings, String>)
    ensures
        settings_result_view(r) == options_from(strings_view(args@), start as int, initial_options(), flash_options),
{
    let ghost a = strings_view(args@);
    let mut st = OptionSettings {
        connection: ConnectionOptions::default(),
        target: None,
        base_address: None,
        verify: true,
        chip_erase: false,
        reset_after: true,
    };
    let mut index = start;
    while index < args.len()
        invariant
            a == strings_view(args@),
            a.len() == args.len(),
            options_from(a, start as int, initial_options(), flash_options) == options_from(
                a,
                index as int,
                st@,
                flash_options,
            ),
        decreases args.len() - index,
    {
        let ghost i = index as int;
        assert(a[i] == args@[i]@);
        match classify_flag(args[index].as_str(), flash_options) {
            Flag::Probe => {
                let v = next_value(args, &mut index, "--probe")?;
                st.connection.probe_number = parse_probe_number(v)?;
            },
            Flag::Protocol => {
                let v = next_value(args, &mut index, "--protocol")?;
                st.connection.protocol = parse_protocol(v)?;
            },
            Flag::Speed => {
                let v = next_value(args, &mut index, "--speed")?;
                st.connection.speed_khz = parse_speed(v)?;
            },
            Flag::ConnectUnderReset => {
                st.connection.connect_under_reset = true;
            },
            Flag::Target => {
                let v = next_value(args, &mut index, "--target")?;
                st.target = Some(v.to_owned());
            },
            Flag::BaseAddress => {
                let v = next_value(args, &mut index, "--base-address")?;
                st.base_address = Some(parse_address(v)?);
            },
            Flag::ChipErase => {
                st.chip_erase = true;
            },
            Flag::NoVerify => {
                st.verify = false;
            },
            Flag::NoReset => {
                st.reset_after = false;
            },
            Flag::Unknown => {
                let mut e = String::new();
                push_str(&mut e, "未知选项：");
                push_str(&mut e, args[index].as_str());
                return Err(e);
            },
        }
        index = index + 1;
    }
    Ok(st)
}

/// The connection options of a `detect` command line.
pub open spec fn connection_options_of(args: Seq<Seq<char>>) -> Result<ConnectionOptions, Seq<char>> {
    match options_from(args, 0, initial_options(), false) {
        Ok(s) => Ok(s.connection),
        Err(e) => Err(e),
    }
}

/// Reads the options of the `detect` command.
pub fn parse_connection_options(args: &[String]) -> (r: Result<ConnectionOptions, String>)
    ensures
        result_view(r) == connection_options_of(strings_view(args@)),
{
    parse_connection_options_from(args, 0)
}

fn parse_connection_options_from(args: &[String], start: usize) -> (r: Result<ConnectionOptions, String>)
    ensures
        result_view(r) == match options_from(strings_view(args@), start as int, initial_options(), false) {
            Ok(s) => Ok(s.connection),
            Err(e) => Err(e),
        },
{
    let st = read_options(args, start, false)?;
    Ok(st.connection)
}

/// The `flash` options of a command line: the firmware path first (quotes
/// removed; it must not start with `-`), then options.
pub open spec fn flash_options_of(args: Seq<Seq<char>>) -> Result<FlashOptionsView, Seq<char>> {
    if args.len() > 0 && !(args[0].len() > 0 && args[0][0] == '-') {
        match options_from(args, 1, initial_options(), true) {
            Ok(s) => Ok(
                FlashOptionsView {
                    connection: s.connection,
                    firmware: unquoted(args[0]),
                    target: s.target,
                    base_address: s.base_address,
                    verify: s.verify,
                    chip_erase: s.chip_erase,
                    reset_after: s.reset_after,
                },
            ),
            Err(e) => Err(e),
        }
    } else {
        Err("flash 命令需要固件文件路径"@)
    }
}

/// A result holding flash options, seen through their views.
pub open spec fn flash_result_view(r: Result<FlashOptions, String>) -> Result<FlashOptionsView, Seq<char>> {
    match r {
        Ok(o) => Ok(o@),
        Err(e) => Err(e@),
    }
}

/// Reads the arguments of the `flash` command.
pub fn parse_flash_options(args: &[String]) -> (r: Result<FlashOptions, String>)
    ensures
        flash_result_view(r) == flash_options_of(strings_view(args@)),
{
    let ghost a = strings_view(args@);
    if args.len() == 0 || starts_with_char(args[0].as_str(), '-') {
        return Err("flash 命令需要固件文件路径".to_owned());
    }
    assert(a[0] == args@[0]@);
    let firmware = strip_path_quotes(args[0].as_str());
    let st = read_options(args, 1, true)?;
    Ok(FlashOptions {
        connection: st.connection,
        firmware,
        target: st.target,
        base_address: st.base_address,
        verify: st.verify,
        chip_erase: st.chip_erase,
        reset_after: st.reset_after,
    })
}

} // verus!
