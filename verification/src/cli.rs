//! The command-line programmer: the command word, the listings it prints,
//! and the answers to its interactive questions.

use vstd::prelude::*;
use crate::firmware::{FirmwareFormat, FormatChoice, classify, classify_extension, opt_view, path_extension, possible_extension};
use crate::models::strings_view;
use crate::options::{
    ConnectionOptions, FlashOptions, FlashOptionsView, connection_options_of, flash_options_of, options_from,
    initial_options, parse_flash_options, read_options,
};
use crate::probes::ProbeEntry;
use crate::targets::{builtin_families, ends_with_generic_families, lemma_generic_families_listed, matching_names, names_matching, ChipFamilyEntry};
use crate::text::{decimal, hex4, push_char, push_decimal, push_hex4, push_str, str_eq, trim, trim_ws};

verus! {

// ---------------------------------------------------------------------------
// Probes
// ---------------------------------------------------------------------------

/// The probes found, or the error that there are none.
pub fn available_probes(found: Vec<ProbeEntry>) -> (r: Result<Vec<ProbeEntry>, String>)
    ensures
        found.len() == 0 ==> (r matches Err(e) && e@ == "未发现 CMSIS-DAP 调试器，请检查 USB 连接和驱动"@),
        found.len() > 0 ==> (r matches Ok(v) && v@ == found@),
{
    if found.len() == 0 {
        Err("未发现 CMSIS-DAP 调试器，请检查 USB 连接和驱动".to_owned())
    } else {
        Ok(found)
    }
}

/// The line listing probe number `number`:
/// `  n. identifier [vvvv:pppp]` and ` SN=serial` when there is a serial number.
pub open spec fn probe_line(number: nat, p: ProbeEntry) -> Seq<char> {
    "  "@ + decimal(number) + ". "@ + p.identifier@ + " ["@ + hex4(p.vendor_id as nat) + ":"@ + hex4(
        p.product_id as nat,
    ) + "]"@ + match p.serial_number {
        Some(s) => " SN="@ + s@,
        None => Seq::empty(),
    }
}

/// The heading of the probe list.
pub open spec fn probe_heading(count: nat) -> Seq<char> {
    "发现 "@ + decimal(count) + " 个调试器："@
}

/// The lines that list the probes: a heading, then one line per probe,
/// numbered from 1.
pub fn probe_list_lines(probes: &Vec<ProbeEntry>) -> (r: Vec<String>)
    ensures
        r.len() == probes.len() + 1,
        r@[0]@ == probe_heading(probes.len() as nat),
        forall|i: int| 0 <= i < probes.len() ==> #[trigger] r@[i + 1]@ == probe_line((i + 1) as nat, probes@[i]),
{
    let mut lines: Vec<String> = Vec::new();
    let mut head = String::new();
    push_str(&mut head, "发现 ");
    push_decimal(&mut head, probes.len() as u64);
    push_str(&mut head, " 个调试器：");
    lines.push(head);
    let mut i: usize = 0;
    while i < probes.len()
        invariant
            i <= probes.len(),
            lines.len() == i + 1,
            lines@[0]@ == probe_heading(probes.len() as nat),
            forall|k: int| 0 <= k < i ==> #[trigger] lines@[k + 1]@ == probe_line((k + 1) as nat, probes@[k]),
        decreases probes.len() - i,
    {
        let p = &probes[i];
        let mut line = String::new();
        push_str(&mut line, "  ");
        push_decimal(&mut line, (i + 1) as u64);
        push_str(&mut line, ". ");
        push_str(&mut line, p.identifier.as_str());
        push_str(&mut line, " [");
        push_hex4(&mut line, p.vendor_id);
        push_str(&mut line, ":");
        push_hex4(&mut line, p.product_id);
        push_str(&mut line, "]");
        match &p.serial_number {
            Some(s) => {
                push_str(&mut line, " SN=");
                push_str(&mut line, s.as_str());
            },
            None => {},
        }
        assert(line@ =~= probe_line((i + 1) as nat, probes@[i as int]));
        lines.push(line);
        i = i + 1;
    }
    lines
}

/// The `probes` command: the probe list, or the error that none is connected.
pub fn list_probes(found: Vec<ProbeEntry>) -> (r: Result<Vec<String>, String>)
    ensures
        found.len() == 0 ==> (r matches Err(e) && e@ == "未发现 CMSIS-DAP 调试器，请检查 USB 连接和驱动"@),
        found.len() > 0 ==> (r matches Ok(lines) && lines.len() == found.len() + 1 && lines@[0]@ == probe_heading(
            found.len() as nat,
        ) && forall|i: int| 0 <= i < found.len() ==> #[trigger] lines@[i + 1]@ == probe_line((i + 1) as nat, found@[i])),
{
    let probes = available_probes(found)?;
    Ok(probe_list_lines(&probes))
}

// ---------------------------------------------------------------------------
// Targets
// ---------------------------------------------------------------------------

/// The names of the builtin chips matching `query` (see
/// [`crate::targets::matching_names`]).
pub fn matching_targets(query: &str) -> (r: Vec<String>)
    ensures
        exists|fams: Seq<ChipFamilyEntry>|
            ends_with_generic_families(fams) && r@.map_values(|s: String| s@) == matching_names(fams, query@),
        trim_ws(query@).len() == 0 ==> r.len() > 0,
{
    let families = builtin_families();
    let ghost fams = families@;
    let r = names_matching(&families, query);
    proof {
        lemma_generic_families_listed(fams, query@);
    }
    r
}

/// The lines of the `targets` command for the names found: each name, then
/// an empty line and the count; or the error that nothing matched.
pub open spec fn target_listing(names: Seq<Seq<char>>) -> Result<Seq<Seq<char>>, Seq<char>> {
    if names.len() == 0 {
        Err("没有找到匹配的目标芯片"@)
    } else {
        Ok(names.push("\n共 "@ + decimal(names.len()) + " 个目标"@))
    }
}

/// The listing of the names found.
pub fn target_lines(names: Vec<String>) -> (r: Result<Vec<String>, String>)
    ensures
        match r {
            Ok(v) => target_listing(names@.map_values(|s: String| s@)) == Ok::<Seq<Seq<char>>, Seq<char>>(
                v@.map_values(|s: String| s@),
            ),
            Err(e) => target_listing(names@.map_values(|s: String| s@)) == Err::<Seq<Seq<char>>, Seq<char>>(e@),
        },
{
    if names.len() == 0 {
        return Err("没有找到匹配的目标芯片".to_owned());
    }
    let n = names.len();
    let ghost before = names@.map_values(|s: String| s@);
    let mut lines = names;
    let mut last = String::new();
    push_str(&mut last, "\n共 ");
    push_decimal(&mut last, n as u64);
    push_str(&mut last, " 个目标");
    lines.push(last);
    assert(lines@.map_values(|s: String| s@) =~= before.push("\n共 "@ + decimal(n as nat) + " 个目标"@));
    Ok(lines)
}

/// The query of the `targets` command: empty when absent.
pub open spec fn query_text(query: Option<&str>) -> Seq<char> {
    match query {
        Some(q) => q@,
        None => Seq::empty(),
    }
}

/// The `targets` command: the matching builtin chip names and their count.
pub fn list_targets(query: Option<&str>) -> (r: Result<Vec<String>, String>)
    ensures
        exists|fams: Seq<ChipFamilyEntry>| {
            let found = #[trigger] matching_names(fams, query_text(query));
            &&& ends_with_generic_families(fams)
            &&& match r {
                Ok(v) => target_listing(found) == Ok::<Seq<Seq<char>>, Seq<char>>(v@.map_values(|s: String| s@)),
                Err(e) => target_listing(found) == Err::<Seq<Seq<char>>, Seq<char>>(e@),
            }
        },
        trim_ws(query_text(query)).len() == 0 ==> r is Ok,
{
    let q = match query {
        Some(q) => q.to_owned(),
        None => String::new(),
    };
    assert(q@ == query_text(query));
    let names = matching_targets(q.as_str());
    let ghost fams = choose|fams: Seq<ChipFamilyEntry>|
        ends_with_generic_families(fams) && names@.map_values(|s: String| s@) == matching_names(fams, q@);
    let r = target_lines(names);
    assert(matching_names(fams, query_text(query)) == names@.map_values(|s: String| s@));
    r
}

/// The lines the `detect` command prints for the identified target.
pub fn detect_report(target: &str, speed_khz: u32) -> (r: Vec<String>)
    ensures
        r@.map_values(|s: String| s@) == seq!["目标芯片："@ + target@, "实际时钟："@ + decimal(speed_khz as nat) + " kHz"@],
{
    let mut l1 = String::new();
    push_str(&mut l1, "目标芯片：");
    push_str(&mut l1, target);
    let mut l2 = String::new();
    push_str(&mut l2, "实际时钟：");
    push_decimal(&mut l2, speed_khz as u64);
    push_str(&mut l2, " kHz");
    let mut v = Vec::new();
    v.push(l1);
    v.push(l2);
    let ghost (a, b) = (v@[0]@, v@[1]@);
    assert(v@.map_values(|s: String| s@) =~= seq![a, b]);
    v
}

// ---------------------------------------------------------------------------
// Firmware
// ---------------------------------------------------------------------------

/// The decision of the command line for a firmware file.
pub open spec fn cli_loader_decision(choice: FormatChoice) -> Result<FirmwareFormat, Seq<char>> {
    match choice {
        FormatChoice::Format(f) => Ok(f),
        FormatChoice::NeedsBaseAddress => Err("BIN 文件必须指定烧录基地址"@),
        FormatChoice::Unsupported => Err("不支持的固件格式，仅支持 ELF、AXF、HEX、BIN 和 UF2"@),
    }
}

/// A result with a string error seen with the error's characters.
pub open spec fn str_result<T>(r: Result<T, String>) -> Result<T, Seq<char>> {
    match r {
        Ok(v) => Ok(v),
        Err(e) => Err(e@),
    }
}

/// The format for the firmware file at `path`, decided by its extension.
pub fn firmware_loader(path: &str, base_address: Option<u64>) -> (r: Result<FirmwareFormat, String>)
    ensures
        exists|e: Option<Seq<char>>| possible_extension(path@, e) && str_result(r) == cli_loader_decision(
            classify(e, base_address),
        ),
{
    let ext = path_extension(path);
    let choice = match &ext {
        Some(x) => classify_extension(Some(x.as_str()), base_address),
        None => classify_extension(None, base_address),
    };
    assert(possible_extension(path@, opt_view(ext)));
    match choice {
        FormatChoice::Format(f) => Ok(f),
        FormatChoice::NeedsBaseAddress => Err("BIN 文件必须指定烧录基地址".to_owned()),
        FormatChoice::Unsupported => Err("不支持的固件格式，仅支持 ELF、AXF、HEX、BIN 和 UF2".to_owned()),
    }
}

// ---------------------------------------------------------------------------
// The command word
// ---------------------------------------------------------------------------

/// A command of the command-line programmer.
#[derive(Debug)]
pub enum Command {
    /// No arguments: ask everything interactively.
    Interactive,
    Help,
    Version,
    Probes,
    /// List the chips whose names contain the (optional) keyword.
    Targets(Option<String>),
    Detect(ConnectionOptions),
    Flash(FlashOptions),
}

/// The content of a [`Command`].
pub enum CommandView {
    Interactive,
    Help,
    Version,
    Probes,
    Targets(Option<Seq<char>>),
    Detect(ConnectionOptions),
    Flash(FlashOptionsView),
}

impl View for Command {
    type V = CommandView;

    open spec fn view(&self) -> CommandView {
        match self {
            Command::Interactive => CommandView::Interactive,
            Command::Help => CommandView::Help,
            Command::Version => CommandView::Version,
            Command::Probes => CommandView::Probes,
            Command::Targets(q) => CommandView::Targets(
                match q {
                    Some(s) => Some(s@),
                    None => None,
                },
            ),
            Command::Detect(c) => CommandView::Detect(*c),
            Command::Flash(f) => CommandView::Flash(f@),
        }
    }
}

/// The command named by the arguments (the program name excluded).
pub open spec fn command_of(args: Seq<Seq<char>>) -> Result<CommandView, Seq<char>> {
    if args.len() == 0 {
        Ok(CommandView::Interactive)
    } else {
        let a = args[0];
        if a == "-h"@ || a == "--help"@ || a == "help"@ {
            Ok(CommandView::Help)
        } else if a == "-V"@ || a == "--version"@ || a == "version"@ {
            Ok(CommandView::Version)
        } else if a == "probes"@ {
            Ok(CommandView::Probes)
        } else if a == "targets"@ {
            Ok(CommandView::Targets(if args.len() > 1 { Some(args[1]) } else { None }))
        } else if a == "detect"@ {
            match connection_options_of(args.skip(1)) {
                Ok(c) => Ok(CommandView::Detect(c)),
                Err(e) => Err(e),
            }
        } else if a == "flash"@ {
            match flash_options_of(args.skip(1)) {
                Ok(f) => Ok(CommandView::Flash(f)),
                Err(e) => Err(e),
            }
        } else {
            Err("未知命令："@ + a + "。请使用 --help 查看帮助。"@)
        }
    }
}

/// A command result seen through its content.
pub open spec fn command_result(r: Result<Command, String>) -> Result<CommandView, Seq<char>> {
    match r {
        Ok(c) => Ok(c@),
        Err(e) => Err(e@),
    }
}

/// Reads the command from the arguments (the program name excluded).
pub fn parse_command(args: &[String]) -> (r: Result<Command, String>)
    ensures
        command_result(r) == command_of(strings_view(args@)),
{
    let ghost a = strings_view(args@);
    if args.len() == 0 {
        return Ok(Command::Interactive);
    }
    let first = args[0].as_str();
    assert(first@ == a[0]);
    if str_eq(first, "-h") || str_eq(first, "--help") || str_eq(first, "help") {
        Ok(Command::Help)
    } else if str_eq(first, "-V") || str_eq(first, "--version") || str_eq(first, "version") {
        Ok(Command::Version)
    } else if str_eq(first, "probes") {
        Ok(Command::Probes)
    } else if str_eq(first, "targets") {
        if args.len() > 1 {
            assert(args@[1]@ == a[1]);
            Ok(Command::Targets(Some(args[1].clone())))
        } else {
            Ok(Command::Targets(None))
        }
    } else if str_eq(first, "detect") {
        let rest = vstd::slice::slice_subrange(args, 1, args.len());
        assert(strings_view(rest@) =~= a.skip(1));
        let c = crate::options::parse_connection_options(rest)?;
        Ok(Command::Detect(c))
    } else if str_eq(first, "flash") {
        let rest = vstd::slice::slice_subrange(args, 1, args.len());
        assert(strings_view(rest@) =~= a.skip(1));
        let f = parse_flash_options(rest)?;
        Ok(Command::Flash(f))
    } else {
        let mut e = String::new();
        push_str(&mut e, "未知命令：");
        push_str(&mut e, first);
        push_str(&mut e, "。请使用 --help 查看帮助。");
        Err(e)
    }
}

/// The command words: no arguments is the interactive mode; `-h`,
/// `--help` and `help` ask for help; `-V`, `--version` and `version` for the
/// version; `probes` lists the probes; `targets` searches the chips with the
/// optional keyword that follows.
pub proof fn lemma_command_words(rest: Seq<Seq<char>>)
    ensures
        command_of(Seq::empty()) == Ok::<CommandView, Seq<char>>(CommandView::Interactive),
        command_of(seq!["-h"@] + rest) == Ok::<CommandView, Seq<char>>(CommandView::Help),
        command_of(seq!["--help"@] + rest) == Ok::<CommandView, Seq<char>>(CommandView::Help),
        command_of(seq!["help"@] + rest) == Ok::<CommandView, Seq<char>>(CommandView::Help),
        command_of(seq!["-V"@] + rest) == Ok::<CommandView, Seq<char>>(CommandView::Version),
        command_of(seq!["--version"@] + rest) == Ok::<CommandView, Seq<char>>(CommandView::Version),
        command_of(seq!["version"@] + rest) == Ok::<CommandView, Seq<char>>(CommandView::Version),
        command_of(seq!["probes"@] + rest) == Ok::<CommandView, Seq<char>>(CommandView::Probes),
        command_of(seq!["targets"@] + rest) == Ok::<CommandView, Seq<char>>(
            CommandView::Targets(if rest.len() > 0 { Some(rest[0]) } else { None }),
        ),
{
    reveal_strlit("-h");
    reveal_strlit("--help");
    reveal_strlit("help");
    reveal_strlit("-V");
    reveal_strlit("--version");
    reveal_strlit("version");
    reveal_strlit("probes");
    reveal_strlit("targets");
    let (h1, h2, h3, v1, v2, v3, pr, ta) = ("-h"@, "--help"@, "help"@, "-V"@, "--version"@, "version"@, "probes"@, "targets"@);
    assert(h1.len() == 2 && h2.len() == 6 && h3.len() == 4 && v1.len() == 2 && v2.len() == 9 && v3.len() == 7);
    assert(pr.len() == 6 && ta.len() == 7);
    assert(v1 != h1) by {
        assert(v1[1] != h1[1]);
    }
    assert(pr != h2) by {
        assert(pr[0] != h2[0]);
    }
    assert(ta != v3) by {
        assert(ta[0] != v3[0]);
    }
    assert((seq![h1] + rest)[0] == h1 && (seq![h2] + rest)[0] == h2 && (seq![h3] + rest)[0] == h3);
    assert((seq![v1] + rest)[0] == v1 && (seq![v2] + rest)[0] == v2 && (seq![v3] + rest)[0] == v3);
    assert((seq![pr] + rest)[0] == pr && (seq![ta] + rest)[0] == ta);
    if rest.len() > 0 {
        assert((seq![ta] + rest)[1] == rest[0]);
    }
}

} // verus!
