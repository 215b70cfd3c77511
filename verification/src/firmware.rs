//! Firmware images: which format a file holds is decided by its extension,
//! compared ignoring ASCII case; a raw binary needs a base address.

use vstd::prelude::*;
use crate::text::{ascii_lower, eq_ignore_ascii_case, has_infix, lower_seq, str_eq, to_ascii_lowercase};

verus! {

/// The image formats the programmer can write.
#[derive(Clone, Copy, Debug)]
pub enum FirmwareFormat {
    /// ELF (`.elf`, `.axf`).
    Elf,
    /// Intel HEX (`.hex`, `.ihex`).
    Hex,
    /// UF2 (`.uf2`).
    Uf2,
    /// A raw binary (`.bin`), written from the given address on.
    Bin { base_address: u64 },
}

/// The decision for a firmware file.
#[derive(Clone, Copy, Debug)]
pub enum FormatChoice {
    Format(FirmwareFormat),
    /// A raw binary without a base address.
    NeedsBaseAddress,
    /// An extension that is not one of the supported ones, or none.
    Unsupported,
}

/// A character that no platform treats as part of a path's structure:
/// an ASCII letter or digit, `_` or `-`.
pub open spec fn plain_name_char(c: char) -> bool {
    ('a' <= c && c <= 'z') || ('A' <= c && c <= 'Z') || ('0' <= c && c <= '9') || c == '_' || c == '-'
}

/// A non-empty run of plain name characters.
pub open spec fn plain_name(s: Seq<char>) -> bool {
    s.len() > 0 && forall|i: int| 0 <= i < s.len() ==> plain_name_char(#[trigger] s[i])
}

/// A path separator on some platform: `/` everywhere, `\` on Windows.
pub open spec fn is_separator(c: char) -> bool {
    c == '/' || c == '\\'
}

/// The part of `path` after its last separator (all of it when it has none).
pub open spec fn file_part(path: Seq<char>) -> Seq<char>
    decreases path.len(),
{
    if path.len() == 0 {
        path
    } else if is_separator(path.last()) {
        Seq::empty()
    } else {
        file_part(path.drop_last()).push(path.last())
    }
}

/// The part of `name` after its last dot (all of it when it has none).
pub open spec fn after_last_dot(name: Seq<char>) -> Seq<char>
    decreases name.len(),
{
    if name.len() == 0 {
        name
    } else if name.last() == '.' {
        Seq::empty()
    } else {
        after_last_dot(name.drop_last()).push(name.last())
    }
}

/// A file name that every platform reads alike: not empty, neither `.` nor
/// `..`, and without separators or `:` (which starts a drive prefix on
/// Windows); any other characters, spaces and non-ASCII letters included.
pub open spec fn dotted_name(name: Seq<char>) -> bool {
    &&& name.len() > 0
    &&& forall|i: int| 0 <= i < name.len() ==> !is_separator(#[trigger] name[i]) && name[i] != ':'
    &&& !(name.len() == 1 && name[0] == '.')
    &&& !(name.len() == 2 && name[0] == '.' && name[1] == '.')
}

/// `name` has a dot after its first character.
pub open spec fn has_inner_dot(name: Seq<char>) -> bool {
    exists|i: int| 0 < i < name.len() && name[i] == '.'
}

/// `path` starts with two separators (a network or device path on Windows).
pub open spec fn starts_with_two_separators(path: Seq<char>) -> bool {
    path.len() >= 2 && is_separator(path[0]) && is_separator(path[1])
}

/// What `std::path::Path::extension` can give for `path`, on any platform:
/// - an extension is text without a dot that follows a dot somewhere in the
///   path, and a path without a dot has none;
/// - a bare file name `stem.ext` made of plain name characters has `ext`;
/// - when the part after the last `/` or `\` is a file name (not `.` or
///   `..`, without `:`) and the path does not start with two separators:
///   with a dot after the name's first character, the
///   extension is what follows the name's last dot; without one, and when
///   the path holds no `\`, there is none.
pub open spec fn possible_extension(path: Seq<char>, e: Option<Seq<char>>) -> bool {
    &&& e matches Some(ext) ==> !ext.contains('.') && has_infix(path, seq!['.'] + ext)
    &&& !path.contains('.') ==> e is None
    &&& forall|stem: Seq<char>, ext: Seq<char>|
        plain_name(stem) && plain_name(ext) && path == #[trigger] (stem + seq!['.'] + ext) ==> e == Some(ext)
    &&& !starts_with_two_separators(path) && dotted_name(file_part(path)) && has_inner_dot(file_part(path))
        ==> e == Some(after_last_dot(file_part(path)))
    &&& !starts_with_two_separators(path) && !path.contains('\\') && dotted_name(file_part(path)) && !has_inner_dot(
        file_part(path),
    ) ==> e is None
}

/// `Path::new(path).extension()` as text.
///
/// Its documentation: the part of the final path component after its last
/// dot, absent when that component has no dot (or only a leading one).  Which
/// characters separate components depends on the platform, so only what
/// holds on every platform is stated here.
#[verifier::external_body]
pub(crate) fn path_extension(path: &str) -> (r: Option<String>)
    ensures
        possible_extension(path@, opt_view(r)),
{
    std::path::Path::new(path).extension().and_then(|value| value.to_str()).map(|value| value.to_owned())
}

/// An optional string seen as an optional character sequence.
pub open spec fn opt_view(s: Option<String>) -> Option<Seq<char>> {
    match s {
        Some(v) => Some(v@),
        None => None,
    }
}

/// The format chosen for a file with extension `ext` (compared ignoring
/// ASCII case) and the optional base address.
pub open spec fn classify(ext: Option<Seq<char>>, base_address: Option<u64>) -> FormatChoice {
    let e = match ext {
        Some(x) => lower_seq(x),
        None => Seq::<char>::empty(),
    };
    if e == "elf"@ || e == "axf"@ {
        FormatChoice::Format(FirmwareFormat::Elf)
    } else if e == "hex"@ || e == "ihex"@ {
        FormatChoice::Format(FirmwareFormat::Hex)
    } else if e == "uf2"@ {
        FormatChoice::Format(FirmwareFormat::Uf2)
    } else if e == "bin"@ {
        match base_address {
            Some(a) => FormatChoice::Format(FirmwareFormat::Bin { base_address: a }),
            None => FormatChoice::NeedsBaseAddress,
        }
    } else {
        FormatChoice::Unsupported
    }
}

/// The format for a file with the given extension.
pub fn classify_extension(ext: Option<&str>, base_address: Option<u64>) -> (r: FormatChoice)
    ensures
        r == classify(
            match ext {
                Some(x) => Some(x@),
                None => None,
            },
            base_address,
        ),
{
    let lower = match ext {
        Some(x) => to_ascii_lowercase(x),
        None => String::new(),
    };
    let e = lower.as_str();
    if str_eq(e, "elf") || str_eq(e, "axf") {
        FormatChoice::Format(FirmwareFormat::Elf)
    } else if str_eq(e, "hex") || str_eq(e, "ihex") {
        FormatChoice::Format(FirmwareFormat::Hex)
    } else if str_eq(e, "uf2") {
        FormatChoice::Format(FirmwareFormat::Uf2)
    } else if str_eq(e, "bin") {
        match base_address {
            Some(a) => FormatChoice::Format(FirmwareFormat::Bin { base_address: a }),
            None => FormatChoice::NeedsBaseAddress,
        }
    } else {
        FormatChoice::Unsupported
    }
}

/// The format for the file at `path`, decided by its extension.
pub fn firmware_kind(path: &str, base_address: Option<u64>) -> (r: FormatChoice)
    ensures
        exists|e: Option<Seq<char>>| possible_extension(path@, e) && r == classify(e, base_address),
{
    let ext = path_extension(path);
    let r = match &ext {
        Some(x) => classify_extension(Some(x.as_str()), base_address),
        None => classify_extension(None, base_address),
    };
    assert(possible_extension(path@, opt_view(ext)) && r == classify(opt_view(ext), base_address));
    r
}

/// Whether an extension names a raw binary, ignoring ASCII case.
pub open spec fn is_bin_extension(ext: Option<Seq<char>>) -> bool {
    ext matches Some(x) && lower_seq(x) == lower_seq("bin"@)
}

/// Whether an extension names a raw binary, ignoring ASCII case.
pub fn is_bin_ext(ext: Option<&str>) -> (r: bool)
    ensures
        r == is_bin_extension(
            match ext {
                Some(x) => Some(x@),
                None => None,
            },
        ),
{
    match ext {
        Some(x) => eq_ignore_ascii_case(x, "bin"),
        None => false,
    }
}

/// Whether the file at `path` has the extension `bin`, ignoring ASCII case.
pub fn is_bin(path: &str) -> (r: bool)
    ensures
        exists|e: Option<Seq<char>>| possible_extension(path@, e) && r == is_bin_extension(e),
{
    let ext = path_extension(path);
    let r = match &ext {
        Some(x) => is_bin_ext(Some(x.as_str())),
        None => is_bin_ext(None),
    };
    assert(possible_extension(path@, opt_view(ext)) && r == is_bin_extension(opt_view(ext)));
    r
}

/// Lower-casing twice is lower-casing once.
pub proof fn lemma_lower_idempotent(x: Seq<char>)
    ensures
        lower_seq(lower_seq(x)) == lower_seq(x),
{
    assert forall|i: int| 0 <= i < x.len() implies ascii_lower(ascii_lower(x[i])) == ascii_lower(x[i]) by {
        let c = x[i];
        if 'A' <= c && c <= 'Z' {
            assert((((c as u32) + 32) as char) as u32 == (c as u32) + 32);
        }
    }
    assert(lower_seq(lower_seq(x)) =~= lower_seq(x));
}

/// The format of a file does not depend on the ASCII case of its extension.
pub proof fn lemma_format_ignores_case(x: Seq<char>, base_address: Option<u64>)
    ensures
        classify(Some(x), base_address) == classify(Some(lower_seq(x)), base_address),
        is_bin_extension(Some(x)) == is_bin_extension(Some(lower_seq(x))),
{
    lemma_lower_idempotent(x);
}

/// A raw binary is programmed only with a base address, and then from it.
pub proof fn lemma_bin_needs_base(x: Seq<char>, a: u64)
    requires
        lower_seq(x) == "bin"@,
    ensures
        classify(Some(x), None) == FormatChoice::NeedsBaseAddress,
        classify(Some(x), Some(a)) == FormatChoice::Format(FirmwareFormat::Bin { base_address: a }),
{
    reveal_strlit("bin");
    reveal_strlit("elf");
    reveal_strlit("axf");
    reveal_strlit("hex");
    reveal_strlit("ihex");
    reveal_strlit("uf2");
    let e = lower_seq(x);
    assert(e[0] == 'b' && e.len() == 3);
    assert(e != "elf"@ && e != "axf"@ && e != "hex"@ && e != "uf2"@) by {
        assert("elf"@[0] == 'e' && "axf"@[0] == 'a' && "hex"@[0] == 'h' && "uf2"@[0] == 'u');
    }
    assert(e != "ihex"@) by {
        assert("ihex"@.len() == 4);
    }
}


/// The part after the last separator of `dir` followed by a name without
/// separators is that name.
proof fn lemma_file_part_of_joined(dir: Seq<char>, name: Seq<char>)
    requires
        dir.len() > 0,
        is_separator(dir.last()),
        forall|i: int| 0 <= i < name.len() ==> !is_separator(#[trigger] name[i]),
    ensures
        file_part(dir + name) == name,
    decreases name.len(),
{
    if name.len() == 0 {
        assert(dir + name =~= dir);
    } else {
        let p = dir + name;
        assert(p.last() == name.last());
        assert(p.drop_last() =~= dir + name.drop_last());
        lemma_file_part_of_joined(dir, name.drop_last());
        assert(file_part(p) =~= name.drop_last().push(name.last()));
        assert(name.drop_last().push(name.last()) =~= name);
    }
}

/// The format of a file inside a directory is decided by the file's own
/// name: by what follows the last dot of the name when the name has a dot
/// after its first character.
pub proof fn lemma_format_by_file_name(
    dir: Seq<char>,
    name: Seq<char>,
    e: Option<Seq<char>>,
    base_address: Option<u64>,
)
    requires
        dir.len() > 0,
        is_separator(dir.last()),
        !starts_with_two_separators(dir + name),
        dotted_name(name),
        has_inner_dot(name),
        possible_extension(dir + name, e),
    ensures
        e == Some(after_last_dot(name)),
        classify(e, base_address) == classify(Some(after_last_dot(name)), base_address),
{
    lemma_file_part_of_joined(dir, name);
}


/// The format follows the extension alone, ignoring ASCII case: `elf` and
/// `axf` are ELF, `hex` and `ihex` Intel HEX, `uf2` UF2, whatever base
/// address is given; `bin` is a raw binary written from the base address,
/// which it needs; any other extension, or none, is not supported.  The
/// base address changes the decision only for `bin`.
pub proof fn lemma_formats_by_extension(x: Seq<char>, b1: Option<u64>, b2: Option<u64>)
    ensures
        lower_seq(x) == "elf"@ || lower_seq(x) == "axf"@ ==> classify(Some(x), b1) == FormatChoice::Format(
            FirmwareFormat::Elf,
        ),
        lower_seq(x) == "hex"@ || lower_seq(x) == "ihex"@ ==> classify(Some(x), b1) == FormatChoice::Format(
            FirmwareFormat::Hex,
        ),
        lower_seq(x) == "uf2"@ ==> classify(Some(x), b1) == FormatChoice::Format(FirmwareFormat::Uf2),
        lower_seq(x) == "bin"@ ==> classify(Some(x), b1) == match b1 {
            Some(a) => FormatChoice::Format(FirmwareFormat::Bin { base_address: a }),
            None => FormatChoice::NeedsBaseAddress,
        },
        !(lower_seq(x) == "elf"@ || lower_seq(x) == "axf"@ || lower_seq(x) == "hex"@ || lower_seq(x) == "ihex"@
            || lower_seq(x) == "uf2"@ || lower_seq(x) == "bin"@) ==> classify(Some(x), b1) == FormatChoice::Unsupported,
        classify(None, b1) == FormatChoice::Unsupported,
        lower_seq(x) != "bin"@ ==> classify(Some(x), b1) == classify(Some(x), b2),
{
    reveal_strlit("elf");
    reveal_strlit("axf");
    reveal_strlit("hex");
    reveal_strlit("ihex");
    reveal_strlit("uf2");
    reveal_strlit("bin");
    let (elf, axf, hex, ihex, uf2, bin) = ("elf"@, "axf"@, "hex"@, "ihex"@, "uf2"@, "bin"@);
    assert(elf.len() == 3 && axf.len() == 3 && hex.len() == 3 && ihex.len() == 4 && uf2.len() == 3 && bin.len() == 3);
    assert(elf[0] == 'e' && axf[0] == 'a' && hex[0] == 'h' && uf2[0] == 'u' && bin[0] == 'b');
    assert(hex != elf && hex != axf) by {
        assert(hex[0] != elf[0] && hex[0] != axf[0]);
    }
    assert(uf2 != elf && uf2 != axf && uf2 != hex) by {
        assert(uf2[0] != elf[0] && uf2[0] != axf[0] && uf2[0] != hex[0]);
    }
    assert(bin != elf && bin != axf && bin != hex && bin != uf2) by {
        assert(bin[0] != elf[0] && bin[0] != axf[0] && bin[0] != hex[0] && bin[0] != uf2[0]);
    }
    assert(ihex != elf && ihex != axf && ihex != uf2 && ihex != bin);
    let e = Seq::<char>::empty();
    assert(e != elf && e != axf && e != hex && e != ihex && e != uf2 && e != bin);
}

} // verus!
