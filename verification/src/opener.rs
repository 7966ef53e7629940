//! Deciding whether fetched bytes are a program to run or a document to open.

use vstd::prelude::*;

verus! {

/// The kind of system the terminal frontend runs on, as far as telling programs from
/// documents is concerned.
#[derive(Debug, Clone, Copy, PartialEq, Eq)]
pub enum Platform {
    /// Windows: the extension decides.
    Windows,
    /// macOS: Mach-O binaries.
    MacOs,
    /// Any other Unix: ELF binaries.
    Unix,
}

/// Whether `bytes` begins with `magic`.
pub open spec fn starts_with(bytes: Seq<u8>, magic: Seq<u8>) -> bool {
    magic.len() <= bytes.len() && bytes.subrange(0, magic.len() as int) == magic
}

/// `c` in ASCII lower case.
pub open spec fn ascii_lower(c: char) -> char {
    if 'A' <= c <= 'Z' {
        ((c as u32) + 32) as char
    } else {
        c
    }
}

/// Whether `ext`, compared without regard to ASCII case, is `word` (given in lower case).
pub open spec fn ext_is(ext: Seq<char>, word: Seq<char>) -> bool {
    ext.len() == word.len() && forall|i: int| 0 <= i < ext.len() ==> ascii_lower(#[trigger] ext[i]) == word[i]
}

/// The six Mach-O magic numbers: 32- and 64-bit in both byte orders, and the two orders of the
/// universal binary.
pub open spec fn is_mach_o(bytes: Seq<u8>) -> bool {
    starts_with(bytes, seq![0xFEu8, 0xED, 0xFA, 0xCE]) || starts_with(bytes, seq![0xCEu8, 0xFA, 0xED, 0xFE])
        || starts_with(bytes, seq![0xFEu8, 0xED, 0xFA, 0xCF]) || starts_with(bytes, seq![0xCFu8, 0xFA, 0xED, 0xFE])
        || starts_with(bytes, seq![0xCAu8, 0xFE, 0xBA, 0xBE]) || starts_with(bytes, seq![0xBEu8, 0xBA, 0xFE, 0xCA])
}

/// Whether a file with content `bytes` and extension `ext` is a program `platform` can run: a
/// shebang line anywhere; on Windows a `.bat`/`.cmd` script or an `MZ` image named `.exe`/`.com`;
/// on macOS a Mach-O binary; elsewhere an ELF binary.
pub open spec fn executable(bytes: Seq<u8>, ext: Option<Seq<char>>, platform: Platform) -> bool {
    if starts_with(bytes, seq![0x23u8, 0x21]) {
        true
    } else {
        match platform {
            Platform::Windows => match ext {
                Some(e) => if ext_is(e, seq!['b', 'a', 't']) || ext_is(e, seq!['c', 'm', 'd']) {
                    true
                } else if ext_is(e, seq!['e', 'x', 'e']) || ext_is(e, seq!['c', 'o', 'm']) {
                    starts_with(bytes, seq![0x4Du8, 0x5A])
                } else {
                    false
                },
                None => false,
            },
            Platform::MacOs => is_mach_o(bytes),
            Platform::Unix => starts_with(bytes, seq![0x7Fu8, 0x45, 0x4C, 0x46]),
        }
    }
}

/// Whether `bytes` begins with `magic`.
fn has_prefix(bytes: &[u8], magic: &[u8]) -> (b: bool)
    ensures
        b == starts_with(bytes@, magic@),
{
    if magic.len() > bytes.len() {
        return false;
    }
    let mut i: usize = 0;
    while i < magic.len()
        invariant
            magic@.len() <= bytes@.len(),
            i <= magic@.len(),
            forall|j: int| 0 <= j < i ==> bytes@[j] == magic@[j],
        decreases magic.len() - i,
    {
        if bytes[i] != magic[i] {
            assert(bytes@.subrange(0, magic@.len() as int)[i as int] != magic@[i as int]);
            return false;
        }
        i = i + 1;
    }
    assert(bytes@.subrange(0, magic@.len() as int) =~= magic@);
    true
}

/// Whether `ext`, ignoring ASCII case, is the lower-case `word`.
fn extension_is(ext: &Vec<char>, word: &Vec<char>) -> (b: bool)
    ensures
        b == ext_is(ext@, word@),
{
    if ext.len() != word.len() {
        return false;
    }
    let mut i: usize = 0;
    while i < ext.len()
        invariant
            ext@.len() == word@.len(),
            i <= ext@.len(),
            forall|j: int| 0 <= j < i ==> ascii_lower(#[trigger] ext@[j]) == word@[j],
        decreases ext.len() - i,
    {
        let c = ext[i];
        let lower = if 'A' <= c && c <= 'Z' {
            ((c as u32) + 32) as u8 as char
        } else {
            c
        };
        assert(lower == ascii_lower(c)) by {
            if 'A' <= c && c <= 'Z' {
                assert(((c as u32) + 32) as u8 as char == ((c as u32) + 32) as char);
            }
        }
        if lower != word[i] {
            return false;
        }
        i = i + 1;
    }
    true
}

/// Whether the fetched bytes look like a program to run rather than a document to open.
///
/// Sniffs the content, because a vault stores bytes and names, not permission bits, so a temp
/// copy never arrives with an executable mode to test, and plenty of executables have no
/// extension at all. Only formats `platform` can actually execute count: a PE on Linux or an
/// ELF on Windows is just a file the user happens to be holding. `extension` is the file
/// name's extension, if it has one.
pub fn is_executable(bytes: &[u8], extension: Option<&str>, platform: Platform) -> (b: bool)
    ensures
        b == executable(bytes@, match extension {
            Some(e) => Some(e@),
            None => None,
        }, platform),
{
    let shebang: [u8; 2] = [0x23, 0x21];
    if has_prefix(bytes, shebang.as_slice()) {
        return true;
    }
    match platform {
        Platform::Windows => {
            match extension {
                Some(e) => {
                    let ext = crate::text::chars_of(e);
                    if extension_is(&ext, &vec!['b', 'a', 't']) || extension_is(&ext, &vec!['c', 'm', 'd']) {
                        true
                    } else if extension_is(&ext, &vec!['e', 'x', 'e']) || extension_is(&ext, &vec!['c', 'o', 'm']) {
                        let mz: [u8; 2] = [0x4D, 0x5A];
                        has_prefix(bytes, mz.as_slice())
                    } else {
                        false
                    }
                },
                None => false,
            }
        },
        Platform::MacOs => {
            let a: [u8; 4] = [0xFE, 0xED, 0xFA, 0xCE];
            let b: [u8; 4] = [0xCE, 0xFA, 0xED, 0xFE];
            let c: [u8; 4] = [0xFE, 0xED, 0xFA, 0xCF];
            let d: [u8; 4] = [0xCF, 0xFA, 0xED, 0xFE];
            let e: [u8; 4] = [0xCA, 0xFE, 0xBA, 0xBE];
            let f: [u8; 4] = [0xBE, 0xBA, 0xFE, 0xCA];
            has_prefix(bytes, a.as_slice()) || has_prefix(bytes, b.as_slice()) || has_prefix(bytes, c.as_slice())
                || has_prefix(bytes, d.as_slice()) || has_prefix(bytes, e.as_slice()) || has_prefix(bytes, f.as_slice())
        },
        Platform::Unix => {
            let elf: [u8; 4] = [0x7F, 0x45, 0x4C, 0x46];
            has_prefix(bytes, elf.as_slice())
        },
    }
}


/// The command that opens a file with the system's default application: the program and the
/// arguments that go before the file's path.
pub open spec fn opener_of(platform: Platform) -> (Seq<char>, Seq<Seq<char>>) {
    match platform {
        Platform::MacOs => ("open"@, Seq::empty()),
        Platform::Windows => ("cmd"@, seq!["/C"@, "start"@, ""@]),
        Platform::Unix => ("xdg-open"@, Seq::empty()),
    }
}

/// The command that opens a file with the system's default application (see `opener_of`).
pub fn opener_command(platform: Platform) -> (r: (&'static str, Vec<&'static str>))
    ensures
        (r.0@, r.1@.map_values(|a: &'static str| a@)) == opener_of(platform),
{
    match platform {
        Platform::MacOs => {
            let v: Vec<&'static str> = Vec::new();
            assert(v@.map_values(|a: &'static str| a@) =~= Seq::<Seq<char>>::empty());
            ("open", v)
        },
        Platform::Windows => {
            let v = vec!["/C", "start", ""];
            assert(v@.map_values(|a: &'static str| a@) =~= seq!["/C"@, "start"@, ""@]);
            ("cmd", v)
        },
        Platform::Unix => {
            let v: Vec<&'static str> = Vec::new();
            assert(v@.map_values(|a: &'static str| a@) =~= Seq::<Seq<char>>::empty());
            ("xdg-open", v)
        },
    }
}

/// The editor a file is opened in: `$EDITOR`, else `$VISUAL`, else the platform's own
/// (`notepad` on Windows, `vi` elsewhere). `editor` and `visual` are those variables' values,
/// when set.
pub fn editor_name(editor: Option<String>, visual: Option<String>, platform: Platform) -> (r: String)
    ensures
        r@ == match editor {
            Some(e) => e@,
            None => match visual {
                Some(v) => v@,
                None => if platform == Platform::Windows { "notepad"@ } else { "vi"@ },
            },
        },
{
    match editor {
        Some(e) => e,
        None => match visual {
            Some(v) => v,
            None => String::from_str(if matches!(platform, Platform::Windows) { "notepad" } else { "vi" }),
        },
    }
}

/// Whether a program is run through `cmd /C` rather than started directly: a `.bat` or
/// `.cmd` script on Windows, which cannot be started on its own.
pub fn runs_through_cmd(extension: Option<&str>, platform: Platform) -> (b: bool)
    ensures
        b == (platform == Platform::Windows && match extension {
            Some(e) => ext_is(e@, seq!['b', 'a', 't']) || ext_is(e@, seq!['c', 'm', 'd']),
            None => false,
        }),
{
    if !matches!(platform, Platform::Windows) {
        return false;
    }
    match extension {
        Some(e) => {
            let ev = crate::text::chars_of(e);
            extension_is(&ev, &vec!['b', 'a', 't']) || extension_is(&ev, &vec!['c', 'm', 'd'])
        },
        None => false,
    }
}

} // verus!
