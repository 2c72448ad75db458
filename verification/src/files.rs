//! Checks on downloaded files: LFS pointers, executables, archives, and
//! the names of ticket and part files.
use vstd::prelude::*;
use crate::text::{contains, contains_str, dec, is_prefix, push_decimal, push_str, starts_with};

verus! {

/// Message of an executable that is an LFS pointer, before its size.
pub const LFS_EXE_A: &'static str = "\u{0627}\u{0644}\u{0645}\u{0644}\u{0641} \u{0639}\u{0628}\u{0627}\u{0631}\u{0629} \u{0639}\u{0646} Git LFS pointer \u{0645}\u{0634} \u{0645}\u{0644}\u{0641} \u{062d}\u{0642}\u{064a}\u{0642}\u{064a} (\u{062d}\u{062c}\u{0645}\u{0647} ";

/// Message of an executable that is an LFS pointer, between the two sizes.
pub const LFS_EXE_B: &'static str = " \u{0628}\u{0627}\u{064a}\u{062a}). \u{0644}\u{0627}\u{0632}\u{0645} \u{0627}\u{0644}\u{0631}\u{0627}\u{0628}\u{0637} \u{064a}\u{062e}\u{062f}\u{0645} \u{0627}\u{0644}\u{0640} binary \u{0645}\u{0628}\u{0627}\u{0634}\u{0631}\u{0629}. \nThe file is a Git LFS pointer, not the actual binary (only ";

/// Message of an executable that is an LFS pointer, after its size.
pub const LFS_EXE_C: &'static str = " bytes). The URL must serve the actual binary directly.";

/// Message of a suspiciously small executable, before its size.
pub const SMALL_EXE_A: &'static str = "\u{0627}\u{0644}\u{0645}\u{0644}\u{0641} \u{0635}\u{063a}\u{064a}\u{0631} \u{062c}\u{062f}\u{0627}\u{064b} (\u{062d}\u{062c}\u{0645}\u{0647} ";

/// Message of a suspiciously small executable, between the two sizes.
pub const SMALL_EXE_B: &'static str = " \u{0628}\u{0627}\u{064a}\u{062a}) \u{0648}\u{063a}\u{0627}\u{0644}\u{0628}\u{0627}\u{064b} \u{062a}\u{062d}\u{0645}\u{064a}\u{0644}\u{0647} \u{0641}\u{0634}\u{0644} / File is suspiciously small (";

/// Message of a suspiciously small executable, after its size.
pub const SMALL_EXE_C: &'static str = " bytes) \u{2014} download likely failed";

/// Message of a file without the MZ signature, before its size.
pub const NOT_PE_A: &'static str = "\u{0627}\u{0644}\u{0645}\u{0644}\u{0641} \u{0645}\u{0634} \u{0645}\u{0644}\u{0641} \u{062a}\u{0646}\u{0641}\u{064a}\u{0630}\u{064a} \u{0635}\u{062d}\u{064a}\u{062d} (MZ signature \u{0645}\u{0641}\u{0642}\u{0648}\u{062f}). \u{062d}\u{062c}\u{0645}\u{0647} ";

/// Message of a file without the MZ signature, between the two sizes.
pub const NOT_PE_B: &'static str = " \u{0628}\u{0627}\u{064a}\u{062a}. \nFile is not a valid Windows executable (missing MZ signature). Size: ";

/// Message of a file without the MZ signature, after its size.
pub const NOT_PE_C: &'static str = " bytes.";

/// Message of a too small archive, before its size.
pub const SMALL_ZIP_A: &'static str = "\u{0645}\u{0644}\u{0641} ZIP \u{0635}\u{063a}\u{064a}\u{0631} \u{062c}\u{062f}\u{0627}\u{064b} (";

/// Message of a too small archive, between the two sizes.
pub const SMALL_ZIP_B: &'static str = " \u{0628}\u{0627}\u{064a}\u{062a}) / ZIP file too small (";

/// Message of a too small archive, after its size.
pub const SMALL_ZIP_C: &'static str = " bytes)";

/// Message of an archive that does not open, before the cause.
pub const BAD_ZIP: &'static str = "\u{0627}\u{0644}\u{0645}\u{0644}\u{0641} \u{0645}\u{0639}\u{0637}\u{0648}\u{0628} \u{0623}\u{0648} \u{063a}\u{064a}\u{0631} \u{0645}\u{0643}\u{062a}\u{0645}\u{0644} \u{0627}\u{0644}\u{062a}\u{062d}\u{0645}\u{064a}\u{0644} / File is corrupted or incomplete download: ";

/// A small file whose text mentions `git-lfs` or `oid sha256` is a Git LFS
/// pointer rather than the real binary; files over 1024 bytes never are.
/// `content` is the file's text (empty when it could not be read as text).
pub open spec fn spec_is_lfs_pointer(size: nat, content: Seq<char>) -> bool {
    size <= 1024 && (contains(content, "git-lfs"@) || contains(content, "oid sha256"@))
}

/// Whether a downloaded file is a Git LFS pointer text.
pub fn is_lfs_pointer(size: u64, content: &str) -> (r: bool)
    ensures
        r == spec_is_lfs_pointer(size as nat, content@),
{
    if size > 1024 {
        return false;
    }
    contains_str(content, "git-lfs") || contains_str(content, "oid sha256")
}

/// An existing file is taken as the remote one, and its download skipped,
/// when it is not empty and, where the remote size is known, has exactly
/// that size. `local` is `None` when the file does not exist. Its SHA-256
/// is then only reported, never compared.
pub open spec fn spec_already_present(local: Option<u64>, remote: Option<u64>) -> bool {
    match local {
        None => false,
        Some(l) => l != 0 && match remote {
            Some(r) => l == r,
            None => true,
        },
    }
}

/// Whether a download can be skipped because the file is already there.
pub fn already_present(local: Option<u64>, remote: Option<u64>) -> (r: bool)
    ensures
        r == spec_already_present(local, remote),
{
    match local {
        None => false,
        Some(l) => {
            if l == 0 {
                return false;
            }
            match remote {
                Some(r) => l == r,
                None => true,
            }
        },
    }
}

/// The first twelve characters of a hash (all of it if shorter).
pub fn hash_prefix(hash: &str) -> (r: String)
    ensures
        r@ == hash@.subrange(0, if hash@.len() < 12 { hash@.len() as int } else { 12 }),
{
    let n = hash.unicode_len();
    let k = if n < 12 { n } else { 12 };
    let cs = crate::text::chars_of(hash);
    let mut r = String::new();
    let mut i: usize = 0;
    while i < k
        invariant
            cs@ == hash@,
            k <= hash@.len(),
            i <= k,
            r@ == hash@.subrange(0, i as int),
        decreases k - i,
    {
        crate::text::push_char(&mut r, cs[i]);
        i = i + 1;
        assert(r@ =~= hash@.subrange(0, i as int));
    }
    r
}

/// `a` followed by a number, `b`, the number again, and `c`.
pub open spec fn twice(a: Seq<char>, n: nat, b: Seq<char>, c: Seq<char>) -> Seq<char> {
    a + dec(n) + b + dec(n) + c
}

fn render_twice(a: &str, n: u64, b: &str, c: &str) -> (r: String)
    ensures
        r@ == twice(a@, n as nat, b@, c@),
{
    let mut r = String::new();
    push_str(&mut r, a);
    push_decimal(&mut r, n);
    push_str(&mut r, b);
    push_decimal(&mut r, n);
    push_str(&mut r, c);
    proof { assert(r@ =~= twice(a@, n as nat, b@, c@)); }
    r
}

/// The verdict on a downloaded game executable of `size` bytes. Under 500
/// bytes it is rejected, as an LFS pointer when `small_text` (its content)
/// says so, else as too small; otherwise it must start with `MZ`, as every
/// Windows PE file does (`head` holds its first two bytes).
pub open spec fn spec_validate_exe(size: nat, small_text: Seq<char>, head: (u8, u8)) -> Result<(), Seq<char>> {
    if size < 500 {
        if contains(small_text, "git-lfs"@) || contains(small_text, "oid sha256"@) {
            Err(twice(LFS_EXE_A@, size, LFS_EXE_B@, LFS_EXE_C@))
        } else {
            Err(twice(SMALL_EXE_A@, size, SMALL_EXE_B@, SMALL_EXE_C@))
        }
    } else if head != (0x4Du8, 0x5Au8) {
        Err(twice(NOT_PE_A@, size, NOT_PE_B@, NOT_PE_C@))
    } else {
        Ok(())
    }
}

/// Checks a downloaded executable before it is run.
pub fn validate_exe(size: u64, small_text: &str, head: (u8, u8)) -> (r: Result<(), String>)
    ensures
        match r {
            Ok(()) => spec_validate_exe(size as nat, small_text@, head) == Ok::<(), Seq<char>>(()),
            Err(m) => spec_validate_exe(size as nat, small_text@, head) == Err::<(), Seq<char>>(m@),
        },
{
    if size < 500 {
        if contains_str(small_text, "git-lfs") || contains_str(small_text, "oid sha256") {
            return Err(render_twice(LFS_EXE_A, size, LFS_EXE_B, LFS_EXE_C));
        }
        return Err(render_twice(SMALL_EXE_A, size, SMALL_EXE_B, SMALL_EXE_C));
    }
    if head.0 != 0x4D || head.1 != 0x5A {
        return Err(render_twice(NOT_PE_A, size, NOT_PE_B, NOT_PE_C));
    }
    Ok(())
}

/// What the `zip` crate reports when it cannot read `bytes` as an archive
/// (its error's text), or `None` when the archive opens.
pub uninterp spec fn zip_open_error(bytes: Seq<u8>) -> Option<Seq<char>>;

#[verifier::external_type_specification]
#[verifier::external_body]
#[verifier::reject_recursive_types(T)]
pub struct ExCursor<T>(std::io::Cursor<T>);

#[verifier::external_type_specification]
#[verifier::external_body]
#[verifier::reject_recursive_types(R)]
pub struct ExZipArchive<R>(zip::ZipArchive<R>);

/// The number of entries the `zip` crate lists in the archive `bytes`.
pub uninterp spec fn zip_entry_count(bytes: Seq<u8>) -> nat;

/// Entry number `index` of the archive `bytes` as the `zip` crate reads it:
/// its name, whether it is a folder, and its uncompressed content; or the
/// text of the error reading it.
pub uninterp spec fn zip_entry(bytes: Seq<u8>, index: nat) -> Result<(Seq<char>, bool, Seq<u8>), Seq<char>>;

/// A ZIP archive opened over bytes, with the bytes as its model.
struct ZipReader<'a> {
    archive: zip::ZipArchive<std::io::Cursor<&'a [u8]>>,
    bytes: Ghost<Seq<u8>>,
}

/// Trusted: `zip::ZipArchive::new` over the bytes reads the central
/// directory; it fails, with an error whose text is returned, or succeeds,
/// depending on the bytes alone.
#[verifier::external_body]
fn open_archive<'a>(bytes: &'a [u8]) -> (r: Result<ZipReader<'a>, String>)
    ensures
        match r {
            Ok(z) => zip_open_error(bytes@) is None && z.bytes@ == bytes@,
            Err(m) => zip_open_error(bytes@) == Some(m@),
        },
{
    match zip::ZipArchive::new(std::io::Cursor::new(bytes)) {
        Ok(archive) => Ok(ZipReader { archive, bytes: Ghost(bytes@) }),
        Err(e) => Err(e.to_string()),
    }
}

/// Trusted: `ZipArchive::len` is the number of entries of the central
/// directory, which the bytes alone decide.
#[verifier::external_body]
fn entry_count(z: &ZipReader) -> (n: usize)
    ensures
        n == zip_entry_count(z.bytes@),
{
    z.archive.len()
}

/// Trusted: `ZipArchive::by_index` opens entry `i`, whose name, folder flag
/// and decompressed content are read out, or the error text of the step
/// that fails; which one depends on the bytes and `i` alone.
#[verifier::external_body]
fn read_entry(z: &mut ZipReader, i: usize) -> (r: Result<(String, bool, Vec<u8>), String>)
    requires
        i < zip_entry_count(old(z).bytes@),
    ensures
        final(z).bytes == old(z).bytes,
        match r {
            Ok(e) => zip_entry(old(z).bytes@, i as nat) == Ok::<(Seq<char>, bool, Seq<u8>), Seq<char>>((e.0@, e.1, e.2@)),
            Err(m) => zip_entry(old(z).bytes@, i as nat) == Err::<(Seq<char>, bool, Seq<u8>), Seq<char>>(m@),
        },
{
    let mut entry = z.archive.by_index(i).map_err(|e| e.to_string())?;
    let name = entry.name().map_err(|e| e.to_string())?.to_string();
    let dir = entry.is_dir();
    let mut content = Vec::new();
    std::io::Read::read_to_end(&mut entry, &mut content).map_err(|e| e.to_string())?;
    Ok((name, dir, content))
}

/// The model of one archive entry.
pub open spec fn entry_view(e: (String, bool, Vec<u8>)) -> (Seq<char>, bool, Seq<u8>) {
    (e.0@, e.1, e.2@)
}

/// Reads every entry of a package archive, in order: its name, whether it
/// is a folder, and its content. Fails with the error of opening the
/// archive, or else with that of the first entry that cannot be read.
pub fn archive_entries(bytes: &[u8]) -> (r: Result<Vec<(String, bool, Vec<u8>)>, String>)
    ensures
        match r {
            Ok(v) => zip_open_error(bytes@) is None && v@.len() == zip_entry_count(bytes@)
                && forall|k: int| 0 <= k < v@.len() ==> zip_entry(bytes@, k as nat)
                    == Ok::<(Seq<char>, bool, Seq<u8>), Seq<char>>(entry_view(#[trigger] v@[k])),
            Err(m) => zip_open_error(bytes@) == Some(m@) || (zip_open_error(bytes@) is None
                && exists|k: nat| k < zip_entry_count(bytes@)
                    && (forall|j: nat| j < k ==> (#[trigger] zip_entry(bytes@, j)) is Ok)
                    && zip_entry(bytes@, k) == Err::<(Seq<char>, bool, Seq<u8>), Seq<char>>(m@)),
        },
{
    let mut z = match open_archive(bytes) {
        Ok(z) => z,
        Err(m) => return Err(m),
    };
    let n = entry_count(&z);
    let mut v: Vec<(String, bool, Vec<u8>)> = Vec::new();
    let mut i: usize = 0;
    while i < n
        invariant
            z.bytes@ == bytes@,
            zip_open_error(bytes@) is None,
            n == zip_entry_count(bytes@),
            i <= n,
            v@.len() == i,
            forall|k: int| 0 <= k < i ==> zip_entry(bytes@, k as nat)
                == Ok::<(Seq<char>, bool, Seq<u8>), Seq<char>>(entry_view(#[trigger] v@[k])),
        decreases n - i,
    {
        match read_entry(&mut z, i) {
            Ok(e) => {
                v.push(e);
            },
            Err(m) => {
                assert forall|j: nat| j < i implies (#[trigger] zip_entry(bytes@, j)) is Ok by {
                    assert(zip_entry(bytes@, j as int as nat) == Ok::<(Seq<char>, bool, Seq<u8>), Seq<char>>(entry_view(v@[j as int])));
                }
                return Err(m);
            },
        }
        i = i + 1;
    }
    Ok(v)
}

/// The verdict on a downloaded archive: under 100 bytes it is too small;
/// otherwise it must open as a ZIP archive.
pub open spec fn spec_validate_zip(bytes: Seq<u8>) -> Result<(), Seq<char>> {
    if bytes.len() < 100 {
        Err(twice(SMALL_ZIP_A@, bytes.len(), SMALL_ZIP_B@, SMALL_ZIP_C@))
    } else {
        match zip_open_error(bytes) {
            Some(e) => Err(BAD_ZIP@ + e),
            None => Ok(()),
        }
    }
}

/// Checks a downloaded package archive before it is extracted.
pub fn validate_zip(bytes: &[u8]) -> (r: Result<(), String>)
    ensures
        match r {
            Ok(()) => spec_validate_zip(bytes@) == Ok::<(), Seq<char>>(()),
            Err(m) => spec_validate_zip(bytes@) == Err::<(), Seq<char>>(m@),
        },
{
    let n = bytes.len();
    if n < 100 {
        return Err(render_twice(SMALL_ZIP_A, n as u64, SMALL_ZIP_B, SMALL_ZIP_C));
    }
    match open_archive(bytes) {
        Err(e) => {
            let mut m = String::new();
            push_str(&mut m, BAD_ZIP);
            push_str(&mut m, e.as_str());
            Err(m)
        },
        Ok(_) => Ok(()),
    }
}

/// Denuvo ticket files are named `Denuvo_ticket...`.
pub open spec fn spec_is_ticket_name(name: Seq<char>) -> bool {
    is_prefix(name, "Denuvo_ticket"@)
}

/// Whether a file name is that of a Denuvo ticket.
pub fn is_ticket_name(name: &str) -> (r: bool)
    ensures
        r == spec_is_ticket_name(name@),
{
    starts_with(name, "Denuvo_ticket")
}

/// Whether any of the names is that of a Denuvo ticket.
pub fn has_ticket(names: &Vec<String>) -> (r: bool)
    ensures
        r == exists|i: int| 0 <= i < names@.len() && spec_is_ticket_name(#[trigger] names@[i]@),
{
    let mut i: usize = 0;
    while i < names.len()
        invariant
            i <= names@.len(),
            forall|k: int| 0 <= k < i ==> !spec_is_ticket_name(#[trigger] names@[k]@),
        decreases names@.len() - i,
    {
        if is_ticket_name(names[i].as_str()) {
            return true;
        }
        i = i + 1;
    }
    false
}

/// Temporary part files of downloads are named `.dl_part_...`.
pub fn is_part_file(name: &str) -> (r: bool)
    ensures
        r == is_prefix(name@, ".dl_part_"@),
{
    starts_with(name, ".dl_part_")
}

/// A folder holds the game when it has both dbdata.dll and
/// __Installer/installerdata.xml.
pub fn is_game_folder(has_dbdata: bool, has_installer_xml: bool) -> (r: bool)
    ensures
        r == (has_dbdata && has_installer_xml),
{
    has_dbdata && has_installer_xml
}

} // verus!
