//! Patch bookkeeping: where the patch information of a game build is
//! asked for, how patch files are cached and checked, how a patch method
//! is carried out, and what is reported.
use vstd::prelude::*;
use crate::download::text_of;
use crate::text::{decimal, ends_with, push_char, push_decimal, push_str, chars_of};
use crate::utils::{
    final_piece, lemma_last_index_of, name_extension, name_stem, path_extension,
    plain_path, to_uppercase, unicode_uppercase,
};

verus! {

/// A file the patch server names: where it goes in the game folder, its
/// MD5 checksum, and where to download it.
pub struct PatchFile {
    pub location: String,
    pub md5: String,
    pub file: String,
}

/// The patch server's answer for a game build.
pub struct PatchResponse {
    pub patch: bool,
    pub proxy: bool,
    pub message: String,
    pub metode: u32,
    pub patched: Vec<PatchFile>,
    pub original: Vec<PatchFile>,
}

/// The address of the patch information for a game build.
pub fn patch_api_url(game_id: &str, version: &str, channel: &str, md5: &str) -> (r: String)
    ensures
        r@ == "https://ps.yuuki.me/game/patch/"@ + game_id@ + "/"@ + version@ + "/"@ + channel@
            + "/"@ + md5@ + ".json"@,
{
    let mut r = String::new();
    push_str(&mut r, "https://ps.yuuki.me/game/patch/");
    push_str(&mut r, game_id);
    push_str(&mut r, "/");
    push_str(&mut r, version);
    push_str(&mut r, "/");
    push_str(&mut r, channel);
    push_str(&mut r, "/");
    push_str(&mut r, md5);
    push_str(&mut r, ".json");
    r
}

/// The details sent to the front end when the server has no patch
/// information for a game build.
pub struct PatchErrorInfo {
    pub game_id: String,
    pub version: String,
    pub channel: String,
    pub md5: String,
    pub url: String,
    pub status_code: u16,
    pub error_type: String,
}

/// The details for a build the patch server does not know (HTTP 404).
pub fn patch_not_found_info(game_id: String, version: String, channel: String, md5: String, url: String)
    -> (r: PatchErrorInfo)
    ensures
        r.game_id == game_id,
        r.version == version,
        r.channel == channel,
        r.md5 == md5,
        r.url == url,
        r.status_code == 404,
        r.error_type@ == "PATCH_NOT_FOUND"@,
{
    PatchErrorInfo {
        game_id,
        version,
        channel,
        md5,
        url,
        status_code: 404,
        error_type: text_of("PATCH_NOT_FOUND"),
    }
}

/// The error reported when the server has no patch information: a marker
/// the front end recognizes, then the details as JSON.
pub fn patch_not_found_error(details_json: &str) -> (r: String)
    ensures
        r@ == "PATCH_ERROR_404:"@ + details_json@,
{
    let mut r = String::new();
    push_str(&mut r, "PATCH_ERROR_404:");
    push_str(&mut r, details_json);
    r
}

/// A path separator of either platform.
pub open spec fn is_separator(c: char) -> bool {
    c == '/' || c == '\\'
}

/// The name a patch file is cached under: its location with separators
/// turned into `_`, then `.patch`.
pub open spec fn cache_name(location: Seq<char>) -> Seq<char> {
    location.map_values(|c: char| if is_separator(c) { '_' } else { c }) + ".patch"@
}

/// A cache name holds no path separator before its `.patch` ending, so
/// every patch file is cached directly in the cache folder.
pub proof fn lemma_cache_name_flat(location: Seq<char>)
    ensures
        cache_name(location).len() == location.len() + 6,
        forall|i: int| 0 <= i < location.len() ==> !is_separator(#[trigger] cache_name(location)[i]),
        cache_name(location).subrange(location.len() as int, location.len() + 6int) == ".patch"@,
{
    reveal_strlit(".patch");
    let c = cache_name(location);
    assert forall|i: int| 0 <= i < location.len() implies !is_separator(#[trigger] c[i]) by {
        assert(c[i] == (if is_separator(location[i]) { '_' } else { location[i] }));
    }
    assert(c.subrange(location.len() as int, location.len() + 6int) =~= ".patch"@);
}

/// The name a patch file is cached under.
pub fn patch_cache_file_name(location: &str) -> (r: String)
    ensures
        r@ == cache_name(location@),
{
    let cs = chars_of(location);
    let mut r = String::new();
    let mut i: usize = 0;
    while i < cs.len()
        invariant
            cs@ == location@,
            i <= cs@.len(),
            r@ == cs@.subrange(0, i as int).map_values(
                |c: char| if is_separator(c) { '_' } else { c },
            ),
        decreases cs@.len() - i,
    {
        let c = cs[i];
        if c == '/' || c == '\\' {
            push_char(&mut r, '_');
        } else {
            push_char(&mut r, c);
        }
        i = i + 1;
        assert(r@ =~= cs@.subrange(0, i as int).map_values(
            |c: char| if is_separator(c) { '_' } else { c },
        ));
    }
    assert(cs@.subrange(0, cs@.len() as int) =~= cs@);
    push_str(&mut r, ".patch");
    r
}

/// Two MD5 checksums match, whatever their letter case.
pub open spec fn md5_equal(a: Seq<char>, b: Seq<char>) -> bool {
    unicode_uppercase(a) == unicode_uppercase(b)
}

/// Whether two MD5 checksums match, whatever their letter case.
pub fn md5_matches(a: &str, b: &str) -> (r: bool)
    ensures
        r == md5_equal(a@, b@),
{
    let x = to_uppercase(a);
    let y = to_uppercase(b);
    crate::text::str_equal(x.as_str(), y.as_str())
}

/// The report of a downloaded patch whose checksum is wrong.
pub fn md5_mismatch_message(file: &str, expected: &str, actual: &str) -> (r: String)
    ensures
        r@ == "MD5 mismatch for "@ + file@ + ": expected "@ + expected@ + ", got "@ + actual@,
{
    let mut r = String::new();
    push_str(&mut r, "MD5 mismatch for ");
    push_str(&mut r, file);
    push_str(&mut r, ": expected ");
    push_str(&mut r, expected);
    push_str(&mut r, ", got ");
    push_str(&mut r, actual);
    r
}

/// What a patch method calls for.
pub enum PatchPlan {
    /// Method 0: nothing to patch.
    NothingToPatch,
    /// Method 1: replace the listed files.
    ApplyFiles,
}

/// The plan for a patch method; other methods are refused.
pub fn patch_plan(metode: u32) -> (r: Result<PatchPlan, String>)
    ensures
        metode == 0 ==> r matches Ok(PatchPlan::NothingToPatch),
        metode == 1 ==> r matches Ok(PatchPlan::ApplyFiles),
        metode > 1 ==> (r matches Err(e) && e@ == "Unsupported patch method: "@ + decimal(
            metode as nat,
        )),
{
    if metode == 0 {
        Ok(PatchPlan::NothingToPatch)
    } else if metode == 1 {
        Ok(PatchPlan::ApplyFiles)
    } else {
        let mut e = String::new();
        push_str(&mut e, "Unsupported patch method: ");
        push_decimal(&mut e, metode as u64);
        Err(e)
    }
}

/// `text` with a count of files in it.
fn count_message(before: &str, n: u64, after: &str) -> (r: String)
    ensures
        r@ == before@ + decimal(n as nat) + after@,
{
    let mut r = String::new();
    push_str(&mut r, before);
    push_decimal(&mut r, n);
    push_str(&mut r, after);
    r
}

/// The report after patching `n` files.
pub fn patch_summary(n: u64) -> (r: String)
    ensures
        n == 0 ==> r@ == "No patches applied"@,
        n > 0 ==> r@ == "Applied "@ + decimal(n as nat) + " patches successfully"@,
{
    if n == 0 {
        text_of("No patches applied")
    } else {
        count_message("Applied ", n, " patches successfully")
    }
}

/// The report after restoring original files from backups, when the
/// server's file list was used.
pub fn restore_summary(n: u64) -> (r: String)
    ensures
        n == 0 ==> r@ == "No files were restored (no backups found)"@,
        n > 0 ==> r@ == "Restored "@ + decimal(n as nat) + " files from backups"@,
{
    if n == 0 {
        text_of("No files were restored (no backups found)")
    } else {
        count_message("Restored ", n, " files from backups")
    }
}

/// The report after restoring the patched files from their backups.
pub fn backup_restore_summary(n: u64) -> (r: String)
    ensures
        n == 0 ==> r@ == "No backup files found to restore"@,
        n > 0 ==> r@ == "Restored "@ + decimal(n as nat) + " files from backups"@,
{
    if n == 0 {
        text_of("No backup files found to restore")
    } else {
        count_message("Restored ", n, " files from backups")
    }
}

/// The report after setting aside leftover patched files (empty when
/// there were none).
pub fn cleanup_summary(n: u64) -> (r: String)
    ensures
        n == 0 ==> r@.len() == 0,
        n > 0 ==> r@ == "Cleaned up "@ + decimal(n as nat) + " remaining patch files"@,
{
    if n == 0 {
        String::new()
    } else {
        count_message("Cleaned up ", n, " remaining patch files")
    }
}

/// `Path::with_extension`: the path cut after the stem of its file name
/// (the name without its extension), then `.` and `ext` when `ext` is not
/// empty. It panics when `ext` holds a separator of the platform, so `ext`
/// may hold neither `/` nor a backslash. Which characters separate
/// components depends on the platform; for a `plain_path` the file name is
/// the part after the last `/` and the result is given exactly. Of other
/// paths only what holds everywhere is stated: a path without a file name
/// is unchanged, and otherwise it ends in `.` and `ext`.
#[verifier::external_body]
fn path_with_extension(path: &str, ext: &str) -> (r: String)
    requires
        forall|i: int| 0 <= i < ext@.len() ==> ext@[i] != '/' && ext@[i] != '\\',
    ensures
        ext@.len() > 0 ==> (r@ == path@ || ends_with(r@, "."@ + ext@)),
        plain_path(path@) && ext@.len() > 0 ==> r@ == path@.subrange(
            0,
            path@.len() - final_piece(path@).len(),
        ) + name_stem(final_piece(path@)) + seq!['.'] + ext@,
{
    std::path::Path::new(path).with_extension(ext).to_string_lossy().to_string()
}

/// Whether `s` holds the character `c`.
fn has_char(s: &str, c: char) -> (r: bool)
    ensures
        r == exists|i: int| 0 <= i < s@.len() && s@[i] == c,
{
    let cs = chars_of(s);
    let mut i: usize = 0;
    while i < cs.len()
        invariant
            cs@ == s@,
            i <= cs@.len(),
            forall|k: int| 0 <= k < i ==> cs@[k] != c,
        decreases cs@.len() - i,
    {
        if cs[i] == c {
            return true;
        }
        i = i + 1;
    }
    false
}

/// What `aside_path` appends to a `plain_path`: `.suffix` after a file
/// name with an extension, `..suffix` after one without.
pub open spec fn aside_tail(path: Seq<char>, suffix: Seq<char>) -> Seq<char> {
    if name_extension(final_piece(path)) is Some {
        seq!['.'] + suffix
    } else {
        seq!['.', '.'] + suffix
    }
}

/// A path is the part before its last `/`-separated piece, then that
/// piece; a file name with an extension is its stem, `.`, and the
/// extension.
proof fn lemma_path_parts(p: Seq<char>)
    ensures
        p =~= p.subrange(0, p.len() - final_piece(p).len()) + final_piece(p),
        name_extension(final_piece(p)) matches Some(x) ==> final_piece(p) =~= name_stem(
            final_piece(p),
        ) + seq!['.'] + x,
        name_extension(final_piece(p)) is None ==> name_stem(final_piece(p)) == final_piece(p),
{
    lemma_last_index_of(p, '/');
    let f = final_piece(p);
    lemma_last_index_of(f, '.');
}

/// The path a file is set aside under: its extension followed by
/// `.suffix` (`game.dll` becomes `game.dll.backup`; a name without an
/// extension, `game`, becomes `game..backup`). An extension with a
/// backslash in it (possible only where the backslash is no separator)
/// gets `.suffix` appended to the whole path.
fn aside_path(file_path: &str, suffix: &str) -> (r: String)
    requires
        suffix@.len() > 0,
        forall|i: int| 0 <= i < suffix@.len() ==> suffix@[i] != '/' && suffix@[i] != '\\',
    ensures
        r@ == file_path@ || ends_with(r@, "."@ + suffix@),
        plain_path(file_path@) ==> r@ == file_path@ + aside_tail(file_path@, suffix@),
{
    let found = path_extension(file_path);
    let mut ext = match found {
        Some(e) => e,
        None => String::new(),
    };
    proof {
        reveal_strlit(".");
        lemma_path_parts(file_path@);
    }
    if has_char(ext.as_str(), '\\') {
        proof {
            if plain_path(file_path@) {
                let j = choose|j: int| 0 <= j < ext@.len() && ext@[j] == '\\';
                let n = seq!['.'] + ext@;
                let i = choose|i: int| crate::text::occurs_at(file_path@, n, i);
                assert(file_path@.subrange(i, i + n.len())[j + 1] == n[j + 1]);
                assert(file_path@[i + j + 1] == '\\');
            }
        }
        let mut r = String::new();
        push_str(&mut r, file_path);
        push_str(&mut r, ".");
        push_str(&mut r, suffix);
        proof {
            let tail = "."@ + suffix@;
            assert(r@ == file_path@ + tail);
            assert(r@.subrange(r@.len() - tail.len(), r@.len() as int) =~= tail);
        }
        return r;
    }
    let ghost e0 = ext@;
    push_str(&mut ext, ".");
    push_str(&mut ext, suffix);
    proof {
        assert(ext@ == e0 + "."@ + suffix@);
        assert forall|i: int| 0 <= i < ext@.len() implies ext@[i] != '/' && ext@[i] != '\\' by {
            if i < e0.len() {
                assert(ext@[i] == e0[i]);
            } else if i > e0.len() {
                assert(ext@[i] == suffix@[i - e0.len() - 1]);
            } else {
                assert(ext@[i] == '.');
            }
        }
    }
    let r = path_with_extension(file_path, ext.as_str());
    proof {
        if r@ != file_path@ {
            let whole = "."@ + ext@;
            let tail = "."@ + suffix@;
            assert(whole.subrange(whole.len() - tail.len(), whole.len() as int) =~= tail);
            assert(r@.subrange(r@.len() - whole.len(), r@.len() as int) == whole);
            assert(r@.subrange(r@.len() - tail.len(), r@.len() as int) =~= whole.subrange(
                whole.len() - tail.len(),
                whole.len() as int,
            ));
        }
        if plain_path(file_path@) {
            let p = file_path@;
            let f = final_piece(p);
            let pre = p.subrange(0, p.len() - f.len());
            match name_extension(f) {
                Some(x) => {
                    assert(e0 == x);
                    assert(r@ =~= pre + (name_stem(f) + seq!['.'] + x) + (seq!['.'] + suffix@));
                },
                None => {
                    assert(e0.len() == 0);
                    assert(r@ =~= pre + f + (seq!['.', '.'] + suffix@));
                },
            }
        }
    }
    r
}

/// Where the original of a patched file is kept: the path with
/// `.backup` after its extension (`..backup` after a name without one).
pub fn backup_path(file_path: &str) -> (r: String)
    ensures
        r@ == file_path@ || ends_with(r@, ".backup"@),
        plain_path(file_path@) ==> r@ == file_path@ + (if name_extension(
            final_piece(file_path@),
        ) is Some {
            ".backup"@
        } else {
            "..backup"@
        }),
{
    proof {
        reveal_strlit("backup");
        reveal_strlit(".backup");
        reveal_strlit("..backup");
        reveal_strlit(".");
        assert("."@ + "backup"@ =~= ".backup"@);
        assert(seq!['.'] + "backup"@ =~= ".backup"@);
        assert(seq!['.', '.'] + "backup"@ =~= "..backup"@);
    }
    aside_path(file_path, "backup")
}

/// Where a patched file is set aside when the original comes back: the
/// path with `.patch` after its extension (`..patch` after a name without
/// one).
pub fn patched_copy_path(file_path: &str) -> (r: String)
    ensures
        r@ == file_path@ || ends_with(r@, ".patch"@),
        plain_path(file_path@) ==> r@ == file_path@ + (if name_extension(
            final_piece(file_path@),
        ) is Some {
            ".patch"@
        } else {
            "..patch"@
        }),
{
    proof {
        reveal_strlit("patch");
        reveal_strlit(".patch");
        reveal_strlit("..patch");
        reveal_strlit(".");
        assert("."@ + "patch"@ =~= ".patch"@);
        assert(seq!['.'] + "patch"@ =~= ".patch"@);
        assert(seq!['.', '.'] + "patch"@ =~= "..patch"@);
    }
    aside_path(file_path, "patch")
}

} // verus!
