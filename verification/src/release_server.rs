//! Release server packaging: version normalization, asset naming and
//! selection, the archive readme, the `gh` upload command lines, and the
//! lowercase hex rendering of SHA-256 digests.

use vstd::prelude::*;
use sha2::{Digest, Sha256};
use crate::text::{
    owned, push_str, push_char, chars_of, string_from, str_trim, trim, views, starts_with,
    ends_with, str_strip_prefix, str_strip_suffix, str_eq,
};

verus! {

// ---------------------------------------------------------------------------
// Hex and SHA-256
// ---------------------------------------------------------------------------

/// The lowercase hex digit for `n` in `0..16`.
pub open spec fn hex_digit(n: int) -> char {
    if n < 10 {
        (48 + n) as char
    } else {
        (87 + n) as char
    }
}

/// Two lowercase hex digits for one byte, high nibble first.
pub open spec fn hex_byte(b: u8) -> Seq<char> {
    seq![hex_digit((b / 16) as int), hex_digit((b % 16) as int)]
}

/// Lowercase hex rendering of a byte sequence.
pub open spec fn hex(bytes: Seq<u8>) -> Seq<char>
    decreases bytes.len(),
{
    if bytes.len() == 0 {
        seq![]
    } else {
        hex(bytes.drop_last()) + hex_byte(bytes.last())
    }
}

fn hex_digit_exec(n: u8) -> (c: char)
    requires
        n < 16,
    ensures
        c == hex_digit(n as int),
{
    if n < 10 {
        (48u8 + n) as char
    } else {
        (87u8 + n) as char
    }
}

/// Lowercase hex of `bytes`, two digits per byte.
pub fn hex_lower(bytes: &[u8]) -> (r: String)
    ensures
        r@ == hex(bytes@),
{
    let mut out = String::new();
    let mut i: usize = 0;
    while i < bytes.len()
        invariant
            i <= bytes@.len(),
            out@ == hex(bytes@.take(i as int)),
        decreases bytes.len() - i,
    {
        let b = bytes[i];
        push_char(&mut out, hex_digit_exec(b / 16));
        push_char(&mut out, hex_digit_exec(b % 16));
        assert(bytes@.take(i + 1).drop_last() =~= bytes@.take(i as int));
        assert(out@ =~= hex(bytes@.take(i as int)) + hex_byte(b));
        i += 1;
    }
    assert(bytes@.take(bytes@.len() as int) =~= bytes@);
    out
}

/// The SHA-256 digest of a byte sequence.
pub uninterp spec fn sha256_digest(data: Seq<u8>) -> Seq<u8>;

/// `sha2::Sha256::digest`: the SHA-256 digest of `data`, which the `sha2`
/// crate fixes at 32 bytes (`OutputSize = U32`). Nothing else about the
/// digest is stated here; it is named by `sha256_digest`.
#[verifier::external_body]
fn sha256(data: &[u8]) -> (r: Vec<u8>)
    ensures
        r@ == sha256_digest(data@),
        r@.len() == 32,
{
    Sha256::digest(data).to_vec()
}

/// The lowercase hex SHA-256 digest of `data` (64 hex digits).
pub fn sha256_hex(data: &[u8]) -> (r: String)
    ensures
        r@ == hex(sha256_digest(data@)),
{
    let digest = sha256(data);
    hex_lower(digest.as_slice())
}

// ---------------------------------------------------------------------------
// Versions, assets, readme
// ---------------------------------------------------------------------------

/// `s.trim_start_matches(c)` for a single character.
pub open spec fn strip_leading(s: Seq<char>, c: char) -> Seq<char>
    decreases s.len(),
{
    if s.len() > 0 && s[0] == c {
        strip_leading(s.drop_first(), c)
    } else {
        s
    }
}

/// `version.trim().trim_start_matches('v')`.
pub open spec fn normalized_version(version: Seq<char>) -> Seq<char> {
    strip_leading(trim(version), 'v')
}

/// The release version without surrounding whitespace or leading `v`s.
pub fn normalize_release_version(version: &str) -> (r: String)
    ensures
        r@ == normalized_version(version@),
{
    let t = str_trim(version);
    let v = chars_of(t.as_str());
    let mut k: usize = 0;
    assert(v@.skip(0) =~= v@);
    while k < v.len() && v[k] == 'v'
        invariant
            k <= v@.len(),
            strip_leading(v@.skip(k as int), 'v') == strip_leading(v@, 'v'),
        decreases v.len() - k,
    {
        assert(v@.skip(k as int).drop_first() =~= v@.skip(k + 1));
        k += 1;
    }
    let r = string_from(&v, k, v.len());
    assert(v@.subrange(k as int, v@.len() as int) =~= v@.skip(k as int));
    r
}

pub open spec fn readme_tail() -> Seq<char> {
    "\n\nThis archive contains the ripr executable used by the VS Code/Open VSX\nextension. It is distributed under MIT OR Apache-2.0."@
}

/// The `README-server.txt` shipped in every server archive.
pub fn release_server_readme(version: &str) -> (r: String)
    ensures
        r@ == "ripr server "@ + version@ + readme_tail(),
{
    let mut r = owned("ripr server ");
    push_str(&mut r, version);
    push_str(
        &mut r,
        "\n\nThis archive contains the ripr executable used by the VS Code/Open VSX\nextension. It is distributed under MIT OR Apache-2.0.",
    );
    r
}

/// A server archive in the distribution directory, by target.
#[derive(Clone, Debug, PartialEq, Eq)]
pub struct ReleaseServerAsset {
    pub target: String,
    pub file_name: String,
}

pub open spec fn asset_prefix(version: Seq<char>) -> Seq<char> {
    "ripr-server-v"@ + version + "-"@
}

/// The target named by an archive file name, if it is a server archive of
/// this version: `ripr-server-v<version>-<target>.tar.gz` or `.zip`.
pub open spec fn asset_target(name: Seq<char>, prefix: Seq<char>) -> Option<Seq<char>> {
    if !starts_with(name, prefix) {
        None
    } else {
        let rest = name.skip(prefix.len() as int);
        if ends_with(rest, ".tar.gz"@) {
            Some(rest.take(rest.len() - 7))
        } else if ends_with(rest, ".zip"@) {
            Some(rest.take(rest.len() - 4))
        } else {
            None
        }
    }
}

/// The (target, file name) of every server archive among `names`, in order.
pub open spec fn assets_of(names: Seq<Seq<char>>, prefix: Seq<char>) -> Seq<(Seq<char>, Seq<char>)>
    decreases names.len(),
{
    if names.len() == 0 {
        seq![]
    } else {
        let rest = assets_of(names.drop_last(), prefix);
        match asset_target(names.last(), prefix) {
            Some(t) => rest.push((t, names.last())),
            None => rest,
        }
    }
}

pub open spec fn asset_view(a: ReleaseServerAsset) -> (Seq<char>, Seq<char>) {
    (a.target@, a.file_name@)
}

fn asset_from_name(name: &str, prefix: &str) -> (r: Option<ReleaseServerAsset>)
    ensures
        match r {
            Some(a) => asset_target(name@, prefix@) == Some(a.target@) && a.file_name@ == name@,
            None => asset_target(name@, prefix@) is None,
        },
{
    proof {
        reveal_strlit(".tar.gz");
        reveal_strlit(".zip");
    }
    match str_strip_prefix(name, prefix) {
        None => None,
        Some(rest) => {
            match str_strip_suffix(rest.as_str(), ".tar.gz") {
                Some(target) => Some(ReleaseServerAsset { target, file_name: owned(name) }),
                None => match str_strip_suffix(rest.as_str(), ".zip") {
                    Some(target) => Some(ReleaseServerAsset { target, file_name: owned(name) }),
                    None => None,
                },
            }
        },
    }
}

/// The server archives of `version` among the distribution file names
/// (given in sorted order), with the target each one is built for.
pub fn release_server_assets(file_names: &[String], version: &str) -> (r: Vec<ReleaseServerAsset>)
    ensures
        r@.map_values(|a: ReleaseServerAsset| asset_view(a)) == assets_of(
            views(file_names@),
            asset_prefix(version@),
        ),
{
    let mut prefix = owned("ripr-server-v");
    push_str(&mut prefix, version);
    push_str(&mut prefix, "-");
    let ghost names = views(file_names@);
    let mut out: Vec<ReleaseServerAsset> = Vec::new();
    let mut i: usize = 0;
    while i < file_names.len()
        invariant
            i <= file_names@.len(),
            names == views(file_names@),
            prefix@ == asset_prefix(version@),
            out@.map_values(|a: ReleaseServerAsset| asset_view(a)) == assets_of(
                names.take(i as int),
                prefix@,
            ),
        decreases file_names.len() - i,
    {
        let ghost before = out@;
        assert(names.take(i + 1).drop_last() =~= names.take(i as int));
        assert(names.take(i + 1).last() == file_names@[i as int]@);
        match asset_from_name(file_names[i].as_str(), prefix.as_str()) {
            Some(a) => {
                let ghost av = asset_view(a);
                out.push(a);
                assert(out@.map_values(|a: ReleaseServerAsset| asset_view(a)) =~= before.map_values(
                    |a: ReleaseServerAsset| asset_view(a),
                ).push(av));
            },
            None => {},
        }
        i += 1;
    }
    assert(names.take(file_names@.len() as int) =~= names);
    out
}

// ---------------------------------------------------------------------------
// Command lines
// ---------------------------------------------------------------------------

/// The value given for `--<flag>`: the argument after the first exact
/// `--<flag>`, else the text after the first `--<flag>=` prefix.
pub open spec fn flag_pair_value(args: Seq<Seq<char>>, flag_name: Seq<char>) -> Option<Seq<char>>
    decreases args.len(),
{
    if args.len() < 2 {
        None
    } else if args[0] == flag_name {
        Some(args[1])
    } else {
        flag_pair_value(args.drop_first(), flag_name)
    }
}

pub open spec fn flag_inline_value(args: Seq<Seq<char>>, prefix: Seq<char>) -> Option<Seq<char>>
    decreases args.len(),
{
    if args.len() == 0 {
        None
    } else if starts_with(args[0], prefix) {
        Some(args[0].skip(prefix.len() as int))
    } else {
        flag_inline_value(args.drop_first(), prefix)
    }
}

pub open spec fn release_arg_value(args: Seq<Seq<char>>, flag: Seq<char>) -> Option<Seq<char>> {
    let flag_name = "--"@ + flag;
    match flag_pair_value(args, flag_name) {
        Some(v) => Some(v),
        None => flag_inline_value(args, flag_name + "="@),
    }
}

/// The value of `--<flag>` in the release arguments, as a pair
/// (`--flag value`) or inline (`--flag=value`); `None` when neither is
/// given, in which case the caller falls back to the environment.
pub fn required_release_arg(args: &[String], flag: &str) -> (r: Option<String>)
    ensures
        opt_value(r) == release_arg_value(views(args@), flag@),
{
    let mut flag_name = owned("--");
    push_str(&mut flag_name, flag);
    let ghost all = views(args@);
    let mut i: usize = 0;
    assert(all.skip(0) =~= all);
    while args.len() > 1 && i < args.len() - 1
        invariant
            all == views(args@),
            i <= args@.len(),
            flag_name@ == "--"@ + flag@,
            flag_pair_value(all.skip(i as int), flag_name@) == flag_pair_value(all, flag_name@),
        decreases args.len() - i,
    {
        assert(all.skip(i as int)[0] == args@[i as int]@);
        assert(all.skip(i as int)[1] == args@[i + 1]@);
        if str_eq(args[i].as_str(), flag_name.as_str()) {
            return Some(owned(args[i + 1].as_str()));
        }
        assert(all.skip(i as int).drop_first() =~= all.skip(i + 1));
        i += 1;
    }
    assert(all.skip(i as int).len() < 2);
    assert(flag_pair_value(all.skip(i as int), flag_name@) is None);
    let mut prefix = owned(flag_name.as_str());
    push_str(&mut prefix, "=");
    let mut j: usize = 0;
    assert(all.skip(0) =~= all);
    while j < args.len()
        invariant
            all == views(args@),
            j <= args@.len(),
            flag_pair_value(all, flag_name@) is None,
            flag_name@ == "--"@ + flag@,
            prefix@ == flag_name@ + "="@,
            flag_inline_value(all.skip(j as int), prefix@) == flag_inline_value(all, prefix@),
        decreases args.len() - j,
    {
        assert(all.skip(j as int)[0] == args@[j as int]@);
        match str_strip_prefix(args[j].as_str(), prefix.as_str()) {
            Some(value) => {
                return Some(value);
            },
            None => {},
        }
        assert(all.skip(j as int).drop_first() =~= all.skip(j + 1));
        j += 1;
    }
    None
}

pub open spec fn opt_value(o: Option<String>) -> Option<Seq<char>> {
    match o {
        Some(s) => Some(s@),
        None => None,
    }
}

/// The `gh` command lines that publish the release assets: the release
/// lookup, the release creation run only when the lookup fails, and the
/// upload of every distribution file.
#[derive(Clone, Debug)]
pub struct ReleaseUploadCommands {
    pub view: Vec<String>,
    pub create: Vec<String>,
    pub upload: Vec<String>,
}

pub open spec fn upload_args_spec(tag: Seq<char>, files: Seq<Seq<char>>) -> Seq<Seq<char>> {
    seq!["release"@, "upload"@, tag] + files + seq!["--clobber"@]
}

/// The `gh` command lines for `release-upload-assets` of `raw_version`
/// with the sorted distribution file paths.
pub fn release_upload_assets(raw_version: &str, dist_files: &[String]) -> (r: ReleaseUploadCommands)
    ensures
        views(r.view@) == seq![
            "release"@,
            "view"@,
            "v"@ + normalized_version(raw_version@),
        ],
        views(r.create@) == seq![
            "release"@,
            "create"@,
            "v"@ + normalized_version(raw_version@),
            "--title"@,
            "ripr "@ + normalized_version(raw_version@),
        ],
        views(r.upload@) == upload_args_spec(
            "v"@ + normalized_version(raw_version@),
            views(dist_files@),
        ),
{
    let version = normalize_release_version(raw_version);
    let mut tag = owned("v");
    push_str(&mut tag, version.as_str());
    let mut view: Vec<String> = Vec::new();
    view.push(owned("release"));
    view.push(owned("view"));
    view.push(owned(tag.as_str()));
    let mut title = owned("ripr ");
    push_str(&mut title, version.as_str());
    let mut create: Vec<String> = Vec::new();
    create.push(owned("release"));
    create.push(owned("create"));
    create.push(owned(tag.as_str()));
    create.push(owned("--title"));
    create.push(title);
    let mut upload: Vec<String> = Vec::new();
    upload.push(owned("release"));
    upload.push(owned("upload"));
    upload.push(owned(tag.as_str()));
    let ghost head = views(upload@);
    let mut i: usize = 0;
    while i < dist_files.len()
        invariant
            i <= dist_files@.len(),
            views(upload@) == head + views(dist_files@).take(i as int),
        decreases dist_files.len() - i,
    {
        let ghost before = upload@;
        upload.push(owned(dist_files[i].as_str()));
        assert(views(upload@) =~= views(before).push(dist_files@[i as int]@));
        assert(views(dist_files@).take(i + 1) =~= views(dist_files@).take(i as int).push(
            dist_files@[i as int]@,
        ));
        i += 1;
    }
    let ghost before = upload@;
    upload.push(owned("--clobber"));
    assert(views(upload@) =~= views(before).push("--clobber"@));
    assert(views(dist_files@).take(dist_files@.len() as int) =~= views(dist_files@));
    assert(views(view@) =~= seq!["release"@, "view"@, "v"@ + normalized_version(raw_version@)]);
    assert(views(create@) =~= seq![
        "release"@,
        "create"@,
        "v"@ + normalized_version(raw_version@),
        "--title"@,
        "ripr "@ + normalized_version(raw_version@),
    ]);
    assert(views(upload@) =~= upload_args_spec(
        "v"@ + normalized_version(raw_version@),
        views(dist_files@),
    ));
    ReleaseUploadCommands { view, create, upload }
}

/// The `tar` arguments that pack the package directory into a `.tar.gz`
/// asset.
pub fn create_tar_gz_archive(package_dir: &str, asset_path: &str) -> (r: Vec<String>)
    ensures
        views(r@) == seq!["-czf"@, asset_path@, "-C"@, package_dir@, "."@],
{
    let mut v: Vec<String> = Vec::new();
    v.push(owned("-czf"));
    v.push(owned(asset_path));
    v.push(owned("-C"));
    v.push(owned(package_dir));
    v.push(owned("."));
    assert(views(v@) =~= seq!["-czf"@, asset_path@, "-C"@, package_dir@, "."@]);
    v
}

} // verus!
