//! The descriptor store scanner: which candidate files of a scope
//! directory become service descriptors, and which directories are
//! scanned at all.

use crate::byteseq::bytes_contains;
use crate::byteseq::bytes_ends_with;
use crate::byteseq::bytes_starts_with;
use crate::byteseq::has_substring;
use crate::byteseq::is_prefix_of;
use crate::byteseq::is_suffix_of;
use crate::model::Scope;
use crate::plist_store::get_label_from_plist;
use crate::plist_store::spec_label_of;
use vstd::prelude::*;
use vstd::string::StringSliceAdditionalSpecFns;
use vstd::utf8::encode_utf8;

verus! {

/// One candidate from a scope directory: a regular file's name, its full
/// path, and its bytes, read by the caller.
pub struct ScanFile {
    pub name: String,
    pub path: String,
    pub bytes: Vec<u8>,
}

/// Ghost image of a `ScanFile`.
pub ghost struct ScanFileImage {
    pub name: Seq<char>,
    pub path: Seq<char>,
    pub bytes: Seq<u8>,
}

impl View for ScanFile {
    type V = ScanFileImage;

    open spec fn view(&self) -> ScanFileImage {
        ScanFileImage { name: self.name@, path: self.path@, bytes: self.bytes@ }
    }
}

/// A descriptor the scanner accepted: its label, the file it came from,
/// and the scope of the directory that produced it.
pub struct ScannedService {
    pub label: String,
    pub path: String,
    pub scope: Scope,
}

/// Ghost image of a `ScannedService`.
pub ghost struct ScannedImage {
    pub label: Seq<char>,
    pub path: Seq<char>,
    pub scope: Scope,
}

impl View for ScannedService {
    type V = ScannedImage;

    open spec fn view(&self) -> ScannedImage {
        ScannedImage { label: self.label@, path: self.path@, scope: self.scope }
    }
}

/// A file name carries the descriptor extension: it ends in `.plist`
/// and has a non-empty stem before the dot.
pub open spec fn spec_is_plist_name(name: Seq<char>) -> bool {
    let b = encode_utf8(name);
    let ext = (".plist").spec_bytes();
    b.len() > ext.len() && is_suffix_of(ext, b)
}

/// Extension test for candidate file names.
pub fn is_plist_file_name(name: &str) -> (r: bool)
    ensures
        r == spec_is_plist_name(name@),
{
    let b = name.as_bytes();
    let ext = ".plist".as_bytes();
    if b.len() <= ext.len() {
        return false;
    }
    bytes_ends_with(b, ext)
}

/// What a scan of one directory's candidates yields: one entry, in
/// directory order, for exactly the files that carry the descriptor
/// extension and declare a label; every other file is skipped.
pub open spec fn spec_scan(files: Seq<ScanFile>, scope: Scope) -> Seq<ScannedImage>
    decreases files.len(),
{
    if files.len() == 0 {
        Seq::empty()
    } else {
        let rest = spec_scan(files.drop_last(), scope);
        let f = files.last();
        if spec_is_plist_name(f.name@) {
            match spec_label_of(f.bytes@) {
                Some(label) => rest + seq![
                    ScannedImage { label, path: f.path@, scope },
                ],
                None => rest,
            }
        } else {
            rest
        }
    }
}

/// A directory that contributes no candidates contributes no entries.
pub proof fn lemma_scan_empty_directory(scope: Scope)
    ensures
        spec_scan(Seq::<ScanFile>::empty(), scope) == Seq::<ScannedImage>::empty(),
{
}

/// A candidate file the scanner accepts: it carries the descriptor
/// extension and declares a label.
pub open spec fn spec_valid_file(f: ScanFile) -> bool {
    spec_is_plist_name(f.name@) && spec_label_of(f.bytes@) is Some
}

/// How many of the candidates the scanner accepts.
pub open spec fn spec_valid_count(files: Seq<ScanFile>) -> int
    decreases files.len(),
{
    if files.len() == 0 {
        0
    } else {
        spec_valid_count(files.drop_last()) + if spec_valid_file(files.last()) {
            1int
        } else {
            0int
        }
    }
}

/// The scan of a directory holds exactly one entry per valid,
/// label-bearing descriptor file among its candidates.
pub proof fn lemma_scan_counts_valid_files(files: Seq<ScanFile>, scope: Scope)
    ensures
        spec_scan(files, scope).len() == spec_valid_count(files),
    decreases files.len(),
{
    if files.len() > 0 {
        lemma_scan_counts_valid_files(files.drop_last(), scope);
    }
}

/// Scan one scope directory's candidate files. Never fails: a file that
/// does not parse, or parses without a label, is dropped, never reported.
#[verifier::loop_isolation(false)]
pub fn scan_directory(files: &Vec<ScanFile>, scope: Scope) -> (r: Vec<ScannedService>)
    ensures
        r@.map_values(|s: ScannedService| s@) == spec_scan(files@, scope),
{
    let mut out: Vec<ScannedService> = Vec::new();
    let n = files.len();
    proof {
        assert(out@.map_values(|s: ScannedService| s@) =~= spec_scan(
            files@.take(0),
            scope,
        ));
    }
    let mut i: usize = 0;
    while i < n
        invariant
            i <= n,
            out@.map_values(|s: ScannedService| s@) == spec_scan(files@.take(i as int), scope),
        decreases n - i,
    {
        proof {
            assert(files@.take(i as int + 1).drop_last() =~= files@.take(i as int));
            assert(files@.take(i as int + 1).last() == files@[i as int]);
        }
        let f = &files[i];
        if is_plist_file_name(f.name.as_str()) {
            match get_label_from_plist(f.bytes.as_slice()) {
                Some(label) => {
                    let entry = ScannedService { label, path: f.path.clone(), scope };
                    out.push(entry);
                    proof {
                        assert(out@.map_values(|s: ScannedService| s@) =~= spec_scan(
                            files@.take(i as int + 1),
                            scope,
                        ));
                    }
                },
                None => {
                    proof {
                        assert(out@.map_values(|s: ScannedService| s@) =~= spec_scan(
                            files@.take(i as int + 1),
                            scope,
                        ));
                    }
                },
            }
        } else {
            proof {
                assert(out@.map_values(|s: ScannedService| s@) =~= spec_scan(
                    files@.take(i as int + 1),
                    scope,
                ));
            }
        }
        i = i + 1;
    }
    proof {
        assert(files@.take(n as int) =~= files@);
    }
    out
}

/// Scan the candidates of both scope directories, per-user first, then
/// system-wide: one entry per valid, label-bearing descriptor file
/// found across the two, in directory order.
pub fn scan_directories(user_files: &Vec<ScanFile>, system_files: &Vec<ScanFile>) -> (r: Vec<
    ScannedService,
>)
    ensures
        r@.map_values(|s: ScannedService| s@) == spec_scan(user_files@, Scope::User) + spec_scan(
            system_files@,
            Scope::System,
        ),
{
    let mut out = scan_directory(user_files, Scope::User);
    let mut system_part = scan_directory(system_files, Scope::System);
    out.append(&mut system_part);
    proof {
        assert(out@.map_values(|s: ScannedService| s@) =~= spec_scan(user_files@, Scope::User)
            + spec_scan(system_files@, Scope::System));
    }
    out
}

/// One scope directory the scanner would visit.
pub struct AgentDirectory {
    pub path: String,
    pub scope: Scope,
}

/// Ghost image of an `AgentDirectory`.
pub ghost struct AgentDirectoryImage {
    pub path: Seq<char>,
    pub scope: Scope,
}

impl View for AgentDirectory {
    type V = AgentDirectoryImage;

    open spec fn view(&self) -> AgentDirectoryImage {
        AgentDirectoryImage { path: self.path@, scope: self.scope }
    }
}

/// The ordered scope roots: the per-user agent directory under the home
/// directory, then the system-wide one, each only when it exists.
pub open spec fn spec_agent_directories(
    home: Option<Seq<char>>,
    user_exists: bool,
    system_exists: bool,
) -> Seq<AgentDirectoryImage> {
    let user_part = match home {
        Some(h) => if user_exists {
            seq![
                AgentDirectoryImage {
                    path: h + "/Library/LaunchAgents"@,
                    scope: Scope::User,
                },
            ]
        } else {
            Seq::empty()
        },
        None => Seq::empty(),
    };
    let system_part = if system_exists {
        seq![AgentDirectoryImage { path: "/Library/LaunchAgents"@, scope: Scope::System }]
    } else {
        Seq::empty()
    };
    user_part + system_part
}

/// The scope directories to scan. The caller resolves the home directory
/// and reports which directories exist; a directory that does not exist
/// is left out and so contributes zero entries.
pub fn get_launchagent_directories(
    home: &Option<String>,
    user_exists: bool,
    system_exists: bool,
) -> (r: Vec<AgentDirectory>)
    ensures
        r@.map_values(|d: AgentDirectory| d@) == spec_agent_directories(
            home.deep_view(),
            user_exists,
            system_exists,
        ),
{
    let mut out: Vec<AgentDirectory> = Vec::new();
    match home {
        Some(h) => {
            if user_exists {
                let p = h.clone().concat("/Library/LaunchAgents");
                out.push(AgentDirectory { path: p, scope: Scope::User });
            }
        },
        None => {},
    }
    if system_exists {
        out.push(
            AgentDirectory { path: String::from_str("/Library/LaunchAgents"), scope: Scope::System },
        );
    }
    proof {
        assert(out@.map_values(|d: AgentDirectory| d@) =~= spec_agent_directories(
            home.deep_view(),
            user_exists,
            system_exists,
        ));
    }
    out
}

/// The scope a direct detail lookup assigns to a path: a path that names
/// the system agent directory, contains no tilde, and is rooted at the
/// system library is System; everything else is User. A structural
/// heuristic on the path text, kept exactly as observed behaviour.
pub open spec fn spec_scope_of_path(path: Seq<char>) -> Scope {
    let b = encode_utf8(path);
    if has_substring(b, ("/Library/LaunchAgents").spec_bytes()) && !has_substring(
        b,
        ("~").spec_bytes(),
    ) {
        if is_prefix_of(("/Library").spec_bytes(), b) {
            Scope::System
        } else {
            Scope::User
        }
    } else {
        Scope::User
    }
}

/// Derive the scope of a descriptor reached by path alone.
pub fn scope_from_path(path: &str) -> (r: Scope)
    ensures
        r == spec_scope_of_path(path@),
{
    let b = path.as_bytes();
    let marker = "/Library/LaunchAgents".as_bytes();
    let tilde = "~".as_bytes();
    let sysroot = "/Library".as_bytes();
    if bytes_contains(b, marker) && !bytes_contains(b, tilde) {
        if bytes_starts_with(b, sysroot) {
            Scope::System
        } else {
            Scope::User
        }
    } else {
        Scope::User
    }
}

} // verus!
