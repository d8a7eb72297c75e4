use vstd::prelude::*;

use crate::codec::{decode_records, encode_records};
use crate::error::AsdfwError;
use crate::fs_path::FsPath;
use crate::plugin_manager::PluginManager;
use crate::shims_db::{db_records, decodes_to, entries_view, map_of, owner_matches, records_entries, records_valid};
use crate::text::{chars_of, margin_stripped, strip_margin, sub_string};

pub use crate::shims_db::{ShimData, ShimType, ShimsDB};

verus! {

// The file name of a shim decides whether it gets one, and of which kind.
/// `i` is the index of the last `'.'` of `name`, and not its first character.
pub open spec fn is_extension_dot(name: Seq<char>, i: int) -> bool {
    &&& 0 < i < name.len()
    &&& name[i] == '.'
    &&& forall|j: int| i < j < name.len() ==> name[j] != '.'
}

/// The extension of a file name, as `Path::extension` gives it: what follows
/// the last `'.'`, unless that dot is the name's first character.
pub open spec fn extension_of(name: Seq<char>) -> Option<Seq<char>> {
    if exists|i: int| is_extension_dot(name, i) {
        Some(name.skip((choose|i: int| is_extension_dot(name, i)) + 1))
    } else {
        None
    }
}

/// The kind of shim that an extension calls for, if any.
pub open spec fn shim_type_for(extension: Option<Seq<char>>) -> Option<ShimType> {
    match extension {
        Some(e) => if e == "exe"@ {
            Some(ShimType::ExeShim)
        } else if e == "cmd"@ {
            Some(ShimType::CmdShim)
        } else {
            None
        },
        None => None,
    }
}

pub open spec fn shim_type_of(name: Seq<char>) -> Option<ShimType> {
    shim_type_for(extension_of(name))
}

/// The extension of the file name `name`.
pub fn file_extension(name: &str) -> (r: Option<String>)
    ensures
        match extension_of(name@) {
            Some(e) => r matches Some(x) && x@ == e,
            None => r is None,
        },
{
    let chars = chars_of(name);
    let n = chars.len();
    let mut k: usize = n;
    while k > 0 && chars[k - 1] != '.'
        invariant
            k <= n,
            n == name@.len(),
            chars@ == name@,
            forall|j: int| k <= j < n ==> name@[j] != '.',
        decreases k,
    {
        k = k - 1;
    }
    if k >= 2 {
        proof {
            assert(is_extension_dot(name@, k - 1));
            let i = choose|i: int| is_extension_dot(name@, i);
            if i < k - 1 {
                assert(name@[k - 1] == '.');
            }
        }
        Some(sub_string(name, k, n))
    } else {
        proof {
            if exists|i: int| is_extension_dot(name@, i) {
                let i = choose|i: int| is_extension_dot(name@, i);
                assert(name@[i] == '.');
            }
        }
        None
    }
}

/// The command name, with or without an extension, that names an existing
/// shim: the name itself, else the name with `.exe`, else with `.cmd`.
pub open spec fn resolved_command(exe: Seq<char>, shims: Seq<Seq<char>>) -> Option<Seq<char>> {
    if shims.contains(exe) {
        Some(exe)
    } else if shims.contains(exe + ".exe"@) {
        Some(exe + ".exe"@)
    } else if shims.contains(exe + ".cmd"@) {
        Some(exe + ".cmd"@)
    } else {
        None
    }
}

fn is_listed(names: &Vec<String>, name: &String) -> (r: bool)
    ensures
        r == names@.map_values(|s: String| s@).contains(name@),
{
    let ghost view = names@.map_values(|s: String| s@);
    let mut k: usize = 0;
    while k < names.len()
        invariant
            k <= names.len(),
            view == names@.map_values(|s: String| s@),
            forall|j: int| 0 <= j < k ==> view[j] != name@,
        decreases names.len() - k,
    {
        if names[k] == *name {
            assert(view[k as int] == name@);
            return true;
        }
        k = k + 1;
    }
    false
}

/// Where the shim database, the installed tools and the shims lie.
#[derive(Debug)]
pub struct Shims {
    pub path: FsPath,
    pub tools_install_dir: FsPath,
    pub shims_dir: FsPath,
    pub shim_exe: FsPath,
    pub plugin_manager: PluginManager,
}

impl Shims {
    /// `install_dir_exists` tells whether `tools_install_dir` is an existing
    /// directory; when it is not, there is nothing to work on.
    pub fn new(
        db_path: FsPath,
        tools_install_dir: FsPath,
        shims_dir: FsPath,
        shim_exe: FsPath,
        plugin_manager: PluginManager,
        install_dir_exists: bool,
    ) -> (r: Result<Shims, AsdfwError>)
        ensures
            install_dir_exists <==> r is Ok,
            r matches Ok(s) ==> s.path == db_path && s.tools_install_dir == tools_install_dir
                && s.shims_dir == shims_dir && s.shim_exe == shim_exe && s.plugin_manager
                == plugin_manager,
            r matches Err(e) ==> e matches AsdfwError::InstallRootMissing { path } && path
                == tools_install_dir,
    {
        if !install_dir_exists {
            return Err(AsdfwError::InstallRootMissing { path: tools_install_dir });
        }
        Ok(Shims { path: db_path, tools_install_dir, shims_dir, shim_exe, plugin_manager })
    }

    /// The kind of shim that a file with `extension` gets, if any.
    pub fn requires_shim(&self, extension: Option<&str>) -> (r: Option<ShimType>)
        ensures
            r == shim_type_for(
                match extension {
                    Some(e) => Some(e@),
                    None => None,
                },
            ),
    {
        match extension {
            Some(e) => {
                let e = String::from_str(e);
                if e == String::from_str("exe") {
                    Some(ShimType::ExeShim)
                } else if e == String::from_str("cmd") {
                    Some(ShimType::CmdShim)
                } else {
                    None
                }
            },
            None => None,
        }
    }

    /// The bytes to store for `db`; encoding always succeeds.
    pub fn save_db(&self, db: &ShimsDB) -> (r: Result<Vec<u8>, AsdfwError>)
        ensures
            r matches Ok(bytes) && decodes_to(bytes@, db_records(db.entry_seq())),
    {
        let records = db.to_records();
        match encode_records(&records) {
            Ok(bytes) => Ok(bytes),
            Err(_) => Err(AsdfwError::ShimsDbEncoding),
        }
    }

    /// The database that `contents` hold. When they encode records, the
    /// records decide: a database with their entries in their order, or
    /// `InvalidShimsDb` when a tag is unknown or a name comes twice.
    pub fn load_db(&self, contents: &Vec<u8>) -> (r: Result<ShimsDB, AsdfwError>)
        ensures
            forall|rs: Seq<(Seq<char>, Seq<char>, u8)>| #[trigger]
                decodes_to(contents@, rs) ==> if records_valid(rs) {
                    r matches Ok(db) && db.entry_seq() == records_entries(rs) && db@ == map_of(
                        records_entries(rs),
                    )
                } else {
                    r is Err
                },
            r matches Err(e) ==> e is InvalidShimsDb,
    {
        match decode_records(contents) {
            Ok(records) => ShimsDB::from_records(&records),
            Err(_) => Err(AsdfwError::InvalidShimsDb),
        }
    }

    /// The shim that the command `exe` stands for, given the names of the
    /// files in the shims directory: `exe` itself if such a shim exists, else
    /// `exe` with the first known extension (`.exe`, then `.cmd`) that does.
    pub fn resolve_command(&self, exe: &str, shim_names: &Vec<String>) -> (r: Option<String>)
        ensures
            match resolved_command(exe@, shim_names@.map_values(|s: String| s@)) {
                Some(n) => r matches Some(x) && x@ == n,
                None => r is None,
            },
    {
        let exact = String::from_str(exe);
        if is_listed(shim_names, &exact) {
            return Some(exact);
        }
        let mut with_exe = String::from_str(exe);
        with_exe.append(".exe");
        if is_listed(shim_names, &with_exe) {
            return Some(with_exe);
        }
        let mut with_cmd = String::from_str(exe);
        with_cmd.append(".cmd");
        if is_listed(shim_names, &with_cmd) {
            return Some(with_cmd);
        }
        None
    }

    /// The tool that owns `exe` in the database that `contents` hold;
    /// `Ok(None)` when the database has no such shim.
    pub fn find_tool(&self, contents: &Vec<u8>, exe: &str) -> (r: Result<Option<String>, AsdfwError>)
        ensures
            forall|rs: Seq<(Seq<char>, Seq<char>, u8)>| #[trigger]
                decodes_to(contents@, rs) ==> if records_valid(rs) {
                    r matches Ok(t) && owner_matches(t, map_of(records_entries(rs)), exe@)
                } else {
                    r is Err
                },
            r matches Err(e) ==> e is InvalidShimsDb,
    {
        let db = self.load_db(contents)?;
        Ok(db.find_tool(exe))
    }
}

/// A file found directly in a bin directory of an installed version of `tool`.
#[derive(Debug)]
pub struct InstalledFile {
    pub tool: String,
    pub file_name: String,
}

pub open spec fn found_view(v: Seq<InstalledFile>) -> Seq<(Seq<char>, Seq<char>)> {
    v.map_values(|f: InstalledFile| (f.tool@, f.file_name@))
}

/// Files `i` and `j`, `i` found first, would get the same shim but belong to
/// different tools.
pub open spec fn conflicting(found: Seq<(Seq<char>, Seq<char>)>, i: int, j: int) -> bool {
    &&& 0 <= i < j < found.len()
    &&& found[i].1 == found[j].1
    &&& shim_type_of(found[j].1) is Some
    &&& found[i].0 != found[j].0
}

pub open spec fn has_conflict(found: Seq<(Seq<char>, Seq<char>)>) -> bool {
    exists|i: int, j: int| conflicting(found, i, j)
}

/// The database that a scan finding `found` yields: each file name with a
/// shimmable extension, mapped to the tool that provides it and to the kind of
/// shim that its extension calls for.
pub open spec fn scanned_db(found: Seq<(Seq<char>, Seq<char>)>) -> Map<Seq<char>, (Seq<char>, ShimType)> {
    Map::new(
        |n: Seq<char>|
            exists|i: int| 0 <= i < found.len() && #[trigger] found[i].1 == n && shim_type_of(n) is Some,
        |n: Seq<char>| scanned_entry(found, n),
    )
}

/// The tool of a file named `n`, and the kind of shim that `n` calls for.
pub open spec fn scanned_entry(found: Seq<(Seq<char>, Seq<char>)>, n: Seq<char>) -> (Seq<char>, ShimType) {
    (found[index_named(found, n)].0, shim_type_of(n)->0)
}

/// The index of some file named `n`.
pub open spec fn index_named(found: Seq<(Seq<char>, Seq<char>)>, n: Seq<char>) -> int {
    choose|i: int| 0 <= i < found.len() && #[trigger] found[i].1 == n
}

/// The conflict that the scan reports: `j` is the first file that clashes
/// with one found before it, `i` one of those.
pub open spec fn reported_conflict(found: Seq<(Seq<char>, Seq<char>)>, e: AsdfwError) -> bool {
    exists|i: int, j: int|
        {
            &&& #[trigger] conflicting(found, i, j)
            &&& !has_conflict(found.take(j))
            &&& e matches AsdfwError::ShimConflict { shim, tool, other_tool } && shim@ == found[j].1
                && tool@ == found[j].0 && other_tool@ == found[i].0
        }
}

proof fn lemma_same_tool(found: Seq<(Seq<char>, Seq<char>)>, i: int, j: int)
    requires
        !has_conflict(found),
        0 <= i < found.len(),
        0 <= j < found.len(),
        found[i].1 == found[j].1,
        shim_type_of(found[i].1) is Some,
    ensures
        found[i].0 == found[j].0,
{
    if i < j {
        assert(!conflicting(found, i, j));
    } else if j < i {
        assert(!conflicting(found, j, i));
    }
}

/// What the scan records for the name of file `i`.
proof fn lemma_scan_value(found: Seq<(Seq<char>, Seq<char>)>, i: int)
    requires
        !has_conflict(found),
        0 <= i < found.len(),
        shim_type_of(found[i].1) is Some,
    ensures
        scanned_db(found).contains_key(found[i].1),
        scanned_db(found)[found[i].1] == (found[i].0, shim_type_of(found[i].1)->0),
{
    let n = found[i].1;
    assert(scanned_db(found).contains_key(n));
    assert(0 <= i < found.len() && found[i].1 == n);
    let a = index_named(found, n);
    assert(0 <= a < found.len() && found[a].1 == n);
    lemma_same_tool(found, a, i);
    assert(scanned_db(found)[n] == scanned_entry(found, n));
}

/// A file that gets no shim, or whose name the same tool already provided
/// (file `w`), changes nothing.
proof fn lemma_scan_keeps(pre: Seq<(Seq<char>, Seq<char>)>, f: (Seq<char>, Seq<char>), w: Option<int>)
    requires
        !has_conflict(pre),
        match w {
            None => shim_type_of(f.1) is None,
            Some(w) => 0 <= w < pre.len() && pre[w] == f && shim_type_of(f.1) is Some,
        },
    ensures
        !has_conflict(pre.push(f)),
        scanned_db(pre.push(f)) == scanned_db(pre),
{
    let post = pre.push(f);
    let k = pre.len() as int;
    assert(!has_conflict(post)) by {
        if has_conflict(post) {
            let (i, j) = choose|i: int, j: int| conflicting(post, i, j);
            assert(post[i] == pre[i]);
            if j < k {
                assert(post[j] == pre[j]);
                assert(conflicting(pre, i, j));
            } else if let Some(w) = w {
                lemma_same_tool(pre, i, w);
            }
        }
    }
    assert forall|n: Seq<char>| #[trigger] scanned_db(post).contains_key(n) <==> scanned_db(pre).contains_key(n) by {
        if scanned_db(post).contains_key(n) {
            let i = choose|i: int| 0 <= i < post.len() && #[trigger] post[i].1 == n && shim_type_of(n) is Some;
            if i < k {
                assert(pre[i] == post[i]);
            } else if let Some(w) = w {
                assert(pre[w].1 == n);
            }
        }
        if scanned_db(pre).contains_key(n) {
            let i = choose|i: int| 0 <= i < pre.len() && #[trigger] pre[i].1 == n && shim_type_of(n) is Some;
            assert(post[i] == pre[i]);
        }
    }
    assert forall|n: Seq<char>| #[trigger] scanned_db(pre).contains_key(n) implies scanned_db(post)[n] == scanned_db(pre)[n] by {
        let i = choose|i: int| 0 <= i < pre.len() && #[trigger] pre[i].1 == n && shim_type_of(n) is Some;
        lemma_scan_value(pre, i);
        assert(post[i] == pre[i]);
        lemma_scan_value(post, i);
    }
    assert(scanned_db(post) =~= scanned_db(pre));
}

/// A shimmable file whose name was not found before adds its entry.
proof fn lemma_scan_adds(pre: Seq<(Seq<char>, Seq<char>)>, f: (Seq<char>, Seq<char>))
    requires
        !has_conflict(pre),
        shim_type_of(f.1) is Some,
        !scanned_db(pre).contains_key(f.1),
    ensures
        !has_conflict(pre.push(f)),
        scanned_db(pre.push(f)) == scanned_db(pre).insert(f.1, (f.0, shim_type_of(f.1)->0)),
{
    let post = pre.push(f);
    let k = pre.len() as int;
    assert(!has_conflict(post)) by {
        if has_conflict(post) {
            let (i, j) = choose|i: int, j: int| conflicting(post, i, j);
            assert(post[i] == pre[i]);
            if j < k {
                assert(post[j] == pre[j]);
                assert(conflicting(pre, i, j));
            } else {
                assert(scanned_db(pre).contains_key(pre[i].1));
            }
        }
    }
    let target = scanned_db(pre).insert(f.1, (f.0, shim_type_of(f.1)->0));
    assert forall|n: Seq<char>| #[trigger] scanned_db(post).contains_key(n) <==> target.contains_key(n) by {
        if scanned_db(post).contains_key(n) && n != f.1 {
            let i = choose|i: int| 0 <= i < post.len() && #[trigger] post[i].1 == n && shim_type_of(n) is Some;
            assert(pre[i] == post[i]);
        }
        if scanned_db(pre).contains_key(n) {
            let i = choose|i: int| 0 <= i < pre.len() && #[trigger] pre[i].1 == n && shim_type_of(n) is Some;
            assert(post[i] == pre[i]);
        }
        if n == f.1 {
            assert(post[k].1 == n);
        }
    }
    assert forall|n: Seq<char>| #[trigger] target.contains_key(n) implies scanned_db(post)[n] == target[n] by {
        if n == f.1 {
            lemma_scan_value(post, k);
        } else {
            let i = choose|i: int| 0 <= i < pre.len() && #[trigger] pre[i].1 == n && shim_type_of(n) is Some;
            lemma_scan_value(pre, i);
            assert(post[i] == pre[i]);
            lemma_scan_value(post, i);
        }
    }
    assert(scanned_db(post) =~= target);
}

impl Shims {
    /// Builds the shim database from the files found in the bin directories of
    /// every installed version of every tool, in the order of the scan. A name
    /// that two different tools provide fails the whole scan; one that the same
    /// tool provides again keeps its first entry.
    pub fn generate_db_from_installed_tools(&self, found: &Vec<InstalledFile>) -> (r: Result<ShimsDB, AsdfwError>)
        ensures
            if has_conflict(found_view(found@)) {
                r matches Err(e) && reported_conflict(found_view(found@), e)
            } else {
                r matches Ok(db) && db@ == scanned_db(found_view(found@))
            },
    {
        let ghost fs = found_view(found@);
        let mut db = ShimsDB::new();
        let mut k: usize = 0;
        proof {
            assert(scanned_db(fs.take(0)) =~= Map::<Seq<char>, (Seq<char>, ShimType)>::empty());
        }
        while k < found.len()
            invariant
                k <= found.len(),
                fs == found_view(found@),
                !has_conflict(fs.take(k as int)),
                db@ == scanned_db(fs.take(k as int)),
            decreases found.len() - k,
        {
            let ghost pre = fs.take(k as int);
            let ghost post = fs.take(k + 1);
            proof {
                assert(post == pre.push(fs[k as int]));
                assert(fs[k as int] == (found@[k as int].tool@, found@[k as int].file_name@));
            }
            let name = found[k].file_name.as_str();
            let extension = file_extension(name);
            let tipe = match &extension {
                Some(e) => self.requires_shim(Some(e.as_str())),
                None => self.requires_shim(None),
            };
            match tipe {
                None => {
                    proof {
                        lemma_scan_keeps(pre, fs[k as int], None);
                    }
                },
                Some(t) => {
                    let tool = &found[k].tool;
                    match db.get(name) {
                        Some(existing) => {
                            let ghost i = choose|i: int| 0 <= i < pre.len() && #[trigger] pre[i].1 == name@;
                            proof {
                                lemma_scan_value(pre, i);
                            }
                            if existing.tool != *tool {
                                proof {
                                    assert(post[i] == pre[i]);
                                    assert(conflicting(fs, i, k as int));
                                    assert(fs.take(k as int) == pre);
                                    assert(has_conflict(fs));
                                }
                                return Err(AsdfwError::ShimConflict {
                                    shim: String::from_str(name),
                                    tool: tool.clone(),
                                    other_tool: existing.tool.clone(),
                                });
                            }
                            proof {
                                lemma_scan_keeps(pre, fs[k as int], Some(i));
                            }
                        },
                        None => {
                            let data = ShimData { tool: tool.clone(), tipe: t };
                            db.insert(name, data);
                            proof {
                                lemma_scan_adds(pre, fs[k as int]);
                            }
                        },
                    }
                },
            }
            k = k + 1;
        }
        proof {
            assert(fs.take(k as int) =~= fs);
        }
        Ok(db)
    }
}

/// The command script of a shim, up to the quoted name of the shim. Each line
/// starts with a margin that ends in `'|'`.
pub const CMD_SCRIPT_HEAD: &'static str = "@ECHO OFF
                          |
                          |SETLOCAL
                          |
                          |FOR /F \"delims=\" %%F IN ('CALL cmdshim.exe ";

/// The command script of a shim, after the quoted name of its tool.
pub const CMD_SCRIPT_TAIL: &'static str = "') DO (
                          |    SET commandToRun=%%F
                          |)
                          |
                          |if \"%commandToRun%\" == \"\" (
                          |    exit 1
                          |)
                          |
                          |\"%commandToRun%\" %*
                          |";

/// The script of the command shim `exe` of `tool`: it asks the helper for
/// the executable that `exe` stands for, fails when there is none, and runs
/// it with the script's arguments.
pub open spec fn cmd_script_text(exe: Seq<char>, tool: Seq<char>) -> Seq<char> {
    margin_stripped(
        CMD_SCRIPT_HEAD@ + seq!['"'] + exe + seq!['"', ' ', '"'] + tool + seq!['"'] + CMD_SCRIPT_TAIL@,
    )
}

/// The text of the command script for the shim `exe` of `tool`.
pub fn cmd_script(exe: &str, tool: &str) -> (r: String)
    ensures
        r@ == cmd_script_text(exe@, tool@),
{
    let mut text = String::from_str(CMD_SCRIPT_HEAD);
    text.append("\"");
    text.append(exe);
    text.append("\" \"");
    text.append(tool);
    text.append("\"");
    text.append(CMD_SCRIPT_TAIL);
    proof {
        reveal_strlit("\"");
        reveal_strlit("\" \"");
        assert(text@ =~= CMD_SCRIPT_HEAD@ + seq!['"'] + exe@ + seq!['"', ' ', '"'] + tool@ + seq!['"']
            + CMD_SCRIPT_TAIL@);
    }
    strip_margin(text.as_str())
}

/// What a shim file holds.
#[derive(Debug)]
pub enum ShimContent {
    /// A copy of the file at this path.
    CopyOf { source: FsPath },
    /// This text.
    Script { text: String },
}

/// A shim file to write.
#[derive(Debug)]
pub struct ShimFile {
    pub target: FsPath,
    pub content: ShimContent,
}

/// `f` is the shim file that the entry `e` calls for.
pub open spec fn is_shim_file_for(shims: Shims, f: ShimFile, e: (Seq<char>, (Seq<char>, ShimType))) -> bool {
    &&& f.target@ == shims.shims_dir@.push(e.0)
    &&& match e.1.1 {
        ShimType::ExeShim => f.content matches ShimContent::CopyOf { source } && source@ == shims.shim_exe@,
        ShimType::CmdShim => f.content matches ShimContent::Script { text } && text@ == cmd_script_text(
            e.0,
            e.1.0,
        ),
    }
}

impl Shims {
    /// The shim files that `db` calls for, one per entry, in its order.
    pub fn shim_files(&self, db: &ShimsDB) -> (r: Vec<ShimFile>)
        ensures
            r@.len() == db.entry_seq().len(),
            forall|i: int| 0 <= i < r@.len() ==> is_shim_file_for(*self, #[trigger] r@[i], db.entry_seq()[i]),
    {
        let entries = db.entries();
        let mut files: Vec<ShimFile> = Vec::new();
        let mut k: usize = 0;
        while k < entries.len()
            invariant
                k <= entries.len(),
                entries_view(entries@) == db.entry_seq(),
                files@.len() == k,
                forall|i: int| 0 <= i < k ==> is_shim_file_for(*self, #[trigger] files@[i], db.entry_seq()[i]),
            decreases entries.len() - k,
        {
            let name = entries[k].0.as_str();
            let data = &entries[k].1;
            proof {
                assert(db.entry_seq()[k as int] == (name@, data@));
            }
            let content = match data.tipe {
                ShimType::ExeShim => ShimContent::CopyOf { source: self.shim_exe.duplicate() },
                ShimType::CmdShim => ShimContent::Script { text: cmd_script(name, data.tool.as_str()) },
            };
            let file = ShimFile { target: self.shims_dir.join(name), content };
            proof {
                assert(is_shim_file_for(*self, file, db.entry_seq()[k as int]));
            }
            files.push(file);
            k = k + 1;
        }
        files
    }

    /// The shim files that the database held in `contents` calls for.
    pub fn create_shims(&self, contents: &Vec<u8>) -> (r: Result<Vec<ShimFile>, AsdfwError>)
        ensures
            forall|rs: Seq<(Seq<char>, Seq<char>, u8)>| #[trigger]
                decodes_to(contents@, rs) ==> if records_valid(rs) {
                    r matches Ok(files) && files@.len() == rs.len() && forall|i: int|
                        0 <= i < rs.len() ==> is_shim_file_for(*self, #[trigger] files@[i], records_entries(rs)[i])
                } else {
                    r is Err
                },
            r matches Err(e) ==> e is InvalidShimsDb,
    {
        let db = self.load_db(contents)?;
        Ok(self.shim_files(&db))
    }
}

} // verus!