use vstd::prelude::*;

use crate::error::AsdfwError;
use crate::fs_path::FsPath;
use crate::record_file::{invalid_line_error, lookup_result, saved_record, search_record, set_tool_version, str_view};
use crate::text::{uppercase, uppercase_of};

pub use crate::record_file::{parse_line, search_tool_in_file};

verus! {

/// Name of the record file that a directory may hold.
pub const FILE_NAME: &'static str = ".tool-versions";

/// Walking the record files of a directory and its ancestors, nearest first
/// (`None` where a directory holds none): the first file that names the tool
/// decides.
pub open spec fn search_records(records: Seq<Option<Seq<char>>>, tool: Seq<char>) -> Result<
    Option<Seq<char>>,
    Seq<char>,
>
    decreases records.len(),
{
    if records.len() == 0 {
        Ok(None)
    } else {
        match search_records(records.drop_last(), tool) {
            Ok(None) => match records.last() {
                Some(s) => search_record(s, tool),
                None => Ok(None),
            },
            found => found,
        }
    }
}

/// The version cascade: the environment override, then the local records from
/// the nearest directory up, then the global record.
pub open spec fn resolve_version(
    env: Option<Seq<char>>,
    locals: Seq<Option<Seq<char>>>,
    global: Option<Seq<char>>,
    tool: Seq<char>,
) -> Result<Option<Seq<char>>, Seq<char>> {
    match env {
        Some(v) => Ok(Some(v)),
        None => match search_records(locals, tool) {
            Ok(None) => match global {
                Some(s) => search_record(s, tool),
                None => Ok(None),
            },
            found => found,
        },
    }
}

pub open spec fn records_view(v: Seq<Option<String>>) -> Seq<Option<Seq<char>>> {
    v.map_values(
        |o: Option<String>|
            match o {
                Some(s) => Some(s@),
                None => None,
            },
    )
}

proof fn lemma_search_records_stays(records: Seq<Option<Seq<char>>>, tool: Seq<char>, j: int)
    requires
        0 <= j <= records.len(),
        !(search_records(records.take(j), tool) matches Ok(None)),
    ensures
        search_records(records, tool) == search_records(records.take(j), tool),
    decreases records.len() - j,
{
    if j == records.len() {
        assert(records.take(j) =~= records);
    } else {
        assert(records.take(j + 1).drop_last() =~= records.take(j));
        lemma_search_records_stays(records, tool, j + 1);
    }
}

/// The name of the environment variable that overrides the version of the
/// tool whose name, in upper case, is `upper_tool`: `ASDFW_<TOOL>_VERSION`.
pub fn env_var_name_for_upper(upper_tool: &str) -> (r: String)
    ensures
        r@ == "ASDFW_"@ + upper_tool@ + "_VERSION"@,
{
    let mut name = String::from_str("ASDFW_");
    name.append(upper_tool);
    name.append("_VERSION");
    name
}

/// The name of the environment variable that overrides the version of `tool`:
/// `ASDFW_<TOOL>_VERSION`, with the tool's name in upper case.
pub fn env_var_name_for_tool(tool: &str) -> (r: String)
    ensures
        r@ == "ASDFW_"@ + uppercase_of(tool@) + "_VERSION"@,
{
    let upper = uppercase(tool);
    env_var_name_for_upper(upper.as_str())
}

/// Where the version of one tool is configured: the global record file and the
/// directory that the lookup starts from.
#[derive(Debug)]
pub struct ToolVersions {
    pub tool: String,
    pub global_path: FsPath,
    pub current_dir: FsPath,
}

impl ToolVersions {
    pub fn new(global_path: FsPath, current_dir: FsPath, tool: &str) -> (r: ToolVersions)
        ensures
            r.tool@ == tool@,
            r.global_path@ == global_path@,
            r.current_dir@ == current_dir@,
    {
        ToolVersions { tool: String::from_str(tool), global_path, current_dir }
    }

    /// The environment variable whose value overrides every record.
    pub fn env_var_name(&self) -> (r: String)
        ensures
            r@ == "ASDFW_"@ + uppercase_of(self.tool@) + "_VERSION"@,
    {
        env_var_name_for_tool(self.tool.as_str())
    }

    /// The record file of the current directory.
    pub fn local_file(&self) -> (r: FsPath)
        ensures
            r@ == self.current_dir@.push(FILE_NAME@),
    {
        self.current_dir.join(FILE_NAME)
    }

    /// The version configured for the tool. `env_value` is the value of the
    /// variable that `env_var_name` names, if it is set; `local_records` holds
    /// the text of the record file of the current directory and of each of its
    /// ancestors, nearest first, `None` where a directory has none;
    /// `global_record` is the text of the global record file, if there is one.
    /// The first source that names the tool decides; `Ok(None)` when none does.
    pub fn get_version(
        &self,
        env_value: Option<&str>,
        local_records: &Vec<Option<String>>,
        global_record: Option<&str>,
    ) -> (r: Result<Option<String>, AsdfwError>)
        ensures
            lookup_result(
                r,
                resolve_version(str_view(env_value), records_view(local_records@), str_view(global_record), self.tool@),
            ),
    {
        if let Some(v) = env_value {
            return Ok(Some(String::from_str(v)));
        }
        let local = self.get_version_from_current_dir(local_records)?;
        if local.is_some() {
            return Ok(local);
        }
        self.get_version_from_global(global_record)
    }

    /// The version that the nearest record file naming the tool gives. Files
    /// farther up are not read once one names it; a malformed file met on the
    /// way fails the lookup.
    pub fn get_version_from_current_dir(&self, local_records: &Vec<Option<String>>) -> (r: Result<Option<String>, AsdfwError>)
        ensures
            lookup_result(r, search_records(records_view(local_records@), self.tool@)),
    {
        let ghost rs = records_view(local_records@);
        let mut k: usize = 0;
        proof {
            assert(rs.take(0) =~= Seq::<Option<Seq<char>>>::empty());
        }
        while k < local_records.len()
            invariant
                k <= local_records.len(),
                rs == records_view(local_records@),
                search_records(rs.take(k as int), self.tool@) == Ok::<_, Seq<char>>(None::<Seq<char>>),
            decreases local_records.len() - k,
        {
            proof {
                assert(rs.take(k + 1).drop_last() =~= rs.take(k as int));
            }
            if let Some(content) = &local_records[k] {
                let found = search_tool_in_file(self.tool.as_str(), content.as_str());
                match found {
                    Ok(None) => {},
                    _ => {
                        proof {
                            lemma_search_records_stays(rs, self.tool@, k + 1);
                        }
                        return found;
                    },
                }
            }
            k = k + 1;
        }
        proof {
            assert(rs.take(k as int) =~= rs);
        }
        Ok(None)
    }

    /// The version that the global record file gives, if there is one.
    pub fn get_version_from_global(&self, global_record: Option<&str>) -> (r: Result<Option<String>, AsdfwError>)
        ensures
            match str_view(global_record) {
                Some(s) => lookup_result(r, search_record(s, self.tool@)),
                None => r matches Ok(None),
            },
    {
        match global_record {
            Some(content) => search_tool_in_file(self.tool.as_str(), content),
            None => Ok(None),
        }
    }

    /// The new text of the current directory's record file (`existing`: its
    /// present text, if it exists) with `version` saved for the tool.
    pub fn save_local(&self, version: &str, existing: Option<&str>) -> (r: Result<String, AsdfwError>)
        ensures
            match saved_record(str_view(existing), self.tool@, version@) {
                Ok(c) => r matches Ok(t) && t@ == c,
                Err(l) => r matches Err(e) && invalid_line_error(e, l),
            },
    {
        set_tool_version(existing, self.tool.as_str(), version)
    }

    /// The new text of the global record file (`existing`: its present text,
    /// if it exists) with `version` saved for the tool.
    pub fn save_global(&self, version: &str, existing: Option<&str>) -> (r: Result<String, AsdfwError>)
        ensures
            match saved_record(str_view(existing), self.tool@, version@) {
                Ok(c) => r matches Ok(t) && t@ == c,
                Err(l) => r matches Err(e) && invalid_line_error(e, l),
            },
    {
        set_tool_version(existing, self.tool.as_str(), version)
    }
}

/// The cascade's precedence: an environment override wins over every record,
/// a local record that names the tool wins over the global record, and the
/// global record decides only when no local record names the tool.
pub proof fn lemma_cascade_precedence(
    env: Option<Seq<char>>,
    locals: Seq<Option<Seq<char>>>,
    global: Option<Seq<char>>,
    tool: Seq<char>,
)
    ensures
        env matches Some(v) ==> resolve_version(env, locals, global, tool) == Ok::<_, Seq<char>>(Some(v)),
        env is None && search_records(locals, tool) is Err ==> resolve_version(env, locals, global, tool)
            == search_records(locals, tool),
        env is None && (search_records(locals, tool) matches Ok(Some(_))) ==> resolve_version(
            env,
            locals,
            global,
            tool,
        ) == search_records(locals, tool),
        env is None && (search_records(locals, tool) matches Ok(None)) ==> resolve_version(
            env,
            locals,
            global,
            tool,
        ) == match global {
            Some(s) => search_record(s, tool),
            None => Ok(None),
        },
{
}

/// The directory walk stops at the nearest record file that names the tool:
/// when the `k`-th record gives `v` and no nearer one names the tool, the walk
/// gives `v`, whatever the farther ones hold.
pub proof fn lemma_nearest_record_wins(records: Seq<Option<Seq<char>>>, tool: Seq<char>, k: int, v: Seq<char>)
    requires
        0 <= k < records.len(),
        records[k] matches Some(s) && search_record(s, tool) == Ok::<_, Seq<char>>(Some(v)),
        forall|j: int|
            0 <= j < k ==> (#[trigger] records[j] matches Some(s) ==> search_record(s, tool) == Ok::<
                Option<Seq<char>>,
                Seq<char>,
            >(None)),
    ensures
        search_records(records, tool) == Ok::<_, Seq<char>>(Some(v)),
{
    lemma_search_records_none_before(records, tool, k);
    assert(records.take(k + 1).drop_last() =~= records.take(k));
    lemma_search_records_stays(records, tool, k + 1);
}

proof fn lemma_search_records_none_before(records: Seq<Option<Seq<char>>>, tool: Seq<char>, k: int)
    requires
        0 <= k <= records.len(),
        forall|j: int|
            0 <= j < k ==> (#[trigger] records[j] matches Some(s) ==> search_record(s, tool) == Ok::<
                Option<Seq<char>>,
                Seq<char>,
            >(None)),
    ensures
        search_records(records.take(k), tool) == Ok::<_, Seq<char>>(None::<Seq<char>>),
    decreases k,
{
    if k == 0 {
        assert(records.take(0) =~= Seq::<Option<Seq<char>>>::empty());
    } else {
        lemma_search_records_none_before(records, tool, k - 1);
        assert(records.take(k).drop_last() =~= records.take(k - 1));
        assert(records.take(k).last() == records[k - 1]);
    }
}

} // verus!
