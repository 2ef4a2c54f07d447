//! Exporting every power plan to a `.pow` file: the file names and the
//! report of each export.
use vstd::prelude::*;
use crate::text::{to_chars, from_chars, decimal, push_decimal, string_views};
use crate::command::{CommandLine, command_words};
use crate::powercfg::PowerPlan;

verus! {

/// The folder on the desktop that holds the backups.
pub const APP_DESKTOP_DIR_NAME: &'static str = "ThinkPadX1PowerOptimize";

/// A character that Windows does not allow in a file name.
pub open spec fn is_forbidden_in_file_name(c: char) -> bool {
    c == '<' || c == '>' || c == ':' || c == '"' || c == '/' || c == '\\' || c == '|' || c == '?'
        || c == '*'
}

/// `c`, or `_` in place of a character that Windows does not allow.
pub open spec fn sanitized_char(c: char) -> char {
    if is_forbidden_in_file_name(c) {
        '_'
    } else {
        c
    }
}

/// `name` with `_` in place of every character that Windows does not allow.
pub open spec fn sanitized(name: Seq<char>) -> Seq<char> {
    name.map_values(|c: char| sanitized_char(c))
}

/// Replaces in the file name `name` each of `< > : " / \ | ? *` by `_`.
pub fn sanitize_windows_filename(name: &str) -> (r: String)
    ensures
        r@ == sanitized(name@),
{
    let chars = to_chars(name);
    let mut r = String::new();
    let mut i: usize = 0;
    while i < chars.len()
        invariant
            i <= chars@.len(),
            r@ == sanitized(chars@.take(i as int)),
        decreases chars@.len() - i,
    {
        let c = chars[i];
        let replaced = if c == '<' || c == '>' || c == ':' || c == '"' || c == '/' || c == '\\' || c
            == '|' || c == '?' || c == '*' {
            '_'
        } else {
            c
        };
        r.push(replaced);
        assert(sanitized(chars@.take(i + 1)) == sanitized(chars@.take(i as int)).push(replaced));
        i = i + 1;
    }
    assert(chars@.take(chars@.len() as int) == chars@);
    r
}

/// A sanitized name has the same length, holds no forbidden character, keeps
/// every allowed character in place, and is left alone by a second pass.
pub proof fn law_sanitize(name: Seq<char>)
    ensures
        sanitized(name).len() == name.len(),
        forall|i: int| 0 <= i < name.len() ==> !is_forbidden_in_file_name(#[trigger] sanitized(name)[i]),
        forall|i: int|
            0 <= i < name.len() && !is_forbidden_in_file_name(#[trigger] name[i]) ==> sanitized(name)[i]
                == name[i],
        sanitized(sanitized(name)) == sanitized(name),
{
    assert(sanitized(sanitized(name)) =~= sanitized(name));
}

/// The file name of a plan's export: `<name>-<guid>.pow`.
pub open spec fn backup_file_name_of(name: Seq<char>, guid: Seq<char>) -> Seq<char> {
    name + "-"@ + guid + ".pow"@
}

/// The file name of a plan's export, before it is made safe for Windows.
pub fn backup_file_name(plan: &PowerPlan) -> (r: String)
    ensures
        r@ == backup_file_name_of(plan.name@, plan.guid@),
{
    let mut r = String::new();
    r.append(plan.name.as_str());
    r.append("-");
    r.append(plan.guid.as_str());
    r.append(".pow");
    r
}

/// The name of the folder of one backup run, stamped with the Unix time.
pub fn backup_dir_name(timestamp: u64) -> (r: String)
    ensures
        r@ == "power-plans-backup-"@ + decimal(timestamp as nat),
{
    let mut r = String::new();
    r.append("power-plans-backup-");
    push_decimal(&mut r, timestamp);
    r
}

/// The words of `powercfg /export <file> <guid>`.
pub open spec fn export_words(file_path: Seq<char>, guid: Seq<char>) -> (Seq<char>, Seq<Seq<char>>) {
    ("powercfg"@, seq!["/export"@, file_path, guid])
}

/// The command that exports the plan `guid` to `file_path`.
pub fn export_command(file_path: &str, guid: &str) -> (c: CommandLine)
    ensures
        command_words(&c) == export_words(file_path@, guid@),
        !c.dynamic,
{
    let args = vec!["/export".to_owned(), file_path.to_owned(), guid.to_owned()];
    let c = CommandLine { program: "powercfg".to_owned(), args, dynamic: false };
    assert(string_views(c.args@) == export_words(file_path@, guid@).1);
    c
}

/// How the export of one plan went.
pub struct BackupItem {
    pub guid: String,
    pub name: String,
    pub file_path: String,
    pub ok: bool,
    pub error: Option<String>,
}

/// The report of a plan's export to `file_path`: done, or failed with the
/// error.
pub fn backup_item(plan: &PowerPlan, file_path: &str, outcome: Result<String, String>) -> (r:
    BackupItem)
    ensures
        r.guid == plan.guid,
        r.name == plan.name,
        r.file_path@ == file_path@,
        r.ok == outcome is Ok,
        match outcome {
            Ok(_) => r.error is None,
            Err(e) => r.error == Some(e),
        },
{
    let error = match outcome {
        Ok(_) => None,
        Err(e) => Some(e),
    };
    BackupItem {
        guid: plan.guid.clone(),
        name: plan.name.clone(),
        file_path: file_path.to_owned(),
        ok: error.is_none(),
        error,
    }
}

} // verus!
