//! Scheduled tasks: quoting for PowerShell, splitting a task's full name, and
//! the commands that register, update, start, check and remove a task.
use vstd::prelude::*;
use crate::text::{trim, trim_chars, to_chars, from_chars, push_chars, copy_range, string_views};
use crate::command::{CommandLine, command_words};

verus! {

/// How one character is written inside a PowerShell single-quoted string.
pub open spec fn quote_piece(c: char) -> Seq<char> {
    if c == '\'' {
        seq!['\'', '\'']
    } else {
        seq![c]
    }
}

/// `s` with every single quote doubled, ready to stand between single quotes
/// in a PowerShell script.
pub open spec fn ps_quoted(s: Seq<char>) -> Seq<char>
    decreases s.len(),
{
    if s.len() == 0 {
        Seq::empty()
    } else {
        quote_piece(s[0]) + ps_quoted(s.drop_first())
    }
}

/// What PowerShell reads from the inside of a single-quoted string: each
/// doubled quote stands for one quote.
pub open spec fn ps_unquoted(t: Seq<char>) -> Seq<char>
    decreases t.len(),
{
    if t.len() == 0 {
        Seq::empty()
    } else if t.len() >= 2 && t[0] == '\'' && t[1] == '\'' {
        seq!['\''] + ps_unquoted(t.skip(2))
    } else {
        seq![t[0]] + ps_unquoted(t.drop_first())
    }
}

proof fn lemma_ps_quoted_push(s: Seq<char>, c: char)
    ensures
        ps_quoted(s.push(c)) == ps_quoted(s) + quote_piece(c),
    decreases s.len(),
{
    if s.len() == 0 {
        assert(s.push(c).drop_first() == Seq::<char>::empty());
        assert(ps_quoted(s.push(c)) == quote_piece(c) + ps_quoted(Seq::<char>::empty()));
        assert(ps_quoted(Seq::<char>::empty()) == Seq::<char>::empty());
        assert(quote_piece(c) + Seq::<char>::empty() == quote_piece(c));
    } else {
        assert(s.push(c).drop_first() == s.drop_first().push(c));
        lemma_ps_quoted_push(s.drop_first(), c);
        assert(s.push(c)[0] == s[0]);
        assert(ps_quoted(s.push(c)) == quote_piece(s[0]) + ps_quoted(s.drop_first().push(c)));
        assert(quote_piece(s[0]) + (ps_quoted(s.drop_first()) + quote_piece(c)) == (quote_piece(s[0])
            + ps_quoted(s.drop_first())) + quote_piece(c));
    }
}

/// Quoting loses nothing: PowerShell reads back exactly `s` from a
/// single-quoted string holding `ps_quoted(s)`.
pub proof fn law_ps_quote_roundtrip(s: Seq<char>)
    ensures
        ps_unquoted(ps_quoted(s)) == s,
    decreases s.len(),
{
    if s.len() > 0 {
        law_ps_quote_roundtrip(s.drop_first());
        let q = ps_quoted(s.drop_first());
        let t = ps_quoted(s);
        assert(t == quote_piece(s[0]) + q);
        if s[0] == '\'' {
            assert(t.skip(2) == q);
            assert(t[0] == '\'' && t[1] == '\'');
        } else {
            assert(t.drop_first() == q);
            assert(t[0] == s[0]);
        }
        assert(s == seq![s[0]] + s.drop_first());
    }
}

/// Doubles every single quote of `value`, as `str::replace('\'', "''")` does.
pub fn ps_quote(value: &str) -> (r: String)
    ensures
        r@ == ps_quoted(value@),
{
    let chars = to_chars(value);
    let mut r = String::new();
    let mut i: usize = 0;
    assert(chars@.take(0) == Seq::<char>::empty());
    while i < chars.len()
        invariant
            i <= chars@.len(),
            r@ == ps_quoted(chars@.take(i as int)),
        decreases chars@.len() - i,
    {
        let c = chars[i];
        proof {
            assert(chars@.take(i + 1) == chars@.take(i as int).push(c));
            lemma_ps_quoted_push(chars@.take(i as int), c);
        }
        if c == '\'' {
            r.push('\'');
            r.push('\'');
            assert(r@ == ps_quoted(chars@.take(i as int)) + quote_piece(c));
        } else {
            r.push(c);
            assert(r@ == ps_quoted(chars@.take(i as int)) + quote_piece(c));
        }
        i = i + 1;
    }
    assert(chars@.take(chars@.len() as int) == chars@);
    r
}

/// The index of the last backslash of `s`.
pub open spec fn last_backslash(s: Seq<char>) -> Option<int>
    decreases s.len(),
{
    if s.len() == 0 {
        None
    } else if s.last() == '\\' {
        Some(s.len() - 1)
    } else {
        last_backslash(s.drop_last())
    }
}

proof fn lemma_last_backslash(s: Seq<char>)
    ensures
        last_backslash(s) matches Some(k) ==> 0 <= k < s.len() && s[k] == '\\' && forall|j: int|
            k < j < s.len() ==> s[j] != '\\',
        last_backslash(s) is None ==> !s.contains('\\'),
    decreases s.len(),
{
    if s.len() > 0 && s.last() != '\\' {
        lemma_last_backslash(s.drop_last());
        if let Some(k) = last_backslash(s) {
            assert forall|j: int| k < j < s.len() implies s[j] != '\\' by {
                if j < s.len() - 1 {
                    assert(s[j] == s.drop_last()[j]);
                }
            }
            assert(s[k] == s.drop_last()[k]);
        }
        if last_backslash(s) is None {
            assert forall|j: int| 0 <= j < s.len() implies s[j] != '\\' by {
                if j < s.len() - 1 {
                    assert(s[j] == s.drop_last()[j]);
                }
            }
        }
    }
}

/// The folder and the name of a scheduled task given by its full name: the
/// trimmed full name split after its last backslash, or the root folder `\`
/// and the whole trimmed name when it holds none.
pub open spec fn task_path_and_name(full: Seq<char>) -> (Seq<char>, Seq<char>) {
    let t = trim(full);
    match last_backslash(t) {
        Some(k) => (t.take(k + 1), t.skip(k + 1)),
        None => ("\\"@, t),
    }
}

/// The folder always ends with a backslash and the name holds none; the two
/// together give back the trimmed full name when it names a folder.
pub proof fn law_split_task_path_name(full: Seq<char>)
    ensures
        ({
            let (path, name) = task_path_and_name(full);
            &&& path.len() > 0
            &&& path.last() == '\\'
            &&& !name.contains('\\')
            &&& trim(full).contains('\\') ==> path + name == trim(full)
            &&& !trim(full).contains('\\') ==> path == "\\"@ && name == trim(full)
        }),
{
    let t = trim(full);
    lemma_last_backslash(t);
    reveal_strlit("\\");
    match last_backslash(t) {
        Some(k) => {
            assert(t.take(k + 1).last() == t[k]);
            assert(t.take(k + 1) + t.skip(k + 1) == t);
            let rest = t.skip(k + 1);
            assert forall|j: int| 0 <= j < rest.len() implies #[trigger] rest[j] != '\\' by {
                assert(rest[j] == t[k + 1 + j]);
            }
        },
        None => {},
    }
}

/// Splits a task's full name into its folder and its name.
pub fn split_task_path_name(full: &str) -> (r: (String, String))
    ensures
        (r.0@, r.1@) == task_path_and_name(full@),
{
    let chars = to_chars(full);
    let t = trim_chars(chars.as_slice());
    let mut k: usize = t.len();
    assert(t@.take(t@.len() as int) == t@);
    while k > 0 && t[k - 1] != '\\'
        invariant
            k <= t@.len(),
            last_backslash(t@) == last_backslash(t@.take(k as int)),
        decreases k,
    {
        assert(t@.take(k as int).drop_last() == t@.take(k - 1));
        k = k - 1;
    }
    assert(t@.take(t@.len() as int) == t@);
    if k == 0 {
        assert(t@.take(0).len() == 0);
        ("\\".to_owned(), from_chars(t.as_slice()))
    } else {
        assert(t@.take(k as int).last() == '\\');
        let path = copy_range(t.as_slice(), 0, k);
        let name = copy_range(t.as_slice(), k, t.len());
        assert(path@ == t@.take(k as int));
        assert(name@ == t@.skip(k as int));
        (from_chars(path.as_slice()), from_chars(name.as_slice()))
    }
}


/// The task settings for a task that runs forever: on battery, without a
/// time limit, one instance at a time.
pub const SETTINGS_RUN_FOREVER: &'static str = "$settings = New-ScheduledTaskSettingsSet -AllowStartIfOnBatteries -DontStopIfGoingOnBatteries -ExecutionTimeLimit ([TimeSpan]::Zero) -MultipleInstances IgnoreNew -Compatibility Win8";

/// The task settings for a task that runs briefly: on battery.
pub const SETTINGS_BRIEF: &'static str = "$settings = New-ScheduledTaskSettingsSet -AllowStartIfOnBatteries -DontStopIfGoingOnBatteries -Compatibility Win8";

/// The settings line of a task's script.
pub open spec fn settings_block(run_forever: bool) -> Seq<char> {
    if run_forever {
        SETTINGS_RUN_FOREVER@
    } else {
        SETTINGS_BRIEF@
    }
}

fn settings_block_exec(run_forever: bool) -> (r: &'static str)
    ensures
        r@ == settings_block(run_forever),
{
    if run_forever {
        SETTINGS_RUN_FOREVER
    } else {
        SETTINGS_BRIEF
    }
}

/// The words of `powershell.exe -NoProfile -ExecutionPolicy Bypass -Command
/// <script>`.
pub open spec fn powershell_words(script: Seq<char>) -> (Seq<char>, Seq<Seq<char>>) {
    (
        "powershell.exe"@,
        seq!["-NoProfile"@, "-ExecutionPolicy"@, "Bypass"@, "-Command"@, script],
    )
}

/// The command that runs `script` in PowerShell, without a profile and with
/// script execution allowed.
pub fn run_powershell_dynamic(script: &str) -> (c: CommandLine)
    ensures
        command_words(&c) == powershell_words(script@),
        c.dynamic,
{
    let args = vec![
        "-NoProfile".to_owned(),
        "-ExecutionPolicy".to_owned(),
        "Bypass".to_owned(),
        "-Command".to_owned(),
        script.to_owned(),
    ];
    let c = CommandLine { program: "powershell.exe".to_owned(), args, dynamic: true };
    assert(string_views(c.args@) == powershell_words(script@).1);
    c
}

/// The script that applies the task settings to an existing task.
pub open spec fn update_settings_script(full_name: Seq<char>, run_forever: bool) -> Seq<char> {
    let (path, name) = task_path_and_name(full_name);
    "$ErrorActionPreference = 'Stop'; Import-Module ScheduledTasks; "@ + settings_block(run_forever)
        + "; Set-ScheduledTask -TaskName '"@ + ps_quoted(name) + "' -TaskPath '"@ + ps_quoted(path)
        + "' -Settings $settings | Out-Null"@
}

/// The command that applies the task settings to the task `full_name`.
pub fn update_task_power_settings(full_name: &str, run_forever: bool) -> (c: CommandLine)
    ensures
        command_words(&c) == powershell_words(update_settings_script(full_name@, run_forever)),
        c.dynamic,
{
    let (task_path, task_name) = split_task_path_name(full_name);
    let mut script = String::new();
    script.append("$ErrorActionPreference = 'Stop'; Import-Module ScheduledTasks; ");
    script.append(settings_block_exec(run_forever));
    script.append("; Set-ScheduledTask -TaskName '");
    script.append(ps_quote(task_name.as_str()).as_str());
    script.append("' -TaskPath '");
    script.append(ps_quote(task_path.as_str()).as_str());
    script.append("' -Settings $settings | Out-Null");
    run_powershell_dynamic(script.as_str())
}

/// The words of `schtasks /Run /TN <full name>`.
pub open spec fn run_task_words(full_name: Seq<char>) -> (Seq<char>, Seq<Seq<char>>) {
    ("schtasks"@, seq!["/Run"@, "/TN"@, full_name])
}

/// The command that starts the task `full_name` at once.
pub fn run_task_now(full_name: &str) -> (c: CommandLine)
    ensures
        command_words(&c) == run_task_words(full_name@),
        !c.dynamic,
{
    let args = vec!["/Run".to_owned(), "/TN".to_owned(), full_name.to_owned()];
    let c = CommandLine { program: "schtasks".to_owned(), args, dynamic: false };
    assert(string_views(c.args@) == run_task_words(full_name@).1);
    c
}

/// The script that removes a task.
pub open spec fn unregister_script(full_name: Seq<char>) -> Seq<char> {
    let (path, name) = task_path_and_name(full_name);
    "$ErrorActionPreference = 'Stop'; Unregister-ScheduledTask -TaskName '"@ + ps_quoted(name)
        + "' -TaskPath '"@ + ps_quoted(path) + "' -Confirm:$false"@
}

/// The command that removes the task `full_name`.
pub fn unregister_task_with_powershell(full_name: &str) -> (c: CommandLine)
    ensures
        command_words(&c) == powershell_words(unregister_script(full_name@)),
        c.dynamic,
{
    let (task_path, task_name) = split_task_path_name(full_name);
    let mut script = String::new();
    script.append("$ErrorActionPreference = 'Stop'; Unregister-ScheduledTask -TaskName '");
    script.append(ps_quote(task_name.as_str()).as_str());
    script.append("' -TaskPath '");
    script.append(ps_quote(task_path.as_str()).as_str());
    script.append("' -Confirm:$false");
    run_powershell_dynamic(script.as_str())
}

/// The script that fails unless a task exists.
pub open spec fn verify_script(full_name: Seq<char>) -> Seq<char> {
    let (path, name) = task_path_and_name(full_name);
    "$ErrorActionPreference = 'Stop'; Get-ScheduledTask -TaskName '"@ + ps_quoted(name)
        + "' -TaskPath '"@ + ps_quoted(path) + "' | Out-Null"@
}

/// The command that fails unless the task `full_name` exists.
pub fn verify_task_exists(full_name: &str) -> (c: CommandLine)
    ensures
        command_words(&c) == powershell_words(verify_script(full_name@)),
        c.dynamic,
{
    let (task_path, task_name) = split_task_path_name(full_name);
    let mut script = String::new();
    script.append("$ErrorActionPreference = 'Stop'; Get-ScheduledTask -TaskName '");
    script.append(ps_quote(task_name.as_str()).as_str());
    script.append("' -TaskPath '");
    script.append(ps_quote(task_path.as_str()).as_str());
    script.append("' | Out-Null");
    run_powershell_dynamic(script.as_str())
}

/// The command line that a task started by an event runs.
pub open spec fn event_task_action(script_path: Seq<char>) -> Seq<char> {
    "powershell.exe -NoProfile -ExecutionPolicy Bypass -File \""@ + script_path + "\""@
}

/// The words of the `schtasks /Create` command for a task started by an
/// event of the System log, run as SYSTEM with the highest privileges.
pub open spec fn event_task_words(full_name: Seq<char>, subscription: Seq<char>, script_path: Seq<
    char,
>) -> (Seq<char>, Seq<Seq<char>>) {
    (
        "schtasks"@,
        seq![
            "/Create"@,
            "/F"@,
            "/TN"@,
            full_name,
            "/SC"@,
            "ONEVENT"@,
            "/EC"@,
            "System"@,
            "/MO"@,
            subscription,
            "/TR"@,
            event_task_action(script_path),
            "/RL"@,
            "HIGHEST"@,
            "/RU"@,
            "SYSTEM"@,
        ],
    )
}

/// The commands that register a task started by an event, in order: create
/// it, then apply the brief task settings. A failure stops the sequence.
pub fn register_event_task_with_schtasks(full_name: &str, subscription: &str, script_path: &str) -> (r:
    Vec<CommandLine>)
    ensures
        r@.len() == 2,
        command_words(&r@[0]) == event_task_words(full_name@, subscription@, script_path@),
        r@[0].dynamic,
        command_words(&r@[1]) == powershell_words(update_settings_script(full_name@, false)),
        r@[1].dynamic,
{
    let mut action = String::new();
    action.append("powershell.exe -NoProfile -ExecutionPolicy Bypass -File \"");
    action.append(script_path);
    action.append("\"");
    let args = vec![
        "/Create".to_owned(),
        "/F".to_owned(),
        "/TN".to_owned(),
        full_name.to_owned(),
        "/SC".to_owned(),
        "ONEVENT".to_owned(),
        "/EC".to_owned(),
        "System".to_owned(),
        "/MO".to_owned(),
        subscription.to_owned(),
        "/TR".to_owned(),
        action,
        "/RL".to_owned(),
        "HIGHEST".to_owned(),
        "/RU".to_owned(),
        "SYSTEM".to_owned(),
    ];
    let create = CommandLine { program: "schtasks".to_owned(), args, dynamic: true };
    assert(string_views(create.args@) == event_task_words(full_name@, subscription@, script_path@).1);
    let update = update_task_power_settings(full_name, false);
    vec![create, update]
}

/// `s` without its trailing backslashes.
pub open spec fn trim_trailing_backslashes(s: Seq<char>) -> Seq<char>
    decreases s.len(),
{
    if s.len() > 0 && s.last() == '\\' {
        trim_trailing_backslashes(s.drop_last())
    } else {
        s
    }
}

/// The line of a logon task's script that creates its folder, empty for the
/// root folder.
pub open spec fn folder_block(task_path: Seq<char>) -> Seq<char> {
    let folder = trim_trailing_backslashes(task_path);
    if folder.len() == 0 || folder == "\\"@ {
        Seq::empty()
    } else {
        "try { New-ScheduledTaskFolder -Path '"@ + ps_quoted(folder)
            + "' -ErrorAction Stop | Out-Null } catch { }"@
    }
}

pub const LOGON_SCRIPT_0: &'static str = "$ErrorActionPreference = \"Stop\"\n$taskPath = '";
pub const LOGON_SCRIPT_1: &'static str = "'\n$taskName = '";
pub const LOGON_SCRIPT_2: &'static str = "'\n$scriptPath = '";
pub const LOGON_SCRIPT_3: &'static str = "'\n";
pub const LOGON_SCRIPT_4: &'static str = "\n$action = New-ScheduledTaskAction -Execute 'powershell.exe' -Argument \"-NoProfile -ExecutionPolicy Bypass -File `\"$scriptPath`\"\"\n$trigger = New-ScheduledTaskTrigger -AtLogOn\n";
pub const LOGON_SCRIPT_5: &'static str = "\nfunction Register-Task($principal) {\n  Register-ScheduledTask -TaskName $taskName -TaskPath $taskPath -Action $action -Trigger $trigger -Settings $settings -Principal $principal -Force | Out-Null\n}\ntry {\n  $principal = New-ScheduledTaskPrincipal -UserId 'SYSTEM' -LogonType ServiceAccount -RunLevel Highest\n  Register-Task $principal\n} catch {\n  $principal = New-ScheduledTaskPrincipal -UserId $env:USERNAME -LogonType InteractiveToken -RunLevel Highest\n  Register-Task $principal\n}\n";

/// The script that registers a task run at logon: as SYSTEM when allowed,
/// else as the current user, with the highest privileges.
pub open spec fn logon_task_script(full_name: Seq<char>, script_path: Seq<char>, run_forever: bool) -> Seq<
    char,
> {
    let (path, name) = task_path_and_name(full_name);
    LOGON_SCRIPT_0@ + ps_quoted(path) + LOGON_SCRIPT_1@ + ps_quoted(name) + LOGON_SCRIPT_2@
        + ps_quoted(script_path) + LOGON_SCRIPT_3@ + folder_block(path) + LOGON_SCRIPT_4@
        + settings_block(run_forever) + LOGON_SCRIPT_5@
}

fn folder_block_exec(task_path: &str) -> (r: String)
    ensures
        r@ == folder_block(task_path@),
{
    let chars = to_chars(task_path);
    let mut k: usize = chars.len();
    assert(chars@.take(chars@.len() as int) == chars@);
    while k > 0 && chars[k - 1] == '\\'
        invariant
            k <= chars@.len(),
            trim_trailing_backslashes(chars@) == trim_trailing_backslashes(chars@.take(k as int)),
        decreases k,
    {
        assert(chars@.take(k as int).drop_last() == chars@.take(k - 1));
        k = k - 1;
    }
    let folder = copy_range(chars.as_slice(), 0, k);
    assert(folder@ == chars@.take(k as int));
    let root = to_chars("\\");
    if k == 0 || (folder.len() == root.len() && folder[0] == root[0]) {
        proof {
            reveal_strlit("\\");
            if k != 0 {
                assert(folder@ =~= root@);
            }
        }
        String::new()
    } else {
        proof {
            reveal_strlit("\\");
            assert(folder@ != "\\"@);
        }
        let mut r = String::new();
        r.append("try { New-ScheduledTaskFolder -Path '");
        let folder_text = from_chars(folder.as_slice());
        r.append(ps_quote(folder_text.as_str()).as_str());
        r.append("' -ErrorAction Stop | Out-Null } catch { }");
        r
    }
}

/// The commands that register a task run at logon, in order: register it,
/// then apply its task settings. A failure stops the sequence.
pub fn register_logon_task_with_powershell(full_name: &str, script_path: &str, run_forever: bool) -> (r:
    Vec<CommandLine>)
    ensures
        r@.len() == 2,
        command_words(&r@[0]) == powershell_words(
            logon_task_script(full_name@, script_path@, run_forever),
        ),
        r@[0].dynamic,
        command_words(&r@[1]) == powershell_words(update_settings_script(full_name@, run_forever)),
        r@[1].dynamic,
{
    let (task_path, task_name) = split_task_path_name(full_name);
    let mut script = String::new();
    script.append(LOGON_SCRIPT_0);
    script.append(ps_quote(task_path.as_str()).as_str());
    script.append(LOGON_SCRIPT_1);
    script.append(ps_quote(task_name.as_str()).as_str());
    script.append(LOGON_SCRIPT_2);
    script.append(ps_quote(script_path).as_str());
    script.append(LOGON_SCRIPT_3);
    script.append(folder_block_exec(task_path.as_str()).as_str());
    script.append(LOGON_SCRIPT_4);
    script.append(settings_block_exec(run_forever));
    script.append(LOGON_SCRIPT_5);
    let register = run_powershell_dynamic(script.as_str());
    let update = update_task_power_settings(full_name, run_forever);
    vec![register, update]
}

/// What starts a scheduled task.
pub enum TaskTrigger {
    /// A user logs on.
    Logon,
    /// An event of the System log matches the XPath `subscription`.
    Event { subscription: String },
}

/// The commands that register the task `full_name` for `trigger`, in order.
/// A task started by an event always gets the brief task settings.
pub fn register_task_with_powershell(
    full_name: &str,
    trigger: &TaskTrigger,
    script_path: &str,
    run_forever: bool,
) -> (r: Vec<CommandLine>)
    ensures
        r@.len() == 2,
        match trigger {
            TaskTrigger::Event { subscription } => {
                &&& command_words(&r@[0]) == event_task_words(
                    full_name@,
                    subscription@,
                    script_path@,
                )
                &&& command_words(&r@[1]) == powershell_words(
                    update_settings_script(full_name@, false),
                )
            },
            TaskTrigger::Logon => {
                &&& command_words(&r@[0]) == powershell_words(
                    logon_task_script(full_name@, script_path@, run_forever),
                )
                &&& command_words(&r@[1]) == powershell_words(
                    update_settings_script(full_name@, run_forever),
                )
            },
        },
        r@[0].dynamic,
        r@[1].dynamic,
{
    match trigger {
        TaskTrigger::Event { subscription } => register_event_task_with_schtasks(
            full_name,
            subscription.as_str(),
            script_path,
        ),
        TaskTrigger::Logon => register_logon_task_with_powershell(full_name, script_path, run_forever),
    }
}

/// The script that asks for the program to be started again with
/// administrator rights.
pub open spec fn relaunch_script(exe_path: Seq<char>) -> Seq<char> {
    "Start-Process -FilePath '"@ + ps_quoted(exe_path) + "' -Verb RunAs"@
}

/// The words of the PowerShell command that starts the program at
/// `exe_path` again with administrator rights.
pub open spec fn relaunch_words(exe_path: Seq<char>) -> (Seq<char>, Seq<Seq<char>>) {
    ("powershell"@, seq!["-NoProfile"@, "-Command"@, relaunch_script(exe_path)])
}

/// The command that starts the program at `exe_path` again with
/// administrator rights.
pub fn relaunch_command(exe_path: &str) -> (c: CommandLine)
    ensures
        command_words(&c) == relaunch_words(exe_path@),
        !c.dynamic,
{
    let mut script = String::new();
    script.append("Start-Process -FilePath '");
    script.append(ps_quote(exe_path).as_str());
    script.append("' -Verb RunAs");
    let args = vec!["-NoProfile".to_owned(), "-Command".to_owned(), script];
    let c = CommandLine { program: "powershell".to_owned(), args, dynamic: false };
    assert(string_views(c.args@) == relaunch_words(exe_path@).1);
    c
}

/// The message for a relaunch that did not start.
pub open spec fn relaunch_failure_message(code: Option<i32>) -> Seq<char> {
    "\u{542f}\u{52a8}\u{63d0}\u{6743}\u{5931}\u{8d25}\u{ff0c}\u{9000}\u{51fa}\u{7801}: "@
        + crate::command::exit_code_debug(code)
}

/// The message for a relaunch that exited with `code`.
pub fn relaunch_failure(code: Option<i32>) -> (m: String)
    ensures
        m@ == relaunch_failure_message(code),
{
    let mut m = String::new();
    m.append("\u{542f}\u{52a8}\u{63d0}\u{6743}\u{5931}\u{8d25}\u{ff0c}\u{9000}\u{51fa}\u{7801}: ");
    crate::command::push_exit_code_debug(&mut m, code);
    m
}

} // verus!
