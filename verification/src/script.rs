//! The PowerShell script that re-applies the alignment after logon, resume
//! and power-source changes, and the scheduled tasks that run it.
use vstd::prelude::*;
use crate::text::string_views;
use crate::tasks::{ps_quoted, ps_quote, TaskTrigger};

verus! {

/// The folder under the user's profile that holds the scripts and the baseline.
pub const AUTO_APPLY_DIR_NAME: &'static str = ".Thinkpad_Power";

/// The script run once per trigger.
pub const AUTO_APPLY_SCRIPT_NAME: &'static str = "apply-ac-equals-dc.ps1";

/// The script run in a loop by the watchdog.
pub const AUTO_APPLY_WATCH_SCRIPT_NAME: &'static str = "apply-ac-equals-dc-watch.ps1";

/// The baseline file that the scripts read.
pub const AUTO_APPLY_BASELINE_NAME: &'static str = "baseline.json";

/// The task run at logon.
pub const AUTO_APPLY_TASK_LOGON: &'static str = "\\ThinkPadX1PowerOptimize\\ApplyOnLogon";

/// The task run on resume from sleep.
pub const AUTO_APPLY_TASK_RESUME: &'static str = "\\ThinkPadX1PowerOptimize\\ApplyOnResume";

/// The task run when the power source changes.
pub const AUTO_APPLY_TASK_POWERSRC: &'static str = "\\ThinkPadX1PowerOptimize\\ApplyOnPowerSource";

/// The task that keeps re-applying in the background.
pub const AUTO_APPLY_TASK_WATCHDOG: &'static str = "\\ThinkPadX1PowerOptimize\\ApplyWatchdog";

/// The event of a resume from sleep.
pub const RESUME_SUBSCRIPTION: &'static str = "*[System[Provider[@Name='Microsoft-Windows-Power-Troubleshooter'] and (EventID=1)]]";

/// The event of a change of power source.
pub const POWER_SOURCE_SUBSCRIPTION: &'static str = "*[System[Provider[@Name='Microsoft-Windows-Kernel-Power'] and (EventID=105)]]";

/// The script up to the quoted base folder.
pub const AUTO_APPLY_SCRIPT_HEAD: &'static str = "$ErrorActionPreference = \"SilentlyContinue\"\n$ProgressPreference = \"SilentlyContinue\"\n\n$subProcessor = \"54533251-82be-4824-96c1-47b60b740d00\"\n$baseDir = '";

/// The script from the quoted base folder to the closing block.
pub const AUTO_APPLY_SCRIPT_BODY: &'static str = "'\n$baselinePath = Join-Path $baseDir 'baseline.json'\n\nfunction Invoke-Apply {\n  $scheme = $null\n  $schemeText = powercfg /getactivescheme\n  if ($schemeText -match \"(?i)([0-9a-f]{8}-[0-9a-f]{4}-[0-9a-f]{4}-[0-9a-f]{4}-[0-9a-f]{12})\") {\n    $scheme = $Matches[1]\n  }\n\n  $baseline = $null\n  if (Test-Path $baselinePath) {\n    try {\n      $baseline = Get-Content $baselinePath -Raw | ConvertFrom-Json\n    } catch {\n      $baseline = $null\n    }\n  }\n  if ($baseline -and $baseline.scheme_guid) {\n    $scheme = $baseline.scheme_guid\n  }\n  if (-not $scheme) {\n    return\n  }\n\n  $updates = New-Object System.Collections.Generic.List[Object]\n\n  if ($baseline -and $baseline.settings) {\n    foreach ($item in $baseline.settings) {\n      $subgroup = $item.subgroup_guid\n      $setting = $item.setting_guid\n      if (-not $subgroup -or -not $setting) { continue }\n      if ($subgroup -ine $subProcessor) { continue }\n      $value = [Convert]::ToInt32($item.value)\n      $updates.Add([pscustomobject]@{ Subgroup=$subgroup; Setting=$setting; Value=$value; ApplyDc=$true }) | Out-Null\n    }\n  } else {\n    $query = powercfg /query $scheme $subProcessor\n    $subgroup = $null\n    $setting = $null\n\n    foreach ($line in ($query -split \"`r?`n\")) {\n      if ($line -match \"(?i)(Subgroup GUID|\u{5b50}\u{7ec4} GUID):\\s*([0-9a-f-]{36})\") {\n        $subgroup = $Matches[2]\n        $setting = $null\n        continue\n      }\n      if ($line -match \"(?i)(Power Setting GUID|\u{7535}\u{6e90}\u{8bbe}\u{7f6e} GUID):\\s*([0-9a-f-]{36})\") {\n        $setting = $Matches[2]\n        continue\n      }\n      if ($line -match \"(?i)(Current DC Power Setting Index|\u{5f53}\u{524d}\u{76f4}\u{6d41}\u{7535}\u{6e90}\u{8bbe}\u{7f6e}\u{7d22}\u{5f15}):\\s*0x([0-9a-f]+)\") {\n        if (-not $subgroup -or -not $setting) { continue }\n        if ($subgroup -ine $subProcessor) { continue }\n        $dc = [Convert]::ToInt32($Matches[2], 16)\n        $updates.Add([pscustomobject]@{ Subgroup=$subgroup; Setting=$setting; Value=$dc; ApplyDc=$false }) | Out-Null\n      }\n    }\n  }\n\n  foreach ($u in $updates) {\n    powercfg /setacvalueindex $scheme $u.Subgroup $u.Setting $u.Value | Out-Null\n    if ($u.ApplyDc) {\n      powercfg /setdcvalueindex $scheme $u.Subgroup $u.Setting $u.Value | Out-Null\n    }\n  }\n  powercfg /setactive $scheme | Out-Null\n}\n\n";

/// The closing block of the script run once.
pub const APPLY_ONCE_BLOCK: &'static str = "Invoke-Apply\n";

/// The closing block of the watchdog script: re-apply every two seconds.
pub const APPLY_LOOP_BLOCK: &'static str = "while ($true) {\n  Invoke-Apply\n  Start-Sleep -Seconds 2\n}\n";

/// The re-apply script for the folder `base_dir`, run once or in a loop.
/// It writes each processor setting's DC value as its AC value, taking the
/// values from the baseline file when there is one.
pub open spec fn auto_apply_script(loop_mode: bool, base_dir: Seq<char>) -> Seq<char> {
    AUTO_APPLY_SCRIPT_HEAD@ + ps_quoted(base_dir) + AUTO_APPLY_SCRIPT_BODY@ + (if loop_mode {
        APPLY_LOOP_BLOCK@
    } else {
        APPLY_ONCE_BLOCK@
    }) + "\n"@
}

/// Builds the re-apply script for the folder `base_dir`.
pub fn build_auto_apply_script(loop_mode: bool, base_dir: &str) -> (s: String)
    ensures
        s@ == auto_apply_script(loop_mode, base_dir@),
{
    let mut s = String::new();
    s.append(AUTO_APPLY_SCRIPT_HEAD);
    s.append(ps_quote(base_dir).as_str());
    s.append(AUTO_APPLY_SCRIPT_BODY);
    if loop_mode {
        s.append(APPLY_LOOP_BLOCK);
    } else {
        s.append(APPLY_ONCE_BLOCK);
    }
    s.append("\n");
    s
}

/// A scheduled task to install: its full name, what starts it, the script
/// it runs, and whether it runs forever.
pub struct TaskSpec {
    pub name: String,
    pub trigger: TaskTrigger,
    pub script_path: String,
    pub run_forever: bool,
}

/// A task spec by the views of its fields (the trigger by its subscription,
/// none for logon).
pub open spec fn task_spec_view(t: TaskSpec) -> (Seq<char>, Option<Seq<char>>, Seq<char>, bool) {
    (
        t.name@,
        match t.trigger {
            TaskTrigger::Logon => None,
            TaskTrigger::Event { subscription } => Some(subscription@),
        },
        t.script_path@,
        t.run_forever,
    )
}

/// The four tasks of the re-apply mechanism: at logon, on resume and on a
/// change of power source they run the script once; the watchdog starts at
/// logon and runs the looping script forever.
pub fn auto_apply_task_specs(script_path: &str, watch_script_path: &str) -> (specs: Vec<TaskSpec>)
    ensures
        specs@.len() == 4,
        task_spec_view(specs@[0]) == (AUTO_APPLY_TASK_LOGON@, None::<Seq<char>>, script_path@, false),
        task_spec_view(specs@[1]) == (AUTO_APPLY_TASK_RESUME@, Some(RESUME_SUBSCRIPTION@), script_path@, false),
        task_spec_view(specs@[2]) == (AUTO_APPLY_TASK_POWERSRC@, Some(POWER_SOURCE_SUBSCRIPTION@), script_path@, false),
        task_spec_view(specs@[3]) == (AUTO_APPLY_TASK_WATCHDOG@, None::<Seq<char>>, watch_script_path@, true),
{
    vec![
        TaskSpec {
            name: AUTO_APPLY_TASK_LOGON.to_owned(),
            trigger: TaskTrigger::Logon,
            script_path: script_path.to_owned(),
            run_forever: false,
        },
        TaskSpec {
            name: AUTO_APPLY_TASK_RESUME.to_owned(),
            trigger: TaskTrigger::Event { subscription: RESUME_SUBSCRIPTION.to_owned() },
            script_path: script_path.to_owned(),
            run_forever: false,
        },
        TaskSpec {
            name: AUTO_APPLY_TASK_POWERSRC.to_owned(),
            trigger: TaskTrigger::Event { subscription: POWER_SOURCE_SUBSCRIPTION.to_owned() },
            script_path: script_path.to_owned(),
            run_forever: false,
        },
        TaskSpec {
            name: AUTO_APPLY_TASK_WATCHDOG.to_owned(),
            trigger: TaskTrigger::Logon,
            script_path: watch_script_path.to_owned(),
            run_forever: true,
        },
    ]
}

/// The full names of the four tasks, in the order they are removed.
pub fn auto_apply_task_names() -> (names: Vec<String>)
    ensures
        string_views(names@) == seq![
            AUTO_APPLY_TASK_LOGON@,
            AUTO_APPLY_TASK_RESUME@,
            AUTO_APPLY_TASK_POWERSRC@,
            AUTO_APPLY_TASK_WATCHDOG@,
        ],
{
    let names = vec![
        AUTO_APPLY_TASK_LOGON.to_owned(),
        AUTO_APPLY_TASK_RESUME.to_owned(),
        AUTO_APPLY_TASK_POWERSRC.to_owned(),
        AUTO_APPLY_TASK_WATCHDOG.to_owned(),
    ];
    assert(string_views(names@) == seq![
        AUTO_APPLY_TASK_LOGON@,
        AUTO_APPLY_TASK_RESUME@,
        AUTO_APPLY_TASK_POWERSRC@,
        AUTO_APPLY_TASK_WATCHDOG@,
    ]);
    names
}

/// How installing, starting or removing one task went.
pub struct TaskItemResult {
    pub name: String,
    pub ok: bool,
    pub error: Option<String>,
}

/// The report for the task `name`: done, or failed with the error.
pub fn task_item_result(name: &str, outcome: Result<(), String>) -> (r: TaskItemResult)
    ensures
        r.name@ == name@,
        r.ok == outcome is Ok,
        match outcome {
            Ok(_) => r.error is None,
            Err(e) => r.error == Some(e),
        },
{
    match outcome {
        Ok(_) => TaskItemResult { name: name.to_owned(), ok: true, error: None },
        Err(e) => TaskItemResult { name: name.to_owned(), ok: false, error: Some(e) },
    }
}

/// The label of the report on starting the watchdog.
pub fn watchdog_start_label() -> (s: String)
    ensures
        s@ == AUTO_APPLY_TASK_WATCHDOG@ + " (start)"@,
{
    let mut s = String::new();
    s.append(AUTO_APPLY_TASK_WATCHDOG);
    s.append(" (start)");
    s
}

} // verus!
