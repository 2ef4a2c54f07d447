use powerplan::command::CommandLine;
use powerplan::script::{
    auto_apply_task_names, auto_apply_task_specs, build_auto_apply_script, task_item_result,
    watchdog_start_label, AUTO_APPLY_TASK_WATCHDOG,
};
use powerplan::tasks::{
    ps_quote, register_event_task_with_schtasks, register_logon_task_with_powershell,
    register_task_with_powershell, relaunch_command, relaunch_failure, run_powershell_dynamic,
    run_task_now, split_task_path_name, unregister_task_with_powershell,
    update_task_power_settings, verify_task_exists, TaskTrigger,
};

fn words(c: &CommandLine) -> (String, Vec<String>, bool) {
    (c.program.clone(), c.args.clone(), c.dynamic)
}

fn powershell(script: &str) -> (String, Vec<String>, bool) {
    (
        "powershell.exe".to_string(),
        vec![
            "-NoProfile".to_string(),
            "-ExecutionPolicy".to_string(),
            "Bypass".to_string(),
            "-Command".to_string(),
            script.to_string(),
        ],
        true,
    )
}

const FOREVER: &str = "$settings = New-ScheduledTaskSettingsSet -AllowStartIfOnBatteries -DontStopIfGoingOnBatteries -ExecutionTimeLimit ([TimeSpan]::Zero) -MultipleInstances IgnoreNew -Compatibility Win8";
const BRIEF: &str = "$settings = New-ScheduledTaskSettingsSet -AllowStartIfOnBatteries -DontStopIfGoingOnBatteries -Compatibility Win8";

#[test]
fn quoting_doubles_single_quotes() {
    assert_eq!(ps_quote("C:\\Users\\O'Brien"), "C:\\Users\\O''Brien");
    assert_eq!(ps_quote(""), "");
    assert_eq!(ps_quote("''"), "''''");
    assert_eq!(ps_quote("plain"), "plain");
}

#[test]
fn quoting_roundtrips_through_powershell_reading() {
    for s in ["a'b", "'", "x''y'", "no quotes", ""] {
        let quoted = ps_quote(s);
        assert_eq!(quoted.replace("''", "'"), s);
    }
}

#[test]
fn task_names_split_into_folder_and_name() {
    assert_eq!(
        split_task_path_name("\\ThinkPadX1PowerOptimize\\ApplyOnLogon"),
        ("\\ThinkPadX1PowerOptimize\\".to_string(), "ApplyOnLogon".to_string())
    );
    assert_eq!(split_task_path_name("  Plain  "), ("\\".to_string(), "Plain".to_string()));
    assert_eq!(split_task_path_name("\\Top"), ("\\".to_string(), "Top".to_string()));
    assert_eq!(split_task_path_name("a\\b\\"), ("a\\b\\".to_string(), "".to_string()));
    assert_eq!(split_task_path_name(""), ("\\".to_string(), "".to_string()));
}

#[test]
fn split_parts_rebuild_the_trimmed_name() {
    for full in ["\\A\\B\\C", " x\\y ", "\\\\double"] {
        let (path, name) = split_task_path_name(full);
        assert!(path.ends_with('\\'));
        assert!(!name.contains('\\'));
        assert_eq!(format!("{}{}", path, name), full.trim());
    }
}

#[test]
fn powershell_runner_command() {
    assert_eq!(words(&run_powershell_dynamic("Get-Date")), powershell("Get-Date"));
}

#[test]
fn update_settings_commands() {
    let expected = format!(
        "$ErrorActionPreference = 'Stop'; Import-Module ScheduledTasks; {}; Set-ScheduledTask -TaskName '{}' -TaskPath '{}' -Settings $settings | Out-Null",
        FOREVER, "Apply''Watch", "\\Folder\\"
    );
    assert_eq!(
        words(&update_task_power_settings("\\Folder\\Apply'Watch", true)),
        powershell(&expected)
    );
    let brief = format!(
        "$ErrorActionPreference = 'Stop'; Import-Module ScheduledTasks; {}; Set-ScheduledTask -TaskName 'T' -TaskPath '\\' -Settings $settings | Out-Null",
        BRIEF
    );
    assert_eq!(words(&update_task_power_settings("T", false)), powershell(&brief));
}

#[test]
fn start_check_and_remove_commands() {
    assert_eq!(
        words(&run_task_now("\\F\\T")),
        (
            "schtasks".to_string(),
            vec!["/Run".to_string(), "/TN".to_string(), "\\F\\T".to_string()],
            false
        )
    );
    assert_eq!(
        words(&unregister_task_with_powershell("\\F\\T")),
        powershell("$ErrorActionPreference = 'Stop'; Unregister-ScheduledTask -TaskName 'T' -TaskPath '\\F\\' -Confirm:$false")
    );
    assert_eq!(
        words(&verify_task_exists("\\F\\T")),
        powershell("$ErrorActionPreference = 'Stop'; Get-ScheduledTask -TaskName 'T' -TaskPath '\\F\\' | Out-Null")
    );
}

#[test]
fn event_task_registration() {
    let cmds = register_event_task_with_schtasks("\\F\\Resume", "*[System[(EventID=1)]]", "C:\\p\\a.ps1");
    assert_eq!(cmds.len(), 2);
    let expected: Vec<String> = [
        "/Create", "/F", "/TN", "\\F\\Resume", "/SC", "ONEVENT", "/EC", "System", "/MO",
        "*[System[(EventID=1)]]", "/TR",
        "powershell.exe -NoProfile -ExecutionPolicy Bypass -File \"C:\\p\\a.ps1\"", "/RL", "HIGHEST",
        "/RU", "SYSTEM",
    ]
    .iter()
    .map(|s| s.to_string())
    .collect();
    assert_eq!(words(&cmds[0]), ("schtasks".to_string(), expected, true));
    assert_eq!(words(&cmds[1]), words(&update_task_power_settings("\\F\\Resume", false)));
}

fn logon_script(task_path: &str, task_name: &str, script_path: &str, folder_block: &str, settings_block: &str) -> String {
    format!(
r#"$ErrorActionPreference = "Stop"
$taskPath = '{task_path}'
$taskName = '{task_name}'
$scriptPath = '{script_path}'
{folder_block}
$action = New-ScheduledTaskAction -Execute 'powershell.exe' -Argument "-NoProfile -ExecutionPolicy Bypass -File `"$scriptPath`""
$trigger = New-ScheduledTaskTrigger -AtLogOn
{settings_block}
function Register-Task($principal) {{
  Register-ScheduledTask -TaskName $taskName -TaskPath $taskPath -Action $action -Trigger $trigger -Settings $settings -Principal $principal -Force | Out-Null
}}
try {{
  $principal = New-ScheduledTaskPrincipal -UserId 'SYSTEM' -LogonType ServiceAccount -RunLevel Highest
  Register-Task $principal
}} catch {{
  $principal = New-ScheduledTaskPrincipal -UserId $env:USERNAME -LogonType InteractiveToken -RunLevel Highest
  Register-Task $principal
}}
"#,
        task_path = task_path,
        task_name = task_name,
        script_path = script_path,
        folder_block = folder_block,
        settings_block = settings_block,
    )
}

#[test]
fn logon_task_registration() {
    let cmds = register_logon_task_with_powershell("\\ThinkPadX1PowerOptimize\\ApplyWatchdog", "C:\\Users\\O'B\\w.ps1", true);
    assert_eq!(cmds.len(), 2);
    let script = logon_script(
        "\\ThinkPadX1PowerOptimize\\",
        "ApplyWatchdog",
        "C:\\Users\\O''B\\w.ps1",
        "try { New-ScheduledTaskFolder -Path '\\ThinkPadX1PowerOptimize' -ErrorAction Stop | Out-Null } catch { }",
        FOREVER,
    );
    assert_eq!(words(&cmds[0]), powershell(&script));
    assert_eq!(words(&cmds[1]), words(&update_task_power_settings("\\ThinkPadX1PowerOptimize\\ApplyWatchdog", true)));
    let root = register_logon_task_with_powershell("Top", "s.ps1", false);
    assert_eq!(words(&root[0]), powershell(&logon_script("\\", "Top", "s.ps1", "", BRIEF)));
    let deep = register_logon_task_with_powershell("\\A'B\\\\T", "s.ps1", false);
    let deep_script = logon_script(
        "\\A''B\\\\",
        "T",
        "s.ps1",
        "try { New-ScheduledTaskFolder -Path '\\A''B' -ErrorAction Stop | Out-Null } catch { }",
        BRIEF,
    );
    assert_eq!(words(&deep[0]), powershell(&deep_script));
}

#[test]
fn registration_follows_the_trigger() {
    let by_event = register_task_with_powershell(
        "\\F\\T",
        &TaskTrigger::Event { subscription: "q".to_string() },
        "s.ps1",
        true,
    );
    let direct = register_event_task_with_schtasks("\\F\\T", "q", "s.ps1");
    assert_eq!(words(&by_event[0]), words(&direct[0]));
    assert_eq!(words(&by_event[1]), words(&direct[1]));
    let by_logon = register_task_with_powershell("\\F\\T", &TaskTrigger::Logon, "s.ps1", true);
    let direct = register_logon_task_with_powershell("\\F\\T", "s.ps1", true);
    assert_eq!(words(&by_logon[0]), words(&direct[0]));
    assert_eq!(words(&by_logon[1]), words(&direct[1]));
}

fn expected_script(loop_mode: bool, base_dir_literal: &str) -> String {
    let loop_block = if loop_mode {
        "while ($true) {\n  Invoke-Apply\n  Start-Sleep -Seconds 2\n}\n".to_string()
    } else {
        "Invoke-Apply\n".to_string()
    };
    let subgroup_pattern = format!(r"(?i)(Subgroup GUID|{}):\s*([0-9a-f-]{{36}})", "\u{5b50}\u{7ec4} GUID");
    let setting_pattern = format!(r"(?i)(Power Setting GUID|{}):\s*([0-9a-f-]{{36}})", "\u{7535}\u{6e90}\u{8bbe}\u{7f6e} GUID");
    let dc_pattern = format!(
        r"(?i)(Current DC Power Setting Index|{}):\s*0x([0-9a-f]+)",
        "\u{5f53}\u{524d}\u{76f4}\u{6d41}\u{7535}\u{6e90}\u{8bbe}\u{7f6e}\u{7d22}\u{5f15}"
    );
    format!(
r#"$ErrorActionPreference = "SilentlyContinue"
$ProgressPreference = "SilentlyContinue"

$subProcessor = "{sub_processor}"
$baseDir = '{base_dir}'
$baselinePath = Join-Path $baseDir 'baseline.json'

function Invoke-Apply {{
  $scheme = $null
  $schemeText = powercfg /getactivescheme
  if ($schemeText -match "(?i)([0-9a-f]{{8}}-[0-9a-f]{{4}}-[0-9a-f]{{4}}-[0-9a-f]{{4}}-[0-9a-f]{{12}})") {{
    $scheme = $Matches[1]
  }}

  $baseline = $null
  if (Test-Path $baselinePath) {{
    try {{
      $baseline = Get-Content $baselinePath -Raw | ConvertFrom-Json
    }} catch {{
      $baseline = $null
    }}
  }}
  if ($baseline -and $baseline.scheme_guid) {{
    $scheme = $baseline.scheme_guid
  }}
  if (-not $scheme) {{
    return
  }}

  $updates = New-Object System.Collections.Generic.List[Object]

  if ($baseline -and $baseline.settings) {{
    foreach ($item in $baseline.settings) {{
      $subgroup = $item.subgroup_guid
      $setting = $item.setting_guid
      if (-not $subgroup -or -not $setting) {{ continue }}
      if ($subgroup -ine $subProcessor) {{ continue }}
      $value = [Convert]::ToInt32($item.value)
      $updates.Add([pscustomobject]@{{ Subgroup=$subgroup; Setting=$setting; Value=$value; ApplyDc=$true }}) | Out-Null
    }}
  }} else {{
    $query = powercfg /query $scheme $subProcessor
    $subgroup = $null
    $setting = $null

    foreach ($line in ($query -split "`r?`n")) {{
      if ($line -match "{subgroup_pattern}") {{
        $subgroup = $Matches[2]
        $setting = $null
        continue
      }}
      if ($line -match "{setting_pattern}") {{
        $setting = $Matches[2]
        continue
      }}
      if ($line -match "{dc_pattern}") {{
        if (-not $subgroup -or -not $setting) {{ continue }}
        if ($subgroup -ine $subProcessor) {{ continue }}
        $dc = [Convert]::ToInt32($Matches[2], 16)
        $updates.Add([pscustomobject]@{{ Subgroup=$subgroup; Setting=$setting; Value=$dc; ApplyDc=$false }}) | Out-Null
      }}
    }}
  }}

  foreach ($u in $updates) {{
    powercfg /setacvalueindex $scheme $u.Subgroup $u.Setting $u.Value | Out-Null
    if ($u.ApplyDc) {{
      powercfg /setdcvalueindex $scheme $u.Subgroup $u.Setting $u.Value | Out-Null
    }}
  }}
  powercfg /setactive $scheme | Out-Null
}}

{loop_block}
"#,
        sub_processor = "54533251-82be-4824-96c1-47b60b740d00",
        subgroup_pattern = subgroup_pattern,
        setting_pattern = setting_pattern,
        dc_pattern = dc_pattern,
        base_dir = base_dir_literal,
        loop_block = loop_block,
    )
}

#[test]
fn auto_apply_scripts() {
    assert_eq!(
        build_auto_apply_script(false, "C:\\Users\\a\\.Thinkpad_Power"),
        expected_script(false, "C:\\Users\\a\\.Thinkpad_Power")
    );
    assert_eq!(
        build_auto_apply_script(true, "C:\\Users\\O'Neil\\.Thinkpad_Power"),
        expected_script(true, "C:\\Users\\O''Neil\\.Thinkpad_Power")
    );
}

#[test]
fn the_four_auto_apply_tasks() {
    let specs = auto_apply_task_specs("once.ps1", "watch.ps1");
    let got: Vec<(String, Option<String>, String, bool)> = specs
        .into_iter()
        .map(|s| {
            let sub = match s.trigger {
                TaskTrigger::Logon => None,
                TaskTrigger::Event { subscription } => Some(subscription),
            };
            (s.name, sub, s.script_path, s.run_forever)
        })
        .collect();
    assert_eq!(
        got,
        vec![
            ("\\ThinkPadX1PowerOptimize\\ApplyOnLogon".to_string(), None, "once.ps1".to_string(), false),
            (
                "\\ThinkPadX1PowerOptimize\\ApplyOnResume".to_string(),
                Some("*[System[Provider[@Name='Microsoft-Windows-Power-Troubleshooter'] and (EventID=1)]]".to_string()),
                "once.ps1".to_string(),
                false
            ),
            (
                "\\ThinkPadX1PowerOptimize\\ApplyOnPowerSource".to_string(),
                Some("*[System[Provider[@Name='Microsoft-Windows-Kernel-Power'] and (EventID=105)]]".to_string()),
                "once.ps1".to_string(),
                false
            ),
            ("\\ThinkPadX1PowerOptimize\\ApplyWatchdog".to_string(), None, "watch.ps1".to_string(), true),
        ]
    );
    assert_eq!(
        auto_apply_task_names(),
        vec![
            "\\ThinkPadX1PowerOptimize\\ApplyOnLogon".to_string(),
            "\\ThinkPadX1PowerOptimize\\ApplyOnResume".to_string(),
            "\\ThinkPadX1PowerOptimize\\ApplyOnPowerSource".to_string(),
            "\\ThinkPadX1PowerOptimize\\ApplyWatchdog".to_string(),
        ]
    );
}

#[test]
fn task_reports() {
    let ok = task_item_result("T", Ok(()));
    assert_eq!((ok.name.as_str(), ok.ok, ok.error), ("T", true, None));
    let bad = task_item_result("T", Err("boom".to_string()));
    assert_eq!((bad.name.as_str(), bad.ok, bad.error), ("T", false, Some("boom".to_string())));
    assert_eq!(watchdog_start_label(), format!("{} (start)", AUTO_APPLY_TASK_WATCHDOG));
}

#[test]
fn relaunching_as_administrator() {
    assert_eq!(
        words(&relaunch_command("C:\\Program Files\\O'App\\app.exe")),
        (
            "powershell".to_string(),
            vec![
                "-NoProfile".to_string(),
                "-Command".to_string(),
                "Start-Process -FilePath 'C:\\Program Files\\O''App\\app.exe' -Verb RunAs".to_string()
            ],
            false
        )
    );
    assert_eq!(relaunch_failure(Some(1)), "启动提权失败，退出码: Some(1)");
    assert_eq!(relaunch_failure(Some(-5)), "启动提权失败，退出码: Some(-5)");
    assert_eq!(relaunch_failure(None), "启动提权失败，退出码: None");
}
