use powerplan::optimize::{alignment_commands, reset_messages, set_ac_value_command, OptimizeProgress};
use powerplan::powercfg::DcSetting;

fn setting() -> DcSetting {
    DcSetting {
        subgroup_guid: "54533251-82be-4824-96c1-47b60b740d00".to_string(),
        setting_guid: "893dee8e-2bef-41e0-89c6-b55d0929964c".to_string(),
        dc_value: 5,
    }
}

#[test]
fn set_ac_value_writes_the_dc_value() {
    let c = set_ac_value_command("381b4222-f694-41f0-9685-ff5bb260df2e", &setting());
    assert_eq!(c.program, "powercfg");
    assert_eq!(
        c.args,
        vec![
            "/setacvalueindex".to_string(),
            "381b4222-f694-41f0-9685-ff5bb260df2e".to_string(),
            "54533251-82be-4824-96c1-47b60b740d00".to_string(),
            "893dee8e-2bef-41e0-89c6-b55d0929964c".to_string(),
            "5".to_string()
        ]
    );
    assert!(!c.dynamic);
}

#[test]
fn progress_counts_and_messages() {
    let mut p = OptimizeProgress::new();
    p.record_baseline_failure("disk full");
    p.record_setting_outcome(&setting(), &Ok(String::new()));
    p.record_setting_outcome(&setting(), &Err("denied".to_string()));
    assert_eq!((p.updated, p.failed), (1, 1));
    assert_eq!(
        p.messages,
        vec![
            "保存基准失败: disk full".to_string(),
            "设置失败: subgroup=54533251-82be-4824-96c1-47b60b740d00 setting=893dee8e-2bef-41e0-89c6-b55d0929964c err=denied".to_string()
        ]
    );
}

#[test]
fn at_most_twenty_messages() {
    let mut p = OptimizeProgress::new();
    for _ in 0..30 {
        p.record_setting_outcome(&setting(), &Err("x".to_string()));
    }
    assert_eq!(p.failed, 30);
    assert_eq!(p.messages.len(), 20);
    p.record_baseline_failure("late");
    assert_eq!(p.messages.len(), 20);
}

#[test]
fn reset_reports_what_it_did() {
    assert_eq!(
        reset_messages(),
        vec![
            "已执行 powercfg /restoredefaultschemes".to_string(),
            "已尝试切换到平衡模式: 381b4222-f694-41f0-9685-ff5bb260df2e".to_string()
        ]
    );
}

#[test]
fn alignment_writes_each_setting_then_reactivates() {
    let mut other = setting();
    other.setting_guid = "bc5038f7-23e0-4960-96da-33abaf5935ec".to_string();
    other.dc_value = 100;
    let cs = alignment_commands("g", &vec![setting(), other]);
    let words: Vec<String> = cs.iter().map(|c| format!("{} {}", c.program, c.args.join(" "))).collect();
    assert_eq!(
        words,
        vec![
            "powercfg /setacvalueindex g 54533251-82be-4824-96c1-47b60b740d00 893dee8e-2bef-41e0-89c6-b55d0929964c 5".to_string(),
            "powercfg /setacvalueindex g 54533251-82be-4824-96c1-47b60b740d00 bc5038f7-23e0-4960-96da-33abaf5935ec 100".to_string(),
            "powercfg /setactive g".to_string(),
        ]
    );
    assert_eq!(alignment_commands("g", &Vec::new()).len(), 1);
}
