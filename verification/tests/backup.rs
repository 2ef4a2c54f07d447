use powerplan::backup::{backup_dir_name, backup_file_name, backup_item, export_command, sanitize_windows_filename};
use powerplan::powercfg::PowerPlan;

fn plan() -> PowerPlan {
    PowerPlan { guid: "381b4222-f694-41f0-9685-ff5bb260df2e".to_string(), name: "Balanced".to_string(), is_active: true }
}

#[test]
fn file_names_are_made_safe() {
    assert_eq!(sanitize_windows_filename("a<b>c:d\"e/f\\g|h?i*j.pow"), "a_b_c_d_e_f_g_h_i_j.pow");
    assert_eq!(sanitize_windows_filename("平衡-1.pow"), "平衡-1.pow");
    let once = sanitize_windows_filename("x:y?z");
    assert_eq!(sanitize_windows_filename(&once), once);
}

#[test]
fn export_names_and_commands() {
    assert_eq!(backup_file_name(&plan()), "Balanced-381b4222-f694-41f0-9685-ff5bb260df2e.pow");
    assert_eq!(backup_dir_name(1725029869), "power-plans-backup-1725029869");
    let c = export_command("C:\\b\\x.pow", "g");
    assert_eq!((c.program.as_str(), c.args.clone(), c.dynamic), ("powercfg", vec!["/export".to_string(), "C:\\b\\x.pow".to_string(), "g".to_string()], false));
}

#[test]
fn export_reports() {
    let ok = backup_item(&plan(), "f.pow", Ok(String::new()));
    assert_eq!((ok.guid.as_str(), ok.name.as_str(), ok.file_path.as_str(), ok.ok, ok.error), (plan().guid.as_str(), "Balanced", "f.pow", true, None));
    let bad = backup_item(&plan(), "f.pow", Err("denied".to_string()));
    assert_eq!((bad.ok, bad.error), (false, Some("denied".to_string())));
}
