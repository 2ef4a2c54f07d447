use powerplan::powercfg::{
    active_scheme_command, list_command, query_command, query_processor_command,
    restore_default_schemes_command, set_active_command,
};
use powerplan::powercfg::{
    baseline_file, check_processor_ac_dc_alignment, parse_ac_dc_settings_from_query,
    parse_active_scheme_guid, parse_dc_settings_from_query, parse_powercfg_list,
    split_aligned_settings, AcDcSetting, DcSetting, SUB_PROCESSOR_GUID, SUB_SLEEP_GUID,
};

const LIST_EN: &str = "\r\nExisting Power Schemes (* Active)\r\n-----------------------------------\r\nPower Scheme GUID: 381b4222-f694-41f0-9685-ff5bb260df2e  (Balanced) *\r\nPower Scheme GUID: 8c5e7fda-e8bf-4a96-9a85-a6e23a8c635c  (High performance)\r\nPower Scheme GUID: a1841308-3541-4fab-bc81-f71556f20b4a  ( Power saver )\r\nPower Scheme GUID: 11111111-2222-3333-4444-555555555555\r\n";

#[test]
fn lists_plans_with_names_and_active_mark() {
    let plans = parse_powercfg_list(LIST_EN);
    let got: Vec<(String, String, bool)> =
        plans.into_iter().map(|p| (p.guid, p.name, p.is_active)).collect();
    assert_eq!(
        got,
        vec![
            ("381b4222-f694-41f0-9685-ff5bb260df2e".to_string(), "Balanced".to_string(), true),
            ("8c5e7fda-e8bf-4a96-9a85-a6e23a8c635c".to_string(), "High performance".to_string(), false),
            ("a1841308-3541-4fab-bc81-f71556f20b4a".to_string(), "Power saver".to_string(), false),
            ("11111111-2222-3333-4444-555555555555".to_string(), "Unknown".to_string(), false),
        ]
    );
}

#[test]
fn empty_list_has_no_plans() {
    assert!(parse_powercfg_list("").is_empty());
    assert!(parse_powercfg_list("no plans here\n").is_empty());
}

#[test]
fn active_scheme_guid_or_message() {
    assert_eq!(
        parse_active_scheme_guid(
            "Power Scheme GUID: 381B4222-F694-41F0-9685-FF5BB260DF2E  (Balanced)\r\n"
        ),
        Ok("381B4222-F694-41F0-9685-FF5BB260DF2E".to_string())
    );
    assert_eq!(
        parse_active_scheme_guid("  oops \r\n"),
        Err("无法解析当前活动电源计划 GUID: oops".to_string())
    );
}

const QUERY_EN: &str = "Power Scheme GUID: 381b4222-f694-41f0-9685-ff5bb260df2e  (Balanced)\r\n  GUID Alias: SCHEME_BALANCED\r\n  Subgroup GUID: 238c9fa8-0aad-41ed-83f4-97be242c8f20  (Sleep)\r\n    GUID Alias: SUB_SLEEP\r\n    Power Setting GUID: 29f6c1db-86da-48c5-9fdb-f2b67b1f44da  (Sleep after)\r\n    Current AC Power Setting Index: 0x00000708\r\n    Current DC Power Setting Index: 0x00000384\r\n\r\n  Subgroup GUID: 54533251-82be-4824-96c1-47b60b740d00  (Processor power management)\r\n    Power Setting GUID: 893dee8e-2bef-41e0-89c6-b55d0929964c  (Minimum processor state)\r\n      Minimum Possible Setting: 0x00000000\r\n    Current AC Power Setting Index: 0x00000064\r\n    Current DC Power Setting Index: 0x00000005\r\n\r\n    Power Setting GUID: bc5038f7-23e0-4960-96da-33abaf5935ec  (Maximum processor state)\r\n    Current AC Power Setting Index: 0x00000064\r\n    Current DC Power Setting Index: 0x00000064\r\n";

const QUERY_ZH: &str = "电源方案 GUID: 381b4222-f694-41f0-9685-ff5bb260df2e  (平衡)\r\n  子组 GUID: 54533251-82be-4824-96c1-47b60b740d00  (处理器电源管理)\r\n    电源设置 GUID: 893dee8e-2bef-41e0-89c6-b55d0929964c  (最小处理器状态)\r\n    当前交流电源设置索引: 0x00000064\r\n    当前直流电源设置索引: 0x0000000a\r\n";

#[test]
fn dc_settings_in_english_output() {
    let got: Vec<(String, String, u32)> = parse_dc_settings_from_query(QUERY_EN)
        .into_iter()
        .map(|d| (d.subgroup_guid, d.setting_guid, d.dc_value))
        .collect();
    assert_eq!(
        got,
        vec![
            (
                "238c9fa8-0aad-41ed-83f4-97be242c8f20".to_string(),
                "29f6c1db-86da-48c5-9fdb-f2b67b1f44da".to_string(),
                0x384
            ),
            (
                "54533251-82be-4824-96c1-47b60b740d00".to_string(),
                "893dee8e-2bef-41e0-89c6-b55d0929964c".to_string(),
                5
            ),
            (
                "54533251-82be-4824-96c1-47b60b740d00".to_string(),
                "bc5038f7-23e0-4960-96da-33abaf5935ec".to_string(),
                100
            ),
        ]
    );
}

#[test]
fn dc_settings_in_chinese_output() {
    let got: Vec<(String, String, u32)> = parse_dc_settings_from_query(QUERY_ZH)
        .into_iter()
        .map(|d| (d.subgroup_guid, d.setting_guid, d.dc_value))
        .collect();
    assert_eq!(
        got,
        vec![(
            "54533251-82be-4824-96c1-47b60b740d00".to_string(),
            "893dee8e-2bef-41e0-89c6-b55d0929964c".to_string(),
            10
        )]
    );
}

#[test]
fn dc_value_needs_subgroup_and_setting_and_fitting_hex() {
    assert!(parse_dc_settings_from_query("Current DC Power Setting Index: 0x1\n").is_empty());
    let text = "Subgroup GUID: 54533251-82be-4824-96c1-47b60b740d00\nCurrent DC Power Setting Index: 0x1\nPower Setting GUID: 893dee8e-2bef-41e0-89c6-b55d0929964c\nCurrent DC Power Setting Index: 0x100000000\nCurrent DC Power Setting Index: 0x2\nSubgroup GUID: 238c9fa8-0aad-41ed-83f4-97be242c8f20\nCurrent DC Power Setting Index: 0x3\n";
    let got: Vec<u32> = parse_dc_settings_from_query(text).into_iter().map(|d| d.dc_value).collect();
    assert_eq!(got, vec![2]);
}

#[test]
fn ac_dc_settings_pairs() {
    let got: Vec<(String, u32, u32)> = parse_ac_dc_settings_from_query(QUERY_EN)
        .into_iter()
        .map(|d| (d.setting_guid, d.ac_value, d.dc_value))
        .collect();
    assert_eq!(
        got,
        vec![
            ("29f6c1db-86da-48c5-9fdb-f2b67b1f44da".to_string(), 0x708, 0x384),
            ("893dee8e-2bef-41e0-89c6-b55d0929964c".to_string(), 100, 5),
            ("bc5038f7-23e0-4960-96da-33abaf5935ec".to_string(), 100, 100),
        ]
    );
    let zh: Vec<(String, u32, u32)> = parse_ac_dc_settings_from_query(QUERY_ZH)
        .into_iter()
        .map(|d| (d.setting_guid, d.ac_value, d.dc_value))
        .collect();
    assert_eq!(zh, vec![("893dee8e-2bef-41e0-89c6-b55d0929964c".to_string(), 100, 10)]);
}

#[test]
fn ac_dc_setting_needs_both_values_and_a_subgroup() {
    let text = "Power Setting GUID: 893dee8e-2bef-41e0-89c6-b55d0929964c\nCurrent AC Power Setting Index: 0x1\nCurrent DC Power Setting Index: 0x1\nSubgroup GUID: 54533251-82be-4824-96c1-47b60b740d00\nPower Setting GUID: aaaaaaaa-2bef-41e0-89c6-b55d0929964c\nCurrent AC Power Setting Index: 0x7\nPower Setting GUID: bbbbbbbb-2bef-41e0-89c6-b55d0929964c\nCurrent AC Power Setting Index: 0x2\nCurrent DC Power Setting Index: 0x3\nCurrent AC Power Setting Index: 0x100000000\n";
    let got: Vec<(String, u32, u32)> = parse_ac_dc_settings_from_query(text)
        .into_iter()
        .map(|d| (d.setting_guid, d.ac_value, d.dc_value))
        .collect();
    assert_eq!(got, vec![("bbbbbbbb-2bef-41e0-89c6-b55d0929964c".to_string(), 2, 3)]);
}

fn acdc(guid: &str, ac: u32, dc: u32) -> AcDcSetting {
    AcDcSetting { setting_guid: guid.to_string(), ac_value: ac, dc_value: dc }
}

#[test]
fn alignment_counts_and_differences() {
    let r = check_processor_ac_dc_alignment(
        "scheme".to_string(),
        vec![acdc("a", 1, 1), acdc("b", 100, 5), acdc("c", 0, 0), acdc("d", 3, 4)],
    );
    assert_eq!(r.scheme_guid, "scheme");
    assert_eq!((r.total, r.same, r.different), (4, 2, 2));
    let diffs: Vec<(String, u32, u32)> =
        r.differences.into_iter().map(|d| (d.setting_guid, d.ac_value, d.dc_value)).collect();
    assert_eq!(diffs, vec![("b".to_string(), 100, 5), ("d".to_string(), 3, 4)]);
    let empty = check_processor_ac_dc_alignment("s".to_string(), Vec::new());
    assert_eq!((empty.total, empty.same, empty.different), (0, 0, 0));
}

fn dc(sub: &str, set: &str, v: u32) -> DcSetting {
    DcSetting { subgroup_guid: sub.to_string(), setting_guid: set.to_string(), dc_value: v }
}

#[test]
fn sleep_settings_are_skipped_and_others_kept() {
    let settings = vec![
        dc(SUB_SLEEP_GUID, "x", 1),
        dc("54533251-82BE-4824-96C1-47B60B740D00", "y", 2),
        dc(SUB_PROCESSOR_GUID, "z", 3),
        dc("0012ee47-9041-4b5d-9b77-535fba8b1442", "w", 4),
        dc("238C9FA8-0AAD-41ED-83F4-97BE242C8F20", "v", 5),
        dc("238c9fa8-0aad-41ed-83f4-97be242c8f2", "u", 6),
    ];
    let (kept, skipped) = split_aligned_settings(&settings);
    let names: Vec<String> = kept.iter().map(|d| d.setting_guid.clone()).collect();
    assert_eq!(names, vec!["y".to_string(), "z".to_string(), "w".to_string(), "u".to_string()]);
    assert_eq!(skipped, 2);
    let b = baseline_file("scheme", &settings);
    assert_eq!(b.scheme_guid, "scheme");
    let saved: Vec<(String, String, u32)> =
        b.settings.into_iter().map(|s| (s.subgroup_guid, s.setting_guid, s.value)).collect();
    assert_eq!(
        saved,
        vec![
            ("54533251-82BE-4824-96C1-47B60B740D00".to_string(), "y".to_string(), 2),
            (SUB_PROCESSOR_GUID.to_string(), "z".to_string(), 3),
        ]
    );
    let again = baseline_file("scheme", &kept);
    let again: Vec<String> = again.settings.into_iter().map(|s| s.setting_guid).collect();
    assert_eq!(again, vec!["y".to_string(), "z".to_string()]);
    assert!(baseline_file("scheme", &vec![dc("x", "s", 1)]).settings.is_empty());
}

#[test]
fn english_and_chinese_labels_read_alike() {
    let zh = QUERY_EN
        .replace("Subgroup GUID", "子组 GUID")
        .replace("Power Setting GUID", "电源设置 GUID")
        .replace("Current AC Power Setting Index", "当前交流电源设置索引")
        .replace("Current DC Power Setting Index", "当前直流电源设置索引");
    let shout = QUERY_EN.replace("Subgroup GUID", "SUBGROUP guid");
    let key = |v: Vec<DcSetting>| -> Vec<(String, String, u32)> {
        v.into_iter().map(|d| (d.subgroup_guid, d.setting_guid, d.dc_value)).collect()
    };
    let pairs = |v: Vec<AcDcSetting>| -> Vec<(String, u32, u32)> {
        v.into_iter().map(|d| (d.setting_guid, d.ac_value, d.dc_value)).collect()
    };
    let dc_en = key(parse_dc_settings_from_query(QUERY_EN));
    assert_eq!(dc_en.len(), 3);
    assert_eq!(key(parse_dc_settings_from_query(&zh)), dc_en);
    assert_eq!(key(parse_dc_settings_from_query(&shout)), dc_en);
    let acdc_en = pairs(parse_ac_dc_settings_from_query(QUERY_EN));
    assert_eq!(acdc_en.len(), 3);
    assert_eq!(pairs(parse_ac_dc_settings_from_query(&zh)), acdc_en);
}

#[test]
fn powercfg_command_lines() {
    let w = |c: powerplan::command::CommandLine| (c.program, c.args.join(" "), c.dynamic);
    let pc = |a: &str| ("powercfg".to_string(), a.to_string(), false);
    assert_eq!(w(list_command()), pc("/list"));
    assert_eq!(w(active_scheme_command()), pc("/getactivescheme"));
    assert_eq!(w(query_command("g")), pc("/query g"));
    assert_eq!(w(query_processor_command("g")), pc("/query g 54533251-82be-4824-96c1-47b60b740d00"));
    assert_eq!(w(set_active_command("g")), pc("/setactive g"));
    assert_eq!(w(restore_default_schemes_command()), pc("/restoredefaultschemes"));
}

#[test]
fn a_value_can_run_into_an_english_index_label() {
    let head = "Subgroup GUID: 54533251-82be-4824-96c1-47b60b740d00\nPower Setting GUID: 893dee8e-2bef-41e0-89c6-b55d0929964c\n";
    let en = format!("{head}Current DC Power Setting Index: 0xACurrent AC Power Setting Index: 0x1\n");
    let zh = format!("{head}当前直流电源设置索引: 0xA当前交流电源设置索引: 0x1\n");
    assert_eq!(parse_dc_settings_from_query(&en)[0].dc_value, 0xAC);
    assert_eq!(parse_dc_settings_from_query(&zh)[0].dc_value, 0xA);
}
