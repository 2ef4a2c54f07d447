//! What the optimizer reads from `powercfg` and decides from it: the power
//! plans, the active plan, the AC and DC values of each setting, and which
//! settings are aligned.
use vstd::prelude::*;
use crate::text::{lines, views, trim, trim_chars, to_chars, from_chars, split_lines, contains_char, hex_u32, hex_value, hex_digit_value, is_hex_digit, parse_hex_u32, eq_ignore_ascii_case, ascii_lower_code, chars_eq_ignore_ascii_case, decimal, push_decimal, string_views};
use crate::grammar::{Pattern, capture, capture_exec, is_guid, is_loose_guid, law_guid_capture_is_guid, law_labeled_guid_capture};
use crate::command::{CommandLine, command_words};
use crate::labels::{same_but_labels, lemma_same_but_labels_capture};

verus! {

/// The GUID of the processor power-management subgroup.
pub const SUB_PROCESSOR_GUID: &'static str = "54533251-82be-4824-96c1-47b60b740d00";

/// The GUID of the Sleep subgroup, whose settings are never aligned.
pub const SUB_SLEEP_GUID: &'static str = "238c9fa8-0aad-41ed-83f4-97be242c8f20";

/// The GUID of Windows' default "Balanced" plan.
pub const DEFAULT_BALANCED_GUID: &'static str = "381b4222-f694-41f0-9685-ff5bb260df2e";

/// A power plan as `powercfg /list` shows it.
pub struct PowerPlan {
    pub guid: String,
    pub name: String,
    pub is_active: bool,
}

/// A power plan by the views of its fields.
pub struct PowerPlanModel {
    pub guid: Seq<char>,
    pub name: Seq<char>,
    pub is_active: bool,
}

impl View for PowerPlan {
    type V = PowerPlanModel;

    open spec fn view(&self) -> PowerPlanModel {
        PowerPlanModel { guid: self.guid@, name: self.name@, is_active: self.is_active }
    }
}

/// The views of a sequence of values.
pub open spec fn plan_views(v: Seq<PowerPlan>) -> Seq<PowerPlanModel> {
    v.map_values(|p: PowerPlan| p@)
}

/// The plan that a line of `powercfg /list` describes: the line's first GUID,
/// the trimmed text inside its first pair of parentheses (or `Unknown`), and
/// whether it holds `*`. A line without a GUID describes no plan.
pub open spec fn plan_of_line(line: Seq<char>) -> Option<PowerPlanModel> {
    match capture(Pattern::Guid, line) {
        None => None,
        Some(guid) => Some(
            PowerPlanModel {
                guid,
                name: match capture(Pattern::ParenthesizedName, line) {
                    Some(n) => trim(n),
                    None => "Unknown"@,
                },
                is_active: line.contains('*'),
            },
        ),
    }
}

/// The plans that `ls` describe, in order.
pub open spec fn plans_of_lines(ls: Seq<Seq<char>>) -> Seq<PowerPlanModel>
    decreases ls.len(),
{
    if ls.len() == 0 {
        Seq::empty()
    } else {
        let before = plans_of_lines(ls.drop_last());
        match plan_of_line(ls.last()) {
            Some(p) => before.push(p),
            None => before,
        }
    }
}

/// The plans listed in the output of `powercfg /list`, one per line that
/// holds a GUID, in order.
pub fn parse_powercfg_list(text: &str) -> (plans: Vec<PowerPlan>)
    ensures
        plan_views(plans@) == plans_of_lines(lines(text@)),
{
    let chars = to_chars(text);
    let ls = split_lines(chars.as_slice());
    let ghost lv = views(ls@);
    let mut plans: Vec<PowerPlan> = Vec::new();
    let mut i: usize = 0;
    while i < ls.len()
        invariant
            i <= ls@.len(),
            lv == views(ls@),
            lv.len() == ls@.len(),
            plan_views(plans@) == plans_of_lines(lv.take(i as int)),
        decreases ls@.len() - i,
    {
        let line = &ls[i];
        assert(lv[i as int] == line@);
        assert(lv.take(i + 1).drop_last() == lv.take(i as int));
        assert(lv.take(i + 1).last() == line@);
        match capture_exec(Pattern::Guid, line.as_slice()) {
            None => {},
            Some(guid) => {
                let name = match capture_exec(Pattern::ParenthesizedName, line.as_slice()) {
                    Some(n) => from_chars(trim_chars(n.as_slice()).as_slice()),
                    None => "Unknown".to_owned(),
                };
                let is_active = contains_char(line.as_slice(), '*');
                let plan = PowerPlan { guid: from_chars(guid.as_slice()), name, is_active };
                let ghost before = plan_views(plans@);
                plans.push(plan);
                assert(plan_views(plans@) == before.push(plan@));
            },
        }
        i = i + 1;
    }
    assert(lv.take(ls@.len() as int) == lv);
    plans
}

/// The active plan's GUID in the output of `powercfg /getactivescheme`: its
/// first GUID, or a message with the trimmed output when there is none.
pub open spec fn active_scheme_guid(output: Seq<char>) -> Result<Seq<char>, Seq<char>> {
    match capture(Pattern::Guid, output) {
        Some(g) => Ok(g),
        None => Err(
            "\u{65e0}\u{6cd5}\u{89e3}\u{6790}\u{5f53}\u{524d}\u{6d3b}\u{52a8}\u{7535}\u{6e90}\u{8ba1}\u{5212} GUID: "@
                + trim(output),
        ),
    }
}

/// The active plan's GUID, read from the output of
/// `powercfg /getactivescheme`.
pub fn parse_active_scheme_guid(output: &str) -> (r: Result<String, String>)
    ensures
        crate::command::result_view(r) == active_scheme_guid(output@),
{
    let chars = to_chars(output);
    match capture_exec(Pattern::Guid, chars.as_slice()) {
        Some(g) => Ok(from_chars(g.as_slice())),
        None => {
            let mut m = String::new();
            m.append(
                "\u{65e0}\u{6cd5}\u{89e3}\u{6790}\u{5f53}\u{524d}\u{6d3b}\u{52a8}\u{7535}\u{6e90}\u{8ba1}\u{5212} GUID: ",
            );
            let t = from_chars(trim_chars(chars.as_slice()).as_slice());
            m.append(t.as_str());
            Err(m)
        },
    }
}


/// A setting's DC value, read from `powercfg /query`.
pub struct DcSetting {
    pub subgroup_guid: String,
    pub setting_guid: String,
    pub dc_value: u32,
}

/// A DC setting by the views of its fields.
pub struct DcSettingModel {
    pub subgroup_guid: Seq<char>,
    pub setting_guid: Seq<char>,
    pub dc_value: u32,
}

impl View for DcSetting {
    type V = DcSettingModel;

    open spec fn view(&self) -> DcSettingModel {
        DcSettingModel {
            subgroup_guid: self.subgroup_guid@,
            setting_guid: self.setting_guid@,
            dc_value: self.dc_value,
        }
    }
}

/// The views of DC settings.
pub open spec fn dc_views(v: Seq<DcSetting>) -> Seq<DcSettingModel> {
    v.map_values(|d: DcSetting| d@)
}

/// What the DC reader knows after some lines: the current subgroup, the
/// current setting, and the values found so far.
pub struct DcScan {
    pub subgroup: Option<Seq<char>>,
    pub setting: Option<Seq<char>>,
    pub found: Seq<DcSettingModel>,
}

/// One line read by the DC reader. A subgroup line starts a new subgroup and
/// forgets the setting; a setting line names the setting; a DC index line
/// yields a value when a subgroup and a setting are known and its hex digits
/// fit in a `u32`. Other lines change nothing.
pub open spec fn dc_step(st: DcScan, line: Seq<char>) -> DcScan {
    match capture(Pattern::SubgroupGuid, line) {
        Some(g) => DcScan { subgroup: Some(g), setting: None, found: st.found },
        None => match capture(Pattern::SettingGuid, line) {
            Some(g) => DcScan { subgroup: st.subgroup, setting: Some(g), found: st.found },
            None => match capture(Pattern::DcIndex, line) {
                Some(hex) => match (st.subgroup, st.setting, hex_u32(hex)) {
                    (Some(sub), Some(set), Some(v)) => DcScan {
                        subgroup: st.subgroup,
                        setting: st.setting,
                        found: st.found.push(
                            DcSettingModel { subgroup_guid: sub, setting_guid: set, dc_value: v },
                        ),
                    },
                    _ => st,
                },
                None => st,
            },
        },
    }
}

/// The DC reader's state after the lines `ls`.
pub open spec fn dc_scan(ls: Seq<Seq<char>>) -> DcScan
    decreases ls.len(),
{
    if ls.len() == 0 {
        DcScan { subgroup: None, setting: None, found: Seq::empty() }
    } else {
        dc_step(dc_scan(ls.drop_last()), ls.last())
    }
}

/// An optional text by its view.
pub open spec fn opt_view(o: Option<Vec<char>>) -> Option<Seq<char>> {
    match o {
        Some(v) => Some(v@),
        None => None,
    }
}

/// The DC value of every setting in the output of `powercfg /query`, with
/// the subgroup and setting that precede it.
pub fn parse_dc_settings_from_query(text: &str) -> (settings: Vec<DcSetting>)
    ensures
        dc_views(settings@) == dc_scan(lines(text@)).found,
{
    let chars = to_chars(text);
    let ls = split_lines(chars.as_slice());
    let ghost lv = views(ls@);
    let mut subgroup: Option<Vec<char>> = None;
    let mut setting: Option<Vec<char>> = None;
    let mut out: Vec<DcSetting> = Vec::new();
    let mut i: usize = 0;
    assert(lv.take(0).len() == 0);
    assert(dc_views(out@) == Seq::<DcSettingModel>::empty());
    while i < ls.len()
        invariant
            i <= ls@.len(),
            lv == views(ls@),
            lv.len() == ls@.len(),
            dc_scan(lv.take(i as int)) == (DcScan {
                subgroup: opt_view(subgroup),
                setting: opt_view(setting),
                found: dc_views(out@),
            }),
        decreases ls@.len() - i,
    {
        let line = &ls[i];
        assert(lv[i as int] == line@);
        assert(lv.take(i + 1).drop_last() == lv.take(i as int));
        assert(lv.take(i + 1).last() == line@);
        match capture_exec(Pattern::SubgroupGuid, line.as_slice()) {
            Some(g) => {
                subgroup = Some(g);
                setting = None;
            },
            None => match capture_exec(Pattern::SettingGuid, line.as_slice()) {
                Some(g) => {
                    setting = Some(g);
                },
                None => match capture_exec(Pattern::DcIndex, line.as_slice()) {
                    Some(hex) => {
                        match (&subgroup, &setting) {
                            (Some(sub), Some(set)) => {
                                match parse_hex_u32(hex.as_slice()) {
                                    Some(v) => {
                                        let d = DcSetting {
                                            subgroup_guid: from_chars(sub.as_slice()),
                                            setting_guid: from_chars(set.as_slice()),
                                            dc_value: v,
                                        };
                                        let ghost before = dc_views(out@);
                                        out.push(d);
                                        assert(dc_views(out@) == before.push(d@));
                                    },
                                    None => {},
                                }
                            },
                            _ => {},
                        }
                    },
                    None => {},
                },
            },
        }
        i = i + 1;
    }
    assert(lv.take(ls@.len() as int) == lv);
    out
}

/// A setting's AC and DC values, read from `powercfg /query`.
pub struct AcDcSetting {
    pub setting_guid: String,
    pub ac_value: u32,
    pub dc_value: u32,
}

/// An AC/DC setting by the views of its fields.
pub struct AcDcSettingModel {
    pub setting_guid: Seq<char>,
    pub ac_value: u32,
    pub dc_value: u32,
}

impl View for AcDcSetting {
    type V = AcDcSettingModel;

    open spec fn view(&self) -> AcDcSettingModel {
        AcDcSettingModel {
            setting_guid: self.setting_guid@,
            ac_value: self.ac_value,
            dc_value: self.dc_value,
        }
    }
}

/// The views of AC/DC settings.
pub open spec fn acdc_views(v: Seq<AcDcSetting>) -> Seq<AcDcSettingModel> {
    v.map_values(|d: AcDcSetting| d@)
}

/// What the AC/DC reader knows after some lines.
pub struct AcDcScan {
    pub subgroup: Option<Seq<char>>,
    pub setting: Option<Seq<char>>,
    pub ac: Option<u32>,
    pub dc: Option<u32>,
    pub found: Seq<AcDcSettingModel>,
}

/// Closes the current setting: it is kept when a subgroup, the setting and
/// both values are known; the setting and the values are then forgotten.
pub open spec fn acdc_flush(st: AcDcScan) -> AcDcScan {
    AcDcScan {
        subgroup: st.subgroup,
        setting: None,
        ac: None,
        dc: None,
        found: match (st.subgroup, st.setting, st.ac, st.dc) {
            (Some(_), Some(set), Some(ac), Some(dc)) => st.found.push(
                AcDcSettingModel { setting_guid: set, ac_value: ac, dc_value: dc },
            ),
            _ => st.found,
        },
    }
}

/// One line read by the AC/DC reader. A subgroup or setting line closes the
/// current setting first; an AC or DC index line records its value when its
/// hex digits fit in a `u32`, and keeps the earlier value otherwise.
pub open spec fn acdc_step(st: AcDcScan, line: Seq<char>) -> AcDcScan {
    match capture(Pattern::SubgroupId, line) {
        Some(g) => {
            let f = acdc_flush(st);
            AcDcScan { subgroup: Some(g), ..f }
        },
        None => match capture(Pattern::SettingId, line) {
            Some(g) => {
                let f = acdc_flush(st);
                AcDcScan { setting: Some(g), ..f }
            },
            None => match capture(Pattern::AcIndex, line) {
                Some(hex) => match hex_u32(hex) {
                    Some(v) => AcDcScan { ac: Some(v), ..st },
                    None => st,
                },
                None => match capture(Pattern::DcIndex, line) {
                    Some(hex) => match hex_u32(hex) {
                        Some(v) => AcDcScan { dc: Some(v), ..st },
                        None => st,
                    },
                    None => st,
                },
            },
        },
    }
}

/// The AC/DC reader's state after the lines `ls`.
pub open spec fn acdc_scan(ls: Seq<Seq<char>>) -> AcDcScan
    decreases ls.len(),
{
    if ls.len() == 0 {
        AcDcScan { subgroup: None, setting: None, ac: None, dc: None, found: Seq::empty() }
    } else {
        acdc_step(acdc_scan(ls.drop_last()), ls.last())
    }
}

/// The settings of the output of `powercfg /query` that show both an AC and
/// a DC value, in order.
pub open spec fn acdc_settings(text: Seq<char>) -> Seq<AcDcSettingModel> {
    acdc_flush(acdc_scan(lines(text))).found
}

/// The AC and DC values of every setting in the output of `powercfg /query`.
pub fn parse_ac_dc_settings_from_query(text: &str) -> (settings: Vec<AcDcSetting>)
    ensures
        acdc_views(settings@) == acdc_settings(text@),
{
    let chars = to_chars(text);
    let ls = split_lines(chars.as_slice());
    let ghost lv = views(ls@);
    let mut subgroup: Option<Vec<char>> = None;
    let mut setting: Option<Vec<char>> = None;
    let mut ac: Option<u32> = None;
    let mut dc: Option<u32> = None;
    let mut out: Vec<AcDcSetting> = Vec::new();
    let mut i: usize = 0;
    assert(lv.take(0).len() == 0);
    assert(acdc_views(out@) == Seq::<AcDcSettingModel>::empty());
    while i < ls.len()
        invariant
            i <= ls@.len(),
            lv == views(ls@),
            lv.len() == ls@.len(),
            acdc_scan(lv.take(i as int)) == (AcDcScan {
                subgroup: opt_view(subgroup),
                setting: opt_view(setting),
                ac,
                dc,
                found: acdc_views(out@),
            }),
        decreases ls@.len() - i,
    {
        let line = &ls[i];
        assert(lv[i as int] == line@);
        assert(lv.take(i + 1).drop_last() == lv.take(i as int));
        assert(lv.take(i + 1).last() == line@);
        let sub_cap = capture_exec(Pattern::SubgroupId, line.as_slice());
        let set_cap = if sub_cap.is_none() {
            capture_exec(Pattern::SettingId, line.as_slice())
        } else {
            None
        };
        if sub_cap.is_some() || set_cap.is_some() {
            flush(&subgroup, &mut setting, &mut ac, &mut dc, &mut out);
            match sub_cap {
                Some(g) => {
                    subgroup = Some(g);
                },
                None => {
                    setting = set_cap;
                },
            }
        } else {
            match capture_exec(Pattern::AcIndex, line.as_slice()) {
                Some(hex) => {
                    match parse_hex_u32(hex.as_slice()) {
                        Some(v) => {
                            ac = Some(v);
                        },
                        None => {},
                    }
                },
                None => match capture_exec(Pattern::DcIndex, line.as_slice()) {
                    Some(hex) => {
                        match parse_hex_u32(hex.as_slice()) {
                            Some(v) => {
                                dc = Some(v);
                            },
                            None => {},
                        }
                    },
                    None => {},
                },
            }
        }
        i = i + 1;
    }
    assert(lv.take(ls@.len() as int) == lv);
    flush(&subgroup, &mut setting, &mut ac, &mut dc, &mut out);
    out
}

fn flush(
    subgroup: &Option<Vec<char>>,
    setting: &mut Option<Vec<char>>,
    ac: &mut Option<u32>,
    dc: &mut Option<u32>,
    out: &mut Vec<AcDcSetting>,
)
    ensures
        (AcDcScan {
            subgroup: opt_view(*subgroup),
            setting: opt_view(*final(setting)),
            ac: *final(ac),
            dc: *final(dc),
            found: acdc_views(final(out)@),
        }) == acdc_flush(
            AcDcScan {
                subgroup: opt_view(*subgroup),
                setting: opt_view(*old(setting)),
                ac: *old(ac),
                dc: *old(dc),
                found: acdc_views(old(out)@),
            },
        ),
{
    match (subgroup, &*setting, &*ac, &*dc) {
        (Some(_), Some(set), Some(a), Some(d)) => {
            let item = AcDcSetting { setting_guid: from_chars(set.as_slice()), ac_value: *a, dc_value: *d };
            let ghost before = acdc_views(out@);
            out.push(item);
            assert(acdc_views(out@) == before.push(item@));
        },
        _ => {},
    }
    *setting = None;
    *ac = None;
    *dc = None;
}


/// A setting whose AC and DC values differ.
pub struct ProcessorAlignItem {
    pub setting_guid: String,
    pub ac_value: u32,
    pub dc_value: u32,
}

impl View for ProcessorAlignItem {
    type V = AcDcSettingModel;

    open spec fn view(&self) -> AcDcSettingModel {
        AcDcSettingModel {
            setting_guid: self.setting_guid@,
            ac_value: self.ac_value,
            dc_value: self.dc_value,
        }
    }
}

/// The views of alignment items.
pub open spec fn item_views(v: Seq<ProcessorAlignItem>) -> Seq<AcDcSettingModel> {
    v.map_values(|d: ProcessorAlignItem| d@)
}

/// How the processor settings of a plan compare on AC and on DC.
pub struct ProcessorAlignResult {
    pub scheme_guid: String,
    pub total: u32,
    pub same: u32,
    pub different: u32,
    pub differences: Vec<ProcessorAlignItem>,
}

/// The settings of `s` whose AC and DC values differ, in order.
pub open spec fn differing(s: Seq<AcDcSettingModel>) -> Seq<AcDcSettingModel>
    decreases s.len(),
{
    if s.len() == 0 {
        Seq::empty()
    } else if s.last().ac_value != s.last().dc_value {
        differing(s.drop_last()).push(s.last())
    } else {
        differing(s.drop_last())
    }
}

/// How many settings of `s` have equal AC and DC values.
pub open spec fn same_count(s: Seq<AcDcSettingModel>) -> nat
    decreases s.len(),
{
    if s.len() == 0 {
        0
    } else if s.last().ac_value == s.last().dc_value {
        same_count(s.drop_last()) + 1
    } else {
        same_count(s.drop_last())
    }
}

/// Every setting is counted once: as equal, or as a difference.
pub proof fn law_alignment_counts(s: Seq<AcDcSettingModel>)
    ensures
        same_count(s) + differing(s).len() == s.len(),
    decreases s.len(),
{
    if s.len() > 0 {
        law_alignment_counts(s.drop_last());
    }
}

/// Every listed difference has different AC and DC values, and comes from
/// the compared settings.
pub proof fn law_differences_differ(s: Seq<AcDcSettingModel>)
    ensures
        forall|i: int|
            0 <= i < differing(s).len() ==> (#[trigger] differing(s)[i]).ac_value
                != differing(s)[i].dc_value && s.contains(differing(s)[i]),
    decreases s.len(),
{
    if s.len() > 0 {
        law_differences_differ(s.drop_last());
        let d = differing(s);
        let p = differing(s.drop_last());
        assert forall|i: int| 0 <= i < d.len() implies (#[trigger] d[i]).ac_value != d[i].dc_value
            && s.contains(d[i]) by {
            if i < p.len() {
                assert(d[i] == p[i]);
                let k = choose|k: int| 0 <= k < s.drop_last().len() && s.drop_last()[k] == p[i];
                assert(s[k] == p[i]);
            } else {
                assert(d[i] == s.last());
                assert(s[s.len() - 1] == s.last());
            }
        }
    }
}

/// Compares the AC and DC values of the settings of the active plan's
/// processor subgroup: how many there are, how many agree, and which differ.
pub fn check_processor_ac_dc_alignment(scheme_guid: String, settings: Vec<AcDcSetting>) -> (r:
    ProcessorAlignResult)
    requires
        settings@.len() <= u32::MAX,
    ensures
        r.scheme_guid == scheme_guid,
        item_views(r.differences@) == differing(acdc_views(settings@)),
        r.same == same_count(acdc_views(settings@)),
        r.different == differing(acdc_views(settings@)).len(),
        r.total == settings@.len(),
        r.total == r.same + r.different,
{
    let ghost sv = acdc_views(settings@);
    let mut same: u32 = 0;
    let mut different: u32 = 0;
    let mut differences: Vec<ProcessorAlignItem> = Vec::new();
    let mut i: usize = 0;
    assert(sv.take(0).len() == 0);
    assert(item_views(differences@) == Seq::<AcDcSettingModel>::empty());
    while i < settings.len()
        invariant
            i <= settings@.len() <= u32::MAX,
            sv == acdc_views(settings@),
            sv.len() == settings@.len(),
            same == same_count(sv.take(i as int)),
            item_views(differences@) == differing(sv.take(i as int)),
            different == differences@.len(),
            same + different == i,
        decreases settings@.len() - i,
    {
        proof {
            law_alignment_counts(sv.take(i as int));
        }
        let setting = &settings[i];
        assert(sv.take(i + 1).drop_last() == sv.take(i as int));
        assert(sv.take(i + 1).last() == setting@);
        if setting.ac_value == setting.dc_value {
            same = same + 1;
        } else {
            different = different + 1;
            let item = ProcessorAlignItem {
                setting_guid: setting.setting_guid.clone(),
                ac_value: setting.ac_value,
                dc_value: setting.dc_value,
            };
            let ghost before = item_views(differences@);
            differences.push(item);
            assert(item_views(differences@) == before.push(item@));
        }
        i = i + 1;
    }
    assert(sv.take(settings@.len() as int) == sv);
    let total = same + different;
    ProcessorAlignResult { scheme_guid, total, same, different, differences }
}

/// The setting's AC value is aligned to its DC value: it lies outside the
/// Sleep subgroup (its subgroup GUID differs from the Sleep subgroup's, ASCII
/// case aside).
pub open spec fn is_aligned_setting(d: DcSettingModel) -> bool {
    !eq_ignore_ascii_case(d.subgroup_guid, SUB_SLEEP_GUID@)
}

/// The settings of `s` outside the Sleep subgroup, in order.
pub open spec fn aligned_settings(s: Seq<DcSettingModel>) -> Seq<DcSettingModel>
    decreases s.len(),
{
    if s.len() == 0 {
        Seq::empty()
    } else if is_aligned_setting(s.last()) {
        aligned_settings(s.drop_last()).push(s.last())
    } else {
        aligned_settings(s.drop_last())
    }
}

/// How many settings of `s` belong to the Sleep subgroup.
pub open spec fn sleep_setting_count(s: Seq<DcSettingModel>) -> nat
    decreases s.len(),
{
    if s.len() == 0 {
        0
    } else if is_aligned_setting(s.last()) {
        sleep_setting_count(s.drop_last())
    } else {
        sleep_setting_count(s.drop_last()) + 1
    }
}

/// Every setting is either kept for alignment or counted as a skipped Sleep
/// setting, and no kept setting is a Sleep setting.
pub proof fn law_alignment_partition(s: Seq<DcSettingModel>)
    ensures
        aligned_settings(s).len() + sleep_setting_count(s) == s.len(),
        forall|i: int|
            0 <= i < aligned_settings(s).len() ==> is_aligned_setting(
                #[trigger] aligned_settings(s)[i],
            ),
    decreases s.len(),
{
    if s.len() > 0 {
        law_alignment_partition(s.drop_last());
        let p = aligned_settings(s);
        let q = aligned_settings(s.drop_last());
        assert forall|i: int| 0 <= i < p.len() implies is_aligned_setting(#[trigger] p[i]) by {
            if i < q.len() {
                assert(p[i] == q[i]);
            }
        }
    }
}

fn copy_dc_setting(d: &DcSetting) -> (r: DcSetting)
    ensures
        r@ == d@,
{
    DcSetting {
        subgroup_guid: d.subgroup_guid.clone(),
        setting_guid: d.setting_guid.clone(),
        dc_value: d.dc_value,
    }
}

/// Whether `d` belongs to the Sleep subgroup.
pub fn in_sleep_subgroup(d: &DcSetting) -> (b: bool)
    ensures
        b == !is_aligned_setting(d@),
{
    let a = to_chars(d.subgroup_guid.as_str());
    let p = to_chars(SUB_SLEEP_GUID);
    chars_eq_ignore_ascii_case(a.as_slice(), p.as_slice())
}

/// Keeps the settings of the active plan to align (all but the Sleep
/// subgroup's), and counts the Sleep settings, which are left alone.
pub fn split_aligned_settings(settings: &Vec<DcSetting>) -> (r: (Vec<DcSetting>, u32))
    requires
        sleep_setting_count(dc_views(settings@)) <= u32::MAX,
    ensures
        dc_views(r.0@) == aligned_settings(dc_views(settings@)),
        r.1 == sleep_setting_count(dc_views(settings@)),
{
    let ghost sv = dc_views(settings@);
    let mut kept: Vec<DcSetting> = Vec::new();
    let mut skipped: u32 = 0;
    let mut i: usize = 0;
    assert(sv.take(0).len() == 0);
    assert(dc_views(kept@) == Seq::<DcSettingModel>::empty());
    while i < settings.len()
        invariant
            i <= settings@.len(),
            sv == dc_views(settings@),
            sv.len() == settings@.len(),
            sleep_setting_count(sv) <= u32::MAX,
            dc_views(kept@) == aligned_settings(sv.take(i as int)),
            skipped == sleep_setting_count(sv.take(i as int)),
        decreases settings@.len() - i,
    {
        proof {
            lemma_sleep_count_prefix(sv, i as int + 1);
        }
        let d = &settings[i];
        assert(sv.take(i + 1).drop_last() == sv.take(i as int));
        assert(sv.take(i + 1).last() == d@);
        if !in_sleep_subgroup(d) {
            let c = copy_dc_setting(d);
            let ghost before = dc_views(kept@);
            kept.push(c);
            assert(dc_views(kept@) == before.push(c@));
        } else {
            skipped = skipped + 1;
        }
        i = i + 1;
    }
    assert(sv.take(settings@.len() as int) == sv);
    (kept, skipped)
}

proof fn lemma_sleep_count_prefix(s: Seq<DcSettingModel>, i: int)
    requires
        0 <= i <= s.len(),
    ensures
        sleep_setting_count(s.take(i)) <= sleep_setting_count(s),
    decreases s.len() - i,
{
    if i < s.len() {
        lemma_sleep_count_prefix(s, i + 1);
        assert(s.take(i + 1).drop_last() == s.take(i));
    } else {
        assert(s.take(i) == s);
    }
}

/// The setting belongs to the processor subgroup (its subgroup GUID equals
/// the processor subgroup's, ASCII case aside): the settings the baseline
/// keeps and the re-apply script writes back.
pub open spec fn is_processor_setting(d: DcSettingModel) -> bool {
    eq_ignore_ascii_case(d.subgroup_guid, SUB_PROCESSOR_GUID@)
}

/// The processor settings of `s`, in order.
pub open spec fn processor_settings(s: Seq<DcSettingModel>) -> Seq<DcSettingModel>
    decreases s.len(),
{
    if s.len() == 0 {
        Seq::empty()
    } else if is_processor_setting(s.last()) {
        processor_settings(s.drop_last()).push(s.last())
    } else {
        processor_settings(s.drop_last())
    }
}

/// Whether `d` belongs to the processor subgroup.
pub fn in_processor_subgroup(d: &DcSetting) -> (b: bool)
    ensures
        b == is_processor_setting(d@),
{
    let a = to_chars(d.subgroup_guid.as_str());
    let p = to_chars(SUB_PROCESSOR_GUID);
    chars_eq_ignore_ascii_case(a.as_slice(), p.as_slice())
}

/// A saved setting of the baseline file: a subgroup, a setting and the DC
/// value to write back.
pub struct BaselineSetting {
    pub subgroup_guid: String,
    pub setting_guid: String,
    pub value: u32,
}

impl View for BaselineSetting {
    type V = DcSettingModel;

    open spec fn view(&self) -> DcSettingModel {
        DcSettingModel {
            subgroup_guid: self.subgroup_guid@,
            setting_guid: self.setting_guid@,
            dc_value: self.value,
        }
    }
}

/// The views of baseline settings.
pub open spec fn baseline_views(v: Seq<BaselineSetting>) -> Seq<DcSettingModel> {
    v.map_values(|d: BaselineSetting| d@)
}

/// The baseline that the re-apply script restores: a plan and the DC values
/// of its processor settings.
pub struct BaselineFile {
    pub scheme_guid: String,
    pub settings: Vec<BaselineSetting>,
}

/// The baseline of a plan: its processor settings, each with its DC value.
pub fn baseline_file(scheme_guid: &str, settings: &Vec<DcSetting>) -> (b: BaselineFile)
    ensures
        b.scheme_guid@ == scheme_guid@,
        baseline_views(b.settings@) == processor_settings(dc_views(settings@)),
{
    let ghost sv = dc_views(settings@);
    let mut out: Vec<BaselineSetting> = Vec::new();
    let mut i: usize = 0;
    assert(sv.take(0).len() == 0);
    assert(baseline_views(out@) == Seq::<DcSettingModel>::empty());
    while i < settings.len()
        invariant
            i <= settings@.len(),
            sv == dc_views(settings@),
            sv.len() == settings@.len(),
            baseline_views(out@) == processor_settings(sv.take(i as int)),
        decreases settings@.len() - i,
    {
        let d = &settings[i];
        assert(sv.take(i + 1).drop_last() == sv.take(i as int));
        assert(sv.take(i + 1).last() == d@);
        if in_processor_subgroup(d) {
            let b = BaselineSetting {
                subgroup_guid: d.subgroup_guid.clone(),
                setting_guid: d.setting_guid.clone(),
                value: d.dc_value,
            };
            let ghost before = baseline_views(out@);
            out.push(b);
            assert(baseline_views(out@) == before.push(b@));
        }
        i = i + 1;
    }
    assert(sv.take(settings@.len() as int) == sv);
    BaselineFile { scheme_guid: scheme_guid.to_owned(), settings: out }
}


/// Every listed plan carries a GUID in canonical form.
pub proof fn law_plan_guids(ls: Seq<Seq<char>>)
    ensures
        forall|i: int| 0 <= i < plans_of_lines(ls).len() ==> is_guid(#[trigger] plans_of_lines(ls)[i].guid),
    decreases ls.len(),
{
    if ls.len() > 0 {
        law_plan_guids(ls.drop_last());
        law_guid_capture_is_guid(ls.last());
        let before = plans_of_lines(ls.drop_last());
        let all = plans_of_lines(ls);
        assert forall|i: int| 0 <= i < all.len() implies is_guid(#[trigger] all[i].guid) by {
            if i < before.len() {
                assert(all[i] == before[i]);
            }
        }
    }
}

/// Every DC value read from `powercfg /query` comes with the canonical GUIDs
/// of its subgroup and its setting.
pub proof fn law_dc_setting_guids(ls: Seq<Seq<char>>)
    ensures
        forall|i: int|
            0 <= i < dc_scan(ls).found.len() ==> is_guid((#[trigger] dc_scan(ls).found[i]).subgroup_guid)
                && is_guid(dc_scan(ls).found[i].setting_guid),
        dc_scan(ls).subgroup matches Some(g) ==> is_guid(g),
        dc_scan(ls).setting matches Some(g) ==> is_guid(g),
    decreases ls.len(),
{
    if ls.len() > 0 {
        law_dc_setting_guids(ls.drop_last());
        law_labeled_guid_capture(ls.last());
        let before = dc_scan(ls.drop_last()).found;
        let all = dc_scan(ls).found;
        assert forall|i: int| 0 <= i < all.len() implies is_guid((#[trigger] all[i]).subgroup_guid)
            && is_guid(all[i].setting_guid) by {
            if i < before.len() {
                assert(all[i] == before[i]);
            }
        }
    }
}

/// Every AC/DC pair read from `powercfg /query` names its setting by 36 hex
/// digits and dashes.
pub proof fn law_acdc_setting_ids(ls: Seq<Seq<char>>)
    ensures
        forall|i: int|
            0 <= i < acdc_flush(acdc_scan(ls)).found.len() ==> is_loose_guid(
                (#[trigger] acdc_flush(acdc_scan(ls)).found[i]).setting_guid,
            ),
        forall|i: int|
            0 <= i < acdc_scan(ls).found.len() ==> is_loose_guid(
                (#[trigger] acdc_scan(ls).found[i]).setting_guid,
            ),
        acdc_scan(ls).setting matches Some(g) ==> is_loose_guid(g),
    decreases ls.len(),
{
    if ls.len() > 0 {
        law_acdc_setting_ids(ls.drop_last());
        law_labeled_guid_capture(ls.last());
        let st = acdc_scan(ls.drop_last());
        let f = acdc_flush(st);
        assert forall|i: int| 0 <= i < f.found.len() implies is_loose_guid(
            (#[trigger] f.found[i]).setting_guid,
        ) by {
            if i < st.found.len() {
                assert(f.found[i] == st.found[i]);
            }
        }
        let all = acdc_scan(ls).found;
        assert forall|i: int| 0 <= i < all.len() implies is_loose_guid((#[trigger] all[i]).setting_guid) by {
            if i < st.found.len() {
                assert(all[i] == st.found[i]);
            } else {
                assert(all[i] == f.found[i]);
            }
        }
    }
    let st = acdc_scan(ls);
    let f = acdc_flush(st);
    assert forall|i: int| 0 <= i < f.found.len() implies is_loose_guid((#[trigger] f.found[i]).setting_guid) by {
        if i < st.found.len() {
            assert(f.found[i] == st.found[i]);
        }
    }
}

/// A processor setting is always aligned: the Sleep subgroup is not the
/// processor subgroup.
pub proof fn law_processor_settings_are_aligned(d: DcSettingModel)
    ensures
        is_processor_setting(d) ==> is_aligned_setting(d),
{
    if is_processor_setting(d) && !is_aligned_setting(d) {
        reveal_strlit("54533251-82be-4824-96c1-47b60b740d00");
        reveal_strlit("238c9fa8-0aad-41ed-83f4-97be242c8f20");
        assert(ascii_lower_code(d.subgroup_guid[0]) == ascii_lower_code(SUB_PROCESSOR_GUID@[0]));
        assert(ascii_lower_code(d.subgroup_guid[0]) == ascii_lower_code(SUB_SLEEP_GUID@[0]));
    }
}

/// The baseline written from the settings being aligned equals the one
/// written from all the settings of the plan: both hold the plan's
/// processor settings.
pub proof fn law_baseline_from_aligned(s: Seq<DcSettingModel>)
    ensures
        processor_settings(aligned_settings(s)) == processor_settings(s),
    decreases s.len(),
{
    if s.len() > 0 {
        law_baseline_from_aligned(s.drop_last());
        law_processor_settings_are_aligned(s.last());
        let a = aligned_settings(s.drop_last());
        if is_aligned_setting(s.last()) {
            assert(a.push(s.last()).drop_last() == a);
        }
    }
}

/// The DC reader is indifferent to the language of the labels: lines that
/// differ only in the language or case of their labels give the same
/// state, and so the same settings.
pub proof fn law_dc_reader_bilingual(ls1: Seq<Seq<char>>, ls2: Seq<Seq<char>>)
    requires
        ls1.len() == ls2.len(),
        forall|i: int| 0 <= i < ls1.len() ==> same_but_labels(#[trigger] ls1[i], ls2[i]),
    ensures
        dc_scan(ls1) == dc_scan(ls2),
    decreases ls1.len(),
{
    if ls1.len() > 0 {
        let n = ls1.len() - 1;
        assert(same_but_labels(ls1[n], ls2[n]));
        law_dc_reader_bilingual(ls1.drop_last(), ls2.drop_last());
        lemma_same_but_labels_capture(Pattern::SubgroupGuid, ls1.last(), ls2.last());
        lemma_same_but_labels_capture(Pattern::SettingGuid, ls1.last(), ls2.last());
        lemma_same_but_labels_capture(Pattern::DcIndex, ls1.last(), ls2.last());
    }
}

/// The AC/DC reader is indifferent to the language of the labels: lines
/// that differ only in the language or case of their labels give the same
/// state, and so the same settings.
pub proof fn law_acdc_reader_bilingual(ls1: Seq<Seq<char>>, ls2: Seq<Seq<char>>)
    requires
        ls1.len() == ls2.len(),
        forall|i: int| 0 <= i < ls1.len() ==> same_but_labels(#[trigger] ls1[i], ls2[i]),
    ensures
        acdc_scan(ls1) == acdc_scan(ls2),
        acdc_flush(acdc_scan(ls1)) == acdc_flush(acdc_scan(ls2)),
    decreases ls1.len(),
{
    if ls1.len() > 0 {
        let n = ls1.len() - 1;
        assert(same_but_labels(ls1[n], ls2[n]));
        law_acdc_reader_bilingual(ls1.drop_last(), ls2.drop_last());
        lemma_same_but_labels_capture(Pattern::SubgroupId, ls1.last(), ls2.last());
        lemma_same_but_labels_capture(Pattern::SettingId, ls1.last(), ls2.last());
        lemma_same_but_labels_capture(Pattern::AcIndex, ls1.last(), ls2.last());
        lemma_same_but_labels_capture(Pattern::DcIndex, ls1.last(), ls2.last());
    }
}

/// Two outputs of `powercfg /query` whose lines differ only in the
/// language or case of their labels give both readers the same settings:
/// the English and the Chinese output read alike.
pub proof fn law_query_readers_bilingual(t1: Seq<char>, t2: Seq<char>)
    requires
        lines(t1).len() == lines(t2).len(),
        forall|i: int|
            0 <= i < lines(t1).len() ==> same_but_labels(#[trigger] lines(t1)[i], lines(t2)[i]),
    ensures
        dc_scan(lines(t1)).found == dc_scan(lines(t2)).found,
        acdc_settings(t1) == acdc_settings(t2),
{
    law_dc_reader_bilingual(lines(t1), lines(t2));
    law_acdc_reader_bilingual(lines(t1), lines(t2));
}


/// The words of `powercfg` with the arguments `args`.
pub open spec fn powercfg_words(args: Seq<Seq<char>>) -> (Seq<char>, Seq<Seq<char>>) {
    ("powercfg"@, args)
}

fn powercfg_command(args: Vec<String>) -> (c: CommandLine)
    ensures
        command_words(&c) == powercfg_words(string_views(args@)),
        !c.dynamic,
{
    CommandLine { program: "powercfg".to_owned(), args, dynamic: false }
}

/// `powercfg /list`: the power plans.
pub fn list_command() -> (c: CommandLine)
    ensures
        command_words(&c) == powercfg_words(seq!["/list"@]),
        !c.dynamic,
{
    let args = vec!["/list".to_owned()];
    assert(string_views(args@) == seq!["/list"@]);
    powercfg_command(args)
}

/// `powercfg /getactivescheme`: the active plan.
pub fn active_scheme_command() -> (c: CommandLine)
    ensures
        command_words(&c) == powercfg_words(seq!["/getactivescheme"@]),
        !c.dynamic,
{
    let args = vec!["/getactivescheme".to_owned()];
    assert(string_views(args@) == seq!["/getactivescheme"@]);
    powercfg_command(args)
}

/// `powercfg /query <scheme>`: every setting of a plan.
pub fn query_command(scheme_guid: &str) -> (c: CommandLine)
    ensures
        command_words(&c) == powercfg_words(seq!["/query"@, scheme_guid@]),
        !c.dynamic,
{
    let args = vec!["/query".to_owned(), scheme_guid.to_owned()];
    assert(string_views(args@) == seq!["/query"@, scheme_guid@]);
    powercfg_command(args)
}

/// `powercfg /query <scheme> <processor subgroup>`: the processor settings
/// of a plan.
pub fn query_processor_command(scheme_guid: &str) -> (c: CommandLine)
    ensures
        command_words(&c) == powercfg_words(seq!["/query"@, scheme_guid@, SUB_PROCESSOR_GUID@]),
        !c.dynamic,
{
    let args = vec!["/query".to_owned(), scheme_guid.to_owned(), SUB_PROCESSOR_GUID.to_owned()];
    assert(string_views(args@) == seq!["/query"@, scheme_guid@, SUB_PROCESSOR_GUID@]);
    powercfg_command(args)
}

/// `powercfg /setactive <scheme>`: makes a plan active, which also applies
/// its changed values.
pub fn set_active_command(scheme_guid: &str) -> (c: CommandLine)
    ensures
        command_words(&c) == powercfg_words(seq!["/setactive"@, scheme_guid@]),
        !c.dynamic,
{
    let args = vec!["/setactive".to_owned(), scheme_guid.to_owned()];
    assert(string_views(args@) == seq!["/setactive"@, scheme_guid@]);
    powercfg_command(args)
}

/// `powercfg /restoredefaultschemes`: puts back Windows' default plans.
pub fn restore_default_schemes_command() -> (c: CommandLine)
    ensures
        command_words(&c) == powercfg_words(seq!["/restoredefaultschemes"@]),
        !c.dynamic,
{
    let args = vec!["/restoredefaultschemes".to_owned()];
    assert(string_views(args@) == seq!["/restoredefaultschemes"@]);
    powercfg_command(args)
}


/// A setting whose AC and DC values differ.
pub open spec fn values_differ() -> spec_fn(AcDcSettingModel) -> bool {
    |d: AcDcSettingModel| d.ac_value != d.dc_value
}

/// A setting whose AC and DC values are equal.
pub open spec fn values_agree() -> spec_fn(AcDcSettingModel) -> bool {
    |d: AcDcSettingModel| d.ac_value == d.dc_value
}

/// The comparison puts every setting in exactly one place, whatever its
/// values: the differences are exactly the settings whose AC and DC values
/// differ, in their order, and the agreeing count is the number of settings
/// whose AC and DC values are equal.
pub proof fn law_alignment_exact(s: Seq<AcDcSettingModel>)
    ensures
        differing(s) == s.filter(values_differ()),
        same_count(s) == s.filter(values_agree()).len(),
        forall|i: int|
            0 <= i < s.len() && s[i].ac_value != s[i].dc_value ==> differing(s).contains(
                #[trigger] s[i],
            ),
        forall|i: int|
            0 <= i < differing(s).len() ==> (#[trigger] differing(s)[i]).ac_value
                != differing(s)[i].dc_value,
    decreases s.len(),
{
    reveal(Seq::filter);
    if s.len() > 0 {
        law_alignment_exact(s.drop_last());
    }
    assert forall|i: int| 0 <= i < s.len() && s[i].ac_value != s[i].dc_value implies differing(s).contains(
        #[trigger] s[i],
    ) by {
        s.lemma_filter_contains(values_differ(), i);
    }
    assert forall|i: int| 0 <= i < differing(s).len() implies (#[trigger] differing(s)[i]).ac_value
        != differing(s)[i].dc_value by {
        s.lemma_filter_pred(values_differ(), i);
    }
}

/// A setting of the processor subgroup.
pub open spec fn in_processor() -> spec_fn(DcSettingModel) -> bool {
    |d: DcSettingModel| eq_ignore_ascii_case(d.subgroup_guid, SUB_PROCESSOR_GUID@)
}

/// A setting outside the Sleep subgroup.
pub open spec fn outside_sleep() -> spec_fn(DcSettingModel) -> bool {
    |d: DcSettingModel| !eq_ignore_ascii_case(d.subgroup_guid, SUB_SLEEP_GUID@)
}

/// A setting of the Sleep subgroup.
pub open spec fn in_sleep() -> spec_fn(DcSettingModel) -> bool {
    |d: DcSettingModel| eq_ignore_ascii_case(d.subgroup_guid, SUB_SLEEP_GUID@)
}

/// Which settings are kept depends on their subgroup alone, never on their
/// values: the baseline is exactly the settings of the processor subgroup,
/// the settings aligned are exactly those outside the Sleep subgroup, each
/// in order, and the skipped count is the number of Sleep settings.
pub proof fn law_selection_by_subgroup(s: Seq<DcSettingModel>)
    ensures
        processor_settings(s) == s.filter(in_processor()),
        aligned_settings(s) == s.filter(outside_sleep()),
        sleep_setting_count(s) == s.filter(in_sleep()).len(),
        forall|i: int|
            0 <= i < s.len() && eq_ignore_ascii_case(s[i].subgroup_guid, SUB_PROCESSOR_GUID@)
                ==> processor_settings(s).contains(#[trigger] s[i]),
        forall|i: int|
            0 <= i < s.len() && !eq_ignore_ascii_case(s[i].subgroup_guid, SUB_SLEEP_GUID@)
                ==> aligned_settings(s).contains(#[trigger] s[i]),
    decreases s.len(),
{
    reveal(Seq::filter);
    if s.len() > 0 {
        law_selection_by_subgroup(s.drop_last());
    }
    assert forall|i: int|
        0 <= i < s.len() && eq_ignore_ascii_case(s[i].subgroup_guid, SUB_PROCESSOR_GUID@)
            implies processor_settings(s).contains(#[trigger] s[i]) by {
        s.lemma_filter_contains(in_processor(), i);
    }
    assert forall|i: int|
        0 <= i < s.len() && !eq_ignore_ascii_case(s[i].subgroup_guid, SUB_SLEEP_GUID@)
            implies aligned_settings(s).contains(#[trigger] s[i]) by {
        s.lemma_filter_contains(outside_sleep(), i);
    }
}

/// A DC index line that follows a subgroup line and a setting line yields
/// one setting more, carrying that subgroup, that setting and exactly the
/// value that its hexadecimal digits write, whatever the value (zero
/// included); the settings found before are kept as they were.
pub proof fn law_dc_value_recorded(ls: Seq<Seq<char>>, l: Seq<char>, h: Seq<char>)
    requires
        dc_scan(ls).subgroup is Some,
        dc_scan(ls).setting is Some,
        capture(Pattern::SubgroupGuid, l) is None,
        capture(Pattern::SettingGuid, l) is None,
        capture(Pattern::DcIndex, l) == Some(h),
        hex_u32(h) is Some,
    ensures
        dc_scan(ls.push(l)).found.len() == dc_scan(ls).found.len() + 1,
        dc_scan(ls.push(l)).found.take(dc_scan(ls).found.len() as int) == dc_scan(ls).found,
        dc_scan(ls.push(l)).found.last().subgroup_guid == dc_scan(ls).subgroup->0,
        dc_scan(ls.push(l)).found.last().setting_guid == dc_scan(ls).setting->0,
        dc_scan(ls.push(l)).found.last().dc_value as nat == hex_value(h),
{
    assert(ls.push(l).drop_last() == ls);
    assert(ls.push(l).last() == l);
    let f = dc_scan(ls).found;
    assert(dc_scan(ls.push(l)).found.take(f.len() as int) =~= f);
}

/// 16 to the power `n`.
pub open spec fn pow16(n: nat) -> nat
    decreases n,
{
    if n == 0 {
        1
    } else {
        16 * pow16((n - 1) as nat)
    }
}

proof fn lemma_hex_value_bound(h: Seq<char>)
    requires
        forall|i: int| 0 <= i < h.len() ==> is_hex_digit(#[trigger] h[i]),
    ensures
        hex_value(h) < pow16(h.len()),
        (forall|i: int| 0 <= i < h.len() ==> #[trigger] h[i] == '0') ==> hex_value(h) == 0,
    decreases h.len(),
{
    if h.len() > 0 {
        let d = h.drop_last();
        assert forall|i: int| 0 <= i < d.len() implies is_hex_digit(#[trigger] d[i]) by {
            assert(d[i] == h[i]);
        }
        lemma_hex_value_bound(d);
        assert(is_hex_digit(h[h.len() - 1]));
        let a = hex_value(d);
        let b = hex_digit_value(h.last());
        let p = pow16(d.len());
        assert(b < 16);
        assert(a * 16 + b < 16 * p) by (nonlinear_arith)
            requires
                a < p,
                b < 16,
        ;
        if forall|i: int| 0 <= i < h.len() ==> #[trigger] h[i] == '0' {
            assert forall|i: int| 0 <= i < d.len() implies #[trigger] d[i] == '0' by {
                assert(d[i] == h[i]);
            }
            assert(h.last() == h[h.len() - 1]);
        }
    }
}

/// One to eight hexadecimal digits always give a value that fits in a `u32`:
/// the number they write, and zero for digits that are all `0`.
pub proof fn law_hex_digits_value(h: Seq<char>)
    requires
        0 < h.len() <= 8,
        forall|i: int| 0 <= i < h.len() ==> is_hex_digit(#[trigger] h[i]),
    ensures
        hex_u32(h) is Some,
        hex_u32(h)->0 as nat == hex_value(h),
        (forall|i: int| 0 <= i < h.len() ==> #[trigger] h[i] == '0') ==> hex_u32(h) == Some(0u32),
{
    lemma_hex_value_bound(h);
    reveal_with_fuel(pow16, 9);
    assert(pow16(8) == 0x1_0000_0000);
    assert(pow16(h.len()) <= pow16(8)) by {
        lemma_pow16_mono(h.len(), 8);
    }
}

proof fn lemma_pow16_mono(a: nat, b: nat)
    requires
        a <= b,
    ensures
        pow16(a) <= pow16(b),
    decreases b,
{
    if a < b {
        lemma_pow16_mono(a, (b - 1) as nat);
    }
}
} // verus!
