//! Aligning the active plan's settings (all but the Sleep subgroup's) on AC
//! with their DC values:
//! the commands, and the tally of what succeeded.
use vstd::prelude::*;
use crate::text::{decimal, push_decimal, string_views};
use crate::command::{CommandLine, command_words};
use crate::powercfg::{DcSetting, DEFAULT_BALANCED_GUID, powercfg_words, set_active_command};

verus! {

/// At most this many messages are kept about one alignment.
pub const MESSAGE_LIMIT: usize = 20;

/// `messages` with `m` added, unless the limit is reached.
pub open spec fn add_message(messages: Seq<Seq<char>>, m: Seq<char>) -> Seq<Seq<char>> {
    if messages.len() < 20 {
        messages.push(m)
    } else {
        messages
    }
}

/// However many messages are added, at most 20 are kept.
pub proof fn law_messages_bounded(messages: Seq<Seq<char>>, m: Seq<char>)
    requires
        messages.len() <= 20,
    ensures
        add_message(messages, m).len() <= 20,
        messages.len() < 20 ==> add_message(messages, m).len() == messages.len() + 1,
{
}

/// What has been done so far in an alignment.
pub struct OptimizeProgress {
    pub updated: u32,
    pub failed: u32,
    pub messages: Vec<String>,
}

/// The message for a baseline that could not be saved.
pub open spec fn baseline_failure_message(error: Seq<char>) -> Seq<char> {
    "\u{4fdd}\u{5b58}\u{57fa}\u{51c6}\u{5931}\u{8d25}: "@ + error
}

/// The message for a setting that could not be written.
pub open spec fn setting_failure_message(subgroup: Seq<char>, setting: Seq<char>, error: Seq<char>) -> Seq<
    char,
> {
    "\u{8bbe}\u{7f6e}\u{5931}\u{8d25}: subgroup="@ + subgroup + " setting="@ + setting + " err="@
        + error
}

impl OptimizeProgress {
    /// Nothing done yet.
    pub fn new() -> (p: OptimizeProgress)
        ensures
            p.updated == 0,
            p.failed == 0,
            p.messages@.len() == 0,
    {
        OptimizeProgress { updated: 0, failed: 0, messages: Vec::new() }
    }

    /// Notes that the baseline file could not be written.
    pub fn record_baseline_failure(&mut self, error: &str)
        ensures
            final(self).updated == old(self).updated,
            final(self).failed == old(self).failed,
            string_views(final(self).messages@) == add_message(
                string_views(old(self).messages@),
                baseline_failure_message(error@),
            ),
    {
        if self.messages.len() < MESSAGE_LIMIT {
            let mut m = String::new();
            m.append("\u{4fdd}\u{5b58}\u{57fa}\u{51c6}\u{5931}\u{8d25}: ");
            m.append(error);
            let ghost before = string_views(self.messages@);
            self.messages.push(m);
            assert(string_views(self.messages@) == before.push(m@));
        }
    }

    /// Notes how writing the AC value of `setting` went.
    pub fn record_setting_outcome(&mut self, setting: &DcSetting, outcome: &Result<String, String>)
        requires
            outcome is Ok ==> old(self).updated < u32::MAX,
            outcome is Err ==> old(self).failed < u32::MAX,
        ensures
            match outcome {
                Ok(_) => {
                    &&& final(self).updated == old(self).updated + 1
                    &&& final(self).failed == old(self).failed
                    &&& final(self).messages@ == old(self).messages@
                },
                Err(e) => {
                    &&& final(self).updated == old(self).updated
                    &&& final(self).failed == old(self).failed + 1
                    &&& string_views(final(self).messages@) == add_message(
                        string_views(old(self).messages@),
                        setting_failure_message(
                            setting.subgroup_guid@,
                            setting.setting_guid@,
                            e@,
                        ),
                    )
                },
            },
    {
        match outcome {
            Ok(_) => {
                self.updated = self.updated + 1;
            },
            Err(e) => {
                self.failed = self.failed + 1;
                if self.messages.len() < MESSAGE_LIMIT {
                    let mut m = String::new();
                    m.append("\u{8bbe}\u{7f6e}\u{5931}\u{8d25}: subgroup=");
                    m.append(setting.subgroup_guid.as_str());
                    m.append(" setting=");
                    m.append(setting.setting_guid.as_str());
                    m.append(" err=");
                    m.append(e.as_str());
                    let ghost before = string_views(self.messages@);
                    self.messages.push(m);
                    assert(string_views(self.messages@) == before.push(m@));
                }
            },
        }
    }
}

/// The words of `powercfg /setacvalueindex <scheme> <subgroup> <setting>
/// <dc value>`.
pub open spec fn set_ac_value_words(scheme: Seq<char>, d: crate::powercfg::DcSettingModel) -> (
    Seq<char>,
    Seq<Seq<char>>,
) {
    (
        "powercfg"@,
        seq!["/setacvalueindex"@, scheme, d.subgroup_guid, d.setting_guid, decimal(d.dc_value as nat)],
    )
}

/// The command that writes a setting's DC value as its AC value.
pub fn set_ac_value_command(scheme_guid: &str, setting: &DcSetting) -> (c: CommandLine)
    ensures
        command_words(&c) == set_ac_value_words(scheme_guid@, setting@),
        !c.dynamic,
{
    let mut value = String::new();
    push_decimal(&mut value, setting.dc_value as u64);
    let args = vec![
        "/setacvalueindex".to_owned(),
        scheme_guid.to_owned(),
        setting.subgroup_guid.clone(),
        setting.setting_guid.clone(),
        value,
    ];
    let c = CommandLine { program: "powercfg".to_owned(), args, dynamic: false };
    assert(string_views(c.args@) == set_ac_value_words(scheme_guid@, setting@).1);
    c
}

/// The commands of an alignment, in the order they run: the AC write of
/// each setting, in order, and then making the plan active again so that
/// the new values apply.
pub fn alignment_commands(scheme_guid: &str, settings: &Vec<DcSetting>) -> (cs: Vec<CommandLine>)
    ensures
        cs@.len() == settings@.len() + 1,
        forall|i: int|
            0 <= i < settings@.len() ==> command_words(&#[trigger] cs@[i]) == set_ac_value_words(
                scheme_guid@,
                settings@[i]@,
            ) && !cs@[i].dynamic,
        command_words(&cs@[settings@.len() as int]) == powercfg_words(
            seq!["/setactive"@, scheme_guid@],
        ),
        !cs@[settings@.len() as int].dynamic,
{
    let mut cs: Vec<CommandLine> = Vec::new();
    let mut i: usize = 0;
    while i < settings.len()
        invariant
            i <= settings@.len(),
            cs@.len() == i,
            forall|k: int|
                0 <= k < i ==> command_words(&#[trigger] cs@[k]) == set_ac_value_words(
                    scheme_guid@,
                    settings@[k]@,
                ) && !cs@[k].dynamic,
        decreases settings@.len() - i,
    {
        let c = set_ac_value_command(scheme_guid, &settings[i]);
        cs.push(c);
        i = i + 1;
    }
    cs.push(set_active_command(scheme_guid));
    cs
}

/// The messages of a reset: that the default schemes were restored and that
/// the Balanced plan was made active.
pub fn reset_messages() -> (m: Vec<String>)
    ensures
        string_views(m@) == seq![
            "\u{5df2}\u{6267}\u{884c} powercfg /restoredefaultschemes"@,
            "\u{5df2}\u{5c1d}\u{8bd5}\u{5207}\u{6362}\u{5230}\u{5e73}\u{8861}\u{6a21}\u{5f0f}: "@
                + DEFAULT_BALANCED_GUID@,
        ],
{
    let mut second = String::new();
    second.append("\u{5df2}\u{5c1d}\u{8bd5}\u{5207}\u{6362}\u{5230}\u{5e73}\u{8861}\u{6a21}\u{5f0f}: ");
    second.append(DEFAULT_BALANCED_GUID);
    let m = vec!["\u{5df2}\u{6267}\u{884c} powercfg /restoredefaultschemes".to_owned(), second];
    assert(string_views(m@) == seq![
        "\u{5df2}\u{6267}\u{884c} powercfg /restoredefaultschemes"@,
        "\u{5df2}\u{5c1d}\u{8bd5}\u{5207}\u{6362}\u{5230}\u{5e73}\u{8861}\u{6a21}\u{5f0f}: "@
            + DEFAULT_BALANCED_GUID@,
    ]);
    m
}

} // verus!
