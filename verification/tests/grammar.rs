use powerplan::grammar::{capture_exec, Pattern};

const GUID: &str = "[0-9a-f]{8}-[0-9a-f]{4}-[0-9a-f]{4}-[0-9a-f]{4}-[0-9a-f]{12}";

fn patterns() -> Vec<(Pattern, String, usize)> {
    vec![
        (Pattern::Guid, format!("(?i)({})", GUID), 1),
        (Pattern::ParenthesizedName, r"\(([^)]+)\)".to_string(), 1),
        (Pattern::SubgroupGuid, format!(r"(?i)(子组 GUID|Subgroup GUID):\s*({})", GUID), 2),
        (Pattern::SettingGuid, format!(r"(?i)(电源设置 GUID|Power Setting GUID):\s*({})", GUID), 2),
        (
            Pattern::SubgroupId,
            r"(?i)(Subgroup GUID|\u{5b50}\u{7ec4} GUID):\s*([0-9a-f-]{36})".to_string(),
            2,
        ),
        (
            Pattern::SettingId,
            r"(?i)(Power Setting GUID|\u{7535}\u{6e90}\u{8bbe}\u{7f6e} GUID):\s*([0-9a-f-]{36})"
                .to_string(),
            2,
        ),
        (
            Pattern::AcIndex,
            r"(?i)(Current AC Power Setting Index|\u{5f53}\u{524d}\u{4ea4}\u{6d41}\u{7535}\u{6e90}\u{8bbe}\u{7f6e}\u{7d22}\u{5f15}):\s*0x([0-9a-f]+)".to_string(),
            2,
        ),
        (
            Pattern::DcIndex,
            r"(?i)(当前直流电源设置索引|Current DC Power Setting Index):\s*0x([0-9a-f]+)".to_string(),
            2,
        ),
        (Pattern::KeyName, r"(?i)NAME:\s*([^\s\r\n]+)".to_string(), 1),
        (Pattern::StartType, r"(?i)START_TYPE\s*:\s*(\d+)".to_string(), 1),
        (Pattern::State, r"(?i)STATE\s*:\s*\d+\s+(\w+)".to_string(), 1),
    ]
}

fn ours(p: Pattern, s: &str) -> Option<String> {
    let cs: Vec<char> = s.chars().collect();
    capture_exec(p, &cs).map(|v| v.into_iter().collect())
}

fn theirs(re: &regex::Regex, group: usize, s: &str) -> Option<String> {
    re.captures(s).map(|c| c.get(group).unwrap().as_str().to_string())
}

const TOKENS: &[&str] = &[
    "Subgroup GUID", "SUBGROUP guid", "ſubgroup GUID", "子组 GUID", "Power Setting GUID",
    "power ſetting guid", "电源设置 GUID", "Current AC Power Setting Index",
    "Current DC Power Setting Index", "CURRENT DC POWER SETTING INDEX", "当前直流电源设置索引",
    "当前交流电源设置索引", ":", ": ", ":\t", " ", "  ", "\u{3000}", "\u{a0}", "\r", "\n", "0x",
    "0X", "0x0000", "64", "ffffffff", "100000000", "1F", "g", "-", "54533251-82be-4824-96c1-47b60b740d00",
    "381B4222-F694-41F0-9685-FF5BB260DF2E", "381b4222f69441f09685ff5bb260df2e----", "(", ")", "(Balanced)",
    "*", "NAME:", "name:", "Name", "LITSSVC", "STATE", "ſtate", "START_TYPE", "ſtart_type", "2", "4",
    "٣", "१२", "RUNNING", "running", "RUNNINGé", "é", "_", "Kelvin", "K", "\u{85}", "x", "DISPLAY_NAME:",
];

struct Lcg(u64);

impl Lcg {
    fn next(&mut self) -> usize {
        self.0 = self.0.wrapping_mul(6364136223846793005).wrapping_add(1442695040888963407);
        (self.0 >> 33) as usize
    }
}

fn corpus() -> Vec<String> {
    let mut out = vec![
        "Subgroup GUID: 54533251-82be-4824-96c1-47b60b740d00  (Processor power management)".to_string(),
        "  Power Setting GUID: 893dee8e-2bef-41e0-89c6-b55d0929964c  (Minimum processor state)"
            .to_string(),
        "    Current AC Power Setting Index: 0x00000064".to_string(),
        "    Current DC Power Setting Index: 0x00000005".to_string(),
        "Power Scheme GUID: 381b4222-f694-41f0-9685-ff5bb260df2e  (Balanced) *".to_string(),
        "        STATE              : 4  RUNNING".to_string(),
        "        START_TYPE         : 2   AUTO_START".to_string(),
        "[SC] GetServiceKeyName SUCCESS\r\nName = LITSSVC".to_string(),
        "DISPLAY_NAME: x\nNAME: LITSSVC\n".to_string(),
        "((a)".to_string(),
        "()".to_string(),
        "(no close".to_string(),
    ];
    let mut rng = Lcg(0x5eed);
    for _ in 0..4000 {
        let n = 1 + rng.next() % 8;
        let mut s = String::new();
        for _ in 0..n {
            s.push_str(TOKENS[rng.next() % TOKENS.len()]);
        }
        out.push(s);
    }
    out
}

#[test]
fn patterns_agree_with_regex_engine() {
    let corpus = corpus();
    for (p, source, group) in patterns() {
        let re = regex::Regex::new(&source).unwrap();
        for s in &corpus {
            assert_eq!(ours(p, s), theirs(&re, group, s), "pattern {} on {:?}", source, s);
        }
    }
}

#[test]
fn case_folding_of_literal_text() {
    assert_eq!(
        ours(Pattern::SubgroupGuid, "ſUBGROUP guid:54533251-82BE-4824-96C1-47B60B740D00"),
        Some("54533251-82BE-4824-96C1-47B60B740D00".to_string())
    );
    assert_eq!(ours(Pattern::DcIndex, "Current DC Power Setting Index: 0Xff"), Some("ff".to_string()));
    assert_eq!(ours(Pattern::State, "ſtate : 4 RUNNING"), Some("RUNNING".to_string()));
}

#[test]
fn unicode_digits_and_words() {
    assert_eq!(ours(Pattern::StartType, "START_TYPE : \u{663}"), Some("\u{663}".to_string()));
    assert_eq!(ours(Pattern::State, "STATE : 4 RUNNINGé"), Some("RUNNINGé".to_string()));
    assert_eq!(ours(Pattern::State, "STATE : 4RUNNING"), None);
}
