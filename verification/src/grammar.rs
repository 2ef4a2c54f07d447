//! The grammar of the lines that `powercfg` and `sc` print: each pattern is
//! stated as the set of positions where it matches and the span that it
//! captures there, and a search gives the capture of the leftmost match.
//!
//! Letters of a pattern's literal text match without regard to case, as
//! Unicode simple case folding relates them: an ASCII letter matches its
//! other case, `s` also matches `ſ` (U+017F) and `k` also matches the Kelvin
//! sign (U+212A).
use vstd::prelude::*;
use crate::text::{is_white_space, white_space, is_hex_digit};
use crate::classes::{is_decimal_number, decimal_number, word_character, is_word_character};

verus! {

/// A class of characters that a pattern repeats.
#[derive(Clone, Copy, PartialEq, Eq)]
pub enum CharClass {
    /// `\s`
    WhiteSpace,
    /// `[^\s\r\n]`
    NotWhiteSpace,
    /// `[0-9a-f]` without regard to case
    HexDigit,
    /// `\d`
    DecimalNumber,
    /// `\w`
    Word,
    /// `[^)]`
    NotCloseParen,
}

/// Whether `c` is in `class`.
pub open spec fn in_class(class: CharClass, c: char) -> bool {
    match class {
        CharClass::WhiteSpace => is_white_space(c),
        CharClass::NotWhiteSpace => !is_white_space(c),
        CharClass::HexDigit => is_hex_digit(c),
        CharClass::DecimalNumber => is_decimal_number(c),
        CharClass::Word => word_character(c),
        CharClass::NotCloseParen => c != ')',
    }
}

fn in_class_exec(class: CharClass, c: char) -> (b: bool)
    ensures
        b == in_class(class, c),
{
    match class {
        CharClass::WhiteSpace => white_space(c),
        CharClass::NotWhiteSpace => !white_space(c),
        CharClass::HexDigit => ('0' <= c && c <= '9') || ('a' <= c && c <= 'f') || ('A' <= c
            && c <= 'F'),
        CharClass::DecimalNumber => decimal_number(c),
        CharClass::Word => is_word_character(c),
        CharClass::NotCloseParen => c != ')',
    }
}

/// The end of the longest run of `class` characters in `s` from `i`.
pub open spec fn run_end(s: Seq<char>, i: int, class: CharClass) -> int
    decreases s.len() - i,
{
    if 0 <= i < s.len() && in_class(class, s[i]) {
        run_end(s, i + 1, class)
    } else {
        i
    }
}

pub proof fn lemma_run_end(s: Seq<char>, i: int, class: CharClass)
    requires
        0 <= i <= s.len(),
    ensures
        i <= run_end(s, i, class) <= s.len(),
        forall|k: int| i <= k < run_end(s, i, class) ==> in_class(class, #[trigger] s[k]),
        run_end(s, i, class) < s.len() ==> !in_class(class, s[run_end(s, i, class)]),
    decreases s.len() - i,
{
    if i < s.len() && in_class(class, s[i]) {
        lemma_run_end(s, i + 1, class);
    }
}

/// The end of the longest run of `class` characters in `s` from `i`.
pub fn run_end_exec(s: &[char], i: usize, class: CharClass) -> (r: usize)
    requires
        i <= s@.len(),
    ensures
        r == run_end(s@, i as int, class),
        i <= r <= s@.len(),
{
    let mut j = i;
    while j < s.len() && in_class_exec(class, s[j])
        invariant
            i <= j <= s@.len(),
            run_end(s@, i as int, class) == run_end(s@, j as int, class),
        decreases s@.len() - j,
    {
        j = j + 1;
    }
    proof {
        lemma_run_end(s@, i as int, class);
    }
    j
}

/// `c` matches the pattern character `lit` without regard to case.
pub open spec fn fold_eq(c: char, lit: char) -> bool {
    ||| c == lit
    ||| ('a' <= lit && lit <= 'z' && c as u32 + 32 == lit as u32)
    ||| (lit == 's' && c == '\u{17f}')
    ||| (lit == 'k' && c == '\u{212a}')
}

fn fold_eq_exec(c: char, lit: char) -> (b: bool)
    ensures
        b == fold_eq(c, lit),
{
    c == lit || ('a' <= lit && lit <= 'z' && c as u32 + 32 == lit as u32) || (lit == 's' && c
        == '\u{17f}') || (lit == 'k' && c == '\u{212a}')
}

/// The literal text `lit` (written in lower case) matches `s` at `p`.
pub open spec fn literal_at(s: Seq<char>, p: int, lit: Seq<char>) -> bool {
    &&& 0 <= p
    &&& p + lit.len() <= s.len()
    &&& forall|j: int| 0 <= j < lit.len() ==> fold_eq(s[p + j], #[trigger] lit[j])
}

fn literal_at_exec(s: &[char], p: usize, lit: &[char]) -> (b: bool)
    requires
        p <= s@.len(),
    ensures
        b == literal_at(s@, p as int, lit@),
{
    if lit.len() > s.len() - p {
        return false;
    }
    let mut j: usize = 0;
    while j < lit.len()
        invariant
            j <= lit@.len(),
            p + lit@.len() <= s@.len(),
            s@.len() == s.len(),
            forall|k: int| 0 <= k < j ==> fold_eq(s@[p + k], #[trigger] lit@[k]),
        decreases lit@.len() - j,
    {
        if !fold_eq_exec(s[p + j], lit[j]) {
            return false;
        }
        j = j + 1;
    }
    true
}

/// A GUID in its canonical text form, `xxxxxxxx-xxxx-xxxx-xxxx-xxxxxxxxxxxx`
/// with hexadecimal digits of either case.
pub open spec fn is_guid(g: Seq<char>) -> bool {
    &&& g.len() == 36
    &&& forall|j: int|
        0 <= j < 36 ==> if j == 8 || j == 13 || j == 18 || j == 23 {
            #[trigger] g[j] == '-'
        } else {
            is_hex_digit(g[j])
        }
}

/// Thirty-six characters that are hexadecimal digits or `-`.
pub open spec fn is_loose_guid(g: Seq<char>) -> bool {
    &&& g.len() == 36
    &&& forall|j: int| 0 <= j < 36 ==> is_hex_digit(#[trigger] g[j]) || g[j] == '-'
}

/// A GUID (strict, or loose when `strict` is false) stands in `s` at `q`.
pub open spec fn guid_at(s: Seq<char>, q: int, strict: bool) -> bool {
    &&& 0 <= q
    &&& q + 36 <= s.len()
    &&& if strict {
        is_guid(s.subrange(q, q + 36))
    } else {
        is_loose_guid(s.subrange(q, q + 36))
    }
}

fn guid_at_exec(s: &[char], q: usize, strict: bool) -> (b: bool)
    requires
        q <= s@.len(),
    ensures
        b == guid_at(s@, q as int, strict),
{
    if s.len() - q < 36 {
        return false;
    }
    let ghost g = s@.subrange(q as int, q + 36);
    let mut j: usize = 0;
    while j < 36
        invariant
            j <= 36,
            q + 36 <= s@.len(),
            s@.len() == s.len(),
            g == s@.subrange(q as int, q + 36),
            forall|k: int|
                0 <= k < j ==> if strict {
                    if k == 8 || k == 13 || k == 18 || k == 23 {
                        #[trigger] g[k] == '-'
                    } else {
                        is_hex_digit(g[k])
                    }
                } else {
                    is_hex_digit(g[k]) || g[k] == '-'
                },
        decreases 36 - j,
    {
        let c = s[q + j];
        assert(g[j as int] == c);
        let hex = ('0' <= c && c <= '9') || ('a' <= c && c <= 'f') || ('A' <= c && c <= 'F');
        let ok = if strict {
            if j == 8 || j == 13 || j == 18 || j == 23 {
                c == '-'
            } else {
                hex
            }
        } else {
            hex || c == '-'
        };
        if !ok {
            return false;
        }
        j = j + 1;
    }
    true
}

/// The patterns of the grammar. Each captures one span.
#[derive(Clone, Copy, PartialEq, Eq)]
pub enum Pattern {
    /// `(?i)([0-9a-f]{8}-[0-9a-f]{4}-[0-9a-f]{4}-[0-9a-f]{4}-[0-9a-f]{12})`
    Guid,
    /// `\(([^)]+)\)`
    ParenthesizedName,
    /// `(?i)(子组 GUID|Subgroup GUID):\s*(<a strict GUID>)`
    SubgroupGuid,
    /// `(?i)(电源设置 GUID|Power Setting GUID):\s*(<a strict GUID>)`
    SettingGuid,
    /// `(?i)(Subgroup GUID|子组 GUID):\s*([0-9a-f-]{36})`
    SubgroupId,
    /// `(?i)(Power Setting GUID|电源设置 GUID):\s*([0-9a-f-]{36})`
    SettingId,
    /// `(?i)(Current AC Power Setting Index|当前交流电源设置索引):\s*0x([0-9a-f]+)`
    AcIndex,
    /// `(?i)(当前直流电源设置索引|Current DC Power Setting Index):\s*0x([0-9a-f]+)`
    DcIndex,
    /// `(?i)NAME:\s*([^\s\r\n]+)`
    KeyName,
    /// `(?i)START_TYPE\s*:\s*(\d+)`
    StartType,
    /// `(?i)STATE\s*:\s*\d+\s+(\w+)`
    State,
}

pub open spec fn subgroup_label_en() -> Seq<char> {
    "subgroup guid"@
}

pub open spec fn subgroup_label_zh() -> Seq<char> {
    "\u{5b50}\u{7ec4} guid"@
}

pub open spec fn setting_label_en() -> Seq<char> {
    "power setting guid"@
}

pub open spec fn setting_label_zh() -> Seq<char> {
    "\u{7535}\u{6e90}\u{8bbe}\u{7f6e} guid"@
}

pub open spec fn ac_label_en() -> Seq<char> {
    "current ac power setting index"@
}

pub open spec fn ac_label_zh() -> Seq<char> {
    "\u{5f53}\u{524d}\u{4ea4}\u{6d41}\u{7535}\u{6e90}\u{8bbe}\u{7f6e}\u{7d22}\u{5f15}"@
}

pub open spec fn dc_label_en() -> Seq<char> {
    "current dc power setting index"@
}

pub open spec fn dc_label_zh() -> Seq<char> {
    "\u{5f53}\u{524d}\u{76f4}\u{6d41}\u{7535}\u{6e90}\u{8bbe}\u{7f6e}\u{7d22}\u{5f15}"@
}

pub open spec fn key_name_label() -> Seq<char> {
    "name:"@
}

pub open spec fn start_type_label() -> Seq<char> {
    "start_type"@
}

pub open spec fn state_label() -> Seq<char> {
    "state"@
}

/// Where the value after `<lit>:\s*` begins, when `lit` and the colon match
/// at `p`.
pub open spec fn after_label(s: Seq<char>, p: int, lit: Seq<char>) -> Option<int> {
    if literal_at(s, p, lit) && p + lit.len() < s.len() && s[p + lit.len()] == ':' {
        Some(run_end(s, p + lit.len() + 1, CharClass::WhiteSpace))
    } else {
        None
    }
}

/// `<lit>:\s*(<GUID>)` at `p`.
pub open spec fn labeled_guid_at(s: Seq<char>, p: int, lit: Seq<char>, strict: bool) -> Option<
    (int, int),
> {
    match after_label(s, p, lit) {
        Some(q) => if guid_at(s, q, strict) {
            Some((q, q + 36))
        } else {
            None
        },
        None => None,
    }
}

/// `<lit>:\s*0x([0-9a-f]+)` at `p`.
pub open spec fn labeled_hex_at(s: Seq<char>, p: int, lit: Seq<char>) -> Option<(int, int)> {
    match after_label(s, p, lit) {
        Some(q) => if q + 2 < s.len() && s[q] == '0' && fold_eq(s[q + 1], 'x') && is_hex_digit(
            s[q + 2],
        ) {
            Some((q + 2, run_end(s, q + 2, CharClass::HexDigit)))
        } else {
            None
        },
        None => None,
    }
}

/// The first alternative's match when it has one, else the second's.
pub open spec fn either(a: Option<(int, int)>, b: Option<(int, int)>) -> Option<(int, int)> {
    if a is Some {
        a
    } else {
        b
    }
}

/// The span that `pattern` captures when it matches `s` at `p`.
pub open spec fn match_at(pattern: Pattern, s: Seq<char>, p: int) -> Option<(int, int)> {
    match pattern {
        Pattern::Guid => if guid_at(s, p, true) {
            Some((p, p + 36))
        } else {
            None
        },
        Pattern::ParenthesizedName => {
            if 0 <= p < s.len() && s[p] == '(' {
                let e = run_end(s, p + 1, CharClass::NotCloseParen);
                if p + 1 < e < s.len() {
                    Some((p + 1, e))
                } else {
                    None
                }
            } else {
                None
            }
        },
        Pattern::SubgroupGuid => either(
            labeled_guid_at(s, p, subgroup_label_zh(), true),
            labeled_guid_at(s, p, subgroup_label_en(), true),
        ),
        Pattern::SettingGuid => either(
            labeled_guid_at(s, p, setting_label_zh(), true),
            labeled_guid_at(s, p, setting_label_en(), true),
        ),
        Pattern::SubgroupId => either(
            labeled_guid_at(s, p, subgroup_label_en(), false),
            labeled_guid_at(s, p, subgroup_label_zh(), false),
        ),
        Pattern::SettingId => either(
            labeled_guid_at(s, p, setting_label_en(), false),
            labeled_guid_at(s, p, setting_label_zh(), false),
        ),
        Pattern::AcIndex => either(
            labeled_hex_at(s, p, ac_label_en()),
            labeled_hex_at(s, p, ac_label_zh()),
        ),
        Pattern::DcIndex => either(
            labeled_hex_at(s, p, dc_label_zh()),
            labeled_hex_at(s, p, dc_label_en()),
        ),
        Pattern::KeyName => {
            if literal_at(s, p, key_name_label()) {
                let q = run_end(s, p + 5, CharClass::WhiteSpace);
                if q < s.len() && !is_white_space(s[q]) {
                    Some((q, run_end(s, q, CharClass::NotWhiteSpace)))
                } else {
                    None
                }
            } else {
                None
            }
        },
        Pattern::StartType => {
            if literal_at(s, p, start_type_label()) {
                let q1 = run_end(s, p + 10, CharClass::WhiteSpace);
                if q1 < s.len() && s[q1] == ':' {
                    let q2 = run_end(s, q1 + 1, CharClass::WhiteSpace);
                    if q2 < s.len() && is_decimal_number(s[q2]) {
                        Some((q2, run_end(s, q2, CharClass::DecimalNumber)))
                    } else {
                        None
                    }
                } else {
                    None
                }
            } else {
                None
            }
        },
        Pattern::State => {
            if literal_at(s, p, state_label()) {
                let q1 = run_end(s, p + 5, CharClass::WhiteSpace);
                if q1 < s.len() && s[q1] == ':' {
                    let q2 = run_end(s, q1 + 1, CharClass::WhiteSpace);
                    if q2 < s.len() && is_decimal_number(s[q2]) {
                        let q3 = run_end(s, q2, CharClass::DecimalNumber);
                        if q3 < s.len() && is_white_space(s[q3]) {
                            let q4 = run_end(s, q3, CharClass::WhiteSpace);
                            if q4 < s.len() && word_character(s[q4]) {
                                Some((q4, run_end(s, q4, CharClass::Word)))
                            } else {
                                None
                            }
                        } else {
                            None
                        }
                    } else {
                        None
                    }
                } else {
                    None
                }
            } else {
                None
            }
        },
    }
}

/// The leftmost match of `pattern` in `s` at or after `i`.
pub open spec fn first_match_from(pattern: Pattern, s: Seq<char>, i: int) -> Option<(int, int)>
    decreases s.len() + 1 - i,
{
    if i < 0 || i > s.len() {
        None
    } else {
        match match_at(pattern, s, i) {
            Some(span) => Some(span),
            None => first_match_from(pattern, s, i + 1),
        }
    }
}

/// The span captured by the leftmost match of `pattern` in `s`.
pub open spec fn first_match(pattern: Pattern, s: Seq<char>) -> Option<(int, int)> {
    first_match_from(pattern, s, 0)
}

/// The text captured by the leftmost match of `pattern` in `s`.
pub open spec fn capture(pattern: Pattern, s: Seq<char>) -> Option<Seq<char>> {
    match first_match(pattern, s) {
        Some((a, b)) => Some(s.subrange(a, b)),
        None => None,
    }
}


fn after_label_exec(s: &[char], p: usize, lit: &[char]) -> (r: Option<usize>)
    requires
        p <= s@.len(),
    ensures
        r matches Some(q) ==> after_label(s@, p as int, lit@) == Some(q as int) && q <= s@.len(),
        r is None ==> after_label(s@, p as int, lit@) is None,
{
    if literal_at_exec(s, p, lit) && lit.len() < s.len() - p && s[p + lit.len()] == ':' {
        Some(run_end_exec(s, p + lit.len() + 1, CharClass::WhiteSpace))
    } else {
        None
    }
}

fn labeled_guid_at_exec(s: &[char], p: usize, lit: &[char], strict: bool) -> (r: Option<
    (usize, usize),
>)
    requires
        p <= s@.len(),
    ensures
        r matches Some((a, b)) ==> labeled_guid_at(s@, p as int, lit@, strict) == Some(
            (a as int, b as int),
        ),
        r is None ==> labeled_guid_at(s@, p as int, lit@, strict) is None,
        r matches Some((a, b)) ==> a <= b <= s@.len(),
{
    assert(s@.len() == s.len());
    match after_label_exec(s, p, lit) {
        Some(q) => if guid_at_exec(s, q, strict) {
            Some((q, q + 36))
        } else {
            None
        },
        None => None,
    }
}

fn labeled_hex_at_exec(s: &[char], p: usize, lit: &[char]) -> (r: Option<(usize, usize)>)
    requires
        p <= s@.len(),
    ensures
        r matches Some((a, b)) ==> labeled_hex_at(s@, p as int, lit@) == Some(
            (a as int, b as int),
        ),
        r is None ==> labeled_hex_at(s@, p as int, lit@) is None,
        r matches Some((a, b)) ==> a <= b <= s@.len(),
{
    match after_label_exec(s, p, lit) {
        Some(q) => if q < s.len() && 2 < s.len() - q && s[q] == '0' && fold_eq_exec(s[q + 1], 'x')
            && in_class_exec(CharClass::HexDigit, s[q + 2]) {
            Some((q + 2, run_end_exec(s, q + 2, CharClass::HexDigit)))
        } else {
            None
        },
        None => None,
    }
}

fn either_exec(a: Option<(usize, usize)>, b: Option<(usize, usize)>) -> (r: Option<(usize, usize)>)
    ensures
        r == (if a is Some { a } else { b }),
{
    if a.is_some() {
        a
    } else {
        b
    }
}

/// The optional span as integers.
pub open spec fn span_view(r: Option<(usize, usize)>) -> Option<(int, int)> {
    match r {
        Some((a, b)) => Some((a as int, b as int)),
        None => None,
    }
}

/// The span that `pattern` captures when it matches `s` at `p`.
pub fn match_at_exec(pattern: Pattern, s: &[char], p: usize) -> (r: Option<(usize, usize)>)
    requires
        p <= s@.len(),
    ensures
        span_view(r) == match_at(pattern, s@, p as int),
        r matches Some((a, b)) ==> a <= b <= s@.len(),
{
    assert(s@.len() == s.len());
    let r = match pattern {
        Pattern::Guid => if guid_at_exec(s, p, true) {
            Some((p, p + 36))
        } else {
            None
        },
        Pattern::ParenthesizedName => {
            if p < s.len() && s[p] == '(' {
                let e = run_end_exec(s, p + 1, CharClass::NotCloseParen);
                if p + 1 < e && e < s.len() {
                    Some((p + 1, e))
                } else {
                    None
                }
            } else {
                None
            }
        },
        Pattern::SubgroupGuid => {
            let zh = crate::text::to_chars("\u{5b50}\u{7ec4} guid");
            let en = crate::text::to_chars("subgroup guid");
            either_exec(
                labeled_guid_at_exec(s, p, zh.as_slice(), true),
                labeled_guid_at_exec(s, p, en.as_slice(), true),
            )
        },
        Pattern::SettingGuid => {
            let zh = crate::text::to_chars("\u{7535}\u{6e90}\u{8bbe}\u{7f6e} guid");
            let en = crate::text::to_chars("power setting guid");
            either_exec(
                labeled_guid_at_exec(s, p, zh.as_slice(), true),
                labeled_guid_at_exec(s, p, en.as_slice(), true),
            )
        },
        Pattern::SubgroupId => {
            let en = crate::text::to_chars("subgroup guid");
            let zh = crate::text::to_chars("\u{5b50}\u{7ec4} guid");
            either_exec(
                labeled_guid_at_exec(s, p, en.as_slice(), false),
                labeled_guid_at_exec(s, p, zh.as_slice(), false),
            )
        },
        Pattern::SettingId => {
            let en = crate::text::to_chars("power setting guid");
            let zh = crate::text::to_chars("\u{7535}\u{6e90}\u{8bbe}\u{7f6e} guid");
            either_exec(
                labeled_guid_at_exec(s, p, en.as_slice(), false),
                labeled_guid_at_exec(s, p, zh.as_slice(), false),
            )
        },
        Pattern::AcIndex => {
            let en = crate::text::to_chars("current ac power setting index");
            let zh = crate::text::to_chars(
                "\u{5f53}\u{524d}\u{4ea4}\u{6d41}\u{7535}\u{6e90}\u{8bbe}\u{7f6e}\u{7d22}\u{5f15}",
            );
            either_exec(
                labeled_hex_at_exec(s, p, en.as_slice()),
                labeled_hex_at_exec(s, p, zh.as_slice()),
            )
        },
        Pattern::DcIndex => {
            let zh = crate::text::to_chars(
                "\u{5f53}\u{524d}\u{76f4}\u{6d41}\u{7535}\u{6e90}\u{8bbe}\u{7f6e}\u{7d22}\u{5f15}",
            );
            let en = crate::text::to_chars("current dc power setting index");
            either_exec(
                labeled_hex_at_exec(s, p, zh.as_slice()),
                labeled_hex_at_exec(s, p, en.as_slice()),
            )
        },
        Pattern::KeyName => {
            let lit = crate::text::to_chars("name:");
            if literal_at_exec(s, p, lit.as_slice()) {
                proof {
                    reveal_strlit("name:");
                }
                let q = run_end_exec(s, p + 5, CharClass::WhiteSpace);
                if q < s.len() && !white_space(s[q]) {
                    Some((q, run_end_exec(s, q, CharClass::NotWhiteSpace)))
                } else {
                    None
                }
            } else {
                None
            }
        },
        Pattern::StartType => {
            let lit = crate::text::to_chars("start_type");
            if literal_at_exec(s, p, lit.as_slice()) {
                proof {
                    reveal_strlit("start_type");
                }
                let q1 = run_end_exec(s, p + 10, CharClass::WhiteSpace);
                if q1 < s.len() && s[q1] == ':' {
                    let q2 = run_end_exec(s, q1 + 1, CharClass::WhiteSpace);
                    if q2 < s.len() && decimal_number(s[q2]) {
                        Some((q2, run_end_exec(s, q2, CharClass::DecimalNumber)))
                    } else {
                        None
                    }
                } else {
                    None
                }
            } else {
                None
            }
        },
        Pattern::State => {
            let lit = crate::text::to_chars("state");
            if literal_at_exec(s, p, lit.as_slice()) {
                proof {
                    reveal_strlit("state");
                }
                let q1 = run_end_exec(s, p + 5, CharClass::WhiteSpace);
                if q1 < s.len() && s[q1] == ':' {
                    let q2 = run_end_exec(s, q1 + 1, CharClass::WhiteSpace);
                    if q2 < s.len() && decimal_number(s[q2]) {
                        let q3 = run_end_exec(s, q2, CharClass::DecimalNumber);
                        if q3 < s.len() && white_space(s[q3]) {
                            let q4 = run_end_exec(s, q3, CharClass::WhiteSpace);
                            if q4 < s.len() && is_word_character(s[q4]) {
                                Some((q4, run_end_exec(s, q4, CharClass::Word)))
                            } else {
                                None
                            }
                        } else {
                            None
                        }
                    } else {
                        None
                    }
                } else {
                    None
                }
            } else {
                None
            }
        },
    };
    r
}


/// The span captured by the leftmost match of `pattern` in `s`.
pub fn find_first(pattern: Pattern, s: &[char]) -> (r: Option<(usize, usize)>)
    ensures
        span_view(r) == first_match(pattern, s@),
        r matches Some((a, b)) ==> a <= b <= s@.len(),
{
    let mut p: usize = 0;
    while p <= s.len()
        invariant
            p <= s@.len() + 1,
            s@.len() == s.len(),
            first_match(pattern, s@) == first_match_from(pattern, s@, p as int),
        decreases s@.len() + 1 - p,
    {
        let r = match_at_exec(pattern, s, p);
        if r.is_some() {
            return r;
        }
        if p == s.len() {
            assert(first_match_from(pattern, s@, p + 1) is None);
            return None;
        }
        p = p + 1;
    }
    None
}

/// The text captured by the leftmost match of `pattern` in `s`.
pub fn capture_exec(pattern: Pattern, s: &[char]) -> (r: Option<Vec<char>>)
    ensures
        r matches Some(v) ==> capture(pattern, s@) == Some(v@),
        r is None ==> capture(pattern, s@) is None,
{
    match find_first(pattern, s) {
        Some((a, b)) => Some(crate::text::copy_range(s, a, b)),
        None => None,
    }
}


/// The leftmost match is a match: it starts at some position at or after
/// `i`, and no position before it matches.
pub proof fn lemma_first_match_is_match(pattern: Pattern, s: Seq<char>, i: int)
    ensures
        first_match_from(pattern, s, i) matches Some(span) ==> exists|p: int|
            #![trigger match_at(pattern, s, p)]
            i <= p <= s.len() && match_at(pattern, s, p) == Some(span) && forall|q: int|
                i <= q < p ==> match_at(pattern, s, q) is None,
    decreases s.len() + 1 - i,
{
    if 0 <= i <= s.len() && match_at(pattern, s, i) is None {
        lemma_first_match_is_match(pattern, s, i + 1);
        if let Some(span) = first_match_from(pattern, s, i) {
            let p = choose|p: int|
                #![trigger match_at(pattern, s, p)]
                i + 1 <= p <= s.len() && match_at(pattern, s, p) == Some(span) && forall|q: int|
                    i + 1 <= q < p ==> match_at(pattern, s, q) is None;
            assert(match_at(pattern, s, p) == Some(span));
        }
    }
}

/// Whatever the GUID pattern captures is a GUID in canonical form.
pub proof fn law_guid_capture_is_guid(s: Seq<char>)
    ensures
        capture(Pattern::Guid, s) matches Some(g) ==> is_guid(g),
{
    lemma_first_match_is_match(Pattern::Guid, s, 0);
}

/// Whatever the labelled-GUID patterns of `powercfg /query` capture is a GUID
/// in canonical form (or, for the looser patterns, 36 hex digits and dashes).
pub proof fn law_labeled_guid_capture(s: Seq<char>)
    ensures
        capture(Pattern::SubgroupGuid, s) matches Some(g) ==> is_guid(g),
        capture(Pattern::SettingGuid, s) matches Some(g) ==> is_guid(g),
        capture(Pattern::SubgroupId, s) matches Some(g) ==> is_loose_guid(g),
        capture(Pattern::SettingId, s) matches Some(g) ==> is_loose_guid(g),
{
    lemma_first_match_is_match(Pattern::SubgroupGuid, s, 0);
    lemma_first_match_is_match(Pattern::SettingGuid, s, 0);
    lemma_first_match_is_match(Pattern::SubgroupId, s, 0);
    lemma_first_match_is_match(Pattern::SettingId, s, 0);
}


} // verus!
