//! The labels of `powercfg /query`, in English or in Chinese: switching a
//! label of a line for the same label in the other language (or in another
//! case) leaves what the query readers capture unchanged, except where a
//! value directly before an English index label could run into its first
//! letter, the hexadecimal digit `c`.
use vstd::prelude::*;
use crate::text::{is_white_space, is_hex_digit};
use crate::grammar::{
    Pattern, CharClass, in_class, run_end, fold_eq, literal_at, guid_at, after_label,
    labeled_guid_at, labeled_hex_at, either, match_at, first_match_from, capture,
    subgroup_label_en, setting_label_en, ac_label_en, dc_label_en, subgroup_label_zh,
    setting_label_zh, ac_label_zh, dc_label_zh, lemma_first_match_is_match, lemma_run_end,
};

verus! {

/// The labels of `powercfg /query`, written in lower case: `0` to `3` the
/// English subgroup, setting, AC index and DC index labels, `4` to `7` the
/// Chinese ones in the same order.
pub open spec fn label_lit(i: int) -> Seq<char> {
    if i == 0 {
        subgroup_label_en()
    } else if i == 1 {
        setting_label_en()
    } else if i == 2 {
        ac_label_en()
    } else if i == 3 {
        dc_label_en()
    } else if i == 4 {
        subgroup_label_zh()
    } else if i == 5 {
        setting_label_zh()
    } else if i == 6 {
        ac_label_zh()
    } else {
        dc_label_zh()
    }
}

/// Where label `b` differs from label `a` read from its position `k`: no
/// label starts inside another, and no two labels start alike.
proof fn lemma_label_clash(a: int, k: int, b: int) -> (j: int)
    requires
        0 <= a < 8,
        0 <= b < 8,
        0 <= k < label_lit(a).len(),
        k > 0 || a != b,
    ensures
        0 <= j < label_lit(b).len(),
        k + j < label_lit(a).len(),
        label_lit(a)[k + j] != label_lit(b)[j],
{
    reveal_strlit("subgroup guid");
    reveal_strlit("power setting guid");
    reveal_strlit("current ac power setting index");
    reveal_strlit("current dc power setting index");
    reveal_strlit("\u{5b50}\u{7ec4} guid");
    reveal_strlit("\u{7535}\u{6e90}\u{8bbe}\u{7f6e} guid");
    reveal_strlit("\u{5f53}\u{524d}\u{4ea4}\u{6d41}\u{7535}\u{6e90}\u{8bbe}\u{7f6e}\u{7d22}\u{5f15}");
    reveal_strlit("\u{5f53}\u{524d}\u{76f4}\u{6d41}\u{7535}\u{6e90}\u{8bbe}\u{7f6e}\u{7d22}\u{5f15}");
    if (a == 0 && k == 7) || (a == 1 && k == 6) || ((a == 2 || a == 3) && (k == 9 || k == 17)) {
        1
    } else if (a == 2 || a == 3) && k == 11 && b == 1 {
        14
    } else if (a == 6 || a == 7) && k == 4 && b == 5 {
        4
    } else if k == 0 && ((a == 2 && b == 3) || (a == 3 && b == 2)) {
        8
    } else if k == 0 && ((a == 6 && b == 7) || (a == 7 && b == 6)) {
        2
    } else {
        0
    }
}

/// A span moved right by `d`.
pub open spec fn shifted(o: Option<(int, int)>, d: int) -> Option<(int, int)> {
    match o {
        Some((a, b)) => Some((a + d, b + d)),
        None => None,
    }
}

proof fn lemma_run_end_shift(u: Seq<char>, y: Seq<char>, i: int, c: CharClass)
    requires
        0 <= i <= y.len(),
    ensures
        run_end(u + y, u.len() + i, c) == u.len() + run_end(y, i, c),
    decreases y.len() - i,
{
    if i < y.len() {
        assert((u + y)[u.len() + i] == y[i]);
        if in_class(c, y[i]) {
            lemma_run_end_shift(u, y, i + 1, c);
        }
    }
}

proof fn lemma_literal_shift(u: Seq<char>, y: Seq<char>, i: int, lit: Seq<char>)
    requires
        0 <= i,
    ensures
        literal_at(u + y, u.len() + i, lit) == literal_at(y, i, lit),
{
    if i + lit.len() <= y.len() {
        if literal_at(y, i, lit) {
            assert forall|j: int| 0 <= j < lit.len() implies fold_eq(
                (u + y)[u.len() + i + j],
                #[trigger] lit[j],
            ) by {
                assert((u + y)[u.len() + i + j] == y[i + j]);
            }
        }
        if literal_at(u + y, u.len() + i, lit) {
            assert forall|j: int| 0 <= j < lit.len() implies fold_eq(y[i + j], #[trigger] lit[j]) by {
                assert((u + y)[u.len() + i + j] == y[i + j]);
            }
        }
    }
}

proof fn lemma_guid_shift(u: Seq<char>, y: Seq<char>, q: int, strict: bool)
    requires
        0 <= q,
    ensures
        guid_at(u + y, u.len() + q, strict) == guid_at(y, q, strict),
{
    if q + 36 <= y.len() {
        assert((u + y).subrange(u.len() + q, u.len() + q + 36) =~= y.subrange(q, q + 36));
    }
}

proof fn lemma_after_label_shift(u: Seq<char>, y: Seq<char>, i: int, lit: Seq<char>)
    requires
        0 <= i,
    ensures
        after_label(u + y, u.len() + i, lit) == match after_label(y, i, lit) {
            Some(q) => Some(u.len() + q),
            None => None::<int>,
        },
{
    lemma_literal_shift(u, y, i, lit);
    if literal_at(y, i, lit) && i + lit.len() < y.len() {
        assert((u + y)[u.len() + i + lit.len()] == y[i + lit.len()]);
        lemma_run_end_shift(u, y, i + lit.len() + 1, CharClass::WhiteSpace);
    }
}

proof fn lemma_labeled_shift(u: Seq<char>, y: Seq<char>, i: int, lit: Seq<char>, strict: bool)
    requires
        0 <= i,
    ensures
        labeled_guid_at(u + y, u.len() + i, lit, strict) == shifted(
            labeled_guid_at(y, i, lit, strict),
            u.len() as int,
        ),
        labeled_hex_at(u + y, u.len() + i, lit) == shifted(labeled_hex_at(y, i, lit), u.len() as int),
{
    lemma_after_label_shift(u, y, i, lit);
    if let Some(q) = after_label(y, i, lit) {
        lemma_run_end(y, i + lit.len() + 1, CharClass::WhiteSpace);
        lemma_guid_shift(u, y, q, strict);
        if q + 2 < y.len() {
            assert((u + y)[u.len() + q] == y[q]);
            assert((u + y)[u.len() + q + 1] == y[q + 1]);
            assert((u + y)[u.len() + q + 2] == y[q + 2]);
            lemma_run_end_shift(u, y, q + 2, CharClass::HexDigit);
        }
    }
}


/// The patterns of the query readers.
pub open spec fn is_query_pattern(p: Pattern) -> bool {
    ||| p is SubgroupGuid
    ||| p is SettingGuid
    ||| p is SubgroupId
    ||| p is SettingId
    ||| p is AcIndex
    ||| p is DcIndex
}

/// Which label a query pattern reads: `0` subgroup, `1` setting, `2` AC
/// index, `3` DC index (the same numbering as `label_lit`, modulo 4).
pub open spec fn pattern_group(p: Pattern) -> int {
    match p {
        Pattern::SubgroupGuid | Pattern::SubgroupId => 0,
        Pattern::SettingGuid | Pattern::SettingId => 1,
        Pattern::AcIndex => 2,
        _ => 3,
    }
}

/// `x` is the label `a` (of `label_lit`), written in any case.
pub open spec fn label_text(x: Seq<char>, a: int) -> bool {
    &&& 0 <= a < 8
    &&& x.len() == label_lit(a).len()
    &&& literal_at(x, 0, label_lit(a))
}

/// What a query pattern captures from the text that follows its label: the
/// span of `:\s*` and then a GUID (strict or loose) or `0x` and hex digits.
pub open spec fn front_value(p: Pattern, y: Seq<char>) -> Option<(int, int)> {
    match p {
        Pattern::SubgroupGuid | Pattern::SettingGuid => labeled_guid_at(y, 0, Seq::empty(), true),
        Pattern::SubgroupId | Pattern::SettingId => labeled_guid_at(y, 0, Seq::empty(), false),
        _ => labeled_hex_at(y, 0, Seq::empty()),
    }
}

/// A character that case folding leaves alone when it is a pattern's.
spec fn plain(x: char) -> bool {
    &&& !('A' <= x && x <= 'Z')
    &&& x != '\u{17f}'
    &&& x != '\u{212a}'
}

proof fn lemma_fold_unique(c: char, x: char, y: char)
    requires
        fold_eq(c, x),
        fold_eq(c, y),
        plain(x),
        plain(y),
    ensures
        x == y,
{
}

proof fn lemma_label_plain(a: int, j: int)
    requires
        0 <= a < 8,
        0 <= j,
    ensures
        j < label_lit(a).len() ==> plain(label_lit(a)[j]),
        label_lit(a).len() > 0,
        !is_white_space(label_lit(a)[0]),
{
    reveal_strlit("subgroup guid");
    reveal_strlit("power setting guid");
    reveal_strlit("current ac power setting index");
    reveal_strlit("current dc power setting index");
    reveal_strlit("\u{5b50}\u{7ec4} guid");
    reveal_strlit("\u{7535}\u{6e90}\u{8bbe}\u{7f6e} guid");
    reveal_strlit("\u{5f53}\u{524d}\u{4ea4}\u{6d41}\u{7535}\u{6e90}\u{8bbe}\u{7f6e}\u{7d22}\u{5f15}");
    reveal_strlit("\u{5f53}\u{524d}\u{76f4}\u{6d41}\u{7535}\u{6e90}\u{8bbe}\u{7f6e}\u{7d22}\u{5f15}");
}

/// No label, of either language, starts inside the label `x` found at `o`,
/// and no other label starts where it starts.
proof fn lemma_no_label_inside(s: Seq<char>, o: int, x: Seq<char>, a: int, k: int, b: int)
    requires
        label_text(x, a),
        0 <= b < 8,
        0 <= k < x.len(),
        k > 0 || a != b,
        0 <= o,
        o + x.len() <= s.len(),
        s.subrange(o, o + x.len()) == x,
    ensures
        !literal_at(s, o + k, label_lit(b)),
{
    let j = lemma_label_clash(a, k, b);
    let la = label_lit(a);
    let lb = label_lit(b);
    if literal_at(s, o + k, lb) {
        assert(fold_eq(s[o + k + j], lb[j]));
        assert(s[o + k + j] == x[k + j]);
        assert(fold_eq(x[0 + (k + j)], la[k + j]));
        lemma_label_plain(a, k + j);
        lemma_label_plain(b, j);
        lemma_fold_unique(x[k + j], la[k + j], lb[j]);
    }
}

/// Where no label starts, no query pattern matches.
proof fn lemma_no_label_no_match(p: Pattern, s: Seq<char>, i: int)
    requires
        is_query_pattern(p),
        forall|b: int| 0 <= b < 8 ==> !literal_at(s, i, #[trigger] label_lit(b)),
    ensures
        match_at(p, s, i) is None,
{
    assert(!literal_at(s, i, label_lit(0)));
    assert(!literal_at(s, i, label_lit(1)));
    assert(!literal_at(s, i, label_lit(2)));
    assert(!literal_at(s, i, label_lit(3)));
    assert(!literal_at(s, i, label_lit(4)));
    assert(!literal_at(s, i, label_lit(5)));
    assert(!literal_at(s, i, label_lit(6)));
    assert(!literal_at(s, i, label_lit(7)));
}

proof fn lemma_match_shift(p: Pattern, u: Seq<char>, y: Seq<char>, i: int)
    requires
        is_query_pattern(p),
        0 <= i,
    ensures
        match_at(p, u + y, u.len() + i) == shifted(match_at(p, y, i), u.len() as int),
{
    match p {
        Pattern::SubgroupGuid | Pattern::SubgroupId => {
            lemma_labeled_shift(u, y, i, subgroup_label_en(), p is SubgroupGuid);
            lemma_labeled_shift(u, y, i, subgroup_label_zh(), p is SubgroupGuid);
        },
        Pattern::SettingGuid | Pattern::SettingId => {
            lemma_labeled_shift(u, y, i, setting_label_en(), p is SettingGuid);
            lemma_labeled_shift(u, y, i, setting_label_zh(), p is SettingGuid);
        },
        _ => {
            lemma_labeled_shift(u, y, i, ac_label_en(), true);
            lemma_labeled_shift(u, y, i, ac_label_zh(), true);
            lemma_labeled_shift(u, y, i, dc_label_en(), true);
            lemma_labeled_shift(u, y, i, dc_label_zh(), true);
        },
    }
}

proof fn lemma_first_match_shift(p: Pattern, u: Seq<char>, y: Seq<char>, i: int)
    requires
        is_query_pattern(p),
        0 <= i,
    ensures
        first_match_from(p, u + y, u.len() + i) == shifted(first_match_from(p, y, i), u.len() as int),
    decreases y.len() + 1 - i,
{
    if i <= y.len() {
        lemma_match_shift(p, u, y, i);
        if match_at(p, y, i) is None {
            lemma_first_match_shift(p, u, y, i + 1);
        }
    }
}

proof fn lemma_skip_no_match(p: Pattern, s: Seq<char>, i: int, n: int)
    requires
        0 <= i <= n <= s.len(),
        forall|q: int| i <= q < n ==> #[trigger] match_at(p, s, q) is None,
    ensures
        first_match_from(p, s, i) == first_match_from(p, s, n),
    decreases n - i,
{
    if i < n {
        assert(match_at(p, s, i) is None);
        lemma_skip_no_match(p, s, i + 1, n);
    }
}

/// A query pattern's match lies inside the text.
proof fn lemma_match_bounds(p: Pattern, s: Seq<char>, i: int)
    requires
        is_query_pattern(p),
        0 <= i,
    ensures
        match_at(p, s, i) matches Some((a, b)) ==> 0 <= a <= b <= s.len(),
{
    let lits = seq![
        subgroup_label_en(),
        subgroup_label_zh(),
        setting_label_en(),
        setting_label_zh(),
        ac_label_en(),
        ac_label_zh(),
        dc_label_en(),
        dc_label_zh(),
    ];
    assert forall|k: int| 0 <= k < 8 implies (#[trigger] after_label(s, i, lits[k])) matches Some(q) ==> i
        + lits[k].len() + 1 <= q <= s.len() by {
        if i + lits[k].len() < s.len() {
            lemma_run_end(s, i + lits[k].len() + 1, CharClass::WhiteSpace);
        }
    }
    assert forall|k: int| 0 <= k < 8 implies (#[trigger] labeled_hex_at(s, i, lits[k])) matches Some((a, b))
        ==> 0 <= a <= b <= s.len() by {
        assert(after_label(s, i, lits[k]) matches Some(q) ==> i + lits[k].len() + 1 <= q <= s.len());
        if let Some(q) = after_label(s, i, lits[k]) {
            if q + 2 < s.len() {
                lemma_run_end(s, q + 2, CharClass::HexDigit);
            }
        }
    }
    assert(after_label(s, i, lits[0]) == after_label(s, i, subgroup_label_en()));
    assert(labeled_hex_at(s, i, lits[4]) == labeled_hex_at(s, i, ac_label_en()));
    assert(labeled_hex_at(s, i, lits[5]) == labeled_hex_at(s, i, ac_label_zh()));
    assert(labeled_hex_at(s, i, lits[6]) == labeled_hex_at(s, i, dc_label_en()));
    assert(labeled_hex_at(s, i, lits[7]) == labeled_hex_at(s, i, dc_label_zh()));
    assert(after_label(s, i, lits[1]) == after_label(s, i, subgroup_label_zh()));
    assert(after_label(s, i, lits[2]) == after_label(s, i, setting_label_en()));
    assert(after_label(s, i, lits[3]) == after_label(s, i, setting_label_zh()));
}

/// At a label's own position, the query pattern of that label reads the
/// value that follows the label, and every other query pattern fails.
proof fn lemma_match_at_label(p: Pattern, w: Seq<char>, x: Seq<char>, a: int, y: Seq<char>)
    requires
        is_query_pattern(p),
        label_text(x, a),
    ensures
        match_at(p, w + x + y, w.len() as int) == if pattern_group(p) == a % 4 {
            shifted(front_value(p, y), (w.len() + x.len()) as int)
        } else {
            None
        },
{
    let u = w + x;
    let s = u + y;
    let lit = label_lit(a);
    lemma_label_plain(a, 0);
    assert(s.subrange(w.len() as int, (w.len() + x.len()) as int) =~= x);
    assert forall|j: int| 0 <= j < lit.len() implies fold_eq(s[w.len() + j], #[trigger] lit[j]) by {
        assert(s[w.len() + j] == x[0 + j]);
    }
    assert(literal_at(s, w.len() as int, lit));
    let e: Seq<char> = Seq::empty();
    if y.len() > 0 {
        assert(s[(w.len() + lit.len()) as int] == y[0]);
        lemma_run_end_shift(u, y, 1, CharClass::WhiteSpace);
        assert(literal_at(y, 0, e));
        if let Some(q) = after_label(y, 0, e) {
            lemma_run_end(y, 1, CharClass::WhiteSpace);
            lemma_guid_shift(u, y, q, true);
            lemma_guid_shift(u, y, q, false);
            if q + 2 < y.len() {
                assert(s[u.len() + q] == y[q]);
                assert(s[u.len() + q + 1] == y[q + 1]);
                assert(s[u.len() + q + 2] == y[q + 2]);
                lemma_run_end_shift(u, y, q + 2, CharClass::HexDigit);
            }
        }
    }
    assert(labeled_guid_at(s, w.len() as int, lit, true) == shifted(
        labeled_guid_at(y, 0, e, true),
        u.len() as int,
    ));
    assert(labeled_guid_at(s, w.len() as int, lit, false) == shifted(
        labeled_guid_at(y, 0, e, false),
        u.len() as int,
    ));
    assert(labeled_hex_at(s, w.len() as int, lit) == shifted(labeled_hex_at(y, 0, e), u.len() as int));
    assert forall|b: int| 0 <= b < 8 && b != a implies !literal_at(s, w.len() as int, #[trigger] label_lit(b)) by {
        lemma_no_label_inside(s, w.len() as int, x, a, 0, b);
    }
    assert(!literal_at(s, w.len() as int, label_lit(0)) || a == 0);
    assert(!literal_at(s, w.len() as int, label_lit(1)) || a == 1);
    assert(!literal_at(s, w.len() as int, label_lit(2)) || a == 2);
    assert(!literal_at(s, w.len() as int, label_lit(3)) || a == 3);
    assert(!literal_at(s, w.len() as int, label_lit(4)) || a == 4);
    assert(!literal_at(s, w.len() as int, label_lit(5)) || a == 5);
    assert(!literal_at(s, w.len() as int, label_lit(6)) || a == 6);
    assert(!literal_at(s, w.len() as int, label_lit(7)) || a == 7);
}

/// What a query pattern captures from the label `a` followed by `y`: the
/// value after the label when the pattern reads that label and a value
/// follows, else what it captures from `y`.
pub open spec fn label_line_capture(p: Pattern, a: int, y: Seq<char>) -> Option<Seq<char>> {
    match front_value(p, y) {
        Some((b, e)) => if pattern_group(p) == a % 4 {
            Some(y.subrange(b, e))
        } else {
            capture(p, y)
        },
        None => capture(p, y),
    }
}

proof fn lemma_front_value_bounds(p: Pattern, y: Seq<char>)
    ensures
        front_value(p, y) matches Some((b, e)) ==> 0 <= b <= e <= y.len(),
{
    let z: Seq<char> = Seq::empty();
    if let Some(q) = after_label(y, 0, z) {
        lemma_run_end(y, 1, CharClass::WhiteSpace);
        if q + 2 < y.len() {
            lemma_run_end(y, q + 2, CharClass::HexDigit);
        }
    }
}

proof fn lemma_inside_label(p: Pattern, s: Seq<char>, o: int, x: Seq<char>, a: int)
    requires
        is_query_pattern(p),
        label_text(x, a),
        0 <= o,
        o + x.len() <= s.len(),
        s.subrange(o, o + x.len()) == x,
    ensures
        forall|q: int| o < q < o + x.len() ==> #[trigger] match_at(p, s, q) is None,
{
    assert forall|q: int| o < q < o + x.len() implies #[trigger] match_at(p, s, q) is None by {
        assert forall|b: int| 0 <= b < 8 implies !literal_at(s, q, #[trigger] label_lit(b)) by {
            lemma_no_label_inside(s, o, x, a, q - o, b);
        }
        lemma_no_label_no_match(p, s, q);
    }
}

/// A character that a value next to a label could take in: a hexadecimal
/// digit, `-`, or the `x` of `0x` (in either case).
pub open spec fn value_char(c: char) -> bool {
    is_hex_digit(c) || c == '-' || fold_eq(c, 'x')
}

/// A label `a1` may be switched for `a2` right after `u` unless one of them
/// is an English index label (whose first letter `c` is a hexadecimal digit)
/// and `u` ends in a character that a value could continue from.
pub open spec fn switch_allowed(u: Seq<char>, a1: int, a2: int) -> bool {
    (a1 == 2 || a1 == 3 || a2 == 2 || a2 == 3) ==> (u.len() == 0 || !value_char(u.last()))
}

proof fn lemma_label_front(x: Seq<char>, a: int)
    requires
        label_text(x, a),
    ensures
        x.len() >= 2,
        !is_white_space(x[0]),
        x[0] != ':',
        x[0] != '0',
        x[0] != '-',
        !fold_eq(x[0], 'x'),
        is_hex_digit(x[0]) ==> (a == 2 || a == 3),
        !is_hex_digit(x[1]),
        x[1] != '-',
{
    reveal_strlit("subgroup guid");
    reveal_strlit("power setting guid");
    reveal_strlit("current ac power setting index");
    reveal_strlit("current dc power setting index");
    reveal_strlit("\u{5b50}\u{7ec4} guid");
    reveal_strlit("\u{7535}\u{6e90}\u{8bbe}\u{7f6e} guid");
    reveal_strlit("\u{5f53}\u{524d}\u{4ea4}\u{6d41}\u{7535}\u{6e90}\u{8bbe}\u{7f6e}\u{7d22}\u{5f15}");
    reveal_strlit("\u{5f53}\u{524d}\u{76f4}\u{6d41}\u{7535}\u{6e90}\u{8bbe}\u{7f6e}\u{7d22}\u{5f15}");
    let l = label_lit(a);
    assert(fold_eq(x[0int + 0], l[0]));
    assert(fold_eq(x[0int + 1], l[1]));
}

proof fn lemma_run_end_prefix(u: Seq<char>, r: Seq<char>, i: int, c: CharClass)
    requires
        0 <= i <= u.len(),
        run_end(u, i, c) < u.len() || r.len() == 0 || !in_class(c, r[0]),
    ensures
        run_end(u + r, i, c) == run_end(u, i, c),
    decreases u.len() - i,
{
    if i < u.len() {
        assert((u + r)[i] == u[i]);
        if in_class(c, u[i]) {
            lemma_run_end_prefix(u, r, i + 1, c);
        }
    } else if r.len() > 0 {
        assert((u + r)[i] == r[0]);
    }
}

/// No label that starts before `o` reaches into the label `x` found at `o`.
proof fn lemma_no_label_across(s: Seq<char>, o: int, x: Seq<char>, a: int, p: int, b: int)
    requires
        label_text(x, a),
        0 <= b < 8,
        0 <= p < o,
        o < p + label_lit(b).len(),
        o + x.len() <= s.len(),
        s.subrange(o, o + x.len()) == x,
    ensures
        !literal_at(s, p, label_lit(b)),
{
    let k = o - p;
    let j = lemma_label_clash(b, k, a);
    let la = label_lit(a);
    let lb = label_lit(b);
    if literal_at(s, p, lb) {
        assert(fold_eq(s[p + (k + j)], lb[k + j]));
        assert(s[o + j] == x[j]);
        assert(fold_eq(x[0 + j], la[j]));
        lemma_label_plain(a, j);
        lemma_label_plain(b, k + j);
        lemma_fold_unique(x[j], la[j], lb[k + j]);
    }
}

/// A GUID that starts no later than the label `x` found after `u` lies
/// wholly before the label, whatever label stands there.
proof fn lemma_guid_before_label(u: Seq<char>, x: Seq<char>, a: int, y: Seq<char>, q: int, strict: bool)
    requires
        label_text(x, a),
        0 <= q <= u.len(),
        (a == 2 || a == 3) ==> (u.len() == 0 || !value_char(u.last())),
    ensures
        guid_at(u + x + y, q, strict) == (q + 36 <= u.len() && guid_at(u, q, strict)),
{
    let s = u + x + y;
    lemma_label_front(x, a);
    if q + 36 <= u.len() {
        assert(s.subrange(q, q + 36) =~= u.subrange(q, q + 36));
    } else if guid_at(s, q, strict) {
        let g = s.subrange(q, q + 36);
        let t = u.len() - q;
        assert(g[t] == x[0]);
        assert(is_hex_digit(g[t]) || g[t] == '-');
        if t > 0 {
            assert(g[t - 1] == u.last());
            assert(is_hex_digit(g[t - 1]) || g[t - 1] == '-');
        } else {
            assert(g[1] == x[1]);
            assert(is_hex_digit(g[1]) || g[1] == '-');
        }
    }
}

/// The `0x` and hexadecimal digits of a value that starts no later than the
/// label `x` found after `u` lie wholly before the label.
proof fn lemma_hex_before_label(u: Seq<char>, x: Seq<char>, a: int, y: Seq<char>, q: int)
    requires
        label_text(x, a),
        0 <= q <= u.len(),
        (a == 2 || a == 3) ==> (u.len() == 0 || !value_char(u.last())),
    ensures
        ({
            let s = u + x + y;
            (q + 2 < s.len() && s[q] == '0' && fold_eq(s[q + 1], 'x') && is_hex_digit(s[q + 2])) == (
            q + 2 < u.len() && u[q] == '0' && fold_eq(u[q + 1], 'x') && is_hex_digit(u[q + 2]))
        }),
        q + 2 < u.len() && is_hex_digit(u[q + 2]) ==> run_end(u + x + y, q + 2, CharClass::HexDigit)
            == run_end(u, q + 2, CharClass::HexDigit),
{
    let s = u + x + y;
    lemma_label_front(x, a);
    assert(s =~= u + (x + y));
    if q + 2 < u.len() {
        assert(s[q] == u[q]);
        assert(s[q + 1] == u[q + 1]);
        assert(s[q + 2] == u[q + 2]);
        if is_hex_digit(u[q + 2]) {
            lemma_run_end(u, q + 2, CharClass::HexDigit);
            if run_end(u, q + 2, CharClass::HexDigit) == u.len() {
                assert(in_class(CharClass::HexDigit, u[u.len() - 1]));
            }
            assert((x + y)[0] == x[0]);
            lemma_run_end_prefix(u, x + y, q + 2, CharClass::HexDigit);
        }
    } else if q == u.len() {
        assert(s[q] == x[0]);
    } else if q + 1 == u.len() {
        assert(s[q + 1] == x[0]);
    } else {
        assert(s[q + 2] == x[0]);
        assert(s[q + 1] == u.last());
    }
}

/// A labelled value that starts before the label `x` found after `u` is read
/// from `u` alone.
proof fn lemma_labeled_before_label(u: Seq<char>, x: Seq<char>, a: int, y: Seq<char>, p: int, b: int, strict: bool)
    requires
        label_text(x, a),
        0 <= b < 8,
        0 <= p < u.len(),
        (a == 2 || a == 3) ==> (u.len() == 0 || !value_char(u.last())),
    ensures
        labeled_guid_at(u + x + y, p, label_lit(b), strict) == labeled_guid_at(u, p, label_lit(b), strict),
        labeled_hex_at(u + x + y, p, label_lit(b)) == labeled_hex_at(u, p, label_lit(b)),
{
    let s = u + x + y;
    let lb = label_lit(b);
    lemma_label_front(x, a);
    assert(s.subrange(u.len() as int, (u.len() + x.len()) as int) =~= x);
    if p + lb.len() > u.len() {
        lemma_no_label_across(s, u.len() as int, x, a, p, b);
    } else {
        assert forall|j: int| 0 <= j < lb.len() implies fold_eq(s[p + j], #[trigger] lb[j]) == fold_eq(u[p + j], lb[j]) by {
            assert(s[p + j] == u[p + j]);
        }
        assert(literal_at(s, p, lb) == literal_at(u, p, lb));
        let e = p + lb.len();
        if e < u.len() {
            assert(s[e] == u[e]);
            assert(s =~= u + (x + y));
            assert((x + y)[0] == x[0]);
            lemma_run_end_prefix(u, x + y, e + 1, CharClass::WhiteSpace);
            lemma_run_end(u, e + 1, CharClass::WhiteSpace);
            let q = run_end(u, e + 1, CharClass::WhiteSpace);
            lemma_guid_before_label(u, x, a, y, q, strict);
            lemma_hex_before_label(u, x, a, y, q);
        } else {
            assert(s[e] == x[0]);
        }
    }
}

/// A query pattern's match that starts before the label `x` found after `u`
/// is its match in `u` alone.
proof fn lemma_match_before_label(pat: Pattern, u: Seq<char>, x: Seq<char>, a: int, y: Seq<char>, p: int)
    requires
        is_query_pattern(pat),
        label_text(x, a),
        0 <= p < u.len(),
        (a == 2 || a == 3) ==> (u.len() == 0 || !value_char(u.last())),
    ensures
        match_at(pat, u + x + y, p) == match_at(pat, u, p),
{
    assert forall|b: int| 0 <= b < 8 implies labeled_guid_at(u + x + y, p, #[trigger] label_lit(b), true)
        == labeled_guid_at(u, p, label_lit(b), true) && labeled_guid_at(u + x + y, p, label_lit(b), false)
        == labeled_guid_at(u, p, label_lit(b), false) && labeled_hex_at(u + x + y, p, label_lit(b))
        == labeled_hex_at(u, p, label_lit(b)) by {
        lemma_labeled_before_label(u, x, a, y, p, b, true);
        lemma_labeled_before_label(u, x, a, y, p, b, false);
    }
    assert(label_lit(0) == subgroup_label_en());
    assert(label_lit(1) == setting_label_en());
    assert(label_lit(2) == ac_label_en());
    assert(label_lit(3) == dc_label_en());
    assert(label_lit(4) == subgroup_label_zh());
    assert(label_lit(5) == setting_label_zh());
    assert(label_lit(6) == ac_label_zh());
    assert(label_lit(7) == dc_label_zh());
}

/// The text of an optional span of `s`.
pub open spec fn captured(s: Seq<char>, o: Option<(int, int)>) -> Option<Seq<char>> {
    match o {
        Some((a, b)) => Some(s.subrange(a, b)),
        None => None,
    }
}

/// What a query pattern captures, from position `p` on, in `u` followed by
/// a label of group `g` and then `y`: the first match that starts in `u`, or
/// else what the label and `y` give.
pub open spec fn capture_around_label(pat: Pattern, u: Seq<char>, p: int, g: int, y: Seq<char>) -> Option<
    Seq<char>,
>
    decreases u.len() - p,
{
    if p < 0 || p >= u.len() {
        label_line_capture(pat, g, y)
    } else {
        match match_at(pat, u, p) {
            Some((a, b)) => Some(u.subrange(a, b)),
            None => capture_around_label(pat, u, p + 1, g, y),
        }
    }
}

proof fn lemma_first_match_at_label(pat: Pattern, u: Seq<char>, x: Seq<char>, a: int, y: Seq<char>)
    requires
        is_query_pattern(pat),
        label_text(x, a),
    ensures
        first_match_from(pat, u + x + y, u.len() as int) == if pattern_group(pat) == a % 4
            && front_value(pat, y) is Some {
            shifted(front_value(pat, y), (u.len() + x.len()) as int)
        } else {
            shifted(first_match_from(pat, y, 0), (u.len() + x.len()) as int)
        },
{
    let ux = u + x;
    let s = ux + y;
    lemma_label_plain(a, 0);
    assert(s.subrange(u.len() as int, ux.len() as int) =~= x);
    lemma_inside_label(pat, s, u.len() as int, x, a);
    lemma_skip_no_match(pat, s, (u.len() + 1) as int, ux.len() as int);
    lemma_match_at_label(pat, u, x, a, y);
    lemma_first_match_shift(pat, ux, y, 0);
}

proof fn lemma_capture_at_label(pat: Pattern, u: Seq<char>, x: Seq<char>, a: int, y: Seq<char>)
    requires
        is_query_pattern(pat),
        label_text(x, a),
    ensures
        captured(u + x + y, first_match_from(pat, u + x + y, u.len() as int)) == label_line_capture(
            pat,
            a % 4,
            y,
        ),
{
    let ux = u + x;
    let s = ux + y;
    lemma_first_match_at_label(pat, u, x, a, y);
    lemma_front_value_bounds(pat, y);
    lemma_first_match_is_match(pat, y, 0);
    if let Some((b, e)) = first_match_from(pat, y, 0) {
        let q = choose|q: int|
            #![trigger match_at(pat, y, q)]
            0 <= q <= y.len() && match_at(pat, y, q) == Some((b, e)) && forall|r: int|
                0 <= r < q ==> match_at(pat, y, r) is None;
        lemma_match_bounds(pat, y, q);
        assert(s.subrange(ux.len() + b, ux.len() + e) =~= y.subrange(b, e));
    }
    if let Some((b, e)) = front_value(pat, y) {
        assert(s.subrange(ux.len() + b, ux.len() + e) =~= y.subrange(b, e));
    }
}

proof fn lemma_capture_before_label(pat: Pattern, u: Seq<char>, x: Seq<char>, a: int, y: Seq<char>, p: int)
    requires
        is_query_pattern(pat),
        label_text(x, a),
        0 <= p <= u.len(),
        (a == 2 || a == 3) ==> (u.len() == 0 || !value_char(u.last())),
    ensures
        captured(u + x + y, first_match_from(pat, u + x + y, p)) == capture_around_label(
            pat,
            u,
            p,
            a % 4,
            y,
        ),
    decreases u.len() - p,
{
    if p == u.len() {
        lemma_capture_at_label(pat, u, x, a, y);
    } else {
        lemma_match_before_label(pat, u, x, a, y, p);
        lemma_match_bounds(pat, u, p);
        if let Some((b, e)) = match_at(pat, u, p) {
            assert((u + x + y).subrange(b, e) =~= u.subrange(b, e));
        } else {
            lemma_capture_before_label(pat, u, x, a, y, p + 1);
        }
    }
}

/// Switching one label of a line for the same label in the other language
/// (or another case) leaves what every query pattern captures unchanged,
/// unless an English index label is involved and the text before it ends
/// in a character that a value could continue from.
pub proof fn lemma_label_switch(
    pat: Pattern,
    u: Seq<char>,
    x1: Seq<char>,
    a1: int,
    x2: Seq<char>,
    a2: int,
    y: Seq<char>,
)
    requires
        is_query_pattern(pat),
        label_text(x1, a1),
        label_text(x2, a2),
        a1 % 4 == a2 % 4,
        switch_allowed(u, a1, a2),
    ensures
        capture(pat, u + x1 + y) == capture(pat, u + x2 + y),
{
    lemma_capture_before_label(pat, u, x1, a1, y, 0);
    lemma_capture_before_label(pat, u, x2, a2, y, 0);
}

/// `l2` is `l1` with one label switched: `l1` is `u + x1 + y` and `l2` is
/// `u + x2 + y`, where `x1` and `x2` name the same field, in either language
/// and any case, and the switch is allowed after `u`.
pub open spec fn one_label_switched(
    l1: Seq<char>,
    l2: Seq<char>,
    u: Seq<char>,
    x1: Seq<char>,
    a1: int,
    x2: Seq<char>,
    a2: int,
    y: Seq<char>,
) -> bool {
    &&& label_text(x1, a1)
    &&& label_text(x2, a2)
    &&& a1 % 4 == a2 % 4
    &&& switch_allowed(u, a1, a2)
    &&& l1 == u + x1 + y
    &&& l2 == u + x2 + y
}

/// `l2` is `l1` with one label switched.
pub open spec fn one_switch(l1: Seq<char>, l2: Seq<char>) -> bool {
    exists|u: Seq<char>, x1: Seq<char>, a1: int, x2: Seq<char>, a2: int, y: Seq<char>|
        #[trigger] one_label_switched(l1, l2, u, x1, a1, x2, a2, y)
}

/// `l2` is `l1` with `n` labels switched, one after the other.
pub open spec fn switched_in(l1: Seq<char>, l2: Seq<char>, n: nat) -> bool
    decreases n,
{
    if n == 0 {
        l1 == l2
    } else {
        exists|m: Seq<char>| #[trigger] one_switch(l1, m) && switched_in(m, l2, (n - 1) as nat)
    }
}

/// Two lines that differ only in the language or the case of their labels,
/// wherever in the line those stand (`Subgroup GUID` against `子组 GUID`,
/// `Current AC Power Setting Index` against `当前交流电源设置索引`, and so on),
/// each switch allowed where it is made.
pub open spec fn same_but_labels(l1: Seq<char>, l2: Seq<char>) -> bool {
    exists|n: nat| #[trigger] switched_in(l1, l2, n)
}

proof fn lemma_switched_in_capture(pat: Pattern, l1: Seq<char>, l2: Seq<char>, n: nat)
    requires
        is_query_pattern(pat),
        switched_in(l1, l2, n),
    ensures
        capture(pat, l1) == capture(pat, l2),
    decreases n,
{
    if n > 0 {
        let m = choose|m: Seq<char>| #[trigger] one_switch(l1, m) && switched_in(m, l2, (n - 1) as nat);
        let (u, x1, a1, x2, a2, y) = choose|
            u: Seq<char>,
            x1: Seq<char>,
            a1: int,
            x2: Seq<char>,
            a2: int,
            y: Seq<char>,
        | #[trigger] one_label_switched(l1, m, u, x1, a1, x2, a2, y);
        lemma_label_switch(pat, u, x1, a1, x2, a2, y);
        lemma_switched_in_capture(pat, m, l2, (n - 1) as nat);
    }
}

/// The query patterns capture the same text from two lines that differ only
/// in the language or case of their labels.
pub proof fn lemma_same_but_labels_capture(pat: Pattern, l1: Seq<char>, l2: Seq<char>)
    requires
        is_query_pattern(pat),
        same_but_labels(l1, l2),
    ensures
        capture(pat, l1) == capture(pat, l2),
{
    let n = choose|n: nat| #[trigger] switched_in(l1, l2, n);
    lemma_switched_in_capture(pat, l1, l2, n);
}

} // verus!
