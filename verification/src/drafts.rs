//! SQL drafts: the order in which they are listed (newest day and number first) and the
//! name given to a new one (`YYYY-MM-DD-N.sql`, one more than the day's highest number).

use vstd::prelude::*;

use crate::model::DraftEntry;
use crate::text::{
    chars_of, chars_start_with, concat2, decimal, decimal_string, lemma_parse_decimal,
    parse_usize, parse_usize_exec, starts_with, string_from_range,
};

verus! {

broadcast use vstd::seq_lib::group_to_multiset_ensures, vstd::multiset::group_multiset_axioms;

// ---------------------------------------------------------------------------
// Ordering by file name
// ---------------------------------------------------------------------------

/// Lexicographic order on character sequences (by code point), which is the order of the
/// UTF-8 bytes that `String`'s `Ord` compares.
pub open spec fn lex_le(a: Seq<char>, b: Seq<char>) -> bool
    decreases a.len(),
{
    if a.len() == 0 {
        true
    } else if b.len() == 0 {
        false
    } else if a[0] != b[0] {
        a[0] < b[0]
    } else {
        lex_le(a.drop_first(), b.drop_first())
    }
}

pub proof fn lemma_lex_total(a: Seq<char>, b: Seq<char>)
    ensures
        lex_le(a, b) || lex_le(b, a),
    decreases a.len(),
{
    if a.len() > 0 && b.len() > 0 && a[0] == b[0] {
        lemma_lex_total(a.drop_first(), b.drop_first());
    }
}

pub proof fn lemma_lex_antisymmetric(a: Seq<char>, b: Seq<char>)
    requires
        lex_le(a, b),
        lex_le(b, a),
    ensures
        a == b,
    decreases a.len(),
{
    if a.len() > 0 && b.len() > 0 {
        if a[0] == b[0] {
            lemma_lex_antisymmetric(a.drop_first(), b.drop_first());
            assert(a =~= seq![a[0]] + a.drop_first());
            assert(b =~= seq![b[0]] + b.drop_first());
        }
    } else {
        assert(a.len() == 0 && b.len() == 0);
        assert(a =~= b);
    }
}

pub proof fn lemma_lex_transitive(a: Seq<char>, b: Seq<char>, c: Seq<char>)
    requires
        lex_le(a, b),
        lex_le(b, c),
    ensures
        lex_le(a, c),
    decreases a.len(),
{
    if a.len() > 0 && b.len() > 0 && c.len() > 0 && a[0] == b[0] && b[0] == c[0] {
        lemma_lex_transitive(a.drop_first(), b.drop_first(), c.drop_first());
    }
}

proof fn lemma_lex_reflexive(a: Seq<char>)
    ensures
        lex_le(a, a),
    decreases a.len(),
{
    if a.len() > 0 {
        lemma_lex_reflexive(a.drop_first());
    }
}

/// The day and the number of a draft named `YYYY-MM-DD-N.sql`: the day is the name's first ten
/// characters, followed by `-`, the number and `.sql`.
pub open spec fn dated(name: Seq<char>) -> Option<(Seq<char>, nat)> {
    if name.len() < 10 {
        None
    } else {
        match draft_index(name.take(10), name) {
            Some(n) => Some((name.take(10), n)),
            None => None,
        }
    }
}

/// Whether a draft named `a` may be listed before one named `b`: of two drafts named by day
/// and number, the later day first and, on one day, the higher number first; drafts named
/// otherwise after those, by file name from greatest to least; the same day and number are
/// told apart by file name in the same way.
pub open spec fn listed_before(a: Seq<char>, b: Seq<char>) -> bool {
    match dated(a) {
        Some(x) => match dated(b) {
            Some(y) => if x.0 != y.0 {
                lex_le(y.0, x.0)
            } else if x.1 != y.1 {
                x.1 > y.1
            } else {
                lex_le(b, a)
            },
            None => true,
        },
        None => match dated(b) {
            Some(_) => false,
            None => lex_le(b, a),
        },
    }
}

/// The drafts are listed newest first.
pub open spec fn newest_first(s: Seq<DraftEntry>) -> bool {
    forall|i: int, j: int|
        0 <= i < j < s.len() ==> listed_before(#[trigger] s[i].file_name@, #[trigger] s[j].file_name@)
}

pub proof fn lemma_listed_before_total(a: Seq<char>, b: Seq<char>)
    ensures
        listed_before(a, b) || listed_before(b, a),
{
    match (dated(a), dated(b)) {
        (Some(x), Some(y)) => {
            if x.0 != y.0 {
                lemma_lex_total(x.0, y.0);
            } else if x.1 == y.1 {
                lemma_lex_total(a, b);
            }
        },
        (None, None) => lemma_lex_total(a, b),
        _ => {},
    }
}

pub proof fn lemma_listed_before_transitive(a: Seq<char>, b: Seq<char>, c: Seq<char>)
    requires
        listed_before(a, b),
        listed_before(b, c),
    ensures
        listed_before(a, c),
{
    if dated(a) is None {
        lemma_lex_transitive(c, b, a);
    } else if dated(c) is Some {
        let x = dated(a)->0;
        let y = dated(b)->0;
        let z = dated(c)->0;
        if x.0 != y.0 {
            if y.0 != z.0 {
                lemma_lex_transitive(z.0, y.0, x.0);
                if x.0 == z.0 {
                    lemma_lex_antisymmetric(x.0, y.0);
                }
            }
        } else if y.0 == z.0 && x.1 == y.1 && y.1 == z.1 {
            lemma_lex_transitive(c, b, a);
        }
    }
}

proof fn lemma_listed_before_reflexive(a: Seq<char>)
    ensures
        listed_before(a, a),
{
    lemma_lex_reflexive(a);
}

/// The day and number of `day-N.sql`, for a day of ten characters.
proof fn lemma_dated_file_name(day: Seq<char>, n: nat)
    requires
        day.len() == 10,
        n <= usize::MAX,
    ensures
        dated(draft_file_name(day, n)) == Some((day, n)),
{
    let name = draft_file_name(day, n);
    assert(name.take(10) =~= day);
    lemma_draft_index_of_file_name(day, n);
}

/// In a list of drafts ordered newest first, a draft of a later day comes before a draft of an
/// earlier day, and of two drafts of one day the higher number comes first (days are written
/// `YYYY-MM-DD`).
pub proof fn law_sorted_drafts_newest_first(
    s: Seq<DraftEntry>,
    i: int,
    j: int,
    day1: Seq<char>,
    n1: nat,
    day2: Seq<char>,
    n2: nat,
)
    requires
        newest_first(s),
        0 <= i < s.len(),
        0 <= j < s.len(),
        s[i].file_name@ == draft_file_name(day1, n1),
        s[j].file_name@ == draft_file_name(day2, n2),
        day1.len() == 10,
        day2.len() == 10,
        n1 <= usize::MAX,
        n2 <= usize::MAX,
        (day1 != day2 && lex_le(day2, day1)) || (day1 == day2 && n1 > n2),
    ensures
        i < j,
{
    lemma_dated_file_name(day1, n1);
    lemma_dated_file_name(day2, n2);
    if j < i {
        assert(listed_before(s[j].file_name@, s[i].file_name@));
        if day1 != day2 {
            lemma_lex_antisymmetric(day1, day2);
        }
    } else if j == i {
        assert(dated(s[i].file_name@) == dated(s[j].file_name@));
    }
}

/// A draft named by day and number comes before any draft named otherwise.
pub proof fn law_dated_drafts_come_first(s: Seq<DraftEntry>, i: int, j: int)
    requires
        newest_first(s),
        0 <= i < s.len(),
        0 <= j < s.len(),
        dated(s[i].file_name@) is Some,
        dated(s[j].file_name@) is None,
    ensures
        i < j,
{
    if j < i {
        assert(listed_before(s[j].file_name@, s[i].file_name@));
    }
}

/// `a` comes before `b` in code-point order, and they differ.
fn lex_less(a: &Vec<char>, b: &Vec<char>) -> (r: bool)
    ensures
        r == (lex_le(a@, b@) && a@ != b@),
{
    let mut i: usize = 0;
    assert(a@.skip(0) =~= a@);
    assert(b@.skip(0) =~= b@);
    while i < a.len() && i < b.len() && a[i] == b[i]
        invariant
            i <= a@.len(),
            i <= b@.len(),
            a@.take(i as int) == b@.take(i as int),
            lex_le(a@, b@) == lex_le(a@.skip(i as int), b@.skip(i as int)),
            (a@ == b@) == (a@.skip(i as int) == b@.skip(i as int)),
        decreases a@.len() - i,
    {
        proof {
            let sa = a@.skip(i as int);
            let sb = b@.skip(i as int);
            assert(sa.drop_first() =~= a@.skip(i + 1));
            assert(sb.drop_first() =~= b@.skip(i + 1));
            assert(a@.take(i + 1) =~= a@.take(i as int).push(a@[i as int]));
            assert(b@.take(i + 1) =~= b@.take(i as int).push(b@[i as int]));
            assert(sa =~= seq![sa[0]] + sa.drop_first());
            assert(sb =~= seq![sb[0]] + sb.drop_first());
            if sa.drop_first() == sb.drop_first() {
                assert(sa =~= sb);
            }
        }
        i += 1;
    }
    let ghost sa = a@.skip(i as int);
    let ghost sb = b@.skip(i as int);
    if i == a.len() {
        proof {
            assert(sa.len() == 0);
            if sb.len() == 0 {
                assert(sa =~= sb);
            }
        }
        i < b.len()
    } else if i == b.len() {
        assert(sb.len() == 0 && sa.len() > 0);
        false
    } else {
        assert(sa[0] != sb[0]);
        a[i] < b[i]
    }
}

/// `a` is at most `b` in code-point order.
fn lex_le_exec(a: &Vec<char>, b: &Vec<char>) -> (r: bool)
    ensures
        r == lex_le(a@, b@),
{
    let less = lex_less(b, a);
    proof {
        if less {
            if lex_le(a@, b@) {
                lemma_lex_antisymmetric(a@, b@);
            }
        } else if b@ == a@ {
            lemma_lex_reflexive(a@);
        } else {
            lemma_lex_total(a@, b@);
        }
    }
    !less
}

/// The day and number of the draft named `name`, when it is named that way.
fn dated_exec(name: &str) -> (r: Option<(Vec<char>, usize)>)
    ensures
        match r {
            Some((day, n)) => dated(name@) == Some((day@, n as nat)),
            None => dated(name@) is None,
        },
{
    let chars = chars_of(name);
    if chars.len() < 10 {
        return None;
    }
    let day = string_from_range(&chars, 0, 10);
    assert(day@ =~= name@.take(10));
    let day_chars = chars_of(day.as_str());
    let head_s = concat2(day.as_str(), "-");
    let head = chars_of(head_s.as_str());
    let sql = chars_of(".sql");
    match draft_index_exec(&day_chars, &head, &sql, name) {
        Some(n) => Some((day_chars, n)),
        None => None,
    }
}

/// Whether the draft named `a` may be listed before the one named `b`.
pub fn listed_before_exec(a: &str, b: &str) -> (r: bool)
    ensures
        r == listed_before(a@, b@),
{
    let ac = chars_of(a);
    let bc = chars_of(b);
    match dated_exec(a) {
        Some((day_a, n_a)) => match dated_exec(b) {
            Some((day_b, n_b)) => {
                let same_day = lex_le_exec(&day_a, &day_b) && lex_le_exec(&day_b, &day_a);
                proof {
                    if lex_le(day_a@, day_b@) && lex_le(day_b@, day_a@) {
                        lemma_lex_antisymmetric(day_a@, day_b@);
                    }
                    if day_a@ == day_b@ {
                        lemma_lex_reflexive(day_a@);
                    }
                }
                if !same_day {
                    lex_le_exec(&day_b, &day_a)
                } else if n_a != n_b {
                    n_a > n_b
                } else {
                    lex_le_exec(&bc, &ac)
                }
            },
            None => true,
        },
        None => match dated_exec(b) {
            Some(_) => false,
            None => lex_le_exec(&bc, &ac),
        },
    }
}

/// The drafts listed newest first: later days before earlier ones, higher numbers of a day
/// before lower ones, and drafts named otherwise last, by file name from greatest to least.
pub fn sort_drafts(drafts: Vec<DraftEntry>) -> (r: Vec<DraftEntry>)
    ensures
        newest_first(r@),
        r@.to_multiset() == drafts@.to_multiset(),
{
    let mut input = drafts;
    let mut out: Vec<DraftEntry> = Vec::new();
    let ghost whole = input@.to_multiset();
    while input.len() > 0
        invariant
            newest_first(out@),
            out@.to_multiset().add(input@.to_multiset()) == whole,
        decreases input@.len(),
    {
        let ghost before_in = input@;
        let ghost before_out = out@;
        let x = input.remove(0);
        let mut p: usize = 0;
        let mut stop = false;
        while p < out.len() && !stop
            invariant
                p <= out@.len(),
                out@ == before_out,
                newest_first(out@),
                forall|k: int| 0 <= k < p ==> listed_before(#[trigger] out@[k].file_name@, x.file_name@),
                stop ==> p < out@.len() && listed_before(x.file_name@, out@[p as int].file_name@),
            decreases out@.len() - p + (if stop {
                0int
            } else {
                1int
            }),
        {
            if !listed_before_exec(out[p].file_name.as_str(), x.file_name.as_str()) {
                proof {
                    lemma_listed_before_total(x.file_name@, out@[p as int].file_name@);
                }
                stop = true;
            } else {
                p += 1;
            }
        }
        proof {
            if p < out@.len() {
                assert(stop);
                assert forall|k: int| p <= k < out@.len() implies listed_before(
                    x.file_name@,
                    #[trigger] out@[k].file_name@,
                ) by {
                    if k > p {
                        lemma_listed_before_transitive(
                            x.file_name@,
                            out@[p as int].file_name@,
                            out@[k].file_name@,
                        );
                    }
                }
            }
        }
        out.insert(p, x);
        proof {
            let o = out@;
            assert forall|i: int, j: int| 0 <= i < j < o.len() implies listed_before(
                #[trigger] o[i].file_name@,
                #[trigger] o[j].file_name@,
            ) by {
                if i < p && j < p {
                    assert(o[i] == before_out[i] && o[j] == before_out[j]);
                } else if i < p && j == p {
                } else if i < p && j > p {
                    assert(o[i] == before_out[i] && o[j] == before_out[j - 1]);
                    assert(listed_before(x.file_name@, before_out[j - 1].file_name@));
                    lemma_listed_before_transitive(
                        before_out[i].file_name@,
                        x.file_name@,
                        before_out[j - 1].file_name@,
                    );
                } else if i == p {
                    assert(o[j] == before_out[j - 1]);
                } else {
                    assert(o[i] == before_out[i - 1] && o[j] == before_out[j - 1]);
                }
            }
            assert(before_in.remove(0) == input@);
            assert(out@.to_multiset().add(input@.to_multiset()) =~= whole);
        }
    }
    out
}

// ---------------------------------------------------------------------------
// Naming a new draft
// ---------------------------------------------------------------------------

pub open spec fn ends_with(s: Seq<char>, suffix: Seq<char>) -> bool {
    suffix.len() <= s.len() && s.skip(s.len() - suffix.len()) == suffix
}

/// Whether a file of the drafts directory is a draft: its extension (what follows the last
/// `.`, with something before that dot) is `sql`.
pub open spec fn is_draft_file(name: Seq<char>) -> bool {
    name.len() > 4 && ends_with(name, ".sql"@)
}

pub fn is_draft_file_name(name: &str) -> (r: bool)
    ensures
        r == is_draft_file(name@),
{
    let n = chars_of(name);
    let sql = chars_of(".sql");
    proof {
        reveal_strlit(".sql");
    }
    n.len() > 4 && chars_end_with(&n, &sql)
}

/// The number `N` of a file named `prefix-N.sql`, when it has that form.
pub open spec fn draft_index(prefix: Seq<char>, name: Seq<char>) -> Option<nat> {
    let head = prefix + "-"@;
    if !starts_with(name, prefix) || !ends_with(name, ".sql"@) || !starts_with(name, head) {
        None
    } else {
        let rest = name.skip(head.len() as int);
        if !ends_with(rest, ".sql"@) {
            None
        } else {
            parse_usize(rest.take(rest.len() - 4))
        }
    }
}

/// The highest draft number among `names` for the day `prefix` (0 when there is none).
pub open spec fn max_draft_index(prefix: Seq<char>, names: Seq<Seq<char>>) -> nat
    decreases names.len(),
{
    if names.len() == 0 {
        0
    } else {
        let rest = max_draft_index(prefix, names.drop_last());
        match draft_index(prefix, names.last()) {
            Some(n) => if n > rest {
                n
            } else {
                rest
            },
            None => rest,
        }
    }
}

pub open spec fn draft_file_name(prefix: Seq<char>, n: nat) -> Seq<char> {
    prefix + "-"@ + decimal(n) + ".sql"@
}

/// The name of the next draft of the day, when its number fits in a `usize`.
pub open spec fn next_name(prefix: Seq<char>, names: Seq<Seq<char>>) -> Option<Seq<char>> {
    let n = max_draft_index(prefix, names);
    if n < usize::MAX {
        Some(draft_file_name(prefix, n + 1))
    } else {
        None
    }
}

proof fn lemma_max_draft_index_bounds(prefix: Seq<char>, names: Seq<Seq<char>>, j: int)
    requires
        0 <= j < names.len(),
    ensures
        draft_index(prefix, names[j]) matches Some(k) ==> k <= max_draft_index(prefix, names),
    decreases names.len(),
{
    if j < names.len() - 1 {
        lemma_max_draft_index_bounds(prefix, names.drop_last(), j);
        assert(names.drop_last()[j] == names[j]);
    }
}

proof fn lemma_draft_index_of_file_name(prefix: Seq<char>, n: nat)
    requires
        n <= usize::MAX,
    ensures
        draft_index(prefix, draft_file_name(prefix, n)) == Some(n),
{
    reveal_strlit("-");
    reveal_strlit(".sql");
    lemma_parse_decimal(n);
    let d = decimal(n);
    let name = draft_file_name(prefix, n);
    let head = prefix + "-"@;
    assert(name.take(prefix.len() as int) =~= prefix);
    assert(name.take(head.len() as int) =~= head);
    assert(name.skip(name.len() - 4) =~= ".sql"@);
    let rest = name.skip(head.len() as int);
    assert(rest =~= d + ".sql"@);
    assert(rest.skip(rest.len() - 4) =~= ".sql"@);
    assert(rest.take(rest.len() - 4) =~= d);
}

/// A new draft gets a numbered name of its day whose number is above every number already
/// taken that day; in particular it is none of the existing names.
pub proof fn law_next_draft_name_is_new(prefix: Seq<char>, names: Seq<Seq<char>>)
    ensures
        next_name(prefix, names) matches Some(s) ==> (draft_index(prefix, s) == Some(
            max_draft_index(prefix, names) + 1,
        ) && (forall|j: int|
            0 <= j < names.len() ==> (draft_index(prefix, #[trigger] names[j]) matches Some(k)
                ==> k < max_draft_index(prefix, names) + 1)) && !names.contains(s)),
{
    let m = max_draft_index(prefix, names);
    if m < usize::MAX {
        let s = draft_file_name(prefix, m + 1);
        lemma_draft_index_of_file_name(prefix, m + 1);
        assert forall|j: int| 0 <= j < names.len() implies (draft_index(
            prefix,
            #[trigger] names[j],
        ) matches Some(k) ==> k < m + 1) by {
            lemma_max_draft_index_bounds(prefix, names, j);
        }
        if names.contains(s) {
            let j = choose|j: int| 0 <= j < names.len() && names[j] == s;
            lemma_max_draft_index_bounds(prefix, names, j);
        }
    }
}

fn chars_end_with(s: &Vec<char>, suffix: &Vec<char>) -> (r: bool)
    ensures
        r == ends_with(s@, suffix@),
{
    if suffix.len() > s.len() {
        return false;
    }
    let off = s.len() - suffix.len();
    let mut i: usize = 0;
    while i < suffix.len()
        invariant
            off + suffix@.len() == s@.len(),
            s@.len() == s.len(),
            i <= suffix@.len(),
            forall|j: int| 0 <= j < i ==> s@[off + j] == suffix@[j],
        decreases suffix@.len() - i,
    {
        if s[off + i] != suffix[i] {
            assert(s@.skip(off as int)[i as int] == s@[off + i]);
            return false;
        }
        i += 1;
    }
    assert(s@.skip(off as int) =~= suffix@);
    true
}

fn draft_index_exec(prefix: &Vec<char>, head: &Vec<char>, sql: &Vec<char>, name: &str) -> (r:
    Option<usize>)
    requires
        head@ == prefix@ + "-"@,
        sql@ == ".sql"@,
    ensures
        match r {
            Some(n) => draft_index(prefix@, name@) == Some(n as nat),
            None => draft_index(prefix@, name@) is None,
        },
{
    let n = chars_of(name);
    if !chars_start_with(&n, prefix) || !chars_end_with(&n, sql) || !chars_start_with(&n, head) {
        return None;
    }
    let rest_len = n.len() - head.len();
    let rest = string_from_range(&n, head.len(), n.len());
    let rc = chars_of(rest.as_str());
    assert(rc@ =~= name@.skip(head@.len() as int));
    if !chars_end_with(&rc, sql) {
        return None;
    }
    assert(rc@.len() == rest_len);
    proof {
        reveal_strlit(".sql");
    }
    assert(sql@.len() == 4);
    let digits = string_from_range(&rc, 0, rest_len - 4);
    assert(digits@ =~= rc@.take(rc@.len() - 4));
    parse_usize_exec(digits.as_str())
}

/// The name for a new draft of the day `prefix`: `prefix-(N+1).sql` where `N` is the highest
/// number among the existing `prefix-N.sql` names (0 when there is none). `None` when `N + 1`
/// does not fit in a `usize`.
pub fn next_draft_file_name(prefix: &str, names: &Vec<String>) -> (r: Option<String>)
    ensures
        match r {
            Some(s) => next_name(prefix@, names@.map_values(|s: String| s@)) == Some(s@),
            None => next_name(prefix@, names@.map_values(|s: String| s@)) is None,
        },
{
    let p = chars_of(prefix);
    let head_s = concat2(prefix, "-");
    let head = chars_of(head_s.as_str());
    let sql = chars_of(".sql");
    let ghost ns = names@.map_values(|s: String| s@);
    let mut max_index: usize = 0;
    let mut i: usize = 0;
    while i < names.len()
        invariant
            i <= names@.len(),
            ns == names@.map_values(|s: String| s@),
            p@ == prefix@,
            head@ == prefix@ + "-"@,
            sql@ == ".sql"@,
            max_index as nat == max_draft_index(prefix@, ns.take(i as int)),
        decreases names@.len() - i,
    {
        assert(ns.take(i + 1).drop_last() =~= ns.take(i as int));
        if let Some(index) = draft_index_exec(&p, &head, &sql, names[i].as_str()) {
            if index > max_index {
                max_index = index;
            }
        }
        i += 1;
    }
    assert(ns.take(names@.len() as int) =~= ns);
    if max_index == usize::MAX {
        return None;
    }
    let number = decimal_string((max_index + 1) as u128);
    let a = concat2(head_s.as_str(), number.as_str());
    let r = concat2(a.as_str(), ".sql");
    assert(r@ =~= draft_file_name(prefix@, (max_index + 1) as nat));
    Some(r)
}

} // verus!
