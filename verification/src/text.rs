//! Character-level helpers: ASCII case mapping, word scanning, trimming,
//! decimal rendering and parsing, all stated over `Seq<char>` views.

use vstd::prelude::*;

verus! {

// ---------------------------------------------------------------------------
// Character classes
// ---------------------------------------------------------------------------

pub open spec fn is_ascii_digit(c: char) -> bool {
    '0' <= c && c <= '9'
}

pub open spec fn is_ascii_alnum(c: char) -> bool {
    ||| '0' <= c && c <= '9'
    ||| 'a' <= c && c <= 'z'
    ||| 'A' <= c && c <= 'Z'
}

/// Characters that may occur inside an SQL identifier or keyword.
pub open spec fn is_word_char(c: char) -> bool {
    is_ascii_alnum(c) || c == '_'
}

/// The Unicode `White_Space` property, which is what `char::is_whitespace` tests.
pub open spec fn is_unicode_space(c: char) -> bool {
    ||| '\t' <= c && c <= '\r'
    ||| c == ' '
    ||| c == '\u{85}'
    ||| c == '\u{A0}'
    ||| c == '\u{1680}'
    ||| '\u{2000}' <= c && c <= '\u{200A}'
    ||| c == '\u{2028}'
    ||| c == '\u{2029}'
    ||| c == '\u{202F}'
    ||| c == '\u{205F}'
    ||| c == '\u{3000}'
}

pub fn is_ascii_alnum_char(c: char) -> (r: bool)
    ensures
        r == is_ascii_alnum(c),
{
    ('0' <= c && c <= '9') || ('a' <= c && c <= 'z') || ('A' <= c && c <= 'Z')
}

pub fn is_word_char_exec(c: char) -> (r: bool)
    ensures
        r == is_word_char(c),
{
    is_ascii_alnum_char(c) || c == '_'
}

pub fn is_unicode_space_char(c: char) -> (r: bool)
    ensures
        r == is_unicode_space(c),
{
    ('\t' <= c && c <= '\r') || c == ' ' || c == '\u{85}' || c == '\u{A0}' || c == '\u{1680}'
        || ('\u{2000}' <= c && c <= '\u{200A}') || c == '\u{2028}' || c == '\u{2029}' || c
        == '\u{202F}' || c == '\u{205F}' || c == '\u{3000}'
}

// ---------------------------------------------------------------------------
// ASCII case mapping
// ---------------------------------------------------------------------------

pub open spec fn upper_char(c: char) -> char {
    if 'a' <= c && c <= 'z' {
        ((c as u32) - 32) as char
    } else {
        c
    }
}

pub open spec fn lower_char(c: char) -> char {
    if 'A' <= c && c <= 'Z' {
        ((c as u32) + 32) as char
    } else {
        c
    }
}

pub open spec fn upper(s: Seq<char>) -> Seq<char> {
    s.map_values(|c: char| upper_char(c))
}

pub open spec fn lower(s: Seq<char>) -> Seq<char> {
    s.map_values(|c: char| lower_char(c))
}

pub fn upper_char_exec(c: char) -> (r: char)
    ensures
        r == upper_char(c),
{
    if 'a' <= c && c <= 'z' {
        ((c as u8) - 32) as char
    } else {
        c
    }
}

pub fn lower_char_exec(c: char) -> (r: char)
    ensures
        r == lower_char(c),
{
    if 'A' <= c && c <= 'Z' {
        ((c as u8) + 32) as char
    } else {
        c
    }
}

// ---------------------------------------------------------------------------
// Strings and character vectors
// ---------------------------------------------------------------------------

/// Appends one character to a string.
/// Trusted: `String::push`, which std documents as appending the character to the end.
#[verifier::external_body]
pub(crate) fn push_char(s: &mut String, c: char)
    ensures
        final(s)@ == old(s)@.push(c),
{
    s.push(c);
}

/// The characters of a string, in order.
pub fn chars_of(s: &str) -> (r: Vec<char>)
    ensures
        r@ == s@,
{
    let mut r: Vec<char> = Vec::new();
    for c in it: s.chars()
        invariant
            r@ == it.seq().take(it.index() as int),
            it.seq() == s@,
    {
        r.push(c);
    }
    r
}

/// The string made of `chars[from..to]`.
pub fn string_from_range(chars: &Vec<char>, from: usize, to: usize) -> (r: String)
    requires
        from <= to <= chars@.len(),
    ensures
        r@ == chars@.subrange(from as int, to as int),
{
    let mut r = String::new();
    let mut i = from;
    while i < to
        invariant
            from <= i <= to <= chars@.len(),
            r@ == chars@.subrange(from as int, i as int),
        decreases to - i,
    {
        push_char(&mut r, chars[i]);
        assert(chars@.subrange(from as int, i + 1) == chars@.subrange(from as int, i as int).push(
            chars@[i as int],
        ));
        i += 1;
    }
    r
}

/// The string made of all of `chars`.
pub fn string_from_chars(chars: &Vec<char>) -> (r: String)
    ensures
        r@ == chars@,
{
    let r = string_from_range(chars, 0, chars.len());
    assert(chars@.subrange(0, chars@.len() as int) == chars@);
    r
}

/// Appends `chars` to `s`.
pub(crate) fn push_chars(s: &mut String, v: &Vec<char>)
    ensures
        final(s)@ == old(s)@ + v@,
{
    let ghost start = s@;
    let ghost chars = v@;
    let mut i: usize = 0;
    while i < v.len()
        invariant
            i <= v@.len(),
            v@ == chars,
            s@ == start + chars.take(i as int),
        decreases v@.len() - i,
    {
        push_char(s, v[i]);
        assert(chars.take(i + 1) == chars.take(i as int).push(chars[i as int]));
        i += 1;
    }
    assert(chars.take(v@.len() as int) == chars);
}

/// A copy of a string literal or slice as an owned string.
pub fn owned(s: &str) -> (r: String)
    ensures
        r@ == s@,
{
    let chars = chars_of(s);
    string_from_chars(&chars)
}

/// Concatenation of two string slices.
pub fn concat2(a: &str, b: &str) -> (r: String)
    ensures
        r@ == a@ + b@,
{
    let mut r = owned(a);
    let bc = chars_of(b);
    push_chars(&mut r, &bc);
    r
}

pub fn to_ascii_upper(s: &str) -> (r: String)
    ensures
        r@ == upper(s@),
{
    let chars = chars_of(s);
    let mut r = String::new();
    let mut i: usize = 0;
    while i < chars.len()
        invariant
            i <= chars@.len(),
            chars@ == s@,
            r@ == upper(s@.take(i as int)),
        decreases chars@.len() - i,
    {
        push_char(&mut r, upper_char_exec(chars[i]));
        assert(upper(s@.take(i + 1)) == upper(s@.take(i as int)).push(upper_char(s@[i as int])));
        i += 1;
    }
    assert(s@.take(chars@.len() as int) == s@);
    r
}

pub fn to_ascii_lower(s: &str) -> (r: String)
    ensures
        r@ == lower(s@),
{
    let chars = chars_of(s);
    let mut r = String::new();
    let mut i: usize = 0;
    while i < chars.len()
        invariant
            i <= chars@.len(),
            chars@ == s@,
            r@ == lower(s@.take(i as int)),
        decreases chars@.len() - i,
    {
        push_char(&mut r, lower_char_exec(chars[i]));
        assert(lower(s@.take(i + 1)) == lower(s@.take(i as int)).push(lower_char(s@[i as int])));
        i += 1;
    }
    assert(s@.take(chars@.len() as int) == s@);
    r
}

pub fn chars_equal(a: &Vec<char>, b: &Vec<char>) -> (r: bool)
    ensures
        r == (a@ == b@),
{
    if a.len() != b.len() {
        return false;
    }
    let mut i: usize = 0;
    while i < a.len()
        invariant
            i <= a@.len(),
            a@.len() == b@.len(),
            forall|j: int| 0 <= j < i ==> a@[j] == b@[j],
        decreases a@.len() - i,
    {
        if a[i] != b[i] {
            return false;
        }
        i += 1;
    }
    assert(a@ =~= b@);
    true
}

/// Equality of two string slices by their characters.
pub fn str_equal(a: &str, b: &str) -> (r: bool)
    ensures
        r == (a@ == b@),
{
    let ac = chars_of(a);
    let bc = chars_of(b);
    chars_equal(&ac, &bc)
}

pub open spec fn starts_with(s: Seq<char>, prefix: Seq<char>) -> bool {
    prefix.len() <= s.len() && s.take(prefix.len() as int) == prefix
}

pub fn chars_start_with(s: &Vec<char>, prefix: &Vec<char>) -> (r: bool)
    ensures
        r == starts_with(s@, prefix@),
{
    if prefix.len() > s.len() {
        return false;
    }
    let mut i: usize = 0;
    while i < prefix.len()
        invariant
            i <= prefix@.len() <= s@.len(),
            forall|j: int| 0 <= j < i ==> s@[j] == prefix@[j],
        decreases prefix@.len() - i,
    {
        if s[i] != prefix[i] {
            assert(s@.take(prefix@.len() as int)[i as int] == s@[i as int]);
            return false;
        }
        i += 1;
    }
    assert(s@.take(prefix@.len() as int) =~= prefix@);
    true
}

// ---------------------------------------------------------------------------
// Word scanning
// ---------------------------------------------------------------------------

/// Start of the run of word characters that ends at position `i`.
pub open spec fn word_start(s: Seq<char>, i: int) -> int
    decreases i,
{
    if i <= 0 || i > s.len() {
        i
    } else if is_word_char(s[i - 1]) {
        word_start(s, i - 1)
    } else {
        i
    }
}

/// Start of the run of non-word characters that ends at position `i`.
pub open spec fn gap_start(s: Seq<char>, i: int) -> int
    decreases i,
{
    if i <= 0 || i > s.len() {
        i
    } else if !is_word_char(s[i - 1]) {
        gap_start(s, i - 1)
    } else {
        i
    }
}

pub proof fn lemma_word_start_bounds(s: Seq<char>, i: int)
    requires
        0 <= i <= s.len(),
    ensures
        0 <= word_start(s, i) <= i,
        forall|k: int| word_start(s, i) <= k < i ==> is_word_char(#[trigger] s[k]),
        word_start(s, i) > 0 ==> !is_word_char(s[word_start(s, i) - 1]),
    decreases i,
{
    if i > 0 && is_word_char(s[i - 1]) {
        lemma_word_start_bounds(s, i - 1);
    }
}

pub proof fn lemma_gap_start_bounds(s: Seq<char>, i: int)
    requires
        0 <= i <= s.len(),
    ensures
        0 <= gap_start(s, i) <= i,
        forall|k: int| gap_start(s, i) <= k < i ==> !is_word_char(#[trigger] s[k]),
        gap_start(s, i) > 0 ==> is_word_char(s[gap_start(s, i) - 1]),
    decreases i,
{
    if i > 0 && !is_word_char(s[i - 1]) {
        lemma_gap_start_bounds(s, i - 1);
    }
}

pub fn word_start_exec(s: &Vec<char>, i: usize) -> (r: usize)
    requires
        i <= s@.len(),
    ensures
        r == word_start(s@, i as int),
{
    let mut j = i;
    while j > 0 && is_word_char_exec(s[j - 1])
        invariant
            j <= i <= s@.len(),
            word_start(s@, j as int) == word_start(s@, i as int),
        decreases j,
    {
        j -= 1;
    }
    j
}

pub fn gap_start_exec(s: &Vec<char>, i: usize) -> (r: usize)
    requires
        i <= s@.len(),
    ensures
        r == gap_start(s@, i as int),
{
    let mut j = i;
    while j > 0 && !is_word_char_exec(s[j - 1])
        invariant
            j <= i <= s@.len(),
            gap_start(s@, j as int) == gap_start(s@, i as int),
        decreases j,
    {
        j -= 1;
    }
    j
}

// ---------------------------------------------------------------------------
// Trimming and the first whitespace-separated word
// ---------------------------------------------------------------------------

/// Index of the first character that is not white space (or the length).
pub open spec fn lead_space_end(s: Seq<char>, i: int) -> int
    decreases s.len() - i,
{
    if i < 0 || i >= s.len() {
        i
    } else if is_unicode_space(s[i]) {
        lead_space_end(s, i + 1)
    } else {
        i
    }
}

/// Index one past the last character that is not white space, scanning down from `i`.
pub open spec fn trail_space_start(s: Seq<char>, i: int) -> int
    decreases i,
{
    if i <= 0 || i > s.len() {
        i
    } else if is_unicode_space(s[i - 1]) {
        trail_space_start(s, i - 1)
    } else {
        i
    }
}

/// Index of the first white-space character at or after `i` (or the length).
pub open spec fn word_end(s: Seq<char>, i: int) -> int
    decreases s.len() - i,
{
    if i < 0 || i >= s.len() {
        i
    } else if !is_unicode_space(s[i]) {
        word_end(s, i + 1)
    } else {
        i
    }
}

/// `str::trim`: the text without leading and trailing white space.
pub open spec fn trim(s: Seq<char>) -> Seq<char> {
    let a = lead_space_end(s, 0);
    let b = trail_space_start(s, s.len() as int);
    if a < b {
        s.subrange(a, b)
    } else {
        Seq::empty()
    }
}

/// The first white-space separated word of `s` (empty when there is none).
pub open spec fn first_word(s: Seq<char>) -> Seq<char> {
    let a = lead_space_end(s, 0);
    s.subrange(a, word_end(s, a))
}

pub proof fn lemma_lead_space_end(s: Seq<char>, i: int)
    requires
        0 <= i <= s.len(),
    ensures
        i <= lead_space_end(s, i) <= s.len(),
        forall|k: int| i <= k < lead_space_end(s, i) ==> is_unicode_space(#[trigger] s[k]),
        lead_space_end(s, i) < s.len() ==> !is_unicode_space(s[lead_space_end(s, i)]),
    decreases s.len() - i,
{
    if i < s.len() && is_unicode_space(s[i]) {
        lemma_lead_space_end(s, i + 1);
    }
}

/// ASCII upper-casing keeps white space where it was, and lower-casing after it is
/// lower-casing alone.
pub proof fn lemma_upper_char(c: char)
    ensures
        is_unicode_space(upper_char(c)) == is_unicode_space(c),
        lower_char(upper_char(c)) == lower_char(c),
{
    if 'a' <= c && c <= 'z' {
        assert('A' <= upper_char(c) && upper_char(c) <= 'Z');
        assert(upper_char(c) as u32 == c as u32 - 32);
    }
}

proof fn lemma_upper_lead(s: Seq<char>, i: int)
    requires
        0 <= i <= s.len(),
    ensures
        lead_space_end(upper(s), i) == lead_space_end(s, i),
    decreases s.len() - i,
{
    if i < s.len() {
        lemma_upper_char(s[i]);
        assert(upper(s)[i] == upper_char(s[i]));
        lemma_upper_lead(s, i + 1);
    }
}

proof fn lemma_upper_trail(s: Seq<char>, i: int)
    requires
        0 <= i <= s.len(),
    ensures
        trail_space_start(upper(s), i) == trail_space_start(s, i),
    decreases i,
{
    if i > 0 {
        lemma_upper_char(s[i - 1]);
        assert(upper(s)[i - 1] == upper_char(s[i - 1]));
        lemma_upper_trail(s, i - 1);
    }
}

/// Trimming an upper-cased text is upper-casing the trimmed text.
pub proof fn lemma_trim_upper(s: Seq<char>)
    ensures
        trim(upper(s)) == upper(trim(s)),
{
    lemma_upper_lead(s, 0);
    lemma_upper_trail(s, s.len() as int);
    lemma_lead_space_end(s, 0);
    lemma_trail_space_start(s, s.len() as int);
    let a = lead_space_end(s, 0);
    let b = trail_space_start(s, s.len() as int);
    if a < b {
        assert(upper(s).subrange(a, b) =~= upper(s.subrange(a, b)));
    } else {
        assert(upper(Seq::<char>::empty()) =~= Seq::<char>::empty());
    }
}

/// Lower-casing after upper-casing is lower-casing.
pub proof fn lemma_lower_upper(s: Seq<char>)
    ensures
        lower(upper(s)) == lower(s),
{
    assert forall|i: int| 0 <= i < s.len() implies #[trigger] lower(upper(s))[i] == lower(s)[i] by {
        lemma_upper_char(s[i]);
    }
    assert(lower(upper(s)) =~= lower(s));
}

pub open spec fn all_spaces(ws: Seq<char>) -> bool {
    forall|i: int| 0 <= i < ws.len() ==> is_unicode_space(#[trigger] ws[i])
}

proof fn lemma_lead_shift(ws: Seq<char>, s: Seq<char>, j: int)
    requires
        0 <= j <= s.len(),
    ensures
        lead_space_end(ws + s, ws.len() + j) == ws.len() + lead_space_end(s, j),
    decreases s.len() - j,
{
    if j < s.len() {
        assert((ws + s)[ws.len() + j] == s[j]);
        lemma_lead_shift(ws, s, j + 1);
    }
}

proof fn lemma_lead_after_spaces(ws: Seq<char>, s: Seq<char>, i: int)
    requires
        all_spaces(ws),
        0 <= i <= ws.len(),
    ensures
        lead_space_end(ws + s, i) == ws.len() + lead_space_end(s, 0),
    decreases ws.len() - i,
{
    if i < ws.len() {
        assert((ws + s)[i] == ws[i]);
        lemma_lead_after_spaces(ws, s, i + 1);
    } else {
        lemma_lead_shift(ws, s, 0);
    }
}

proof fn lemma_trail_in_spaces(ws: Seq<char>, s: Seq<char>, i: int)
    requires
        all_spaces(ws),
        0 <= i <= ws.len(),
    ensures
        trail_space_start(ws + s, i) == 0,
    decreases i,
{
    if i > 0 {
        assert((ws + s)[i - 1] == ws[i - 1]);
        lemma_trail_in_spaces(ws, s, i - 1);
    }
}

proof fn lemma_trail_shift(ws: Seq<char>, s: Seq<char>, j: int)
    requires
        all_spaces(ws),
        0 <= j <= s.len(),
    ensures
        trail_space_start(ws + s, ws.len() + j) == if trail_space_start(s, j) > 0 {
            ws.len() + trail_space_start(s, j)
        } else {
            0
        },
    decreases j,
{
    if j == 0 {
        lemma_trail_in_spaces(ws, s, ws.len() as int);
    } else {
        assert((ws + s)[ws.len() + j - 1] == s[j - 1]);
        lemma_trail_shift(ws, s, j - 1);
    }
}

/// `word_end` from `i` stops at `j` when the characters from `i` up to `j` are not white space
/// and `j` is the end or a white-space character.
pub proof fn lemma_word_end_at(s: Seq<char>, i: int, j: int)
    requires
        0 <= i <= j <= s.len(),
        forall|k: int| i <= k < j ==> !is_unicode_space(#[trigger] s[k]),
        j == s.len() || is_unicode_space(s[j]),
    ensures
        word_end(s, i) == j,
    decreases j - i,
{
    if i < j {
        lemma_word_end_at(s, i + 1, j);
    }
}

/// White space in front of a text does not change it once trimmed.
pub proof fn lemma_trim_after_spaces(ws: Seq<char>, s: Seq<char>)
    requires
        all_spaces(ws),
    ensures
        trim(ws + s) == trim(s),
{
    lemma_lead_after_spaces(ws, s, 0);
    lemma_trail_shift(ws, s, s.len() as int);
    lemma_lead_space_end(s, 0);
    lemma_trail_space_start(s, s.len() as int);
    let n = ws.len() as int;
    let a = lead_space_end(s, 0);
    let b = trail_space_start(s, s.len() as int);
    assert((ws + s).len() == n + s.len());
    if a < b {
        assert((ws + s).subrange(n + a, n + b) =~= s.subrange(a, b));
    }
}

pub proof fn lemma_trail_space_start(s: Seq<char>, i: int)
    requires
        0 <= i <= s.len(),
    ensures
        0 <= trail_space_start(s, i) <= i,
        forall|k: int| trail_space_start(s, i) <= k < i ==> is_unicode_space(#[trigger] s[k]),
        trail_space_start(s, i) > 0 ==> !is_unicode_space(s[trail_space_start(s, i) - 1]),
    decreases i,
{
    if i > 0 && is_unicode_space(s[i - 1]) {
        lemma_trail_space_start(s, i - 1);
    }
}

pub proof fn lemma_word_end(s: Seq<char>, i: int)
    requires
        0 <= i <= s.len(),
    ensures
        i <= word_end(s, i) <= s.len(),
    decreases s.len() - i,
{
    if i < s.len() && !is_unicode_space(s[i]) {
        lemma_word_end(s, i + 1);
    }
}

pub fn lead_space_end_exec(s: &Vec<char>, i: usize) -> (r: usize)
    requires
        i <= s@.len(),
    ensures
        r == lead_space_end(s@, i as int),
{
    let mut j = i;
    while j < s.len() && is_unicode_space_char(s[j])
        invariant
            i <= j <= s@.len(),
            lead_space_end(s@, j as int) == lead_space_end(s@, i as int),
        decreases s@.len() - j,
    {
        j += 1;
    }
    j
}

pub fn trail_space_start_exec(s: &Vec<char>, i: usize) -> (r: usize)
    requires
        i <= s@.len(),
    ensures
        r == trail_space_start(s@, i as int),
{
    let mut j = i;
    while j > 0 && is_unicode_space_char(s[j - 1])
        invariant
            j <= i <= s@.len(),
            trail_space_start(s@, j as int) == trail_space_start(s@, i as int),
        decreases j,
    {
        j -= 1;
    }
    j
}

pub fn word_end_exec(s: &Vec<char>, i: usize) -> (r: usize)
    requires
        i <= s@.len(),
    ensures
        r == word_end(s@, i as int),
{
    let mut j = i;
    while j < s.len() && !is_unicode_space_char(s[j])
        invariant
            i <= j <= s@.len(),
            word_end(s@, j as int) == word_end(s@, i as int),
        decreases s@.len() - j,
    {
        j += 1;
    }
    j
}

/// `str::trim` on a character vector.
pub fn trim_chars(s: &Vec<char>) -> (r: Vec<char>)
    ensures
        r@ == trim(s@),
{
    let a = lead_space_end_exec(s, 0);
    let b = trail_space_start_exec(s, s.len());
    let mut r: Vec<char> = Vec::new();
    if a < b {
        proof {
            lemma_lead_space_end(s@, 0);
            lemma_trail_space_start(s@, s@.len() as int);
        }
        let mut i = a;
        while i < b
            invariant
                a <= i <= b <= s@.len(),
                r@ == s@.subrange(a as int, i as int),
            decreases b - i,
        {
            r.push(s[i]);
            assert(s@.subrange(a as int, i + 1) == s@.subrange(a as int, i as int).push(
                s@[i as int],
            ));
            i += 1;
        }
    } else {
        assert(r@ == Seq::<char>::empty());
    }
    r
}

/// True when the text holds only white space.
pub open spec fn is_blank(s: Seq<char>) -> bool {
    forall|i: int| 0 <= i < s.len() ==> is_unicode_space(#[trigger] s[i])
}

pub proof fn lemma_trim_empty_iff_blank(s: Seq<char>)
    ensures
        (trim(s).len() == 0) == is_blank(s),
{
    lemma_lead_space_end(s, 0);
    lemma_trail_space_start(s, s.len() as int);
    let a = lead_space_end(s, 0);
    let b = trail_space_start(s, s.len() as int);
    if a < b {
        assert(!is_unicode_space(s[a]));
    } else {
        assert forall|i: int| 0 <= i < s.len() implies is_unicode_space(#[trigger] s[i]) by {
            if i >= a {
                assert(i >= b);
            }
        }
    }
}

// ---------------------------------------------------------------------------
// Decimal numbers
// ---------------------------------------------------------------------------

pub open spec fn digit_char(d: nat) -> char {
    ((d % 10) + 48) as char
}

/// The decimal digits of `n`, most significant first, without leading zeros.
pub open spec fn decimal(n: nat) -> Seq<char>
    decreases n,
{
    if n < 10 {
        seq![digit_char(n)]
    } else {
        decimal(n / 10).push(digit_char(n % 10))
    }
}

/// `decimal(n)` padded with leading zeros to at least `width` characters (`{:0width$}`).
pub open spec fn zero_padded(n: nat, width: nat) -> Seq<char> {
    let d = decimal(n);
    if d.len() >= width {
        d
    } else {
        Seq::new((width - d.len()) as nat, |i: int| '0') + d
    }
}

/// The value of a run of decimal digits.
pub open spec fn digits_value(s: Seq<char>) -> nat
    decreases s.len(),
{
    if s.len() == 0 {
        0
    } else {
        digits_value(s.drop_last()) * 10 + ((s.last() as u32) - 48) as nat
    }
}

pub open spec fn all_digits(s: Seq<char>) -> bool {
    forall|i: int| 0 <= i < s.len() ==> is_ascii_digit(#[trigger] s[i])
}

/// `str::parse::<usize>`: an optional `+`, then one or more decimal digits whose value fits.
pub open spec fn parse_usize(s: Seq<char>) -> Option<nat> {
    let digits = if s.len() > 0 && s[0] == '+' {
        s.drop_first()
    } else {
        s
    };
    if digits.len() == 0 || !all_digits(digits) || digits_value(digits) > usize::MAX {
        None
    } else {
        Some(digits_value(digits))
    }
}

fn digit_char_exec(d: u128) -> (c: char)
    requires
        d < 10,
    ensures
        c == digit_char(d as nat),
{
    ((d as u8) + 48) as char
}

proof fn lemma_decimal_len(n: nat)
    ensures
        decimal(n).len() >= 1,
    decreases n,
{
    if n >= 10 {
        lemma_decimal_len(n / 10);
    }
}

/// Reading back the decimal digits of a number gives the number: `decimal(n)` is a non-empty
/// run of digits whose value is `n`.
pub proof fn lemma_decimal_digits(n: nat)
    ensures
        decimal(n).len() >= 1,
        all_digits(decimal(n)),
        digits_value(decimal(n)) == n,
    decreases n,
{
    let d = n % 10;
    assert(((d % 10) + 48) as char as u32 == (d % 10) + 48);
    assert(d % 10 == d);
    assert(digit_char(d) as u32 - 48 == d);
    if n < 10 {
        assert(decimal(n).drop_last() =~= Seq::<char>::empty());
        assert(decimal(n).last() == digit_char(n));
        assert(digits_value(decimal(n).drop_last()) == 0);
        assert(digits_value(decimal(n)) == n);
    } else {
        lemma_decimal_digits(n / 10);
        let s = decimal(n);
        assert(s.drop_last() =~= decimal(n / 10));
        assert(s.last() == digit_char(d));
        vstd::arithmetic::div_mod::lemma_fundamental_div_mod(n as int, 10);
        assert(digits_value(s) == digits_value(decimal(n / 10)) * 10 + d);
        assert(digits_value(s) == n);
        assert forall|i: int| 0 <= i < s.len() implies is_ascii_digit(#[trigger] s[i]) by {
            if i < s.len() - 1 {
                assert(s[i] == decimal(n / 10)[i]);
            }
        }
    }
}

/// `10^w`.
pub open spec fn pow10(w: nat) -> nat
    decreases w,
{
    if w == 0 {
        1
    } else {
        10 * pow10((w - 1) as nat)
    }
}

/// A number below `10^w` (with `w` at least one) has at most `w` decimal digits.
pub proof fn lemma_decimal_width(n: nat, w: nat)
    requires
        w >= 1,
        n < pow10(w),
    ensures
        decimal(n).len() <= w,
    decreases w,
{
    if n >= 10 {
        let p = pow10((w - 1) as nat);
        assert(w >= 2) by {
            if w == 1 {
                assert(pow10(0) == 1);
            }
        }
        assert(n / 10 < p) by (nonlinear_arith)
            requires
                n < 10 * p,
                n >= 10,
        ;
        lemma_decimal_width(n / 10, (w - 1) as nat);
    }
}

/// Leading zeros do not change the value of a run of digits.
proof fn lemma_zeros_value(k: nat, d: Seq<char>)
    ensures
        digits_value(Seq::new(k, |i: int| '0') + d) == digits_value(d),
    decreases d.len() + k,
{
    let z = Seq::new(k, |i: int| '0');
    if d.len() == 0 {
        assert(z + d =~= z);
        if k > 0 {
            assert(z.drop_last() =~= Seq::new((k - 1) as nat, |i: int| '0'));
            lemma_zeros_value((k - 1) as nat, Seq::empty());
            assert(Seq::new((k - 1) as nat, |i: int| '0') + Seq::<char>::empty() =~= z.drop_last());
        }
    } else {
        assert((z + d).drop_last() =~= z + d.drop_last());
        assert((z + d).last() == d.last());
        lemma_zeros_value(k, d.drop_last());
    }
}

/// A number of at most `w` digits, zero-padded to `w`, is `w` digits whose value is the number.
pub proof fn lemma_zero_padded(n: nat, w: nat)
    requires
        w >= 1,
        n < pow10(w),
    ensures
        zero_padded(n, w).len() == w,
        all_digits(zero_padded(n, w)),
        digits_value(zero_padded(n, w)) == n,
{
    lemma_decimal_width(n, w);
    lemma_decimal_digits(n);
    let d = decimal(n);
    if d.len() < w {
        let k = (w - d.len()) as nat;
        lemma_zeros_value(k, d);
        let z = Seq::new(k, |i: int| '0');
        assert forall|i: int| 0 <= i < (z + d).len() implies is_ascii_digit(#[trigger] (z + d)[i]) by {
            if i >= k {
                assert((z + d)[i] == d[i - k]);
            }
        }
    }
}

/// `parse::<usize>` reads back what `to_string` wrote.
pub proof fn lemma_parse_decimal(n: nat)
    requires
        n <= usize::MAX,
    ensures
        parse_usize(decimal(n)) == Some(n),
{
    lemma_decimal_digits(n);
    assert(is_ascii_digit(decimal(n)[0]));
}

/// `n.to_string()` for unsigned integers.
pub fn decimal_string(n: u128) -> (r: String)
    ensures
        r@ == decimal(n as nat),
{
    // Collect the digits least significant first, then emit them in reverse.
    let mut rev: Vec<char> = Vec::new();
    let mut m = n;
    let ghost mut parts: Seq<nat> = seq![];
    while m >= 10
        invariant
            decimal(n as nat) == decimal(m as nat) + rev@.reverse(),
        decreases m,
    {
        let d = m % 10;
        rev.push(digit_char_exec(d));
        proof {
            assert(decimal(m as nat) == decimal((m / 10) as nat).push(digit_char((m % 10) as nat)));
            assert(rev@.reverse() =~= seq![digit_char((m % 10) as nat)] + rev@.drop_last().reverse());
            assert(decimal(m as nat) + rev@.drop_last().reverse() =~= decimal((m / 10) as nat)
                + rev@.reverse());
        }
        m = m / 10;
    }
    rev.push(digit_char_exec(m));
    proof {
        assert(rev@.reverse() =~= seq![digit_char(m as nat)] + rev@.drop_last().reverse());
        assert(decimal(n as nat) =~= rev@.reverse());
    }
    let mut r = String::new();
    let mut i = rev.len();
    while i > 0
        invariant
            i <= rev@.len(),
            r@ == rev@.reverse().take((rev@.len() - i) as int),
        decreases i,
    {
        i -= 1;
        push_char(&mut r, rev[i]);
        assert(rev@.reverse().take((rev@.len() - i) as int) =~= rev@.reverse().take(
            (rev@.len() - i - 1) as int,
        ).push(rev@[i as int]));
    }
    assert(rev@.reverse().take(rev@.len() as int) =~= rev@.reverse());
    r
}

/// `format!("{:0width$}", n)`.
pub fn zero_padded_string(n: u128, width: usize) -> (r: String)
    ensures
        r@ == zero_padded(n as nat, width as nat),
{
    let d = decimal_string(n);
    let len = d.as_str().unicode_len();
    if len >= width {
        d
    } else {
        let mut r = String::new();
        let mut k: usize = 0;
        while k < width - len
            invariant
                len <= width,
                k <= width - len,
                r@ == Seq::new(k as nat, |i: int| '0'),
            decreases width - len - k,
        {
            push_char(&mut r, '0');
            assert(r@ =~= Seq::new((k + 1) as nat, |i: int| '0'));
            k += 1;
        }
        let dc = chars_of(d.as_str());
        push_chars(&mut r, &dc);
        r
    }
}

/// `format!("{}", n)` for signed integers.
pub open spec fn signed_decimal(n: int) -> Seq<char> {
    if n < 0 {
        seq!['-'] + decimal((-n) as nat)
    } else {
        decimal(n as nat)
    }
}

pub fn signed_decimal_string(n: i64) -> (r: String)
    ensures
        r@ == signed_decimal(n as int),
{
    if n < 0 {
        let mag: u128 = (0i128 - (n as i128)) as u128;
        let d = decimal_string(mag);
        let mut r = String::new();
        push_char(&mut r, '-');
        let dc = chars_of(d.as_str());
        push_chars(&mut r, &dc);
        r
    } else {
        decimal_string(n as u128)
    }
}

/// `str::parse::<usize>` followed by `.ok()`.
pub fn parse_usize_exec(s: &str) -> (r: Option<usize>)
    ensures
        match r {
            Some(v) => parse_usize(s@) == Some(v as nat),
            None => parse_usize(s@) is None,
        },
{
    let chars = chars_of(s);
    let start: usize = if chars.len() > 0 && chars[0] == '+' {
        1
    } else {
        0
    };
    let ghost digits = if s@.len() > 0 && s@[0] == '+' {
        s@.drop_first()
    } else {
        s@
    };
    assert(digits =~= s@.subrange(start as int, s@.len() as int));
    if start == chars.len() {
        return None;
    }
    let mut value: usize = 0;
    let mut i = start;
    while i < chars.len()
        invariant
            start <= i <= chars@.len(),
            chars@ == s@,
            digits == s@.subrange(start as int, s@.len() as int),
            digits == (if s@.len() > 0 && s@[0] == '+' {
                s@.drop_first()
            } else {
                s@
            }),
            digits.len() > 0,
            all_digits(s@.subrange(start as int, i as int)),
            value as nat == digits_value(s@.subrange(start as int, i as int)),
        decreases chars@.len() - i,
    {
        let c = chars[i];
        let ghost pre = s@.subrange(start as int, i as int);
        let ghost next = s@.subrange(start as int, i + 1);
        assert(next.drop_last() =~= pre);
        assert(next.last() == c);
        if !('0' <= c && c <= '9') {
            assert(!all_digits(digits)) by {
                assert(digits[i - start] == c);
            }
            return None;
        }
        let d = (c as u32 - 48) as usize;
        if value > (usize::MAX - d) / 10 {
            proof {
                assert(value * 10 + d > usize::MAX) by (nonlinear_arith)
                    requires
                        value > (usize::MAX - d) / 10,
                        d <= 9,
                ;
                if all_digits(digits) {
                    lemma_digits_value_prefix_monotone(digits, (i + 1 - start) as int);
                    assert(digits.take((i + 1 - start) as int) =~= next);
                }
            }
            return None;
        }
        value = value * 10 + d;
        assert(all_digits(next));
        i += 1;
    }
    assert(s@.subrange(start as int, chars@.len() as int) == digits);
    Some(value)
}

/// The value of a digit string is at least the value of any of its prefixes.
proof fn lemma_digits_value_prefix_monotone(s: Seq<char>, k: int)
    requires
        0 <= k <= s.len(),
        all_digits(s),
    ensures
        digits_value(s.take(k)) <= digits_value(s),
    decreases s.len() - k,
{
    if k < s.len() {
        lemma_digits_value_prefix_monotone(s, k + 1);
        assert(s.take(k + 1).drop_last() =~= s.take(k));
        assert(is_ascii_digit(s[k]));
    } else {
        assert(s.take(k) =~= s);
    }
}

} // verus!
