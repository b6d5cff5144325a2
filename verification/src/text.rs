//! Text primitives: the string operations the gateway's rules are written
//! in, each with its meaning over sequences of characters.
use vstd::prelude::*;

verus! {

/// A text as its sequence of characters.
pub type Text = Seq<char>;

/// The texts of a list.
pub open spec fn texts(list: Seq<&str>) -> Seq<Text> {
    list.map_values(|s: &str| s@)
}

/// The characters of an optional text.
pub open spec fn opt_text(s: Option<&str>) -> Option<Text> {
    match s {
        Some(s) => Some(s@),
        None => None,
    }
}

/// The characters of an optional owned text.
pub open spec fn opt_string(s: Option<String>) -> Option<Text> {
    match s {
        Some(s) => Some(s@),
        None => None,
    }
}

/// The texts of a list of owned texts.
pub open spec fn strings(list: Seq<String>) -> Seq<Text> {
    list.map_values(|s: String| s@)
}

// ---------------------------------------------------------------------------
// Character classes
// ---------------------------------------------------------------------------

/// Whether the character is one of the 128 ASCII characters.
pub open spec fn is_ascii_char(c: char) -> bool {
    (c as int) < 128
}

/// The Unicode `White_Space` property of a character.
pub uninterp spec fn unicode_white_space(c: char) -> bool;

/// `char::is_whitespace`: the `White_Space` property. Among the ASCII
/// characters it holds of the space and of the controls from tab to
/// carriage return.
pub assume_specification[ char::is_whitespace ](c: char) -> (r: bool)
    ensures
        is_ascii_char(c) ==> r == (c == ' ' || 9 <= c as int <= 13),
        !is_ascii_char(c) ==> r == unicode_white_space(c),
;

/// White space, as [`char::is_whitespace`] reads it.
pub open spec fn is_space(c: char) -> bool {
    if is_ascii_char(c) {
        c == ' ' || 9 <= c as int <= 13
    } else {
        unicode_white_space(c)
    }
}

/// The Unicode `Alphabetic` property or one of the number categories.
pub uninterp spec fn unicode_alphanumeric(c: char) -> bool;

/// An ASCII letter or digit.
pub open spec fn is_ascii_word(c: char) -> bool {
    ||| '0' <= c <= '9'
    ||| 'a' <= c <= 'z'
    ||| 'A' <= c <= 'Z'
}

/// `char::is_alphanumeric`: letters and numbers. Among the ASCII characters
/// these are the letters and the digits.
pub assume_specification[ char::is_alphanumeric ](c: char) -> (r: bool)
    ensures
        is_ascii_char(c) ==> r == is_ascii_word(c),
        !is_ascii_char(c) ==> r == unicode_alphanumeric(c),
;

/// A letter or number, as [`char::is_alphanumeric`] reads it.
pub open spec fn is_word(c: char) -> bool {
    if is_ascii_char(c) {
        is_ascii_word(c)
    } else {
        unicode_alphanumeric(c)
    }
}

/// The Unicode lowercase mapping of a character (one or more characters).
pub uninterp spec fn unicode_lowercase(c: char) -> Seq<char>;

/// The lowercase form of an ASCII character.
pub open spec fn ascii_lowercase(c: char) -> char {
    if 'A' <= c <= 'Z' {
        ((c as u32) + 32) as char
    } else {
        c
    }
}

/// `char::to_lowercase`, collected: the lowercase mapping of one character.
/// An ASCII character maps to its ASCII lowercase form.
#[verifier::external_body]
pub(crate) fn lowercase_char(c: char) -> (r: Vec<char>)
    ensures
        is_ascii_char(c) ==> r@ == seq![ascii_lowercase(c)],
        !is_ascii_char(c) ==> r@ == unicode_lowercase(c),
{
    c.to_lowercase().collect()
}

/// The lowercase form of a character.
pub open spec fn lower(c: char) -> Text {
    if is_ascii_char(c) {
        seq![ascii_lowercase(c)]
    } else {
        unicode_lowercase(c)
    }
}

/// Whether every character is ASCII.
pub open spec fn is_ascii_text(s: Text) -> bool {
    forall|i: int| 0 <= i < s.len() ==> is_ascii_char(#[trigger] s[i])
}

/// The lowercase form of a text, Unicode's context rules applied.
pub uninterp spec fn unicode_lowercase_text(s: Seq<char>) -> Seq<char>;

/// `str::to_lowercase`: the lowercase form of the whole text. An ASCII text
/// maps character by character.
pub assume_specification[ str::to_lowercase ](s: &str) -> (r: String)
    ensures
        is_ascii_text(s@) ==> r@ == s@.map_values(|c: char| ascii_lowercase(c)),
        !is_ascii_text(s@) ==> r@ == unicode_lowercase_text(s@),
;

/// The lowercase form of a text.
pub open spec fn lower_text(s: Text) -> Text {
    if is_ascii_text(s) {
        s.map_values(|c: char| ascii_lowercase(c))
    } else {
        unicode_lowercase_text(s)
    }
}

// ---------------------------------------------------------------------------
// Building texts
// ---------------------------------------------------------------------------

/// `String::push`: appends one character.
pub assume_specification[ String::push ](s: &mut String, c: char)
    ensures
        final(s)@ == old(s)@.push(c),
;

/// The debug form of a text: quoted, with its special characters escaped.
pub uninterp spec fn debug_text(s: Seq<char>) -> Seq<char>;

/// `{:?}` of a `str`: the quoted, escaped form.
#[verifier::external_body]
pub(crate) fn quoted(s: &str) -> (r: String)
    ensures
        r@ == debug_text(s@),
{
    format!("{:?}", s)
}

/// The characters of a text.
pub fn chars_of(s: &str) -> (v: Vec<char>)
    ensures
        v@ == s@,
{
    let mut v: Vec<char> = Vec::new();
    for c in it: s.chars()
        invariant
            it.seq() == s@,
            v@ == s@.take(it.index()),
    {
        v.push(c);
    }
    v
}

/// Whether the two texts hold the same characters.
pub fn same(a: &str, b: &str) -> (r: bool)
    ensures
        r == (a@ == b@),
{
    let v = chars_of(a);
    let w = chars_of(b);
    let n: usize = v.len();
    if w.len() != n {
        return false;
    }
    let mut i: usize = 0;
    while i < n
        invariant
            i <= n == v@.len() == w@.len(),
            v@ == a@,
            w@ == b@,
            forall|k: int| 0 <= k < i ==> v@[k] == w@[k],
        decreases n - i,
    {
        if v[i] != w[i] {
            return false;
        }
        i = i + 1;
    }
    assert(v@ =~= w@);
    true
}

/// The text made of the characters `v[from..to]`.
pub fn text_of(v: &Vec<char>, from: usize, to: usize) -> (s: String)
    requires
        from <= to <= v@.len(),
    ensures
        s@ == v@.subrange(from as int, to as int),
{
    let mut s = String::new();
    let mut i: usize = from;
    while i < to
        invariant
            from <= i <= to <= v@.len(),
            s@ == v@.subrange(from as int, i as int),
        decreases to - i,
    {
        s.push(v[i]);
        i = i + 1;
    }
    s
}

// ---------------------------------------------------------------------------
// Trimming
// ---------------------------------------------------------------------------

/// The text without its leading white space.
pub open spec fn trim_start(s: Text) -> Text
    decreases s.len(),
{
    if s.len() > 0 && is_space(s[0]) {
        trim_start(s.skip(1))
    } else {
        s
    }
}

/// The text without its trailing white space.
pub open spec fn trim_end(s: Text) -> Text
    decreases s.len(),
{
    if s.len() > 0 && is_space(s.last()) {
        trim_end(s.drop_last())
    } else {
        s
    }
}

/// The text without leading and trailing white space.
pub open spec fn trimmed(s: Text) -> Text {
    trim_end(trim_start(s))
}

/// The text without leading and trailing white space.
pub fn trim(s: &str) -> (r: &str)
    ensures
        r@ == trimmed(s@),
{
    let v = chars_of(s);
    let mut a: usize = 0;
    assert(s@.skip(0) =~= s@);
    while a < v.len() && v[a].is_whitespace()
        invariant
            v@ == s@,
            a <= v@.len(),
            trim_start(s@) == trim_start(s@.skip(a as int)),
        decreases v@.len() - a,
    {
        assert(s@.skip(a as int).skip(1) =~= s@.skip(a + 1));
        a = a + 1;
    }
    let mut b: usize = v.len();
    assert(s@.subrange(a as int, b as int) =~= s@.skip(a as int));
    while b > a && v[b - 1].is_whitespace()
        invariant
            v@ == s@,
            a <= b <= v@.len(),
            trimmed(s@) == trim_end(s@.subrange(a as int, b as int)),
        decreases b,
    {
        assert(s@.subrange(a as int, b as int).drop_last() =~= s@.subrange(a as int, b - 1));
        b = b - 1;
    }
    s.substring_char(a, b)
}

/// Whether only white space is left of the text.
pub open spec fn is_blank(s: Text) -> bool {
    trimmed(s).len() == 0
}

/// Whether only white space is left of the text.
pub fn blank(s: &str) -> (r: bool)
    ensures
        r == is_blank(s@),
{
    trim(s).is_empty()
}

/// A text that opens with a character that is no white space is not blank.
pub proof fn lemma_opens_visibly(s: Text)
    requires
        s.len() > 0,
        !is_space(s[0]),
    ensures
        !is_blank(s),
{
    lemma_trim_end_keeps_front(s);
}

/// A text that neither opens nor closes with white space is trimmed already.
pub proof fn lemma_trimmed_already(s: Text)
    requires
        s.len() > 0,
        !is_space(s[0]),
        !is_space(s.last()),
    ensures
        trimmed(s) == s,
{
}

/// A trimmed text does not end in white space.
pub proof fn lemma_trimmed_end(s: Text)
    ensures
        trimmed(s).len() > 0 ==> !is_space(trimmed(s).last()),
{
    lemma_trim_end_stops(trim_start(s));
}

/// Trimming the end leaves no white space there.
proof fn lemma_trim_end_stops(s: Text)
    ensures
        trim_end(s).len() > 0 ==> !is_space(trim_end(s).last()),
    decreases s.len(),
{
    if s.len() > 0 && is_space(s.last()) {
        lemma_trim_end_stops(s.drop_last());
    }
}

/// Trimming the end stops at a character that is no white space.
proof fn lemma_trim_end_keeps_front(s: Text)
    requires
        s.len() > 0,
        !is_space(s[0]),
    ensures
        trim_end(s).len() > 0,
    decreases s.len(),
{
    if is_space(s.last()) {
        lemma_trim_end_keeps_front(s.drop_last());
    }
}

/// The text without its trailing run of `c`.
pub open spec fn without_trailing(s: Text, c: char) -> Text
    decreases s.len(),
{
    if s.len() > 0 && s.last() == c {
        without_trailing(s.drop_last(), c)
    } else {
        s
    }
}

/// The text without its trailing run of `c`.
pub fn strip_trailing(s: &str, c: char) -> (r: &str)
    ensures
        r@ == without_trailing(s@, c),
{
    let v = chars_of(s);
    let mut b: usize = v.len();
    assert(s@.subrange(0, b as int) =~= s@);
    while b > 0 && v[b - 1] == c
        invariant
            v@ == s@,
            b <= v@.len(),
            without_trailing(s@, c) == without_trailing(s@.subrange(0, b as int), c),
        decreases b,
    {
        assert(s@.subrange(0, b as int).drop_last() =~= s@.subrange(0, b - 1));
        b = b - 1;
    }
    s.substring_char(0, b)
}

// ---------------------------------------------------------------------------
// Splitting and searching
// ---------------------------------------------------------------------------

/// The part of the text before the first `c` (all of it when there is none).
pub open spec fn before_first(s: Text, c: char) -> Text
    decreases s.len(),
{
    if s.len() == 0 || s[0] == c {
        Seq::empty()
    } else {
        seq![s[0]] + before_first(s.skip(1), c)
    }
}

/// The part of the text after the first `c`.
pub open spec fn after_first(s: Text, c: char) -> Text {
    s.skip(before_first(s, c).len() as int + 1)
}

/// The part of the text after the last `c` (all of it when there is none).
pub open spec fn after_last(s: Text, c: char) -> Text
    decreases s.len(),
{
    if s.len() == 0 || s.last() == c {
        Seq::empty()
    } else {
        after_last(s.drop_last(), c).push(s.last())
    }
}

/// `before_first` is the prefix that ends at the first occurrence.
proof fn lemma_before_first(s: Text, c: char, k: int)
    requires
        0 <= k <= s.len(),
        forall|i: int| 0 <= i < k ==> s[i] != c,
        k == s.len() || s[k] == c,
    ensures
        before_first(s, c) == s.take(k),
        s.contains(c) == (k < s.len()),
    decreases s.len(),
{
    if k < s.len() {
        assert(s[k] == c);
    }
    if k > 0 {
        assert forall|i: int| 0 <= i < k - 1 implies s.skip(1)[i] != c by {
            assert(s[i + 1] != c);
        }
        lemma_before_first(s.skip(1), c, k - 1);
        assert(s.take(k) =~= seq![s[0]] + s.skip(1).take(k - 1));
    } else {
        assert(s.take(0) =~= Seq::empty());
    }
}

/// `after_last` is the suffix that starts behind the last occurrence.
proof fn lemma_after_last(s: Text, c: char, k: int)
    requires
        0 <= k <= s.len(),
        forall|i: int| k <= i < s.len() ==> s[i] != c,
        k == 0 || s[k - 1] == c,
    ensures
        after_last(s, c) == s.skip(k),
    decreases s.len(),
{
    if k < s.len() {
        assert(s.last() != c);
        lemma_after_last(s.drop_last(), c, k);
        assert(s.skip(k) =~= s.drop_last().skip(k).push(s.last()));
    } else {
        assert(s.skip(k) =~= Seq::empty());
    }
}

/// The position of the first `c`, or the length when there is none.
pub fn find_char(v: &Vec<char>, c: char) -> (k: usize)
    ensures
        k <= v@.len(),
        forall|i: int| 0 <= i < k ==> v@[i] != c,
        k == v@.len() || v@[k as int] == c,
        before_first(v@, c) == v@.take(k as int),
        v@.contains(c) == (k < v@.len()),
{
    let mut k: usize = 0;
    while k < v.len() && v[k] != c
        invariant
            k <= v@.len(),
            forall|i: int| 0 <= i < k ==> v@[i] != c,
        decreases v@.len() - k,
    {
        k = k + 1;
    }
    proof {
        lemma_before_first(v@, c, k as int);
    }
    k
}

/// The text around the first `c`: what stands before it and what stands
/// after it.
pub fn split_once(s: &str, c: char) -> (r: Option<(String, String)>)
    ensures
        match r {
            Some((a, b)) => s@.contains(c) && a@ == before_first(s@, c) && b@ == after_first(s@, c),
            None => !s@.contains(c),
        },
{
    let v = chars_of(s);
    let k = find_char(&v, c);
    if k < v.len() {
        assert(v@.subrange(0, k as int) =~= v@.take(k as int));
        assert(v@.subrange(k + 1, v@.len() as int) =~= v@.skip(k + 1));
        Some((text_of(&v, 0, k), text_of(&v, k + 1, v.len())))
    } else {
        None
    }
}

/// The part of the text after the last `c` (all of it when there is none).
pub fn tail_after(s: &str, c: char) -> (r: String)
    ensures
        r@ == after_last(s@, c),
{
    let v = chars_of(s);
    let mut k: usize = v.len();
    while k > 0 && v[k - 1] != c
        invariant
            v@ == s@,
            k <= v@.len(),
            forall|i: int| k <= i < v@.len() ==> v@[i] != c,
        decreases k,
    {
        k = k - 1;
    }
    proof {
        lemma_after_last(s@, c, k as int);
        assert(v@.subrange(k as int, v@.len() as int) =~= v@.skip(k as int));
    }
    text_of(&v, k, v.len())
}

/// Whether the text starts with `prefix`.
pub open spec fn starts_with(s: Text, prefix: Text) -> bool {
    prefix.len() <= s.len() && s.take(prefix.len() as int) == prefix
}

/// Whether `needle` stands in `v` at position `at`.
fn stands_at(v: &Vec<char>, needle: &Vec<char>, at: usize) -> (r: bool)
    requires
        at <= v@.len(),
    ensures
        r == (needle@.len() <= v@.len() - at && v@.subrange(at as int, at + needle@.len()) == needle@),
{
    let n: usize = v.len();
    if needle.len() > n - at {
        return false;
    }
    let mut j: usize = 0;
    while j < needle.len()
        invariant
            j <= needle@.len() <= n - at,
            at <= n == v@.len(),
            forall|i: int| 0 <= i < j ==> v@[at + i] == needle@[i],
        decreases needle@.len() - j,
    {
        if v[at + j] != needle[j] {
            assert(v@.subrange(at as int, at + needle@.len())[j as int] != needle@[j as int]);
            return false;
        }
        j = j + 1;
    }
    assert(v@.subrange(at as int, at + needle@.len()) =~= needle@);
    true
}

/// What follows `prefix`, when the text starts with it.
pub fn strip_prefix(s: &str, prefix: &str) -> (r: Option<String>)
    ensures
        match r {
            Some(rest) => starts_with(s@, prefix@) && rest@ == s@.skip(prefix@.len() as int),
            None => !starts_with(s@, prefix@),
        },
{
    let v = chars_of(s);
    let p = chars_of(prefix);
    if stands_at(&v, &p, 0) {
        assert(v@.subrange(0, p@.len() as int) =~= v@.take(p@.len() as int));
        assert(v@.subrange(p@.len() as int, v@.len() as int) =~= v@.skip(p@.len() as int));
        Some(text_of(&v, p.len(), v.len()))
    } else {
        assert(p@.len() <= v@.len() ==> v@.subrange(0, p@.len() as int) =~= v@.take(p@.len() as int));
        None
    }
}

/// Whether `needle` stands somewhere in the text.
pub open spec fn holds_text(s: Text, needle: Text) -> bool {
    exists|i: int|
        0 <= i <= s.len() - needle.len() && #[trigger] s.subrange(i, i + needle.len()) == needle
}

/// Whether `needle` stands somewhere in the text.
pub fn contains_text(s: &str, needle: &str) -> (r: bool)
    ensures
        r == holds_text(s@, needle@),
{
    let v = chars_of(s);
    let p = chars_of(needle);
    if p.len() > v.len() {
        return false;
    }
    let last: usize = v.len() - p.len();
    let mut i: usize = 0;
    while i <= last
        invariant
            v@ == s@,
            p@ == needle@,
            last == v@.len() - p@.len(),
            i <= last + 1,
            forall|k: int| 0 <= k < i ==> #[trigger] s@.subrange(k, k + needle@.len()) != needle@,
        decreases last + 1 - i,
    {
        if stands_at(&v, &p, i) {
            return true;
        }
        if i == last {
            return false;
        }
        i = i + 1;
    }
    false
}

/// Whether the character stands in the text.
pub fn contains_char(s: &str, c: char) -> (r: bool)
    ensures
        r == s@.contains(c),
{
    let v = chars_of(s);
    find_char(&v, c) < v.len()
}

/// The text with each occurrence of `from` replaced by `to`, read from the
/// left without overlap.
pub open spec fn replaced(s: Text, from: Text, to: Text) -> Text
    decreases s.len(),
{
    if from.len() == 0 || s.len() == 0 {
        s
    } else if starts_with(s, from) {
        to + replaced(s.skip(from.len() as int), from, to)
    } else {
        seq![s[0]] + replaced(s.skip(1), from, to)
    }
}

/// The text with each occurrence of `from` replaced by `to`.
pub fn replace_text(s: &str, from: &str, to: &str) -> (r: String)
    requires
        from@.len() > 0,
    ensures
        r@ == replaced(s@, from@, to@),
{
    let v = chars_of(s);
    let p = chars_of(from);
    let mut r = String::new();
    let mut i: usize = 0;
    assert(s@.skip(0) =~= s@);
    while i < v.len()
        invariant
            v@ == s@,
            p@ == from@,
            from@.len() > 0,
            i <= v@.len(),
            replaced(s@, from@, to@) == r@ + replaced(s@.skip(i as int), from@, to@),
        decreases v@.len() - i,
    {
        let ghost rest = s@.skip(i as int);
        if stands_at(&v, &p, i) {
            proof {
                assert(rest.take(p@.len() as int) =~= s@.subrange(i as int, i + p@.len()));
                assert(rest.skip(p@.len() as int) =~= s@.skip(i + p@.len()));
                assert(r@ + (to@ + replaced(s@.skip(i + p@.len()), from@, to@)) =~= (r@ + to@)
                    + replaced(s@.skip(i + p@.len()), from@, to@));
            }
            r.append(to);
            i = i + p.len();
        } else {
            proof {
                assert(p@.len() <= rest.len() ==> rest.take(p@.len() as int) =~= s@.subrange(
                    i as int,
                    i + p@.len(),
                ));
                assert(rest.skip(1) =~= s@.skip(i + 1));
                assert(r@ + (seq![rest[0]] + replaced(s@.skip(i + 1), from@, to@)) =~= r@.push(rest[0])
                    + replaced(s@.skip(i + 1), from@, to@));
            }
            r.push(v[i]);
            i = i + 1;
        }
    }
    assert(s@.skip(i as int) =~= Seq::empty());
    assert(r@ + Seq::<char>::empty() =~= r@);
    r
}

// ---------------------------------------------------------------------------
// The order of texts
// ---------------------------------------------------------------------------

/// Whether the one text comes before the other: at the first place where they
/// differ its character has the smaller code point, or it ends there.
pub open spec fn comes_before(a: Text, b: Text) -> bool
    decreases a.len(),
{
    if b.len() == 0 {
        false
    } else if a.len() == 0 {
        true
    } else if a[0] == b[0] {
        comes_before(a.skip(1), b.skip(1))
    } else {
        a[0] < b[0]
    }
}

/// No text comes before itself.
pub proof fn lemma_not_before_itself(a: Text)
    ensures
        !comes_before(a, a),
    decreases a.len(),
{
    if a.len() > 0 {
        lemma_not_before_itself(a.skip(1));
    }
}

/// What comes before a text comes before all that the text comes before.
pub proof fn lemma_before_is_transitive(a: Text, b: Text, c: Text)
    requires
        comes_before(a, b),
        comes_before(b, c),
    ensures
        comes_before(a, c),
    decreases a.len(),
{
    if a.len() > 0 && a[0] == b[0] && b[0] == c[0] {
        lemma_before_is_transitive(a.skip(1), b.skip(1), c.skip(1));
    }
}

// ---------------------------------------------------------------------------
// Numbers in decimal and hexadecimal
// ---------------------------------------------------------------------------

/// Whether the character is a decimal digit.
pub open spec fn is_digit(c: char) -> bool {
    '0' <= c <= '9'
}

/// Whether every character is a decimal digit.
pub open spec fn all_digits(s: Text) -> bool {
    forall|i: int| 0 <= i < s.len() ==> is_digit(#[trigger] s[i])
}

/// The number that a run of decimal digits denotes.
pub open spec fn digits_value(s: Text) -> nat
    decreases s.len(),
{
    if s.len() == 0 {
        0
    } else {
        digits_value(s.drop_last()) * 10 + (s.last() as int - '0' as int) as nat
    }
}

/// The number, or the largest that a machine integer holds.
pub open spec fn capped(n: nat) -> u128 {
    if n <= u128::MAX {
        n as u128
    } else {
        u128::MAX
    }
}

/// The product, capped.
pub(crate) fn capped_mul(a: u128, b: u128, Ghost(x): Ghost<nat>) -> (r: u128)
    requires
        a == capped(x),
        b > 0,
    ensures
        r == capped(x * b as nat),
{
    assert(a * b <= x * b) by (nonlinear_arith)
        requires
            a <= x,
    ;
    assert(a == u128::MAX ==> a * b >= a) by (nonlinear_arith)
        requires
            b > 0,
    ;
    match a.checked_mul(b) {
        Some(r) => {
            if a == u128::MAX {
                assert(b == 1) by (nonlinear_arith)
                    requires
                        a * b <= u128::MAX,
                        a == u128::MAX,
                        b > 0,
                ;
                assert(x * b == x);
            }
            r
        },
        None => u128::MAX,
    }
}

/// The sum, capped.
pub(crate) fn capped_add(a: u128, b: u128, Ghost(x): Ghost<nat>, Ghost(y): Ghost<nat>) -> (r: u128)
    requires
        a == capped(x),
        b == capped(y),
    ensures
        r == capped(x + y),
{
    a.saturating_add(b)
}

/// The number that the digits `v[from..to]` denote, capped.
pub(crate) fn digits_number(v: &Vec<char>, from: usize, to: usize) -> (r: Option<u128>)
    requires
        from <= to <= v@.len(),
    ensures
        r == (if all_digits(v@.subrange(from as int, to as int)) {
            Some(capped(digits_value(v@.subrange(from as int, to as int))))
        } else {
            None::<u128>
        }),
{
    let mut n: u128 = 0;
    let mut i: usize = from;
    let ghost run = v@.subrange(from as int, to as int);
    while i < to
        invariant
            from <= i <= to <= v@.len(),
            run == v@.subrange(from as int, to as int),
            forall|j: int| 0 <= j < i - from ==> is_digit(#[trigger] run[j]),
            n == capped(digits_value(run.take(i - from))),
        decreases to - i,
    {
        let c: char = v[i];
        assert(run[i - from] == c);
        if !('0' <= c && c <= '9') {
            return None;
        }
        let ghost before = digits_value(run.take(i - from));
        assert(run.take(i + 1 - from).drop_last() =~= run.take(i - from));
        let ten: u128 = capped_mul(n, 10, Ghost(before));
        let d: u128 = (c as u32 - 48) as u128;
        n = capped_add(ten, d, Ghost(before * 10), Ghost(d as nat));
        i = i + 1;
    }
    assert(run.take(to - from) =~= run);
    Some(n)
}

/// The number that a text denotes: decimal digits, a plus sign allowed before
/// them, within the bound.
pub open spec fn unsigned_number(s: Text, max: nat) -> Option<nat> {
    let digits = if s.len() > 0 && s[0] == '+' {
        s.skip(1)
    } else {
        s
    };
    if digits.len() > 0 && all_digits(digits) && digits_value(digits) <= max {
        Some(digits_value(digits))
    } else {
        None
    }
}

/// The number that a text denotes.
pub fn parse_unsigned(s: &str, max: u64) -> (r: Option<u64>)
    ensures
        match r {
            Some(n) => unsigned_number(s@, max as nat) == Some(n as nat),
            None => unsigned_number(s@, max as nat) is None,
        },
{
    let v = chars_of(s);
    let n: usize = v.len();
    let from: usize = if n > 0 && v[0] == '+' {
        1
    } else {
        0
    };
    assert(from == 1 ==> v@.subrange(1, n as int) =~= s@.skip(1));
    assert(from == 0 ==> v@.subrange(0, n as int) =~= s@);
    if from == n {
        return None;
    }
    match digits_number(&v, from, n) {
        Some(number) => if number <= max as u128 {
            Some(number as u64)
        } else {
            None
        },
        None => None,
    }
}

/// The digit that stands for `d`, hexadecimal digits in lowercase.
pub open spec fn digit(d: int) -> char {
    if d < 10 {
        (48 + d) as char
    } else {
        (87 + d) as char
    }
}

/// The digit that stands for `d`, hexadecimal digits in lowercase.
fn digit_char(d: u8) -> (c: char)
    requires
        d < 16,
    ensures
        c == digit(d as int),
{
    if d < 10 {
        (48 + d) as char
    } else {
        (87 + d) as char
    }
}

/// The decimal form of a number, without leading zeros.
pub open spec fn decimal(n: nat) -> Text
    decreases n,
{
    if n < 10 {
        seq![digit(n as int)]
    } else {
        decimal(n / 10).push(digit((n % 10) as int))
    }
}

/// Different numbers have different decimal forms.
pub proof fn lemma_decimal_distinct(a: nat, b: nat)
    requires
        decimal(a) == decimal(b),
    ensures
        a == b,
    decreases a,
{
    let x = decimal(a);
    let y = decimal(b);
    assert(x.last() == digit((a % 10) as int));
    assert(y.last() == digit((b % 10) as int));
    assert(a >= 10 ==> x.len() >= 2) by {
        if a >= 10 {
            assert(decimal(a / 10).len() >= 1);
        }
    }
    assert(b >= 10 ==> y.len() >= 2) by {
        if b >= 10 {
            assert(decimal(b / 10).len() >= 1);
        }
    }
    if a >= 10 {
        assert(x.drop_last() =~= decimal(a / 10));
        assert(y.drop_last() =~= decimal(b / 10));
        lemma_decimal_distinct(a / 10, b / 10);
    }
}

/// The decimal form of a number.
pub fn decimal_text(n: u64) -> (r: String)
    ensures
        r@ == decimal(n as nat),
    decreases n,
{
    if n < 10 {
        let mut r = String::new();
        r.push(digit_char(n as u8));
        assert(r@ =~= seq![digit(n as int)]);
        r
    } else {
        let mut r = decimal_text(n / 10);
        r.push(digit_char((n % 10) as u8));
        r
    }
}

/// The hexadecimal form of a number in `width` digits, leading zeros kept.
pub open spec fn hexadecimal(n: nat, width: nat) -> Text
    decreases width,
{
    if width == 0 {
        Seq::empty()
    } else {
        hexadecimal(n / 16, (width - 1) as nat).push(digit((n % 16) as int))
    }
}

/// The hexadecimal form of a number in `width` digits.
fn hexadecimal_text(n: u64, width: u8) -> (r: String)
    ensures
        r@ == hexadecimal(n as nat, width as nat),
    decreases width,
{
    if width == 0 {
        String::new()
    } else {
        let mut r = hexadecimal_text(n / 16, width - 1);
        r.push(digit_char((n % 16) as u8));
        r
    }
}

/// The 16-digit hexadecimal form of a number.
pub fn hex16_text(n: u64) -> (r: String)
    ensures
        r@ == hexadecimal(n as nat, 16),
{
    hexadecimal_text(n, 16)
}

// ---------------------------------------------------------------------------
// Laws
// ---------------------------------------------------------------------------

/// Whether every character is white space.
pub open spec fn all_spaces(s: Text) -> bool {
    forall|i: int| 0 <= i < s.len() ==> is_space(#[trigger] s[i])
}

/// Trimming the end takes off white space behind a text that does not end in
/// any.
proof fn lemma_trim_end_of(s: Text, spaces: Text)
    requires
        all_spaces(spaces),
        s.len() > 0 ==> !is_space(s.last()),
    ensures
        trim_end(s + spaces) == s,
    decreases spaces.len(),
{
    if spaces.len() == 0 {
        assert(s + spaces =~= s);
    } else {
        assert((s + spaces).last() == spaces[spaces.len() - 1]);
        assert((s + spaces).drop_last() =~= s + spaces.drop_last());
        assert forall|i: int| 0 <= i < spaces.drop_last().len() implies is_space(
            #[trigger] spaces.drop_last()[i],
        ) by {
            assert(is_space(spaces[i]));
        }
        lemma_trim_end_of(s, spaces.drop_last());
    }
}

/// Trimming the start takes off white space before a text.
proof fn lemma_trim_start_of(spaces: Text, s: Text)
    requires
        all_spaces(spaces),
        s.len() > 0 ==> !is_space(s[0]),
    ensures
        trim_start(spaces + s) == s,
    decreases spaces.len(),
{
    if spaces.len() == 0 {
        assert(spaces + s =~= s);
    } else {
        assert((spaces + s)[0] == spaces[0]);
        assert((spaces + s).skip(1) =~= spaces.skip(1) + s);
        assert forall|i: int| 0 <= i < spaces.skip(1).len() implies is_space(
            #[trigger] spaces.skip(1)[i],
        ) by {
            assert(is_space(spaces[i + 1]));
        }
        lemma_trim_start_of(spaces.skip(1), s);
    }
}

/// White space around a text does not show once it is trimmed, and nothing else
/// is taken off; a text is blank where it is white space alone.
pub proof fn law_trimming_takes_surrounding_space(before: Text, s: Text, after: Text)
    requires
        all_spaces(before),
        all_spaces(after),
        s.len() > 0 ==> !is_space(s[0]) && !is_space(s.last()),
    ensures
        trimmed(before + s + after) == s,
        is_blank(before + s + after) <==> s.len() == 0,
{
    if s.len() > 0 {
        assert(before + s + after =~= before + (s + after));
        lemma_trim_start_of(before, s + after);
        lemma_trim_end_of(s, after);
    } else {
        let all = before + s + after;
        assert(all_spaces(all)) by {
            assert forall|i: int| 0 <= i < all.len() implies is_space(#[trigger] all[i]) by {
                if i < before.len() {
                    assert(is_space(before[i]));
                } else {
                    assert(is_space(after[i - before.len()]));
                }
            }
        }
        assert(all + Seq::<char>::empty() =~= all);
        lemma_trim_start_of(all, Seq::empty());
    }
}

/// A text splits at the first of a character into what stands before it and
/// what stands behind it, and its tail stands behind the last one.
pub proof fn law_splitting(a: Text, c: char, b: Text)
    ensures
        !a.contains(c) ==> before_first(a + seq![c] + b, c) == a && after_first(
            a + seq![c] + b,
            c,
        ) == b && (a + seq![c] + b).contains(c),
        !b.contains(c) ==> after_last(a + seq![c] + b, c) == b && after_last(b, c) == b
            && before_first(b, c) == b,
{
    let s = a + seq![c] + b;
    assert(s[a.len() as int] == c);
    if !a.contains(c) {
        assert forall|i: int| 0 <= i < a.len() implies s[i] != c by {
            assert(a[i] != c);
        }
        lemma_before_first(s, c, a.len() as int);
        assert(s.take(a.len() as int) =~= a);
        assert(s.skip(a.len() as int + 1) =~= b);
    }
    if !b.contains(c) {
        assert forall|i: int| a.len() + 1 <= i < s.len() implies s[i] != c by {
            assert(b[i - a.len() - 1] != c);
        }
        lemma_after_last(s, c, a.len() as int + 1);
        assert(s.skip(a.len() as int + 1) =~= b);
        lemma_after_last(b, c, 0);
        assert(b.skip(0) =~= b);
        lemma_before_first(b, c, b.len() as int);
        assert(b.take(b.len() as int) =~= b);
    }
}

/// A trailing run of a character is taken off whole, and nothing else is.
pub proof fn law_trailing_run(s: Text, run: Text, c: char)
    requires
        s.len() > 0 ==> s.last() != c,
        forall|i: int| 0 <= i < run.len() ==> #[trigger] run[i] == c,
    ensures
        without_trailing(s + run, c) == s,
    decreases run.len(),
{
    if run.len() == 0 {
        assert(s + run =~= s);
    } else {
        assert((s + run).last() == run[run.len() - 1]);
        assert((s + run).drop_last() =~= s + run.drop_last());
        law_trailing_run(s, run.drop_last(), c);
    }
}

/// The decimal form of a number is made of digits, without a zero at its front
/// but for zero itself, and denotes the number; a bounded reader reads it back
/// exactly where the number stays in the bound.
pub proof fn law_decimal_reads_back(n: nat, max: nat)
    ensures
        decimal(n).len() > 0,
        all_digits(decimal(n)),
        digits_value(decimal(n)) == n,
        n > 0 ==> decimal(n)[0] != '0',
        unsigned_number(decimal(n), max) == (if n <= max {
            Some(n)
        } else {
            None
        }),
    decreases n,
{
    let s = decimal(n);
    if n < 10 {
        assert(s.drop_last() =~= Seq::empty());
        assert(digits_value(Seq::<char>::empty()) == 0);
        assert(s.last() == digit(n as int));
    } else {
        law_decimal_reads_back(n / 10, max);
        let init = decimal(n / 10);
        assert(s.drop_last() =~= init);
        assert(s.last() == digit((n % 10) as int));
        assert(s[0] == init[0]);
        assert forall|i: int| 0 <= i < s.len() implies is_digit(#[trigger] s[i]) by {
            if i < init.len() {
                assert(is_digit(init[i]));
            }
        }
    }
    assert(is_digit(s[0]));
}

/// Upper-case ASCII letters have their lower case, and every other ASCII
/// character is its own.
pub proof fn law_ascii_lowercase(c: char)
    requires
        is_ascii_char(c),
    ensures
        'A' <= c <= 'Z' ==> lower(c) == seq![((c as u32) + 32) as char],
        !('A' <= c <= 'Z') ==> lower(c) == seq![c],
        is_word(c) <==> '0' <= c <= '9' || 'a' <= c <= 'z' || 'A' <= c <= 'Z',
        is_space(c) <==> c == ' ' || c == '\t' || c == '\n' || c == '\r' || c as u32 == 11
            || c as u32 == 12,
{
}

/// A text holds every part that it is made of, and a number may have a plus sign
/// before it.
pub proof fn law_parts(a: Text, part: Text, b: Text, n: nat, max: nat)
    ensures
        holds_text(a + part + b, part),
        starts_with(part + b, part),
        unsigned_number("+"@ + decimal(n), max) == unsigned_number(decimal(n), max),
        unsigned_number(Seq::empty(), max) is None,
{
    let s = a + part + b;
    assert(s.subrange(a.len() as int, a.len() as int + part.len()) =~= part);
    assert((part + b).take(part.len() as int) =~= part);
    reveal_strlit("+");
    law_decimal_reads_back(n, max);
    let signed = "+"@ + decimal(n);
    assert(signed[0] == '+');
    assert(signed.skip(1) =~= decimal(n));
    assert(is_digit(decimal(n)[0]));
}

/// The hexadecimal form of a number has its width, ends in the digit of its
/// remainder by sixteen, and goes on with its quotient.
pub proof fn law_hexadecimal(n: nat, width: nat)
    requires
        width > 0,
    ensures
        hexadecimal(n, width).len() == width,
        hexadecimal(n, width).drop_last() == hexadecimal(n / 16, (width - 1) as nat),
        n % 16 < 10 ==> hexadecimal(n, width).last() as int == '0' as int + n % 16,
        n % 16 >= 10 ==> hexadecimal(n, width).last() as int == 'a' as int + n % 16 - 10,
    decreases width,
{
    let init = hexadecimal(n / 16, (width - 1) as nat);
    assert(init.push(digit((n % 16) as int)).drop_last() =~= init);
    if width > 1 {
        law_hexadecimal(n / 16, (width - 1) as nat);
    }
}

} // verus!
