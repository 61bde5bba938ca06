//! Text handling: white space, trimming, letter case, searching, order and numerals.

use vstd::prelude::*;
use vstd::string::*;

verus! {

/// The characters with the Unicode `White_Space` property.
pub open spec fn white_space(c: char) -> bool {
    let n = c as u32;
    ||| 0x09 <= n <= 0x0d
    ||| n == 0x20
    ||| n == 0x85
    ||| n == 0xa0
    ||| n == 0x1680
    ||| 0x2000 <= n <= 0x200a
    ||| n == 0x2028
    ||| n == 0x2029
    ||| n == 0x202f
    ||| n == 0x205f
    ||| n == 0x3000
}

/// Tells whether `c` is white space.
pub fn is_whitespace(c: char) -> (r: bool)
    ensures
        r == white_space(c),
{
    let n: u32 = c as u32;
    (0x09 <= n && n <= 0x0d) || n == 0x20 || n == 0x85 || n == 0xa0 || n == 0x1680 || (0x2000 <= n
        && n <= 0x200a) || n == 0x2028 || n == 0x2029 || n == 0x202f || n == 0x205f || n == 0x3000
}

/// The characters of `s`, in order.
pub fn chars_of(s: &str) -> (r: Vec<char>)
    ensures
        r@ == s@,
{
    let mut out: Vec<char> = Vec::new();
    for c in it: s.chars()
        invariant
            out@ == s@.take(it.index()),
            it.seq() == s@,
    {
        out.push(c);
        assert(s@.take(it.index() + 1) == s@.take(it.index()).push(c));
    }
    assert(s@.take(s@.len() as int) == s@);
    out
}

/// How many bytes the text takes up.
pub fn byte_length(s: &str) -> (r: usize)
    ensures
        r == s.spec_bytes().len(),
{
    s.as_bytes().len()
}

/// The text made of the given characters.
pub fn text_of(chars: &Vec<char>) -> (r: String)
    ensures
        r@ == chars@,
{
    let mut out = String::new();
    for i in 0..chars.len()
        invariant
            out@ == chars@.take(i as int),
    {
        out.push(chars[i]);
        assert(chars@.take(i + 1) == chars@.take(i as int).push(chars@[i as int]));
    }
    assert(chars@.take(chars@.len() as int) == chars@);
    out
}

/// Tells whether two texts are the same.
pub fn same_text(a: &str, b: &str) -> (r: bool)
    ensures
        r == (a@ == b@),
{
    let x = chars_of(a);
    let y = chars_of(b);
    if x.len() != y.len() {
        return false;
    }
    assert(x@.subrange(0, x.len() as int) == x@);
    matches_at(&x, 0, &y)
}

/// `s` without its leading white space.
pub open spec fn trimmed_start(s: Seq<char>) -> Seq<char>
    decreases s.len(),
{
    if s.len() > 0 && white_space(s[0]) {
        trimmed_start(s.drop_first())
    } else {
        s
    }
}

/// `s` without its trailing white space.
pub open spec fn trimmed_end(s: Seq<char>) -> Seq<char>
    decreases s.len(),
{
    if s.len() > 0 && white_space(s.last()) {
        trimmed_end(s.drop_last())
    } else {
        s
    }
}

/// `s` without leading and trailing white space.
pub open spec fn trimmed(s: Seq<char>) -> Seq<char> {
    trimmed_end(trimmed_start(s))
}

/// Whether nothing but white space stands in `s`.
pub open spec fn blank(s: Seq<char>) -> bool {
    trimmed(s).len() == 0
}

/// Removes leading and trailing white space.
pub fn trim(s: &str) -> (r: &str)
    ensures
        r@ == trimmed(s@),
{
    let chars = chars_of(s);
    let mut from: usize = 0;
    assert(s@.skip(0) == s@);
    while from < chars.len() && is_whitespace(chars[from])
        invariant
            chars@ == s@,
            from <= chars.len(),
            trimmed_start(s@) == trimmed_start(s@.skip(from as int)),
        decreases chars.len() - from,
    {
        assert(s@.skip(from as int).drop_first() == s@.skip(from + 1));
        from = from + 1;
    }
    let ghost rest = s@.skip(from as int);
    assert(trimmed_start(s@) == rest);
    let mut to: usize = chars.len();
    assert(s@.subrange(from as int, to as int) == rest);
    while from < to && is_whitespace(chars[to - 1])
        invariant
            chars@ == s@,
            from <= to <= chars.len(),
            trimmed_end(rest) == trimmed_end(s@.subrange(from as int, to as int)),
        decreases to,
    {
        assert(s@.subrange(from as int, to as int).drop_last() == s@.subrange(
            from as int,
            to - 1,
        ));
        to = to - 1;
    }
    s.substring_char(from, to)
}

/// Tells whether nothing but white space stands in `s`.
pub fn is_blank(s: &str) -> (r: bool)
    ensures
        r == blank(s@),
{
    trim(s).is_empty()
}

/// Whether one of the texts is blank.
pub open spec fn some_blank(patterns: Seq<String>) -> bool {
    exists|i: int| 0 <= i < patterns.len() && blank((#[trigger] patterns[i])@)
}

/// Tells whether one of the texts is blank.
pub fn has_blank(patterns: &Vec<String>) -> (r: bool)
    ensures
        r == some_blank(patterns@),
{
    for i in 0..patterns.len()
        invariant
            forall|k: int| 0 <= k < i ==> !blank((#[trigger] patterns@[k])@),
    {
        if is_blank(patterns[i].as_str()) {
            return true;
        }
    }
    false
}

/// Whether `s` ends in `suffix`.
pub open spec fn ends_with(s: Seq<char>, suffix: Seq<char>) -> bool {
    suffix.len() <= s.len() && s.skip(s.len() - suffix.len()) == suffix
}

/// `s` with `suffix` taken off its end as often as it stands there.
pub open spec fn without_suffixes(s: Seq<char>, suffix: Seq<char>) -> Seq<char>
    decreases s.len(),
{
    if suffix.len() > 0 && ends_with(s, suffix) {
        without_suffixes(s.take(s.len() - suffix.len()), suffix)
    } else {
        s
    }
}

/// Takes `suffix` off the end of `s` as often as it stands there.
pub fn trim_end_matches<'a>(s: &'a str, suffix: &str) -> (r: &'a str)
    ensures
        r@ == without_suffixes(s@, suffix@),
{
    let chars = chars_of(s);
    let tail = chars_of(suffix);
    let n: usize = tail.len();
    let mut to: usize = chars.len();
    assert(s@.take(to as int) == s@);
    if n > 0 {
        while n <= to && matches_at(&chars, to - n, &tail)
            invariant
                chars@ == s@,
                tail@ == suffix@,
                n == tail.len(),
                n > 0,
                to <= chars.len(),
                without_suffixes(s@, suffix@) == without_suffixes(s@.take(to as int), suffix@),
            decreases to,
        {
            let ghost cut = s@.take(to as int);
            assert(cut.skip(cut.len() - n) == s@.subrange(to - n, to as int));
            assert(cut.take(cut.len() - n) == s@.take(to - n));
            to = to - n;
        }
        proof {
            let cut = s@.take(to as int);
            if n <= to {
                assert(cut.skip(cut.len() - n) == s@.subrange(to - n, to as int));
            }
        }
    }
    assert(s@.subrange(0, to as int) == s@.take(to as int));
    s.substring_char(0, to)
}

/// Whether `pattern` stands in `s` at position `at`.
pub open spec fn stands_at(s: Seq<char>, at: int, pattern: Seq<char>) -> bool {
    0 <= at && at + pattern.len() <= s.len() && s.subrange(at, at + pattern.len()) == pattern
}

/// Whether `pattern` stands somewhere in `s`.
pub open spec fn occurs(pattern: Seq<char>, s: Seq<char>) -> bool {
    exists|at: int| stands_at(s, at, pattern)
}

/// Tells whether `pattern` stands in `chars` at position `at`.
fn matches_at(chars: &Vec<char>, at: usize, pattern: &Vec<char>) -> (r: bool)
    requires
        at + pattern.len() <= chars.len(),
    ensures
        r == (chars@.subrange(at as int, at + pattern.len()) == pattern@),
{
    let ghost part = chars@.subrange(at as int, at + pattern.len());
    for i in 0..pattern.len()
        invariant
            at + pattern.len() <= chars.len(),
            part == chars@.subrange(at as int, at + pattern.len()),
            forall|k: int| 0 <= k < i ==> part[k] == pattern@[k],
    {
        if chars[at + i] != pattern[i] {
            assert(part[i as int] != pattern@[i as int]);
            return false;
        }
    }
    assert(part == pattern@);
    true
}

/// Tells whether `pattern` stands somewhere in `s`.
pub fn contains(s: &str, pattern: &str) -> (r: bool)
    ensures
        r == occurs(pattern@, s@),
{
    let chars = chars_of(s);
    let wanted = chars_of(pattern);
    if wanted.len() > chars.len() {
        return false;
    }
    let last: usize = chars.len() - wanted.len();
    let mut at: usize = 0;
    while at < last
        invariant
            chars@ == s@,
            wanted@ == pattern@,
            wanted.len() <= chars.len(),
            last == chars.len() - wanted.len(),
            at <= last,
            forall|k: int| 0 <= k < at ==> !stands_at(s@, k, pattern@),
        decreases last - at,
    {
        if matches_at(&chars, at, &wanted) {
            assert(stands_at(s@, at as int, pattern@));
            return true;
        }
        at = at + 1;
    }
    let found = matches_at(&chars, last, &wanted);
    assert(found == stands_at(s@, last as int, pattern@));
    found
}

/// The order of texts by the code points of their characters.
pub open spec fn text_precedes(a: Seq<char>, b: Seq<char>) -> bool
    decreases a.len(),
{
    if b.len() == 0 {
        false
    } else if a.len() == 0 {
        true
    } else if a[0] != b[0] {
        a[0] < b[0]
    } else {
        text_precedes(a.drop_first(), b.drop_first())
    }
}

/// Tells whether `a` stands before `b` in the order of texts.
pub fn precedes(a: &str, b: &str) -> (r: bool)
    ensures
        r == text_precedes(a@, b@),
{
    let x = chars_of(a);
    let y = chars_of(b);
    let mut i: usize = 0;
    assert(a@.skip(0) == a@);
    assert(b@.skip(0) == b@);
    while i < x.len() && i < y.len() && x[i] == y[i]
        invariant
            x@ == a@,
            y@ == b@,
            i <= x.len(),
            i <= y.len(),
            text_precedes(a@, b@) == text_precedes(a@.skip(i as int), b@.skip(i as int)),
        decreases x.len() - i,
    {
        assert(a@.skip(i as int).drop_first() == a@.skip(i + 1));
        assert(b@.skip(i as int).drop_first() == b@.skip(i + 1));
        i = i + 1;
    }
    if i == y.len() {
        false
    } else if i == x.len() {
        true
    } else {
        x[i] < y[i]
    }
}

/// No text stands before itself.
pub proof fn lemma_order_irreflexive(a: Seq<char>)
    ensures
        !text_precedes(a, a),
    decreases a.len(),
{
    if a.len() > 0 {
        lemma_order_irreflexive(a.drop_first());
    }
}

/// The order of texts is transitive.
pub proof fn lemma_order_transitive(a: Seq<char>, b: Seq<char>, c: Seq<char>)
    requires
        text_precedes(a, b),
        text_precedes(b, c),
    ensures
        text_precedes(a, c),
    decreases a.len(),
{
    if a.len() > 0 && a[0] == b[0] && b[0] == c[0] {
        lemma_order_transitive(a.drop_first(), b.drop_first(), c.drop_first());
    }
}

/// Of two texts that differ one stands before the other.
pub proof fn lemma_order_total(a: Seq<char>, b: Seq<char>)
    ensures
        a == b || text_precedes(a, b) || text_precedes(b, a),
    decreases a.len(),
{
    if a.len() > 0 && b.len() > 0 && a[0] == b[0] {
        lemma_order_total(a.drop_first(), b.drop_first());
        if a.drop_first() == b.drop_first() {
            assert(a == seq![a[0]] + a.drop_first());
            assert(b == seq![b[0]] + b.drop_first());
        }
    } else if a.len() == 0 && b.len() == 0 {
        assert(a == b);
    }
}

/// Trimming leaves no white space at either end, and trimming again changes nothing.
pub proof fn law_trimmed_ends(s: Seq<char>)
    ensures
        trimmed(s).len() > 0 ==> !white_space(trimmed(s)[0]) && !white_space(trimmed(s).last()),
        trimmed(trimmed(s)) == trimmed(s),
{
    lemma_trimmed_start_first(s);
    lemma_trimmed_end_last(trimmed_start(s));
}

proof fn lemma_trimmed_start_first(s: Seq<char>)
    ensures
        trimmed_start(s).len() > 0 ==> !white_space(trimmed_start(s)[0]),
    decreases s.len(),
{
    if s.len() > 0 && white_space(s[0]) {
        lemma_trimmed_start_first(s.drop_first());
    }
}

pub proof fn lemma_trimmed_end_last(s: Seq<char>)
    ensures
        trimmed_end(s).len() <= s.len(),
        trimmed_end(s) == s.take(trimmed_end(s).len() as int),
        trimmed_end(s).len() > 0 ==> !white_space(trimmed_end(s).last()),
        forall|i: int| trimmed_end(s).len() <= i < s.len() ==> white_space(#[trigger] s[i]),
    decreases s.len(),
{
    if s.len() > 0 && white_space(s.last()) {
        lemma_trimmed_end_last(s.drop_last());
        assert(s.drop_last().take(trimmed_end(s).len() as int) == s.take(
            trimmed_end(s).len() as int,
        ));
        assert forall|i: int| trimmed_end(s).len() <= i < s.len() implies white_space(
            #[trigger] s[i],
        ) by {
            if i < s.len() - 1 {
                assert(s.drop_last()[i] == s[i]);
            }
        }
    } else {
        assert(s.take(s.len() as int) == s);
    }
}

/// A text is blank exactly when each of its characters is white space.
pub proof fn law_blank_is_all_white_space(s: Seq<char>)
    ensures
        blank(s) <==> forall|i: int| 0 <= i < s.len() ==> white_space(#[trigger] s[i]),
    decreases s.len(),
{
    if s.len() > 0 && white_space(s[0]) {
        law_blank_is_all_white_space(s.drop_first());
        assert forall|i: int| 0 <= i < s.len() && blank(s) implies white_space(#[trigger] s[i]) by {
            if i > 0 {
                assert(s.drop_first()[i - 1] == s[i]);
            }
        }
        if forall|i: int| 0 <= i < s.len() ==> white_space(#[trigger] s[i]) {
            assert forall|i: int| 0 <= i < s.drop_first().len() implies white_space(
                #[trigger] s.drop_first()[i],
            ) by {
                assert(s.drop_first()[i] == s[i + 1]);
            }
        }
    } else {
        lemma_trimmed_end_last(s);
    }
}

/// The decimal digit for `n`.
pub open spec fn digit(n: int) -> char {
    (n + 48) as char
}

/// `n` in decimal notation.
pub open spec fn decimal(n: nat) -> Seq<char>
    decreases n,
{
    if n < 10 {
        seq![digit(n as int)]
    } else {
        decimal(n / 10).push(digit((n % 10) as int))
    }
}

/// `n` in decimal notation, with a minus sign in front where it is negative.
pub open spec fn signed_decimal(n: int) -> Seq<char> {
    if n < 0 {
        "-"@ + decimal((-n) as nat)
    } else {
        decimal(n as nat)
    }
}

/// Writes `n` in decimal notation.
pub fn decimal_text(n: u64) -> (r: String)
    ensures
        r@ == decimal(n as nat),
    decreases n,
{
    if n < 10 {
        let mut out = String::new();
        out.push((n as u8 + 48) as char);
        assert(out@ == decimal(n as nat));
        out
    } else {
        let mut out = decimal_text(n / 10);
        out.push(((n % 10) as u8 + 48) as char);
        out
    }
}

/// Writes `n` in decimal notation, with a minus sign in front where it is negative.
pub fn signed_decimal_text(n: i32) -> (r: String)
    ensures
        r@ == signed_decimal(n as int),
{
    if n < 0 {
        "-".to_owned().concat(decimal_text((-(n as i64)) as u64).as_str())
    } else {
        decimal_text(n as u64)
    }
}

/// The texts of `parts` one after the other, with `separator` between them.
pub open spec fn joined(parts: Seq<Seq<char>>, separator: Seq<char>) -> Seq<char>
    decreases parts.len(),
{
    if parts.len() == 0 {
        Seq::empty()
    } else if parts.len() == 1 {
        parts[0]
    } else {
        joined(parts.drop_last(), separator) + separator + parts.last()
    }
}

/// The texts that a list of strings holds.
pub open spec fn texts(strings: Seq<String>) -> Seq<Seq<char>> {
    strings.map_values(|s: String| s@)
}

/// Adding a string adds its text.
pub broadcast proof fn lemma_texts_push(strings: Seq<String>, s: String)
    ensures
        #[trigger] texts(strings.push(s)) == texts(strings).push(s@),
{
    assert(texts(strings.push(s)) == texts(strings).push(s@));
}

/// Adding strings adds their texts.
pub broadcast proof fn lemma_texts_add(a: Seq<String>, b: Seq<String>)
    ensures
        #[trigger] texts(a + b) == texts(a) + texts(b),
{
    assert(texts(a + b) == texts(a) + texts(b));
}

/// The texts that a list of string slices holds.
pub open spec fn slices(strings: Seq<&str>) -> Seq<Seq<char>> {
    strings.map_values(|s: &str| s@)
}

/// Puts the texts of `parts` one after the other, with `separator` between them.
pub fn join(parts: &Vec<&str>, separator: &str) -> (r: String)
    ensures
        r@ == joined(slices(parts@), separator@),
{
    let mut out = String::new();
    for i in 0..parts.len()
        invariant
            out@ == joined(slices(parts@).take(i as int), separator@),
    {
        let ghost next = slices(parts@).take(i + 1);
        assert(next.drop_last() == slices(parts@).take(i as int));
        if i > 0 {
            out.append(separator);
        }
        out.append(parts[i]);
        assert(out@ == joined(next, separator@));
    }
    assert(slices(parts@).take(parts@.len() as int) == slices(parts@));
    out
}

/// The strings of a list as slices.
pub fn slices_of(strings: &Vec<String>) -> (r: Vec<&str>)
    ensures
        slices(r@) == texts(strings@),
{
    let mut out: Vec<&str> = Vec::new();
    for i in 0..strings.len()
        invariant
            slices(out@) == texts(strings@).take(i as int),
    {
        let ghost before = out@;
        out.push(strings[i].as_str());
        assert(slices(out@) == slices(before).push(strings@[i as int]@));
        assert(texts(strings@).take(i + 1) == texts(strings@).take(i as int).push(
            strings@[i as int]@,
        ));
    }
    assert(texts(strings@).take(strings@.len() as int) == texts(strings@));
    out
}

/// Of the ASCII characters the space and those from the tabulator to the carriage return are white
/// space, and none is behind the ideographic space.
pub proof fn law_white_space_of_ascii(c: char)
    ensures
        c <= '\u{7f}' ==> white_space(c) == (c == ' ' || '\t' <= c <= '\r'),
        c > '\u{3000}' ==> !white_space(c),
{
}

/// Trimming takes off all white space round a text and nothing else.
pub proof fn law_trimming_leaves_the_core(lead: Seq<char>, core: Seq<char>, tail: Seq<char>)
    requires
        forall|i: int| 0 <= i < lead.len() ==> white_space(#[trigger] lead[i]),
        forall|i: int| 0 <= i < tail.len() ==> white_space(#[trigger] tail[i]),
        core.len() > 0 ==> !white_space(core[0]) && !white_space(core.last()),
    ensures
        trimmed(lead + core + tail) == core,
        blank(lead + core + tail) == (core.len() == 0),
    decreases lead.len() + tail.len(),
{
    if lead.len() > 0 {
        let rest = lead.drop_first();
        assert forall|i: int| 0 <= i < rest.len() implies white_space(#[trigger] rest[i]) by {
            assert(rest[i] == lead[i + 1]);
        }
        assert(white_space(lead[0]));
        assert((lead + core + tail).drop_first() == rest + core + tail);
        law_trimming_leaves_the_core(rest, core, tail);
    } else if core.len() > 0 {
        assert(lead + core + tail == core + tail);
        lemma_trimmed_end_add(core, tail);
    } else if tail.len() > 0 {
        let rest = tail.drop_first();
        assert forall|i: int| 0 <= i < rest.len() implies white_space(#[trigger] rest[i]) by {
            assert(rest[i] == tail[i + 1]);
        }
        assert(white_space(tail[0]));
        assert((lead + core + tail).drop_first() == lead + core + rest);
        law_trimming_leaves_the_core(lead, core, rest);
    } else {
        assert(lead + core + tail == core);
    }
}

proof fn lemma_trimmed_end_add(core: Seq<char>, tail: Seq<char>)
    requires
        forall|i: int| 0 <= i < tail.len() ==> white_space(#[trigger] tail[i]),
        core.len() > 0,
        !white_space(core.last()),
    ensures
        trimmed_end(core + tail) == core,
    decreases tail.len(),
{
    if tail.len() > 0 {
        assert(white_space(tail[tail.len() - 1]));
        assert((core + tail).drop_last() == core + tail.drop_last());
        lemma_trimmed_end_add(core, tail.drop_last());
    } else {
        assert(core + tail == core);
    }
}

/// A pattern stands in a text exactly when the text is made of something, the pattern and something
/// more.
pub proof fn law_occurrence_is_a_part(pattern: Seq<char>, s: Seq<char>)
    ensures
        occurs(pattern, s) <==> exists|a: Seq<char>, b: Seq<char>| s == #[trigger] (a + pattern + b),
{
    if occurs(pattern, s) {
        let at = choose|at: int| stands_at(s, at, pattern);
        let (a, b) = (s.take(at), s.skip(at + pattern.len()));
        assert(s == a + pattern + b);
    }
    if exists|a: Seq<char>, b: Seq<char>| s == #[trigger] (a + pattern + b) {
        let (a, b) = choose|a: Seq<char>, b: Seq<char>| s == #[trigger] (a + pattern + b);
        let at = a.len() as int;
        assert(s.subrange(at, at + pattern.len()) == pattern);
        assert(stands_at(s, at, pattern));
    }
}

/// A suffix is taken off as often as it stands at the end, and nothing else is.
pub proof fn law_suffixes_are_taken_off(s: Seq<char>, suffix: Seq<char>)
    requires
        suffix.len() > 0,
    ensures
        without_suffixes(s + suffix, suffix) == without_suffixes(s, suffix),
        (forall|a: Seq<char>| s != #[trigger] (a + suffix)) ==> without_suffixes(s, suffix) == s,
{
    let long = s + suffix;
    assert(long.skip(long.len() - suffix.len()) == suffix);
    assert(long.take(long.len() - suffix.len()) == s);
    if ends_with(s, suffix) {
        assert(s == s.take(s.len() - suffix.len()) + suffix);
    }
}

/// Texts are in the order of the characters in which they differ first, and a text stands before
/// its continuations.
pub proof fn law_first_difference_orders_texts(common: Seq<char>, a: Seq<char>, b: Seq<char>)
    ensures
        text_precedes(common + a, common + b) == text_precedes(a, b),
        a.len() == 0 ==> text_precedes(a, b) == (b.len() > 0),
        b.len() == 0 ==> !text_precedes(a, b),
        a.len() > 0 && b.len() > 0 && a[0] != b[0] ==> text_precedes(a, b) == (a[0] < b[0]),
    decreases common.len(),
{
    if common.len() > 0 {
        let rest = common.drop_first();
        assert((common + a).drop_first() == rest + a);
        assert((common + b).drop_first() == rest + b);
        law_first_difference_orders_texts(rest, a, b);
    } else {
        assert(common + a == a);
        assert(common + b == b);
    }
}

/// The number that a text of decimal digits stands for.
pub open spec fn number(digits: Seq<char>) -> int
    decreases digits.len(),
{
    if digits.len() == 0 {
        0
    } else {
        number(digits.drop_last()) * 10 + (digits.last() as int - '0' as int)
    }
}

/// Decimal notation is read back as the number that was written, and has no superfluous zero.
pub proof fn law_decimal_is_read_back(n: nat)
    ensures
        number(decimal(n)) == n,
        decimal(n).len() > 0,
        forall|i: int| 0 <= i < decimal(n).len() ==> '0' <= #[trigger] decimal(n)[i] <= '9',
        n > 0 ==> decimal(n)[0] != '0',
        n == 0 ==> decimal(n) == seq!['0'],
        signed_decimal(n as int) == decimal(n),
        n > 0 ==> signed_decimal(-n) == seq!['-'] + decimal(n),
    decreases n,
{
    reveal_strlit("-");
    assert("-"@ == seq!['-']);
    if n < 10 {
        assert(decimal(n).drop_last() == Seq::<char>::empty());
        assert(number(decimal(n).drop_last()) == 0);
    } else {
        law_decimal_is_read_back(n / 10);
        let before = decimal(n / 10);
        assert(decimal(n).drop_last() == before);
        assert forall|i: int| 0 <= i < decimal(n).len() implies '0' <= #[trigger] decimal(n)[i]
            <= '9' by {
            if i < before.len() {
                assert(decimal(n)[i] == before[i]);
            }
        }
        assert(decimal(n)[0] == before[0]);
    }
}

/// Lists are joined by joining what they join to, with the separator between; one text alone is
/// left as it is.
pub proof fn law_joining_is_piecewise(a: Seq<Seq<char>>, b: Seq<Seq<char>>, separator: Seq<char>)
    requires
        a.len() > 0,
        b.len() > 0,
    ensures
        joined(a + b, separator) == joined(a, separator) + separator + joined(b, separator),
        a.len() == 1 ==> joined(a, separator) == a[0],
        joined(Seq::empty(), separator) == Seq::<char>::empty(),
    decreases b.len(),
{
    assert((a + b).drop_last() == a + b.drop_last());
    assert((a + b).last() == b.last());
    if b.len() == 1 {
        assert(a + b.drop_last() == a);
    } else {
        law_joining_is_piecewise(a, b.drop_last(), separator);
        let left = joined(a, separator) + separator;
        assert(left + joined(b.drop_last(), separator) + separator + b.last() == left + (joined(
            b.drop_last(),
            separator,
        ) + separator + b.last()));
    }
}

/// The texts of a list of strings are those of its strings, one for one.
pub proof fn law_texts_are_one_for_one(strings: Seq<String>, slices_given: Seq<&str>)
    ensures
        texts(strings).len() == strings.len(),
        forall|i: int| 0 <= i < strings.len() ==> #[trigger] texts(strings)[i] == strings[i]@,
        slices(slices_given).len() == slices_given.len(),
        forall|i: int|
            0 <= i < slices_given.len() ==> #[trigger] slices(slices_given)[i] == slices_given[i]@,
{
}

/// One of the texts of a list is blank exactly when the last one is or one of those before it.
pub proof fn law_some_blank_by_text(patterns: Seq<String>, last: String)
    ensures
        some_blank(patterns.push(last)) == (some_blank(patterns) || trimmed(last@).len() == 0),
        patterns.len() == 0 ==> !some_blank(patterns),
{
    let all = patterns.push(last);
    if some_blank(patterns) {
        let i = choose|i: int| 0 <= i < patterns.len() && blank((#[trigger] patterns[i])@);
        assert(blank(all[i]@));
    }
    if blank(last@) {
        assert(blank(all[patterns.len() as int]@));
    }
    if some_blank(all) {
        let i = choose|i: int| 0 <= i < all.len() && blank((#[trigger] all[i])@);
        if i < patterns.len() {
            assert(blank(patterns[i]@));
        }
    }
}

/// White space behind a text makes no difference to what trimming leaves of it.
pub proof fn lemma_trimmed_push_white_space(s: Seq<char>, c: char)
    requires
        white_space(c),
    ensures
        trimmed(s.push(c)) == trimmed(s),
    decreases s.len(),
{
    if s.len() == 0 {
        assert(s.push(c).drop_first() == s);
    } else if white_space(s[0]) {
        assert(s.push(c).drop_first() == s.drop_first().push(c));
        lemma_trimmed_push_white_space(s.drop_first(), c);
    } else {
        assert(s.push(c).drop_last() == s);
    }
}

} // verus!
