//! Small pieces of text handling that the rest of the library is built on.

use vstd::prelude::*;

verus! {

/// The character that stands for a decimal digit.
pub open spec fn digit_char(d: nat) -> char
    recommends
        d < 10,
{
    if d == 0 {
        '0'
    } else if d == 1 {
        '1'
    } else if d == 2 {
        '2'
    } else if d == 3 {
        '3'
    } else if d == 4 {
        '4'
    } else if d == 5 {
        '5'
    } else if d == 6 {
        '6'
    } else if d == 7 {
        '7'
    } else if d == 8 {
        '8'
    } else {
        '9'
    }
}

/// A number written in decimal, without sign and without leading zeros.
pub open spec fn decimal_text(n: nat) -> Seq<char>
    decreases n,
{
    if n < 10 {
        seq![digit_char(n)]
    } else {
        decimal_text(n / 10).push(digit_char(n % 10))
    }
}

fn digit_str(d: u16) -> (text: &'static str)
    requires
        d < 10,
    ensures
        text@ == seq![digit_char(d as nat)],
{
    proof {
        reveal_strlit("0");
        reveal_strlit("1");
        reveal_strlit("2");
        reveal_strlit("3");
        reveal_strlit("4");
        reveal_strlit("5");
        reveal_strlit("6");
        reveal_strlit("7");
        reveal_strlit("8");
        reveal_strlit("9");
    }
    let text = if d == 0 {
        "0"
    } else if d == 1 {
        "1"
    } else if d == 2 {
        "2"
    } else if d == 3 {
        "3"
    } else if d == 4 {
        "4"
    } else if d == 5 {
        "5"
    } else if d == 6 {
        "6"
    } else if d == 7 {
        "7"
    } else if d == 8 {
        "8"
    } else {
        "9"
    };
    assert(text@ =~= seq![digit_char(d as nat)]);
    text
}

/// Writes a number in decimal.
pub fn decimal(n: u16) -> (text: String)
    ensures
        text@ == decimal_text(n as nat),
    decreases n,
{
    if n < 10 {
        digit_str(n).to_owned()
    } else {
        let mut text = decimal(n / 10);
        let last = digit_str(n % 10);
        text.append(last);
        assert(text@ =~= decimal_text((n / 10) as nat).push(digit_char((n % 10) as nat)));
        text
    }
}

/// The characters of a text, one by one.
pub fn to_chars(text: &str) -> (chars: Vec<char>)
    ensures
        chars@ == text@,
{
    broadcast use vstd::string::group_string_axioms;

    let mut chars: Vec<char> = Vec::new();
    for c in it: text.chars()
        invariant
            it.seq() == text@,
            chars@ == it.seq().take(it.index()),
    {
        chars.push(c);
    }
    chars
}

/// A letter from `A` to `Z` in lower case; any other character as it is.
pub open spec fn ascii_lower(c: char) -> char {
    if 'A' <= c <= 'Z' {
        ((c as u8) + 32) as char
    } else {
        c
    }
}

/// Puts a letter from `A` to `Z` in lower case.
pub fn lower_char(c: char) -> (lower: char)
    ensures
        lower == ascii_lower(c),
{
    if 'A' <= c && c <= 'Z' {
        ((c as u8) + 32) as char
    } else {
        c
    }
}

/// Whether a character is white space, as Unicode defines it.
pub open spec fn is_space(c: char) -> bool {
    let n = c as u32;
    ||| 0x09 <= n <= 0x0D
    ||| n == 0x20
    ||| n == 0x85
    ||| n == 0xA0
    ||| n == 0x1680
    ||| 0x2000 <= n <= 0x200A
    ||| n == 0x2028
    ||| n == 0x2029
    ||| n == 0x202F
    ||| n == 0x205F
    ||| n == 0x3000
}

/// Tells whether a character is white space.
pub fn is_space_char(c: char) -> (space: bool)
    ensures
        space == is_space(c),
{
    let n = c as u32;
    (0x09 <= n && n <= 0x0D) || n == 0x20 || n == 0x85 || n == 0xA0 || n == 0x1680 || (0x2000 <= n
        && n <= 0x200A) || n == 0x2028 || n == 0x2029 || n == 0x202F || n == 0x205F || n == 0x3000
}

/// The first place at or after `from` where `c` stands in `s`, or the
/// length of `s` where it stands nowhere there.
pub open spec fn find(s: Seq<char>, c: char, from: int) -> int
    recommends
        0 <= from,
    decreases s.len() - from,
{
    if from >= s.len() {
        s.len() as int
    } else if s[from] == c {
        from
    } else {
        find(s, c, from + 1)
    }
}

/// `find` gives a place between `from` and the end, `c` stands at no
/// place before it, and `c` stands at it unless it is the end.
pub proof fn lemma_find(s: Seq<char>, c: char, from: int)
    requires
        0 <= from <= s.len(),
    ensures
        from <= find(s, c, from) <= s.len(),
        forall|i: int| from <= i < find(s, c, from) ==> s[i] != c,
        find(s, c, from) < s.len() ==> s[find(s, c, from)] == c,
    decreases s.len() - from,
{
    if from < s.len() && s[from] != c {
        lemma_find(s, c, from + 1);
    }
}

/// In the first `end` characters of `s`, `find` gives what it gives in
/// `s`, or `end` where that lies further on.
pub proof fn lemma_find_in_prefix(s: Seq<char>, c: char, from: int, end: int)
    requires
        0 <= from <= end <= s.len(),
    ensures
        find(s.subrange(0, end), c, from) == if find(s, c, from) < end {
            find(s, c, from)
        } else {
            end
        },
    decreases end - from,
{
    if from < end && s[from] != c {
        lemma_find_in_prefix(s, c, from + 1, end);
    }
    lemma_find(s, c, from);
}

/// In the part of `s` between `a` and `b`, `find` gives what it gives in
/// `s`, counted from `a`, or the end of the part where that lies further
/// on.
pub proof fn lemma_find_in_part(s: Seq<char>, c: char, a: int, b: int, from: int)
    requires
        0 <= a <= from <= b <= s.len(),
    ensures
        find(s.subrange(a, b), c, from - a) == if find(s, c, from) < b {
            find(s, c, from) - a
        } else {
            b - a
        },
    decreases b - from,
{
    if from < b && s[from] != c {
        lemma_find_in_part(s, c, a, b, from + 1);
    }
    lemma_find(s, c, from);
}

/// Finds the first place in `chars`, from `from` on, where `c` stands.
pub fn find_char(chars: &Vec<char>, c: char, from: usize) -> (at: usize)
    requires
        from <= chars.len(),
    ensures
        at == find(chars@, c, from as int),
        from <= at <= chars.len(),
{
    let mut at = from;
    while at < chars.len() && chars[at] != c
        invariant
            from <= at <= chars.len(),
            find(chars@, c, from as int) == find(chars@, c, at as int),
        decreases chars.len() - at,
    {
        at += 1;
    }
    at
}

/// A text without the white space at its start.
pub open spec fn trim_start(s: Seq<char>) -> Seq<char>
    decreases s.len(),
{
    if s.len() > 0 && is_space(s[0]) {
        trim_start(s.drop_first())
    } else {
        s
    }
}

/// A text without the white space at its end.
pub open spec fn trim_end(s: Seq<char>) -> Seq<char>
    decreases s.len(),
{
    if s.len() > 0 && is_space(s.last()) {
        trim_end(s.drop_last())
    } else {
        s
    }
}

/// A text without the white space at its start and at its end.
pub open spec fn trim(s: Seq<char>) -> Seq<char> {
    trim_end(trim_start(s))
}

/// Finds the part of `chars` between `from` and `to` that is left when
/// the white space at both ends is taken away.
pub fn trim_bounds(chars: &Vec<char>, from: usize, to: usize) -> (bounds: (usize, usize))
    requires
        from <= to <= chars.len(),
    ensures
        from <= bounds.0 <= bounds.1 <= to,
        chars@.subrange(bounds.0 as int, bounds.1 as int) == trim(
            chars@.subrange(from as int, to as int),
        ),
{
    let mut a = from;
    while a < to && is_space_char(chars[a])
        invariant
            from <= a <= to <= chars.len(),
            trim_start(chars@.subrange(from as int, to as int)) == trim_start(
                chars@.subrange(a as int, to as int),
            ),
        decreases to - a,
    {
        assert(chars@.subrange(a as int, to as int).drop_first() =~= chars@.subrange(
            a as int + 1,
            to as int,
        ));
        a += 1;
    }
    let mut b = to;
    while a < b && is_space_char(chars[b - 1])
        invariant
            a <= b <= to <= chars.len(),
            trim_end(chars@.subrange(a as int, to as int)) == trim_end(
                chars@.subrange(a as int, b as int),
            ),
        decreases b - a,
    {
        assert(chars@.subrange(a as int, b as int).drop_last() =~= chars@.subrange(
            a as int,
            b as int - 1,
        ));
        b -= 1;
    }
    (a, b)
}

/// Whether `needle` stands in `s` at the place `at`.
pub open spec fn stands_at(s: Seq<char>, needle: Seq<char>, at: int) -> bool {
    0 <= at && at + needle.len() <= s.len() && s.subrange(at, at + needle.len()) == needle
}

/// Whether `needle` stands somewhere in `s`. The empty text stands in
/// every text.
pub open spec fn occurs(s: Seq<char>, needle: Seq<char>) -> bool {
    exists|at: int| stands_at(s, needle, at)
}

fn matches_at(chars: &Vec<char>, from: usize, to: usize, needle: &Vec<char>, at: usize) -> (found:
    bool)
    requires
        from <= at,
        at + needle.len() <= to <= chars.len(),
    ensures
        found == stands_at(chars@.subrange(from as int, to as int), needle@, at - from),
{
    let ghost part = chars@.subrange(from as int, to as int);
    let mut i: usize = 0;
    while i < needle.len()
        invariant
            i <= needle.len(),
            from <= at,
            at + needle.len() <= to <= chars.len(),
            part == chars@.subrange(from as int, to as int),
            forall|j: int| 0 <= j < i ==> chars[at + j] == needle[j],
        decreases needle.len() - i,
    {
        if chars[at + i] != needle[i] {
            proof {
                let window = part.subrange(at - from, at - from + needle.len());
                assert(window[i as int] == chars[at + i]);
            }
            return false;
        }
        i += 1;
    }
    proof {
        assert(part.subrange(at - from, at - from + needle.len()) =~= needle@);
    }
    true
}

/// Tells whether `needle` stands somewhere in the part of `chars` between
/// `from` and `to`.
pub fn occurs_in(chars: &Vec<char>, from: usize, to: usize, needle: &Vec<char>) -> (found: bool)
    requires
        from <= to <= chars.len(),
    ensures
        found == occurs(chars@.subrange(from as int, to as int), needle@),
{
    let ghost part = chars@.subrange(from as int, to as int);
    if needle.len() > to - from {
        return false;
    }
    let last = to - needle.len();
    let mut at = from;
    loop
        invariant
            from <= at <= last,
            last + needle.len() == to,
            to <= chars.len(),
            part == chars@.subrange(from as int, to as int),
            forall|k: int| 0 <= k < at - from ==> !stands_at(part, needle@, k),
        decreases last - at,
    {
        if matches_at(chars, from, to, needle, at) {
            return true;
        }
        if at == last {
            return false;
        }
        at += 1;
    }
}

/// The last run of characters in `s` that holds no white space, where `s`
/// ends in one; the empty text where `s` is empty or ends in white space.
pub open spec fn last_run(s: Seq<char>) -> Seq<char>
    decreases s.len(),
{
    if s.len() == 0 || is_space(s.last()) {
        Seq::empty()
    } else {
        last_run(s.drop_last()).push(s.last())
    }
}

/// The last word of a text: its last run of characters that are no white
/// space. A text of white space alone has an empty last word.
pub open spec fn last_word(s: Seq<char>) -> Seq<char> {
    last_run(trim_end(s))
}

/// Finds the last word in the part of `chars` between `from` and `to`.
pub fn last_word_bounds(chars: &Vec<char>, from: usize, to: usize) -> (bounds: (usize, usize))
    requires
        from <= to <= chars.len(),
    ensures
        from <= bounds.0 <= bounds.1 <= to,
        chars@.subrange(bounds.0 as int, bounds.1 as int) == last_word(
            chars@.subrange(from as int, to as int),
        ),
{
    let mut b = to;
    while from < b && is_space_char(chars[b - 1])
        invariant
            from <= b <= to <= chars.len(),
            trim_end(chars@.subrange(from as int, to as int)) == trim_end(
                chars@.subrange(from as int, b as int),
            ),
        decreases b - from,
    {
        assert(chars@.subrange(from as int, b as int).drop_last() =~= chars@.subrange(
            from as int,
            b as int - 1,
        ));
        b -= 1;
    }
    let mut a = b;
    while from < a && !is_space_char(chars[a - 1])
        invariant
            from <= a <= b <= chars.len(),
            last_run(chars@.subrange(from as int, b as int)) == last_run(
                chars@.subrange(from as int, a as int),
            ) + chars@.subrange(a as int, b as int),
        decreases a - from,
    {
        proof {
            let head = chars@.subrange(from as int, a as int);
            assert(head.drop_last() =~= chars@.subrange(from as int, a as int - 1));
            assert(last_run(head) == last_run(head.drop_last()).push(head.last()));
            assert(last_run(head.drop_last()).push(head.last()) + chars@.subrange(
                a as int,
                b as int,
            ) =~= last_run(head.drop_last()) + chars@.subrange(a as int - 1, b as int));
        }
        a -= 1;
    }
    proof {
        assert(last_run(chars@.subrange(from as int, a as int)) =~= Seq::<char>::empty());
        assert(Seq::<char>::empty() + chars@.subrange(a as int, b as int) =~= chars@.subrange(
            a as int,
            b as int,
        ));
    }
    (a, b)
}

} // verus!
