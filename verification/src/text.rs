//! Text as sequences of characters.

use vstd::prelude::*;
use vstd::string::{StrSliceExecFns, StringExecFns, StringSliceAdditionalSpecFns};
use vstd::utf8::{decode_utf8, encode_utf8, valid_utf8};

verus! {

/// `String::push` appends one character.
pub assume_specification[ String::push ](text: &mut String, c: char)
    ensures
        final(text)@ == old(text)@.push(c),
;

/// The characters with the Unicode property `White_Space`.
pub open spec fn is_space(c: char) -> bool {
    let n = c as u32;
    ||| 0x09 <= n <= 0x0d
    ||| n == 0x20
    ||| n == 0x85
    ||| n == 0xa0
    ||| n == 0x1680
    ||| 0x2000 <= n <= 0x200a
    ||| 0x2028 <= n <= 0x2029
    ||| n == 0x202f
    ||| n == 0x205f
    ||| n == 0x3000
}

/// Whether a character has the Unicode property `White_Space`.
pub fn space(c: char) -> (b: bool)
    ensures
        b == is_space(c),
{
    let n: u32 = c as u32;
    (0x09 <= n && n <= 0x0d) || n == 0x20 || n == 0x85 || n == 0xa0 || n == 0x1680 || (0x2000 <= n
        && n <= 0x200a) || (0x2028 <= n && n <= 0x2029) || n == 0x202f || n == 0x205f || n == 0x3000
}

/// The characters of a text.
pub fn chars_of(text: &str) -> (chars: Vec<char>)
    ensures
        chars@ == text@,
{
    let mut chars: Vec<char> = Vec::new();
    for c in it: text.chars()
        invariant
            chars@ == it.seq().take(it.index() as int),
            it.seq() == text@,
    {
        chars.push(c);
    }
    chars
}

/// Text made of characters.
pub fn text_of(chars: &[char]) -> (text: String)
    ensures
        text@ == chars@,
{
    let mut text = String::new();
    let mut i: usize = 0;
    while i < chars.len()
        invariant
            i <= chars@.len(),
            text@ == chars@.take(i as int),
        decreases chars@.len() - i,
    {
        text.push(chars[i]);
        i += 1;
    }
    assert(chars@.take(i as int) =~= chars@);
    text
}

/// A text without the white space that it starts with.
pub open spec fn trim_start(s: Seq<char>) -> Seq<char>
    decreases s.len(),
{
    if s.len() > 0 && is_space(s[0]) {
        trim_start(s.skip(1))
    } else {
        s
    }
}

/// A text without the white space that it ends with.
pub open spec fn trim_end(s: Seq<char>) -> Seq<char>
    decreases s.len(),
{
    if s.len() > 0 && is_space(s.last()) {
        trim_end(s.drop_last())
    } else {
        s
    }
}

/// A text without the white space around it.
pub open spec fn trimmed(s: Seq<char>) -> Seq<char> {
    trim_end(trim_start(s))
}

/// Trimming leaves no white space at either end.
pub proof fn lemma_trimmed(s: Seq<char>)
    ensures
        trimmed(s).len() > 0 ==> !is_space(trimmed(s)[0]) && !is_space(trimmed(s).last()),
{
    lemma_trim_start(s);
    lemma_trim_end(trim_start(s));
}

/// Trimming takes white space off both ends and nothing else.
pub proof fn lemma_trimmed_is_inside(s: Seq<char>)
    ensures
        exists|i: int, j: int|
            #![trigger s.subrange(i, j)]
            {
                &&& 0 <= i <= j <= s.len()
                &&& trimmed(s) == s.subrange(i, j)
                &&& forall|k: int| 0 <= k < i ==> is_space(#[trigger] s[k])
                &&& forall|k: int| j <= k < s.len() ==> is_space(#[trigger] s[k])
            },
{
    let rest = trim_start(s);
    lemma_trim_start_is_end(s);
    lemma_trim_end_is_start(rest);
    let i = s.len() - rest.len();
    let j = i + trimmed(s).len();
    assert(trimmed(s) =~= s.subrange(i, j)) by {
        assert forall|k: int| 0 <= k < trimmed(s).len() implies trimmed(s)[k] == #[trigger] s.subrange(i, j)[k] by {
            assert(rest[k] == s[i + k]);
        }
    }
    assert forall|k: int| j <= k < s.len() implies is_space(#[trigger] s[k]) by {
        assert(rest[k - i] == s[k]);
    }
}

/// A text that neither starts nor ends with white space stays as it is.
pub proof fn lemma_trimmed_again(s: Seq<char>)
    requires
        s.len() > 0 ==> !is_space(s[0]) && !is_space(s.last()),
    ensures
        trimmed(s) == s,
{
}

/// Trimming at the start keeps the end.
proof fn lemma_trim_start_is_end(s: Seq<char>)
    ensures
        trim_start(s).len() <= s.len(),
        trim_start(s) == s.skip(s.len() - trim_start(s).len()),
        forall|k: int| 0 <= k < s.len() - trim_start(s).len() ==> is_space(#[trigger] s[k]),
    decreases s.len(),
{
    if s.len() > 0 && is_space(s[0]) {
        let rest = s.skip(1);
        lemma_trim_start_is_end(rest);
        let n = trim_start(s).len() as int;
        assert(rest.skip(rest.len() - n) =~= s.skip(s.len() - n));
        assert forall|k: int| 0 <= k < s.len() - n implies is_space(#[trigger] s[k]) by {
            if k > 0 {
                assert(rest[k - 1] == s[k]);
            }
        }
    } else {
        assert(s.skip(0) =~= s);
    }
}

/// Trimming at the end keeps the start.
proof fn lemma_trim_end_is_start(s: Seq<char>)
    ensures
        trim_end(s).len() <= s.len(),
        trim_end(s) == s.take(trim_end(s).len() as int),
        forall|k: int| trim_end(s).len() <= k < s.len() ==> is_space(#[trigger] s[k]),
    decreases s.len(),
{
    if s.len() > 0 && is_space(s.last()) {
        let front = s.drop_last();
        lemma_trim_end_is_start(front);
        let n = trim_end(s).len() as int;
        assert(front.take(n) =~= s.take(n));
        assert forall|k: int| n <= k < s.len() implies is_space(#[trigger] s[k]) by {
            if k < front.len() {
                assert(front[k] == s[k]);
            }
        }
    } else {
        assert(s.take(s.len() as int) =~= s);
    }
}

/// Trimming at the start.
proof fn lemma_trim_start(s: Seq<char>)
    ensures
        trim_start(s).len() > 0 ==> !is_space(trim_start(s)[0]),
    decreases s.len(),
{
    if s.len() > 0 && is_space(s[0]) {
        lemma_trim_start(s.skip(1));
    }
}

/// Trimming at the end keeps the start.
proof fn lemma_trim_end(s: Seq<char>)
    ensures
        trim_end(s).len() > 0 ==> !is_space(trim_end(s).last()) && trim_end(s)[0] == s[0],
        trim_end(s).len() <= s.len(),
    decreases s.len(),
{
    if s.len() > 0 && is_space(s.last()) {
        lemma_trim_end(s.drop_last());
    }
}

/// A text without the white space around it.
pub fn trim(text: &str) -> (r: &str)
    ensures
        r@ == trimmed(text@),
{
    let chars = chars_of(text);
    let n: usize = chars.len();
    let mut from: usize = 0;
    assert(chars@.skip(0) =~= chars@);
    while from < n && space(chars[from])
        invariant
            n == chars@.len(),
            from <= n,
            trim_start(chars@) == trim_start(chars@.skip(from as int)),
        decreases n - from,
    {
        assert(chars@.skip(from as int).skip(1) =~= chars@.skip(from + 1));
        from += 1;
    }
    let ghost rest = chars@.skip(from as int);
    assert(trim_start(chars@) == rest);
    let mut to: usize = n;
    assert(chars@.subrange(from as int, to as int) =~= rest);
    while from < to && space(chars[to - 1])
        invariant
            n == chars@.len(),
            from <= to <= n,
            trim_end(rest) == trim_end(chars@.subrange(from as int, to as int)),
        decreases to,
    {
        assert(chars@.subrange(from as int, to as int).drop_last() =~= chars@.subrange(
            from as int,
            to - 1,
        ));
        to -= 1;
    }
    text.substring_char(from, to)
}

/// Whether two texts are the same.
pub fn same(a: &str, b: &str) -> (r: bool)
    ensures
        r == (a@ == b@),
{
    a.to_owned() == b.to_owned()
}

/// One text stands before another in the order of their characters.
pub open spec fn precedes(a: Seq<char>, b: Seq<char>) -> bool
    decreases a.len(),
{
    if b.len() == 0 {
        false
    } else if a.len() == 0 {
        true
    } else {
        a[0] < b[0] || a[0] == b[0] && precedes(a.skip(1), b.skip(1))
    }
}

/// No text stands before itself.
pub proof fn lemma_precedes_irreflexive(a: Seq<char>)
    ensures
        !precedes(a, a),
    decreases a.len(),
{
    if a.len() > 0 {
        lemma_precedes_irreflexive(a.skip(1));
    }
}

/// What stands before a text stands before all that the text stands before.
pub proof fn lemma_precedes_transitive(a: Seq<char>, b: Seq<char>, c: Seq<char>)
    requires
        precedes(a, b),
        precedes(b, c),
    ensures
        precedes(a, c),
    decreases a.len(),
{
    if a.len() > 0 && a[0] == b[0] && b[0] == c[0] {
        lemma_precedes_transitive(a.skip(1), b.skip(1), c.skip(1));
    }
}

/// Of two texts one stands before the other.
pub proof fn lemma_precedes_total(a: Seq<char>, b: Seq<char>)
    requires
        a != b,
    ensures
        precedes(a, b) || precedes(b, a),
    decreases a.len(),
{
    if a.len() == 0 || b.len() == 0 {
        if a.len() == b.len() {
            assert(a =~= b);
        }
    } else if a[0] == b[0] {
        if a.skip(1) == b.skip(1) {
            assert(a =~= seq![a[0]] + a.skip(1));
            assert(b =~= seq![b[0]] + b.skip(1));
        }
        lemma_precedes_total(a.skip(1), b.skip(1));
    }
}

/// Whether one text stands before another in the order of their characters.
pub fn is_before(a: &str, b: &str) -> (r: bool)
    ensures
        r == precedes(a@, b@),
{
    let first = chars_of(a);
    let second = chars_of(b);
    let mut i: usize = 0;
    assert(first@.skip(0) =~= first@);
    assert(second@.skip(0) =~= second@);
    while i < first.len() && i < second.len()
        invariant
            i <= first@.len(),
            i <= second@.len(),
            first@ == a@,
            second@ == b@,
            precedes(first@, second@) == precedes(first@.skip(i as int), second@.skip(i as int)),
        decreases first@.len() - i,
    {
        assert(first@.skip(i as int).skip(1) =~= first@.skip(i + 1));
        assert(second@.skip(i as int).skip(1) =~= second@.skip(i + 1));
        if first[i] < second[i] {
            return true;
        }
        if first[i] > second[i] {
            return false;
        }
        i += 1;
    }
    i < second.len()
}

/// An ASCII letter in lower case, every other character as it is.
pub open spec fn lower_char(c: char) -> char {
    if 'A' <= c <= 'Z' {
        ((c as u32 + 32) as u32) as char
    } else {
        c
    }
}

/// A text with its ASCII letters in lower case.
pub open spec fn lowered(s: Seq<char>) -> Seq<char> {
    s.map_values(|c: char| lower_char(c))
}

/// An ASCII letter in upper case, every other character as it is.
pub open spec fn upper_char(c: char) -> char {
    if 'a' <= c <= 'z' {
        ((c as u32 - 32) as u32) as char
    } else {
        c
    }
}

/// A text with its ASCII letters in upper case.
pub open spec fn uppered(s: Seq<char>) -> Seq<char> {
    s.map_values(|c: char| upper_char(c))
}

/// A character that is no letter of the other case keeps its place and is what it was; a letter
/// in lower case is 32 behind the same letter in upper case. Each case undoes the other.
pub proof fn lemma_cases(s: Seq<char>, i: int)
    requires
        0 <= i < s.len(),
    ensures
        lowered(s).len() == s.len(),
        uppered(s).len() == s.len(),
        'A' <= s[i] <= 'Z' ==> lowered(s)[i] as int == s[i] as int + 32,
        !('A' <= s[i] <= 'Z') ==> lowered(s)[i] == s[i],
        'a' <= s[i] <= 'z' ==> uppered(s)[i] as int == s[i] as int - 32,
        !('a' <= s[i] <= 'z') ==> uppered(s)[i] == s[i],
        lowered(uppered(s)) == lowered(s),
        uppered(lowered(s)) == uppered(s),
{
    assert(lowered(uppered(s)) =~= lowered(s));
    assert(uppered(lowered(s)) =~= uppered(s));
}

/// A text with its ASCII letters in lower case.
pub fn lower(text: &str) -> (r: String)
    ensures
        r@ == lowered(text@),
{
    let mut r = String::new();
    for c in it: text.chars()
        invariant
            it.seq() == text@,
            r@ =~= lowered(text@).take(it.index() as int),
    {
        let d: char = if c >= 'A' && c <= 'Z' {
            ((c as u8) + 32) as char
        } else {
            c
        };
        r.push(d);
    }
    r
}

/// A text with its ASCII letters in upper case.
pub fn upper(text: &str) -> (r: String)
    ensures
        r@ == uppered(text@),
{
    let mut r = String::new();
    for c in it: text.chars()
        invariant
            it.seq() == text@,
            r@ =~= uppered(text@).take(it.index() as int),
    {
        let d: char = if c >= 'a' && c <= 'z' {
            ((c as u8) - 32) as char
        } else {
            c
        };
        r.push(d);
    }
    r
}

/// The number of bytes of a text in UTF-8.
pub fn byte_len(text: &str) -> (n: usize)
    ensures
        n == encode_utf8(text@).len(),
{
    text.as_bytes().len()
}

/// A text starts with another.
pub open spec fn has_prefix(s: Seq<char>, prefix: Seq<char>) -> bool {
    prefix.len() <= s.len() && s.take(prefix.len() as int) == prefix
}

/// Another text stands in a text at `i`.
pub open spec fn stands_at(s: Seq<char>, part: Seq<char>, i: int) -> bool {
    0 <= i && i + part.len() <= s.len() && s.subrange(i, i + part.len()) == part
}

/// A text holds another.
pub open spec fn has_part(s: Seq<char>, part: Seq<char>) -> bool {
    exists|i: int| stands_at(s, part, i)
}

/// A text holds what it was put together from.
pub proof fn lemma_part_between(a: Seq<char>, part: Seq<char>, b: Seq<char>)
    ensures
        has_part(a + part + b, part),
{
    let all = a + part + b;
    assert(all.subrange(a.len() as int, a.len() as int + part.len()) =~= part);
    assert(stands_at(all, part, a.len() as int));
}

/// A text holds each of some others.
#[verifier::opaque]
pub open spec fn holds_all(s: Seq<char>, parts: Seq<Seq<char>>) -> bool {
    forall|i: int| 0 <= i < parts.len() ==> has_part(s, #[trigger] parts[i])
}

/// A text that holds each of some others holds the one at `i`.
pub proof fn lemma_holds(s: Seq<char>, parts: Seq<Seq<char>>, i: int)
    requires
        holds_all(s, parts),
        0 <= i < parts.len(),
    ensures
        has_part(s, parts[i]),
{
    reveal(holds_all);
}

/// Every text holds all of none.
pub proof fn lemma_holds_none(s: Seq<char>)
    ensures
        holds_all(s, Seq::empty()),
{
    reveal(holds_all);
}

/// Two texts in a row hold what each of them held.
pub proof fn lemma_holds_joined(
    s: Seq<char>,
    parts: Seq<Seq<char>>,
    t: Seq<char>,
    others: Seq<Seq<char>>,
)
    requires
        holds_all(s, parts),
        holds_all(t, others),
    ensures
        holds_all(s + t, parts + others),
{
    reveal(holds_all);
    assert forall|i: int| 0 <= i < (parts + others).len() implies has_part(
        s + t,
        #[trigger] (parts + others)[i],
    ) by {
        let part = (parts + others)[i];
        let n = part.len() as int;
        if i < parts.len() {
            assert(has_part(s, parts[i]));
            let at = choose|at: int| stands_at(s, part, at);
            assert((s + t).subrange(at, at + n) =~= s.subrange(at, at + n));
            assert(stands_at(s + t, part, at));
        } else {
            assert(has_part(t, others[i - parts.len()]));
            let at = choose|at: int| stands_at(t, part, at);
            let there = at + s.len();
            assert((s + t).subrange(there, there + n) =~= t.subrange(at, at + n));
            assert(stands_at(s + t, part, there));
        }
    }
}

/// A text that grows still holds what it held, and what was added.
pub proof fn lemma_holds_one_more(s: Seq<char>, parts: Seq<Seq<char>>, more: Seq<char>)
    requires
        holds_all(s, parts),
    ensures
        holds_all(s + more, parts.push(more)),
{
    reveal(holds_all);
    assert forall|i: int| 0 <= i < parts.push(more).len() implies has_part(
        s + more,
        #[trigger] parts.push(more)[i],
    ) by {
        if i < parts.len() {
            assert(has_part(s, parts[i]));
            let at = choose|at: int| stands_at(s, parts[i], at);
            assert((s + more).subrange(at, at + parts[i].len()) =~= s.subrange(
                at,
                at + parts[i].len(),
            ));
            assert(stands_at(s + more, parts[i], at));
        } else {
            lemma_part_between(s, more, Seq::empty());
            assert(s + more + Seq::<char>::empty() =~= s + more);
        }
    }
}

/// Whether `part` stands in `s` at `i`.
fn part_at(s: &[char], part: &[char], i: usize) -> (r: bool)
    ensures
        r == stands_at(s@, part@, i as int),
{
    let n: usize = s.len();
    if i > n || n - i < part.len() {
        return false;
    }
    let mut j: usize = 0;
    while j < part.len()
        invariant
            n == s@.len(),
            i + part@.len() <= n,
            j <= part@.len(),
            forall|k: int| 0 <= k < j ==> s@[i + k] == part@[k],
        decreases part@.len() - j,
    {
        if s[i + j] != part[j] {
            assert(s@.subrange(i as int, i + part@.len())[j as int] != part@[j as int]);
            return false;
        }
        j += 1;
    }
    assert(s@.subrange(i as int, i + part@.len()) =~= part@);
    true
}

/// Whether a text starts with another.
pub fn starts_with(text: &str, prefix: &str) -> (r: bool)
    ensures
        r == has_prefix(text@, prefix@),
{
    let s = chars_of(text);
    let p = chars_of(prefix);
    assert(prefix@.len() <= text@.len() ==> text@.take(prefix@.len() as int) =~= text@.subrange(
        0,
        prefix@.len() as int,
    ));
    part_at(s.as_slice(), p.as_slice(), 0)
}

/// The first place from `from` on where a text holds another.
pub open spec fn index_from(s: Seq<char>, part: Seq<char>, from: int) -> Option<int>
    decreases s.len() + 1 - from,
{
    if from + part.len() > s.len() {
        None
    } else if stands_at(s, part, from) {
        Some(from)
    } else {
        index_from(s, part, from + 1)
    }
}

/// The first place where a text holds another.
pub open spec fn index_of(s: Seq<char>, part: Seq<char>) -> Option<int> {
    index_from(s, part, 0)
}

/// The first place from `from` on is one, and there is none before it.
pub proof fn lemma_index_from(s: Seq<char>, part: Seq<char>, from: int)
    requires
        0 <= from,
    ensures
        match index_from(s, part, from) {
            Some(i) => from <= i && stands_at(s, part, i) && forall|j: int|
                from <= j < i ==> !stands_at(s, part, j),
            None => forall|j: int| from <= j ==> !stands_at(s, part, j),
        },
    decreases s.len() + 1 - from,
{
    if from + part.len() <= s.len() && !stands_at(s, part, from) {
        lemma_index_from(s, part, from + 1);
    }
}

/// The first place where a text holds another.
pub fn find(text: &str, part: &str) -> (r: Option<usize>)
    ensures
        index_of(text@, part@) == match r {
            Some(i) => Some(i as int),
            None => None::<int>,
        },
        r matches Some(i) ==> stands_at(text@, part@, i as int) && i + part@.len() <= usize::MAX,
        r is Some <==> has_part(text@, part@),
{
    proof {
        lemma_index_from(text@, part@, 0);
        assert(index_of(text@, part@) is Some <==> has_part(text@, part@));
    }
    let s = chars_of(text);
    let p = chars_of(part);
    if s.len() < p.len() {
        return None;
    }
    let last: usize = s.len() - p.len();
    let mut i: usize = 0;
    loop
        invariant
            s@ == text@,
            p@ == part@,
            last == s@.len() - p@.len(),
            s@.len() <= usize::MAX,
            i <= last,
            index_of(text@, part@) == index_from(text@, part@, i as int),
            index_of(text@, part@) is Some <==> has_part(text@, part@),
        decreases last - i,
    {
        if part_at(s.as_slice(), p.as_slice(), i) {
            return Some(i);
        }
        if i == last {
            assert(index_from(text@, part@, i as int) == index_from(text@, part@, i + 1));
            return None;
        }
        i += 1;
    }
}

/// Whether a text holds another.
pub fn contains(text: &str, part: &str) -> (r: bool)
    ensures
        r == has_part(text@, part@),
{
    find(text, part).is_some()
}

/// A text without its first `from` characters.
pub fn skip(text: &str, from: usize) -> (r: &str)
    requires
        from <= text@.len(),
    ensures
        r@ == text@.skip(from as int),
{
    let n: usize = text.unicode_len();
    assert(text@.subrange(from as int, n as int) =~= text@.skip(from as int));
    text.substring_char(from, n)
}

/// The first `to` characters of a text.
pub fn take(text: &str, to: usize) -> (r: &str)
    requires
        to <= text@.len(),
    ensures
        r@ == text@.take(to as int),
{
    assert(text@.subrange(0, to as int) =~= text@.take(to as int));
    text.substring_char(0, to)
}

/// The decimal digit of a number below ten.
pub open spec fn digit(d: int) -> char {
    ((0x30 + d) as u8) as char
}

/// A number in decimal.
pub open spec fn decimal(n: nat) -> Seq<char>
    decreases n,
{
    if n < 10 {
        seq![digit(n as int)]
    } else {
        decimal(n / 10).push(digit((n % 10) as int))
    }
}

/// A number in decimal.
pub fn decimal_text(n: u64) -> (text: String)
    ensures
        text@ == decimal(n as nat),
    decreases n,
{
    let mut text = if n < 10 {
        String::new()
    } else {
        decimal_text(n / 10)
    };
    text.push((0x30u8 + (n % 10) as u8) as char);
    text
}

/// A number in decimal with its sign where it is negative.
pub open spec fn signed_decimal(n: int) -> Seq<char> {
    if n < 0 {
        seq!['-'] + decimal((-n) as nat)
    } else {
        decimal(n as nat)
    }
}

/// A number in decimal with its sign where it is negative.
pub fn signed_decimal_text(n: i64) -> (text: String)
    ensures
        text@ == signed_decimal(n as int),
{
    if n < 0 {
        let magnitude: u64 = if n == i64::MIN {
            0x8000_0000_0000_0000
        } else {
            (-n) as u64
        };
        let digits = decimal_text(magnitude);
        let mut text = String::new();
        text.push('-');
        text.append(digits.as_str());
        assert(text@ =~= seq!['-'] + digits@);
        text
    } else {
        decimal_text(n as u64)
    }
}

/// The text that `{:?}` prints for a text: quoted, with escapes.
pub uninterp spec fn debug_quoted(s: Seq<char>) -> Seq<char>;

/// Calls std's `Debug` of `str`, which prints the text in quotes with special characters escaped,
/// as its characters alone say.
#[verifier::external_body]
pub(crate) fn debug_text(text: &str) -> (r: String)
    ensures
        r@ == debug_quoted(text@),
{
    format!("{:?}", text)
}

/// A line without the carriage return before its end.
pub open spec fn without_cr(line: Seq<char>) -> Seq<char> {
    if line.len() > 0 && line.last() == '\r' {
        line.drop_last()
    } else {
        line
    }
}

/// The lines of a text from `from` on, of which the current one started at `start`: they end with
/// a line feed, a carriage return before it belongs to the end. The last one may lack the end.
pub open spec fn lines_from(s: Seq<char>, start: int, from: int) -> Seq<Seq<char>>
    decreases s.len() - from,
{
    if from >= s.len() {
        if start < s.len() {
            seq![s.subrange(start, s.len() as int)]
        } else {
            Seq::empty()
        }
    } else if s[from] == '\n' {
        seq![without_cr(s.subrange(start, from))] + lines_from(s, from + 1, from + 1)
    } else {
        lines_from(s, start, from + 1)
    }
}

/// The lines of a text.
pub open spec fn lines(s: Seq<char>) -> Seq<Seq<char>> {
    lines_from(s, 0, 0)
}

proof fn lemma_lines_behind(s: Seq<char>, k: int, start: int, from: int)
    requires
        0 <= k <= s.len(),
        0 <= start <= from <= s.len() - k,
    ensures
        lines_from(s, k + start, k + from) == lines_from(s.skip(k), start, from),
    decreases s.len() - from,
{
    let rest = s.skip(k);
    if from >= rest.len() {
        assert(start < rest.len() ==> s.subrange(k + start, s.len() as int) =~= rest.subrange(
            start,
            rest.len() as int,
        ));
    } else if rest[from] == '\n' {
        assert(s.subrange(k + start, k + from) =~= rest.subrange(start, from));
        lemma_lines_behind(s, k, from + 1, from + 1);
    } else {
        lemma_lines_behind(s, k, start, from + 1);
    }
}

proof fn lemma_line_goes_on(s: Seq<char>, from: int, to: int)
    requires
        0 <= from <= to <= s.len(),
        forall|i: int| from <= i < to ==> #[trigger] s[i] != '\n',
    ensures
        lines_from(s, 0, from) == lines_from(s, 0, to),
    decreases to - from,
{
    if from < to {
        assert(s[from] != '\n');
        lemma_line_goes_on(s, from + 1, to);
    }
}

/// A line feed ends a line, with a carriage return that stands before it, and what follows is
/// split in the same way. A text without one is a single line, as it is; an empty text is none.
pub proof fn lemma_lines(a: Seq<char>, b: Seq<char>)
    requires
        forall|i: int| 0 <= i < a.len() ==> #[trigger] a[i] != '\n',
    ensures
        lines(a + seq!['\n'] + b) == seq![a] + lines(b) || a.len() > 0 && a.last() == '\r' && lines(
            a + seq!['\n'] + b,
        ) == seq![a.drop_last()] + lines(b),
        a.len() > 0 && a.last() == '\r' ==> lines(a + seq!['\n'] + b)[0] == a.drop_last(),
        a.len() > 0 ==> lines(a) == seq![a],
        lines(Seq::empty()) == Seq::<Seq<char>>::empty(),
{
    let n = a.len() as int;
    let s = a + seq!['\n'] + b;
    assert forall|i: int| 0 <= i < n implies #[trigger] s[i] != '\n' by {
        assert(a[i] == s[i]);
    }
    lemma_line_goes_on(s, 0, n);
    assert(s[n] == '\n');
    assert(s.subrange(0, n) =~= a);
    lemma_lines_behind(s, n + 1, 0, 0);
    assert(s.skip(n + 1) =~= b);
    assert(lines(s) == seq![without_cr(a)] + lines(b));
    lemma_line_goes_on(a, 0, n);
    assert(a.subrange(0, n) =~= a);
}

/// The texts in a list.
pub open spec fn texts(list: Seq<String>) -> Seq<Seq<char>> {
    list.map_values(|s: String| s@)
}

/// The lines of a text.
pub fn lines_of(text: &str) -> (list: Vec<String>)
    ensures
        texts(list@) == lines(text@),
{
    let chars = chars_of(text);
    let n: usize = chars.len();
    let mut list: Vec<String> = Vec::new();
    let mut start: usize = 0;
    let mut i: usize = 0;
    while i < n
        invariant
            n == chars@.len(),
            start <= i <= n,
            chars@ == text@,
            lines(text@) =~= texts(list@) + lines_from(text@, start as int, i as int),
        decreases n - i,
    {
        if chars[i] == '\n' {
            let mut end: usize = i;
            if start < i && chars[i - 1] == '\r' {
                end = i - 1;
                assert(text@.subrange(start as int, i as int).drop_last() =~= text@.subrange(
                    start as int,
                    end as int,
                ));
            }
            let line = text_of(vstd::slice::slice_subrange(chars.as_slice(), start, end));
            assert(line@ == without_cr(text@.subrange(start as int, i as int)));
            list.push(line);
            start = i + 1;
        }
        i += 1;
    }
    if start < n {
        list.push(text_of(vstd::slice::slice_subrange(chars.as_slice(), start, n)));
    }
    list
}

/// A text consists of ASCII digits.
pub open spec fn all_digits(s: Seq<char>) -> bool {
    forall|i: int| 0 <= i < s.len() ==> '0' <= #[trigger] s[i] <= '9'
}

/// The number that decimal digits write.
pub open spec fn decimal_value(s: Seq<char>) -> int
    decreases s.len(),
{
    if s.len() == 0 {
        0
    } else {
        10 * decimal_value(s.drop_last()) + (s.last() as int - '0' as int)
    }
}

/// A number is read back from its digits.
pub proof fn lemma_decimal_round_trip(n: nat)
    ensures
        all_digits(decimal(n)),
        decimal_value(decimal(n)) == n,
        decimal(n).len() >= 1,
    decreases n,
{
    if n >= 10 {
        lemma_decimal_round_trip(n / 10);
        assert(decimal(n).drop_last() =~= decimal(n / 10));
    } else {
        assert(decimal(n).drop_last() =~= Seq::empty());
        reveal_with_fuel(decimal_value, 2);
    }
}

/// The number that a text of decimal digits writes, up to a limit.
pub fn parse_digits(text: &str, limit: u32) -> (n: Option<u32>)
    requires
        limit <= 0x100_0000,
    ensures
        n matches Some(v) ==> v == decimal_value(text@),
        n is Some <==> text@.len() > 0 && all_digits(text@) && decimal_value(text@) <= limit,
{
    let chars = chars_of(text);
    if chars.len() == 0 {
        return None;
    }
    let mut n: u32 = 0;
    let mut over = false;
    let mut i: usize = 0;
    assert(chars@.take(0) =~= Seq::empty());
    while i < chars.len()
        invariant
            i <= chars@.len(),
            chars@ == text@,
            limit <= 0x100_0000,
            n <= limit,
            all_digits(chars@.take(i as int)),
            decimal_value(chars@.take(i as int)) >= 0,
            over == (decimal_value(chars@.take(i as int)) > limit),
            !over ==> n == decimal_value(chars@.take(i as int)),
        decreases chars@.len() - i,
    {
        let c = chars[i];
        assert(chars@.take(i + 1).drop_last() =~= chars@.take(i as int));
        if c < '0' || c > '9' {
            assert(!all_digits(text@));
            return None;
        }
        if !over {
            let next: u32 = 10 * n + (c as u32 - '0' as u32);
            if next > limit {
                over = true;
            } else {
                n = next;
            }
        }
        assert forall|j: int| 0 <= j < i + 1 implies '0' <= #[trigger] chars@.take(i + 1)[j]
            <= '9' by {
            if j < i {
                assert(chars@.take(i as int)[j] == chars@.take(i + 1)[j]);
            }
        }
        i += 1;
    }
    assert(chars@.take(i as int) =~= text@);
    if over {
        None
    } else {
        Some(n)
    }
}

/// The lower case hexadecimal digit of a number below 16.
pub open spec fn hex_digit(d: int) -> char {
    if d < 10 {
        ((0x30 + d) as u8) as char
    } else {
        ((0x57 + d) as u8) as char
    }
}

/// Bytes in lower case hexadecimal, two digits each.
pub open spec fn hex_of(bytes: Seq<u8>) -> Seq<char>
    decreases bytes.len(),
{
    if bytes.len() == 0 {
        Seq::empty()
    } else {
        hex_of(bytes.drop_last()) + seq![
            hex_digit(bytes.last() as int / 16),
            hex_digit(bytes.last() as int % 16),
        ]
    }
}

/// Each byte is two digits, the one of its upper half first: `0` to `9` stand for themselves and
/// `a` to `f` for 10 to 15. So two lists of bytes with the same digits are the same.
pub proof fn lemma_hex(a: Seq<u8>, b: Seq<u8>, i: int)
    requires
        0 <= i < a.len(),
    ensures
        hex_of(a).len() == 2 * a.len(),
        a[i] == 16 * hex_value(hex_of(a)[2 * i]) + hex_value(hex_of(a)[2 * i + 1]),
        hex_of(a) == hex_of(b) ==> a == b,
{
    lemma_hex_places(a);
    lemma_hex_places(b);
    if hex_of(a) == hex_of(b) {
        assert forall|k: int| 0 <= k < a.len() implies a[k] == b[k] by {
            assert(is_hex_byte(a, k) && is_hex_byte(b, k));
        }
        assert(a =~= b);
    }
    assert(is_hex_byte(a, i));
}

/// What a hexadecimal digit stands for.
pub open spec fn hex_value(c: char) -> int {
    if '0' <= c <= '9' {
        c as int - '0' as int
    } else {
        10 + (c as int - 'a' as int)
    }
}

spec fn is_hex_byte(bytes: Seq<u8>, i: int) -> bool {
    bytes[i] == 16 * hex_value(hex_of(bytes)[2 * i]) + hex_value(hex_of(bytes)[2 * i + 1])
}

proof fn lemma_hex_places(bytes: Seq<u8>)
    ensures
        hex_of(bytes).len() == 2 * bytes.len(),
        forall|i: int| 0 <= i < bytes.len() ==> #[trigger] is_hex_byte(bytes, i),
    decreases bytes.len(),
{
    if bytes.len() > 0 {
        let front = bytes.drop_last();
        lemma_hex_places(front);
        assert forall|i: int| 0 <= i < bytes.len() implies #[trigger] is_hex_byte(bytes, i) by {
            if i < front.len() {
                assert(is_hex_byte(front, i));
            }
        }
    }
}

/// The lower case hexadecimal digit of a number below 16.
fn hex_char(d: u8) -> (c: char)
    requires
        d < 16,
    ensures
        c == hex_digit(d as int),
{
    if d < 10 {
        (0x30u8 + d) as char
    } else {
        (0x57u8 + d) as char
    }
}

/// Bytes in lower case hexadecimal, two digits each.
pub fn hex_text(bytes: &[u8]) -> (text: String)
    ensures
        text@ == hex_of(bytes@),
        text@.len() == 2 * bytes@.len(),
{
    let mut text = String::new();
    for i in 0..bytes.len()
        invariant
            text@ == hex_of(bytes@.take(i as int)),
            text@.len() == 2 * i,
    {
        assert(bytes@.take(i + 1).drop_last() =~= bytes@.take(i as int));
        let ghost before = text@;
        text.push(hex_char(bytes[i] / 16));
        text.push(hex_char(bytes[i] % 16));
        assert(text@ =~= before + seq![
            hex_digit(bytes@[i as int] as int / 16),
            hex_digit(bytes@[i as int] as int % 16),
        ]);
    }
    assert(bytes@.take(bytes@.len() as int) =~= bytes@);
    text
}

/// The text that bytes write, with a replacement character for what is not UTF-8.
pub uninterp spec fn lossy_text(bytes: Seq<u8>) -> Seq<char>;

/// Calls `String::from_utf8_lossy`: the text that the bytes write in UTF-8; where they are not
/// UTF-8, a text that depends on the bytes alone.
#[verifier::external_body]
pub(crate) fn text_from_bytes(bytes: &[u8]) -> (text: String)
    ensures
        text@ == lossy_text(bytes@),
        valid_utf8(bytes@) ==> text@ == decode_utf8(bytes@),
{
    String::from_utf8_lossy(bytes).into_owned()
}

} // verus!
