//! Operations on text, stated over the sequence of its characters.
use vstd::prelude::*;
use vstd::string::*;

verus! {

broadcast use vstd::string::group_string_axioms;

/// Position `i` is where `a` first falls below `b`: the texts agree before it, and either `a`
/// ends there while `b` goes on, or the character of `a` is the smaller one.
pub open spec fn falls_below_at(a: Seq<char>, b: Seq<char>, i: int) -> bool {
    &&& 0 <= i <= a.len()
    &&& i < b.len()
    &&& forall|j: int| 0 <= j < i ==> a[j] == b[j]
    &&& i == a.len() || a[i] < b[i]
}

/// Lexicographic order of texts by code point.
pub open spec fn text_lt(a: Seq<char>, b: Seq<char>) -> bool {
    exists|i: int| falls_below_at(a, b, i)
}

/// No text comes before itself.
pub proof fn lemma_text_lt_irreflexive(a: Seq<char>)
    ensures
        !text_lt(a, a),
{
}

/// The order of texts is transitive.
pub proof fn lemma_text_lt_transitive(a: Seq<char>, b: Seq<char>, c: Seq<char>)
    requires
        text_lt(a, b),
        text_lt(b, c),
    ensures
        text_lt(a, c),
{
    let i = choose|i: int| falls_below_at(a, b, i);
    let j = choose|j: int| falls_below_at(b, c, j);
    let k = if i < j { i } else { j };
    assert(falls_below_at(a, c, k));
}

/// Two texts are equal or one of them comes first.
pub proof fn lemma_text_lt_total(a: Seq<char>, b: Seq<char>)
    ensures
        a == b || text_lt(a, b) || text_lt(b, a),
    decreases a.len(),
{
    if a != b {
        if a.len() == 0 {
            assert(b.len() > 0) by {
                if b.len() == 0 {
                    assert(a =~= b);
                }
            }
            assert(falls_below_at(a, b, 0));
        } else if b.len() == 0 {
            assert(falls_below_at(b, a, 0));
        } else if a[0] < b[0] {
            assert(falls_below_at(a, b, 0));
        } else if b[0] < a[0] {
            assert(falls_below_at(b, a, 0));
        } else {
            let ra = a.drop_first();
            let rb = b.drop_first();
            if ra == rb {
                assert(a =~= b) by {
                    assert(a.len() == ra.len() + 1);
                    assert(b.len() == rb.len() + 1);
                    assert forall|j: int| 0 <= j < a.len() implies a[j] == b[j] by {
                        if j > 0 {
                            assert(a[j] == ra[j - 1]);
                            assert(b[j] == rb[j - 1]);
                        }
                    }
                }
            }
            lemma_text_lt_total(ra, rb);
            if text_lt(ra, rb) {
                let i = choose|i: int| falls_below_at(ra, rb, i);
                assert forall|j: int| 0 <= j < i + 1 implies a[j] == b[j] by {
                    if j > 0 {
                        assert(a[j] == ra[j - 1]);
                        assert(b[j] == rb[j - 1]);
                    }
                }
                assert(falls_below_at(a, b, i + 1));
            } else {
                let i = choose|i: int| falls_below_at(rb, ra, i);
                assert forall|j: int| 0 <= j < i + 1 implies b[j] == a[j] by {
                    if j > 0 {
                        assert(a[j] == ra[j - 1]);
                        assert(b[j] == rb[j - 1]);
                    }
                }
                assert(falls_below_at(b, a, i + 1));
            }
        }
    }
}

/// Collects the characters of a text.
pub fn chars_of(text: &str) -> (chars: Vec<char>)
    ensures
        chars@ == text@,
{
    let mut chars: Vec<char> = Vec::new();
    for c in it: text.chars()
        invariant
            chars@ == text@.take(it.index()),
            it.seq() == text@,
    {
        assert(text@.take(it.index() + 1) =~= text@.take(it.index()).push(c));
        chars.push(c);
    }
    assert(text@.take(text@.len() as int) =~= text@);
    chars
}

/// Whether `a` comes before `b`.
pub fn text_less(a: &str, b: &str) -> (less: bool)
    ensures
        less == text_lt(a@, b@),
{
    let x = chars_of(a);
    let y = chars_of(b);
    let mut i: usize = 0;
    while i < x.len() && i < y.len() && x[i] == y[i]
        invariant
            x@ == a@,
            y@ == b@,
            i <= x.len(),
            i <= y.len(),
            forall|j: int| 0 <= j < i ==> x@[j] == y@[j],
        decreases x.len() - i,
    {
        i = i + 1;
    }
    let less = i < y.len() && (i == x.len() || x[i] < y[i]);
    proof {
        if less {
            assert(falls_below_at(a@, b@, i as int));
        } else {
            assert forall|k: int| !falls_below_at(a@, b@, k) by {
                if falls_below_at(a@, b@, k) {
                    if k < i {
                        assert(x@[k] == y@[k]);
                    } else if i < y.len() && i < x.len() && k > i {
                        assert(a@[i as int] == b@[i as int]);
                    }
                }
            }
        }
    }
    less
}

/// Whether two texts hold the same characters.
pub fn text_eq(a: &str, b: &str) -> (same: bool)
    ensures
        same == (a@ == b@),
{
    let x = chars_of(a);
    let y = chars_of(b);
    if x.len() != y.len() {
        return false;
    }
    let mut i: usize = 0;
    while i < x.len()
        invariant
            x@ == a@,
            y@ == b@,
            x.len() == y.len(),
            i <= x.len(),
            forall|j: int| 0 <= j < i ==> x@[j] == y@[j],
        decreases x.len() - i,
    {
        if x[i] != y[i] {
            return false;
        }
        i = i + 1;
    }
    assert(a@ =~= b@);
    true
}

/// The text in an optional string.
pub open spec fn opt_text(text: Option<String>) -> Option<Seq<char>> {
    match text {
        Some(t) => Some(t@),
        None => None,
    }
}

/// The texts in a row of strings.
pub open spec fn texts(row: Seq<String>) -> Seq<Seq<char>> {
    row.map_values(|t: String| t@)
}

/// `needle` stands in `text` at position `at`.
pub open spec fn stands_at(text: Seq<char>, needle: Seq<char>, at: int) -> bool {
    0 <= at && at + needle.len() <= text.len() && text.subrange(at, at + needle.len()) == needle
}

/// `needle` stands somewhere in `text`.
pub open spec fn contains_text(text: Seq<char>, needle: Seq<char>) -> bool {
    exists|at: int| stands_at(text, needle, at)
}

/// A character with the upper-case letters of ASCII turned into lower-case ones.
pub open spec fn folded_char(c: char) -> char {
    if 'A' <= c && c <= 'Z' {
        ((c as u32) + 32) as char
    } else {
        c
    }
}

/// A text with the upper-case letters of ASCII turned into lower-case ones.
pub open spec fn folded(text: Seq<char>) -> Seq<char> {
    text.map_values(|c: char| folded_char(c))
}

/// A text that lacks a character of `needle` does not hold `needle`.
pub proof fn lemma_missing_char(text: Seq<char>, needle: Seq<char>, i: int)
    requires
        0 <= i < needle.len(),
        forall|j: int| 0 <= j < text.len() ==> text[j] != needle[i],
    ensures
        !contains_text(text, needle),
{
    if contains_text(text, needle) {
        let at = choose|at: int| stands_at(text, needle, at);
        assert(text.subrange(at, at + needle.len())[i] == text[at + i]);
    }
}

fn fold_char(c: char) -> (f: char)
    ensures
        f == folded_char(c),
{
    if 'A' <= c && c <= 'Z' {
        ((c as u8) + 32) as char
    } else {
        c
    }
}

/// The characters of a text with the upper-case letters of ASCII turned into lower-case ones.
pub fn folded_chars(text: &str) -> (chars: Vec<char>)
    ensures
        chars@ == folded(text@),
{
    let plain = chars_of(text);
    let mut chars: Vec<char> = Vec::new();
    let mut i: usize = 0;
    while i < plain.len()
        invariant
            plain@ == text@,
            i <= plain.len(),
            chars@ == folded(text@).take(i as int),
        decreases plain.len() - i,
    {
        chars.push(fold_char(plain[i]));
        i = i + 1;
        assert(chars@ =~= folded(text@).take(i as int));
    }
    assert(folded(text@).take(i as int) =~= folded(text@));
    chars
}

/// Whether `needle` stands somewhere in a row of characters.
pub fn chars_contain(text: &Vec<char>, needle: &str) -> (found: bool)
    ensures
        found == contains_text(text@, needle@),
{
    let wanted = chars_of(needle);
    if wanted.len() > text.len() {
        return false;
    }
    let last: usize = text.len() - wanted.len();
    let mut at: usize = 0;
    loop
        invariant
            wanted@ == needle@,
            wanted.len() <= text.len(),
            last == text.len() - wanted.len(),
            at <= last,
            forall|k: int| 0 <= k < at ==> !stands_at(text@, needle@, k),
        decreases last - at,
    {
        let mut i: usize = 0;
        while i < wanted.len() && text[at + i] == wanted[i]
            invariant
                wanted@ == needle@,
                at + wanted.len() <= text.len(),
                i <= wanted.len(),
                forall|j: int| 0 <= j < i ==> text@[at + j] == wanted@[j],
            decreases wanted.len() - i,
        {
            i = i + 1;
        }
        if i == wanted.len() {
            assert(text@.subrange(at as int, at + needle@.len()) =~= needle@);
            assert(stands_at(text@, needle@, at as int));
            return true;
        }
        proof {
            if stands_at(text@, needle@, at as int) {
                assert(text@.subrange(at as int, at + needle@.len())[i as int] == text@[at + i]);
            }
        }
        if at == last {
            return false;
        }
        at = at + 1;
    }
}

/// Whether `needle` stands somewhere in `text`.
pub fn text_contains(text: &str, needle: &str) -> (found: bool)
    ensures
        found == contains_text(text@, needle@),
{
    chars_contain(&chars_of(text), needle)
}

/// A decimal digit as a character.
pub open spec fn digit_char(d: nat) -> char {
    (('0' as u32) + d) as char
}

/// A number in decimal, without leading zeros.
pub open spec fn decimal(n: nat) -> Seq<char>
    decreases n,
{
    if n < 10 {
        seq![digit_char(n)]
    } else {
        decimal(n / 10).push(digit_char(n % 10))
    }
}

fn digit_text(d: u64) -> (text: &'static str)
    requires
        d < 10,
    ensures
        text@ == seq![digit_char(d as nat)],
{
    proof {
        reveal_strlit("0");
        reveal_strlit("1");
        reveal_strlit("2");
        reveal_strlit("3");
        reveal_strlit("4");
        reveal_strlit("5");
        reveal_strlit("6");
        reveal_strlit("7");
        reveal_strlit("8");
        reveal_strlit("9");
    }
    if d == 0 {
        "0"
    } else if d == 1 {
        "1"
    } else if d == 2 {
        "2"
    } else if d == 3 {
        "3"
    } else if d == 4 {
        "4"
    } else if d == 5 {
        "5"
    } else if d == 6 {
        "6"
    } else if d == 7 {
        "7"
    } else if d == 8 {
        "8"
    } else {
        "9"
    }
}

/// Writes a number in decimal.
pub fn decimal_text(n: u64) -> (text: String)
    ensures
        text@ == decimal(n as nat),
    decreases n,
{
    if n < 10 {
        digit_text(n).to_owned()
    } else {
        let text = decimal_text(n / 10).concat(digit_text(n % 10));
        assert(text@ =~= decimal(n as nat));
        text
    }
}

/// Writes `b` behind `a`.
pub fn join2(a: &str, b: &str) -> (text: String)
    ensures
        text@ == a@ + b@,
{
    let text = a.to_owned();
    text.concat(b)
}

/// Writes three texts one behind the other.
pub fn join3(a: &str, b: &str, c: &str) -> (text: String)
    ensures
        text@ == a@ + b@ + c@,
{
    a.to_owned().concat(b).concat(c)
}

/// Writes four texts one behind the other.
pub fn join4(a: &str, b: &str, c: &str, d: &str) -> (text: String)
    ensures
        text@ == a@ + b@ + c@ + d@,
{
    a.to_owned().concat(b).concat(c).concat(d)
}

/// `ending` stands at the end of `text`.
pub open spec fn ends_with(text: Seq<char>, ending: Seq<char>) -> bool {
    text.len() >= ending.len() && text.skip(text.len() - ending.len()) == ending
}

/// Whether `ending` stands at the end of `text`.
pub fn text_ends_with(text: &str, ending: &str) -> (found: bool)
    ensures
        found == ends_with(text@, ending@),
{
    let x = chars_of(text);
    let y = chars_of(ending);
    if x.len() < y.len() {
        return false;
    }
    let from: usize = x.len() - y.len();
    let mut i: usize = 0;
    while i < y.len()
        invariant
            x@ == text@,
            y@ == ending@,
            from == x.len() - y.len(),
            i <= y.len(),
            forall|j: int| 0 <= j < i ==> x@[from + j] == y@[j],
        decreases y.len() - i,
    {
        if x[from + i] != y[i] {
            assert(text@.skip(from as int)[i as int] == x@[from + i]);
            return false;
        }
        i = i + 1;
    }
    assert(text@.skip(from as int) =~= ending@);
    true
}

/// `text` spells `word`, with each letter of ASCII in either case.
pub open spec fn spells(text: Seq<char>, word: Seq<char>) -> bool {
    &&& text.len() == word.len()
    &&& forall|i: int|
        0 <= i < word.len() ==> (#[trigger] text[i]) == word[i] || ('a' <= word[i] && word[i] <= 'z'
            && text[i] as int == word[i] as int - 32)
}

/// No letter of a word is an upper-case one of ASCII.
pub open spec fn lower_case(word: Seq<char>) -> bool {
    forall|i: int| 0 <= i < word.len() ==> !('A' <= #[trigger] word[i] && word[i] <= 'Z')
}

/// What stands between two texts is found, wherever it stands.
pub proof fn law_part_is_found(before: Seq<char>, part: Seq<char>, after: Seq<char>)
    ensures
        contains_text(before + part + after, part),
{
    let whole = before + part + after;
    assert(whole.subrange(before.len() as int, (before.len() + part.len()) as int) =~= part);
    assert(stands_at(whole, part, before.len() as int));
}

/// What is found in a text stands between two others.
pub proof fn law_found_part_stands_there(text: Seq<char>, part: Seq<char>)
    requires
        contains_text(text, part),
    ensures
        exists|before: Seq<char>, after: Seq<char>| text == #[trigger] (before + part + after),
{
    let at = choose|at: int| stands_at(text, part, at);
    let before = text.take(at);
    let after = text.skip(at + part.len());
    assert(text =~= before + part + after);
}

/// Folding changes only the case of letters of ASCII: a text that spells a lower-case word folds to
/// it, and nothing else does.
pub proof fn law_folding_forgets_only_case(text: Seq<char>, word: Seq<char>)
    requires
        lower_case(word),
    ensures
        folded(text) == word <==> spells(text, word),
{
    if spells(text, word) {
        assert forall|i: int| 0 <= i < word.len() implies folded(text)[i] == word[i] by {
            assert(text[i] == word[i] || text[i] as int == word[i] as int - 32);
            lemma_folded_char(text[i], word[i]);
        }
        assert(folded(text) =~= word);
    }
    if folded(text) == word {
        assert(text.len() == folded(text).len());
        assert forall|i: int| 0 <= i < word.len() implies (#[trigger] text[i]) == word[i] || ('a'
            <= word[i] && word[i] <= 'z' && text[i] as int == word[i] as int - 32) by {
            assert(folded(text)[i] == folded_char(text[i]));
            lemma_folded_char(text[i], word[i]);
        }
    }
}

proof fn lemma_folded_char(c: char, lower: char)
    requires
        !('A' <= lower && lower <= 'Z'),
    ensures
        folded_char(c) == lower <==> c == lower || ('a' <= lower && lower <= 'z' && c as int
            == lower as int - 32),
{
    if 'A' <= c && c <= 'Z' {
        let n = (c as u32) + 32;
        assert(97 <= n <= 122);
        assert((n as char) as int == n);
    }
}

/// A text in which a word is spelled out, in whatever case, holds the word once it is folded.
pub proof fn law_spelled_word_is_found(
    before: Seq<char>,
    part: Seq<char>,
    after: Seq<char>,
    word: Seq<char>,
)
    requires
        lower_case(word),
        spells(part, word),
    ensures
        contains_text(folded(before + part + after), word),
{
    law_folding_forgets_only_case(part, word);
    assert(folded(before + part + after) =~= folded(before) + folded(part) + folded(after));
    law_part_is_found(folded(before), word, folded(after));
}

/// A word that a text holds once it is folded is spelled out in it.
pub proof fn law_found_word_is_spelled_out(text: Seq<char>, word: Seq<char>)
    requires
        lower_case(word),
        contains_text(folded(text), word),
    ensures
        exists|before: Seq<char>, part: Seq<char>, after: Seq<char>|
            spells(part, word) && text == #[trigger] (before + part + after),
{
    let at = choose|at: int| stands_at(folded(text), word, at);
    assert(folded(text).len() == text.len());
    let before = text.take(at);
    let part = text.subrange(at, at + word.len());
    let after = text.skip(at + word.len());
    assert(text =~= before + part + after);
    assert(folded(part) =~= folded(text).subrange(at, at + word.len()));
    law_folding_forgets_only_case(part, word);
}

/// A text ends with whatever was put behind another one, and with nothing else.
pub proof fn law_ending_stands_at_the_end(before: Seq<char>, ending: Seq<char>, text: Seq<char>)
    ensures
        ends_with(before + ending, ending),
        ends_with(text, ending) ==> text == text.take(text.len() - ending.len()) + ending,
{
    assert((before + ending).skip(before.len() as int) =~= ending);
    if ends_with(text, ending) {
        assert(text =~= text.take(text.len() - ending.len()) + ending);
    }
}

/// The value of a row of decimal digits.
pub open spec fn decimal_value(digits: Seq<char>) -> int
    decreases digits.len(),
{
    if digits.len() == 0 {
        0
    } else {
        decimal_value(digits.drop_last()) * 10 + (digits.last() as int - '0' as int)
    }
}

/// A number in decimal reads back as the number, is made of digits, and has no leading zero.
pub proof fn law_decimal_reads_back(n: nat)
    ensures
        decimal_value(decimal(n)) == n,
        decimal(n).len() > 0,
        n > 0 ==> decimal(n)[0] != '0',
        forall|i: int| 0 <= i < decimal(n).len() ==> '0' <= #[trigger] decimal(n)[i] <= '9',
    decreases n,
{
    let text = decimal(n);
    if n < 10 {
        lemma_digit(n);
        assert(text.drop_last() =~= Seq::<char>::empty());
        assert(decimal_value(Seq::<char>::empty()) == 0);
    } else {
        law_decimal_reads_back(n / 10);
        lemma_digit(n % 10);
        assert(text.drop_last() =~= decimal(n / 10));
    }
}

proof fn lemma_digit(d: nat)
    requires
        d < 10,
    ensures
        digit_char(d) as int == '0' as int + d,
        '0' <= digit_char(d) <= '9',
        d > 0 ==> digit_char(d) != '0',
{
    let n = ('0' as u32) + d;
    assert((n as char) as int == n);
}

/// One text comes before another exactly where it is a proper beginning of it or has the smaller
/// character where they first differ; of two texts that differ exactly one comes first.
pub proof fn law_texts_are_in_one_order(
    shared: Seq<char>,
    a: char,
    b: char,
    left: Seq<char>,
    right: Seq<char>,
)
    requires
        a < b,
    ensures
        text_lt(shared.push(a) + left, shared.push(b) + right),
        !text_lt(shared.push(b) + right, shared.push(a) + left),
        text_lt(shared, shared.push(a)),
        !text_lt(shared.push(a), shared),
{
    let x = shared.push(a) + left;
    let y = shared.push(b) + right;
    assert(falls_below_at(x, y, shared.len() as int));
    assert forall|k: int| !falls_below_at(y, x, k) by {
        if falls_below_at(y, x, k) {
            if k > shared.len() {
                assert(y[shared.len() as int] == x[shared.len() as int]);
            } else if k < shared.len() {
                assert(x[k] == shared[k] && y[k] == shared[k]);
            }
        }
    }
    let z = shared.push(a);
    assert(falls_below_at(shared, z, shared.len() as int));
    assert forall|k: int| !falls_below_at(z, shared, k) by {
        if falls_below_at(z, shared, k) {
            assert(z[k] == shared[k]);
        }
    }
}

/// A text that is there is seen as its characters, and one that is not as none; a row of texts is
/// seen text by text.
pub proof fn law_texts_are_seen_as_they_are(text: Option<String>, row: Seq<String>, i: int)
    requires
        0 <= i < row.len(),
    ensures
        text is Some <==> opt_text(text) is Some,
        text matches Some(t) ==> opt_text(text) == Some(t@),
        texts(row).len() == row.len(),
        texts(row)[i] == row[i]@,
{
}

} // verus!
