//! Strings as sequences of characters: trimming, splitting, replacing and
//! writing numbers.

use vstd::prelude::*;

verus! {

/// The Unicode property `White_Space`.
pub open spec fn white_space(c: char) -> bool {
    ||| '\u{9}' <= c <= '\u{d}'
    ||| c == '\u{20}'
    ||| c == '\u{85}'
    ||| c == '\u{a0}'
    ||| c == '\u{1680}'
    ||| '\u{2000}' <= c <= '\u{200a}'
    ||| c == '\u{2028}'
    ||| c == '\u{2029}'
    ||| c == '\u{202f}'
    ||| c == '\u{205f}'
    ||| c == '\u{3000}'
}

/// `char::is_whitespace` of std: it tells whether a character has the Unicode
/// property `White_Space`. The contract lists the characters that have it.
pub assume_specification[ char::is_whitespace ](c: char) -> (r: bool)
    ensures
        r == white_space(c),
;

/// `String::push` of std: it appends one character to the string.
pub assume_specification[ String::push ](s: &mut String, c: char)
    ensures
        final(s)@ == old(s)@.push(c),
;

/// `==` of std on two string slices: it tells whether they hold the same
/// characters.
#[verifier::external_body]
pub(crate) fn same_text(a: &str, b: &str) -> (r: bool)
    ensures
        r == (a@ == b@),
{
    a == b
}

/// What an optional string slice holds.
pub open spec fn opt_text(o: Option<&str>) -> Option<Seq<char>> {
    match o {
        Some(s) => Some(s@),
        None => None,
    }
}

/// What an optional string holds.
pub open spec fn opt_string(o: Option<String>) -> Option<Seq<char>> {
    match o {
        Some(s) => Some(s@),
        None => None,
    }
}

/// The characters of a string, one by one.
pub(crate) fn chars_of(s: &str) -> (r: Vec<char>)
    ensures
        r@ == s@,
{
    let mut out: Vec<char> = Vec::new();
    for c in it: s.chars()
        invariant
            it.seq() == s@,
            out@ == s@.take(it.index() as int),
    {
        assert(s@.take(it.index() as int + 1) == s@.take(it.index() as int).push(c));
        out.push(c);
    }
    assert(s@.take(s@.len() as int) == s@);
    out
}

/// The string made of the characters from `from` up to `to`.
pub(crate) fn string_of(chars: &Vec<char>, from: usize, to: usize) -> (r: String)
    requires
        from <= to <= chars@.len(),
    ensures
        r@ == chars@.subrange(from as int, to as int),
{
    let mut out = String::new();
    let mut i: usize = from;
    while i < to
        invariant
            from <= i <= to <= chars@.len(),
            out@ == chars@.subrange(from as int, i as int),
        decreases to - i,
    {
        assert(chars@.subrange(from as int, i + 1) == chars@.subrange(from as int, i as int).push(
            chars@[i as int],
        ));
        out.push(chars[i]);
        i = i + 1;
    }
    out
}

/// `s` without its leading white space.
pub open spec fn trimmed_start(s: Seq<char>) -> Seq<char>
    decreases s.len(),
{
    if s.len() > 0 && white_space(s.first()) {
        trimmed_start(s.drop_first())
    } else {
        s
    }
}

/// `s` without its trailing white space.
pub open spec fn trimmed_end(s: Seq<char>) -> Seq<char>
    decreases s.len(),
{
    if s.len() > 0 && white_space(s.last()) {
        trimmed_end(s.drop_last())
    } else {
        s
    }
}

/// `s` without leading and trailing white space.
pub open spec fn trimmed(s: Seq<char>) -> Seq<char> {
    trimmed_end(trimmed_start(s))
}

/// Trimming leaves nothing if and only if there is white space alone.
pub proof fn law_trimmed_to_nothing(s: Seq<char>)
    ensures
        trimmed(s).len() == 0 <==> (forall|i: int|
            0 <= i < s.len() ==> white_space(#[trigger] s[i])),
    decreases s.len(),
{
    if s.len() > 0 {
        if white_space(s.first()) {
            let rest = s.drop_first();
            law_trimmed_to_nothing(rest);
            assert(trimmed(s) == trimmed(rest));
            assert(forall|i: int| 0 <= i < rest.len() ==> #[trigger] rest[i] == s[i + 1]);
            assert forall|i: int| 0 <= i < s.len() && (forall|j: int|
                0 <= j < rest.len() ==> white_space(#[trigger] rest[j])) implies white_space(
                #[trigger] s[i],
            ) by {
                if i > 0 {
                    assert(white_space(rest[i - 1]));
                }
            }
        } else {
            lemma_trimmed_end_keeps(s, 0);
            assert(!white_space(s[0]));
        }
    }
}

/// What is no white space is not trimmed away, nor what is before it.
proof fn lemma_trimmed_end_keeps(s: Seq<char>, i: int)
    requires
        0 <= i < s.len(),
        !white_space(s[i]),
    ensures
        trimmed_end(s).len() > i,
    decreases s.len(),
{
    if white_space(s.last()) {
        lemma_trimmed_end_keeps(s.drop_last(), i);
    }
}

/// Trimming leaves no white space at either end, and takes nothing but white
/// space away.
pub proof fn law_trimmed(s: Seq<char>)
    ensures
        trimmed(s).len() > 0 ==> !white_space(trimmed(s).first()) && !white_space(
            trimmed(s).last(),
        ),
        exists|from: int, to: int|
            {
                &&& 0 <= from <= to <= s.len()
                &&& trimmed(s) == #[trigger] s.subrange(from, to)
                &&& forall|i: int| 0 <= i < from ==> white_space(#[trigger] s[i])
                &&& forall|i: int| to <= i < s.len() ==> white_space(#[trigger] s[i])
            },
    decreases s.len(),
{
    lemma_trimmed_end(trimmed_start(s));
    lemma_trimmed_start(s);
    let from = s.len() - trimmed_start(s).len();
    let to = from + trimmed(s).len();
    assert(trimmed(s) =~= s.subrange(from, to));
    assert forall|i: int| to <= i < s.len() implies white_space(#[trigger] s[i]) by {
        assert(trimmed_start(s)[i - from] == s[i]);
    }
}

proof fn lemma_trimmed_start(s: Seq<char>)
    ensures
        trimmed_start(s).len() <= s.len(),
        trimmed_start(s) == s.skip(s.len() - trimmed_start(s).len()),
        trimmed_start(s).len() > 0 ==> !white_space(trimmed_start(s).first()),
        forall|i: int|
            0 <= i < s.len() - trimmed_start(s).len() ==> white_space(#[trigger] s[i]),
    decreases s.len(),
{
    if s.len() > 0 && white_space(s.first()) {
        let rest = s.drop_first();
        lemma_trimmed_start(rest);
        let left = s.len() - trimmed_start(s).len();
        assert(s.skip(left) =~= rest.skip(left - 1));
        assert forall|i: int| 0 <= i < left implies white_space(#[trigger] s[i]) by {
            if i > 0 {
                assert(rest[i - 1] == s[i]);
            }
        }
    } else {
        assert(s.skip(0) =~= s);
    }
}

proof fn lemma_trimmed_end(s: Seq<char>)
    ensures
        trimmed_end(s).len() <= s.len(),
        trimmed_end(s) == s.take(trimmed_end(s).len() as int),
        trimmed_end(s).len() > 0 ==> !white_space(trimmed_end(s).last()),
        forall|i: int| trimmed_end(s).len() <= i < s.len() ==> white_space(#[trigger] s[i]),
    decreases s.len(),
{
    if s.len() > 0 && white_space(s.last()) {
        let rest = s.drop_last();
        lemma_trimmed_end(rest);
        let left = trimmed_end(s).len() as int;
        assert(s.take(left) =~= rest.take(left));
        assert forall|i: int| left <= i < s.len() implies white_space(#[trigger] s[i]) by {
            if i < rest.len() {
                assert(rest[i] == s[i]);
            }
        }
    } else {
        assert(s.take(s.len() as int) =~= s);
    }
}

/// The index after the last character of `chars[from..]` that is no white
/// space; `from` if there is none.
fn end_of_text(chars: &Vec<char>, from: usize) -> (r: usize)
    requires
        from <= chars@.len(),
    ensures
        from <= r <= chars@.len(),
        chars@.subrange(from as int, r as int) == trimmed_end(
            chars@.subrange(from as int, chars@.len() as int),
        ),
{
    let mut end: usize = chars.len();
    while end > from && chars[end - 1].is_whitespace()
        invariant
            from <= end <= chars@.len(),
            trimmed_end(chars@.subrange(from as int, chars@.len() as int)) == trimmed_end(
                chars@.subrange(from as int, end as int),
            ),
        ensures
            end == from || !white_space(chars@[end - 1]),
        decreases end,
    {
        assert(chars@.subrange(from as int, end as int).drop_last() == chars@.subrange(
            from as int,
            end - 1,
        ));
        end = end - 1;
    }
    end
}

/// `s` without leading and trailing white space.
pub fn trim(s: &str) -> (r: String)
    ensures
        r@ == trimmed(s@),
{
    let chars = chars_of(s);
    let mut start: usize = 0;
    assert(chars@.subrange(0, chars@.len() as int) == s@);
    while start < chars.len() && chars[start].is_whitespace()
        invariant
            start <= chars@.len(),
            trimmed_start(s@) == trimmed_start(
                chars@.subrange(start as int, chars@.len() as int),
            ),
        ensures
            start == chars@.len() || !white_space(chars@[start as int]),
        decreases chars@.len() - start,
    {
        assert(chars@.subrange(start as int, chars@.len() as int).drop_first() == chars@.subrange(
            start + 1,
            chars@.len() as int,
        ));
        start = start + 1;
    }
    let end = end_of_text(&chars, start);
    string_of(&chars, start, end)
}

/// `s` without trailing white space.
pub fn trim_end(s: &str) -> (r: String)
    ensures
        r@ == trimmed_end(s@),
{
    let chars = chars_of(s);
    assert(chars@.subrange(0, chars@.len() as int) == s@);
    let end = end_of_text(&chars, 0);
    string_of(&chars, 0, end)
}

/// The decimal digit of `d`.
pub open spec fn digit(d: nat) -> char {
    (48 + d) as char
}

/// `n` in decimal notation.
pub open spec fn decimal(n: nat) -> Seq<char>
    decreases n,
{
    if n < 10 {
        seq![digit(n)]
    } else {
        decimal(n / 10).push(digit(n % 10))
    }
}

/// Writes `n` in decimal notation.
pub fn write_decimal(n: u64) -> (r: String)
    ensures
        r@ == decimal(n as nat),
    decreases n,
{
    let mut out = if n < 10 {
        String::new()
    } else {
        write_decimal(n / 10)
    };
    let d: u8 = (n % 10) as u8;
    out.push((48 + d) as char);
    out
}

/// The first `limit` characters of `text`, or all of it where it is shorter.
pub open spec fn first_chars(text: Seq<char>, limit: nat) -> Seq<char> {
    if text.len() <= limit {
        text
    } else {
        text.take(limit as int)
    }
}

/// The first `limit` characters of `text`.
pub fn preview(text: &str, limit: usize) -> (r: String)
    ensures
        r@ == first_chars(text@, limit as nat),
{
    let chars = chars_of(text);
    if chars.len() <= limit {
        string_of(&chars, 0, chars.len())
    } else {
        string_of(&chars, 0, limit)
    }
}

/// `text` with each line feed made a space.
pub open spec fn on_one_line(text: Seq<char>) -> Seq<char> {
    text.map_values(
        |c: char|
            if c == '\n' {
                ' '
            } else {
                c
            },
    )
}

/// Makes each line feed of `text` a space.
pub fn one_line(text: &str) -> (r: String)
    ensures
        r@ == on_one_line(text@),
{
    let chars = chars_of(text);
    let mut out = String::new();
    let mut i: usize = 0;
    while i < chars.len()
        invariant
            i <= chars@.len(),
            out@ == on_one_line(chars@.take(i as int)),
        decreases chars@.len() - i,
    {
        assert(on_one_line(chars@.take(i + 1)) == on_one_line(chars@.take(i as int)).push(
            on_one_line(chars@)[i as int],
        ));
        if chars[i] == '\n' {
            out.push(' ');
        } else {
            out.push(chars[i]);
        }
        i = i + 1;
    }
    assert(chars@.take(chars@.len() as int) == chars@);
    out
}

/// The first characters of a text, put on one line, are no more than asked for
/// and hold no line feed.
pub proof fn law_preview_on_one_line(text: Seq<char>, limit: nat)
    ensures
        on_one_line(first_chars(text, limit)).len() <= limit,
        !on_one_line(first_chars(text, limit)).contains('\n'),
{
}

/// Whether `pattern` stands in `s` at index `i`.
pub open spec fn occurs_at(s: Seq<char>, pattern: Seq<char>, i: int) -> bool {
    &&& 0 <= i
    &&& i + pattern.len() <= s.len()
    &&& s.subrange(i, i + pattern.len()) == pattern
}

/// Whether `pattern` stands anywhere in `s`.
pub open spec fn occurs(s: Seq<char>, pattern: Seq<char>) -> bool {
    exists|i: int| occurs_at(s, pattern, i)
}

/// `s` with each occurrence of `pattern`, taken from the left and without
/// overlap, replaced by `with`.
pub open spec fn replaced(s: Seq<char>, pattern: Seq<char>, with: Seq<char>) -> Seq<char>
    decreases s.len(),
{
    if s.len() == 0 || pattern.len() == 0 {
        s
    } else if occurs_at(s, pattern, 0) {
        with + replaced(s.skip(pattern.len() as int), pattern, with)
    } else {
        seq![s.first()] + replaced(s.drop_first(), pattern, with)
    }
}

/// Tells whether `pattern` stands in `s` at index `i`.
fn stands_at(s: &Vec<char>, pattern: &Vec<char>, i: usize) -> (r: bool)
    requires
        i <= s@.len(),
    ensures
        r == occurs_at(s@, pattern@, i as int),
{
    if s.len() - i < pattern.len() {
        return false;
    }
    let mut k: usize = 0;
    while k < pattern.len()
        invariant
            i <= s@.len(),
            k <= pattern@.len(),
            i + pattern.len() <= s.len(),
            s@.subrange(i as int, i + k) == pattern@.take(k as int),
        decreases pattern@.len() - k,
    {
        if s[i + k] != pattern[k] {
            assert(s@.subrange(i as int, i + pattern@.len())[k as int] == s@[i + k]);
            return false;
        }
        assert(s@.subrange(i as int, i + k + 1) == s@.subrange(i as int, i + k).push(s@[i + k]));
        assert(pattern@.take(k + 1) == pattern@.take(k as int).push(pattern@[k as int]));
        k = k + 1;
    }
    assert(pattern@.take(pattern@.len() as int) == pattern@);
    true
}

/// Replaces each occurrence of `pattern` in `s`, taken from the left and
/// without overlap, by `with`.
pub(crate) fn replace(s: &str, pattern: &str, with: &str) -> (r: String)
    requires
        pattern@.len() > 0,
    ensures
        r@ == replaced(s@, pattern@, with@),
{
    let chars = chars_of(s);
    let pat = chars_of(pattern);
    let mut out = String::new();
    let mut i: usize = 0;
    assert(chars@.skip(0) == chars@);
    while i < chars.len()
        invariant
            i <= chars@.len(),
            pat@ == pattern@,
            pattern@.len() > 0,
            replaced(s@, pattern@, with@) == out@ + replaced(
                chars@.skip(i as int),
                pattern@,
                with@,
            ),
        decreases chars@.len() - i,
    {
        let ghost rest = chars@.skip(i as int);
        if stands_at(&chars, &pat, i) {
            assert(rest.subrange(0, pat@.len() as int) == chars@.subrange(i as int, i + pat@.len()));
            assert(occurs_at(rest, pattern@, 0));
            assert(rest.skip(pattern@.len() as int) == chars@.skip(i + pat@.len()));
            out.append(with);
            i = i + pat.len();
        } else {
            assert(!occurs_at(rest, pattern@, 0)) by {
                if occurs_at(rest, pattern@, 0) {
                    assert(chars@.subrange(i as int, i + pat@.len()) == rest.subrange(
                        0,
                        pat@.len() as int,
                    ));
                }
            }
            assert(rest.drop_first() == chars@.skip(i + 1));
            assert(out@.push(chars@[i as int]) == out@ + seq![rest.first()]);
            out.push(chars[i]);
            i = i + 1;
        }
    }
    out
}

/// Where the pattern does not occur, nothing is replaced.
pub proof fn law_replace_nothing(s: Seq<char>, pattern: Seq<char>, with: Seq<char>)
    requires
        !occurs(s, pattern),
    ensures
        replaced(s, pattern, with) == s,
    decreases s.len(),
{
    if s.len() > 0 && pattern.len() > 0 {
        assert(!occurs_at(s, pattern, 0));
        let rest = s.drop_first();
        assert(!occurs(rest, pattern)) by {
            if occurs(rest, pattern) {
                let i = choose|i: int| occurs_at(rest, pattern, i);
                assert(s.subrange(i + 1, i + 1 + pattern.len()) == rest.subrange(
                    i,
                    i + pattern.len(),
                ));
                assert(occurs_at(s, pattern, i + 1));
            }
        }
        law_replace_nothing(rest, pattern, with);
        assert(seq![s.first()] + rest =~= s);
    }
}

/// A pattern whose first character comes only at its start is replaced where
/// it stands, if it stands neither in what is before nor in what is after.
pub proof fn law_replace_once(
    before: Seq<char>,
    pattern: Seq<char>,
    after: Seq<char>,
    with: Seq<char>,
)
    requires
        pattern.len() > 0,
        forall|k: int| 0 < k < pattern.len() ==> #[trigger] pattern[k] != pattern[0],
        !occurs(before, pattern),
        !occurs(after, pattern),
    ensures
        replaced(before + pattern + after, pattern, with) == before + with + after,
    decreases before.len(),
{
    let s = before + pattern + after;
    if before.len() == 0 {
        assert(s.subrange(0, pattern.len() as int) =~= pattern);
        assert(occurs_at(s, pattern, 0));
        assert(s.skip(pattern.len() as int) =~= after);
        law_replace_nothing(after, pattern, with);
        assert(with + after =~= before + with + after);
    } else {
        let short = before.drop_first();
        assert(!occurs_at(s, pattern, 0)) by {
            if occurs_at(s, pattern, 0) {
                let found = s.subrange(0, pattern.len() as int);
                if pattern.len() <= before.len() {
                    assert(before.subrange(0, pattern.len() as int) =~= found);
                    assert(occurs_at(before, pattern, 0));
                } else {
                    let k = before.len() as int;
                    assert(found[k] == s[k]);
                    assert(s[k] == pattern[0]);
                    assert(found[k] == pattern[k]);
                }
            }
        }
        assert(!occurs(short, pattern)) by {
            if occurs(short, pattern) {
                let i = choose|i: int| occurs_at(short, pattern, i);
                assert(before.subrange(i + 1, i + 1 + pattern.len()) == short.subrange(
                    i,
                    i + pattern.len(),
                ));
                assert(occurs_at(before, pattern, i + 1));
            }
        }
        law_replace_once(short, pattern, after, with);
        assert(s.drop_first() =~= short + pattern + after);
        assert(seq![s.first()] + (short + with + after) =~= before + with + after);
    }
}

/// The pieces of `s` between the separators `sep`: one piece more than there
/// are separators, so that the empty string has one empty piece.
pub open spec fn pieces(s: Seq<char>, sep: char) -> Seq<Seq<char>>
    decreases s.len(),
{
    if s.len() == 0 {
        seq![Seq::empty()]
    } else {
        let before = pieces(s.drop_last(), sep);
        if s.last() == sep {
            before.push(Seq::empty())
        } else {
            before.drop_last().push(before.last().push(s.last()))
        }
    }
}

/// `parts` one after the other, with `sep` between each two.
pub open spec fn joined(parts: Seq<Seq<char>>, sep: char) -> Seq<char>
    decreases parts.len(),
{
    if parts.len() == 0 {
        Seq::empty()
    } else if parts.len() == 1 {
        parts[0]
    } else {
        joined(parts.drop_last(), sep).push(sep) + parts.last()
    }
}

/// A string without the separator is one piece, and behind a separator it is
/// one piece more.
proof fn lemma_piece_added(a: Seq<char>, b: Seq<char>, sep: char)
    requires
        !b.contains(sep),
    ensures
        pieces(b, sep) == seq![b],
        pieces(a.push(sep) + b, sep) == pieces(a, sep).push(b),
    decreases b.len(),
{
    if b.len() == 0 {
        assert(b == Seq::<char>::empty());
        assert((a.push(sep) + b).drop_last() == a);
    } else {
        let short = b.drop_last();
        assert(!short.contains(sep)) by {
            if short.contains(sep) {
                let i = choose|i: int| 0 <= i < short.len() && short[i] == sep;
                assert(b[i] == sep);
            }
        }
        lemma_piece_added(a, short, sep);
        assert(b.last() != sep) by {
            assert(b.contains(b.last()));
        }
        assert(short.push(b.last()) == b);
        assert((a.push(sep) + b).drop_last() == a.push(sep) + short);
        assert(pieces(b, sep) =~= seq![b]);
        assert(pieces(a.push(sep) + b, sep) =~= pieces(a, sep).push(b));
    }
}

/// Splitting undoes joining: parts that do not hold the separator, and of
/// which there is at least one, are the pieces of the joined string.
pub proof fn law_split_undoes_join(parts: Seq<Seq<char>>, sep: char)
    requires
        parts.len() > 0,
        forall|i: int| 0 <= i < parts.len() ==> !(#[trigger] parts[i]).contains(sep),
    ensures
        pieces(joined(parts, sep), sep) == parts,
    decreases parts.len(),
{
    if parts.len() == 1 {
        lemma_piece_added(Seq::empty(), parts[0], sep);
        assert(seq![parts[0]] == parts);
    } else {
        law_split_undoes_join(parts.drop_last(), sep);
        lemma_piece_added(joined(parts.drop_last(), sep), parts.last(), sep);
        assert(parts.drop_last().push(parts.last()) == parts);
    }
}

/// Joining undoes splitting: the pieces of a string, of which there is at
/// least one, do not hold the separator, and joined they are that string.
pub proof fn law_join_undoes_split(s: Seq<char>, sep: char)
    ensures
        pieces(s, sep).len() > 0,
        forall|i: int|
            0 <= i < pieces(s, sep).len() ==> !(#[trigger] pieces(s, sep)[i]).contains(sep),
        joined(pieces(s, sep), sep) == s,
    decreases s.len(),
{
    let all = pieces(s, sep);
    if s.len() == 0 {
        assert(all[0] == s);
    } else {
        let before = pieces(s.drop_last(), sep);
        law_join_undoes_split(s.drop_last(), sep);
        assert(s.drop_last().push(s.last()) == s);
        if s.last() == sep {
            assert(all.drop_last() == before);
            assert(joined(before, sep).push(sep) + Seq::<char>::empty() =~= s);
        } else {
            let last = before.last().push(s.last());
            assert(!last.contains(sep)) by {
                if last.contains(sep) {
                    let i = choose|i: int| 0 <= i < last.len() && last[i] == sep;
                    assert(before.last()[i] == sep);
                    assert(before.last().contains(sep));
                }
            }
            assert(all.drop_last() == before.drop_last());
            if before.len() == 1 {
                assert(all[0] == last);
            } else {
                assert(joined(before.drop_last(), sep).push(sep) + last =~= joined(before, sep).push(
                    s.last(),
                ));
            }
        }
    }
}

/// What a list of strings holds.
pub open spec fn texts(list: Seq<String>) -> Seq<Seq<char>> {
    list.map_values(|s: String| s@)
}

/// Splits `s` at each `sep`.
pub fn split(s: &str, sep: char) -> (r: Vec<String>)
    ensures
        texts(r@) == pieces(s@, sep),
{
    let chars = chars_of(s);
    let mut out: Vec<String> = Vec::new();
    let mut piece = String::new();
    let mut i: usize = 0;
    assert(texts(out@).push(piece@) =~= pieces(chars@.take(0), sep));
    while i < chars.len()
        invariant
            i <= chars@.len(),
            texts(out@).push(piece@) == pieces(chars@.take(i as int), sep),
        decreases chars@.len() - i,
    {
        let ghost before = pieces(chars@.take(i as int), sep);
        assert(before.drop_last() =~= texts(out@));
        assert(chars@.take(i + 1).drop_last() == chars@.take(i as int));
        if chars[i] == sep {
            let ghost done = texts(out@);
            let ghost last = piece@;
            out.push(piece);
            assert(texts(out@) =~= done.push(last));
            piece = String::new();
        } else {
            piece.push(chars[i]);
        }
        i = i + 1;
    }
    assert(chars@.take(chars@.len() as int) == chars@);
    let ghost done = texts(out@);
    let ghost last = piece@;
    out.push(piece);
    assert(texts(out@) =~= done.push(last));
    out
}

/// The index of the first `c` in `s`; the length of `s` if there is none.
pub open spec fn first_index(s: Seq<char>, c: char) -> nat
    decreases s.len(),
{
    if s.len() == 0 || s.first() == c {
        0
    } else {
        1 + first_index(s.drop_first(), c)
    }
}

/// The index of the first `c` in `chars`; their number if there is none.
pub(crate) fn find(chars: &Vec<char>, c: char) -> (r: usize)
    ensures
        r == first_index(chars@, c),
        r <= chars@.len(),
{
    let mut i: usize = 0;
    assert(chars@.skip(0) == chars@);
    while i < chars.len() && chars[i] != c
        invariant
            i <= chars@.len(),
            first_index(chars@, c) == i + first_index(chars@.skip(i as int), c),
        ensures
            i == chars@.len() || chars@[i as int] == c,
        decreases chars@.len() - i,
    {
        assert(chars@.skip(i as int).drop_first() == chars@.skip(i + 1));
        i = i + 1;
    }
    i
}

/// An optional string holds a text if and only if it is there, and then its
/// own.
pub proof fn law_optional_text(slice: Option<&str>, string: Option<String>)
    ensures
        opt_text(slice) is Some <==> slice is Some,
        slice is Some ==> opt_text(slice)->0 == slice->0@,
        opt_string(string) is Some <==> string is Some,
        string is Some ==> opt_string(string)->0 == string->0@,
{
}

/// A list of strings holds a text for each, in the same order.
pub proof fn law_texts(list: Seq<String>)
    ensures
        texts(list).len() == list.len(),
        forall|i: int| 0 <= i < list.len() ==> #[trigger] texts(list)[i] == list[i]@,
{
}

/// Trimming the end keeps a beginning, takes nothing but white space away, and
/// leaves none at the end.
pub proof fn law_trimmed_end(s: Seq<char>)
    ensures
        trimmed_end(s).is_prefix_of(s),
        trimmed_end(s).len() > 0 ==> !white_space(trimmed_end(s).last()),
        forall|i: int| trimmed_end(s).len() <= i < s.len() ==> white_space(#[trigger] s[i]),
{
    lemma_trimmed_end(s);
}

/// The number that decimal digits stand for.
pub open spec fn number_of(digits: Seq<char>) -> int
    decreases digits.len(),
{
    if digits.len() == 0 {
        0
    } else {
        10 * number_of(digits.drop_last()) + (digits.last() as int - '0' as int)
    }
}

/// Decimal notation is made of digits, has no needless zero in front, and
/// stands for the number that it was made of.
pub proof fn law_decimal_reads_back(n: nat)
    ensures
        number_of(decimal(n)) == n,
        decimal(n).len() > 0,
        forall|i: int| 0 <= i < decimal(n).len() ==> '0' <= #[trigger] decimal(n)[i] <= '9',
        decimal(n).first() == '0' ==> n == 0 && decimal(n).len() == 1,
    decreases n,
{
    if n < 10 {
        assert(decimal(n).drop_last() =~= Seq::empty());
        assert(number_of(Seq::empty()) == 0);
    } else {
        law_decimal_reads_back(n / 10);
        assert(decimal(n).drop_last() =~= decimal(n / 10));
        assert(decimal(n).first() == decimal(n / 10).first());
    }
}

/// Different numbers are written differently.
pub proof fn law_decimals_differ(a: nat, b: nat)
    requires
        a != b,
    ensures
        decimal(a) != decimal(b),
{
    law_decimal_reads_back(a);
    law_decimal_reads_back(b);
}

/// The first characters of a text are its beginning: as many as asked for, or
/// all where it has no more.
pub proof fn law_first_chars(text: Seq<char>, limit: nat)
    ensures
        first_chars(text, limit).is_prefix_of(text),
        text.len() <= limit ==> first_chars(text, limit) == text,
        text.len() > limit ==> first_chars(text, limit).len() == limit,
{
}

/// Put on one line, a text keeps each character but its line feeds, in whose
/// places there are spaces.
pub proof fn law_on_one_line(text: Seq<char>)
    ensures
        on_one_line(text).len() == text.len(),
        forall|i: int|
            0 <= i < text.len() ==> {
                &&& text[i] != '\n' ==> #[trigger] on_one_line(text)[i] == text[i]
                &&& text[i] == '\n' ==> on_one_line(text)[i] == ' '
            },
{
}

/// At its first occurrence a pattern gives way to what replaces it; what is
/// before stays, and the rest is treated likewise.
pub proof fn law_replace_first(
    before: Seq<char>,
    pattern: Seq<char>,
    after: Seq<char>,
    with: Seq<char>,
)
    requires
        pattern.len() > 0,
        forall|j: int|
            0 <= j < before.len() ==> !#[trigger] occurs_at(before + pattern + after, pattern, j),
    ensures
        replaced(before + pattern + after, pattern, with) == before + with + replaced(
            after,
            pattern,
            with,
        ),
    decreases before.len(),
{
    let s = before + pattern + after;
    if before.len() == 0 {
        assert(s.subrange(0, pattern.len() as int) =~= pattern);
        assert(occurs_at(s, pattern, 0));
        assert(s.skip(pattern.len() as int) =~= after);
        assert(with + replaced(after, pattern, with) =~= before + with + replaced(
            after,
            pattern,
            with,
        ));
    } else {
        let short = before.drop_first();
        let rest = short + pattern + after;
        assert(s.drop_first() =~= rest);
        assert(!occurs_at(s, pattern, 0));
        assert forall|j: int| 0 <= j < short.len() implies !#[trigger] occurs_at(
            rest,
            pattern,
            j,
        ) by {
            assert(!occurs_at(s, pattern, j + 1));
            if occurs_at(rest, pattern, j) {
                assert(s.subrange(j + 1, j + 1 + pattern.len()) =~= rest.subrange(
                    j,
                    j + pattern.len(),
                ));
            }
        }
        law_replace_first(short, pattern, after, with);
        assert(seq![s.first()] + (short + with + replaced(after, pattern, with)) =~= before + with
            + replaced(after, pattern, with));
    }
}

/// What is before a separator comes apart as it would alone, and what is after
/// it, where that has no separator, is one piece more; without a separator
/// there is one piece.
pub proof fn law_piece_added(a: Seq<char>, b: Seq<char>, sep: char)
    requires
        !b.contains(sep),
    ensures
        pieces(b, sep) == seq![b],
        pieces(a.push(sep) + b, sep) == pieces(a, sep).push(b),
{
    lemma_piece_added(a, b, sep);
}

/// What stands between the same beginning and the same end tells two texts
/// apart.
pub(crate) proof fn lemma_middle(before: Seq<char>, a: Seq<char>, b: Seq<char>, after: Seq<char>)
    requires
        a != b,
    ensures
        before + a + after != before + b + after,
{
    let x = before + a + after;
    let y = before + b + after;
    assert(x.len() == before.len() + a.len() + after.len());
    assert(y.len() == before.len() + b.len() + after.len());
    if x == y {
        assert(x.skip(before.len() as int).take(a.len() as int) =~= a);
        assert(y.skip(before.len() as int).take(b.len() as int) =~= b);
    }
}


/// A pattern occurs in a string where each of its characters is found in the
/// string, in their order and one right behind the other.
pub proof fn law_occurs(s: Seq<char>, pattern: Seq<char>, i: int)
    ensures
        occurs_at(s, pattern, i) <==> {
            &&& 0 <= i
            &&& i + pattern.len() <= s.len()
            &&& forall|k: int| 0 <= k < pattern.len() ==> s[i + k] == #[trigger] pattern[k]
        },
        occurs_at(s, pattern, i) ==> occurs(s, pattern),
        occurs(s, pattern) ==> exists|j: int| #[trigger] occurs_at(s, pattern, j),
{
    if occurs_at(s, pattern, i) {
        assert forall|k: int| 0 <= k < pattern.len() implies s[i + k] == #[trigger] pattern[k] by {
            assert(s.subrange(i, i + pattern.len())[k] == s[i + k]);
        }
    }
    if 0 <= i && i + pattern.len() <= s.len() && (forall|k: int|
        0 <= k < pattern.len() ==> s[i + k] == #[trigger] pattern[k]) {
        assert(s.subrange(i, i + pattern.len()) =~= pattern);
    }
}

} // verus!
