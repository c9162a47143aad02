//! Character-level text utilities: the library models a string as its
//! sequence of characters and does all matching and splitting over it.

use vstd::prelude::*;

verus! {

/// Relies on `String::push`: appends exactly the one character.
pub assume_specification[ String::push ](s: &mut String, c: char)
    ensures
        final(s)@ == old(s)@.push(c),
;

/// Whether `c` has the White_Space property, as `char::is_whitespace` tests it.
pub open spec fn is_space(c: char) -> bool {
    c == ' ' || c == '\t' || c == '\n' || c == '\u{b}' || c == '\u{c}' || c == '\r' || c
        == '\u{85}' || c == '\u{a0}' || c == '\u{1680}' || ('\u{2000}' <= c && c <= '\u{200a}') || c
        == '\u{2028}' || c == '\u{2029}' || c == '\u{202f}' || c == '\u{205f}' || c == '\u{3000}'
}

/// Decide the White_Space property of one character.
pub fn is_space_char(c: char) -> (r: bool)
    ensures
        r == is_space(c),
{
    c == ' ' || c == '\t' || c == '\n' || c == '\u{b}' || c == '\u{c}' || c == '\r' || c
        == '\u{85}' || c == '\u{a0}' || c == '\u{1680}' || ('\u{2000}' <= c && c <= '\u{200a}') || c
        == '\u{2028}' || c == '\u{2029}' || c == '\u{202f}' || c == '\u{205f}' || c == '\u{3000}'
}

/// ASCII lowercase of one character; everything outside `A..Z` is unchanged.
pub open spec fn lower_char(c: char) -> char {
    if 'A' <= c && c <= 'Z' {
        ((c as u8) + 32) as char
    } else {
        c
    }
}

/// ASCII lowercase of a character sequence.
pub open spec fn lower_seq(s: Seq<char>) -> Seq<char> {
    s.map_values(|c: char| lower_char(c))
}

/// Lowercase one character, ASCII-only as `char::to_ascii_lowercase` does.
pub fn to_lower_char(c: char) -> (r: char)
    ensures
        r == lower_char(c),
{
    if 'A' <= c && c <= 'Z' {
        ((c as u8) + 32) as char
    } else {
        c
    }
}

/// The characters of a string slice, in order.
pub fn chars_of(s: &str) -> (v: Vec<char>)
    ensures
        v@ == s@,
{
    let n: usize = s.unicode_len();
    let mut v: Vec<char> = Vec::new();
    let mut i: usize = 0;
    while i < n
        invariant
            n == s@.len(),
            i <= n,
            v@ == s@.subrange(0, i as int),
        decreases n - i,
    {
        v.push(s.get_char(i));
        i = i + 1;
    }
    proof {
        assert(v@ =~= s@);
    }
    v
}

/// A `String` holding exactly the given characters.
pub fn string_of(v: &Vec<char>) -> (s: String)
    ensures
        s@ == v@,
{
    let mut s = String::new();
    let mut i: usize = 0;
    while i < v.len()
        invariant
            i <= v.len(),
            s@ == v@.subrange(0, i as int),
        decreases v.len() - i,
    {
        s.push(v[i]);
        proof {
            assert(s@ =~= v@.subrange(0, i + 1 as int));
        }
        i = i + 1;
    }
    proof {
        assert(s@ =~= v@);
    }
    s
}

/// ASCII-lowercase every character.
pub fn to_lower(v: &Vec<char>) -> (r: Vec<char>)
    ensures
        r@ == lower_seq(v@),
{
    let mut r: Vec<char> = Vec::new();
    let mut i: usize = 0;
    while i < v.len()
        invariant
            i <= v.len(),
            r@ == lower_seq(v@.subrange(0, i as int)),
        decreases v.len() - i,
    {
        r.push(to_lower_char(v[i]));
        proof {
            assert(r@ =~= lower_seq(v@.subrange(0, i + 1 as int)));
        }
        i = i + 1;
    }
    proof {
        assert(v@.subrange(0, v@.len() as int) =~= v@);
    }
    r
}

/// The pattern occurs in `text` starting at position `i`.
pub open spec fn is_match_at(text: Seq<char>, pat: Seq<char>, i: int) -> bool {
    0 <= i && i + pat.len() <= text.len() && text.subrange(i, i + pat.len()) == pat
}

/// The pattern occurs somewhere in `text` as a contiguous run.
pub open spec fn contains_seq(text: Seq<char>, pat: Seq<char>) -> bool {
    exists|i: int| is_match_at(text, pat, i)
}

/// Check one candidate position for a full pattern match.
fn matches_at(text: &Vec<char>, pat: &Vec<char>, i: usize) -> (r: bool)
    requires
        i + pat@.len() <= text@.len(),
    ensures
        r == is_match_at(text@, pat@, i as int),
{
    let tlen: usize = text.len();
    let mut j: usize = 0;
    while j < pat.len()
        invariant
            j <= pat@.len(),
            i + pat@.len() <= text@.len(),
            text@.len() == tlen,
            forall|k: int| 0 <= k < j ==> text@[i + k] == pat@[k],
        decreases pat.len() - j,
    {
        if text[i + j] != pat[j] {
            proof {
                assert(text@.subrange(i as int, i + pat@.len()) != pat@) by {
                    assert(text@.subrange(i as int, i + pat@.len())[j as int] != pat@[j as int]);
                }
            }
            return false;
        }
        j = j + 1;
    }
    proof {
        assert(text@.subrange(i as int, i + pat@.len()) =~= pat@);
    }
    true
}

/// Substring search: true exactly when the pattern occurs in the text.
pub fn contains_chars(text: &Vec<char>, pat: &Vec<char>) -> (r: bool)
    ensures
        r == contains_seq(text@, pat@),
{
    if pat.len() > text.len() {
        proof {
            assert(forall|i: int| !is_match_at(text@, pat@, i));
        }
        return false;
    }
    let last: usize = text.len() - pat.len();
    let mut i: usize = 0;
    loop
        invariant
            last == text@.len() - pat@.len(),
            i <= last,
            forall|k: int| 0 <= k < i ==> !is_match_at(text@, pat@, k),
        ensures
            forall|k: int| !is_match_at(text@, pat@, k),
        decreases last - i,
    {
        if matches_at(text, pat, i) {
            return true;
        }
        if i == last {
            proof {
                assert(forall|k: int| #[trigger] is_match_at(text@, pat@, k) ==> 0 <= k <= last);
            }
            break;
        }
        i = i + 1;
    }
    false
}

/// Substring search against a literal pattern.
pub fn contains_str(text: &Vec<char>, pat: &str) -> (r: bool)
    ensures
        r == contains_seq(text@, pat@),
{
    let p = chars_of(pat);
    contains_chars(text, &p)
}

/// The sequence with leading whitespace removed.
pub open spec fn spec_trim_start(s: Seq<char>) -> Seq<char>
    decreases s.len(),
{
    if s.len() > 0 && is_space(s[0]) {
        spec_trim_start(s.drop_first())
    } else {
        s
    }
}

/// The sequence with trailing whitespace removed.
pub open spec fn spec_trim_end(s: Seq<char>) -> Seq<char>
    decreases s.len(),
{
    if s.len() > 0 && is_space(s.last()) {
        spec_trim_end(s.drop_last())
    } else {
        s
    }
}

/// The sequence with whitespace removed from both ends, as `str::trim`.
pub open spec fn spec_trim(s: Seq<char>) -> Seq<char> {
    spec_trim_end(spec_trim_start(s))
}

/// Remove leading whitespace.
pub fn trim_start_chars(v: &Vec<char>) -> (r: Vec<char>)
    ensures
        r@ == spec_trim_start(v@),
{
    let mut i: usize = 0;
    proof {
        assert(v@.subrange(0, v@.len() as int) =~= v@);
    }
    while i < v.len() && is_space_char(v[i])
        invariant
            i <= v@.len(),
            spec_trim_start(v@) == spec_trim_start(v@.subrange(i as int, v@.len() as int)),
        decreases v.len() - i,
    {
        proof {
            let rem = v@.subrange(i as int, v@.len() as int);
            assert(rem.drop_first() =~= v@.subrange(i + 1 as int, v@.len() as int));
        }
        i = i + 1;
    }
    let mut r: Vec<char> = Vec::new();
    let mut j: usize = i;
    proof {
        let rem = v@.subrange(i as int, v@.len() as int);
        assert(spec_trim_start(rem) == rem);
    }
    while j < v.len()
        invariant
            i <= j <= v@.len(),
            r@ == v@.subrange(i as int, j as int),
        decreases v.len() - j,
    {
        r.push(v[j]);
        proof {
            assert(r@ =~= v@.subrange(i as int, j + 1 as int));
        }
        j = j + 1;
    }
    r
}

/// Remove trailing whitespace.
pub fn trim_end_chars(v: &Vec<char>) -> (r: Vec<char>)
    ensures
        r@ == spec_trim_end(v@),
{
    let mut e: usize = v.len();
    proof {
        assert(v@.subrange(0, v@.len() as int) =~= v@);
    }
    while e > 0 && is_space_char(v[e - 1])
        invariant
            e <= v@.len(),
            spec_trim_end(v@) == spec_trim_end(v@.subrange(0, e as int)),
        decreases e,
    {
        proof {
            let rem = v@.subrange(0, e as int);
            assert(rem.drop_last() =~= v@.subrange(0, e - 1 as int));
        }
        e = e - 1;
    }
    let mut r: Vec<char> = Vec::new();
    let mut j: usize = 0;
    proof {
        let rem = v@.subrange(0, e as int);
        assert(spec_trim_end(rem) == rem);
    }
    while j < e
        invariant
            j <= e <= v@.len(),
            r@ == v@.subrange(0, j as int),
        decreases e - j,
    {
        r.push(v[j]);
        proof {
            assert(r@ =~= v@.subrange(0, j + 1 as int));
        }
        j = j + 1;
    }
    proof {
        assert(r@ =~= v@.subrange(0, e as int));
    }
    r
}

/// Remove whitespace from both ends.
pub fn trim_chars(v: &Vec<char>) -> (r: Vec<char>)
    ensures
        r@ == spec_trim(v@),
{
    let s = trim_start_chars(v);
    trim_end_chars(&s)
}

/// The first `n` characters, or all of them when fewer exist.
pub open spec fn spec_take(s: Seq<char>, n: nat) -> Seq<char> {
    if s.len() <= n {
        s
    } else {
        s.subrange(0, n as int)
    }
}

/// Keep at most the first `n` characters.
pub fn take_chars(v: &Vec<char>, n: usize) -> (r: Vec<char>)
    ensures
        r@ == spec_take(v@, n as nat),
{
    let end: usize = if v.len() <= n {
        v.len()
    } else {
        n
    };
    let mut r: Vec<char> = Vec::new();
    let mut i: usize = 0;
    while i < end
        invariant
            end <= v@.len(),
            i <= end,
            r@ == v@.subrange(0, i as int),
        decreases end - i,
    {
        r.push(v[i]);
        proof {
            assert(r@ =~= v@.subrange(0, i + 1 as int));
        }
        i = i + 1;
    }
    proof {
        if v@.len() <= n {
            assert(r@ =~= v@);
        }
    }
    r
}

/// Append all characters of `src` to `dst`.
pub fn push_all(dst: &mut Vec<char>, src: &Vec<char>)
    ensures
        final(dst)@ == old(dst)@ + src@,
{
    let mut i: usize = 0;
    while i < src.len()
        invariant
            i <= src@.len(),
            dst@ == old(dst)@ + src@.subrange(0, i as int),
        decreases src.len() - i,
    {
        dst.push(src[i]);
        proof {
            assert(dst@ =~= old(dst)@ + src@.subrange(0, i + 1 as int));
        }
        i = i + 1;
    }
    proof {
        assert(dst@ =~= old(dst)@ + src@);
    }
}

/// Append the characters of a literal to `dst`.
pub fn push_str_chars(dst: &mut Vec<char>, src: &str)
    ensures
        final(dst)@ == old(dst)@ + src@,
{
    let v = chars_of(src);
    push_all(dst, &v);
}

/// Compare two string slices by their characters.
pub fn str_eq(a: &str, b: &str) -> (r: bool)
    ensures
        r == (a@ == b@),
{
    let na: usize = a.unicode_len();
    let nb: usize = b.unicode_len();
    if na != nb {
        proof {
            assert(a@ != b@);
        }
        return false;
    }
    let mut i: usize = 0;
    while i < na
        invariant
            na == a@.len(),
            na == b@.len(),
            i <= na,
            forall|k: int| 0 <= k < i ==> a@[k] == b@[k],
        decreases na - i,
    {
        if a.get_char(i) != b.get_char(i) {
            proof {
                assert(a@[i as int] != b@[i as int]);
            }
            return false;
        }
        i = i + 1;
    }
    proof {
        assert(a@ =~= b@);
    }
    true
}

/// Prefix the first segment of a non-empty segment list with `p`.
pub open spec fn prepend_first(p: Seq<char>, ss: Seq<Seq<char>>) -> Seq<Seq<char>>
    recommends
        ss.len() > 0,
{
    seq![p + ss[0]] + ss.drop_first()
}

/// The segments of `s` split at every occurrence of `sep`, empty segments
/// kept, as `str::split` with a character separator yields them.
pub open spec fn spec_split(s: Seq<char>, sep: char) -> Seq<Seq<char>>
    decreases s.len(),
{
    if s.len() == 0 {
        seq![Seq::<char>::empty()]
    } else if s[0] == sep {
        seq![Seq::<char>::empty()] + spec_split(s.drop_first(), sep)
    } else {
        prepend_first(seq![s[0]], spec_split(s.drop_first(), sep))
    }
}

/// A split always yields at least one segment.
pub proof fn lemma_split_nonempty(s: Seq<char>, sep: char)
    ensures
        spec_split(s, sep).len() >= 1,
    decreases s.len(),
{
    if s.len() != 0 {
        lemma_split_nonempty(s.drop_first(), sep);
    }
}

/// Split at every occurrence of `sep`, keeping empty segments.
pub fn split_chars(v: &Vec<char>, sep: char) -> (r: Vec<Vec<char>>)
    ensures
        r.deep_view() == spec_split(v@, sep),
        r@.len() >= 1,
{
    let mut done: Vec<Vec<char>> = Vec::new();
    let mut cur: Vec<char> = Vec::new();
    let mut i: usize = 0;
    proof {
        assert(v@.subrange(0, v@.len() as int) =~= v@);
        lemma_split_nonempty(v@, sep);
    }
    while i < v.len()
        invariant
            i <= v@.len(),
            spec_split(v@.subrange(i as int, v@.len() as int), sep).len() >= 1,
            spec_split(v@, sep) =~~= done.deep_view() + prepend_first(
                cur@,
                spec_split(v@.subrange(i as int, v@.len() as int), sep),
            ),
        decreases v.len() - i,
    {
        let ghost rem = v@.subrange(i as int, v@.len() as int);
        let ghost rem2 = v@.subrange(i + 1 as int, v@.len() as int);
        proof {
            assert(rem.drop_first() =~= rem2);
            lemma_split_nonempty(rem2, sep);
        }
        let c = v[i];
        if c == sep {
            let ghost old_done = done.deep_view();
            let ghost old_cur = cur@;
            done.push(cur);
            cur = Vec::new();
            proof {
                assert(done.deep_view() =~~= old_done.push(old_cur));
                assert(prepend_first(old_cur, spec_split(rem, sep)) =~~= seq![old_cur]
                    + spec_split(rem2, sep));
                assert(prepend_first(Seq::<char>::empty(), spec_split(rem2, sep)) =~~= spec_split(
                    rem2,
                    sep,
                ));
            }
        } else {
            let ghost old_cur = cur@;
            cur.push(c);
            proof {
                assert(spec_split(rem, sep) == prepend_first(seq![c], spec_split(rem2, sep)));
                assert(prepend_first(old_cur, prepend_first(seq![c], spec_split(rem2, sep)))
                    =~~= prepend_first(old_cur.push(c), spec_split(rem2, sep)));
            }
        }
        i = i + 1;
    }
    proof {
        let rem = v@.subrange(v@.len() as int, v@.len() as int);
        assert(rem =~= Seq::<char>::empty());
        assert(prepend_first(cur@, spec_split(rem, sep)) =~~= seq![cur@]);
    }
    let ghost old_done = done.deep_view();
    let ghost last_cur = cur@;
    done.push(cur);
    proof {
        assert(done.deep_view() =~~= old_done.push(last_cur));
        assert(done.deep_view() =~~= spec_split(v@, sep));
    }
    done
}

/// One line of a line-split: the raw segment with one trailing carriage
/// return removed, as `str::lines` strips it.
pub open spec fn strip_cr(s: Seq<char>) -> Seq<char> {
    if s.len() > 0 && s.last() == '\r' {
        s.drop_last()
    } else {
        s
    }
}

/// The lines of `s`, as `str::lines` yields them: split at `'\n'`, a final
/// empty segment after a trailing newline dropped, and a trailing `'\r'`
/// stripped from each line.
pub open spec fn spec_lines(s: Seq<char>) -> Seq<Seq<char>> {
    let segs = spec_split(s, '\n');
    let kept = if segs.len() > 0 && segs.last().len() == 0 {
        segs.drop_last()
    } else {
        segs
    };
    kept.map_values(|line: Seq<char>| strip_cr(line))
}

/// Remove one trailing carriage return, if present.
pub fn strip_cr_chars(v: Vec<char>) -> (r: Vec<char>)
    ensures
        r@ == strip_cr(v@),
{
    let ghost orig = v@;
    let mut v = v;
    if v.len() > 0 && v[v.len() - 1] == '\r' {
        v.pop();
        proof {
            assert(v@ =~= strip_cr(orig));
        }
    }
    v
}

/// Split into lines, as `str::lines` does.
pub fn split_lines(v: &Vec<char>) -> (r: Vec<Vec<char>>)
    ensures
        r.deep_view() == spec_lines(v@),
{
    let segs = split_chars(v, '\n');
    let mut segs = segs;
    let ghost all = spec_split(v@, '\n');
    let keep_last: bool = segs[segs.len() - 1].len() != 0;
    proof {
        assert(segs.deep_view()[segs@.len() - 1] == segs@[segs@.len() - 1]@);
        assert(keep_last == (all.last().len() != 0));
    }
    if !keep_last {
        segs.pop();
        proof {
            assert(segs.deep_view() =~~= all.drop_last());
        }
    }
    let ghost kept = segs.deep_view();
    let mut r: Vec<Vec<char>> = Vec::new();
    let mut i: usize = 0;
    while i < segs.len()
        invariant
            i <= segs@.len(),
            kept == segs.deep_view(),
            r.deep_view() =~~= kept.subrange(0, i as int).map_values(
                |line: Seq<char>| strip_cr(line),
            ),
        decreases segs.len() - i,
    {
        let ghost before = r.deep_view();
        let line = strip_cr_chars(segs[i].clone());
        r.push(line);
        proof {
            assert(r.deep_view() =~~= before.push(strip_cr(kept[i as int])));
            assert(kept.subrange(0, i + 1 as int).map_values(|line: Seq<char>| strip_cr(line))
                =~~= kept.subrange(0, i as int).map_values(|line: Seq<char>| strip_cr(line)).push(
                strip_cr(kept[i as int]),
            ));
        }
        i = i + 1;
    }
    proof {
        assert(kept.subrange(0, kept.len() as int) =~= kept);
        if all.last().len() == 0 {
            assert(kept =~~= all.drop_last());
        } else {
            assert(kept =~~= all);
        }
        assert(r.deep_view() =~~= spec_lines(v@));
    }
    r
}

/// ASCII uppercase of one character; everything outside `a..z` is unchanged.
pub open spec fn upper_char(c: char) -> char {
    if 'a' <= c && c <= 'z' {
        ((c as u8) - 32) as char
    } else {
        c
    }
}

/// ASCII uppercase of a character sequence.
pub open spec fn upper_seq(s: Seq<char>) -> Seq<char> {
    s.map_values(|c: char| upper_char(c))
}

/// ASCII-uppercase every character.
pub fn to_upper(v: &Vec<char>) -> (r: Vec<char>)
    ensures
        r@ == upper_seq(v@),
{
    let mut r: Vec<char> = Vec::new();
    let mut i: usize = 0;
    while i < v.len()
        invariant
            i <= v.len(),
            r@ == upper_seq(v@.subrange(0, i as int)),
        decreases v.len() - i,
    {
        let c = v[i];
        let u: char = if 'a' <= c && c <= 'z' {
            ((c as u8) - 32) as char
        } else {
            c
        };
        r.push(u);
        proof {
            assert(r@ =~= upper_seq(v@.subrange(0, i + 1 as int)));
        }
        i = i + 1;
    }
    proof {
        assert(v@.subrange(0, v@.len() as int) =~= v@);
    }
    r
}

/// The position of the first occurrence of `c` in `s`.
pub open spec fn spec_find(s: Seq<char>, c: char) -> Option<int>
    decreases s.len(),
{
    if s.len() == 0 {
        None
    } else if s[0] == c {
        Some(0)
    } else {
        match spec_find(s.drop_first(), c) {
            Some(i) => Some(i + 1),
            None => None,
        }
    }
}

/// A first occurrence at `i` pins the find result.
proof fn lemma_find_first(s: Seq<char>, c: char, i: int)
    requires
        0 <= i < s.len(),
        s[i] == c,
        forall|k: int| 0 <= k < i ==> s[k] != c,
    ensures
        spec_find(s, c) == Some(i),
    decreases i,
{
    if i > 0 {
        lemma_find_first(s.drop_first(), c, i - 1);
    }
}

/// No occurrence means no find result.
proof fn lemma_find_none(s: Seq<char>, c: char)
    requires
        forall|k: int| 0 <= k < s.len() ==> s[k] != c,
    ensures
        spec_find(s, c) is None,
    decreases s.len(),
{
    if s.len() > 0 {
        lemma_find_none(s.drop_first(), c);
    }
}

/// Find the first occurrence of a character.
pub fn find_char(v: &Vec<char>, c: char) -> (r: Option<usize>)
    ensures
        (match r {
            Some(i) => spec_find(v@, c) == Some(i as int) && i < v@.len(),
            None => spec_find(v@, c) is None,
        }),
{
    let mut i: usize = 0;
    while i < v.len()
        invariant
            i <= v@.len(),
            forall|k: int| 0 <= k < i ==> v@[k] != c,
        decreases v@.len() - i,
    {
        if v[i] == c {
            proof {
                lemma_find_first(v@, c, i as int);
            }
            return Some(i);
        }
        i = i + 1;
    }
    proof {
        lemma_find_none(v@, c);
    }
    None
}

/// Copy a subrange of characters.
pub fn subrange_chars(v: &Vec<char>, from: usize, to: usize) -> (r: Vec<char>)
    requires
        from <= to <= v@.len(),
    ensures
        r@ == v@.subrange(from as int, to as int),
{
    let mut r: Vec<char> = Vec::new();
    let mut i: usize = from;
    while i < to
        invariant
            from <= i <= to <= v@.len(),
            r@ == v@.subrange(from as int, i as int),
        decreases to - i,
    {
        r.push(v[i]);
        proof {
            assert(r@ =~= v@.subrange(from as int, i + 1 as int));
        }
        i = i + 1;
    }
    r
}

/// The items joined by a separator.
pub open spec fn spec_join(items: Seq<Seq<char>>, sep: Seq<char>) -> Seq<char>
    decreases items.len(),
{
    if items.len() == 0 {
        Seq::<char>::empty()
    } else {
        items[0] + spec_join_rest(items.drop_first(), sep)
    }
}

/// The items after the first, each preceded by the separator.
pub open spec fn spec_join_rest(items: Seq<Seq<char>>, sep: Seq<char>) -> Seq<char>
    decreases items.len(),
{
    if items.len() == 0 {
        Seq::<char>::empty()
    } else {
        sep + items[0] + spec_join_rest(items.drop_first(), sep)
    }
}

/// Join a list of strings with a separator, as `[String]::join` does.
#[verifier::loop_isolation(false)]
pub fn join_strings(items: &Vec<String>, sep: &str) -> (r: String)
    ensures
        r@ == spec_join(items.deep_view(), sep@),
{
    let ghost iseq = items.deep_view();
    let mut out: Vec<char> = Vec::new();
    let mut i: usize = 0;
    proof {
        assert(iseq.subrange(0, iseq.len() as int) =~~= iseq);
    }
    while i < items.len()
        invariant
            i <= items@.len(),
            (if i == 0 {
                out@.len() == 0 && iseq.subrange(i as int, iseq.len() as int) =~~= iseq
            } else {
                out@ + spec_join_rest(iseq.subrange(i as int, iseq.len() as int), sep@)
                    == spec_join(iseq, sep@)
            }),
        decreases items@.len() - i,
    {
        let ghost rem = iseq.subrange(i as int, iseq.len() as int);
        proof {
            assert(rem.drop_first() =~~= iseq.subrange(i + 1 as int, iseq.len() as int));
            assert(rem[0] == items@[i as int]@);
        }
        let ghost before = out@;
        if i > 0 {
            push_str_chars(&mut out, sep);
        }
        let item = chars_of(items[i].as_str());
        push_all(&mut out, &item);
        proof {
            if i == 0 {
                assert(out@ =~= iseq[0]);
                assert(out@ + spec_join_rest(rem.drop_first(), sep@) =~= spec_join(iseq, sep@));
            } else {
                assert(out@ =~= before + sep@ + rem[0]);
                assert(out@ + spec_join_rest(rem.drop_first(), sep@) =~= before + spec_join_rest(
                    rem,
                    sep@,
                ));
            }
        }
        i = i + 1;
    }
    proof {
        if items@.len() == 0 {
            assert(out@ =~= spec_join(iseq, sep@));
        } else {
            assert(iseq.subrange(iseq.len() as int, iseq.len() as int) =~~= Seq::<
                Seq<char>,
            >::empty());
            assert(out@ =~= spec_join(iseq, sep@));
        }
    }
    string_of(&out)
}

/// A split never yields more segments than characters plus one.
pub proof fn lemma_split_len_le(s: Seq<char>, sep: char)
    ensures
        spec_split(s, sep).len() <= s.len() + 1,
    decreases s.len(),
{
    if s.len() > 0 {
        lemma_split_len_le(s.drop_first(), sep);
        lemma_split_nonempty(s.drop_first(), sep);
    }
}

/// Lines never outnumber the characters plus one.
pub proof fn lemma_lines_len_le(s: Seq<char>)
    ensures
        spec_lines(s).len() <= s.len() + 1,
{
    lemma_split_len_le(s, '\n');
}

/// Trimming the start never lengthens a text.
pub proof fn lemma_trim_start_le(s: Seq<char>)
    ensures
        spec_trim_start(s).len() <= s.len(),
    decreases s.len(),
{
    if s.len() > 0 && is_space(s[0]) {
        lemma_trim_start_le(s.drop_first());
    }
}

/// Trimming the end never lengthens a text.
pub proof fn lemma_trim_end_le(s: Seq<char>)
    ensures
        spec_trim_end(s).len() <= s.len(),
    decreases s.len(),
{
    if s.len() > 0 && is_space(s.last()) {
        lemma_trim_end_le(s.drop_last());
    }
}

/// Trimming never lengthens a text.
pub proof fn lemma_trim_le(s: Seq<char>)
    ensures
        spec_trim(s).len() <= s.len(),
{
    lemma_trim_start_le(s);
    lemma_trim_end_le(spec_trim_start(s));
}

} // verus!
