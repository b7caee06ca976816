//! Character-sequence utilities shared by the two parsers: trimming,
//! splitting, searching, and conversion between `&str`/`String` and
//! `Vec<char>`.
use vstd::prelude::*;

verus! {

/// The whitespace characters the assembler grammar ignores.
pub open spec fn is_space_char(c: char) -> bool {
    c == ' ' || c == '\t' || c == '\r' || c == '\n'
}

pub fn is_space(c: char) -> (r: bool)
    ensures
        r == is_space_char(c),
{
    c == ' ' || c == '\t' || c == '\r' || c == '\n'
}

/// The source text with leading whitespace removed.
pub open spec fn trim_start_spec(s: Seq<char>) -> Seq<char>
    decreases s.len(),
{
    if s.len() > 0 && is_space_char(s[0]) {
        trim_start_spec(s.drop_first())
    } else {
        s
    }
}

/// The source text with trailing whitespace removed.
pub open spec fn trim_end_spec(s: Seq<char>) -> Seq<char>
    decreases s.len(),
{
    if s.len() > 0 && is_space_char(s.last()) {
        trim_end_spec(s.drop_last())
    } else {
        s
    }
}

/// The source text with whitespace removed from both ends.
pub open spec fn trim_spec(s: Seq<char>) -> Seq<char> {
    trim_end_spec(trim_start_spec(s))
}

proof fn lemma_trim_start_skip(s: Seq<char>, i: int)
    requires
        0 <= i <= s.len(),
        forall|j: int| 0 <= j < i ==> is_space_char(s[j]),
    ensures
        trim_start_spec(s) == trim_start_spec(s.subrange(i, s.len() as int)),
    decreases i,
{
    if i > 0 {
        assert(s.drop_first() =~= s.subrange(1, s.len() as int));
        lemma_trim_start_skip(s.drop_first(), i - 1);
        assert(s.drop_first().subrange(i - 1, s.drop_first().len() as int) =~= s.subrange(
            i,
            s.len() as int,
        ));
    } else {
        assert(s.subrange(0, s.len() as int) =~= s);
    }
}

proof fn lemma_trim_end_skip(s: Seq<char>, i: int)
    requires
        0 <= i <= s.len(),
        forall|j: int| i <= j < s.len() ==> is_space_char(s[j]),
    ensures
        trim_end_spec(s) == trim_end_spec(s.subrange(0, i)),
    decreases s.len() - i,
{
    if i < s.len() {
        assert(s.drop_last() =~= s.subrange(0, s.len() - 1));
        lemma_trim_end_skip(s.drop_last(), i);
        assert(s.drop_last().subrange(0, i) =~= s.subrange(0, i));
    } else {
        assert(s.subrange(0, s.len() as int) =~= s);
    }
}

/// Copies the slice `v[from..to]` into a fresh vector.
pub fn subvec(v: &Vec<char>, from: usize, to: usize) -> (r: Vec<char>)
    requires
        from <= to <= v@.len(),
    ensures
        r@ == v@.subrange(from as int, to as int),
{
    let mut r: Vec<char> = Vec::new();
    let mut i: usize = from;
    while i < to
        invariant
            from <= i <= to <= v@.len(),
            r@ == v@.subrange(from as int, i as int),
        decreases to - i,
    {
        r.push(v[i]);
        i = i + 1;
        proof {
            assert(r@ =~= v@.subrange(from as int, i as int));
        }
    }
    r
}

/// Removes whitespace from both ends of `v`.
pub fn trim(v: &Vec<char>) -> (r: Vec<char>)
    ensures
        r@ == trim_spec(v@),
{
    let n = v.len();
    let mut i: usize = 0;
    while i < n && is_space(v[i])
        invariant
            0 <= i <= n,
            n == v@.len(),
            forall|j: int| 0 <= j < i ==> is_space_char(v@[j]),
        decreases n - i,
    {
        i = i + 1;
    }
    proof {
        lemma_trim_start_skip(v@, i as int);
    }
    let mut j: usize = n;
    while j > i && is_space(v[j - 1])
        invariant
            i <= j <= n,
            n == v@.len(),
            forall|k: int| j <= k < n ==> is_space_char(v@[k]),
        decreases j,
    {
        j = j - 1;
    }
    let ghost mid = v@.subrange(i as int, n as int);
    proof {
        if i < n {
            assert(!is_space_char(v@[i as int]));
            assert(mid[0] == v@[i as int]);
            assert(trim_start_spec(mid) == mid);
        } else {
            assert(mid.len() == 0);
        }
        lemma_trim_end_skip(mid, j - i);
        assert(mid.subrange(0, j - i) =~= v@.subrange(i as int, j as int));
    }
    subvec(v, i, j)
}

/// All whitespace characters removed, wherever they stand.
pub open spec fn strip_spaces_spec(s: Seq<char>) -> Seq<char> {
    s.filter(|c: char| !is_space_char(c))
}

/// Removes every whitespace character from `v`.
pub fn strip_spaces(v: &Vec<char>) -> (r: Vec<char>)
    ensures
        r@ == strip_spaces_spec(v@),
{
    let mut r: Vec<char> = Vec::new();
    let mut i: usize = 0;
    while i < v.len()
        invariant
            0 <= i <= v@.len(),
            r@ == v@.subrange(0, i as int).filter(|c: char| !is_space_char(c)),
        decreases v@.len() - i,
    {
        let ghost pre = v@.subrange(0, i as int);
        let c = v[i];
        if !is_space(c) {
            r.push(c);
        }
        i = i + 1;
        proof {
            assert(v@.subrange(0, i as int) =~= pre.push(c));
            pre.lemma_filter_push(c, |x: char| !is_space_char(x));
        }
    }
    proof {
        assert(v@.subrange(0, v@.len() as int) =~= v@);
    }
    r
}

/// The first position at or after `from` where `c` stands, if any.
pub open spec fn find_char_spec(s: Seq<char>, from: int, c: char) -> Option<int>
    decreases s.len() - from,
{
    if from < 0 || from >= s.len() {
        None
    } else if s[from] == c {
        Some(from)
    } else {
        find_char_spec(s, from + 1, c)
    }
}

pub fn find_char(v: &Vec<char>, from: usize, c: char) -> (r: Option<usize>)
    requires
        from <= v@.len(),
    ensures
        match r {
            Some(i) => from <= i < v@.len() && find_char_spec(v@, from as int, c) == Some(i as int),
            None => find_char_spec(v@, from as int, c) is None,
        },
{
    let mut i: usize = from;
    while i < v.len()
        invariant
            from <= i <= v@.len(),
            find_char_spec(v@, from as int, c) == find_char_spec(v@, i as int, c),
        decreases v@.len() - i,
    {
        if v[i] == c {
            return Some(i);
        }
        i = i + 1;
    }
    None
}

/// The first position at or after `from` where the two characters `a`, `b`
/// stand next to each other, if any.
pub open spec fn find_pair_spec(s: Seq<char>, from: int, a: char, b: char) -> Option<int>
    decreases s.len() - from,
{
    if from < 0 || from + 1 >= s.len() {
        None
    } else if s[from] == a && s[from + 1] == b {
        Some(from)
    } else {
        find_pair_spec(s, from + 1, a, b)
    }
}

pub fn find_pair(v: &Vec<char>, a: char, b: char) -> (r: Option<usize>)
    ensures
        match r {
            Some(i) => i + 1 < v@.len() && find_pair_spec(v@, 0, a, b) == Some(i as int),
            None => find_pair_spec(v@, 0, a, b) is None,
        },
{
    let n = v.len();
    if n < 1 {
        return None;
    }
    let mut i: usize = 0;
    while i + 1 < n
        invariant
            n == v@.len(),
            0 <= i < n,
            find_pair_spec(v@, 0, a, b) == find_pair_spec(v@, i as int, a, b),
        decreases v@.len() - i,
    {
        if v[i] == a && v[i + 1] == b {
            return Some(i);
        }
        i = i + 1;
    }
    None
}

/// The pieces of `s` between occurrences of the separator `c`; always at
/// least one piece, and the separators themselves are kept in none.
pub open spec fn split_char_spec(s: Seq<char>, c: char) -> Seq<Seq<char>>
    decreases s.len(),
{
    if s.len() == 0 {
        seq![Seq::<char>::empty()]
    } else if s[0] == c {
        seq![Seq::<char>::empty()] + split_char_spec(s.drop_first(), c)
    } else {
        let rest = split_char_spec(s.drop_first(), c);
        seq![seq![s[0]] + rest[0]] + rest.drop_first()
    }
}

pub proof fn lemma_split_char_len(s: Seq<char>, c: char)
    ensures
        split_char_spec(s, c).len() >= 1,
    decreases s.len(),
{
    if s.len() > 0 {
        lemma_split_char_len(s.drop_first(), c);
    }
}

/// `pieces` with `cur` joined onto the front of its first piece.
spec fn prepend_first(cur: Seq<char>, pieces: Seq<Seq<char>>) -> Seq<Seq<char>>
    recommends
        pieces.len() >= 1,
{
    seq![cur + pieces[0]] + pieces.drop_first()
}

/// Splits `v` at every occurrence of `c`.
pub fn split_char(v: &Vec<char>, c: char) -> (r: Vec<Vec<char>>)
    ensures
        r@.map_values(|p: Vec<char>| p@) == split_char_spec(v@, c),
{
    let mut acc: Vec<Vec<char>> = Vec::new();
    let mut cur: Vec<char> = Vec::new();
    let mut i: usize = 0;
    proof {
        lemma_split_char_len(v@, c);
        assert(v@.subrange(0, v@.len() as int) =~= v@);
    }
    while i < v.len()
        invariant
            0 <= i <= v@.len(),
            split_char_spec(v@, c) == acc@.map_values(|p: Vec<char>| p@) + prepend_first(
                cur@,
                split_char_spec(v@.subrange(i as int, v@.len() as int), c),
            ),
        decreases v@.len() - i,
    {
        let ghost suffix = v@.subrange(i as int, v@.len() as int);
        let ghost suffix2 = v@.subrange(i + 1, v@.len() as int);
        proof {
            assert(suffix.len() > 0);
            assert(suffix.drop_first() =~= suffix2);
            lemma_split_char_len(suffix2, c);
        }
        let ghost old_acc = acc@;
        let ghost old_cur = cur@;
        if v[i] == c {
            acc.push(cur);
            cur = Vec::new();
            proof {
                assert(split_char_spec(suffix, c) == seq![Seq::<char>::empty()] + split_char_spec(
                    suffix2,
                    c,
                ));
                assert(old_acc.map_values(|p: Vec<char>| p@) + prepend_first(
                    old_cur,
                    split_char_spec(suffix, c),
                ) =~~= acc@.map_values(|p: Vec<char>| p@) + prepend_first(
                    Seq::<char>::empty(),
                    split_char_spec(suffix2, c),
                ));
            }
        } else {
            let ch = v[i];
            cur.push(ch);
            proof {
                let rest = split_char_spec(suffix2, c);
                assert(split_char_spec(suffix, c) == seq![seq![suffix[0]] + rest[0]]
                    + rest.drop_first());
                assert(prepend_first(old_cur, split_char_spec(suffix, c)) =~~= prepend_first(
                    old_cur.push(ch),
                    rest,
                ));
            }
        }
        i = i + 1;
    }
    proof {
        let ghost suffix = v@.subrange(v@.len() as int, v@.len() as int);
        assert(suffix.len() == 0);
        assert(split_char_spec(suffix, c) == seq![Seq::<char>::empty()]);
        assert(prepend_first(cur@, split_char_spec(suffix, c)) =~~= seq![cur@]);
    }
    let ghost pre_acc = acc@;
    acc.push(cur);
    proof {
        assert(acc@.map_values(|p: Vec<char>| p@) =~~= pre_acc.map_values(|p: Vec<char>| p@)
            + seq![cur@]);
        assert(acc@.map_values(|p: Vec<char>| p@) =~~= split_char_spec(v@, c));
    }
    acc
}

/// Whether `v` holds exactly the text of `s`.
pub fn text_eq(v: &Vec<char>, s: &str) -> (r: bool)
    ensures
        r == (v@ == s@),
{
    let n = s.unicode_len();
    if v.len() != n {
        return false;
    }
    let mut i: usize = 0;
    while i < n
        invariant
            0 <= i <= n,
            n == s@.len(),
            n == v@.len(),
            forall|j: int| 0 <= j < i ==> v@[j] == s@[j],
        decreases n - i,
    {
        if v[i] != s.get_char(i) {
            return false;
        }
        i = i + 1;
    }
    proof {
        assert(v@ =~= s@);
    }
    true
}

/// Copies the characters of `s` into a vector.
pub fn chars_of(s: &str) -> (v: Vec<char>)
    ensures
        v@ == s@,
{
    let n = s.unicode_len();
    let mut v: Vec<char> = Vec::new();
    let mut i: usize = 0;
    while i < n
        invariant
            n == s@.len(),
            0 <= i <= n,
            v@ == s@.subrange(0, i as int),
        decreases n - i,
    {
        let c = s.get_char(i);
        v.push(c);
        i = i + 1;
        proof {
            assert(v@ =~= s@.subrange(0, i as int));
        }
    }
    proof {
        assert(v@ =~= s@);
    }
    v
}

/// Every occurrence of `c` removed, wherever it stands.
pub open spec fn remove_char_spec(s: Seq<char>, c: char) -> Seq<char>
    decreases s.len(),
{
    if s.len() == 0 {
        Seq::<char>::empty()
    } else if s.last() == c {
        remove_char_spec(s.drop_last(), c)
    } else {
        remove_char_spec(s.drop_last(), c).push(s.last())
    }
}

/// Removes every occurrence of `c` from `v`.
pub fn remove_char(v: &Vec<char>, c: char) -> (r: Vec<char>)
    ensures
        r@ == remove_char_spec(v@, c),
{
    let mut r: Vec<char> = Vec::new();
    let mut i: usize = 0;
    proof {
        assert(v@.subrange(0, 0) =~= Seq::<char>::empty());
    }
    while i < v.len()
        invariant
            0 <= i <= v@.len(),
            r@ == remove_char_spec(v@.subrange(0, i as int), c),
        decreases v@.len() - i,
    {
        let ghost pre = v@.subrange(0, i as int);
        let x = v[i];
        if x != c {
            r.push(x);
        }
        i = i + 1;
        proof {
            assert(v@.subrange(0, i as int).drop_last() =~= pre);
            assert(v@.subrange(0, i as int).last() == x);
        }
    }
    proof {
        assert(v@.subrange(0, v@.len() as int) =~= v@);
    }
    r
}

/// The first position at or after `from` where a whitespace character
/// stands, if any.
pub open spec fn find_space_spec(s: Seq<char>, from: int) -> Option<int>
    decreases s.len() - from,
{
    if from < 0 || from >= s.len() {
        None
    } else if is_space_char(s[from]) {
        Some(from)
    } else {
        find_space_spec(s, from + 1)
    }
}

pub fn find_space(v: &Vec<char>, from: usize) -> (r: Option<usize>)
    requires
        from <= v@.len(),
    ensures
        match r {
            Some(i) => from <= i < v@.len() && find_space_spec(v@, from as int) == Some(i as int),
            None => find_space_spec(v@, from as int) is None,
        },
{
    let mut i: usize = from;
    while i < v.len()
        invariant
            from <= i <= v@.len(),
            find_space_spec(v@, from as int) == find_space_spec(v@, i as int),
        decreases v@.len() - i,
    {
        if is_space(v[i]) {
            return Some(i);
        }
        i = i + 1;
    }
    None
}

/// One raw source line made ready for parsing: whitespace trimmed, then
/// anything from the first `//` on dropped.
pub open spec fn clean_line_spec(l: Seq<char>) -> Seq<char> {
    let t = trim_spec(l);
    match find_pair_spec(t, 0, '/', '/') {
        Some(i) => t.take(i),
        None => t,
    }
}

/// The lines of a source text that carry content: split on newlines,
/// cleaned, and with empty lines dropped.
pub open spec fn clean_lines_spec(s: Seq<char>) -> Seq<Seq<char>> {
    split_char_spec(s, '\n').map_values(|l: Seq<char>| clean_line_spec(l)).filter(
        |l: Seq<char>| l.len() > 0,
    )
}

/// Splits a source text into its cleaned, non-empty lines.
pub fn clean_lines(v: &Vec<char>) -> (r: Vec<Vec<char>>)
    ensures
        r@.map_values(|p: Vec<char>| p@) == clean_lines_spec(v@),
{
    let raw = split_char(v, '\n');
    let ghost raw_views = raw@.map_values(|p: Vec<char>| p@);
    let mut r: Vec<Vec<char>> = Vec::new();
    let mut i: usize = 0;
    proof {
        assert(raw_views.take(0) =~= Seq::<Seq<char>>::empty());
        assert(raw_views.take(0).map_values(|l: Seq<char>| clean_line_spec(l)).filter(
            |l: Seq<char>| l.len() > 0,
        ) =~= Seq::<Seq<char>>::empty());
    }
    while i < raw.len()
        invariant
            0 <= i <= raw@.len(),
            raw_views == raw@.map_values(|p: Vec<char>| p@),
            r@.map_values(|p: Vec<char>| p@) == raw_views.take(i as int).map_values(
                |l: Seq<char>| clean_line_spec(l),
            ).filter(|l: Seq<char>| l.len() > 0),
        decreases raw@.len() - i,
    {
        let ghost pre = raw_views.take(i as int);
        let t = trim(&raw[i]);
        let cleaned = match find_pair(&t, '/', '/') {
            Some(p) => subvec(&t, 0, p),
            None => t,
        };
        let ghost old_r = r@;
        if cleaned.len() > 0 {
            r.push(cleaned);
        }
        i = i + 1;
        proof {
            let cl = |l: Seq<char>| clean_line_spec(l);
            let ne = |l: Seq<char>| l.len() > 0;
            assert(raw_views.take(i as int) =~= pre.push(raw_views[i - 1]));
            assert(cleaned@ == clean_line_spec(raw_views[i - 1]));
            assert(pre.push(raw_views[i - 1]).map_values(cl) =~= pre.map_values(cl).push(
                cleaned@,
            ));
            pre.map_values(cl).lemma_filter_push(cleaned@, ne);
            if cleaned@.len() > 0 {
                assert(r@.map_values(|p: Vec<char>| p@) =~= old_r.map_values(|p: Vec<char>| p@)
                    + seq![cleaned@]);
            }
        }
    }
    proof {
        assert(raw_views.take(raw@.len() as int) =~= raw_views);
    }
    r
}

/// Builds an owned string from a vector of characters.
/// Relies on `String`'s `FromIterator` impl: collecting the characters of an
/// iterator yields the string of exactly those characters in order.
#[verifier::external_body]
pub fn string_of(v: &Vec<char>) -> (s: String)
    ensures
        s@ == v@,
{
    v.iter().collect()
}

} // verus!
