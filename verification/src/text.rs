use vstd::prelude::*;

verus! {

/// The position of the first occurrence of `c` in `s` at or after `i`,
/// if there is one.
pub open spec fn find_char_from(s: Seq<char>, c: char, i: int) -> Option<int>
    decreases s.len() - i,
{
    if i < 0 || i >= s.len() {
        None
    } else if s[i] == c {
        Some(i)
    } else {
        find_char_from(s, c, i + 1)
    }
}

/// Everything `find_char_from` returns lies between `i` and the end of `s`,
/// and marks an occurrence of `c` with none earlier.
pub proof fn lemma_find_char_from(s: Seq<char>, c: char, i: int)
    requires
        0 <= i <= s.len(),
    ensures
        match find_char_from(s, c, i) {
            Some(j) => i <= j < s.len() && s[j] == c && (forall|k: int| i <= k < j ==> s[k] != c),
            None => forall|k: int| i <= k < s.len() ==> s[k] != c,
        },
    decreases s.len() - i,
{
    if i < s.len() && s[i] != c {
        lemma_find_char_from(s, c, i + 1);
    }
}

/// Searches `s` left to right for the character `c`, starting at
/// character position `from`.
pub fn find_char(s: &str, c: char, from: usize) -> (r: Option<usize>)
    requires
        from <= s@.len(),
    ensures
        match r {
            Some(j) => find_char_from(s@, c, from as int) == Some(j as int),
            None => find_char_from(s@, c, from as int) is None,
        },
{
    let n = s.unicode_len();
    let mut i = from;
    while i < n
        invariant
            from <= i <= n,
            n == s@.len(),
            find_char_from(s@, c, from as int) == find_char_from(s@, c, i as int),
        decreases n - i,
    {
        if s.get_char(i) == c {
            return Some(i);
        }
        i = i + 1;
    }
    None
}

/// Whether the character sequences of two strings are equal.
pub fn str_eq(a: &str, b: &str) -> (r: bool)
    ensures
        r == (a@ == b@),
{
    let na = a.unicode_len();
    let nb = b.unicode_len();
    if na != nb {
        return false;
    }
    let mut i: usize = 0;
    while i < na
        invariant
            0 <= i <= na,
            na == a@.len(),
            nb == b@.len(),
            na == nb,
            forall|k: int| 0 <= k < i ==> a@[k] == b@[k],
        decreases na - i,
    {
        if a.get_char(i) != b.get_char(i) {
            return false;
        }
        i = i + 1;
    }
    proof {
        assert(a@ =~= b@);
    }
    true
}

/// Whether a character counts as blank when operator input is trimmed.
/// Deliberately the ASCII blanks alone (space, tab, carriage return,
/// newline): console lines and request lines carry no other kind, and
/// a Unicode whitespace table is no business of this library.
pub open spec fn is_blank(c: char) -> bool {
    c == ' ' || c == '\t' || c == '\r' || c == '\n'
}

/// The number of leading blank characters of `s`.
pub open spec fn leading_blanks(s: Seq<char>, i: int) -> int
    decreases s.len() - i,
{
    if i < 0 || i >= s.len() {
        i
    } else if is_blank(s[i]) {
        leading_blanks(s, i + 1)
    } else {
        i
    }
}

/// The number of trailing blank characters of `s`, given as the position
/// just after the last non-blank character at or before `j`.
pub open spec fn trailing_end(s: Seq<char>, j: int) -> int
    decreases j,
{
    if j <= 0 {
        0
    } else if is_blank(s[j - 1]) {
        trailing_end(s, j - 1)
    } else {
        j
    }
}

/// `s` with leading and trailing blanks removed; empty when `s` is all blanks.
pub open spec fn spec_trim(s: Seq<char>) -> Seq<char> {
    let a = leading_blanks(s, 0);
    let b = trailing_end(s, s.len() as int);
    if a <= b {
        s.subrange(a, b)
    } else {
        Seq::empty()
    }
}

/// Removes leading and trailing blank characters from `s`.
pub fn trim(s: &str) -> (r: String)
    ensures
        r@ == spec_trim(s@),
{
    let n = s.unicode_len();
    let mut a: usize = 0;
    while a < n
        invariant
            0 <= a <= n,
            n == s@.len(),
            leading_blanks(s@, 0) == leading_blanks(s@, a as int),
        ensures
            leading_blanks(s@, 0) == leading_blanks(s@, a as int),
            a == n || !is_blank(s@[a as int]),
            0 <= a <= n,
        decreases n - a,
    {
        let c = s.get_char(a);
        if c == ' ' || c == '\t' || c == '\r' || c == '\n' {
            a = a + 1;
        } else {
            break;
        }
    }
    let mut b: usize = n;
    while b > 0
        invariant
            0 <= b <= n,
            n == s@.len(),
            trailing_end(s@, n as int) == trailing_end(s@, b as int),
        ensures
            trailing_end(s@, n as int) == trailing_end(s@, b as int),
            b == 0 || !is_blank(s@[b as int - 1]),
            0 <= b <= n,
        decreases b,
    {
        let c = s.get_char(b - 1);
        if c == ' ' || c == '\t' || c == '\r' || c == '\n' {
            b = b - 1;
        } else {
            break;
        }
    }
    proof {
        assert(leading_blanks(s@, a as int) == a as int);
        assert(trailing_end(s@, b as int) == b as int);
    }
    if a <= b {
        s.substring_char(a, b).to_owned()
    } else {
        proof {
            assert(spec_trim(s@) =~= Seq::<char>::empty());
        }
        String::new()
    }
}

/// The character sequences of a sequence of strings.
pub open spec fn views_of(v: Seq<String>) -> Seq<Seq<char>> {
    Seq::new(v.len(), |i: int| v[i]@)
}

/// `s` cut at every occurrence of `c`. There is always at least one
/// piece; a separator at either end or two adjacent separators yield
/// empty pieces, as the splitting of the standard library does.
pub open spec fn spec_split(s: Seq<char>, c: char) -> Seq<Seq<char>>
    decreases s.len(),
{
    if s.len() == 0 {
        seq![Seq::<char>::empty()]
    } else if s[0] == c {
        seq![Seq::<char>::empty()] + spec_split(s.drop_first(), c)
    } else {
        let rest = spec_split(s.drop_first(), c);
        seq![seq![s[0]] + rest[0]] + rest.drop_first()
    }
}

/// Splitting always yields at least one piece.
pub proof fn lemma_split_len(s: Seq<char>, c: char)
    ensures
        spec_split(s, c).len() >= 1,
    decreases s.len(),
{
    if s.len() > 0 {
        lemma_split_len(s.drop_first(), c);
    }
}

/// Searching within `s.subrange(p, len)` finds the same occurrence as
/// searching `s` itself, shifted by `p`.
pub proof fn lemma_find_char_sub(s: Seq<char>, c: char, p: int, i: int)
    requires
        0 <= p <= s.len(),
        0 <= i <= s.len() - p,
    ensures
        find_char_from(s, c, p + i) == match find_char_from(
            s.subrange(p, s.len() as int),
            c,
            i,
        ) {
            Some(j) => Some(j + p),
            None => None::<int>,
        },
    decreases s.len() - p - i,
{
    if p + i < s.len() {
        if s[p + i] != c {
            lemma_find_char_sub(s, c, p, i + 1);
        }
    }
}

/// The first piece of a split is everything before the first occurrence
/// of the separator, and the remaining pieces are the split of what
/// follows it.
pub proof fn lemma_split_first(s: Seq<char>, c: char)
    ensures
        match find_char_from(s, c, 0) {
            Some(i) => spec_split(s, c) == seq![s.subrange(0, i)] + spec_split(
                s.subrange(i + 1, s.len() as int),
                c,
            ),
            None => spec_split(s, c) == seq![s],
        },
    decreases s.len(),
{
    lemma_find_char_from(s, c, 0);
    if s.len() == 0 {
        assert(spec_split(s, c) =~~= seq![s]);
    } else if s[0] == c {
        assert(s.drop_first() =~= s.subrange(1, s.len() as int));
        assert(s.subrange(0, 0) =~= Seq::<char>::empty());
        assert(spec_split(s, c) =~~= seq![s.subrange(0, 0)] + spec_split(
            s.subrange(1, s.len() as int),
            c,
        ));
    } else {
        let t = s.drop_first();
        lemma_split_first(t, c);
        lemma_split_len(t, c);
        assert(t =~= s.subrange(1, s.len() as int));
        lemma_find_char_sub(s, c, 1, 0);
        match find_char_from(t, c, 0) {
            Option::None => {
                assert(find_char_from(s, c, 0) is None);
                assert(spec_split(t, c) == seq![t]);
                assert(seq![s[0]] + t =~= s);
                assert(spec_split(s, c) =~~= seq![s]);
            },
            Option::Some(j) => {
                lemma_find_char_from(t, c, 0);
                assert(find_char_from(s, c, 0) == Some(j + 1));
                let rest = spec_split(t, c);
                assert(rest == seq![t.subrange(0, j)] + spec_split(
                    t.subrange(j + 1, t.len() as int),
                    c,
                ));
                assert(seq![s[0]] + rest[0] =~= s.subrange(0, j + 1));
                assert(rest.drop_first() =~~= spec_split(t.subrange(j + 1, t.len() as int), c));
                assert(t.subrange(j + 1, t.len() as int) =~= s.subrange(j + 2, s.len() as int));
                assert(spec_split(s, c) =~~= seq![s.subrange(0, j + 1)] + spec_split(
                    s.subrange(j + 2, s.len() as int),
                    c,
                ));
            },
        }
    }
}

/// Cuts `s` at every occurrence of `c` into owned pieces.
pub fn split_char(s: &str, c: char) -> (parts: Vec<String>)
    ensures
        views_of(parts@) == spec_split(s@, c),
        parts@.len() >= 1,
{
    let n = s.unicode_len();
    let mut parts: Vec<String> = Vec::new();
    let mut p: usize = 0;
    proof {
        assert(views_of(parts@) =~~= Seq::<Seq<char>>::empty());
        assert(s@.subrange(0, n as int) =~= s@);
        assert(spec_split(s@, c) =~~= views_of(parts@) + spec_split(
            s@.subrange(0, n as int),
            c,
        ));
    }
    loop
        invariant
            0 <= p <= n,
            n == s@.len(),
            spec_split(s@, c) == views_of(parts@) + spec_split(
                s@.subrange(p as int, n as int),
                c,
            ),
        decreases n - p,
    {
        let ghost tail = s@.subrange(p as int, n as int);
        proof {
            lemma_split_first(tail, c);
            lemma_split_len(tail, c);
        }
        match find_char(s, c, p) {
            Option::Some(i) => {
                proof {
                    lemma_find_char_from(s@, c, p as int);
                    lemma_find_char_sub(s@, c, p as int, 0);
                    assert(find_char_from(tail, c, 0) == Some(i - p as int));
                }
                let tok = s.substring_char(p, i).to_owned();
                let ghost before = parts@;
                parts.push(tok);
                proof {
                    assert(tail.subrange(0, i - p as int) =~= s@.subrange(p as int, i as int));
                    assert(tail.subrange(i - p as int + 1, tail.len() as int) =~= s@.subrange(
                        i as int + 1,
                        n as int,
                    ));
                    assert(views_of(parts@) =~~= views_of(before) + seq![tok@]);
                    assert(spec_split(s@, c) =~~= views_of(parts@) + spec_split(
                        s@.subrange(i as int + 1, n as int),
                        c,
                    ));
                }
                p = i + 1;
            },
            Option::None => {
                proof {
                    lemma_find_char_sub(s@, c, p as int, 0);
                    assert(find_char_from(tail, c, 0) is None);
                    assert(spec_split(tail, c) == seq![tail]);
                }
                let tok = s.substring_char(p, n).to_owned();
                let ghost before = parts@;
                parts.push(tok);
                proof {
                    assert(views_of(parts@) =~~= views_of(before) + seq![tok@]);
                    assert(views_of(parts@) =~~= spec_split(s@, c));
                    lemma_split_len(s@, c);
                }
                return parts;
            },
        }
    }
}

/// Whether `pat` stands in `s` beginning at position `i`.
pub open spec fn occurs_at(s: Seq<char>, pat: Seq<char>, i: int) -> bool {
    0 <= i && i + pat.len() <= s.len() && s.subrange(i, i + pat.len() as int) == pat
}

/// Whether `pat` stands anywhere in `s`.
pub open spec fn is_substring(s: Seq<char>, pat: Seq<char>) -> bool {
    exists|i: int| occurs_at(s, pat, i)
}

/// Whether `pat` stands in `s` at position `from` exactly.
fn matches_at(s: &str, pat: &str, from: usize) -> (r: bool)
    requires
        from + pat@.len() <= s@.len(),
    ensures
        r == occurs_at(s@, pat@, from as int),
{
    let n = s.unicode_len();
    let m = pat.unicode_len();
    let mut k: usize = 0;
    while k < m
        invariant
            0 <= k <= m,
            n == s@.len(),
            m == pat@.len(),
            from + m <= s@.len(),
            forall|t: int| 0 <= t < k ==> s@[from + t] == pat@[t],
        decreases m - k,
    {
        if s.get_char(from + k) != pat.get_char(k) {
            proof {
                assert(s@.subrange(from as int, from + m as int)[k as int] != pat@[k as int]);
            }
            return false;
        }
        k = k + 1;
    }
    proof {
        assert(s@.subrange(from as int, from + m as int) =~= pat@);
    }
    true
}

/// Whether `pat` stands anywhere in `s`, as the standard substring
/// test decides it; the empty pattern stands everywhere.
pub fn contains_str(s: &str, pat: &str) -> (r: bool)
    ensures
        r == is_substring(s@, pat@),
{
    let n = s.unicode_len();
    let m = pat.unicode_len();
    if m == 0 {
        proof {
            assert(s@.subrange(0, 0) =~= pat@);
            assert(occurs_at(s@, pat@, 0));
        }
        return true;
    }
    if m > n {
        proof {
            assert(forall|i: int| !occurs_at(s@, pat@, i));
        }
        return false;
    }
    let mut i: usize = 0;
    while i <= n - m
        invariant
            0 <= i <= n - m + 1,
            1 <= m <= n,
            n == s@.len(),
            m == pat@.len(),
            forall|k: int| 0 <= k < i ==> !occurs_at(s@, pat@, k),
        decreases n - m - i + 1,
    {
        if matches_at(s, pat, i) {
            return true;
        }
        i = i + 1;
    }
    proof {
        assert(forall|k: int| !occurs_at(s@, pat@, k));
    }
    false
}

/// The position of the first occurrence of `pat` in `s` at or after
/// `i`, if there is one. An empty pattern occurs at once.
pub open spec fn find_str_from(s: Seq<char>, pat: Seq<char>, i: int) -> Option<int>
    decreases s.len() - i,
{
    if pat.len() == 0 {
        if 0 <= i <= s.len() {
            Some(i)
        } else {
            None
        }
    } else if i < 0 || i + pat.len() > s.len() {
        None
    } else if occurs_at(s, pat, i) {
        Some(i)
    } else {
        find_str_from(s, pat, i + 1)
    }
}

/// Everything `find_str_from` returns marks the first occurrence at or
/// after `i`; nothing earlier matches.
pub proof fn lemma_find_str_from(s: Seq<char>, pat: Seq<char>, i: int)
    requires
        0 <= i,
    ensures
        match find_str_from(s, pat, i) {
            Some(j) => i <= j && occurs_at(s, pat, j) && (forall|k: int|
                i <= k < j ==> !occurs_at(s, pat, k)),
            None => forall|k: int| i <= k ==> !occurs_at(s, pat, k),
        },
    decreases s.len() - i,
{
    if pat.len() == 0 {
        if i <= s.len() {
            assert(s.subrange(i, i) =~= pat);
        }
    } else if i + pat.len() > s.len() {
        assert(forall|k: int| i <= k ==> !occurs_at(s, pat, k));
    } else if !occurs_at(s, pat, i) {
        lemma_find_str_from(s, pat, i + 1);
    }
}

/// Searches `s` left to right for the string `pat`, starting at `from`.
pub fn find_str(s: &str, pat: &str, from: usize) -> (r: Option<usize>)
    requires
        from <= s@.len(),
    ensures
        match r {
            Some(j) => find_str_from(s@, pat@, from as int) == Some(j as int),
            None => find_str_from(s@, pat@, from as int) is None,
        },
{
    let n = s.unicode_len();
    let m = pat.unicode_len();
    if m == 0 {
        proof {
            assert(s@.subrange(from as int, from as int) =~= pat@);
        }
        return Some(from);
    }
    if m > n || from > n - m {
        return None;
    }
    let mut i = from;
    while i <= n - m
        invariant
            from <= i <= n - m + 1,
            1 <= m <= n,
            n == s@.len(),
            m == pat@.len(),
            find_str_from(s@, pat@, from as int) == find_str_from(s@, pat@, i as int),
        decreases n - m - i + 1,
    {
        if matches_at(s, pat, i) {
            return Some(i);
        }
        proof {
            assert(find_str_from(s@, pat@, i as int) == find_str_from(s@, pat@, i as int + 1));
        }
        i = i + 1;
    }
    None
}

/// `s` cut at every occurrence of the separator `d`, leftmost first.
/// With a separator no piece can hold, the whole of `s` is one piece.
pub open spec fn spec_split_str(s: Seq<char>, d: Seq<char>) -> Seq<Seq<char>>
    decreases s.len(),
{
    if d.len() == 0 || s.len() < d.len() {
        seq![s]
    } else if s.subrange(0, d.len() as int) == d {
        seq![Seq::<char>::empty()] + spec_split_str(s.skip(d.len() as int), d)
    } else {
        let rest = spec_split_str(s.drop_first(), d);
        seq![seq![s[0]] + rest[0]] + rest.drop_first()
    }
}

/// Splitting by a string always yields at least one piece.
pub proof fn lemma_split_str_len(s: Seq<char>, d: Seq<char>)
    ensures
        spec_split_str(s, d).len() >= 1,
    decreases s.len(),
{
    if !(d.len() == 0 || s.len() < d.len()) {
        if s.subrange(0, d.len() as int) == d {
            lemma_split_str_len(s.skip(d.len() as int), d);
        } else {
            lemma_split_str_len(s.drop_first(), d);
        }
    }
}

/// Searching within `s.subrange(p, len)` finds the same occurrence of
/// `pat` as searching `s` itself, shifted by `p`.
pub proof fn lemma_find_str_sub(s: Seq<char>, pat: Seq<char>, p: int, i: int)
    requires
        1 <= pat.len(),
        0 <= p <= s.len(),
        0 <= i,
    ensures
        find_str_from(s, pat, p + i) == match find_str_from(
            s.subrange(p, s.len() as int),
            pat,
            i,
        ) {
            Some(j) => Some(j + p),
            None => None::<int>,
        },
    decreases s.len() - p - i,
{
    let sub = s.subrange(p, s.len() as int);
    if p + i + pat.len() > s.len() {
    } else {
        assert(s.subrange(p + i, p + i + pat.len() as int) =~= sub.subrange(
            i,
            i + pat.len() as int,
        ));
        if !occurs_at(s, pat, p + i) {
            lemma_find_str_sub(s, pat, p, i + 1);
        }
    }
}

/// The first piece of a split is everything before the first occurrence
/// of the separator, and the remaining pieces are the split of what
/// follows it.
pub proof fn lemma_split_str_first(s: Seq<char>, d: Seq<char>)
    requires
        d.len() >= 1,
    ensures
        match find_str_from(s, d, 0) {
            Some(i) => spec_split_str(s, d) == seq![s.subrange(0, i)] + spec_split_str(
                s.subrange(i + d.len(), s.len() as int),
                d,
            ),
            None => spec_split_str(s, d) == seq![s],
        },
    decreases s.len(),
{
    lemma_find_str_from(s, d, 0);
    if s.len() < d.len() {
    } else if s.subrange(0, d.len() as int) == d {
        assert(occurs_at(s, d, 0));
        assert(find_str_from(s, d, 0) == Some(0int));
        assert(s.subrange(0, 0) =~= Seq::<char>::empty());
        assert(s.skip(d.len() as int) =~= s.subrange(d.len() as int, s.len() as int));
        assert(spec_split_str(s, d) =~~= seq![s.subrange(0, 0)] + spec_split_str(
            s.subrange(d.len() as int, s.len() as int),
            d,
        ));
    } else {
        let t = s.drop_first();
        lemma_split_str_first(t, d);
        lemma_split_str_len(t, d);
        assert(!occurs_at(s, d, 0));
        lemma_find_str_sub(s, d, 1, 0);
        assert(t =~= s.subrange(1, s.len() as int));
        match find_str_from(t, d, 0) {
            Option::None => {
                assert(find_str_from(s, d, 1) is None);
                assert(find_str_from(s, d, 0) is None);
                assert(spec_split_str(t, d) == seq![t]);
                assert(seq![s[0]] + t =~= s);
                assert(spec_split_str(s, d) =~~= seq![s]);
            },
            Option::Some(j) => {
                lemma_find_str_from(t, d, 0);
                assert(find_str_from(s, d, 0) == Some(j + 1));
                let rest = spec_split_str(t, d);
                assert(rest == seq![t.subrange(0, j)] + spec_split_str(
                    t.subrange(j + d.len(), t.len() as int),
                    d,
                ));
                assert(seq![s[0]] + rest[0] =~= s.subrange(0, j + 1));
                assert(rest.drop_first() =~~= spec_split_str(
                    t.subrange(j + d.len(), t.len() as int),
                    d,
                ));
                assert(t.subrange(j + d.len(), t.len() as int) =~= s.subrange(
                    j + 1 + d.len(),
                    s.len() as int,
                ));
                assert(spec_split_str(s, d) =~~= seq![s.subrange(0, j + 1)] + spec_split_str(
                    s.subrange(j + 1 + d.len(), s.len() as int),
                    d,
                ));
            },
        }
    }
}

/// Cuts `s` at every occurrence of the separator `d` into owned pieces.
pub fn split_str(s: &str, d: &str) -> (parts: Vec<String>)
    requires
        d@.len() >= 1,
    ensures
        views_of(parts@) == spec_split_str(s@, d@),
        parts@.len() >= 1,
{
    let n = s.unicode_len();
    let dn = d.unicode_len();
    let mut parts: Vec<String> = Vec::new();
    let mut p: usize = 0;
    proof {
        assert(views_of(parts@) =~~= Seq::<Seq<char>>::empty());
        assert(s@.subrange(0, n as int) =~= s@);
        assert(spec_split_str(s@, d@) =~~= views_of(parts@) + spec_split_str(
            s@.subrange(0, n as int),
            d@,
        ));
    }
    loop
        invariant
            0 <= p <= n,
            n == s@.len(),
            dn == d@.len(),
            1 <= dn,
            spec_split_str(s@, d@) == views_of(parts@) + spec_split_str(
                s@.subrange(p as int, n as int),
                d@,
            ),
        decreases n - p,
    {
        let ghost tail = s@.subrange(p as int, n as int);
        proof {
            lemma_split_str_first(tail, d@);
            lemma_split_str_len(tail, d@);
        }
        match find_str(s, d, p) {
            Option::Some(i) => {
                proof {
                    lemma_find_str_from(s@, d@, p as int);
                    lemma_find_str_sub(s@, d@, p as int, 0);
                    assert(find_str_from(tail, d@, 0) == Some(i - p as int));
                    assert(i + dn <= n);
                }
                let tok = s.substring_char(p, i).to_owned();
                let ghost before = parts@;
                parts.push(tok);
                proof {
                    assert(tail.subrange(0, i - p as int) =~= s@.subrange(p as int, i as int));
                    assert(tail.subrange(i - p as int + d@.len(), tail.len() as int)
                        =~= s@.subrange(i as int + d@.len(), n as int));
                    assert(views_of(parts@) =~~= views_of(before) + seq![tok@]);
                    assert(spec_split_str(s@, d@) =~~= views_of(parts@) + spec_split_str(
                        s@.subrange(i as int + dn as int, n as int),
                        d@,
                    ));
                }
                p = i + dn;
            },
            Option::None => {
                proof {
                    lemma_find_str_sub(s@, d@, p as int, 0);
                    assert(find_str_from(tail, d@, 0) is None);
                    assert(spec_split_str(tail, d@) == seq![tail]);
                }
                let tok = s.substring_char(p, n).to_owned();
                let ghost before = parts@;
                parts.push(tok);
                proof {
                    assert(views_of(parts@) =~~= views_of(before) + seq![tok@]);
                    assert(views_of(parts@) =~~= spec_split_str(s@, d@));
                    lemma_split_str_len(s@, d@);
                }
                return parts;
            },
        }
    }
}

/// The ASCII-lowercase counterpart of `c`; every other character,
/// Unicode letters included, stays itself. ASCII folding is all that
/// comparing against an ASCII command word needs.
pub open spec fn spec_lower(c: char) -> char {
    if 'A' <= c <= 'Z' {
        ((c as u8) + 32) as char
    } else {
        c
    }
}

/// `s` with every ASCII uppercase letter lowered.
pub open spec fn spec_lowercase(s: Seq<char>) -> Seq<char> {
    Seq::new(s.len(), |i: int| spec_lower(s[i]))
}

} // verus!
