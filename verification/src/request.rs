use vstd::prelude::*;

verus! {

/// Whether `c` separates the tokens of a request line.
pub open spec fn is_sep(c: char) -> bool {
    c == ' ' || c == '\t'
}

/// Whether `c` ends the request line.
pub open spec fn is_line_break(c: char) -> bool {
    c == '\n' || c == '\r'
}

/// The position at which the first line of `s` ends: the first line
/// break, or the end of `s`.
pub open spec fn line_end(s: Seq<char>, i: int) -> int
    decreases s.len() - i,
{
    if i < 0 || i >= s.len() {
        s.len() as int
    } else if is_line_break(s[i]) {
        i
    } else {
        line_end(s, i + 1)
    }
}

/// The position of the first non-separator character of the line
/// `s[..end]` at or after `i`, or `end` when only separators remain.
pub open spec fn skip_sep(s: Seq<char>, end: int, i: int) -> int
    decreases end - i,
{
    if i < 0 || i >= end {
        end
    } else if is_sep(s[i]) {
        skip_sep(s, end, i + 1)
    } else {
        i
    }
}

/// The position just after the token of the line `s[..end]` that starts
/// at `i`: the next separator, or `end`.
pub open spec fn token_end(s: Seq<char>, end: int, i: int) -> int
    decreases end - i,
{
    if i < 0 || i >= end {
        end
    } else if !is_sep(s[i]) {
        token_end(s, end, i + 1)
    } else {
        i
    }
}

/// The URI of a raw request: the second whitespace-separated token of
/// its first line. A first line with fewer than two tokens carries no
/// URI and the request is malformed.
pub open spec fn spec_uri_of_request(s: Seq<char>) -> Option<Seq<char>> {
    let end = line_end(s, 0);
    let t1 = skip_sep(s, end, 0);
    if t1 >= end {
        None
    } else {
        let e1 = token_end(s, end, t1);
        let t2 = skip_sep(s, end, e1);
        if t2 >= end {
            None
        } else {
            Some(s.subrange(t2, token_end(s, end, t2)))
        }
    }
}

/// The end of the first line of `s`, as a position in `s`.
fn find_line_end(s: &str) -> (r: usize)
    ensures
        r == line_end(s@, 0),
        r <= s@.len(),
{
    let n = s.unicode_len();
    let mut i: usize = 0;
    while i < n
        invariant
            0 <= i <= n,
            n == s@.len(),
            line_end(s@, 0) == line_end(s@, i as int),
        decreases n - i,
    {
        let c = s.get_char(i);
        if c == '\n' || c == '\r' {
            return i;
        }
        i = i + 1;
    }
    n
}

/// The first non-separator position of `s[..end]` at or after `from`.
fn find_token_start(s: &str, end: usize, from: usize) -> (r: usize)
    requires
        from <= end <= s@.len(),
    ensures
        r == skip_sep(s@, end as int, from as int),
        from <= r <= end,
{
    let mut i = from;
    while i < end
        invariant
            from <= i <= end <= s@.len(),
            skip_sep(s@, end as int, from as int) == skip_sep(s@, end as int, i as int),
        decreases end - i,
    {
        let c = s.get_char(i);
        if !(c == ' ' || c == '\t') {
            return i;
        }
        i = i + 1;
    }
    end
}

/// The position just after the token of `s[..end]` starting at `from`.
fn find_token_end(s: &str, end: usize, from: usize) -> (r: usize)
    requires
        from <= end <= s@.len(),
    ensures
        r == token_end(s@, end as int, from as int),
        from <= r <= end,
{
    let mut i = from;
    while i < end
        invariant
            from <= i <= end <= s@.len(),
            token_end(s@, end as int, from as int) == token_end(s@, end as int, i as int),
        decreases end - i,
    {
        let c = s.get_char(i);
        if c == ' ' || c == '\t' {
            return i;
        }
        i = i + 1;
    }
    end
}

/// Extracts the requested URI from a raw request: the second token of
/// its first line, tokens being separated by spaces and tabs. Returns
/// `None` for a malformed request, whose first line holds fewer than
/// two tokens; the caller then drops the connection without writing
/// anything back.
pub fn uri_from_request(request: &str) -> (r: Option<String>)
    ensures
        match r {
            Option::Some(u) => spec_uri_of_request(request@) == Some(u@),
            Option::None => spec_uri_of_request(request@) is None,
        },
{
    let end = find_line_end(request);
    let t1 = find_token_start(request, end, 0);
    if t1 >= end {
        return None;
    }
    let e1 = find_token_end(request, end, t1);
    let t2 = find_token_start(request, end, e1);
    if t2 >= end {
        return None;
    }
    let e2 = find_token_end(request, end, t2);
    Some(request.substring_char(t2, e2).to_owned())
}

} // verus!
