use vstd::prelude::*;
use crate::text::{decimal_u64, parse_decimal_u64, push_char};

verus! {

/// Why a path could not be applied to a document.
#[derive(Debug, PartialEq, Eq)]
pub enum PatchError {
    /// The path is not empty and does not start with `/`.
    InvalidPointer,
    /// A `~` in a token is followed by something other than `0` or `1`.
    InvalidEscape,
    /// A token is `~`-terminated.
    TrailingTilde,
    /// A token that addresses an array element is not a decimal index.
    InvalidIndex,
    /// An array index lies past what the operation allows.
    IndexOutOfBounds,
    /// The path does not lead to an existing value.
    MissingPath,
    /// The parent of the addressed location is neither an object nor an array.
    NotAContainer,
}

/// The tokens of `s` between slashes: `"a/b"` gives `["a", "b"]`, `""` gives `[""]`.
pub open spec fn split_slash(s: Seq<char>) -> Seq<Seq<char>>
    decreases s.len(),
{
    if s.len() == 0 {
        seq![Seq::empty()]
    } else {
        let prev = split_slash(s.drop_last());
        if s.last() == '/' {
            prev.push(Seq::empty())
        } else {
            prev.update(prev.len() - 1, prev.last().push(s.last()))
        }
    }
}

/// A token with its escapes undone: `~0` is `~`, `~1` is `/`; any other use
/// of `~` makes the token invalid.
pub open spec fn unescape(t: Seq<char>) -> Option<Seq<char>>
    decreases t.len(),
{
    if t.len() == 0 {
        Some(Seq::empty())
    } else if t[0] == '~' {
        if t.len() >= 2 && (t[1] == '0' || t[1] == '1') {
            match unescape(t.subrange(2, t.len() as int)) {
                Some(rest) => Some(seq![if t[1] == '0' { '~' } else { '/' }] + rest),
                None => None,
            }
        } else {
            None
        }
    } else {
        match unescape(t.subrange(1, t.len() as int)) {
            Some(rest) => Some(seq![t[0]] + rest),
            None => None,
        }
    }
}

/// The raw (still escaped) tokens of a non-empty pointer.
pub open spec fn raw_tokens(p: Seq<char>) -> Seq<Seq<char>> {
    split_slash(p.subrange(1, p.len() as int))
}

/// The tokens that a JSON Pointer addresses, or `None` where it is malformed.
pub open spec fn pointer_tokens(p: Seq<char>) -> Option<Seq<Seq<char>>> {
    if p.len() == 0 {
        Some(Seq::empty())
    } else if p[0] != '/' {
        None
    } else if forall|k: int| 0 <= k < raw_tokens(p).len() ==> (#[trigger] unescape(raw_tokens(p)[k])) is Some {
        Some(Seq::new(raw_tokens(p).len(), |k: int| unescape(raw_tokens(p)[k])->0))
    } else {
        None
    }
}

/// What `usize::from_str` reads from a token: an optional `+`, then decimal
/// digits whose value fits in a `usize`.
pub open spec fn index_value(t: Seq<char>) -> Option<usize> {
    let d = if t.len() > 0 && t[0] == '+' {
        t.subrange(1, t.len() as int)
    } else {
        t
    };
    match decimal_u64(d) {
        Some(v) => if v <= usize::MAX {
            Some(v as usize)
        } else {
            None
        },
        None => None,
    }
}

/// Undoes the `~0` / `~1` escapes of one pointer token.
pub fn unescape_json_pointer_token(token: &str) -> (r: Result<String, PatchError>)
    ensures
        match r {
            Ok(s) => unescape(token@) == Some(s@),
            Err(_) => unescape(token@) is None,
        },
{
    let n = token.unicode_len();
    let ghost t = token@;
    let mut out = String::new();
    let mut i: usize = 0;
    assert(t.subrange(0, n as int) =~= t);
    proof {
        if let Some(rest) = unescape(t) {
            assert(out@ + rest =~= rest);
        }
    }
    while i < n
        invariant
            i <= n,
            n == t.len(),
            t == token@,
            unescape(t) == match unescape(t.subrange(i as int, n as int)) {
                Some(rest) => Some(out@ + rest),
                None => None,
            },
        decreases n - i,
    {
        let ghost rest = t.subrange(i as int, n as int);
        let ch = token.get_char(i);
        assert(rest[0] == ch);
        if ch == '~' {
            if i + 1 < n {
                let next = token.get_char(i + 1);
                assert(rest[1] == next);
                if next == '0' || next == '1' {
                    assert(rest.subrange(2, rest.len() as int) =~= t.subrange(i + 2, n as int));
                    let ghost before = out@;
                    if next == '0' {
                        push_char(&mut out, '~');
                    } else {
                        push_char(&mut out, '/');
                    }
                    proof {
                        let c = if next == '0' { '~' } else { '/' };
                        assert(out@ == before.push(c));
                        match unescape(t.subrange(i + 2, n as int)) {
                            Some(r2) => {
                                assert(before + (seq![c] + r2) =~= out@ + r2);
                            },
                            None => {},
                        }
                    }
                    i = i + 2;
                } else {
                    return Err(PatchError::InvalidEscape);
                }
            } else {
                return Err(PatchError::TrailingTilde);
            }
        } else {
            assert(rest.subrange(1, rest.len() as int) =~= t.subrange(i + 1, n as int));
            let ghost before = out@;
            push_char(&mut out, ch);
            proof {
                match unescape(t.subrange(i + 1, n as int)) {
                    Some(r2) => {
                        assert(before + (seq![ch] + r2) =~= out@ + r2);
                    },
                    None => {},
                }
            }
            i = i + 1;
        }
    }
    assert(t.subrange(n as int, n as int) =~= Seq::<char>::empty());
    assert(out@ + Seq::<char>::empty() =~= out@);
    Ok(out)
}

/// Splits `s[start..]` at each `/`.
fn split_tokens(s: &str, start: usize) -> (r: Vec<String>)
    requires
        start <= s@.len(),
    ensures
        r.deep_view() == split_slash(s@.subrange(start as int, s@.len() as int)),
{
    let n = s.unicode_len();
    let ghost t = s@.subrange(start as int, n as int);
    let mut done: Vec<String> = Vec::new();
    let mut cur = String::new();
    let mut i: usize = start;
    assert(t.subrange(0, 0) =~= Seq::<char>::empty());
    assert(done.deep_view().push(cur@) =~= seq![Seq::<char>::empty()]);
    while i < n
        invariant
            start <= i <= n,
            n == s@.len(),
            t == s@.subrange(start as int, n as int),
            split_slash(t.subrange(0, i - start)) == done.deep_view().push(cur@),
        decreases n - i,
    {
        let c = s.get_char(i);
        let ghost p = t.subrange(0, i - start + 1);
        assert(p.drop_last() =~= t.subrange(0, i - start));
        assert(p.last() == c);
        let ghost old_done = done.deep_view();
        let ghost old_cur = cur@;
        if c == '/' {
            done.push(cur);
            cur = String::new();
            assert(done.deep_view() =~= old_done.push(old_cur));
            assert(split_slash(p) =~= done.deep_view().push(cur@));
        } else {
            push_char(&mut cur, c);
            assert(split_slash(p) =~= done.deep_view().push(cur@));
        }
        i = i + 1;
    }
    assert(t.subrange(0, n - start) =~= t);
    let ghost old_done = done.deep_view();
    let ghost old_cur = cur@;
    done.push(cur);
    assert(done.deep_view() =~= old_done.push(old_cur));
    done
}

/// Parses a JSON Pointer into its unescaped tokens; the empty pointer
/// addresses the root and has none.
pub fn parse_pointer(path: &str) -> (r: Result<Vec<String>, PatchError>)
    ensures
        match r {
            Ok(tokens) => pointer_tokens(path@) == Some(tokens.deep_view()),
            Err(_) => pointer_tokens(path@) is None,
        },
{
    let n = path.unicode_len();
    if n == 0 {
        let empty: Vec<String> = Vec::new();
        assert(empty.deep_view() =~= Seq::<Seq<char>>::empty());
        return Ok(empty);
    }
    if path.get_char(0) != '/' {
        return Err(PatchError::InvalidPointer);
    }
    let raw = split_tokens(path, 1);
    let ghost rt = raw_tokens(path@);
    let mut tokens: Vec<String> = Vec::new();
    let mut k: usize = 0;
    while k < raw.len()
        invariant
            k <= raw.len(),
            raw.deep_view() == rt,
            rt == raw_tokens(path@),
            tokens.len() == k,
            path@.len() > 0 && path@[0] == '/',
            forall|j: int| 0 <= j < k ==> #[trigger] unescape(rt[j]) == Some(tokens[j]@),
        decreases raw.len() - k,
    {
        assert(raw[k as int]@ == rt[k as int]);
        match unescape_json_pointer_token(raw[k].as_str()) {
            Ok(tok) => {
                tokens.push(tok);
            },
            Err(e) => {
                assert(unescape(rt[k as int]) is None);
                assert(!(forall|j: int|
                    0 <= j < raw_tokens(path@).len() ==> (#[trigger] unescape(raw_tokens(path@)[j])) is Some));
                return Err(e);
            },
        }
        k = k + 1;
    }
    assert(forall|j: int|
        0 <= j < raw_tokens(path@).len() ==> (#[trigger] unescape(raw_tokens(path@)[j])) is Some);
    assert(tokens.deep_view() =~= Seq::new(rt.len(), |j: int| unescape(rt[j])->0));
    Ok(tokens)
}

/// Reads a token as `usize::from_str` does.
pub fn parse_usize_token(token: &str) -> (r: Option<usize>)
    ensures
        r == index_value(token@),
{
    let n = token.unicode_len();
    let start: usize = if n > 0 && token.get_char(0) == '+' {
        1
    } else {
        0
    };
    let ghost d = if token@.len() > 0 && token@[0] == '+' {
        token@.subrange(1, token@.len() as int)
    } else {
        token@
    };
    assert(d =~= token@.subrange(start as int, token@.len() as int));
    match parse_decimal_u64(token, start) {
        Some(v) => {
            if v > usize::MAX as u64 {
                None
            } else {
                Some(v as usize)
            }
        },
        None => None,
    }
}

/// Reads an array index no greater than `max_len`.
pub fn parse_index(token: &str, max_len: usize) -> (r: Result<usize, PatchError>)
    ensures
        match index_value(token@) {
            Some(v) => if v <= max_len {
                r == Ok::<usize, PatchError>(v)
            } else {
                r == Err::<usize, PatchError>(PatchError::IndexOutOfBounds)
            },
            None => r == Err::<usize, PatchError>(PatchError::InvalidIndex),
        },
{
    match parse_usize_token(token) {
        Some(index) => {
            if index > max_len {
                Err(PatchError::IndexOutOfBounds)
            } else {
                Ok(index)
            }
        },
        None => Err(PatchError::InvalidIndex),
    }
}

} // verus!
