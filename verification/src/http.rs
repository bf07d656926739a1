//! The request reader: a raw buffer is split into whitespace-delimited
//! tokens; the second token is the path, the path's third `/`-delimited
//! segment is the resource ID, and everything after the first blank line
//! (`\r\n\r\n`) is the body.
use vstd::prelude::*;

verus! {

pub open spec fn is_space(b: u8) -> bool {
    b == 32 || b == 9 || b == 13 || b == 10
}

/// First position at or after `i` holding whitespace, or the end.
pub open spec fn sp_tok_end(s: Seq<u8>, i: int) -> int
    decreases s.len() - i
    when 0 <= i <= s.len()
{
    if i < s.len() && !is_space(s[i]) {
        sp_tok_end(s, i + 1)
    } else {
        i
    }
}

/// First position at or after `i` holding no whitespace, or the end.
pub open spec fn sp_ws(s: Seq<u8>, i: int) -> int
    decreases s.len() - i
    when 0 <= i <= s.len()
{
    if i < s.len() && is_space(s[i]) {
        sp_ws(s, i + 1)
    } else {
        i
    }
}

/// The path: the second whitespace-delimited token of the buffer.
pub open spec fn sp_path(s: Seq<u8>) -> Seq<u8> {
    let a = sp_tok_end(s, 0);
    let b = sp_ws(s, a);
    let c = sp_tok_end(s, b);
    s.subrange(b, c)
}

/// First position at or after `i` holding `b`, or the end.
pub open spec fn sp_find(s: Seq<u8>, i: int, b: u8) -> int
    decreases s.len() - i
    when 0 <= i <= s.len()
{
    if i < s.len() {
        if s[i] == b {
            i
        } else {
            sp_find(s, i + 1, b)
        }
    } else {
        i
    }
}

/// The third `/`-delimited segment of the path (index 2 when splitting on
/// `/`), or empty when the path has fewer than two slashes.
pub open spec fn sp_id_of_path(p: Seq<u8>) -> Seq<u8> {
    let a = sp_find(p, 0, 47);
    if a < p.len() {
        let b = sp_find(p, a + 1, 47);
        if b < p.len() {
            let c = sp_find(p, b + 1, 47);
            p.subrange(b + 1, c)
        } else {
            Seq::empty()
        }
    } else {
        Seq::empty()
    }
}

/// The ID segment of a raw request buffer.
pub open spec fn sp_id(s: Seq<u8>) -> Seq<u8> {
    sp_id_of_path(sp_path(s))
}

/// Everything after the first `\r\n\r\n`, or empty when there is none.
pub open spec fn sp_blank(s: Seq<u8>, i: int) -> int
    decreases s.len() - i
    when 0 <= i
{
    if i + 4 <= s.len() {
        if s[i] == 13 && s[i + 1] == 10 && s[i + 2] == 13 && s[i + 3] == 10 {
            i
        } else {
            sp_blank(s, i + 1)
        }
    } else {
        s.len() as int
    }
}

pub open spec fn sp_body(s: Seq<u8>) -> Seq<u8> {
    let i = sp_blank(s, 0);
    if i + 4 <= s.len() {
        s.subrange(i + 4, s.len() as int)
    } else {
        Seq::empty()
    }
}

/// Does `s` start with `p`?
pub open spec fn sp_starts(s: Seq<u8>, p: Seq<u8>) -> bool {
    p.len() <= s.len() && s.subrange(0, p.len() as int) == p
}

fn tok_end(s: &Vec<u8>, i: usize) -> (j: usize)
    requires
        i <= s.len(),
    ensures
        j == sp_tok_end(s@, i as int),
        i <= j <= s.len(),
{
    let n = s.len();
    let mut j = i;
    loop
        invariant
            i <= j <= n,
            n == s.len(),
            sp_tok_end(s@, i as int) == sp_tok_end(s@, j as int),
        decreases n - j,
    {
        if j < n && !(s[j] == 32 || s[j] == 9 || s[j] == 13 || s[j] == 10) {
            j = j + 1;
        } else {
            return j;
        }
    }
}

pub fn skip_ws(s: &Vec<u8>, i: usize) -> (j: usize)
    requires
        i <= s.len(),
    ensures
        j == sp_ws(s@, i as int),
        i <= j <= s.len(),
{
    let n = s.len();
    let mut j = i;
    loop
        invariant
            i <= j <= n,
            n == s.len(),
            sp_ws(s@, i as int) == sp_ws(s@, j as int),
        decreases n - j,
    {
        if j < n && (s[j] == 32 || s[j] == 9 || s[j] == 13 || s[j] == 10) {
            j = j + 1;
        } else {
            return j;
        }
    }
}

fn find_byte(s: &Vec<u8>, i: usize, b: u8) -> (j: usize)
    requires
        i <= s.len(),
    ensures
        j == sp_find(s@, i as int, b),
        i <= j <= s.len(),
{
    let n = s.len();
    let mut j = i;
    loop
        invariant
            i <= j <= n,
            n == s.len(),
            sp_find(s@, i as int, b) == sp_find(s@, j as int, b),
        decreases n - j,
    {
        if j < n {
            if s[j] == b {
                return j;
            } else {
                j = j + 1;
            }
        } else {
            return j;
        }
    }
}

fn copy_range(s: &Vec<u8>, from: usize, to: usize) -> (r: Vec<u8>)
    requires
        from <= to <= s.len(),
    ensures
        r@ == s@.subrange(from as int, to as int),
{
    let mut out: Vec<u8> = Vec::new();
    let mut k = from;
    while k < to
        invariant
            from <= k <= to <= s.len(),
            out@ == s@.subrange(from as int, k as int),
        decreases to - k,
    {
        out.push(s[k]);
        assert(out@ =~= s@.subrange(from as int, k as int + 1));
        k = k + 1;
    }
    out
}

/// The path token of the request.
pub fn extract_path(s: &Vec<u8>) -> (p: Vec<u8>)
    ensures
        p@ == sp_path(s@),
{
    let a = tok_end(s, 0);
    let b = skip_ws(s, a);
    let c = tok_end(s, b);
    copy_range(s, b, c)
}

/// The ID segment of the request: the third `/`-delimited piece of its path.
pub fn get_id(s: &Vec<u8>) -> (r: Vec<u8>)
    ensures
        r@ == sp_id(s@),
{
    let p = extract_path(s);
    let n = p.len();
    let a = find_byte(&p, 0, 47);
    if a < n {
        let b = find_byte(&p, a + 1, 47);
        if b < n {
            let c = find_byte(&p, b + 1, 47);
            copy_range(&p, b + 1, c)
        } else {
            Vec::new()
        }
    } else {
        Vec::new()
    }
}

/// The request body: what follows the first blank line.
pub fn body_of(s: &Vec<u8>) -> (r: Vec<u8>)
    ensures
        r@ == sp_body(s@),
{
    let n = s.len();
    let mut i: usize = 0;
    loop
        invariant
            0 <= i <= n,
            n == s.len(),
            sp_blank(s@, 0) == sp_blank(s@, i as int),
        decreases n - i,
    {
        if n - i >= 4 {
            if s[i] == 13 && s[i + 1] == 10 && s[i + 2] == 13 && s[i + 3] == 10 {
                return copy_range(s, i + 4, n);
            } else {
                i = i + 1;
            }
        } else {
            assert(sp_blank(s@, i as int) == s@.len() as int);
            return Vec::new();
        }
    }
}

/// Does the buffer start with the given prefix?
pub fn starts_with(s: &Vec<u8>, p: &Vec<u8>) -> (r: bool)
    ensures
        r == sp_starts(s@, p@),
{
    let np = p.len();
    if np > s.len() {
        return false;
    }
    let mut k: usize = 0;
    while k < np
        invariant
            0 <= k <= np <= s.len(),
            np == p.len(),
            forall|t: int| 0 <= t < k ==> s@[t] == p@[t],
        decreases np - k,
    {
        if s[k] != p[k] {
            assert(s@.subrange(0, np as int)[k as int] != p@[k as int]);
            return false;
        }
        k = k + 1;
    }
    assert(s@.subrange(0, np as int) =~= p@);
    true
}

} // verus!
