//! The JSON codec for user records, written against the dialect this
//! service accepts: an object with `name` and `email` string members (and
//! optionally `id`, an integer or `null`), in any order, without repeats or
//! unknown members. Strings take the short escapes (`\"`, `\\`, `\/`, `\b`,
//! `\f`, `\n`, `\r`, `\t`); the encoder emits `\u00..` for other control
//! bytes and passes everything else through.
use vstd::prelude::*;
use vstd::string::StrSliceExecFns;
use vstd::string::StringSliceAdditionalSpecFns;
use crate::http::sp_ws;
use crate::http::skip_ws;
use crate::num::is_digit;
use crate::num::sp_digits;
use crate::num::run_digits;
use crate::num::sp_dec_int;
use crate::num::dec_i32_push;
use crate::store::Row;
use crate::store::RowV;
use crate::store::rows_v;

verus! {

/// A user as carried in request bodies: `id` is absent unless the client
/// sent one.
pub struct User {
    pub id: Option<i32>,
    pub name: Vec<u8>,
    pub email: Vec<u8>,
}

pub ghost struct UserV {
    pub id: Option<i32>,
    pub name: Seq<u8>,
    pub email: Seq<u8>,
}

impl View for User {
    type V = UserV;

    open spec fn view(&self) -> UserV {
        UserV { id: self.id, name: self.name@, email: self.email@ }
    }
}

// ---------------------------------------------------------------------------
// Encoding
// ---------------------------------------------------------------------------
pub open spec fn sp_hex_digit(d: int) -> u8 {
    if d < 10 {
        (48 + d) as u8
    } else {
        (87 + d) as u8
    }
}

/// How one byte of a string value is written inside a JSON string.
pub open spec fn sp_esc_byte(b: u8) -> Seq<u8> {
    if b == 34 {
        seq![92u8, 34u8]
    } else if b == 92 {
        seq![92u8, 92u8]
    } else if b == 8 {
        seq![92u8, 98u8]
    } else if b == 12 {
        seq![92u8, 102u8]
    } else if b == 10 {
        seq![92u8, 110u8]
    } else if b == 13 {
        seq![92u8, 114u8]
    } else if b == 9 {
        seq![92u8, 116u8]
    } else if b < 32 {
        seq![92u8, 117u8, 48u8, 48u8, sp_hex_digit(b as int / 16), sp_hex_digit(b as int % 16)]
    } else {
        seq![b]
    }
}

pub open spec fn sp_esc(s: Seq<u8>) -> Seq<u8>
    decreases s.len(),
{
    if s.len() == 0 {
        Seq::empty()
    } else {
        sp_esc(s.drop_last()) + sp_esc_byte(s.last())
    }
}

fn esc_push_byte(b: u8, out: &mut Vec<u8>)
    ensures
        final(out)@ == old(out)@ + sp_esc_byte(b),
{
    if b == 34 {
        out.push(92);
        out.push(34);
    } else if b == 92 {
        out.push(92);
        out.push(92);
    } else if b == 8 {
        out.push(92);
        out.push(98);
    } else if b == 12 {
        out.push(92);
        out.push(102);
    } else if b == 10 {
        out.push(92);
        out.push(110);
    } else if b == 13 {
        out.push(92);
        out.push(114);
    } else if b == 9 {
        out.push(92);
        out.push(116);
    } else if b < 32 {
        out.push(92);
        out.push(117);
        out.push(48);
        out.push(48);
        let hi = b / 16;
        let lo = b % 16;
        out.push(
            if hi < 10 {
                48 + hi
            } else {
                87 + hi
            },
        );
        out.push(
            if lo < 10 {
                48 + lo
            } else {
                87 + lo
            },
        );
    } else {
        out.push(b);
    }
    assert(out@ =~= old(out)@ + sp_esc_byte(b));
}

/// Appends the escaped form of `s` to `out`.
pub fn esc_append(s: &Vec<u8>, out: &mut Vec<u8>)
    ensures
        final(out)@ == old(out)@ + sp_esc(s@),
{
    let n = s.len();
    let mut k: usize = 0;
    proof {
        assert(s@.subrange(0, 0) =~= Seq::<u8>::empty());
        assert(out@ =~= old(out)@ + sp_esc(s@.subrange(0, 0)));
    }
    while k < n
        invariant
            0 <= k <= n,
            n == s.len(),
            out@ == old(out)@ + sp_esc(s@.subrange(0, k as int)),
        decreases n - k,
    {
        let ghost pre = s@.subrange(0, k as int);
        let ghost post = s@.subrange(0, k as int + 1);
        esc_push_byte(s[k], out);
        proof {
            assert(post.drop_last() =~= pre);
            assert(post.last() == s@[k as int]);
            assert(out@ =~= old(out)@ + sp_esc(post));
        }
        k = k + 1;
    }
    proof {
        assert(s@.subrange(0, n as int) =~= s@);
    }
}

/// The JSON object written for one stored row.
pub open spec fn sp_enc_row(r: RowV) -> Seq<u8> {
    "{\"id\":".spec_bytes() + sp_dec_int(r.id) + ",\"name\":\"".spec_bytes() + sp_esc(r.name)
        + "\",\"email\":\"".spec_bytes() + sp_esc(r.email) + "\"}".spec_bytes()
}

/// The rows joined with commas, without the surrounding brackets.
pub open spec fn sp_enc_list(rs: Seq<RowV>) -> Seq<u8>
    decreases rs.len(),
{
    if rs.len() == 0 {
        Seq::empty()
    } else if rs.len() == 1 {
        sp_enc_row(rs[0])
    } else {
        sp_enc_list(rs.drop_last()) + seq![44u8] + sp_enc_row(rs.last())
    }
}

/// The JSON array written for the whole table.
pub open spec fn sp_enc_rows(rs: Seq<RowV>) -> Seq<u8> {
    seq![91u8] + sp_enc_list(rs) + seq![93u8]
}

fn enc_row_push(row: &Row, out: &mut Vec<u8>)
    ensures
        final(out)@ == old(out)@ + sp_enc_row(row@),
{
    let mut p1 = "{\"id\":".as_bytes_vec();
    out.append(&mut p1);
    dec_i32_push(row.id, out);
    let mut p2 = ",\"name\":\"".as_bytes_vec();
    out.append(&mut p2);
    esc_append(&row.name, out);
    let mut p3 = "\",\"email\":\"".as_bytes_vec();
    out.append(&mut p3);
    esc_append(&row.email, out);
    let mut p4 = "\"}".as_bytes_vec();
    out.append(&mut p4);
    assert(out@ =~= old(out)@ + sp_enc_row(row@));
}

/// Encodes one row as a JSON object.
pub fn encode_row(row: &Row) -> (r: Vec<u8>)
    ensures
        r@ == sp_enc_row(row@),
{
    let mut out: Vec<u8> = Vec::new();
    enc_row_push(row, &mut out);
    out
}

/// Encodes the rows as a JSON array, in order.
pub fn encode_rows(rows: &Vec<Row>) -> (r: Vec<u8>)
    ensures
        r@ == sp_enc_rows(rows_v(rows@)),
{
    let ghost rv = rows_v(rows@);
    let mut out: Vec<u8> = Vec::new();
    out.push(91);
    proof {
        assert(rv.subrange(0, 0) =~= Seq::<RowV>::empty());
        assert(out@ =~= seq![91u8] + sp_enc_list(rv.subrange(0, 0)));
    }
    let n = rows.len();
    let mut k: usize = 0;
    while k < n
        invariant
            0 <= k <= n,
            n == rows.len(),
            rv == rows_v(rows@),
            rv.len() == n,
            out@ == seq![91u8] + sp_enc_list(rv.subrange(0, k as int)),
        decreases n - k,
    {
        let ghost pre = rv.subrange(0, k as int);
        let ghost post = rv.subrange(0, k as int + 1);
        if k > 0 {
            out.push(44);
        }
        enc_row_push(&rows[k], &mut out);
        proof {
            assert(post.drop_last() =~= pre);
            assert(post.last() == rv[k as int]);
            assert(rv[k as int] == rows@[k as int]@);
            if k == 0 {
                assert(sp_enc_list(post) == sp_enc_row(post[0]));
                assert(out@ =~= seq![91u8] + sp_enc_list(post));
            } else {
                assert(sp_enc_list(post) == sp_enc_list(pre) + seq![44u8] + sp_enc_row(post.last()));
                assert(out@ =~= seq![91u8] + sp_enc_list(post));
            }
        }
        k = k + 1;
    }
    out.push(93);
    proof {
        assert(rv.subrange(0, n as int) =~= rv);
        assert(out@ =~= sp_enc_rows(rv));
    }
    out
}

// ---------------------------------------------------------------------------
// Parsing
// ---------------------------------------------------------------------------
/// What a one-byte escape stands for, or `None` when it is not accepted.
pub open spec fn sp_unescape(b: u8) -> Option<u8> {
    if b == 34 {
        Some(34u8)
    } else if b == 92 {
        Some(92u8)
    } else if b == 47 {
        Some(47u8)
    } else if b == 98 {
        Some(8u8)
    } else if b == 102 {
        Some(12u8)
    } else if b == 110 {
        Some(10u8)
    } else if b == 114 {
        Some(13u8)
    } else if b == 116 {
        Some(9u8)
    } else {
        None
    }
}

/// The characters of a string value from position `i` (after the opening
/// quote) up to its closing quote, appended to `acc`; `None` on an open
/// string, an unknown escape, or a control byte.
pub open spec fn sp_str_chars(s: Seq<u8>, i: int, acc: Seq<u8>) -> Option<(int, Seq<u8>)>
    decreases s.len() - i
    when 0 <= i <= s.len()
{
    if i >= s.len() {
        None
    } else if s[i] == 34 {
        Some((i + 1, acc))
    } else if s[i] == 92 {
        if i + 1 < s.len() {
            match sp_unescape(s[i + 1]) {
                Some(c) => sp_str_chars(s, i + 2, acc.push(c)),
                None => None,
            }
        } else {
            None
        }
    } else if s[i] >= 32 {
        sp_str_chars(s, i + 1, acc.push(s[i]))
    } else {
        None
    }
}

/// A string value starting with its opening quote at `i`.
pub open spec fn sp_string(s: Seq<u8>, i: int) -> Option<(int, Seq<u8>)> {
    if 0 <= i < s.len() && s[i] == 34 {
        sp_str_chars(s, i + 1, Seq::empty())
    } else {
        None
    }
}

fn unescape_byte(b: u8) -> (r: Option<u8>)
    ensures
        r == sp_unescape(b),
{
    if b == 34 {
        Some(34)
    } else if b == 92 {
        Some(92)
    } else if b == 47 {
        Some(47)
    } else if b == 98 {
        Some(8)
    } else if b == 102 {
        Some(12)
    } else if b == 110 {
        Some(10)
    } else if b == 114 {
        Some(13)
    } else if b == 116 {
        Some(9)
    } else {
        None
    }
}

fn parse_string(s: &Vec<u8>, i: usize) -> (r: Option<(usize, Vec<u8>)>)
    requires
        i <= s.len(),
    ensures
        match r {
            Some(jv) => sp_string(s@, i as int) == Some((jv.0 as int, jv.1@)) && i + 2 <= jv.0
                <= s.len(),
            None => sp_string(s@, i as int) is None,
        },
{
    let n = s.len();
    if !(i < n && s[i] == 34) {
        return None;
    }
    let mut j = i + 1;
    let mut acc: Vec<u8> = Vec::new();
    loop
        invariant
            i + 1 <= j <= n,
            n == s.len(),
            i < n,
            s@[i as int] == 34,
            sp_str_chars(s@, i as int + 1, Seq::empty()) == sp_str_chars(s@, j as int, acc@),
        decreases n - j,
    {
        if j >= n {
            return None;
        }
        let b = s[j];
        if b == 34 {
            assert(sp_str_chars(s@, j as int, acc@) == Some((j as int + 1, acc@)));
            return Some((j + 1, acc));
        } else if b == 92 {
            if j + 1 >= n {
                return None;
            }
            let e = s[j + 1];
            match unescape_byte(e) {
                None => {
                    return None;
                },
                Some(c) => {
                    let ghost prev = acc@;
                    acc.push(c);
                    proof {
                        assert(sp_str_chars(s@, j as int, prev) == sp_str_chars(
                            s@,
                            j as int + 2,
                            prev.push(c),
                        ));
                    }
                    j = j + 2;
                },
            }
        } else if b >= 32 {
            let ghost prev = acc@;
            acc.push(b);
            proof {
                assert(sp_str_chars(s@, j as int, prev) == sp_str_chars(
                    s@,
                    j as int + 1,
                    prev.push(b),
                ));
            }
            j = j + 1;
        } else {
            return None;
        }
    }
}

/// A JSON integer at position `i`: an optional minus sign, digits without a
/// leading zero, in `i32` range.
pub open spec fn sp_json_int(s: Seq<u8>, i: int) -> Option<(int, i32)> {
    let st: int = if i < s.len() && s[i] == 45 {
        i + 1
    } else {
        i
    };
    let neg: bool = i < s.len() && s[i] == 45;
    if st < s.len() && is_digit(s[st]) {
        match sp_digits(s, st, 0) {
            Some((end, v)) => if end - st > 1 && s[st] == 48 {
                None
            } else if neg {
                if v <= 2147483648 {
                    Some((end, (-v) as i32))
                } else {
                    None
                }
            } else {
                if v <= 2147483647 {
                    Some((end, v as i32))
                } else {
                    None
                }
            },
            None => None,
        }
    } else {
        None
    }
}

fn parse_json_int(s: &Vec<u8>, i: usize) -> (r: Option<(usize, i32)>)
    requires
        i <= s.len(),
    ensures
        match r {
            Some(w) => sp_json_int(s@, i as int) == Some((w.0 as int, w.1)) && i < w.0 <= s.len(),
            None => sp_json_int(s@, i as int) is None,
        },
{
    let n = s.len();
    let mut st = i;
    let mut neg = false;
    if i < n && s[i] == 45 {
        st = i + 1;
        neg = true;
    }
    if !(st < n && 48 <= s[st] && s[st] <= 57) {
        return None;
    }
    match run_digits(s, st) {
        None => None,
        Some((end, v)) => {
            proof {
                crate::num::lemma_digits_advances(s@, st as int);
            }
            if end - st > 1 && s[st] == 48 {
                None
            } else if neg {
                if v <= 2147483648 {
                    Some((end, (-v) as i32))
                } else {
                    None
                }
            } else {
                if v <= 2147483647 {
                    Some((end, v as i32))
                } else {
                    None
                }
            }
        },
    }
}

/// The members gathered while reading an object: which keys were seen and
/// what they held.
pub ghost struct FieldsV {
    pub name: Option<Seq<u8>>,
    pub email: Option<Seq<u8>>,
    pub id: Option<i32>,
    pub id_seen: bool,
}

pub open spec fn name_key() -> Seq<u8> {
    "name".spec_bytes()
}

pub open spec fn email_key() -> Seq<u8> {
    "email".spec_bytes()
}

pub open spec fn id_key() -> Seq<u8> {
    "id".spec_bytes()
}

/// Is the four-byte word `null` at position `v`?
pub open spec fn sp_null_at(s: Seq<u8>, v: int) -> bool {
    &&& v + 4 <= s.len()
    &&& s[v] == 110
    &&& s[v + 1] == 117
    &&& s[v + 2] == 108
    &&& s[v + 3] == 108
}

/// One member value at position `v` under the given key, folded into the
/// fields; repeated or unknown keys are refused.
pub open spec fn sp_member_val(s: Seq<u8>, v: int, key: Seq<u8>, f: FieldsV) -> Option<
    (int, FieldsV),
> {
    if key == name_key() {
        if f.name is Some {
            None
        } else {
            match sp_string(s, v) {
                Some((w, val)) => Some(
                    (w, FieldsV { name: Some(val), email: f.email, id: f.id, id_seen: f.id_seen }),
                ),
                None => None,
            }
        }
    } else if key == email_key() {
        if f.email is Some {
            None
        } else {
            match sp_string(s, v) {
                Some((w, val)) => Some(
                    (w, FieldsV { name: f.name, email: Some(val), id: f.id, id_seen: f.id_seen }),
                ),
                None => None,
            }
        }
    } else if key == id_key() {
        if f.id_seen {
            None
        } else if sp_null_at(s, v) {
            Some((v + 4, FieldsV { name: f.name, email: f.email, id: None, id_seen: true }))
        } else {
            match sp_json_int(s, v) {
                Some((w, num)) => Some(
                    (w, FieldsV { name: f.name, email: f.email, id: Some(num), id_seen: true }),
                ),
                None => None,
            }
        }
    } else {
        None
    }
}

/// The members of an object from position `i` (at the first key) up to and
/// past the closing brace.
pub open spec fn sp_members(s: Seq<u8>, i: int, f: FieldsV) -> Option<(int, FieldsV)>
    decreases s.len() - i
    when 0 <= i <= s.len()
{
    match sp_string(s, i) {
        None => None,
        Some((j, key)) => {
            let c = sp_ws(s, j);
            if c < s.len() && s[c] == 58 {
                let v = sp_ws(s, c + 1);
                match sp_member_val(s, v, key, f) {
                    None => None,
                    Some((w, f2)) => {
                        let e = sp_ws(s, w);
                        if e < s.len() && s[e] == 44 {
                            let nxt = sp_ws(s, e + 1);
                            if i < nxt && nxt <= s.len() {
                                sp_members(s, nxt, f2)
                            } else {
                                None
                            }
                        } else if e < s.len() && s[e] == 125 {
                            Some((e + 1, f2))
                        } else {
                            None
                        }
                    },
                }
            } else {
                None
            }
        },
    }
}

/// What the whole body decodes to: the accepted user object, or nothing.
pub open spec fn sp_user(s: Seq<u8>) -> Option<UserV> {
    let i = sp_ws(s, 0);
    if i < s.len() && s[i] == 123 {
        let j = sp_ws(s, i + 1);
        match sp_members(s, j, FieldsV { name: None, email: None, id: None, id_seen: false }) {
            Some((k, f)) => {
                let e = sp_ws(s, k);
                if e == s.len() {
                    match (f.name, f.email) {
                        (Some(nm), Some(em)) => Some(UserV { id: f.id, name: nm, email: em }),
                        _ => None,
                    }
                } else {
                    None
                }
            },
            None => None,
        }
    } else {
        None
    }
}

pub open spec fn ov(o: Option<Vec<u8>>) -> Option<Seq<u8>> {
    match o {
        Some(v) => Some(v@),
        None => None,
    }
}

fn vec_eq(a: &Vec<u8>, b: &Vec<u8>) -> (r: bool)
    ensures
        r == (a@ == b@),
{
    let n = a.len();
    if n != b.len() {
        assert(a@ != b@);
        return false;
    }
    let mut k: usize = 0;
    while k < n
        invariant
            0 <= k <= n,
            n == a.len() && n == b.len(),
            forall|t: int| 0 <= t < k ==> a@[t] == b@[t],
        decreases n - k,
    {
        if a[k] != b[k] {
            return false;
        }
        k = k + 1;
    }
    assert(a@ =~= b@);
    true
}

/// Decodes a request body into a user record, when the body is an object of
/// this dialect holding `name` and `email`.
pub fn parse_user(s: &Vec<u8>) -> (r: Option<User>)
    ensures
        match r {
            Some(u) => sp_user(s@) == Some(UserV { id: u.id, name: u.name@, email: u.email@ }),
            None => sp_user(s@) is None,
        },
{
    let n = s.len();
    let i0 = skip_ws(s, 0);
    if !(i0 < n && s[i0] == 123) {
        return None;
    }
    let start = skip_ws(s, i0 + 1);
    let ghost f0 = FieldsV { name: None, email: None, id: None, id_seen: false };
    let mut pos = start;
    let mut fname: Option<Vec<u8>> = None;
    let mut femail: Option<Vec<u8>> = None;
    let mut fid: Option<i32> = None;
    let mut fid_seen = false;
    loop
        invariant
            pos <= n,
            n == s.len(),
            i0 == sp_ws(s@, 0),
            i0 < n,
            s@[i0 as int] == 123,
            start == sp_ws(s@, i0 as int + 1),
            f0 == (FieldsV { name: None, email: None, id: None, id_seen: false }),
            sp_members(s@, start as int, f0) == sp_members(
                s@,
                pos as int,
                FieldsV { name: ov(fname), email: ov(femail), id: fid, id_seen: fid_seen },
            ),
        decreases n - pos,
    {
        let ghost cur = FieldsV { name: ov(fname), email: ov(femail), id: fid, id_seen: fid_seen };
        match parse_string(s, pos) {
            None => {
                assert(sp_members(s@, pos as int, cur) is None);
                assert(sp_user(s@) is None);
                return None;
            },
            Some((j, key)) => {
                let c = skip_ws(s, j);
                if !(c < n && s[c] == 58) {
                    assert(sp_members(s@, pos as int, cur) is None);
                    assert(sp_user(s@) is None);
                    return None;
                }
                let v = skip_ws(s, c + 1);
                let name_lit = "name".as_bytes_vec();
                let email_lit = "email".as_bytes_vec();
                let id_lit = "id".as_bytes_vec();
                let after: usize;
                if vec_eq(&key, &name_lit) {
                    if fname.is_some() {
                        assert(sp_member_val(s@, v as int, key@, cur) is None);
                        assert(sp_members(s@, pos as int, cur) is None);
                        assert(sp_user(s@) is None);
                        return None;
                    }
                    match parse_string(s, v) {
                        None => {
                            assert(sp_member_val(s@, v as int, key@, cur) is None);
                            assert(sp_members(s@, pos as int, cur) is None);
                            assert(sp_user(s@) is None);
                            return None;
                        },
                        Some((w, val)) => {
                            fname = Some(val);
                            after = w;
                        },
                    }
                } else if vec_eq(&key, &email_lit) {
                    if femail.is_some() {
                        assert(sp_member_val(s@, v as int, key@, cur) is None);
                        assert(sp_members(s@, pos as int, cur) is None);
                        assert(sp_user(s@) is None);
                        return None;
                    }
                    match parse_string(s, v) {
                        None => {
                            assert(sp_member_val(s@, v as int, key@, cur) is None);
                            assert(sp_members(s@, pos as int, cur) is None);
                            assert(sp_user(s@) is None);
                            return None;
                        },
                        Some((w, val)) => {
                            femail = Some(val);
                            after = w;
                        },
                    }
                } else if vec_eq(&key, &id_lit) {
                    if fid_seen {
                        assert(sp_member_val(s@, v as int, key@, cur) is None);
                        assert(sp_members(s@, pos as int, cur) is None);
                        assert(sp_user(s@) is None);
                        return None;
                    }
                    if n - v >= 4 && s[v] == 110 && s[v + 1] == 117 && s[v + 2] == 108 && s[v + 3]
                        == 108 {
                        fid = None;
                        fid_seen = true;
                        after = v + 4;
                        assert(sp_null_at(s@, v as int));
                    } else {
                        assert(!sp_null_at(s@, v as int));
                        match parse_json_int(s, v) {
                            None => {
                                assert(sp_member_val(s@, v as int, key@, cur) is None);
                                assert(sp_members(s@, pos as int, cur) is None);
                                assert(sp_user(s@) is None);
                                return None;
                            },
                            Some((w, num)) => {
                                fid = Some(num);
                                fid_seen = true;
                                after = w;
                            },
                        }
                    }
                } else {
                    assert(sp_member_val(s@, v as int, key@, cur) is None);
                    assert(sp_members(s@, pos as int, cur) is None);
                    assert(sp_user(s@) is None);
                    return None;
                }
                let ghost cur2 = FieldsV {
                    name: ov(fname),
                    email: ov(femail),
                    id: fid,
                    id_seen: fid_seen,
                };
                proof {
                    assert(sp_member_val(s@, v as int, key@, cur) == Some((after as int, cur2)));
                }
                let e = skip_ws(s, after);
                if e < n && s[e] == 44 {
                    let nxt = skip_ws(s, e + 1);
                    proof {
                        assert(pos < nxt <= n);
                        assert(sp_members(s@, pos as int, cur) == sp_members(s@, nxt as int, cur2));
                    }
                    pos = nxt;
                } else if e < n && s[e] == 125 {
                    proof {
                        assert(sp_members(s@, pos as int, cur) == Some((e as int + 1, cur2)));
                    }
                    let fin = skip_ws(s, e + 1);
                    if fin != n {
                        assert(sp_user(s@) is None);
                        return None;
                    }
                    match (fname, femail) {
                        (Some(nm), Some(em)) => {
                            let ghost nmv = nm@;
                            let ghost emv = em@;
                            let u = User { id: fid, name: nm, email: em };
                            proof {
                                assert(sp_user(s@) == Some(UserV { id: fid, name: nmv, email: emv }));
                            }
                            return Some(u);
                        },
                        _ => {
                            assert(sp_user(s@) is None);
                            return None;
                        },
                    }
                } else {
                    assert(sp_members(s@, pos as int, cur) is None);
                    assert(sp_user(s@) is None);
                    return None;
                }
            },
        }
    }
}

} // verus!
