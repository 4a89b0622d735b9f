//! Text utilities: decimal rendering, UTF-8 decoding, comma-separated lists.

use vstd::prelude::*;
use vstd::string::StrSliceExecFns;
use vstd::string::StringExecFns;
use vstd::utf8::decode_utf8;
use vstd::utf8::encode_utf8;
use vstd::utf8::valid_utf8;
use crate::bytes_util::lex_le;

verus! {

/// The character for one decimal digit.
pub open spec fn digit_char(d: nat) -> char {
    (48 + d) as char
}

/// The decimal digits of `n`, most significant first, without leading zeros.
pub open spec fn dec_str(n: nat) -> Seq<char>
    decreases n,
{
    if n < 10 {
        seq![digit_char(n)]
    } else {
        dec_str(n / 10) + seq![digit_char(n % 10)]
    }
}

fn digit_literal(d: u64) -> (r: &'static str)
    requires
        d < 10,
    ensures
        r@ == seq![digit_char(d as nat)],
{
    let r = if d == 0 {
        "0"
    } else if d == 1 {
        "1"
    } else if d == 2 {
        "2"
    } else if d == 3 {
        "3"
    } else if d == 4 {
        "4"
    } else if d == 5 {
        "5"
    } else if d == 6 {
        "6"
    } else if d == 7 {
        "7"
    } else if d == 8 {
        "8"
    } else {
        "9"
    };
    proof {
        reveal_strlit("0");
        reveal_strlit("1");
        reveal_strlit("2");
        reveal_strlit("3");
        reveal_strlit("4");
        reveal_strlit("5");
        reveal_strlit("6");
        reveal_strlit("7");
        reveal_strlit("8");
        reveal_strlit("9");
        assert(r@ =~= seq![digit_char(d as nat)]);
    }
    r
}

/// Renders `n` in decimal.
pub fn u64_to_string(n: u64) -> (r: String)
    ensures
        r@ == dec_str(n as nat),
    decreases n,
{
    if n < 10 {
        String::from_str(digit_literal(n))
    } else {
        let mut s = u64_to_string(n / 10);
        s.append(digit_literal(n % 10));
        s
    }
}

/// Renders `n` in decimal.
pub fn usize_to_string(n: usize) -> (r: String)
    ensures
        r@ == dec_str(n as nat),
{
    u64_to_string(n as u64)
}

/// Relies on std's `String::from_utf8`: it succeeds exactly on valid UTF-8
/// and then decodes the bytes; on failure, `valid_up_to` is an index up to
/// which the input was verified valid, and `error_len` is the length of the
/// offending byte sequence, or `None` when the input ended in the middle of
/// a character.
#[verifier::external_body]
pub fn string_from_utf8(bytes: Vec<u8>) -> (r: Result<String, (usize, Option<usize>)>)
    ensures
        r is Ok <==> valid_utf8(bytes@),
        (r matches Ok(s) ==> s@ == decode_utf8(bytes@)),
        (r matches Err(e) ==> e.0 <= bytes@.len() && valid_utf8(bytes@.take(e.0 as int)) && (
        e.1 matches Some(l) ==> 1 <= l <= 3 && e.0 + l <= bytes@.len())),
{
    match String::from_utf8(bytes) {
        Ok(s) => Ok(s),
        Err(e) => {
            let u = e.utf8_error();
            Err((u.valid_up_to(), u.error_len()))
        },
    }
}

/// What std's `String::from_utf8_lossy` returns: a function of the bytes alone.
pub uninterp spec fn lossy_of(bytes: Seq<u8>) -> Seq<char>;

/// Relies on std's `String::from_utf8_lossy`: the result depends on the bytes
/// alone, and valid UTF-8 decodes unchanged.
#[verifier::external_body]
pub fn lossy_string(bytes: &Vec<u8>) -> (r: String)
    ensures
        r@ == lossy_of(bytes@),
        valid_utf8(bytes@) ==> r@ == decode_utf8(bytes@),
{
    String::from_utf8_lossy(bytes.as_slice()).into_owned()
}

/// The UTF-8 bytes of a string, as an owned vector.
pub fn string_bytes(s: &str) -> (r: Vec<u8>)
    ensures
        r@ == encode_utf8(s@),
{
    s.as_bytes_vec()
}

/// String order: lexicographic order of the UTF-8 encodings, which is how
/// std orders `str` values.
pub open spec fn str_le(a: Seq<char>, b: Seq<char>) -> bool {
    lex_le(encode_utf8(a), encode_utf8(b))
}

/// Whether `a` comes no later than `b` in string order.
pub fn string_le(a: &String, b: &String) -> (r: bool)
    ensures
        r == str_le(a@, b@),
{
    let ab = string_bytes(a.as_str());
    let bb = string_bytes(b.as_str());
    crate::bytes_util::bytes_le(&ab, &bb)
}

/// Strict string order: lexicographic order of the UTF-8 encodings.
pub open spec fn str_lt(a: Seq<char>, b: Seq<char>) -> bool {
    crate::bytes_util::lex_lt(encode_utf8(a), encode_utf8(b))
}

/// Whether `a` comes strictly before `b` in string order.
pub fn string_lt(a: &String, b: &String) -> (r: bool)
    ensures
        r == str_lt(a@, b@),
{
    let ab = string_bytes(a.as_str());
    let bb = string_bytes(b.as_str());
    crate::bytes_util::bytes_lt(&ab, &bb)
}

/// Two strings out of order in both directions are equal.
pub proof fn lemma_str_order_connected(a: Seq<char>, b: Seq<char>)
    requires
        !str_lt(a, b),
        !str_lt(b, a),
    ensures
        a == b,
{
    crate::bytes_util::lemma_lex_connected(encode_utf8(a), encode_utf8(b));
    vstd::utf8::encode_utf8_decode_utf8(a);
    vstd::utf8::encode_utf8_decode_utf8(b);
}

/// String order is transitive.
pub proof fn lemma_str_lt_transitive(a: Seq<char>, b: Seq<char>, c: Seq<char>)
    requires
        str_lt(a, b),
        str_lt(b, c),
    ensures
        str_lt(a, c),
{
    crate::bytes_util::lemma_lex_lt_transitive(encode_utf8(a), encode_utf8(b), encode_utf8(c));
}

/// The views of a vector of strings.
pub open spec fn string_views(v: Seq<String>) -> Seq<Seq<char>> {
    v.map_values(|s: String| s@)
}

/// Whether the strings come in strictly increasing order.
pub open spec fn sorted_strict(l: Seq<Seq<char>>) -> bool {
    forall|i: int, j: int| 0 <= i < j < l.len() ==> str_lt(#[trigger] l[i], #[trigger] l[j])
}

/// The first position in `out` whose string does not come before `x`.
fn insert_position(out: &Vec<String>, x: &String) -> (p: usize)
    ensures
        p <= out@.len(),
        forall|k: int| 0 <= k < p ==> str_lt(#[trigger] string_views(out@)[k], x@),
        p < out@.len() ==> !str_lt(string_views(out@)[p as int], x@),
{
    let m = out.len();
    let mut p: usize = 0;
    while p < m
        invariant
            m == out@.len(),
            0 <= p <= m,
            forall|k: int| 0 <= k < p ==> str_lt(#[trigger] string_views(out@)[k], x@),
        decreases m - p,
    {
        proof {
            assert(string_views(out@)[p as int] == out@[p as int]@);
        }
        if !string_lt(&out[p], x) {
            return p;
        }
        p += 1;
    }
    p
}

/// Sorts distinct strings into strictly increasing order. The result holds
/// the same strings, each once.
pub fn sort_strings(v: Vec<String>) -> (r: Vec<String>)
    requires
        forall|i: int, j: int| 0 <= i < j < v@.len() ==> (#[trigger] v@[i])@ != (#[trigger] v@[j])@,
    ensures
        r@.len() == v@.len(),
        sorted_strict(string_views(r@)),
        forall|x: Seq<char>|
            string_views(r@).contains(x) <==> string_views(v@).contains(x),
{
    let mut out: Vec<String> = Vec::new();
    let n = v.len();
    let mut i: usize = 0;
    while i < n
        invariant
            n == v@.len(),
            0 <= i <= n,
            out@.len() == i,
            forall|p: int, q: int|
                0 <= p < q < v@.len() ==> (#[trigger] v@[p])@ != (#[trigger] v@[q])@,
            sorted_strict(string_views(out@)),
            forall|x: Seq<char>|
                string_views(out@).contains(x) <==> string_views(v@.take(i as int)).contains(x),
        decreases n - i,
    {
        let x = v[i].clone();
        proof {
            assert(v@[i as int]@ == x@);
            assert forall|k: int| 0 <= k < out@.len() implies string_views(out@)[k] != x@ by {
                assert(string_views(out@).contains(string_views(out@)[k]));
                let w = choose|w: int|
                    0 <= w < i && (#[trigger] string_views(v@.take(i as int))[w]) == string_views(
                        out@,
                    )[k];
                assert(v@[w]@ == string_views(out@)[k]);
            }
        }
        let p = insert_position(&out, &x);
        proof {
            if p < out@.len() {
                assert(string_views(out@)[p as int] == out@[p as int]@);
                assert(string_views(out@).contains(string_views(out@)[p as int]));
                assert(out@[p as int]@ != x@);
                lemma_str_order_connected_unless(out@[p as int]@, x@);
            }
        }
        let ghost old_out = out@;
        out.insert(p, x);
        proof {
            let ov = string_views(old_out);
            let nv = string_views(out@);
            assert(out@ == old_out.insert(p as int, x));
            assert forall|a: int, b: int| 0 <= a < b < nv.len() implies str_lt(
                #[trigger] nv[a],
                #[trigger] nv[b],
            ) by {
                let pa = if a < p { ov[a] } else if a == p { x@ } else { ov[a - 1] };
                let pb = if b < p { ov[b] } else if b == p { x@ } else { ov[b - 1] };
                assert(nv[a] == pa);
                assert(nv[b] == pb);
                if a == p && b > p {
                    if b - 1 > p {
                        lemma_str_lt_transitive(x@, ov[p as int], ov[b - 1]);
                    }
                }
            }
            assert forall|y: Seq<char>| nv.contains(y) <==> string_views(v@.take(
                i + 1 as int,
            )).contains(y) by {
                lemma_insert_contains(old_out, p as int, x, y);
                if ov.contains(y) || y == x@ {
                    if y == x@ {
                        assert(string_views(v@.take(i + 1 as int))[i as int] == y);
                    } else {
                        let w = choose|w: int|
                            0 <= w < i && (#[trigger] string_views(v@.take(i as int))[w]) == y;
                        assert(string_views(v@.take(i + 1 as int))[w] == y);
                    }
                }
                if string_views(v@.take(i + 1 as int)).contains(y) {
                    let w = choose|w: int|
                        0 <= w < i + 1 && (#[trigger] string_views(v@.take(i + 1 as int))[w]) == y;
                    if w < i {
                        assert(string_views(v@.take(i as int))[w] == y);
                    } else {
                        assert(y == x@);
                    }
                }
            }
        }
        i += 1;
    }
    proof {
        assert(v@.take(n as int) =~= v@);
    }
    out
}

/// A pair of distinct strings is ordered one way or the other.
proof fn lemma_str_order_connected_unless(a: Seq<char>, b: Seq<char>)
    requires
        a != b,
        !str_lt(a, b),
    ensures
        str_lt(b, a),
{
    if !str_lt(b, a) {
        lemma_str_order_connected(a, b);
    }
}

/// Inserting into a string vector adds exactly that string to its contents.
proof fn lemma_insert_contains(s: Seq<String>, p: int, x: String, y: Seq<char>)
    requires
        0 <= p <= s.len(),
    ensures
        string_views(s.insert(p, x)).contains(y) <==> (string_views(s).contains(y) || y == x@),
{
    let ns = s.insert(p, x);
    let nv = string_views(ns);
    let ov = string_views(s);
    if nv.contains(y) {
        let k = choose|k: int| 0 <= k < nv.len() && nv[k] == y;
        if k < p {
            assert(ov[k] == y);
        } else if k == p {
            assert(y == x@);
        } else {
            assert(ns[k] == s[k - 1]);
            assert(ov[k - 1] == y);
        }
    }
    if ov.contains(y) {
        let k = choose|k: int| 0 <= k < ov.len() && ov[k] == y;
        if k < p {
            assert(nv[k] == y);
        } else {
            assert(ns[k + 1] == s[k]);
            assert(nv[k + 1] == y);
        }
    }
    if y == x@ {
        assert(nv[p] == y);
    }
}

/// The comma-joined rendering of a list of strings.
pub open spec fn csv_join(l: Seq<Seq<char>>) -> Seq<char>
    decreases l.len(),
{
    if l.len() == 0 {
        Seq::empty()
    } else if l.len() == 1 {
        l[0]
    } else {
        l[0] + ","@ + csv_join(l.skip(1))
    }
}

/// Joins strings with commas.
pub fn join_csv(v: &Vec<String>) -> (r: String)
    ensures
        r@ == csv_join(string_views(v@)),
{
    let r = join_csv_from(v, 0);
    proof {
        assert(string_views(v@).skip(0) =~= string_views(v@));
    }
    r
}

fn join_csv_from(v: &Vec<String>, i: usize) -> (r: String)
    requires
        i <= v@.len(),
    ensures
        r@ == csv_join(string_views(v@).skip(i as int)),
    decreases v@.len() - i,
{
    let ghost l = string_views(v@).skip(i as int);
    if i == v.len() {
        proof {
            assert(l =~= Seq::<Seq<char>>::empty());
        }
        String::new()
    } else if i + 1 == v.len() {
        proof {
            assert(l.len() == 1);
            assert(l[0] == v@[i as int]@);
        }
        v[i].clone()
    } else {
        let rest = join_csv_from(v, i + 1);
        let mut s = v[i].clone();
        s.append(",");
        s.append(rest.as_str());
        proof {
            assert(l[0] == v@[i as int]@);
            assert(l.skip(1) =~= string_views(v@).skip(i + 1 as int));
        }
        s
    }
}

/// Where the next comma is, at or after `from`; the length when none is.
pub open spec fn find_comma(s: Seq<u8>, from: int) -> int
    decreases s.len() - from,
{
    if from < 0 || from >= s.len() {
        s.len() as int
    } else if s[from] == 44 {
        from
    } else {
        find_comma(s, from + 1)
    }
}

/// The comma is at or after `from`, within the sequence.
pub proof fn lemma_find_comma_bounds(s: Seq<u8>, from: int)
    requires
        0 <= from <= s.len(),
    ensures
        from <= find_comma(s, from) <= s.len(),
    decreases s.len() - from,
{
    if from < s.len() && s[from] != 44 {
        lemma_find_comma_bounds(s, from + 1);
    }
}

/// The pieces between the commas, in order; empties kept.
pub open spec fn split_csv(s: Seq<u8>) -> Seq<Seq<u8>>
    decreases s.len(),
    via split_csv_decreases
{
    let i = find_comma(s, 0);
    if i == s.len() {
        seq![s]
    } else {
        seq![s.take(i)] + split_csv(s.skip(i + 1))
    }
}

#[via_fn]
proof fn split_csv_decreases(s: Seq<u8>) {
    lemma_find_comma_bounds(s, 0);
}

/// Splits bytes at commas.
pub fn split_csv_bytes(s: Vec<u8>) -> (r: Vec<Vec<u8>>)
    ensures
        crate::wasm::byte_views(r@) == split_csv(s@),
    decreases s@.len(),
{
    proof {
        lemma_find_comma_bounds(s@, 0);
    }
    let n = s.len();
    let mut i: usize = 0;
    while i < n && s[i] != 44
        invariant
            n == s@.len(),
            0 <= i <= n,
            find_comma(s@, 0) == find_comma(s@, i as int),
        decreases n - i,
    {
        i += 1;
    }
    proof {
        assert(find_comma(s@, 0) == i as int || (i == n && find_comma(s@, 0) == n));
    }
    if i == n {
        let mut out: Vec<Vec<u8>> = Vec::new();
        out.push(s);
        proof {
            assert(crate::wasm::byte_views(out@) =~= seq![out@[0]@]);
        }
        out
    } else {
        let head = crate::bytes_util::vec_range(&s, 0, i);
        let tail = crate::bytes_util::vec_range(&s, i + 1, n);
        proof {
            assert(head@ =~= s@.take(i as int));
            assert(tail@ =~= s@.skip(i + 1 as int));
        }
        let rest = split_csv_bytes(tail);
        let ghost rest_views = crate::wasm::byte_views(rest@);
        let mut out: Vec<Vec<u8>> = Vec::new();
        out.push(head);
        let mut rest_mut = rest;
        out.append(&mut rest_mut);
        proof {
            assert(crate::wasm::byte_views(out@) =~= seq![s@.take(i as int)] + rest_views);
        }
        out
    }
}

/// The capability set named by comma-separated pieces: empty pieces are
/// skipped, each other piece must be UTF-8 text, and a repeated name is
/// kept once. `None` means a piece was not text.
pub open spec fn parse_caps(pieces: Seq<Seq<u8>>, acc: Seq<Seq<char>>) -> Option<Seq<Seq<char>>>
    decreases pieces.len(),
{
    if pieces.len() == 0 {
        Some(acc)
    } else if pieces[0].len() == 0 {
        parse_caps(pieces.skip(1), acc)
    } else if !valid_utf8(pieces[0]) {
        None
    } else {
        let c = decode_utf8(pieces[0]);
        parse_caps(
            pieces.skip(1),
            if acc.contains(c) {
                acc
            } else {
                acc.push(c)
            },
        )
    }
}

/// Parses a comma-separated capability list from bytes.
#[verifier::loop_isolation(false)]
pub fn parse_capabilities(bytes: Vec<u8>) -> (r: Result<Vec<String>, crate::errors::RustError>)
    ensures
        (r is Ok <==> parse_caps(split_csv(bytes@), Seq::empty()) is Some),
        (r matches Ok(v) ==> Some(string_views(v@)) == parse_caps(split_csv(bytes@), Seq::empty())
            && (forall|i: int, j: int|
            0 <= i < j < v@.len() ==> (#[trigger] v@[i])@ != (#[trigger] v@[j])@)),
        (r matches Err(e) ==> e is InvalidUtf8),
{
    let ghost whole = split_csv(bytes@);
    let pieces = split_csv_bytes(bytes);
    proof {
        assert(crate::wasm::byte_views(pieces@) == whole);
    }
    let mut acc: Vec<String> = Vec::new();
    proof {
        assert(whole.skip(0) =~= whole);
        assert(string_views(acc@) =~= Seq::<Seq<char>>::empty());
    }
    let n = pieces.len();
    let mut i: usize = 0;
    while i < n
        invariant
            0 <= i <= n,
            parse_caps(whole, Seq::empty()) == parse_caps(
                whole.skip(i as int),
                string_views(acc@),
            ),
            forall|p: int, q: int|
                0 <= p < q < acc@.len() ==> (#[trigger] acc@[p])@ != (#[trigger] acc@[q])@,
        decreases n - i,
    {
        proof {
            assert(whole.skip(i as int)[0] == pieces@[i as int]@);
            assert(whole.skip(i as int).skip(1) =~= whole.skip(i + 1 as int));
        }
        if pieces[i].len() > 0 {
            proof {
                assert(pieces@[i as int]@.subrange(0, pieces@[i as int]@.len() as int) =~= pieces@[
                    i as int
                ]@);
            }
            let s = match string_from_utf8(crate::bytes_util::vec_range(
                &pieces[i],
                0,
                pieces[i].len(),
            )) {
                Ok(s) => s,
                Err(e) => {
                    return Err(crate::errors::RustError::invalid_utf8_at(e.0, e.1));
                },
            };
            let ghost old_acc = acc@;
            if !contains_string(&acc, &s) {
                acc.push(s);
                proof {
                    assert(!string_views(old_acc).contains(s@)) by {
                        if string_views(old_acc).contains(s@) {
                            let w = choose|w: int|
                                0 <= w < string_views(old_acc).len() && string_views(old_acc)[w]
                                    == s@;
                            assert(old_acc[w]@ == s@);
                        }
                    }
                    assert(string_views(acc@) =~= string_views(old_acc).push(s@));
                }
            } else {
                proof {
                    assert(string_views(old_acc).contains(s@)) by {
                        let w = choose|w: int|
                            0 <= w < old_acc.len() && (#[trigger] old_acc[w])@ == s@;
                        assert(string_views(old_acc)[w] == s@);
                    }
                }
            }
        }
        i += 1;
    }
    proof {
        assert(whole.skip(n as int) =~= Seq::<Seq<u8>>::empty());
    }
    Ok(acc)
}

/// Whether two strings hold the same characters.
pub fn string_eq(a: &String, b: &String) -> (r: bool)
    ensures
        r == (a@ == b@),
{
    let ab = string_bytes(a.as_str());
    let bb = string_bytes(b.as_str());
    let r = crate::bytes_util::bytes_eq(&ab, &bb);
    proof {
        if ab@ == bb@ {
            vstd::utf8::encode_utf8_decode_utf8(a@);
            vstd::utf8::encode_utf8_decode_utf8(b@);
        }
    }
    r
}

/// Whether `v` holds a string with the same characters as `s`.
pub fn contains_string(v: &Vec<String>, s: &String) -> (r: bool)
    ensures
        r == (exists|i: int| 0 <= i < v@.len() && v@[i]@ == s@),
{
    let n = v.len();
    let mut i: usize = 0;
    while i < n
        invariant
            n == v@.len(),
            0 <= i <= n,
            forall|j: int| 0 <= j < i ==> v@[j]@ != s@,
        decreases n - i,
    {
        if string_eq(&v[i], s) {
            return true;
        }
        i += 1;
    }
    false
}

} // verus!
