use vstd::prelude::*;
use vstd::string::StringSliceAdditionalSpecFns;

verus! {

/// True of the bytes that spell a hexadecimal digit in ASCII.
pub open spec fn is_hex_digit(b: u8) -> bool {
    (48 <= b <= 57) || (65 <= b <= 70) || (97 <= b <= 102)
}

/// The numeric value of a hexadecimal digit byte.
pub open spec fn hex_val(b: u8) -> u8 {
    if 48 <= b <= 57 {
        (b - 48) as u8
    } else if 65 <= b <= 70 {
        (b - 55) as u8
    } else {
        (b - 87) as u8
    }
}

/// `s` with every well-formed `%XX` escape replaced by the byte it names;
/// a `%` not followed by two hexadecimal digits passes through unchanged.
pub open spec fn percent_decode(s: Seq<u8>) -> Seq<u8>
    decreases s.len(),
{
    if s.len() == 0 {
        Seq::empty()
    } else if s[0] == 37 && s.len() >= 3 && is_hex_digit(s[1]) && is_hex_digit(s[2]) {
        seq![((16 * (hex_val(s[1]) as int) + (hex_val(s[2]) as int)) as u8)] + percent_decode(
            s.skip(3),
        )
    } else {
        seq![s[0]] + percent_decode(s.skip(1))
    }
}

/// The position of the first occurrence of `sep` in `s`, or `s.len()` when
/// `s` does not hold it.
pub open spec fn first_index(s: Seq<u8>, sep: u8) -> int
    decreases s.len(),
{
    if s.len() == 0 {
        0
    } else if s[0] == sep {
        0
    } else {
        1 + first_index(s.drop_first(), sep)
    }
}

/// The separator position is in range, is preceded by other bytes only, and
/// lands on the separator when one occurs.
pub proof fn lemma_first_index(s: Seq<u8>, sep: u8)
    ensures
        0 <= first_index(s, sep) <= s.len(),
        forall|j: int| 0 <= j < first_index(s, sep) ==> s[j] != sep,
        first_index(s, sep) < s.len() ==> s[first_index(s, sep)] == sep,
    decreases s.len(),
{
    if s.len() > 0 && s[0] != sep {
        lemma_first_index(s.drop_first(), sep);
        assert forall|j: int| 0 <= j < first_index(s, sep) implies s[j] != sep by {
            if j > 0 {
                assert(s.drop_first()[j - 1] != sep);
            }
        }
    }
}

/// Any position preceded by non-separator bytes only, which is the end of
/// the sequence or holds the separator, is the separator position.
pub proof fn lemma_first_index_unique(s: Seq<u8>, sep: u8, i: int)
    requires
        0 <= i <= s.len(),
        forall|j: int| 0 <= j < i ==> s[j] != sep,
        i < s.len() ==> s[i] == sep,
    ensures
        i == first_index(s, sep),
{
    lemma_first_index(s, sep);
    if i < first_index(s, sep) {
        assert(s[i] != sep);
    }
    if i > first_index(s, sep) {
        assert(s[first_index(s, sep)] != sep);
    }
}

/// The bytes of the query key `_token`, in ASCII.
pub open spec fn token_key() -> Seq<u8> {
    seq![95u8, 116u8, 111u8, 107u8, 101u8, 110u8]
}

/// The bytes of the query key `qstash_token`, in ASCII.
pub open spec fn qstash_token_key() -> Seq<u8> {
    seq![113u8, 115u8, 116u8, 97u8, 115u8, 104u8, 95u8, 116u8, 111u8, 107u8, 101u8, 110u8]
}

/// The key of one `key=value` query pair: the bytes before the first `=`.
pub open spec fn pair_key(p: Seq<u8>) -> Seq<u8> {
    p.take(first_index(p, 61))
}

/// The value of one `key=value` query pair: the bytes after the first `=`,
/// or nothing when the pair has no `=`.
pub open spec fn pair_value(p: Seq<u8>) -> Seq<u8> {
    if first_index(p, 61) < p.len() {
        p.skip(first_index(p, 61) + 1)
    } else {
        Seq::empty()
    }
}

/// One query pair grants access when its key is one of the two credential
/// keys and its percent-decoded value is the secret.
pub open spec fn pair_grants(p: Seq<u8>, secret: Seq<u8>) -> bool {
    (pair_key(p) == token_key() || pair_key(p) == qstash_token_key()) && percent_decode(
        pair_value(p),
    ) == secret
}

/// A query string grants access when one of its `&`-separated pairs does.
pub open spec fn query_grants(q: Seq<u8>, secret: Seq<u8>) -> bool
    decreases q.len(),
    via query_grants_decreases
{
    pair_grants(q.take(first_index(q, 38)), secret) || (first_index(q, 38) < q.len()
        && query_grants(q.skip(first_index(q, 38) + 1), secret))
}

#[via_fn]
proof fn query_grants_decreases(q: Seq<u8>, secret: Seq<u8>) {
    lemma_first_index(q, 38);
}

/// An `Authorization` header grants access when it is exactly `Bearer `
/// followed by the secret.
pub open spec fn header_grants(h: Seq<char>, secret: Seq<char>) -> bool {
    h.len() >= 7 && h.subrange(0, 7) == "Bearer "@ && h.skip(7) == secret
}

/// The whole credential check: the header grants access, or the query
/// string does.
pub open spec fn authorized_spec(
    header: Option<Seq<char>>,
    q: Seq<u8>,
    secret: Seq<char>,
    secret_bytes: Seq<u8>,
) -> bool {
    (match header {
        Some(h) => header_grants(h, secret),
        None => false,
    }) || query_grants(q, secret_bytes)
}

/// Checks an `Authorization` header value against the secret.
fn check_bearer(h: &str, secret: &str) -> (r: bool)
    ensures
        r == header_grants(h@, secret@),
{
    let hn = h.unicode_len();
    let sn = secret.unicode_len();
    proof {
        reveal_strlit("Bearer ");
    }
    if hn < 7 {
        return false;
    }
    let prefix = "Bearer ";
    let mut i: usize = 0;
    while i < 7
        invariant
            hn == h@.len(),
            hn >= 7,
            i <= 7,
            prefix@ == "Bearer "@,
            prefix@.len() == 7,
            forall|j: int| 0 <= j < i ==> h@[j] == prefix@[j],
        decreases 7 - i,
    {
        if h.get_char(i) != prefix.get_char(i) {
            proof {
                assert(h@.subrange(0, 7) != "Bearer "@) by {
                    assert(h@.subrange(0, 7)[i as int] == h@[i as int]);
                }
            }
            return false;
        }
        i += 1;
    }
    proof {
        assert(h@.subrange(0, 7) =~= "Bearer "@);
    }
    if hn - 7 != sn {
        proof {
            assert(h@.skip(7).len() != secret@.len());
        }
        return false;
    }
    let mut k: usize = 0;
    while k < sn
        invariant
            hn == h@.len(),
            sn == secret@.len(),
            hn == 7 + sn,
            k <= sn,
            forall|j: int| 0 <= j < k ==> h@[7 + j] == secret@[j],
        decreases sn - k,
    {
        if h.get_char(7 + k) != secret.get_char(k) {
            proof {
                assert(h@.skip(7) != secret@) by {
                    assert(h@.skip(7)[k as int] == h@[7 + k as int]);
                }
            }
            return false;
        }
        k += 1;
    }
    proof {
        assert(h@.skip(7) =~= secret@);
    }
    true
}

/// Returns the numeric value of a hexadecimal digit byte, if it is one.
fn hex_digit(b: u8) -> (r: Option<u8>)
    ensures
        r is Some <==> is_hex_digit(b),
        r is Some ==> r->0 == hex_val(b),
{
    if 48 <= b && b <= 57 {
        Some(b - 48)
    } else if 65 <= b && b <= 70 {
        Some(b - 55)
    } else if 97 <= b && b <= 102 {
        Some(b - 87)
    } else {
        None
    }
}

/// Percent-decodes the bytes `q[from..to]`.
fn decode_range(q: &[u8], from: usize, to: usize) -> (r: Vec<u8>)
    requires
        from <= to <= q@.len(),
    ensures
        r@ == percent_decode(q@.subrange(from as int, to as int)),
{
    let ghost whole = q@.subrange(from as int, to as int);
    let mut out: Vec<u8> = Vec::new();
    let mut i: usize = from;
    while i < to
        invariant
            from <= i <= to <= q@.len(),
            whole == q@.subrange(from as int, to as int),
            percent_decode(whole) == out@ + percent_decode(q@.subrange(i as int, to as int)),
        decreases to - i,
    {
        let ghost rest = q@.subrange(i as int, to as int);
        if to - i >= 3 {
            let b0 = q[i];
            if b0 == 37 {
                let d1 = hex_digit(q[i + 1]);
                let d2 = hex_digit(q[i + 2]);
                match (d1, d2) {
                    (Some(h1), Some(h2)) => {
                        out.push(16 * h1 + h2);
                        proof {
                            assert(rest.skip(3) =~= q@.subrange(i + 3, to as int));
                            assert(out@ + percent_decode(q@.subrange(i + 3, to as int))
                                =~= percent_decode(whole));
                        }
                        i += 3;
                        continue;
                    },
                    _ => {},
                }
            }
        }
        let b = q[i];
        out.push(b);
        proof {
            assert(rest.skip(1) =~= q@.subrange(i + 1, to as int));
            assert(out@ + percent_decode(q@.subrange(i + 1, to as int)) =~= percent_decode(
                whole,
            ));
        }
        i += 1;
    }
    proof {
        assert(percent_decode(q@.subrange(to as int, to as int)) =~= Seq::<u8>::empty());
        assert(out@ =~= percent_decode(whole));
    }
    out
}

/// Compares the bytes `q[from..to]` with the key `_token`.
fn key_is_token(q: &[u8], from: usize, to: usize) -> (r: bool)
    requires
        from <= to <= q@.len(),
    ensures
        r == (q@.subrange(from as int, to as int) == token_key()),
{
    if to - from != 6 {
        proof {
            assert(token_key().len() == 6);
            assert(q@.subrange(from as int, to as int).len() == to - from);
        }
        return false;
    }
    let r = q[from] == 95 && q[from + 1] == 116 && q[from + 2] == 111 && q[from + 3] == 107 && q[
        from + 4] == 101 && q[from + 5] == 110;
    proof {
        if r {
            assert(q@.subrange(from as int, to as int) =~= token_key());
        } else {
            assert(q@.subrange(from as int, to as int) != token_key()) by {
                if q@.subrange(from as int, to as int) == token_key() {
                    assert(forall|j: int|
                        0 <= j < 6 ==> q@.subrange(from as int, to as int)[j] == token_key()[j]);
                }
            }
        }
    }
    r
}

/// Compares the bytes `q[from..to]` with the key `qstash_token`.
fn key_is_qstash_token(q: &[u8], from: usize, to: usize) -> (r: bool)
    requires
        from <= to <= q@.len(),
    ensures
        r == (q@.subrange(from as int, to as int) == qstash_token_key()),
{
    if to - from != 12 {
        proof {
            assert(qstash_token_key().len() == 12);
            assert(q@.subrange(from as int, to as int).len() == to - from);
        }
        return false;
    }
    let r = q[from] == 113 && q[from + 1] == 115 && q[from + 2] == 116 && q[from + 3] == 97 && q[
        from + 4] == 115 && q[from + 5] == 104 && q[from + 6] == 95 && q[from + 7] == 116 && q[from
        + 8] == 111 && q[from + 9] == 107 && q[from + 10] == 101 && q[from + 11] == 110;
    proof {
        if r {
            assert(q@.subrange(from as int, to as int) =~= qstash_token_key());
        } else {
            assert(q@.subrange(from as int, to as int) != qstash_token_key()) by {
                if q@.subrange(from as int, to as int) == qstash_token_key() {
                    assert(forall|j: int|
                        0 <= j < 12 ==> q@.subrange(from as int, to as int)[j]
                            == qstash_token_key()[j]);
                }
            }
        }
    }
    r
}

/// Compares a decoded value with the secret's bytes.
fn bytes_match(a: &Vec<u8>, b: &[u8]) -> (r: bool)
    ensures
        r == (a@ == b@),
{
    let n = a.len();
    if n != b.len() {
        return false;
    }
    let mut i: usize = 0;
    while i < n
        invariant
            n == a@.len(),
            n == b@.len(),
            i <= n,
            forall|j: int| 0 <= j < i ==> a@[j] == b@[j],
        decreases n - i,
    {
        if a[i] != b[i] {
            return false;
        }
        i += 1;
    }
    proof {
        assert(a@ =~= b@);
    }
    true
}

/// Checks one query pair, the bytes `q[start..end]`, against the secret.
fn pair_matches(q: &[u8], start: usize, end: usize, secret: &[u8]) -> (r: bool)
    requires
        start <= end <= q@.len(),
    ensures
        r == pair_grants(q@.subrange(start as int, end as int), secret@),
{
    let ghost p = q@.subrange(start as int, end as int);
    let mut e: usize = start;
    while e < end && q[e] != 61
        invariant
            start <= e <= end <= q@.len(),
            forall|j: int| start <= j < e ==> q@[j] != 61,
        decreases end - e,
    {
        e += 1;
    }
    proof {
        assert forall|j: int| 0 <= j < e - start implies p[j] != 61 by {
            assert(p[j] == q@[start + j]);
        }
        lemma_first_index_unique(p, 61, e - start);
    }
    let key_ok = if key_is_token(q, start, e) {
        true
    } else {
        key_is_qstash_token(q, start, e)
    };
    proof {
        assert(p.take(e - start) =~= q@.subrange(start as int, e as int));
    }
    if !key_ok {
        return false;
    }
    let decoded = if e < end {
        let d = decode_range(q, e + 1, end);
        proof {
            assert(p.skip(e - start + 1) =~= q@.subrange(e + 1, end as int));
        }
        d
    } else {
        let d: Vec<u8> = Vec::new();
        proof {
            assert(percent_decode(Seq::<u8>::empty()) =~= Seq::<u8>::empty());
            assert(d@ =~= percent_decode(pair_value(p)));
        }
        d
    };
    bytes_match(&decoded, secret)
}

/// Scans the `&`-separated pairs of `q[start..]` for one that grants
/// access.
fn scan_pairs(q: &[u8], secret: &[u8], start: usize) -> (r: bool)
    requires
        start <= q@.len(),
    ensures
        r == query_grants(q@.skip(start as int), secret@),
    decreases q@.len() - start,
{
    let ghost s = q@.skip(start as int);
    let n = q.len();
    let mut end: usize = start;
    while end < n && q[end] != 38
        invariant
            start <= end <= n,
            n == q@.len(),
            forall|j: int| start <= j < end ==> q@[j] != 38,
        decreases n - end,
    {
        end += 1;
    }
    proof {
        assert forall|j: int| 0 <= j < end - start implies s[j] != 38 by {
            assert(s[j] == q@[start + j]);
        }
        lemma_first_index_unique(s, 38, end - start);
        assert(s.take(end - start) =~= q@.subrange(start as int, end as int));
    }
    if pair_matches(q, start, end, secret) {
        return true;
    }
    if end == n {
        return false;
    }
    proof {
        assert(s.skip(end - start + 1) =~= q@.skip(end + 1));
    }
    scan_pairs(q, secret, end + 1)
}

/// Decides whether a request is authorized: the `Authorization` header must
/// be `Bearer ` followed by the secret, or the query string must carry the
/// secret, percent-decoded, under the key `_token` or `qstash_token`.
pub fn authorize(header: Option<&str>, query: &str, secret: &str) -> (r: bool)
    ensures
        r == authorized_spec(
            match header {
                Some(h) => Some(h@),
                None => None,
            },
            query.spec_bytes(),
            secret@,
            secret.spec_bytes(),
        ),
{
    if let Some(h) = header {
        if check_bearer(h, secret) {
            return true;
        }
    }
    let qb = query.as_bytes();
    let sb = secret.as_bytes();
    proof {
        assert(qb@.skip(0) =~= qb@);
    }
    scan_pairs(qb, sb, 0)
}

} // verus!
