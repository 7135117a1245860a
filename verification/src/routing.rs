use vstd::prelude::*;
use crate::addr::clone_bytes;
use crate::codec::subrange_vec;
use crate::session::Variant;

verus! {

/// ASCII lower-casing of one byte.
pub open spec fn lower_b(c: u8) -> u8 {
    if 65 <= c <= 90 {
        (c + 32) as u8
    } else {
        c
    }
}

/// ASCII lower-casing of a byte string.
pub open spec fn lower_seq(s: Seq<u8>) -> Seq<u8> {
    s.map_values(|c: u8| lower_b(c))
}

/// Lower-cases a path token.
pub fn ascii_lower(s: &Vec<u8>) -> (r: Vec<u8>)
    ensures
        r@ == lower_seq(s@),
{
    let mut out: Vec<u8> = Vec::new();
    let mut i: usize = 0;
    while i < s.len()
        invariant
            i <= s@.len(),
            out@.len() == i as int,
            forall|j: int| 0 <= j < i ==> out@[j] == lower_b(s@[j]),
        decreases s@.len() - i,
    {
        let c = s[i];
        if 65 <= c && c <= 90 {
            out.push(c + 32);
        } else {
            out.push(c);
        }
        i = i + 1;
    }
    proof {
        assert(out@ =~= lower_seq(s@));
    }
    out
}

/// The protocol alias a lower-cased path token names, if any.
pub open spec fn alias_of(l: Seq<u8>) -> Option<Variant> {
    if l == seq![118u8, 109u8, 101u8, 115u8, 115u8] {
        Some(Variant::VMess)
    } else if l == seq![118u8, 108u8, 101u8, 115u8, 115u8] {
        Some(Variant::VLess)
    } else if l == seq![116u8, 114u8, 111u8, 106u8, 97u8, 110u8] {
        Some(Variant::Trojan)
    } else if l == seq![115u8, 104u8, 97u8, 100u8, 111u8, 119u8, 115u8, 111u8, 99u8, 107u8, 115u8] {
        Some(Variant::Shadowsocks)
    } else {
        None
    }
}

/// The destination token every protocol alias is routed to.
pub open spec fn alias_token() -> Seq<u8> {
    seq![65u8, 77u8]
}

/// Maps a request path token to a protocol (when it is an alias) and the
/// destination-selection token: aliases select the fixed directory code,
/// anything else selects itself.
pub fn route_token(path: &Vec<u8>) -> (r: (Option<Variant>, Vec<u8>))
    ensures
        r.0 == alias_of(lower_seq(path@)),
        alias_of(lower_seq(path@)) is Some ==> r.1@ == alias_token(),
        alias_of(lower_seq(path@)) is None ==> r.1@ == path@,
{
    let l = ascii_lower(path);
    let var = classify(&l);
    match var {
        Some(v) => {
            let mut t: Vec<u8> = Vec::new();
            t.push(65u8);
            t.push(77u8);
            proof {
                assert(t@ =~= alias_token());
            }
            (Some(v), t)
        },
        None => (None, clone_bytes(path)),
    }
}

/// Decides which alias, if any, a lower-cased token is.
fn classify(l: &Vec<u8>) -> (r: Option<Variant>)
    ensures
        r == alias_of(l@),
{
    if l.len() == 5 && l[0] == 118 && l[1] == 109 && l[2] == 101 && l[3] == 115 && l[4] == 115 {
        proof {
            assert(l@ =~= seq![118u8, 109u8, 101u8, 115u8, 115u8]);
        }
        Some(Variant::VMess)
    } else if l.len() == 5 && l[0] == 118 && l[1] == 108 && l[2] == 101 && l[3] == 115 && l[4]
        == 115 {
        proof {
            assert(l@ =~= seq![118u8, 108u8, 101u8, 115u8, 115u8]);
        }
        Some(Variant::VLess)
    } else if l.len() == 6 && l[0] == 116 && l[1] == 114 && l[2] == 111 && l[3] == 106 && l[4] == 97
        && l[5] == 110 {
        proof {
            assert(l@ =~= seq![116u8, 114u8, 111u8, 106u8, 97u8, 110u8]);
        }
        Some(Variant::Trojan)
    } else if l.len() == 11 && l[0] == 115 && l[1] == 104 && l[2] == 97 && l[3] == 100 && l[4]
        == 111 && l[5] == 119 && l[6] == 115 && l[7] == 111 && l[8] == 99 && l[9] == 107 && l[10]
        == 115 {
        proof {
            assert(l@ =~= seq![
                115u8,
                104u8,
                97u8,
                100u8,
                111u8,
                119u8,
                115u8,
                111u8,
                99u8,
                107u8,
                115u8,
            ]);
        }
        Some(Variant::Shadowsocks)
    } else {
        proof {
            if l@ == seq![118u8, 109u8, 101u8, 115u8, 115u8] {
                assert(false);
            }
            if l@ == seq![118u8, 108u8, 101u8, 115u8, 115u8] {
                assert(false);
            }
            if l@ == seq![116u8, 114u8, 111u8, 106u8, 97u8, 110u8] {
                assert(false);
            }
            if l@ == seq![115u8, 104u8, 97u8, 100u8, 111u8, 119u8, 115u8, 111u8, 99u8, 107u8, 115u8] {
                assert(false);
            }
        }
        None
    }
}

/// Whether a byte is an ASCII decimal digit.
pub open spec fn is_digit(c: u8) -> bool {
    48 <= c <= 57
}

/// Whether a byte is an ASCII capital letter.
pub open spec fn is_upper(c: u8) -> bool {
    65 <= c <= 90
}

/// Whether a token starts with two capital letters, which makes it a
/// directory code looked up in the key/value store.
pub open spec fn spec_is_kv_code(t: Seq<u8>) -> bool {
    t.len() >= 2 && is_upper(t[0]) && is_upper(t[1])
}

/// Decides whether a token names a directory code.
pub fn is_kv_code(t: &Vec<u8>) -> (r: bool)
    ensures
        r == spec_is_kv_code(t@),
{
    t.len() >= 2 && 65 <= t[0] && t[0] <= 90 && 65 <= t[1] && t[1] <= 90
}

/// Whether a token has the literal `address-port` shape: something before
/// a dash, and only digits (at least one) after it.
pub open spec fn spec_is_addr_port(t: Seq<u8>) -> bool {
    exists|i: int|
        1 <= i && i + 1 < t.len() && t[i] == 45 && (forall|j: int|
            i < j < t.len() ==> is_digit(#[trigger] t[j]))
}

/// Decides whether a token has the literal `address-port` shape.
pub fn is_addr_port(t: &Vec<u8>) -> (r: bool)
    ensures
        r == spec_is_addr_port(t@),
{
    let n = t.len();
    let mut i: usize = n;
    while i > 0 && 48 <= t[i - 1] && t[i - 1] <= 57
        invariant
            i <= n,
            n == t@.len(),
            forall|j: int| i <= j < n ==> is_digit(#[trigger] t@[j]),
        decreases i,
    {
        i = i - 1;
    }
    if i < n && i >= 2 && t[i - 1] == 45 {
        proof {
            assert(spec_is_addr_port(t@)) by {
                assert(1 <= i - 1 && (i - 1) + 1 < t@.len() && t@[i - 1] == 45);
            }
        }
        true
    } else {
        proof {
            if spec_is_addr_port(t@) {
                let i0 = choose|i0: int|
                    1 <= i0 && i0 + 1 < t@.len() && t@[i0] == 45 && (forall|j: int|
                        i0 < j < t@.len() ==> is_digit(#[trigger] t@[j]));
                assert(i as int <= i0 + 1);
                assert(i as int == i0 + 1);
                assert(false);
            }
        }
        false
    }
}

/// The numeric value of a string of decimal digits.
pub open spec fn dec_val(s: Seq<u8>) -> int
    decreases s.len(),
{
    if s.len() == 0 {
        0
    } else {
        dec_val(s.take(s.len() as int - 1)) * 10 + (s[s.len() as int - 1] - 48)
    }
}

/// A digit-only string's value never shrinks as it is extended.
proof fn lemma_dec_val_mono(s: Seq<u8>, j: int)
    requires
        0 <= j <= s.len(),
        forall|k: int| 0 <= k < s.len() ==> is_digit(#[trigger] s[k]),
    ensures
        dec_val(s.take(j)) <= dec_val(s),
        dec_val(s) >= 0,
    decreases s.len() - j,
{
    if j == s.len() {
        assert(s.take(j) =~= s);
        lemma_dec_val_nonneg(s);
    } else {
        lemma_dec_val_mono(s, j + 1);
        assert(s.take(j + 1).take(j) =~= s.take(j));
        lemma_dec_val_nonneg(s.take(j));
        assert(dec_val(s.take(j + 1)) == dec_val(s.take(j)) * 10 + (s[j] - 48));
    }
}

/// A digit-only string's value is not negative.
proof fn lemma_dec_val_nonneg(s: Seq<u8>)
    requires
        forall|k: int| 0 <= k < s.len() ==> is_digit(#[trigger] s[k]),
    ensures
        dec_val(s) >= 0,
    decreases s.len(),
{
    if s.len() > 0 {
        let p = s.take(s.len() as int - 1);
        assert(forall|k: int| 0 <= k < p.len() ==> is_digit(#[trigger] p[k]));
        lemma_dec_val_nonneg(p);
    }
}

/// The position of the first dash, if any.
pub open spec fn first_dash(s: Seq<u8>) -> Option<int>
    decreases s.len(),
{
    if s.len() == 0 {
        None
    } else if s[0] == 45 {
        Some(0)
    } else {
        match first_dash(s.skip(1)) {
            None => None,
            Some(j) => Some(j + 1),
        }
    }
}

/// What splitting a token at its first dash yields: the address before it
/// and the numeric port after it, if the digits form one.
pub open spec fn spec_split_addr_port(t: Seq<u8>) -> Option<(Seq<u8>, u16)> {
    match first_dash(t) {
        None => None,
        Some(i) => {
            let digits = t.subrange(i + 1, t.len() as int);
            if digits.len() == 0 {
                None
            } else if exists|j: int| 0 <= j < digits.len() && !is_digit(#[trigger] digits[j]) {
                None
            } else if dec_val(digits) > 65535 {
                None
            } else {
                Some((t.subrange(0, i), dec_val(digits) as u16))
            }
        },
    }
}

/// Finds the first dash.
fn find_dash(t: &Vec<u8>, from: usize) -> (r: Option<usize>)
    requires
        from <= t@.len(),
    ensures
        (match r {
            Some(i) => from <= i < t@.len() && t@[i as int] == 45 && (forall|j: int|
                from <= j < i ==> t@[j] != 45) && first_dash(t@.skip(from as int)) == Some(
                i - from,
            ),
            None => first_dash(t@.skip(from as int)) is None,
        }),
    decreases t@.len() - from,
{
    if from >= t.len() {
        proof {
            assert(t@.skip(from as int) =~= Seq::<u8>::empty());
        }
        return None;
    }
    if t[from] == 45 {
        proof {
            assert(t@.skip(from as int)[0] == 45);
        }
        return Some(from);
    }
    let r2 = find_dash(t, from + 1);
    proof {
        assert(t@.skip(from as int).skip(1) =~= t@.skip(from as int + 1));
        assert(t@.skip(from as int)[0] != 45);
    }
    match r2 {
        Some(i) => Some(i),
        None => None,
    }
}

/// Splits an `address-port` token at its first dash, mirroring how the
/// route token is taken apart, and parses the port.
pub fn split_addr_port(t: &Vec<u8>) -> (r: Option<(Vec<u8>, u16)>)
    ensures
        (match r {
            Some(p) => spec_split_addr_port(t@) matches Some(q) && p.0@ == q.0 && p.1 == q.1,
            None => spec_split_addr_port(t@) is None,
        }),
{
    proof {
        assert(t@.skip(0) =~= t@);
    }
    let i = match find_dash(t, 0) {
        None => {
            return None;
        },
        Some(i) => i,
    };
    let n = t.len();
    if i + 1 >= n {
        proof {
            assert(t@.subrange(i as int + 1, n as int).len() == 0);
        }
        return None;
    }
    let ghost digits = t@.subrange(i as int + 1, n as int);
    let mut acc: u32 = 0;
    let mut k: usize = i + 1;
    while k < n
        invariant
            i + 1 <= k <= n,
            i as int + 1 < n as int,
            n == t@.len(),
            first_dash(t@) == Some(i as int),
            digits == t@.subrange(i as int + 1, n as int),
            forall|j: int| i < j < k ==> is_digit(#[trigger] t@[j]),
            acc as int == dec_val(digits.take(k - i - 1)),
            acc <= 65535,
        decreases n - k,
    {
        let c = t[k];
        if c < 48 || c > 57 {
            proof {
                assert(!is_digit(digits[k - i - 1]));
            }
            return None;
        }
        let v: u32 = acc * 10 + ((c - 48) as u32);
        proof {
            assert(digits.take(k - i) =~= digits.take(k - i - 1).push(c));
            assert(digits.take(k - i).take(k - i - 1) =~= digits.take(k - i - 1));
            assert(dec_val(digits.take(k - i)) == acc as int * 10 + (c - 48));
        }
        if v > 65535 {
            proof {
                if !(exists|j: int| 0 <= j < digits.len() && !is_digit(#[trigger] digits[j])) {
                    assert(forall|j: int| 0 <= j < digits.len() ==> is_digit(#[trigger] digits[j]));
                    lemma_dec_val_mono(digits, k - i);
                }
            }
            return None;
        }
        acc = v;
        k = k + 1;
    }
    proof {
        assert(digits.take(n - i - 1) =~= digits);
        assert(forall|j: int| 0 <= j < digits.len() ==> is_digit(#[trigger] digits[j]));
    }
    let host = subrange_vec(t, 0, i);
    Some((host, acc as u16))
}

/// The position of the first comma, if any.
pub open spec fn first_comma(s: Seq<u8>) -> Option<int>
    decreases s.len(),
{
    if s.len() == 0 {
        None
    } else if s[0] == 44 {
        Some(0)
    } else {
        match first_comma(s.skip(1)) {
            None => None,
            Some(j) => Some(j + 1),
        }
    }
}

/// A comma-separated token taken apart into its fields.
pub open spec fn spec_split_csv(s: Seq<u8>) -> Seq<Seq<u8>>
    decreases s.len(),
{
    match first_comma(s) {
        None => seq![s],
        Some(i) => if 0 <= i < s.len() {
            seq![s.take(i)] + spec_split_csv(s.skip(i + 1))
        } else {
            seq![s]
        },
    }
}

/// Finds the first comma at or after `from`.
fn find_comma(t: &Vec<u8>, from: usize) -> (r: Option<usize>)
    requires
        from <= t@.len(),
    ensures
        (match r {
            Some(i) => from <= i < t@.len() && first_comma(t@.skip(from as int)) == Some(
                i - from,
            ),
            None => first_comma(t@.skip(from as int)) is None,
        }),
    decreases t@.len() - from,
{
    if from >= t.len() {
        proof {
            assert(t@.skip(from as int) =~= Seq::<u8>::empty());
        }
        return None;
    }
    if t[from] == 44 {
        proof {
            assert(t@.skip(from as int)[0] == 44);
        }
        return Some(from);
    }
    let r2 = find_comma(t, from + 1);
    proof {
        assert(t@.skip(from as int).skip(1) =~= t@.skip(from as int + 1));
        assert(t@.skip(from as int)[0] != 44);
    }
    r2
}

/// The fields a list of byte strings carries.
pub open spec fn list_view(v: Seq<Vec<u8>>) -> Seq<Seq<u8>> {
    v.map_values(|x: Vec<u8>| x@)
}

/// Splits a comma-separated token into its fields.
pub fn split_csv(t: &Vec<u8>) -> (r: Vec<Vec<u8>>)
    ensures
        list_view(r@) == spec_split_csv(t@),
        r@.len() >= 1,
    decreases t@.len(),
{
    proof {
        assert(t@.skip(0) =~= t@);
    }
    match find_comma(t, 0) {
        None => {
            let mut out: Vec<Vec<u8>> = Vec::new();
            out.push(clone_bytes(t));
            proof {
                assert(list_view(out@) =~= spec_split_csv(t@));
            }
            out
        },
        Some(i) => {
            let n = t.len();
            let head = subrange_vec(t, 0, i);
            let tail = subrange_vec(t, i + 1, n);
            proof {
                assert(tail@ =~= t@.skip(i as int + 1));
                assert(head@ =~= t@.take(i as int));
            }
            let rest = split_csv(&tail);
            let mut out: Vec<Vec<u8>> = Vec::new();
            out.push(head);
            let mut j: usize = 0;
            while j < rest.len()
                invariant
                    j <= rest@.len(),
                    out@.len() == j + 1,
                    out@[0]@ == t@.take(i as int),
                    forall|x: int| 0 <= x < j ==> out@[x + 1]@ == #[trigger] rest@[x]@,
                decreases rest@.len() - j,
            {
                out.push(clone_bytes(&rest[j]));
                j = j + 1;
            }
            proof {
                assert(list_view(out@) =~= seq![t@.take(i as int)] + list_view(rest@));
                assert(list_view(out@) =~= spec_split_csv(t@));
            }
            out
        },
    }
}

/// What the destination directory holds for a short code: the ordered list
/// of `host:port` entries that the directory document assigns it, or
/// nothing when the document does not parse or the code is absent.
pub uninterp spec fn dir_lookup_of(json: Seq<u8>, code: Seq<u8>) -> Option<Seq<Seq<u8>>>;

/// The entries an optional list of byte strings carries.
pub open spec fn opt_list_view(r: Option<Vec<Vec<u8>>>) -> Option<Seq<Seq<u8>>> {
    match r {
        Some(v) => Some(list_view(v@)),
        None => None,
    }
}

/// Relies on serde_json::from_str to parse the directory document (a JSON
/// object from short codes to arrays of strings) and on the resulting
/// map's lookup: both depend on the document and the code alone.
#[verifier::external_body]
fn dir_lookup(json: &Vec<u8>, code: &Vec<u8>) -> (r: Option<Vec<Vec<u8>>>)
    ensures
        opt_list_view(r) == dir_lookup_of(json@, code@),
{
    let s = std::str::from_utf8(json.as_slice()).ok()?;
    let c = std::str::from_utf8(code.as_slice()).ok()?;
    let map: std::collections::HashMap<String, Vec<String>> = serde_json::from_str(s).ok()?;
    map.get(c).map(|v| v.iter().map(|x| x.clone().into_bytes()).collect())
}

/// Relies on getrandom::getrandom for entropy. Nothing is promised of the
/// value: every caller must be correct for all of them.
#[verifier::external_body]
fn random_byte() -> u8 {
    let mut b = [0u8; 1];
    let _ = getrandom::getrandom(&mut b);
    b[0]
}

/// What one random byte selects from the directory for a selection token:
/// the byte picks a code among the token's comma-separated fields, then an
/// entry of that code's list; the entry's colon is read as the dash of an
/// `address-port` pair.
pub open spec fn spec_pick(json: Seq<u8>, token: Seq<u8>, rand: u8) -> Option<(Seq<u8>, u16)> {
    let parts = spec_split_csv(token);
    let code = parts[rand as int % parts.len() as int];
    match dir_lookup_of(json, code) {
        None => None,
        Some(list) => {
            if list.len() == 0 {
                None
            } else {
                let entry = list[rand as int % list.len() as int];
                spec_split_addr_port(entry.map_values(|c: u8| if c == 58 {
                    45u8
                } else {
                    c
                }))
            }
        },
    }
}

/// Picks the destination a given random byte selects.
pub fn pick_from_directory(json: &Vec<u8>, token: &Vec<u8>, rand: u8) -> (r: Option<
    (Vec<u8>, u16),
>)
    ensures
        (match r {
            Some(p) => spec_pick(json@, token@, rand) matches Some(q) && p.0@ == q.0 && p.1 == q.1,
            None => spec_pick(json@, token@, rand) is None,
        }),
{
    let parts = split_csv(token);
    let idx = (rand as usize) % parts.len();
    proof {
        assert(parts@[idx as int]@ == spec_split_csv(token@)[rand as int % spec_split_csv(
            token@,
        ).len() as int]);
    }
    let list = match dir_lookup(json, &parts[idx]) {
        None => {
            return None;
        },
        Some(l) => l,
    };
    if list.len() == 0 {
        return None;
    }
    let j = (rand as usize) % list.len();
    let entry = &list[j];
    let mut mapped: Vec<u8> = Vec::new();
    let mut k: usize = 0;
    while k < entry.len()
        invariant
            k <= entry@.len(),
            mapped@.len() == k as int,
            forall|x: int| 0 <= x < k ==> mapped@[x] == (if entry@[x] == 58 {
                45u8
            } else {
                entry@[x]
            }),
        decreases entry@.len() - k,
    {
        let c = entry[k];
        if c == 58 {
            mapped.push(45);
        } else {
            mapped.push(c);
        }
        k = k + 1;
    }
    proof {
        assert(mapped@ =~= entry@.map_values(|c: u8| if c == 58 {
            45u8
        } else {
            c
        }));
        assert(entry@ == list_view(list@)[j as int]);
    }
    split_addr_port(&mapped)
}

/// Resolves a directory selection token to a destination, choosing among
/// the candidates at random. Any outcome is one that some random byte
/// selects; a session only requires a destination from this contract
/// before it may reach `Connecting`.
pub fn resolve_destination(json: &Vec<u8>, token: &Vec<u8>) -> (r: Option<(Vec<u8>, u16)>)
    ensures
        exists|rb: u8|
            (match r {
                Some(p) => #[trigger] spec_pick(json@, token@, rb) matches Some(q) && p.0@ == q.0
                    && p.1 == q.1,
                None => spec_pick(json@, token@, rb) is None,
            }),
{
    let rb = random_byte();
    let r = pick_from_directory(json, token, rb);
    proof {
        assert(match r {
            Some(p) => spec_pick(json@, token@, rb) matches Some(q) && p.0@ == q.0 && p.1 == q.1,
            None => spec_pick(json@, token@, rb) is None,
        });
    }
    r
}

/// Cuts a payload into pieces no larger than one cipher chunk, in order
/// and without loss, for the event loop to feed through the session.
pub fn split_message(b: &Vec<u8>) -> (r: Vec<Vec<u8>>)
    ensures
        forall|i: int| 0 <= i < r@.len() ==> (#[trigger] r@[i])@.len() <= 65535,
        seq_concat(list_view(r@)) == b@,
{
    let mut out: Vec<Vec<u8>> = Vec::new();
    let mut pos: usize = 0;
    while pos < b.len()
        invariant
            pos <= b@.len(),
            forall|i: int| 0 <= i < out@.len() ==> (#[trigger] out@[i])@.len() <= 65535,
            seq_concat(list_view(out@)) == b@.take(pos as int),
        decreases b@.len() - pos,
    {
        let step = if b.len() - pos > 65535 {
            65535
        } else {
            b.len() - pos
        };
        let piece = subrange_vec(b, pos, pos + step);
        let ghost oldlv = list_view(out@);
        out.push(piece);
        pos = pos + step;
        proof {
            assert(list_view(out@) =~= oldlv.push(b@.subrange(pos - step, pos as int)));
            lemma_concat_push(oldlv, b@.subrange(pos - step, pos as int));
            assert(b@.take(pos - step) + b@.subrange(pos - step, pos as int) =~= b@.take(
                pos as int,
            ));
        }
    }
    proof {
        assert(b@.take(b@.len() as int) =~= b@);
    }
    out
}

/// The concatenation of a list of byte strings.
pub open spec fn seq_concat(ss: Seq<Seq<u8>>) -> Seq<u8>
    decreases ss.len(),
{
    if ss.len() == 0 {
        Seq::empty()
    } else {
        seq_concat(ss.take(ss.len() as int - 1)) + ss[ss.len() as int - 1]
    }
}

/// Appending one piece appends its bytes to the concatenation.
proof fn lemma_concat_push(ss: Seq<Seq<u8>>, x: Seq<u8>)
    ensures
        seq_concat(ss.push(x)) == seq_concat(ss) + x,
{
    assert(ss.push(x).take(ss.len() as int) =~= ss);
    assert(ss.push(x)[ss.len() as int] == x);
}

} // verus!
