use vstd::prelude::*;

verus! {

/// Decimal digits of an octet, in ASCII, without leading zeros.
pub open spec fn octet_text(o: nat) -> Seq<u8> {
    if o < 10 {
        seq![(48 + o) as u8]
    } else if o < 100 {
        seq![(48 + o / 10) as u8, (48 + o % 10) as u8]
    } else {
        seq![(48 + o / 100) as u8, (48 + (o / 10) % 10) as u8, (48 + o % 10) as u8]
    }
}

/// The unsigned address whose bit pattern the signed directory value holds.
pub open spec fn ip_value(number: i32) -> nat {
    if number >= 0 {
        number as nat
    } else {
        (number + 0x1_0000_0000) as nat
    }
}

/// Dotted-quad text of a 32-bit address, most significant octet first.
pub open spec fn dotted_quad(v: nat) -> Seq<u8> {
    let q1 = v / 256;
    let q2 = q1 / 256;
    let q3 = q2 / 256;
    octet_text(q3 % 256) + seq![46u8] + octet_text(q2 % 256) + seq![46u8] + octet_text(q1 % 256)
        + seq![46u8] + octet_text(v % 256)
}

/// Characters of ASCII bytes.
pub open spec fn ascii_chars(b: Seq<u8>) -> Seq<char> {
    b.map_values(|c: u8| c as char)
}

/// Relies on `String::from_utf8`: bytes below 128 are valid UTF-8 and each
/// stands for the character of the same value.
#[verifier::external_body]
fn ascii_string(bytes: Vec<u8>) -> (r: String)
    requires
        forall|i: int| 0 <= i < bytes@.len() ==> #[trigger] bytes@[i] < 128,
    ensures
        r@ == ascii_chars(bytes@),
{
    String::from_utf8(bytes).unwrap_or_default()
}

fn push_octet(out: &mut Vec<u8>, o: u32)
    requires
        o < 256,
    ensures
        final(out)@ == old(out)@ + octet_text(o as nat),
{
    if o < 10 {
        out.push((48 + o) as u8);
    } else if o < 100 {
        out.push((48 + o / 10) as u8);
        out.push((48 + o % 10) as u8);
    } else {
        out.push((48 + o / 100) as u8);
        out.push((48 + (o / 10) % 10) as u8);
        out.push((48 + o % 10) as u8);
    }
    assert(final(out)@ =~= old(out)@ + octet_text(o as nat));
}

/// Dotted-quad text of a 32-bit address, as ASCII bytes.
pub fn dotted_quad_bytes(v: u32) -> (r: Vec<u8>)
    ensures
        r@ == dotted_quad(v as nat),
        forall|i: int| 0 <= i < r@.len() ==> 46 <= #[trigger] r@[i] <= 57,
{
    let q1: u32 = v / 256;
    let q2: u32 = q1 / 256;
    let q3: u32 = q2 / 256;
    let mut out: Vec<u8> = Vec::new();
    push_octet(&mut out, q3 % 256);
    out.push(46u8);
    push_octet(&mut out, q2 % 256);
    out.push(46u8);
    push_octet(&mut out, q1 % 256);
    out.push(46u8);
    push_octet(&mut out, v % 256);
    proof {
        lemma_octet_text((q3 % 256) as nat);
        lemma_octet_text((q2 % 256) as nat);
        lemma_octet_text((q1 % 256) as nat);
        lemma_octet_text((v % 256) as nat);
    }
    assert(out@ =~= dotted_quad(v as nat));
    out
}

/// Converts a directory address, a signed 32-bit value holding the bit
/// pattern of an IPv4 address, to dotted-quad text.
pub fn decimal_to_ip(number: i32) -> (r: String)
    ensures
        r@ == ascii_chars(dotted_quad(ip_value(number))),
{
    let v: u32 = if number >= 0 {
        number as u32
    } else {
        (number as i64 + 0x1_0000_0000i64) as u32
    };
    let text = dotted_quad_bytes(v);
    ascii_string(text)
}

/// Value of a decimal field of one to three ASCII digits.
pub open spec fn field_value(f: Seq<u8>) -> int {
    if f.len() == 1 {
        f[0] - 48
    } else if f.len() == 2 {
        (f[0] - 48) * 10 + (f[1] - 48)
    } else {
        (f[0] - 48) * 100 + (f[1] - 48) * 10 + (f[2] - 48)
    }
}

/// The text of octet `o` stands at `s` in `t` and is followed by a dot or by
/// the end of `t`.
pub open spec fn field_at(t: Seq<u8>, s: int, o: nat) -> bool {
    let l = octet_text(o).len() as int;
    &&& o < 256
    &&& 0 <= s
    &&& s + l <= t.len()
    &&& t.subrange(s, s + l) == octet_text(o)
    &&& (s + l == t.len() || t[s + l] == 46)
}

/// The address whose dotted-quad text is `s`, if there is one.
pub open spec fn parsed_ip(s: Seq<u8>) -> Option<u32> {
    if exists|v: u32| dotted_quad(v as nat) == s {
        Some(choose|v: u32| dotted_quad(v as nat) == s)
    } else {
        None
    }
}

pub proof fn lemma_octet_text(o: nat)
    requires
        o < 256,
    ensures
        1 <= octet_text(o).len() <= 3,
        forall|j: int| 0 <= j < octet_text(o).len() ==> 48 <= #[trigger] octet_text(o)[j] <= 57,
        field_value(octet_text(o)) == o,
{
    vstd::arithmetic::div_mod::lemma_fundamental_div_mod(o as int, 10);
    vstd::arithmetic::div_mod::lemma_fundamental_div_mod((o / 10) as int, 10);
    vstd::arithmetic::div_mod::lemma_div_denominator(o as int, 10, 10);
}

pub proof fn lemma_field_unique(t: Seq<u8>, s: int, a: nat, b: nat)
    requires
        field_at(t, s, a),
        field_at(t, s, b),
    ensures
        a == b,
{
    lemma_octet_text(a);
    lemma_octet_text(b);
    let la = octet_text(a).len() as int;
    let lb = octet_text(b).len() as int;
    if la < lb {
        assert(t.subrange(s, s + lb)[la] == t[s + la]);
        assert(false);
    } else if lb < la {
        assert(t.subrange(s, s + la)[lb] == t[s + lb]);
        assert(false);
    }
}

/// Where the four fields of a dotted-quad text stand.
pub proof fn lemma_dotted_fields(v: nat)
    requires
        v < 0x1_0000_0000,
    ensures
        ({
            let t = dotted_quad(v);
            let q1 = v / 256;
            let q2 = q1 / 256;
            let q3 = q2 / 256;
            let p2 = octet_text(q3 % 256).len() + 1int;
            let p1 = p2 + octet_text(q2 % 256).len() + 1;
            let p0 = p1 + octet_text(q1 % 256).len() + 1;
            &&& field_at(t, 0, q3 % 256)
            &&& t[p2 - 1] == 46
            &&& field_at(t, p2, q2 % 256)
            &&& t[p1 - 1] == 46
            &&& field_at(t, p1, q1 % 256)
            &&& t[p0 - 1] == 46
            &&& field_at(t, p0, v % 256)
            &&& p0 + octet_text(v % 256).len() == t.len()
        }),
{
    let t = dotted_quad(v);
    let q1 = v / 256;
    let q2 = q1 / 256;
    let q3 = q2 / 256;
    let a3 = octet_text(q3 % 256);
    let a2 = octet_text(q2 % 256);
    let a1 = octet_text(q1 % 256);
    let a0 = octet_text(v % 256);
    let p2 = a3.len() + 1int;
    let p1 = p2 + a2.len() + 1;
    let p0 = p1 + a1.len() + 1;
    assert(t.subrange(0, a3.len() as int) =~= a3);
    assert(t.subrange(p2, p2 + a2.len()) =~= a2);
    assert(t.subrange(p1, p1 + a1.len()) =~= a1);
    assert(t.subrange(p0, p0 + a0.len()) =~= a0);
}

/// An address is fixed by its four octets.
pub proof fn lemma_octets_determine(v: nat, w: nat)
    requires
        v < 0x1_0000_0000,
        w < 0x1_0000_0000,
        v % 256 == w % 256,
        (v / 256) % 256 == (w / 256) % 256,
        (v / 256 / 256) % 256 == (w / 256 / 256) % 256,
        (v / 256 / 256 / 256) % 256 == (w / 256 / 256 / 256) % 256,
    ensures
        v == w,
{
    vstd::arithmetic::div_mod::lemma_fundamental_div_mod(v as int, 256);
    vstd::arithmetic::div_mod::lemma_fundamental_div_mod((v / 256) as int, 256);
    vstd::arithmetic::div_mod::lemma_fundamental_div_mod((v / 256 / 256) as int, 256);
    vstd::arithmetic::div_mod::lemma_fundamental_div_mod(w as int, 256);
    vstd::arithmetic::div_mod::lemma_fundamental_div_mod((w / 256) as int, 256);
    vstd::arithmetic::div_mod::lemma_fundamental_div_mod((w / 256 / 256) as int, 256);
    assert(v / 256 / 256 / 256 < 256);
    assert(w / 256 / 256 / 256 < 256);
    vstd::arithmetic::div_mod::lemma_small_mod(v / 256 / 256 / 256, 256);
    vstd::arithmetic::div_mod::lemma_small_mod(w / 256 / 256 / 256, 256);
}

/// Two addresses with the same dotted-quad text are the same address.
pub proof fn lemma_dotted_quad_injective(v: u32, w: u32)
    requires
        dotted_quad(v as nat) == dotted_quad(w as nat),
    ensures
        v == w,
{
    let t = dotted_quad(v as nat);
    lemma_dotted_fields(v as nat);
    lemma_dotted_fields(w as nat);
    let (v1, w1) = (v as nat / 256, w as nat / 256);
    let (v2, w2) = (v1 / 256, w1 / 256);
    let (v3, w3) = (v2 / 256, w2 / 256);
    lemma_field_unique(t, 0, v3 % 256, w3 % 256);
    let p2 = octet_text(v3 % 256).len() + 1int;
    lemma_field_unique(t, p2, v2 % 256, w2 % 256);
    let p1 = p2 + octet_text(v2 % 256).len() + 1;
    lemma_field_unique(t, p1, v1 % 256, w1 % 256);
    let p0 = p1 + octet_text(v1 % 256).len() + 1;
    lemma_field_unique(t, p0, v as nat % 256, w as nat % 256);
    lemma_octets_determine(v as nat, w as nat);
}

/// Formatting an address as dotted-quad text and parsing that text back
/// gives the same address.
pub proof fn lemma_address_round_trip(v: u32)
    ensures
        parsed_ip(dotted_quad(v as nat)) == Some(v),
{
    let t = dotted_quad(v as nat);
    assert(exists|w: u32| dotted_quad(w as nat) == t);
    let w = choose|w: u32| dotted_quad(w as nat) == t;
    lemma_dotted_quad_injective(v, w);
}

fn parse_field(text: &[u8], start: usize) -> (r: Option<(u32, usize)>)
    requires
        start <= text@.len(),
    ensures
        r matches Some((o, end)) ==> field_at(text@, start as int, o as nat) && end == start
            + octet_text(o as nat).len(),
        r is None ==> forall|o: nat| !#[trigger] field_at(text@, start as int, o),
{
    let mut end: usize = start;
    while end < text.len() && text[end] != 46u8 && end - start < 4
        invariant
            start <= end <= text@.len(),
            end - start <= 4,
            forall|j: int| start <= j < end ==> text@[j] != 46,
        decreases text@.len() - end,
    {
        end = end + 1;
    }
    proof {
        assert forall|o: nat| #[trigger] field_at(text@, start as int, o) implies start
            + octet_text(o).len() == end by {
            lemma_octet_text(o);
            let l = octet_text(o).len() as int;
            if start + l < end {
                assert(text@[start + l] != 46);
            } else if start + l > end {
                assert(text@.subrange(start as int, start + l)[end - start] == text@[end as int]);
            }
        }
    }
    let n: usize = end - start;
    if n == 0 || n > 3 {
        proof {
            assert forall|o: nat| !#[trigger] field_at(text@, start as int, o) by {
                if field_at(text@, start as int, o) {
                    lemma_octet_text(o);
                }
            }
        }
        return None;
    }
    let mut k: usize = start;
    while k < end
        invariant
            start <= k <= end,
            end <= text@.len(),
            forall|o: nat| #[trigger] field_at(text@, start as int, o) ==> start + octet_text(
                o,
            ).len() == end,
            forall|j: int| start <= j < k ==> 48 <= #[trigger] text@[j] <= 57,
        decreases end - k,
    {
        if text[k] < 48u8 || text[k] > 57u8 {
            proof {
                assert forall|o: nat| !#[trigger] field_at(text@, start as int, o) by {
                    if field_at(text@, start as int, o) {
                        lemma_octet_text(o);
                        assert(text@.subrange(start as int, end as int)[k - start] == text@[k as int]);
                    }
                }
            }
            return None;
        }
        k = k + 1;
    }
    let value: u32 = if n == 1 {
        (text[start] - 48) as u32
    } else if n == 2 {
        (text[start] - 48) as u32 * 10 + (text[start + 1] - 48) as u32
    } else {
        (text[start] - 48) as u32 * 100 + (text[start + 1] - 48) as u32 * 10 + (text[start + 2]
            - 48) as u32
    };
    proof {
        assert(value == field_value(text@.subrange(start as int, end as int)));
    }
    if value >= 256 {
        proof {
            assert forall|o: nat| !#[trigger] field_at(text@, start as int, o) by {
                if field_at(text@, start as int, o) {
                    lemma_octet_text(o);
                }
            }
        }
        return None;
    }
    let mut canon: Vec<u8> = Vec::new();
    push_octet(&mut canon, value);
    assert(canon@ =~= octet_text(value as nat));
    if canon.len() != n {
        proof {
            assert forall|o: nat| !#[trigger] field_at(text@, start as int, o) by {
                if field_at(text@, start as int, o) {
                    lemma_octet_text(o);
                }
            }
        }
        return None;
    }
    let mut i: usize = 0;
    while i < n
        invariant
            i <= n,
            n == canon@.len(),
            canon@ == octet_text(value as nat),
            value == field_value(text@.subrange(start as int, end as int)),
            forall|o: nat| #[trigger] field_at(text@, start as int, o) ==> start + octet_text(
                o,
            ).len() == end,
            start + n == end,
            end <= text@.len(),
            forall|j: int| 0 <= j < i ==> canon@[j] == text@[start + j],
        decreases n - i,
    {
        if canon[i] != text[start + i] {
            proof {
                assert forall|o: nat| !#[trigger] field_at(text@, start as int, o) by {
                    if field_at(text@, start as int, o) {
                        lemma_octet_text(o);
                        assert(text@.subrange(start as int, end as int)[i as int] == text@[start
                            + i]);
                    }
                }
            }
            return None;
        }
        i = i + 1;
    }
    assert(text@.subrange(start as int, end as int) =~= octet_text(value as nat));
    proof {
        lemma_octet_text(value as nat);
    }
    Some((value, end))
}

/// No address has dotted-quad text `t`, because its fields cannot stand
/// where they would have to.
proof fn lemma_not_dotted(t: Seq<u8>, s0: int, o3: nat, s1: int, o2: nat, s2: int, o1: nat, s3: int, stage: int)
    requires
        0 <= stage <= 4,
        stage >= 1 ==> field_at(t, 0, o3) && s0 == octet_text(o3).len(),
        stage >= 2 ==> field_at(t, s0 + 1, o2) && s1 == s0 + 1 + octet_text(o2).len(),
        stage >= 3 ==> field_at(t, s1 + 1, o1) && s2 == s1 + 1 + octet_text(o1).len(),
        stage >= 4 ==> s3 == s2 + 1,
        stage == 0 ==> forall|o: nat| !#[trigger] field_at(t, 0, o),
        stage == 1 ==> s0 >= t.len() || forall|o: nat| !#[trigger] field_at(t, s0 + 1, o),
        stage == 2 ==> s1 >= t.len() || forall|o: nat| !#[trigger] field_at(t, s1 + 1, o),
        stage == 3 ==> s2 >= t.len() || forall|o: nat| !#[trigger] field_at(t, s2 + 1, o),
        stage == 4 ==> forall|o: nat| #[trigger] field_at(t, s3, o) ==> s3 + octet_text(o).len()
            != t.len(),
    ensures
        forall|w: u32| dotted_quad(w as nat) != t,
{
    assert forall|w: u32| dotted_quad(w as nat) != t by {
        if dotted_quad(w as nat) == t {
            lemma_dotted_fields(w as nat);
            let w1 = w as nat / 256;
            let w2 = w1 / 256;
            let w3 = w2 / 256;
            if stage >= 1 {
                lemma_field_unique(t, 0, o3, w3 % 256);
            }
            if stage >= 2 {
                lemma_field_unique(t, s0 + 1, o2, w2 % 256);
            }
            if stage >= 3 {
                lemma_field_unique(t, s1 + 1, o1, w1 % 256);
            }
            if stage == 4 {
                assert(field_at(t, s3, w as nat % 256));
            }
        }
    }
}

/// Parses dotted-quad text, as written by `dotted_quad_bytes`, back into the
/// address.
pub fn ip_to_decimal(text: &[u8]) -> (r: Option<u32>)
    ensures
        r == parsed_ip(text@),
{
    let (o3, e3) = match parse_field(text, 0) {
        Some(f) => f,
        None => {
            proof {
                lemma_not_dotted(text@, 0, 0, 0, 0, 0, 0, 0, 0);
            }
            return None;
        },
    };
    if e3 >= text.len() || text[e3] != 46u8 {
        proof {
            lemma_not_dotted(text@, e3 as int, o3 as nat, 0, 0, 0, 0, 0, 1);
        }
        return None;
    }
    let (o2, e2) = match parse_field(text, e3 + 1) {
        Some(f) => f,
        None => {
            proof {
                lemma_not_dotted(text@, e3 as int, o3 as nat, 0, 0, 0, 0, 0, 1);
            }
            return None;
        },
    };
    if e2 >= text.len() || text[e2] != 46u8 {
        proof {
            lemma_not_dotted(text@, e3 as int, o3 as nat, e2 as int, o2 as nat, 0, 0, 0, 2);
        }
        return None;
    }
    let (o1, e1) = match parse_field(text, e2 + 1) {
        Some(f) => f,
        None => {
            proof {
                lemma_not_dotted(text@, e3 as int, o3 as nat, e2 as int, o2 as nat, 0, 0, 0, 2);
            }
            return None;
        },
    };
    if e1 >= text.len() || text[e1] != 46u8 {
        proof {
            lemma_not_dotted(
                text@,
                e3 as int,
                o3 as nat,
                e2 as int,
                o2 as nat,
                e1 as int,
                o1 as nat,
                0,
                3,
            );
        }
        return None;
    }
    let (o0, e0) = match parse_field(text, e1 + 1) {
        Some(f) => f,
        None => {
            proof {
                lemma_not_dotted(
                    text@,
                    e3 as int,
                    o3 as nat,
                    e2 as int,
                    o2 as nat,
                    e1 as int,
                    o1 as nat,
                    0,
                    3,
                );
            }
            return None;
        },
    };
    if e0 != text.len() {
        proof {
            assert forall|o: nat| #[trigger] field_at(text@, e1 + 1, o) implies e1 + 1
                + octet_text(o).len() != text@.len() by {
                lemma_field_unique(text@, e1 + 1, o, o0 as nat);
            }
            lemma_not_dotted(
                text@,
                e3 as int,
                o3 as nat,
                e2 as int,
                o2 as nat,
                e1 as int,
                o1 as nat,
                e1 + 1,
                4,
            );
        }
        return None;
    }
    let v: u32 = o0 + 256 * (o1 + 256 * (o2 + 256 * o3));
    proof {
        let vn = v as nat;
        vstd::arithmetic::div_mod::lemma_fundamental_div_mod_converse(
            vn as int,
            256,
            (o1 + 256 * (o2 + 256 * o3)) as int,
            o0 as int,
        );
        let q1 = (o1 + 256 * (o2 + 256 * o3)) as int;
        vstd::arithmetic::div_mod::lemma_fundamental_div_mod_converse(
            q1,
            256,
            (o2 + 256 * o3) as int,
            o1 as int,
        );
        let q2 = (o2 + 256 * o3) as int;
        vstd::arithmetic::div_mod::lemma_fundamental_div_mod_converse(q2, 256, o3 as int, o2 as int);
        vstd::arithmetic::div_mod::lemma_small_mod(o3 as nat, 256);
        let t = text@;
        assert(t =~= t.subrange(0, e3 as int) + seq![46u8] + t.subrange(e3 + 1, e2 as int) + seq![
            46u8,
        ] + t.subrange(e2 + 1, e1 as int) + seq![46u8] + t.subrange(e1 + 1, e0 as int));
        assert(dotted_quad(vn) == t);
        assert forall|w: u32| dotted_quad(w as nat) == t implies w == v by {
            lemma_dotted_quad_injective(w, v);
        }
    }
    Some(v)
}

} // verus!
