use vstd::prelude::*;
use vstd::string::StrSliceExecFns;

verus! {

/// A character the LVCS accepts verbatim in a branch name: `[A-Za-z0-9_-]`.
pub open spec fn allowed_char(c: char) -> bool {
    ||| 'a' <= c && c <= 'z'
    ||| 'A' <= c && c <= 'Z'
    ||| '0' <= c && c <= '9'
    ||| c == '-'
    ||| c == '_'
}

/// The lowercase hexadecimal digit for a value below sixteen.
pub open spec fn spec_hex_digit(d: u32) -> char {
    if d == 0 {
        '0'
    } else if d == 1 {
        '1'
    } else if d == 2 {
        '2'
    } else if d == 3 {
        '3'
    } else if d == 4 {
        '4'
    } else if d == 5 {
        '5'
    } else if d == 6 {
        '6'
    } else if d == 7 {
        '7'
    } else if d == 8 {
        '8'
    } else if d == 9 {
        '9'
    } else if d == 10 {
        'a'
    } else if d == 11 {
        'b'
    } else if d == 12 {
        'c'
    } else if d == 13 {
        'd'
    } else if d == 14 {
        'e'
    } else {
        'f'
    }
}

/// Six lowercase hexadecimal digits of `u`, most significant first,
/// zero-padded on the left.
pub open spec fn spec_hex6(u: u32) -> Seq<char> {
    seq![
        spec_hex_digit((u >> 20) & 0xF),
        spec_hex_digit((u >> 16) & 0xF),
        spec_hex_digit((u >> 12) & 0xF),
        spec_hex_digit((u >> 8) & 0xF),
        spec_hex_digit((u >> 4) & 0xF),
        spec_hex_digit(u & 0xF),
    ]
}

/// The escape sequence standing for a disallowed character: the marker `__u`
/// followed by the six hexadecimal digits of its Unicode scalar value.
pub open spec fn escape_char(c: char) -> Seq<char> {
    seq!['_', '_', 'u'] + spec_hex6(c as u32)
}

/// What one input character contributes to the sanitised name.
pub open spec fn sanitize_char(c: char) -> Seq<char> {
    if allowed_char(c) {
        seq![c]
    } else {
        escape_char(c)
    }
}

/// The sanitised form of a branch name: allowed characters stand for
/// themselves, every other character is replaced by its escape sequence.
pub open spec fn sanitize(s: Seq<char>) -> Seq<char>
    decreases s.len(),
{
    if s.len() == 0 {
        Seq::empty()
    } else {
        sanitize_char(s[0]) + sanitize(s.drop_first())
    }
}

/// Holds when `s` nowhere contains the three-character escape marker `__u`.
/// On such inputs sanitising is invertible; see `lemma_sanitize_injective`.
pub open spec fn no_escape_marker(s: Seq<char>) -> bool {
    forall|i: int|
        0 <= i && i + 3 <= s.len() ==> !(#[trigger] s[i] == '_' && s[i + 1] == '_' && s[i + 2]
            == 'u')
}

fn hex_digit(d: u32) -> (c: char)
    requires
        d < 16,
    ensures
        c == spec_hex_digit(d),
{
    if d == 0 {
        '0'
    } else if d == 1 {
        '1'
    } else if d == 2 {
        '2'
    } else if d == 3 {
        '3'
    } else if d == 4 {
        '4'
    } else if d == 5 {
        '5'
    } else if d == 6 {
        '6'
    } else if d == 7 {
        '7'
    } else if d == 8 {
        '8'
    } else if d == 9 {
        '9'
    } else if d == 10 {
        'a'
    } else if d == 11 {
        'b'
    } else if d == 12 {
        'c'
    } else if d == 13 {
        'd'
    } else if d == 14 {
        'e'
    } else {
        'f'
    }
}

/// Relies on `FromIterator<char> for String`: collecting characters yields the
/// string of exactly those characters, in order.
#[verifier::external_body]
fn chars_to_string(v: &Vec<char>) -> (r: String)
    ensures
        r@ == v@,
{
    v.iter().collect()
}

/// Appending one more character to the input extends the sanitised form by
/// that character's contribution.
proof fn lemma_sanitize_push(s: Seq<char>, t: Seq<char>)
    ensures
        sanitize(s + t) == sanitize(s) + sanitize(t),
    decreases s.len(),
{
    if s.len() == 0 {
        assert(s + t =~= t);
        assert(sanitize(s) + sanitize(t) =~= sanitize(t));
    } else {
        lemma_sanitize_push(s.drop_first(), t);
        assert((s + t).drop_first() =~= s.drop_first() + t);
        assert((s + t)[0] == s[0]);
        assert(sanitize(s + t) =~= sanitize(s) + sanitize(t));
    }
}

/// Maps a branch name to an LVCS-safe identifier over `[A-Za-z0-9_-]`: each
/// allowed character is kept, every other character becomes `__u` followed by
/// six lowercase hexadecimal digits of its Unicode scalar value.
pub fn sanitise_branch(name: &str) -> (r: String)
    ensures
        r@ == sanitize(name@),
{
    let n = name.unicode_len();
    let mut out: Vec<char> = Vec::new();
    let mut i: usize = 0;
    while i < n
        invariant
            n == name@.len(),
            i <= n,
            out@ == sanitize(name@.take(i as int)),
        decreases n - i,
    {
        let c = name.get_char(i);
        let u = c as u32;
        proof {
            assert(name@.take(i as int) + seq![c] =~= name@.take(i + 1 as int));
            lemma_sanitize_push(name@.take(i as int), seq![c]);
            assert(seq![c].drop_first() =~= Seq::<char>::empty());
            assert(sanitize(Seq::<char>::empty()) =~= Seq::<char>::empty());
            assert(sanitize(seq![c]) =~= sanitize_char(c));
        }
        if (97 <= u && u <= 122) || (65 <= u && u <= 90) || (48 <= u && u <= 57) || u == 45 || u
            == 95 {
            out.push(c);
        } else {
            out.push('_');
            out.push('_');
            out.push('u');
            proof {
                assert((u >> 20) & 0xF < 16 && (u >> 16) & 0xF < 16 && (u >> 12) & 0xF < 16 && (u
                    >> 8) & 0xF < 16 && (u >> 4) & 0xF < 16 && u & 0xF < 16) by (bit_vector);
            }
            out.push(hex_digit((u >> 20) & 0xF));
            out.push(hex_digit((u >> 16) & 0xF));
            out.push(hex_digit((u >> 12) & 0xF));
            out.push(hex_digit((u >> 8) & 0xF));
            out.push(hex_digit((u >> 4) & 0xF));
            out.push(hex_digit(u & 0xF));
            proof {
                assert(out@ =~= sanitize(name@.take(i as int)) + sanitize_char(c));
            }
        }
        i = i + 1;
    }
    proof {
        assert(name@.take(n as int) =~= name@);
    }
    chars_to_string(&out)
}

/// A branch name made only of allowed characters sanitises to itself.
///
/// Law: sanitising is the identity on strings over `[A-Za-z0-9_-]`.
pub proof fn lemma_sanitize_identity(s: Seq<char>)
    requires
        forall|i: int| 0 <= i < s.len() ==> allowed_char(#[trigger] s[i]),
    ensures
        sanitize(s) == s,
    decreases s.len(),
{
    if s.len() == 0 {
        assert(sanitize(s) =~= s);
    } else {
        assert(allowed_char(s[0]));
        lemma_sanitize_identity(s.drop_first());
        assert(sanitize(s) =~= s);
    }
}

proof fn lemma_hex_digit_injective(x: u32, y: u32)
    requires
        x < 16,
        y < 16,
        spec_hex_digit(x) == spec_hex_digit(y),
    ensures
        x == y,
{
}

proof fn lemma_hex6_injective(a: u32, b: u32)
    requires
        a < 0x110000,
        b < 0x110000,
        spec_hex6(a) == spec_hex6(b),
    ensures
        a == b,
{
    assert((a >> 20) & 0xF < 16 && (a >> 16) & 0xF < 16 && (a >> 12) & 0xF < 16 && (a >> 8) & 0xF
        < 16 && (a >> 4) & 0xF < 16 && a & 0xF < 16) by (bit_vector);
    assert((b >> 20) & 0xF < 16 && (b >> 16) & 0xF < 16 && (b >> 12) & 0xF < 16 && (b >> 8) & 0xF
        < 16 && (b >> 4) & 0xF < 16 && b & 0xF < 16) by (bit_vector);
    assert(spec_hex6(a)[0] == spec_hex6(b)[0]);
    assert(spec_hex6(a)[1] == spec_hex6(b)[1]);
    assert(spec_hex6(a)[2] == spec_hex6(b)[2]);
    assert(spec_hex6(a)[3] == spec_hex6(b)[3]);
    assert(spec_hex6(a)[4] == spec_hex6(b)[4]);
    assert(spec_hex6(a)[5] == spec_hex6(b)[5]);
    lemma_hex_digit_injective((a >> 20) & 0xF, (b >> 20) & 0xF);
    lemma_hex_digit_injective((a >> 16) & 0xF, (b >> 16) & 0xF);
    lemma_hex_digit_injective((a >> 12) & 0xF, (b >> 12) & 0xF);
    lemma_hex_digit_injective((a >> 8) & 0xF, (b >> 8) & 0xF);
    lemma_hex_digit_injective((a >> 4) & 0xF, (b >> 4) & 0xF);
    lemma_hex_digit_injective(a & 0xF, b & 0xF);
    assert(a == b) by (bit_vector)
        requires
            (a >> 20) & 0xF == (b >> 20) & 0xF,
            (a >> 16) & 0xF == (b >> 16) & 0xF,
            (a >> 12) & 0xF == (b >> 12) & 0xF,
            (a >> 8) & 0xF == (b >> 8) & 0xF,
            (a >> 4) & 0xF == (b >> 4) & 0xF,
            a & 0xF == b & 0xF,
            a < 0x110000,
            b < 0x110000,
    ;
}

/// The sanitised form of a non-empty input is non-empty, so only the empty
/// name sanitises to the empty string.
proof fn lemma_sanitize_empty(s: Seq<char>)
    ensures
        s.len() == 0 <==> sanitize(s).len() == 0,
        s.len() > 0 ==> sanitize(s).len() >= 1,
{
    if s.len() > 0 {
        assert(sanitize_char(s[0]).len() >= 1);
    }
}

/// If the input starts with an allowed character and contains no escape
/// marker, its sanitised form does not start with `__u`.
proof fn lemma_no_marker_start(s: Seq<char>)
    requires
        s.len() > 0,
        allowed_char(s[0]),
        no_escape_marker(s),
        sanitize(s).len() >= 3,
    ensures
        !(sanitize(s)[0] == '_' && sanitize(s)[1] == '_' && sanitize(s)[2] == 'u'),
{
    let t = s.drop_first();
    assert(sanitize(s) =~= seq![s[0]] + sanitize(t));
    if s[0] != '_' {
    } else {
        lemma_sanitize_empty(t);
        assert(t.len() > 0);
        let t2 = t.drop_first();
        if !allowed_char(t[0]) {
            assert(sanitize(t) =~= escape_char(t[0]) + sanitize(t2));
            assert(sanitize(s)[2] == '_');
        } else {
            assert(sanitize(t) =~= seq![t[0]] + sanitize(t2));
            if t[0] != '_' {
                assert(sanitize(s)[1] == t[0]);
            } else {
                lemma_sanitize_empty(t2);
                assert(t2.len() > 0);
                if !allowed_char(t2[0]) {
                    assert(sanitize(t2) =~= escape_char(t2[0]) + sanitize(t2.drop_first()));
                    assert(sanitize(s)[2] == '_');
                } else {
                    assert(sanitize(t2) =~= seq![t2[0]] + sanitize(t2.drop_first()));
                    assert(sanitize(s)[2] == t2[0]);
                    if t2[0] == 'u' {
                        assert(s[0] == '_' && s[1] == '_' && s[2] == 'u');
                        assert(false);
                    }
                }
            }
        }
    }
}

proof fn lemma_no_marker_drop(s: Seq<char>)
    requires
        no_escape_marker(s),
        s.len() > 0,
    ensures
        no_escape_marker(s.drop_first()),
{
    let t = s.drop_first();
    assert forall|i: int| 0 <= i && i + 3 <= t.len() implies !(#[trigger] t[i] == '_' && t[i + 1]
        == '_' && t[i + 2] == 'u') by {
        assert(t[i] == s[i + 1] && t[i + 1] == s[i + 2] && t[i + 2] == s[i + 3]);
    }
}

/// Distinct inputs sanitise to distinct names, provided neither contains the
/// escape marker `__u` as a substring.
///
/// Law: on that domain the sanitiser is injective, because an escape sequence
/// in the output can then only have come from escaping a disallowed character.
pub proof fn lemma_sanitize_injective(s1: Seq<char>, s2: Seq<char>)
    requires
        no_escape_marker(s1),
        no_escape_marker(s2),
        sanitize(s1) == sanitize(s2),
    ensures
        s1 == s2,
    decreases s1.len(),
{
    lemma_sanitize_empty(s1);
    lemma_sanitize_empty(s2);
    if s1.len() == 0 {
        assert(s1 =~= s2);
    } else if s2.len() == 0 {
        assert(s1 =~= s2);
    } else {
        let t1 = s1.drop_first();
        let t2 = s2.drop_first();
        lemma_no_marker_drop(s1);
        lemma_no_marker_drop(s2);
        if allowed_char(s1[0]) && allowed_char(s2[0]) {
            assert(sanitize(s1) =~= seq![s1[0]] + sanitize(t1));
            assert(sanitize(s2) =~= seq![s2[0]] + sanitize(t2));
            assert(sanitize(s1)[0] == s1[0]);
            assert(sanitize(s2)[0] == s2[0]);
            assert(s1[0] == s2[0]);
            assert(sanitize(t1) =~= sanitize(s1).drop_first());
            assert(sanitize(t2) =~= sanitize(s2).drop_first());
            lemma_sanitize_injective(t1, t2);
            assert forall|i: int| 0 <= i < s1.len() implies s1[i] == s2[i] by {
                if i > 0 {
                    assert(t1[i - 1] == s1[i]);
                    assert(t2[i - 1] == s2[i]);
                }
            }
            assert(s1 =~= s2);
        } else if !allowed_char(s1[0]) && !allowed_char(s2[0]) {
            assert(sanitize(s1) =~= escape_char(s1[0]) + sanitize(t1));
            assert(sanitize(s2) =~= escape_char(s2[0]) + sanitize(t2));
            assert(escape_char(s1[0]).len() == 9);
            assert(escape_char(s2[0]).len() == 9);
            assert forall|k: int| 0 <= k < 9 implies #[trigger] escape_char(s1[0])[k]
                == escape_char(s2[0])[k] by {
                assert(sanitize(s1)[k] == escape_char(s1[0])[k]);
                assert(sanitize(s2)[k] == escape_char(s2[0])[k]);
            }
            assert(escape_char(s1[0]) =~= escape_char(s2[0]));
            assert(escape_char(s1[0]).skip(3) =~= spec_hex6(s1[0] as u32));
            assert(escape_char(s2[0]).skip(3) =~= spec_hex6(s2[0] as u32));
            vstd::utf8::char_is_scalar(s1[0]);
            vstd::utf8::char_is_scalar(s2[0]);
            assert((s1[0] as u32) < 0x110000);
            assert((s2[0] as u32) < 0x110000);
            lemma_hex6_injective(s1[0] as u32, s2[0] as u32);
            vstd::utf8::char_u32_cast(s1[0], s1[0] as u32);
            vstd::utf8::char_u32_cast(s2[0], s2[0] as u32);
            assert(s1[0] == s2[0]);
            assert(sanitize(t1) =~= sanitize(s1).skip(9));
            assert(sanitize(t2) =~= sanitize(s2).skip(9));
            lemma_sanitize_injective(t1, t2);
            assert forall|i: int| 0 <= i < s1.len() implies s1[i] == s2[i] by {
                if i > 0 {
                    assert(t1[i - 1] == s1[i]);
                    assert(t2[i - 1] == s2[i]);
                }
            }
            assert(s1 =~= s2);
        } else if allowed_char(s1[0]) {
            assert(sanitize(s2) =~= escape_char(s2[0]) + sanitize(t2));
            assert(sanitize(s2).len() >= 9);
            assert(sanitize(s2)[0] == '_' && sanitize(s2)[1] == '_' && sanitize(s2)[2] == 'u');
            lemma_no_marker_start(s1);
            assert(false);
        } else {
            assert(sanitize(s1) =~= escape_char(s1[0]) + sanitize(t1));
            assert(sanitize(s1).len() >= 9);
            assert(sanitize(s1)[0] == '_' && sanitize(s1)[1] == '_' && sanitize(s1)[2] == 'u');
            lemma_no_marker_start(s2);
            assert(false);
        }
    }
}

} // verus!
