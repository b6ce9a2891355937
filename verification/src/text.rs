use vstd::prelude::*;
use vstd::string::StrSliceExecFns;
use vstd::string::StringExecFns;

verus! {

/// The decimal digit character for `d` (digits above nine collapse to `'9'`;
/// callers only use `d < 10`).
pub open spec fn dec_digit(d: nat) -> char {
    if d == 0 {
        '0'
    } else if d == 1 {
        '1'
    } else if d == 2 {
        '2'
    } else if d == 3 {
        '3'
    } else if d == 4 {
        '4'
    } else if d == 5 {
        '5'
    } else if d == 6 {
        '6'
    } else if d == 7 {
        '7'
    } else if d == 8 {
        '8'
    } else {
        '9'
    }
}

/// The decimal representation of `n`, most significant digit first, with no
/// leading zeros (a single `'0'` for zero).
pub open spec fn dec_seq(n: nat) -> Seq<char>
    decreases n,
{
    if n < 10 {
        seq![dec_digit(n)]
    } else {
        dec_seq(n / 10).push(dec_digit(n % 10))
    }
}

pub proof fn lemma_dec_seq_len(n: nat)
    ensures
        dec_seq(n).len() >= 1,
    decreases n,
{
    if n >= 10 {
        lemma_dec_seq_len(n / 10);
    }
}

/// No character of a decimal representation is a colon, so a colon can
/// delimit the length prefix of a canonical handle key.
pub proof fn lemma_dec_seq_no_colon(n: nat)
    ensures
        forall|i: int| 0 <= i < dec_seq(n).len() ==> dec_seq(n)[i] != ':',
    decreases n,
{
    if n < 10 {
        assert(dec_seq(n)[0] == dec_digit(n));
    } else {
        lemma_dec_seq_no_colon(n / 10);
        assert forall|i: int| 0 <= i < dec_seq(n).len() implies dec_seq(n)[i] != ':' by {
            if i < dec_seq(n / 10).len() {
                assert(dec_seq(n)[i] == dec_seq(n / 10)[i]);
            } else {
                assert(dec_seq(n)[i] == dec_digit(n % 10));
            }
        }
    }
}

proof fn lemma_dec_digit_injective(a: nat, b: nat)
    requires
        a < 10,
        b < 10,
        dec_digit(a) == dec_digit(b),
    ensures
        a == b,
{
}

/// Two numbers with the same decimal representation are equal.
pub proof fn lemma_dec_seq_injective(a: nat, b: nat)
    requires
        dec_seq(a) == dec_seq(b),
    ensures
        a == b,
    decreases a,
{
    if a < 10 && b < 10 {
        assert(dec_seq(a)[0] == dec_digit(a));
        assert(dec_seq(b)[0] == dec_digit(b));
        lemma_dec_digit_injective(a, b);
    } else if a < 10 && b >= 10 {
        lemma_dec_seq_len(b / 10);
        assert(dec_seq(b).len() >= 2);
    } else if a >= 10 && b < 10 {
        lemma_dec_seq_len(a / 10);
        assert(dec_seq(a).len() >= 2);
    } else {
        assert(dec_seq(a).last() == dec_digit(a % 10));
        assert(dec_seq(b).last() == dec_digit(b % 10));
        lemma_dec_digit_injective(a % 10, b % 10);
        assert(dec_seq(a).drop_last() =~= dec_seq(a / 10));
        assert(dec_seq(b).drop_last() =~= dec_seq(b / 10));
        lemma_dec_seq_injective(a / 10, b / 10);
    }
}

fn digit_str(d: u8) -> (r: &'static str)
    requires
        d < 10,
    ensures
        r@ == seq![dec_digit(d as nat)],
{
    let r: &'static str = if d == 0 {
        "0"
    } else if d == 1 {
        "1"
    } else if d == 2 {
        "2"
    } else if d == 3 {
        "3"
    } else if d == 4 {
        "4"
    } else if d == 5 {
        "5"
    } else if d == 6 {
        "6"
    } else if d == 7 {
        "7"
    } else if d == 8 {
        "8"
    } else {
        "9"
    };
    proof {
        reveal_strlit("0");
        reveal_strlit("1");
        reveal_strlit("2");
        reveal_strlit("3");
        reveal_strlit("4");
        reveal_strlit("5");
        reveal_strlit("6");
        reveal_strlit("7");
        reveal_strlit("8");
        reveal_strlit("9");
        assert(r@ =~= seq![dec_digit(d as nat)]);
    }
    r
}

/// Renders `n` in decimal, exactly as `dec_seq` describes it.
pub fn u128_to_dec(n: u128) -> (r: String)
    ensures
        r@ == dec_seq(n as nat),
    decreases n,
{
    if n < 10 {
        digit_str(n as u8).to_owned()
    } else {
        let mut r = u128_to_dec(n / 10);
        r.append(digit_str((n % 10) as u8));
        proof {
            assert(r@ =~= dec_seq(n as nat));
        }
        r
    }
}

/// The canonical string key for a case-folded (platform, handle) pair: the
/// decimal length of the platform, a colon, the platform, then the handle.
/// The length prefix keeps distinct pairs from colliding.
pub open spec fn handle_key(platform: Seq<char>, handle: Seq<char>) -> Seq<char> {
    dec_seq(platform.len()) + seq![':'] + platform + handle
}

/// Distinct (platform, handle) pairs always canonicalize to distinct keys.
pub proof fn lemma_handle_key_injective(p1: Seq<char>, h1: Seq<char>, p2: Seq<char>, h2: Seq<char>)
    requires
        handle_key(p1, h1) == handle_key(p2, h2),
    ensures
        p1 == p2,
        h1 == h2,
{
    let d1 = dec_seq(p1.len());
    let d2 = dec_seq(p2.len());
    let k1 = handle_key(p1, h1);
    let k2 = handle_key(p2, h2);
    lemma_dec_seq_no_colon(p1.len());
    lemma_dec_seq_no_colon(p2.len());
    if d1.len() < d2.len() {
        assert(k1[d1.len() as int] == ':');
        assert(k2[d1.len() as int] == d2[d1.len() as int]);
        assert(false);
    } else if d2.len() < d1.len() {
        assert(k2[d2.len() as int] == ':');
        assert(k1[d2.len() as int] == d1[d2.len() as int]);
        assert(false);
    } else {
        assert(d1 =~= d2) by {
            assert(forall|i: int| 0 <= i < d1.len() ==> k1[i] == d1[i] && k2[i] == d2[i]);
        }
        lemma_dec_seq_injective(p1.len(), p2.len());
        assert(p1.len() == p2.len());
        assert(k1.len() == d1.len() + 1 + p1.len() + h1.len());
        assert(k2.len() == d2.len() + 1 + p2.len() + h2.len());
        assert(h1.len() == h2.len());
        let off = d1.len() as int + 1;
        assert(p1 =~= p2) by {
            assert(forall|i: int|
                0 <= i < p1.len() ==> k1[off + i] == p1[i] && k2[off + i] == p2[i]);
        }
        assert(h1 =~= h2) by {
            assert(forall|i: int|
                0 <= i < h1.len() ==> k1[off + p1.len() + i] == h1[i] && k2[off + p2.len() + i]
                    == h2[i]);
        }
    }
}

/// The case folding that `str::to_lowercase` applies; it depends on the
/// characters alone, so it is given a name rather than a definition.
pub uninterp spec fn lower_of(s: Seq<char>) -> Seq<char>;

/// Relies on str::to_lowercase: returns the lowercase equivalent of the
/// string, a function of its characters alone; an empty string stays empty.
#[verifier::external_body]
pub fn lowercase(s: &str) -> (r: String)
    ensures
        r@ == lower_of(s@),
        s@.len() == 0 ==> r@.len() == 0,
{
    s.to_lowercase()
}

/// Relies on String::push: appends the given character to the end of the
/// string.
#[verifier::external_body]
pub fn push_char(s: &mut String, c: char)
    ensures
        final(s)@ == old(s)@.push(c),
{
    s.push(c);
}

/// The hexadecimal digit character for `d` (values above fifteen collapse to
/// `'f'`; callers only use `d < 16`).
pub open spec fn hex_digit(d: nat) -> char {
    if d < 10 {
        dec_digit(d)
    } else if d == 10 {
        'a'
    } else if d == 11 {
        'b'
    } else if d == 12 {
        'c'
    } else if d == 13 {
        'd'
    } else if d == 14 {
        'e'
    } else {
        'f'
    }
}

/// How one character is written inside a JSON string literal: quotes and
/// backslashes get a backslash escape, control characters a `\u00XX` escape,
/// and every other character stands for itself.
pub open spec fn escape_char(c: char) -> Seq<char> {
    if c == '"' {
        seq!['\\', '"']
    } else if c == '\\' {
        seq!['\\', '\\']
    } else if (c as u32) < 32 {
        seq!['\\', 'u', '0', '0', hex_digit((c as u32 / 16) as nat), hex_digit(
            (c as u32 % 16) as nat,
        )]
    } else {
        seq![c]
    }
}

/// The body of a JSON string literal holding `s`.
pub open spec fn escape_seq(s: Seq<char>) -> Seq<char>
    decreases s.len(),
{
    if s.len() == 0 {
        Seq::empty()
    } else {
        escape_char(s[0]) + escape_seq(s.skip(1))
    }
}

pub proof fn lemma_escape_seq_push(s: Seq<char>, c: char)
    ensures
        escape_seq(s.push(c)) == escape_seq(s) + escape_char(c),
    decreases s.len(),
{
    if s.len() == 0 {
        assert(s.push(c).len() == 1);
        assert(s.push(c)[0] == c);
        assert(s.push(c).skip(1) =~= Seq::<char>::empty());
        assert(escape_seq(s.push(c)) == escape_char(c) + escape_seq(Seq::<char>::empty()));
        assert(escape_seq(Seq::<char>::empty()) =~= Seq::<char>::empty());
        assert(escape_seq(s) =~= Seq::<char>::empty());
        assert(escape_char(c) + Seq::<char>::empty() =~= Seq::<char>::empty() + escape_char(c));
    } else {
        assert(s.push(c)[0] == s[0]);
        assert(s.push(c).skip(1) =~= s.skip(1).push(c));
        assert(escape_seq(s.push(c)) == escape_char(s[0]) + escape_seq(s.skip(1).push(c)));
        lemma_escape_seq_push(s.skip(1), c);
        assert(escape_char(s[0]) + (escape_seq(s.skip(1)) + escape_char(c)) =~= (escape_char(s[0])
            + escape_seq(s.skip(1))) + escape_char(c));
    }
}

fn hex_digit_str(d: u8) -> (r: &'static str)
    requires
        d < 16,
    ensures
        r@ == seq![hex_digit(d as nat)],
{
    if d < 10 {
        digit_str(d)
    } else {
        let r: &'static str = if d == 10 {
            "a"
        } else if d == 11 {
            "b"
        } else if d == 12 {
            "c"
        } else if d == 13 {
            "d"
        } else if d == 14 {
            "e"
        } else {
            "f"
        };
        proof {
            reveal_strlit("a");
            reveal_strlit("b");
            reveal_strlit("c");
            reveal_strlit("d");
            reveal_strlit("e");
            reveal_strlit("f");
            assert(r@ =~= seq![hex_digit(d as nat)]);
        }
        r
    }
}

/// Appends `s` to `out` in JSON string-literal form, escaping as
/// `escape_seq` describes.
pub fn append_escaped(out: &mut String, s: &str)
    ensures
        final(out)@ == old(out)@ + escape_seq(s@),
{
    let len = s.unicode_len();
    let mut i: usize = 0;
    proof {
        assert(s@.take(0) =~= Seq::<char>::empty());
        assert(out@ =~= old(out)@ + escape_seq(s@.take(0)));
    }
    while i < len
        invariant
            i <= len,
            len == s@.len(),
            out@ == old(out)@ + escape_seq(s@.take(i as int)),
        decreases len - i,
    {
        let c = s.get_char(i);
        if c == '"' {
            out.append("\\\"");
            proof {
                reveal_strlit("\\\"");
            }
        } else if c == '\\' {
            out.append("\\\\");
            proof {
                reveal_strlit("\\\\");
            }
        } else {
            let u = c as u32;
            if u < 32 {
                out.append("\\u00");
                out.append(hex_digit_str((u / 16) as u8));
                out.append(hex_digit_str((u % 16) as u8));
                proof {
                    reveal_strlit("\\u00");
                }
            } else {
                push_char(out, c);
            }
        }
        proof {
            assert(s@.take(i + 1) =~= s@.take(i as int).push(s@[i as int]));
            lemma_escape_seq_push(s@.take(i as int), s@[i as int]);
            assert(out@ =~= old(out)@ + escape_seq(s@.take(i + 1)));
        }
        i = i + 1;
    }
    proof {
        assert(s@.take(len as int) =~= s@);
    }
}

} // verus!
