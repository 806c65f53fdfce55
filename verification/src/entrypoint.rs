//! Display helper for raw instruction buffers: renders bytes as printable
//! ASCII with the usual backslash escapes.
use vstd::prelude::*;

verus! {

/// The lowercase hex digit for a nibble.
pub open spec fn spec_hex_digit(n: u8) -> char {
    if n < 10 {
        (48 + n) as char
    } else {
        (87 + n) as char
    }
}

/// The printable escape of one byte: tab, carriage return, line feed,
/// backslash, and both quotes get a backslash escape; other printable ASCII
/// stands for itself; everything else becomes a two-digit hex escape.
pub open spec fn spec_escape_byte(b: u8) -> Seq<char> {
    if b == 9 {
        seq!['\\', 't']
    } else if b == 13 {
        seq!['\\', 'r']
    } else if b == 10 {
        seq!['\\', 'n']
    } else if b == 92 {
        seq!['\\', '\\']
    } else if b == 39 {
        seq!['\\', '\'']
    } else if b == 34 {
        seq!['\\', '"']
    } else if 32 <= b && b <= 126 {
        seq![b as char]
    } else {
        seq!['\\', 'x', spec_hex_digit(b / 16), spec_hex_digit(b % 16)]
    }
}

/// The printable escape of a whole byte string.
pub open spec fn spec_show(s: Seq<u8>) -> Seq<char>
    decreases s.len(),
{
    if s.len() == 0 {
        Seq::empty()
    } else {
        spec_escape_byte(s[0]) + spec_show(s.drop_first())
    }
}

proof fn lemma_show_take_succ(s: Seq<u8>, i: int)
    requires
        0 <= i < s.len(),
    ensures
        spec_show(s.take(i + 1)) == spec_show(s.take(i)) + spec_escape_byte(s[i]),
    decreases i,
{
    if i == 0 {
        assert(s.take(1) =~= seq![s[0]]);
        assert(s.take(0) =~= Seq::<u8>::empty());
        assert(seq![s[0]].drop_first() =~= Seq::<u8>::empty());
        assert(spec_show(s.take(1)) =~= spec_show(s.take(0)) + spec_escape_byte(s[0]));
    } else {
        let t = s.drop_first();
        lemma_show_take_succ(t, i - 1);
        assert(s.take(i + 1).drop_first() =~= t.take(i));
        assert(s.take(i).drop_first() =~= t.take(i - 1));
        assert(s.take(i + 1)[0] == s[0]);
        assert(s.take(i)[0] == s[0]);
        assert(t[i - 1] == s[i]);
        assert(spec_escape_byte(s[0]) + (spec_show(t.take(i - 1)) + spec_escape_byte(s[i]))
            =~= (spec_escape_byte(s[0]) + spec_show(t.take(i - 1))) + spec_escape_byte(s[i]));
    }
}

/// The characters spelled by a sequence of ASCII bytes.
pub open spec fn spec_chars_of(s: Seq<u8>) -> Seq<char> {
    Seq::new(s.len(), |i: int| s[i] as char)
}

/// Relies on `String::from_utf8`: a buffer of ASCII bytes is valid UTF-8 and
/// decodes to the string of exactly those characters, in order.
#[verifier::external_body]
fn ascii_bytes_to_string(v: Vec<u8>) -> (r: String)
    requires
        forall|i: int| 0 <= i < v@.len() ==> v@[i] < 128,
    ensures
        r@.len() == v@.len(),
        forall|i: int| 0 <= i < v@.len() ==> r@[i] == v@[i] as char,
{
    match String::from_utf8(v) {
        Ok(s) => s,
        Err(_) => String::new(),
    }
}

/// The lowercase hex digit for a nibble.
fn hex_digit(n: u8) -> (r: u8)
    requires
        n < 16,
    ensures
        r < 128,
        (r as char) == spec_hex_digit(n),
{
    if n < 10 {
        48 + n
    } else {
        87 + n
    }
}

/// Renders a byte buffer as printable ASCII, escaping control and non-ASCII
/// bytes as Rust byte-escape sequences.
pub fn show(buf: &Vec<u8>) -> (r: String)
    ensures
        r@ == spec_show(buf@),
{
    let mut out: Vec<u8> = Vec::new();
    let n = buf.len();
    let mut i: usize = 0;
    proof {
        assert(buf@.take(0) =~= Seq::<u8>::empty());
        assert(spec_chars_of(out@) =~= spec_show(buf@.take(0)));
    }
    while i < n
        invariant
            0 <= i <= n,
            n == buf@.len(),
            forall|k: int| 0 <= k < out@.len() ==> out@[k] < 128,
            spec_chars_of(out@) == spec_show(buf@.take(i as int)),
        decreases n - i,
    {
        let b = buf[i];
        let ghost before = out@;
        if b == 9 {
            out.push(92);
            out.push(116);
        } else if b == 13 {
            out.push(92);
            out.push(114);
        } else if b == 10 {
            out.push(92);
            out.push(110);
        } else if b == 92 {
            out.push(92);
            out.push(92);
        } else if b == 39 {
            out.push(92);
            out.push(39);
        } else if b == 34 {
            out.push(92);
            out.push(34);
        } else if 32 <= b && b <= 126 {
            out.push(b);
        } else {
            out.push(92);
            out.push(120);
            out.push(hex_digit(b / 16));
            out.push(hex_digit(b % 16));
        }
        proof {
            lemma_show_take_succ(buf@, i as int);
            assert(spec_chars_of(out@) =~= spec_chars_of(before) + spec_escape_byte(
                buf@[i as int],
            ));
        }
        i += 1;
    }
    proof {
        assert(buf@.take(n as int) =~= buf@);
    }
    let r = ascii_bytes_to_string(out);
    proof {
        assert(r@ =~= spec_show(buf@));
    }
    r
}

} // verus!
