use vstd::prelude::*;

verus! {

/// A structured message value, the unit of work handed to the producer.
/// It mirrors the shape of a JSON document; numbers are integers, since
/// the queue layer never does fractional arithmetic on a payload.
pub enum JsonValue {
    Null,
    Bool(bool),
    Int(i64),
    Str(String),
    Arr(Vec<JsonValue>),
    Obj(Vec<(String, JsonValue)>),
}

/// The character for a single decimal digit.
pub open spec fn digit_char(d: nat) -> char {
    if d == 0 {
        '0'
    } else if d == 1 {
        '1'
    } else if d == 2 {
        '2'
    } else if d == 3 {
        '3'
    } else if d == 4 {
        '4'
    } else if d == 5 {
        '5'
    } else if d == 6 {
        '6'
    } else if d == 7 {
        '7'
    } else if d == 8 {
        '8'
    } else if d == 9 {
        '9'
    } else if d == 10 {
        'a'
    } else if d == 11 {
        'b'
    } else if d == 12 {
        'c'
    } else if d == 13 {
        'd'
    } else if d == 14 {
        'e'
    } else {
        'f'
    }
}

/// Decimal digits of a non-negative integer, most significant first.
pub open spec fn dec_digits(n: nat) -> Seq<char>
    decreases n,
{
    if n < 10 {
        seq![digit_char(n)]
    } else {
        dec_digits(n / 10).push(digit_char(n % 10))
    }
}

/// Decimal rendering of an integer, with a leading minus sign when
/// negative.
pub open spec fn dec_str(n: int) -> Seq<char> {
    if n < 0 {
        seq!['-'] + dec_digits((-n) as nat)
    } else {
        dec_digits(n as nat)
    }
}

/// How one character of a string is written inside a JSON string
/// literal: quote, backslash and control characters are escaped, every
/// other character stands for itself.
pub open spec fn escaped_char(c: char) -> Seq<char> {
    if c == '"' {
        seq!['\\', '"']
    } else if c == '\\' {
        seq!['\\', '\\']
    } else if c == '\n' {
        seq!['\\', 'n']
    } else if c == '\r' {
        seq!['\\', 'r']
    } else if c == '\t' {
        seq!['\\', 't']
    } else if c == '\u{8}' {
        seq!['\\', 'b']
    } else if c == '\u{c}' {
        seq!['\\', 'f']
    } else if (c as u32) < 0x20 {
        seq!['\\', 'u', '0', '0', digit_char((c as u32 / 16) as nat), digit_char(
            (c as u32 % 16) as nat,
        )]
    } else {
        seq![c]
    }
}

/// The body of a JSON string literal for the given text.
pub open spec fn escaped(s: Seq<char>) -> Seq<char>
    decreases s.len(),
{
    if s.len() == 0 {
        Seq::empty()
    } else {
        escaped(s.drop_last()) + escaped_char(s.last())
    }
}

/// The canonical compact text encoding of a message value. This is the
/// exact text the producer puts on the wire.
pub open spec fn json_text(v: JsonValue) -> Seq<char>
    decreases v, 0int,
{
    match v {
        JsonValue::Null => seq!['n', 'u', 'l', 'l'],
        JsonValue::Bool(b) => if b {
            seq!['t', 'r', 'u', 'e']
        } else {
            seq!['f', 'a', 'l', 's', 'e']
        },
        JsonValue::Int(n) => dec_str(n as int),
        JsonValue::Str(s) => seq!['"'] + escaped(s@) + seq!['"'],
        JsonValue::Arr(xs) => seq!['['] + json_items(xs@, 0) + seq![']'],
        JsonValue::Obj(fs) => seq!['{'] + json_fields(fs@, 0) + seq!['}'],
    }
}

/// The comma-separated encoding of array elements from index `i` on.
pub open spec fn json_items(xs: Seq<JsonValue>, i: int) -> Seq<char>
    decreases xs, xs.len() - i,
{
    if i < 0 || i >= xs.len() {
        Seq::empty()
    } else if i == xs.len() - 1 {
        json_text(xs[i])
    } else {
        json_text(xs[i]) + seq![','] + json_items(xs, i + 1)
    }
}

/// The comma-separated encoding of object members from index `i` on.
pub open spec fn json_fields(fs: Seq<(String, JsonValue)>, i: int) -> Seq<char>
    decreases fs, fs.len() - i,
{
    if i < 0 || i >= fs.len() {
        Seq::empty()
    } else {
        let member = seq!['"'] + escaped(fs[i].0@) + seq!['"', ':'] + json_text(fs[i].1);
        if i == fs.len() - 1 {
            member
        } else {
            member + seq![','] + json_fields(fs, i + 1)
        }
    }
}

/// One decimal or lowercase hexadecimal digit as text.
fn digit_str(d: u64) -> (r: &'static str)
    requires
        d < 16,
    ensures
        r@ == seq![digit_char(d as nat)],
{
    proof {
        reveal_strlit("0");
        reveal_strlit("1");
        reveal_strlit("2");
        reveal_strlit("3");
        reveal_strlit("4");
        reveal_strlit("5");
        reveal_strlit("6");
        reveal_strlit("7");
        reveal_strlit("8");
        reveal_strlit("9");
    }
    if d == 0 {
        proof { assert("0"@ =~= seq![digit_char(0)]); }
        "0"
    } else if d == 1 {
        proof { assert("1"@ =~= seq![digit_char(1)]); }
        "1"
    } else if d == 2 {
        proof { assert("2"@ =~= seq![digit_char(2)]); }
        "2"
    } else if d == 3 {
        proof { assert("3"@ =~= seq![digit_char(3)]); }
        "3"
    } else if d == 4 {
        proof { assert("4"@ =~= seq![digit_char(4)]); }
        "4"
    } else if d == 5 {
        proof { assert("5"@ =~= seq![digit_char(5)]); }
        "5"
    } else if d == 6 {
        proof { assert("6"@ =~= seq![digit_char(6)]); }
        "6"
    } else if d == 7 {
        proof { assert("7"@ =~= seq![digit_char(7)]); }
        "7"
    } else if d == 8 {
        proof { assert("8"@ =~= seq![digit_char(8)]); }
        "8"
    } else if d == 9 {
        proof { assert("9"@ =~= seq![digit_char(9)]); }
        "9"
    } else if d == 10 {
        proof {
            reveal_strlit("a");
            assert("a"@ =~= seq![digit_char(10)]);
        }
        "a"
    } else if d == 11 {
        proof {
            reveal_strlit("b");
            assert("b"@ =~= seq![digit_char(11)]);
        }
        "b"
    } else if d == 12 {
        proof {
            reveal_strlit("c");
            assert("c"@ =~= seq![digit_char(12)]);
        }
        "c"
    } else if d == 13 {
        proof {
            reveal_strlit("d");
            assert("d"@ =~= seq![digit_char(13)]);
        }
        "d"
    } else if d == 14 {
        proof {
            reveal_strlit("e");
            assert("e"@ =~= seq![digit_char(14)]);
        }
        "e"
    } else {
        proof {
            reveal_strlit("f");
            assert("f"@ =~= seq![digit_char(15)]);
        }
        "f"
    }
}

/// Decimal text of an unsigned number.
pub fn u64_to_string(n: u64) -> (r: String)
    ensures
        r@ == dec_digits(n as nat),
    decreases n,
{
    if n < 10 {
        let mut s = String::new();
        s.append(digit_str(n));
        proof {
            assert(s@ =~= dec_digits(n as nat));
        }
        s
    } else {
        let mut s = u64_to_string(n / 10);
        s.append(digit_str(n % 10));
        proof {
            assert(s@ =~= dec_digits(n as nat));
        }
        s
    }
}

/// Decimal text of a signed number, minus sign included.
pub fn i64_to_string(n: i64) -> (r: String)
    ensures
        r@ == dec_str(n as int),
{
    if n >= 0 {
        u64_to_string(n as u64)
    } else {
        let mag: u64 = (-(n + 1)) as u64 + 1;
        proof {
            assert(mag == -(n as int));
            reveal_strlit("-");
        }
        let mut s = String::new();
        s.append("-");
        let digits = u64_to_string(mag);
        s.append(digits.as_str());
        proof {
            assert(s@ =~= dec_str(n as int));
        }
        s
    }
}

/// Appending one character to a text extends its escaped form by that
/// character's escape.
proof fn lemma_escaped_push(s: Seq<char>, c: char)
    ensures
        escaped(s.push(c)) == escaped(s) + escaped_char(c),
{
    assert(s.push(c).drop_last() =~= s);
    assert(s.push(c).last() == c);
}

/// Writes the body of a JSON string literal for `s` onto the end of
/// `out`.
fn append_escaped(out: &mut String, s: &str)
    ensures
        final(out)@ == old(out)@ + escaped(s@),
{
    let len = s.unicode_len();
    let mut i: usize = 0;
    proof {
        assert(s@.take(0) =~= Seq::empty());
        assert(old(out)@ + escaped(s@.take(0)) =~= old(out)@);
    }
    while i < len
        invariant
            len == s@.len(),
            i <= len,
            out@ == old(out)@ + escaped(s@.take(i as int)),
        decreases len - i,
    {
        let c = s.get_char(i);
        proof {
            assert(s@.take(i as int).push(c) =~= s@.take(i + 1 as int));
            lemma_escaped_push(s@.take(i as int), c);
        }
        if c == '"' {
            proof { reveal_strlit("\\\""); }
            out.append("\\\"");
            proof { assert("\\\""@ =~= escaped_char('"')); }
        } else if c == '\\' {
            proof { reveal_strlit("\\\\"); }
            out.append("\\\\");
            proof { assert("\\\\"@ =~= escaped_char('\\')); }
        } else if c == '\n' {
            proof { reveal_strlit("\\n"); }
            out.append("\\n");
            proof { assert("\\n"@ =~= escaped_char('\n')); }
        } else if c == '\r' {
            proof { reveal_strlit("\\r"); }
            out.append("\\r");
            proof { assert("\\r"@ =~= escaped_char('\r')); }
        } else if c == '\t' {
            proof { reveal_strlit("\\t"); }
            out.append("\\t");
            proof { assert("\\t"@ =~= escaped_char('\t')); }
        } else if (c as u32) == 8 {
            proof { reveal_strlit("\\b"); }
            out.append("\\b");
            proof { assert("\\b"@ =~= escaped_char('\u{8}')); }
        } else if (c as u32) == 12 {
            proof { reveal_strlit("\\f"); }
            out.append("\\f");
            proof { assert("\\f"@ =~= escaped_char('\u{c}')); }
        } else if (c as u32) < 0x20 {
            proof { reveal_strlit("\\u00"); }
            out.append("\\u00");
            let hi = (c as u32) / 16;
            let lo = (c as u32) % 16;
            out.append(digit_str(hi as u64));
            out.append(digit_str(lo as u64));
            proof {
                assert("\\u00"@ + seq![digit_char(hi as nat)] + seq![digit_char(lo as nat)]
                    =~= escaped_char(c));
                assert(out@ =~= old(out)@ + escaped(s@.take(i + 1 as int)));
            }
        } else {
            out.append(s.substring_char(i, i + 1));
            proof {
                assert(s@.subrange(i as int, i + 1 as int) =~= seq![c]);
                assert(escaped_char(c) =~= seq![c]);
            }
        }
        proof {
            assert(out@ =~= old(out)@ + escaped(s@.take(i + 1 as int)));
        }
        i += 1;
    }
    proof {
        assert(s@.take(len as int) =~= s@);
    }
}

/// Renders a message value as compact JSON text. This is the encoding
/// the producer uses; it cannot fail.
pub fn render_json(v: &JsonValue) -> (r: String)
    ensures
        r@ == json_text(*v),
    decreases *v, 0int,
{
    match v {
        JsonValue::Null => {
            proof { reveal_strlit("null"); }
            let mut s = String::new();
            s.append("null");
            proof { assert(s@ =~= json_text(*v)); }
            s
        },
        JsonValue::Bool(b) => {
            proof {
                reveal_strlit("true");
                reveal_strlit("false");
            }
            let mut s = String::new();
            if *b {
                s.append("true");
            } else {
                s.append("false");
            }
            proof { assert(s@ =~= json_text(*v)); }
            s
        },
        JsonValue::Int(n) => i64_to_string(*n),
        JsonValue::Str(text) => {
            proof { reveal_strlit("\""); }
            let mut s = String::new();
            s.append("\"");
            append_escaped(&mut s, text.as_str());
            s.append("\"");
            proof { assert(s@ =~= json_text(*v)); }
            s
        },
        JsonValue::Arr(xs) => {
            proof {
                reveal_strlit("[");
                reveal_strlit("]");
            }
            let mut s = String::new();
            s.append("[");
            let body = render_items(xs, 0);
            s.append(body.as_str());
            s.append("]");
            proof { assert(s@ =~= json_text(*v)); }
            s
        },
        JsonValue::Obj(fs) => {
            proof {
                reveal_strlit("{");
                reveal_strlit("}");
            }
            let mut s = String::new();
            s.append("{");
            let body = render_fields(fs, 0);
            s.append(body.as_str());
            s.append("}");
            proof { assert(s@ =~= json_text(*v)); }
            s
        },
    }
}

/// Renders array elements from index `i` on, comma separated.
fn render_items(xs: &Vec<JsonValue>, i: usize) -> (r: String)
    requires
        i <= xs@.len(),
    ensures
        r@ == json_items(xs@, i as int),
    decreases xs@, xs@.len() - i,
{
    if i == xs.len() {
        String::new()
    } else {
        let mut s = render_json(&xs[i]);
        if i + 1 < xs.len() {
            proof { reveal_strlit(","); }
            s.append(",");
            let rest = render_items(xs, i + 1);
            s.append(rest.as_str());
            proof { assert(s@ =~= json_items(xs@, i as int)); }
        } else {
            proof { assert(s@ =~= json_items(xs@, i as int)); }
        }
        s
    }
}

/// Renders object members from index `i` on, comma separated.
fn render_fields(fs: &Vec<(String, JsonValue)>, i: usize) -> (r: String)
    requires
        i <= fs@.len(),
    ensures
        r@ == json_fields(fs@, i as int),
    decreases fs@, fs@.len() - i,
{
    if i == fs.len() {
        String::new()
    } else {
        proof {
            reveal_strlit("\"");
            reveal_strlit("\":");
        }
        let mut s = String::new();
        s.append("\"");
        append_escaped(&mut s, fs[i].0.as_str());
        s.append("\":");
        let value = render_json(&fs[i].1);
        s.append(value.as_str());
        if i + 1 < fs.len() {
            proof { reveal_strlit(","); }
            s.append(",");
            let rest = render_fields(fs, i + 1);
            s.append(rest.as_str());
            proof { assert(s@ =~= json_fields(fs@, i as int)); }
        } else {
            proof { assert(s@ =~= json_fields(fs@, i as int)); }
        }
        s
    }
}

} // verus!
