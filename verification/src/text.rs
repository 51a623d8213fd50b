//! Character-level string helpers used by the key stores.
use vstd::prelude::*;

verus! {

/// A character of the URL-safe Base64 alphabet: `[A-Za-z0-9_-]`.
pub open spec fn is_url_safe_char(c: char) -> bool {
    let n = c as u32;
    (65 <= n <= 90) || (97 <= n <= 122) || (48 <= n <= 57) || n == 45 || n == 95
}

/// Every character of `s` belongs to the URL-safe Base64 alphabet.
pub open spec fn all_url_safe(s: Seq<char>) -> bool {
    forall|i: int| 0 <= i < s.len() ==> is_url_safe_char(#[trigger] s[i])
}

/// ASCII lower-casing of one character; other characters are unchanged.
pub open spec fn ascii_lower(c: char) -> u32 {
    let n = c as u32;
    if 65 <= n <= 90 { (n + 32) as u32 } else { n }
}

/// Equality of two strings up to ASCII case.
pub open spec fn eq_ignore_ascii_case_spec(a: Seq<char>, b: Seq<char>) -> bool {
    &&& a.len() == b.len()
    &&& forall|i: int| 0 <= i < a.len() ==> ascii_lower(#[trigger] a[i]) == ascii_lower(b[i])
}

pub fn char_is_url_safe(c: char) -> (r: bool)
    ensures
        r == is_url_safe_char(c),
{
    let n = c as u32;
    (65 <= n && n <= 90) || (97 <= n && n <= 122) || (48 <= n && n <= 57) || n == 45 || n == 95
}

fn lower_code(c: char) -> (r: u32)
    ensures
        r == ascii_lower(c),
{
    let n = c as u32;
    if 65 <= n && n <= 90 {
        n + 32
    } else {
        n
    }
}

/// Whether every character of `s` is in the URL-safe Base64 alphabet.
pub fn is_all_url_safe(s: &str) -> (r: bool)
    ensures
        r == all_url_safe(s@),
{
    let n = s.unicode_len();
    let mut i: usize = 0;
    while i < n
        invariant
            n == s@.len(),
            i <= n,
            forall|j: int| 0 <= j < i ==> is_url_safe_char(#[trigger] s@[j]),
        decreases n - i,
    {
        let c = s.get_char(i);
        if !char_is_url_safe(c) {
            return false;
        }
        i = i + 1;
    }
    true
}

/// Compares two strings ignoring the case of ASCII letters, as `str::eq_ignore_ascii_case` does.
pub fn eq_ignore_ascii_case(a: &str, b: &str) -> (r: bool)
    ensures
        r == eq_ignore_ascii_case_spec(a@, b@),
{
    let n = a.unicode_len();
    let m = b.unicode_len();
    if n != m {
        return false;
    }
    let mut i: usize = 0;
    while i < n
        invariant
            n == a@.len(),
            n == b@.len(),
            i <= n,
            forall|j: int| 0 <= j < i ==> ascii_lower(#[trigger] a@[j]) == ascii_lower(b@[j]),
        decreases n - i,
    {
        if lower_code(a.get_char(i)) != lower_code(b.get_char(i)) {
            return false;
        }
        i = i + 1;
    }
    true
}

/// Exact equality of two strings.
pub fn str_equal(a: &str, b: &str) -> (r: bool)
    ensures
        r == (a@ == b@),
{
    let n = a.unicode_len();
    let m = b.unicode_len();
    if n != m {
        return false;
    }
    let mut i: usize = 0;
    while i < n
        invariant
            n == a@.len(),
            n == b@.len(),
            i <= n,
            forall|j: int| 0 <= j < i ==> a@[j] == b@[j],
        decreases n - i,
    {
        if a.get_char(i) != b.get_char(i) {
            return false;
        }
        i = i + 1;
    }
    assert(a@ =~= b@);
    true
}

/// A lower-case hexadecimal digit.
pub open spec fn hex_digit(v: int) -> char {
    if v < 10 { (48 + v) as char } else { (87 + v) as char }
}

/// How one character is written inside a JSON string: `"` and `\` and the control
/// characters are escaped (with the short forms `\b`, `\t`, `\n`, `\f`, `\r` where JSON has
/// one, otherwise `\u00XX`), every other character stands for itself.
pub open spec fn json_escape_char(c: char) -> Seq<char> {
    let n = c as u32;
    if n == 34 {
        seq!['\\', '"']
    } else if n == 92 {
        seq!['\\', '\\']
    } else if n == 8 {
        seq!['\\', 'b']
    } else if n == 9 {
        seq!['\\', 't']
    } else if n == 10 {
        seq!['\\', 'n']
    } else if n == 12 {
        seq!['\\', 'f']
    } else if n == 13 {
        seq!['\\', 'r']
    } else if n < 32 {
        seq!['\\', 'u', '0', '0', hex_digit(n as int / 16), hex_digit(n as int % 16)]
    } else {
        seq![c]
    }
}

/// The contents of a JSON string holding `s`, without the quotes.
pub open spec fn json_escape(s: Seq<char>) -> Seq<char>
    decreases s.len(),
{
    if s.len() == 0 {
        Seq::empty()
    } else {
        json_escape(s.drop_last()) + json_escape_char(s.last())
    }
}

proof fn lemma_json_escape_concat(a: Seq<char>, b: Seq<char>)
    ensures
        json_escape(a + b) == json_escape(a) + json_escape(b),
    decreases b.len(),
{
    if b.len() == 0 {
        assert(a + b =~= a);
        assert(json_escape(a) + json_escape(b) =~= json_escape(a));
    } else {
        lemma_json_escape_concat(a, b.drop_last());
        assert((a + b).drop_last() =~= a + b.drop_last());
        assert((a + b).last() == b.last());
        assert(json_escape(a + b) =~= json_escape(a) + json_escape(b));
    }
}

proof fn lemma_json_escape_front(s: Seq<char>)
    requires
        s.len() > 0,
    ensures
        json_escape(s) == json_escape_char(s[0]) + json_escape(s.skip(1)),
{
    let head = seq![s[0]];
    assert(head + s.skip(1) =~= s);
    lemma_json_escape_concat(head, s.skip(1));
    assert(head.drop_last() =~= Seq::<char>::empty());
    assert(json_escape(head.drop_last()) == Seq::<char>::empty());
    assert(head.last() == s[0]);
    assert(json_escape(head) =~= json_escape_char(s[0]));
}

proof fn lemma_hex_digit_injective(u: int, v: int)
    requires
        0 <= u < 16,
        0 <= v < 16,
        hex_digit(u) == hex_digit(v),
    ensures
        u == v,
{
    assert(hex_digit(u) as int == if u < 10 { 48 + u } else { 87 + u });
    assert(hex_digit(v) as int == if v < 10 { 48 + v } else { 87 + v });
}

/// The escapes of characters form a prefix-free code: when two escaped texts agree, so do
/// their first characters and what follows them.
proof fn lemma_json_escape_char_prefix_free(c: char, d: char, r1: Seq<char>, r2: Seq<char>)
    requires
        json_escape_char(c) + r1 == json_escape_char(d) + r2,
    ensures
        c == d,
        r1 == r2,
{
    let ec = json_escape_char(c);
    let ed = json_escape_char(d);
    let e = ec + r1;
    let n = c as u32;
    let m = d as u32;
    assert(e[0] == ec[0] && e[0] == ed[0]);
    if ec.len() >= 2 && ed.len() >= 2 {
        assert(e[1] == ec[1] && e[1] == ed[1]);
    }
    if ec.len() == 6 && ed.len() == 6 {
        assert(e[4] == ec[4] && e[4] == ed[4]);
        assert(e[5] == ec[5] && e[5] == ed[5]);
        lemma_hex_digit_injective(n as int / 16, m as int / 16);
        lemma_hex_digit_injective(n as int % 16, m as int % 16);
        assert(n == m) by (nonlinear_arith)
            requires n as int / 16 == m as int / 16, n as int % 16 == m as int % 16;
    }
    assert(ec.len() == ed.len());
    assert(n == m);
    assert(c == d);
    assert(r1 =~= e.skip(ec.len() as int));
    assert(r2 =~= e.skip(ed.len() as int));
}

/// Escaping loses nothing: two strings with the same escaped form are the same string.
pub proof fn law_json_escape_injective(a: Seq<char>, b: Seq<char>)
    requires
        json_escape(a) == json_escape(b),
    ensures
        a == b,
    decreases a.len(),
{
    if a.len() == 0 || b.len() == 0 {
        if a.len() > 0 {
            lemma_json_escape_front(a);
        }
        if b.len() > 0 {
            lemma_json_escape_front(b);
        }
        assert(a =~= b);
    } else {
        lemma_json_escape_front(a);
        lemma_json_escape_front(b);
        lemma_json_escape_char_prefix_free(a[0], b[0], json_escape(a.skip(1)), json_escape(b.skip(1)));
        law_json_escape_injective(a.skip(1), b.skip(1));
        assert(a =~= seq![a[0]] + a.skip(1));
        assert(b =~= seq![b[0]] + b.skip(1));
    }
}

/// A character that JSON writes as itself inside a string: no control character, no
/// quotation mark (code 34), no backslash (code 92).
pub open spec fn json_plain_char(c: char) -> bool {
    c as u32 >= 32 && c as u32 != 34 && c as u32 != 92
}

/// A string with no character that JSON must escape is written as it is.
pub proof fn law_json_escape_plain(s: Seq<char>)
    requires
        forall|i: int| 0 <= i < s.len() ==> json_plain_char(#[trigger] s[i]),
    ensures
        json_escape(s) == s,
    decreases s.len(),
{
    if s.len() > 0 {
        let p = s.drop_last();
        assert forall|i: int| 0 <= i < p.len() implies json_plain_char(#[trigger] p[i]) by {
            assert(p[i] == s[i]);
        }
        law_json_escape_plain(p);
        assert(json_plain_char(s[s.len() - 1]));
        assert(json_escape_char(s.last()) =~= seq![s.last()]);
        assert(p.push(s.last()) =~= s);
        assert(json_escape(s) =~= s);
    }
}

fn hex_digit_str(v: u32) -> (r: &'static str)
    requires
        v < 16,
    ensures
        r@ == seq![hex_digit(v as int)],
{
    proof {
        reveal_strlit("0");
        reveal_strlit("1");
        reveal_strlit("2");
        reveal_strlit("3");
        reveal_strlit("4");
        reveal_strlit("5");
        reveal_strlit("6");
        reveal_strlit("7");
        reveal_strlit("8");
        reveal_strlit("9");
        reveal_strlit("a");
        reveal_strlit("b");
        reveal_strlit("c");
        reveal_strlit("d");
        reveal_strlit("e");
        reveal_strlit("f");
    }
    let r = match v {
        0 => "0",
        1 => "1",
        2 => "2",
        3 => "3",
        4 => "4",
        5 => "5",
        6 => "6",
        7 => "7",
        8 => "8",
        9 => "9",
        10 => "a",
        11 => "b",
        12 => "c",
        13 => "d",
        14 => "e",
        _ => "f",
    };
    assert(r@ =~= seq![hex_digit(v as int)]);
    r
}

/// Appends `s` to `out`, escaped as the contents of a JSON string.
pub fn append_json_escaped(out: &mut String, s: &str)
    ensures
        final(out)@ == old(out)@ + json_escape(s@),
{
    let n = s.unicode_len();
    let mut i: usize = 0;
    assert(s@.subrange(0, 0) =~= Seq::<char>::empty());
    while i < n
        invariant
            n == s@.len(),
            i <= n,
            out@ == old(out)@ + json_escape(s@.subrange(0, i as int)),
        decreases n - i,
    {
        let c = s.get_char(i);
        let code = c as u32;
        let ghost before = out@;
        proof {
            reveal_strlit("\\\"");
            reveal_strlit("\\\\");
            reveal_strlit("\\b");
            reveal_strlit("\\t");
            reveal_strlit("\\n");
            reveal_strlit("\\f");
            reveal_strlit("\\r");
            reveal_strlit("\\u00");
            assert(s@.subrange(0, i + 1).drop_last() =~= s@.subrange(0, i as int));
            assert(s@.subrange(0, i + 1).last() == c);
        }
        if code == 34 {
            out.append("\\\"");
        } else if code == 92 {
            out.append("\\\\");
        } else if code == 8 {
            out.append("\\b");
        } else if code == 9 {
            out.append("\\t");
        } else if code == 10 {
            out.append("\\n");
        } else if code == 12 {
            out.append("\\f");
        } else if code == 13 {
            out.append("\\r");
        } else if code < 32 {
            out.append("\\u00");
            out.append(hex_digit_str(code / 16));
            out.append(hex_digit_str(code % 16));
        } else {
            out.append(s.substring_char(i, i + 1));
        }
        assert(out@ =~= before + json_escape_char(c));
        i = i + 1;
    }
    assert(s@.subrange(0, n as int) =~= s@);
}

} // verus!
