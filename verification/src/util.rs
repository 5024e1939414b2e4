use vstd::prelude::*;

verus! {

/// The UTF-16 code units of one character: the character's own value when it
/// lies in the basic multilingual plane, else a high and a low surrogate.
pub open spec fn utf16_units(c: char) -> Seq<u16> {
    let v = c as u32;
    if v < 0x10000 {
        seq![v as u16]
    } else {
        seq![(0xD800 + (v - 0x10000) / 0x400) as u16, (0xDC00 + (v - 0x10000) % 0x400) as u16]
    }
}

/// The UTF-16 encoding of a sequence of characters.
pub open spec fn utf16_encode(s: Seq<char>) -> Seq<u16>
    decreases s.len(),
{
    if s.len() == 0 {
        Seq::empty()
    } else {
        utf16_units(s[0]) + utf16_encode(s.drop_first())
    }
}

pub open spec fn is_high_surrogate(u: u16) -> bool {
    0xD800 <= u < 0xDC00
}

pub open spec fn is_low_surrogate(u: u16) -> bool {
    0xDC00 <= u < 0xE000
}

/// The code point that a high and a low surrogate stand for together.
pub open spec fn surrogate_pair_value(high: u16, low: u16) -> u32 {
    (0x10000 + (high - 0xD800) * 0x400 + (low - 0xDC00)) as u32
}

/// Puts `c` in front of a decoding result, if there is one.
pub open spec fn prepend_char(c: char, rest: Option<Seq<char>>) -> Option<Seq<char>> {
    match rest {
        Some(r) => Some(seq![c] + r),
        None => None,
    }
}

/// Decodes UTF-16 code units: `None` when they hold a surrogate that is not
/// part of a high-then-low pair.
pub open spec fn utf16_decode(u: Seq<u16>) -> Option<Seq<char>>
    decreases u.len(),
{
    if u.len() == 0 {
        Some(Seq::empty())
    } else if is_low_surrogate(u[0]) {
        None
    } else if is_high_surrogate(u[0]) {
        if u.len() >= 2 && is_low_surrogate(u[1]) {
            prepend_char(surrogate_pair_value(u[0], u[1]) as char, utf16_decode(u.skip(2)))
        } else {
            None
        }
    } else {
        prepend_char((u[0] as u32) as char, utf16_decode(u.skip(1)))
    }
}

/// The wide string that `encode_str` produces for `s`: its UTF-16 code units
/// followed by a terminating NUL.
pub open spec fn spec_encode_str(s: Seq<char>) -> Seq<u16> {
    utf16_encode(s).push(0u16)
}

/// The number of code units in front of the first NUL of `s`, or the length
/// of `s` when it holds no NUL.
pub open spec fn wide_len(s: Seq<u16>) -> nat
    decreases s.len(),
{
    if s.len() == 0 {
        0
    } else if s[0] == 0 {
        0
    } else {
        1 + wide_len(s.drop_first())
    }
}

/// What `decode_str` gives for the wide string `s`: the code units in front
/// of its terminating NUL, kept as they are.
pub open spec fn spec_decode_str(s: Seq<u16>) -> Seq<u16> {
    s.take(wide_len(s) as int)
}

/// A sequence of characters that holds no NUL character.
pub open spec fn has_no_nul(s: Seq<char>) -> bool {
    forall|i: int| 0 <= i < s.len() ==> s[i] != '\0'
}

/// The encoding of a concatenation is the concatenation of the encodings.
pub proof fn lemma_utf16_encode_append(a: Seq<char>, b: Seq<char>)
    ensures
        utf16_encode(a + b) == utf16_encode(a) + utf16_encode(b),
    decreases a.len(),
{
    if a.len() == 0 {
        assert(a + b =~= b);
        assert(utf16_encode(a) + utf16_encode(b) =~= utf16_encode(b));
    } else {
        assert((a + b).drop_first() =~= a.drop_first() + b);
        lemma_utf16_encode_append(a.drop_first(), b);
        assert(utf16_encode(a + b) =~= utf16_encode(a) + utf16_encode(b));
    }
}

proof fn lemma_utf16_encode_push(s: Seq<char>, c: char)
    ensures
        utf16_encode(s.push(c)) == utf16_encode(s) + utf16_units(c),
{
    lemma_utf16_encode_append(s, seq![c]);
    assert(s + seq![c] =~= s.push(c));
    let one = seq![c];
    assert(one[0] == c);
    assert(one.drop_first() =~= Seq::<char>::empty());
    assert(utf16_encode(one.drop_first()) =~= Seq::<u16>::empty());
    assert(utf16_encode(one) =~= utf16_units(c));
}

proof fn lemma_utf16_units_shape(c: char)
    ensures
        (c as u32) < 0x10000 ==> utf16_units(c).len() == 1 && utf16_units(c)[0] == c as u32
            && !is_high_surrogate(utf16_units(c)[0]) && !is_low_surrogate(utf16_units(c)[0]),
        (c as u32) >= 0x10000 ==> utf16_units(c).len() == 2 && is_high_surrogate(utf16_units(c)[0])
            && is_low_surrogate(utf16_units(c)[1]) && surrogate_pair_value(
            utf16_units(c)[0],
            utf16_units(c)[1],
        ) == c as u32,
        c != '\0' ==> forall|k: int| 0 <= k < utf16_units(c).len() ==> utf16_units(c)[k] != 0,
{
    let v = c as u32;
    vstd::utf8::char_is_scalar(c);
    vstd::utf8::char_u32_cast(c, v);
    if v >= 0x10000 {
        let w = v - 0x10000;
        assert(w == (w / 0x400) * 0x400 + w % 0x400) by (nonlinear_arith);
        assert(w / 0x400 < 0x400) by (nonlinear_arith)
            requires
                w < 0x100000,
        ;
    }
}

/// Decoding the encoding of a sequence of characters gives the sequence back.
pub proof fn lemma_utf16_decode_encode(s: Seq<char>)
    ensures
        utf16_decode(utf16_encode(s)) == Some(s),
    decreases s.len(),
{
    if s.len() > 0 {
        let c = s[0];
        let rest = s.drop_first();
        let e = utf16_encode(s);
        let units = utf16_units(c);
        lemma_utf16_decode_encode(rest);
        lemma_utf16_units_shape(c);
        vstd::utf8::char_u32_cast(c, c as u32);
        assert(e == units + utf16_encode(rest));
        assert(seq![c] + rest =~= s);
        if (c as u32) < 0x10000 {
            assert(e.skip(1) =~= utf16_encode(rest));
            assert(((e[0] as u32) as char) == c);
        } else {
            assert(e.skip(2) =~= utf16_encode(rest));
            assert((surrogate_pair_value(e[0], e[1]) as char) == c);
        }
    }
}

/// Encoding what a successful decoding gives back yields the code units that
/// were decoded.
pub proof fn lemma_utf16_encode_decode(u: Seq<u16>)
    requires
        utf16_decode(u) is Some,
    ensures
        utf16_encode(utf16_decode(u)->0) == u,
    decreases u.len(),
{
    if u.len() > 0 {
        let s = utf16_decode(u)->0;
        if is_high_surrogate(u[0]) {
            let v = surrogate_pair_value(u[0], u[1]);
            let c = v as char;
            lemma_utf16_encode_decode(u.skip(2));
            let hi = u[0];
            let lo = u[1];
            let a = (hi - 0xD800) as int;
            let b = (lo - 0xDC00) as int;
            assert(0 <= a < 0x400 && 0 <= b < 0x400);
            assert((a * 0x400 + b) / 0x400 == a && (a * 0x400 + b) % 0x400 == b) by (nonlinear_arith)
                requires
                    0 <= a < 0x400,
                    0 <= b < 0x400,
            ;
            assert(0x10000 <= v <= 0x10FFFF) by (nonlinear_arith)
                requires
                    v == 0x10000 + a * 0x400 + b,
                    0 <= a < 0x400,
                    0 <= b < 0x400,
            ;
            assert(c as u32 == v);
            assert(s[0] == c);
            assert(s.drop_first() =~= utf16_decode(u.skip(2))->0);
            assert(utf16_units(c) =~= seq![hi, lo]);
            assert(u =~= seq![hi, lo] + u.skip(2));
        } else {
            let c = (u[0] as u32) as char;
            lemma_utf16_encode_decode(u.skip(1));
            assert(c as u32 == u[0] as u32);
            assert(s[0] == c);
            assert(s.drop_first() =~= utf16_decode(u.skip(1))->0);
            assert(utf16_units(c) =~= seq![u[0]]);
            assert(u =~= seq![u[0]] + u.skip(1));
        }
    }
}

/// The encoding of a sequence of characters without NUL holds no NUL unit.
proof fn lemma_utf16_encode_no_nul(s: Seq<char>)
    requires
        has_no_nul(s),
    ensures
        forall|k: int| 0 <= k < utf16_encode(s).len() ==> utf16_encode(s)[k] != 0,
    decreases s.len(),
{
    if s.len() > 0 {
        let rest = s.drop_first();
        lemma_utf16_encode_no_nul(rest);
        lemma_utf16_units_shape(s[0]);
        let units = utf16_units(s[0]);
        assert forall|k: int| 0 <= k < utf16_encode(s).len() implies utf16_encode(s)[k] != 0 by {
            if k < units.len() {
                assert(utf16_encode(s)[k] == units[k]);
            } else {
                assert(utf16_encode(s)[k] == utf16_encode(rest)[k - units.len()]);
            }
        }
    }
}

/// `wide_len` of NUL-free units followed by a NUL is the number of those units.
proof fn lemma_wide_len_terminated(u: Seq<u16>)
    requires
        forall|k: int| 0 <= k < u.len() ==> u[k] != 0,
    ensures
        wide_len(u.push(0u16)) == u.len(),
    decreases u.len(),
{
    if u.len() > 0 {
        assert(u.push(0u16).drop_first() =~= u.drop_first().push(0u16));
        lemma_wide_len_terminated(u.drop_first());
    }
}

/// Reading back NUL-free code units that were terminated by a NUL gives
/// every one of them, unpaired surrogates included: nothing is lost.
pub proof fn lemma_decode_str_terminated(u: Seq<u16>)
    requires
        forall|k: int| 0 <= k < u.len() ==> u[k] != 0,
    ensures
        spec_decode_str(u.push(0u16)) == u,
{
    lemma_wide_len_terminated(u);
    assert(u.push(0u16).take(u.len() as int) =~= u);
}

/// Reading back the wide string that `encode_str` makes of a NUL-free string
/// gives its UTF-16 units, and converting those gives the string back.
pub proof fn lemma_decode_str_encode_str(s: Seq<char>)
    requires
        has_no_nul(s),
    ensures
        spec_decode_str(spec_encode_str(s)) == utf16_encode(s),
        utf16_decode(spec_decode_str(spec_encode_str(s))) == Some(s),
{
    lemma_utf16_encode_no_nul(s);
    lemma_decode_str_terminated(utf16_encode(s));
    lemma_utf16_decode_encode(s);
}

/// The wide string that `encode_str` makes of a NUL-free string is
/// terminated by its one NUL: every unit in front of the last is non-zero.
pub proof fn lemma_encode_str_terminated(s: Seq<char>)
    requires
        has_no_nul(s),
    ensures
        spec_encode_str(s).last() == 0,
        forall|k: int| 0 <= k < spec_encode_str(s).len() - 1 ==> spec_encode_str(s)[k] != 0,
        wide_len(spec_encode_str(s)) == utf16_encode(s).len(),
{
    lemma_utf16_encode_no_nul(s);
    lemma_wide_len_terminated(utf16_encode(s));
}

/// How one character is encoded: a character below `0x10000` as the single
/// unit equal to its value; any other as a high surrogate `0xD800 + (v -
/// 0x10000) / 0x400` followed by a low surrogate `0xDC00 + (v - 0x10000) %
/// 0x400`, so that `(high - 0xD800) * 0x400 + (low - 0xDC00) + 0x10000` is
/// the character's value again.
pub proof fn lemma_utf16_encode_char(c: char)
    ensures
        (c as u32) < 0x10000 ==> utf16_encode(seq![c]) == seq![(c as u32) as u16],
        (c as u32) < 0x10000 ==> utf16_encode(seq![c])[0] == c as u32,
        (c as u32) >= 0x10000 ==> utf16_encode(seq![c]) == seq![
            (0xD800 + ((c as u32) - 0x10000) / 0x400) as u16,
            (0xDC00 + ((c as u32) - 0x10000) % 0x400) as u16,
        ],
        (c as u32) >= 0x10000 ==> {
            let e = utf16_encode(seq![c]);
            &&& e.len() == 2
            &&& 0xD800 <= e[0] < 0xDC00
            &&& 0xDC00 <= e[1] < 0xE000
            &&& (e[0] - 0xD800) * 0x400 + (e[1] - 0xDC00) + 0x10000 == c as u32
        },
{
    let one = seq![c];
    assert(one[0] == c);
    assert(one.drop_first() =~= Seq::<char>::empty());
    assert(utf16_encode(one.drop_first()) =~= Seq::<u16>::empty());
    assert(utf16_encode(one) =~= utf16_units(c));
    vstd::utf8::char_is_scalar(c);
    let v = c as u32;
    if v >= 0x10000 {
        let w = (v - 0x10000) as int;
        assert(w == (w / 0x400) * 0x400 + w % 0x400) by (nonlinear_arith);
        assert(w / 0x400 < 0x400 && 0 <= w % 0x400 < 0x400) by (nonlinear_arith)
            requires
                0 <= w < 0x100000,
        ;
    }
}

/// How a string is encoded: the encodings of its characters, one after the
/// other, in order.
pub proof fn lemma_utf16_encode_cons(c: char, rest: Seq<char>)
    ensures
        utf16_encode(seq![c] + rest) == utf16_encode(seq![c]) + utf16_encode(rest),
{
    lemma_utf16_encode_append(seq![c], rest);
}

/// How a surrogate pair is decoded: a high surrogate `h` followed by a low
/// surrogate `l` stands for the character `0x10000 + (h - 0xD800) * 0x400 +
/// (l - 0xDC00)`, and decoding goes on after the pair.
pub proof fn lemma_utf16_decode_pair(h: u16, l: u16, rest: Seq<u16>)
    requires
        0xD800 <= h < 0xDC00,
        0xDC00 <= l < 0xE000,
    ensures
        utf16_decode(seq![h, l] + rest) == match utf16_decode(rest) {
            Some(r) => Some(
                seq![((0x10000 + (h - 0xD800) * 0x400 + (l - 0xDC00)) as u32) as char] + r,
            ),
            None => None::<Seq<char>>,
        },
        utf16_decode(seq![h, l]) is Some,
        (utf16_decode(seq![h, l])->0).len() == 1,
        (utf16_decode(seq![h, l])->0)[0] as u32 == 0x10000 + (h - 0xD800) * 0x400 + (l - 0xDC00),
{
    let u = seq![h, l] + rest;
    assert(u[0] == h && u[1] == l);
    assert(u.skip(2) =~= rest);
    let p = seq![h, l];
    assert(p[0] == h && p[1] == l);
    assert(p.skip(2) =~= Seq::<u16>::empty());
    assert(utf16_decode(p.skip(2)) == Some(Seq::<char>::empty()));
    let a = (h - 0xD800) as int;
    let b = (l - 0xDC00) as int;
    assert(0x10000 <= 0x10000 + a * 0x400 + b <= 0x10FFFF) by (nonlinear_arith)
        requires
            0 <= a < 0x400,
            0 <= b < 0x400,
    ;
    let v = (0x10000 + a * 0x400 + b) as u32;
    assert((v as char) as u32 == v);
    assert(seq![v as char] + Seq::<char>::empty() =~= seq![v as char]);
    assert(surrogate_pair_value(h, l) == v);
    assert(utf16_decode(p) == Some(seq![v as char]));
}

/// How any other unit is decoded: a unit outside the surrogate range
/// `0xD800 ..= 0xDFFF` stands for the character with its value, and decoding
/// goes on after it.
pub proof fn lemma_utf16_decode_single(u: u16, rest: Seq<u16>)
    requires
        !(0xD800 <= u < 0xE000),
    ensures
        utf16_decode(seq![u] + rest) == match utf16_decode(rest) {
            Some(r) => Some(seq![(u as u32) as char] + r),
            None => None::<Seq<char>>,
        },
        utf16_decode(seq![u]) is Some,
        (utf16_decode(seq![u])->0).len() == 1,
        (utf16_decode(seq![u])->0)[0] as u32 == u as u32,
{
    let w = seq![u] + rest;
    assert(w[0] == u);
    assert(w.skip(1) =~= rest);
    let p = seq![u];
    assert(p[0] == u);
    assert(p.skip(1) =~= Seq::<u16>::empty());
    assert(utf16_decode(p.skip(1)) == Some(Seq::<char>::empty()));
    assert(seq![(u as u32) as char] + Seq::<char>::empty() =~= seq![(u as u32) as char]);
    assert(((u as u32) as char) as u32 == u as u32);
    assert(utf16_decode(p) == Some(seq![(u as u32) as char]));
}

/// Unpaired surrogates are rejected: decoding fails when the units start with
/// a low surrogate, or with a high surrogate that is not followed by a low one.
pub proof fn lemma_utf16_decode_unpaired(u: u16, rest: Seq<u16>)
    requires
        0xDC00 <= u < 0xE000 || (0xD800 <= u < 0xDC00 && (rest.len() == 0 || !(0xDC00
            <= rest[0] < 0xE000))),
    ensures
        utf16_decode(seq![u] + rest) is None,
{
    let w = seq![u] + rest;
    assert(w[0] == u);
    if rest.len() > 0 {
        assert(w[1] == rest[0]);
    }
}

/// Encodes `value` as a NUL-terminated UTF-16 wide string.
pub fn encode_str(value: &str) -> (res: Vec<u16>)
    ensures
        res@ == spec_encode_str(value@),
{
    let mut out: Vec<u16> = Vec::new();
    let ghost chars = value@;
    for c in it: value.chars()
        invariant
            it.seq() == chars,
            out@ == utf16_encode(chars.take(it.index() as int)),
    {
        let ghost i = it.index() as int;
        proof {
            lemma_utf16_encode_push(chars.take(i), c);
            assert(chars.take(i).push(c) =~= chars.take(i + 1));
        }
        let v = c as u32;
        if v < 0x10000 {
            out.push(v as u16);
        } else {
            let w = v - 0x10000;
            out.push((0xD800 + w / 0x400) as u16);
            out.push((0xDC00 + w % 0x400) as u16);
        }
        assert(out@ =~= utf16_encode(chars.take(i + 1)));
    }
    assert(chars.take(chars.len() as int) =~= chars);
    out.push(0);
    out
}

/// Counts the code units in front of the first NUL of a wide string (all of
/// them when the slice holds no NUL).
pub fn wstrlen(value: &[u16]) -> (len: usize)
    ensures
        len == wide_len(value@),
        len <= value@.len(),
        len < value@.len() ==> value@[len as int] == 0,
        forall|i: int| 0 <= i < len ==> value@[i] != 0,
{
    let mut len: usize = 0;
    proof {
        assert(value@.skip(0) =~= value@);
    }
    while len < value.len() && value[len] != 0
        invariant
            len <= value@.len(),
            wide_len(value@) == len + wide_len(value@.skip(len as int)),
            forall|i: int| 0 <= i < len ==> value@[i] != 0,
        decreases value@.len() - len,
    {
        proof {
            assert(value@.skip(len as int).drop_first() =~= value@.skip(len + 1));
        }
        len = len + 1;
    }
    len
}

/// `char::from_u32`: the character whose scalar value is `v`, or `None` when
/// `v` is not a Unicode scalar value (above `0x10FFFF`, or a surrogate).
#[verifier::external_body]
fn char_from_u32(v: u32) -> (res: Option<char>)
    ensures
        res is Some <==> (v <= 0x10FFFF && !(0xD800 <= v <= 0xDFFF)),
        res matches Some(c) ==> c as u32 == v,
{
    char::from_u32(v)
}

/// `String::push`: appends `c` to the end of `s`.
#[verifier::external_body]
fn string_push(s: &mut String, c: char)
    ensures
        final(s)@ == old(s)@.push(c),
{
    s.push(c)
}

proof fn lemma_prepend_push(out: Seq<char>, c: char, rest: Option<Seq<char>>)
    ensures
        match prepend_char(c, rest) {
            Some(r) => Some(out + r),
            None => None::<Seq<char>>,
        } == match rest {
            Some(r) => Some(out.push(c) + r),
            None => None::<Seq<char>>,
        },
{
    if let Some(r) = rest {
        assert(out + (seq![c] + r) =~= out.push(c) + r);
    }
}

/// The code units of the NUL-terminated wide string in `value` (all of
/// `value` when it holds no NUL), without the NUL and kept as they are:
/// unpaired surrogates are not rejected.
pub fn decode_str(value: &[u16]) -> (res: Vec<u16>)
    ensures
        res@ == spec_decode_str(value@),
{
    let n = wstrlen(value);
    let mut out: Vec<u16> = Vec::new();
    let mut i: usize = 0;
    while i < n
        invariant
            n <= value@.len(),
            i <= n,
            out@ == value@.take(i as int),
        decreases n - i,
    {
        out.push(value[i]);
        i = i + 1;
        assert(out@ =~= value@.take(i as int));
    }
    out
}

/// Converts wide-string code units to a `String`: `None` when they are not
/// valid UTF-16, that is when they hold a surrogate that is not part of a
/// high-then-low pair.
pub fn into_string(units: &[u16]) -> (res: Option<String>)
    ensures
        res is Some <==> utf16_decode(units@) is Some,
        res matches Some(s) ==> s@ == utf16_decode(units@)->0,
{
    let n = units.len();
    let ghost u = units@;
    let mut out = String::new();
    let mut i: usize = 0;
    proof {
        assert(u.skip(0) =~= u);
        assert(out@ + Seq::<char>::empty() =~= out@);
    }
    while i < n
        invariant
            n == u.len(),
            u == units@,
            i <= n,
            utf16_decode(u) == match utf16_decode(u.skip(i as int)) {
                Some(r) => Some(out@ + r),
                None => None::<Seq<char>>,
            },
        decreases n - i,
    {
        let unit = units[i];
        let ghost rest = u.skip(i as int);
        assert(rest[0] == unit);
        if 0xDC00 <= unit && unit < 0xE000 {
            return None;
        } else if 0xD800 <= unit && unit < 0xDC00 {
            if i + 1 < n && 0xDC00 <= units[i + 1] && units[i + 1] < 0xE000 {
                let low = units[i + 1];
                assert(rest[1] == low);
                let v: u32 = 0x10000 + ((unit - 0xD800) as u32) * 0x400 + ((low - 0xDC00) as u32);
                assert(v == surrogate_pair_value(unit, low));
                match char_from_u32(v) {
                    Some(c) => {
                        proof {
                            vstd::utf8::char_u32_cast(c, v);
                            assert(rest.skip(2) =~= u.skip(i + 2));
                            lemma_prepend_push(out@, c, utf16_decode(rest.skip(2)));
                        }
                        string_push(&mut out, c);
                    },
                    None => {
                        return None;
                    },
                }
                i = i + 2;
            } else {
                return None;
            }
        } else {
            let v = unit as u32;
            match char_from_u32(v) {
                Some(c) => {
                    proof {
                        vstd::utf8::char_u32_cast(c, v);
                        assert(rest.skip(1) =~= u.skip(i + 1));
                        lemma_prepend_push(out@, c, utf16_decode(rest.skip(1)));
                    }
                    string_push(&mut out, c);
                },
                None => {
                    return None;
                },
            }
            i = i + 1;
        }
    }
    proof {
        assert(u.skip(n as int) =~= Seq::<u16>::empty());
        assert(out@ + Seq::<char>::empty() =~= out@);
    }
    Some(out)
}

} // verus!
