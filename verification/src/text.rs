//! Text helpers shared by the build-time compiler: identifier sanitising,
//! registry-id construction and simple string utilities.

use vstd::prelude::*;
use vstd::string::*;

verus! {

/// What one character of a namespaced id contributes to a Rust identifier:
/// `/` separates path segments and becomes `__`, `-` becomes `_`, every
/// other character is kept.
pub open spec fn sanitize_char(c: char) -> Seq<char> {
    if c == '/' {
        seq!['_', '_']
    } else if c == '-' {
        seq!['_']
    } else {
        seq![c]
    }
}

/// Character-wise expansion of [`sanitize_char`] over a whole string.
pub open spec fn sanitize_seq(s: Seq<char>) -> Seq<char>
    decreases s.len(),
{
    if s.len() == 0 {
        Seq::empty()
    } else {
        sanitize_char(s[0]) + sanitize_seq(s.drop_first())
    }
}

/// The text after the first `:`, if the string has one.
pub open spec fn after_colon(s: Seq<char>) -> Option<Seq<char>>
    decreases s.len(),
{
    if s.len() == 0 {
        None
    } else if s[0] == ':' {
        Some(s.drop_first())
    } else {
        after_colon(s.drop_first())
    }
}

/// A namespaced id without its namespace: the text after the first `:`,
/// or the whole id when there is none.
pub open spec fn strip_namespace(s: Seq<char>) -> Seq<char> {
    match after_colon(s) {
        Some(t) => t,
        None => s,
    }
}

proof fn lemma_sanitize_seq_snoc(s: Seq<char>, c: char)
    ensures
        sanitize_seq(s.push(c)) == sanitize_seq(s) + sanitize_char(c),
    decreases s.len(),
{
    if s.len() == 0 {
        assert(s.push(c).drop_first() =~= s);
        assert(sanitize_seq(s.push(c)) =~= sanitize_char(c));
        assert(sanitize_seq(s) + sanitize_char(c) =~= sanitize_char(c));
    } else {
        assert(s.push(c).drop_first() =~= s.drop_first().push(c));
        lemma_sanitize_seq_snoc(s.drop_first(), c);
        assert(sanitize_seq(s.push(c)) == sanitize_char(s[0]) + sanitize_seq(
            s.drop_first().push(c),
        ));
        assert(sanitize_seq(s) + sanitize_char(c) =~= sanitize_char(s[0]) + (sanitize_seq(
            s.drop_first(),
        ) + sanitize_char(c)));
    }
}

/// When `s` starts with `i` characters other than `:` followed by a `:`,
/// the text after the first colon is everything past position `i`.
proof fn lemma_after_colon_found(s: Seq<char>, i: int)
    requires
        0 <= i < s.len(),
        forall|k: int| 0 <= k < i ==> s[k] != ':',
        s[i] == ':',
    ensures
        after_colon(s) == Some(s.subrange(i + 1, s.len() as int)),
    decreases i,
{
    if i == 0 {
        assert(s.drop_first() =~= s.subrange(1, s.len() as int));
    } else {
        lemma_after_colon_found(s.drop_first(), i - 1);
        assert(s.drop_first().subrange(i, s.len() - 1) =~= s.subrange(i + 1, s.len() as int));
    }
}

/// A string without any `:` has no text after a first colon.
proof fn lemma_after_colon_none(s: Seq<char>)
    requires
        forall|k: int| 0 <= k < s.len() ==> s[k] != ':',
    ensures
        after_colon(s) is None,
    decreases s.len(),
{
    if s.len() > 0 {
        lemma_after_colon_none(s.drop_first());
    }
}

/// Converts a namespaced id to a valid Rust identifier.
///
/// The namespace up to and including the first `:` is dropped, each `/`
/// becomes `__` and each `-` becomes `_`, so
/// `minecraft:overworld/continents` turns into `overworld__continents`.
pub fn sanitize_name(id: &str) -> (out: String)
    ensures
        out@ == sanitize_seq(strip_namespace(id@)),
{
    let n: usize = id.unicode_len();
    let mut start: usize = 0;
    let mut found = false;
    let mut i: usize = 0;
    while i < n && !found
        invariant
            n == id@.len(),
            0 <= i <= n,
            !found ==> start == 0 && (forall|k: int| 0 <= k < i ==> id@[k] != ':'),
            found ==> 1 <= start <= n && id@[start - 1] == ':' && (forall|k: int|
                0 <= k < start - 1 ==> id@[k] != ':'),
        decreases n - i,
    {
        let c = id.get_char(i);
        if c == ':' {
            found = true;
            start = i + 1;
        }
        i = i + 1;
    }
    proof {
        if found {
            lemma_after_colon_found(id@, start - 1);
        } else {
            lemma_after_colon_none(id@);
            assert(strip_namespace(id@) =~= id@.subrange(0, n as int));
        }
    }
    let ghost suffix: Seq<char> = strip_namespace(id@);
    assert(suffix =~= id@.subrange(start as int, n as int));
    let mut out = String::new();
    let mut i: usize = start;
    while i < n
        invariant
            n == id@.len(),
            start <= i <= n,
            suffix == id@.subrange(start as int, n as int),
            out@ == sanitize_seq(id@.subrange(start as int, i as int)),
        decreases n - i,
    {
        let c = id.get_char(i);
        if c == '/' {
            out.append("__");
            proof {
                reveal_strlit("__");
            }
        } else if c == '-' {
            out.append("_");
            proof {
                reveal_strlit("_");
            }
        } else {
            let piece = id.substring_char(i, i + 1);
            out.append(piece);
            assert(piece@ =~= seq![id@[i as int]]);
        }
        proof {
            let pre = id@.subrange(start as int, i as int);
            lemma_sanitize_seq_snoc(pre, id@[i as int]);
            assert(id@.subrange(start as int, i + 1) =~= pre.push(id@[i as int]));
        }
        i = i + 1;
    }
    proof {
        assert(id@.subrange(start as int, n as int) == suffix);
    }
    out
}

/// The ASCII upper-case counterpart of a character; anything but a
/// lower-case letter is kept.
pub open spec fn upper_char(c: char) -> char {
    if ('a' as int) <= (c as int) <= ('z' as int) {
        (((c as int) - 32) as char)
    } else {
        c
    }
}

/// Upper-cases the first character of a string, in ASCII.
pub fn capitalize(s: &str) -> (out: String)
    ensures
        s@.len() == 0 ==> out@ == Seq::<char>::empty(),
        s@.len() > 0 ==> out@ == seq![upper_char(s@[0])] + s@.subrange(1, s@.len() as int),
{
    let n: usize = s.unicode_len();
    if n == 0 {
        return String::new();
    }
    let c = s.get_char(0);
    let cc = c as u32;
    let mut out = if ('a' as u32) <= cc && cc <= ('z' as u32) {
        String::from_str(upper_str(c))
    } else {
        String::from_str(s.substring_char(0, 1))
    };
    let rest = s.substring_char(1, n);
    out.append(rest);
    proof {
        assert(out@ =~= seq![upper_char(s@[0])] + s@.subrange(1, s@.len() as int));
    }
    out
}

/// The upper-case letter for a lower-case ASCII letter, as text.
fn upper_str(c: char) -> (r: &'static str)
    requires
        ('a' as int) <= (c as int) <= ('z' as int),
    ensures
        r@ == seq![upper_char(c)],
{
    proof {
        reveal_strlit("A");
        reveal_strlit("B");
        reveal_strlit("C");
        reveal_strlit("D");
        reveal_strlit("E");
        reveal_strlit("F");
        reveal_strlit("G");
        reveal_strlit("H");
        reveal_strlit("I");
        reveal_strlit("J");
        reveal_strlit("K");
        reveal_strlit("L");
        reveal_strlit("M");
        reveal_strlit("N");
        reveal_strlit("O");
        reveal_strlit("P");
        reveal_strlit("Q");
        reveal_strlit("R");
        reveal_strlit("S");
        reveal_strlit("T");
        reveal_strlit("U");
        reveal_strlit("V");
        reveal_strlit("W");
        reveal_strlit("X");
        reveal_strlit("Y");
        reveal_strlit("Z");
    }
    let cc = c as u32;
    if cc == ('a' as u32) {
        "A"
    } else if cc == ('b' as u32) {
        "B"
    } else if cc == ('c' as u32) {
        "C"
    } else if cc == ('d' as u32) {
        "D"
    } else if cc == ('e' as u32) {
        "E"
    } else if cc == ('f' as u32) {
        "F"
    } else if cc == ('g' as u32) {
        "G"
    } else if cc == ('h' as u32) {
        "H"
    } else if cc == ('i' as u32) {
        "I"
    } else if cc == ('j' as u32) {
        "J"
    } else if cc == ('k' as u32) {
        "K"
    } else if cc == ('l' as u32) {
        "L"
    } else if cc == ('m' as u32) {
        "M"
    } else if cc == ('n' as u32) {
        "N"
    } else if cc == ('o' as u32) {
        "O"
    } else if cc == ('p' as u32) {
        "P"
    } else if cc == ('q' as u32) {
        "Q"
    } else if cc == ('r' as u32) {
        "R"
    } else if cc == ('s' as u32) {
        "S"
    } else if cc == ('t' as u32) {
        "T"
    } else if cc == ('u' as u32) {
        "U"
    } else if cc == ('v' as u32) {
        "V"
    } else if cc == ('w' as u32) {
        "W"
    } else if cc == ('x' as u32) {
        "X"
    } else if cc == ('y' as u32) {
        "Y"
    } else {
        "Z"
    }
}

/// Where the dropped extension of a path component starts: at `c` when
/// `s[c]` is a dot with no later dot or separator, at the end when the
/// last component has no dot.
pub open spec fn is_ext_cut(s: Seq<char>, c: int) -> bool {
    ||| (c == s.len() && forall|k: int|
        0 <= k < s.len() && s[k] == '.' ==> exists|l: int| k < l < s.len() && s[l] == '/')
    ||| (0 <= c < s.len() && s[c] == '.' && forall|k: int|
        c < k < s.len() ==> s[k] != '.' && s[k] != '/')
}

/// Converts a density-function file path under `base_dir` to a registry
/// id: the relative path with its extension dropped, under the
/// `minecraft:` namespace.  Path segments are separated by `/`.
pub fn path_to_id(path: &str, base_dir: &str) -> (out: String)
    requires
        path@.len() > base_dir@.len(),
        path@.subrange(0, base_dir@.len() as int) == base_dir@,
        path@[base_dir@.len() as int] == '/',
    ensures
        exists|c: int|
            #[trigger] is_ext_cut(
                path@.subrange((base_dir@.len() + 1) as int, path@.len() as int),
                c,
            ) && out@ == "minecraft:"@ + path@.subrange(
                (base_dir@.len() + 1) as int,
                path@.len() as int,
            ).subrange(0, c),
{
    let bn: usize = base_dir.unicode_len();
    let pn: usize = path.unicode_len();
    let rel = path.substring_char(bn + 1, pn);
    let rn: usize = rel.unicode_len();
    let mut last_dot: usize = rn;
    let mut have_dot = false;
    let mut i: usize = 0;
    while i < rn
        invariant
            rn == rel@.len(),
            i <= rn,
            have_dot ==> last_dot < i && rel@[last_dot as int] == '.' && forall|k: int|
                last_dot < k < i ==> rel@[k] != '.' && rel@[k] != '/',
            !have_dot ==> last_dot == rn && forall|k: int|
                0 <= k < i && rel@[k] == '.' ==> exists|l: int| k < l < i && rel@[l] == '/',
        decreases rn - i,
    {
        let ch = rel.get_char(i);
        if ch == '.' {
            last_dot = i;
            have_dot = true;
        } else if ch == '/' {
            proof {
                if have_dot {
                    assert forall|k: int|
                        0 <= k < i + 1 && rel@[k] == '.' implies exists|l: int|
                        k < l < i + 1 && rel@[l] == '/' by {
                        assert(rel@[i as int] == '/');
                    }
                }
            }
            last_dot = rn;
            have_dot = false;
        }
        i = i + 1;
    }
    let cut: usize = if have_dot {
        last_dot
    } else {
        rn
    };
    proof {
        assert(is_ext_cut(rel@, cut as int));
    }
    let mut out = String::from_str("minecraft:");
    let kept = rel.substring_char(0, cut);
    out.append(kept);
    proof {
        assert(rel@ =~= path@.subrange((base_dir@.len() + 1) as int, path@.len() as int));
        assert(out@ == "minecraft:"@ + rel@.subrange(0, cut as int));
    }
    out
}

/// Converts a biome id to the upper-case constant identifier naming it:
/// the namespace is dropped and ASCII letters are upper-cased, so
/// `minecraft:plains` turns into `PLAINS`.
pub fn biome_ident(name: &str) -> (out: String)
    ensures
        out@ == upper_seq(strip_namespace(name@)),
{
    let n: usize = name.unicode_len();
    let mut start: usize = 0;
    let mut found = false;
    let mut i: usize = 0;
    while i < n && !found
        invariant
            n == name@.len(),
            0 <= i <= n,
            !found ==> start == 0 && (forall|k: int| 0 <= k < i ==> name@[k] != ':'),
            found ==> 1 <= start <= n && name@[start - 1] == ':' && (forall|k: int|
                0 <= k < start - 1 ==> name@[k] != ':'),
        decreases n - i,
    {
        let c = name.get_char(i);
        if c == ':' {
            found = true;
            start = i + 1;
        }
        i = i + 1;
    }
    proof {
        if found {
            lemma_after_colon_found(name@, start - 1);
        } else {
            lemma_after_colon_none(name@);
        }
        assert(strip_namespace(name@) =~= name@.subrange(start as int, n as int));
    }
    let suffix = name.substring_char(start, n);
    ascii_upper(suffix)
}

/// The decimal digit character for `d`.
pub open spec fn digit_char(d: int) -> char {
    if d == 0 {
        '0'
    } else if d == 1 {
        '1'
    } else if d == 2 {
        '2'
    } else if d == 3 {
        '3'
    } else if d == 4 {
        '4'
    } else if d == 5 {
        '5'
    } else if d == 6 {
        '6'
    } else if d == 7 {
        '7'
    } else if d == 8 {
        '8'
    } else {
        '9'
    }
}

/// The decimal numeral of a non-negative integer, without leading zeros.
pub open spec fn nat_digits(v: int) -> Seq<char>
    decreases v,
{
    if v < 10 {
        seq![digit_char(v)]
    } else {
        nat_digits(v / 10).push(digit_char(v % 10))
    }
}

/// One decimal digit as a string slice.
fn digit_str(d: u64) -> (r: &'static str)
    requires
        d < 10,
    ensures
        r@ == seq![digit_char(d as int)],
{
    proof {
        reveal_strlit("0");
        reveal_strlit("1");
        reveal_strlit("2");
        reveal_strlit("3");
        reveal_strlit("4");
        reveal_strlit("5");
        reveal_strlit("6");
        reveal_strlit("7");
        reveal_strlit("8");
        reveal_strlit("9");
    }
    if d == 0 {
        "0"
    } else if d == 1 {
        "1"
    } else if d == 2 {
        "2"
    } else if d == 3 {
        "3"
    } else if d == 4 {
        "4"
    } else if d == 5 {
        "5"
    } else if d == 6 {
        "6"
    } else if d == 7 {
        "7"
    } else if d == 8 {
        "8"
    } else {
        "9"
    }
}

/// Writes a non-negative integer as its decimal numeral.
pub fn u64_to_string(v: u64) -> (out: String)
    ensures
        out@ == nat_digits(v as int),
    decreases v,
{
    if v < 10 {
        let mut out = String::new();
        out.append(digit_str(v));
        out
    } else {
        let mut out = u64_to_string(v / 10);
        out.append(digit_str(v % 10));
        out
    }
}

/// Writes a machine size as its decimal numeral.
pub fn usize_to_string(v: usize) -> (out: String)
    ensures
        out@ == nat_digits(v as int),
{
    u64_to_string(v as u64)
}

/// The decimal numeral of an integer: a minus sign before the digits of
/// a negative value's magnitude.
pub open spec fn int_digits(v: int) -> Seq<char> {
    if v < 0 {
        seq!['-'] + nat_digits(-v)
    } else {
        nat_digits(v)
    }
}

/// Writes a signed integer as its decimal numeral.
pub fn i64_to_string(v: i64) -> (out: String)
    ensures
        out@ == int_digits(v as int),
{
    if v < 0 {
        let mag: u64 = if v == i64::MIN {
            0x8000_0000_0000_0000
        } else {
            (-v) as u64
        };
        let mut out = String::from_str("-");
        out.append(u64_to_string(mag).as_str());
        proof {
            reveal_strlit("-");
            assert(out@ =~= seq!['-'] + nat_digits(-(v as int)));
        }
        out
    } else {
        u64_to_string(v as u64)
    }
}

/// The ASCII upper-case counterpart of a whole string, character by
/// character.
pub open spec fn upper_seq(s: Seq<char>) -> Seq<char>
    decreases s.len(),
{
    if s.len() == 0 {
        Seq::empty()
    } else {
        seq![upper_char(s[0])] + upper_seq(s.drop_first())
    }
}

proof fn lemma_upper_seq_snoc(s: Seq<char>, c: char)
    ensures
        upper_seq(s.push(c)) == upper_seq(s) + seq![upper_char(c)],
    decreases s.len(),
{
    if s.len() == 0 {
        assert(s.push(c).drop_first() =~= s);
        assert(upper_seq(s.push(c)) =~= seq![upper_char(c)]);
        assert(upper_seq(s) + seq![upper_char(c)] =~= seq![upper_char(c)]);
    } else {
        assert(s.push(c).drop_first() =~= s.drop_first().push(c));
        lemma_upper_seq_snoc(s.drop_first(), c);
        assert(upper_seq(s.push(c)) == seq![upper_char(s[0])] + upper_seq(s.drop_first().push(c)));
        assert(upper_seq(s) + seq![upper_char(c)] =~= seq![upper_char(s[0])] + (upper_seq(
            s.drop_first(),
        ) + seq![upper_char(c)]));
    }
}

/// Upper-cases a whole string, in ASCII; anything but lower-case
/// letters is kept.
pub fn ascii_upper(s: &str) -> (out: String)
    ensures
        out@ == upper_seq(s@),
{
    let n: usize = s.unicode_len();
    let mut out = String::new();
    proof {
        assert(s@.subrange(0, 0) =~= Seq::<char>::empty());
        assert(out@ =~= upper_seq(s@.subrange(0, 0)));
    }
    let mut i: usize = 0;
    while i < n
        invariant
            n == s@.len(),
            i <= n,
            out@ == upper_seq(s@.subrange(0, i as int)),
        decreases n - i,
    {
        let c = s.get_char(i);
        let cc = c as u32;
        if ('a' as u32) <= cc && cc <= ('z' as u32) {
            out.append(upper_str(c));
        } else {
            let piece = s.substring_char(i, i + 1);
            out.append(piece);
            proof {
                assert(piece@ =~= seq![s@[i as int]]);
            }
        }
        proof {
            let pre = s@.subrange(0, i as int);
            lemma_upper_seq_snoc(pre, s@[i as int]);
            assert(s@.subrange(0, i + 1) =~= pre.push(s@[i as int]));
        }
        i = i + 1;
    }
    proof {
        assert(s@.subrange(0, n as int) =~= s@);
    }
    out
}

} // verus!
