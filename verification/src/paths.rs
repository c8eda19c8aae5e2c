use vstd::prelude::*;
use vstd::string::StringExecFns;

verus! {

/// The fixed file names a dump writes inside a node's directory.
#[derive(Clone, Copy, Debug, PartialEq, Eq, Structural)]
pub enum OutFileName {
    /// The serialized document header, written at the output root.
    HeaderJson,
    /// The serialized node, written in the node's own directory.
    TagJson,
    /// The raw bytecode buffer of a bytecode-bearing node, verbatim.
    MainAvm1,
    /// The decoded control-flow graph of that buffer, pretty-printed.
    MainCfgJson,
}

/// The characters of one fixed output file name.
pub open spec fn file_name_chars(name: OutFileName) -> Seq<char> {
    match name {
        OutFileName::HeaderJson => "header.json"@,
        OutFileName::TagJson => "tag.json"@,
        OutFileName::MainAvm1 => "main.avm1"@,
        OutFileName::MainCfgJson => "main.cfg.json"@,
    }
}

/// The decimal digit characters of `n`, most significant first, no padding.
pub open spec fn dec_rep(n: nat) -> Seq<char>
    decreases n,
{
    if n < 10 {
        seq![digit_char(n as int)]
    } else {
        dec_rep(n / 10) + seq![digit_char((n % 10) as int)]
    }
}

/// The character of one decimal digit.
pub open spec fn digit_char(d: int) -> char {
    if d == 0 { '0' }
    else if d == 1 { '1' }
    else if d == 2 { '2' }
    else if d == 3 { '3' }
    else if d == 4 { '4' }
    else if d == 5 { '5' }
    else if d == 6 { '6' }
    else if d == 7 { '7' }
    else if d == 8 { '8' }
    else { '9' }
}

/// The first `k` address segments rendered in decimal and joined by `/`,
/// without a trailing separator: `0`, `0/1`, ...
pub open spec fn joined_segments(addr: Seq<usize>, k: int) -> Seq<char>
    decreases k,
{
    if k <= 0 {
        Seq::empty()
    } else if k == 1 {
        dec_rep(addr[0] as nat)
    } else {
        joined_segments(addr, k - 1) + seq!['/'] + dec_rep(addr[k - 1] as nat)
    }
}

/// The path of the file `name` in the directory of the node at `addr`,
/// relative to the output root.
pub open spec fn rel_path_chars(addr: Seq<usize>, name: OutFileName) -> Seq<char> {
    if addr.len() == 0 {
        file_name_chars(name)
    } else {
        joined_segments(addr, addr.len() as int) + seq!['/'] + file_name_chars(name)
    }
}

fn push_digit(s: &mut String, d: usize)
    requires
        d < 10,
    ensures
        final(s)@ == old(s)@ + seq![digit_char(d as int)],
{
    match d {
        0 => {
            proof { reveal_strlit("0"); }
            s.append("0");
            assert(s@ =~= old(s)@ + seq![digit_char(d as int)]);
        }
        1 => {
            proof { reveal_strlit("1"); }
            s.append("1");
            assert(s@ =~= old(s)@ + seq![digit_char(d as int)]);
        }
        2 => {
            proof { reveal_strlit("2"); }
            s.append("2");
            assert(s@ =~= old(s)@ + seq![digit_char(d as int)]);
        }
        3 => {
            proof { reveal_strlit("3"); }
            s.append("3");
            assert(s@ =~= old(s)@ + seq![digit_char(d as int)]);
        }
        4 => {
            proof { reveal_strlit("4"); }
            s.append("4");
            assert(s@ =~= old(s)@ + seq![digit_char(d as int)]);
        }
        5 => {
            proof { reveal_strlit("5"); }
            s.append("5");
            assert(s@ =~= old(s)@ + seq![digit_char(d as int)]);
        }
        6 => {
            proof { reveal_strlit("6"); }
            s.append("6");
            assert(s@ =~= old(s)@ + seq![digit_char(d as int)]);
        }
        7 => {
            proof { reveal_strlit("7"); }
            s.append("7");
            assert(s@ =~= old(s)@ + seq![digit_char(d as int)]);
        }
        8 => {
            proof { reveal_strlit("8"); }
            s.append("8");
            assert(s@ =~= old(s)@ + seq![digit_char(d as int)]);
        }
        _ => {
            proof { reveal_strlit("9"); }
            s.append("9");
            assert(s@ =~= old(s)@ + seq![digit_char(d as int)]);
        }
    }
}

/// Appends the decimal digits of `n` to `s`.
pub fn push_dec(s: &mut String, n: usize)
    ensures
        final(s)@ == old(s)@ + dec_rep(n as nat),
    decreases n,
{
    if n < 10 {
        push_digit(s, n);
    } else {
        push_dec(s, n / 10);
        push_digit(s, n % 10);
        assert(s@ =~= old(s)@ + dec_rep(n as nat));
    }
}

fn push_sep(s: &mut String)
    ensures
        final(s)@ == old(s)@ + seq!['/'],
{
    proof { reveal_strlit("/"); }
    s.append("/");
    assert(s@ =~= old(s)@ + seq!['/']);
}

fn push_file_name(s: &mut String, name: OutFileName)
    ensures
        final(s)@ == old(s)@ + file_name_chars(name),
{
    match name {
        OutFileName::HeaderJson => s.append("header.json"),
        OutFileName::TagJson => s.append("tag.json"),
        OutFileName::MainAvm1 => s.append("main.avm1"),
        OutFileName::MainCfgJson => s.append("main.cfg.json"),
    }
}

/// Renders the decimal representation of one address segment.
pub fn dec_string(n: usize) -> (s: String)
    ensures
        s@ == dec_rep(n as nat),
{
    let mut s = String::new();
    push_dec(&mut s, n);
    proof {
        assert(s@ =~= dec_rep(n as nat));
    }
    s
}

/// Renders the directory path of the node at `addr`, relative to the output
/// root: decimal segments joined by `/`, as in `3` or `3/0`.
pub fn render_dir_path(addr: &Vec<usize>) -> (s: String)
    ensures
        s@ == joined_segments(addr@, addr@.len() as int),
{
    let mut s = String::new();
    let mut k: usize = 0;
    while k < addr.len()
        invariant
            k <= addr.len(),
            s@ == joined_segments(addr@, k as int),
        decreases addr.len() - k,
    {
        if k > 0 {
            push_sep(&mut s);
        }
        push_dec(&mut s, addr[k]);
        proof {
            assert(s@ =~= joined_segments(addr@, k + 1));
        }
        k = k + 1;
    }
    s
}

/// Renders the path of the file `name` in the directory of the node at
/// `addr`, relative to the output root, as in `header.json` or `3/0/tag.json`.
pub fn render_file_path(addr: &Vec<usize>, name: OutFileName) -> (s: String)
    ensures
        s@ == rel_path_chars(addr@, name),
{
    let mut s = render_dir_path(addr);
    if addr.len() > 0 {
        push_sep(&mut s);
    }
    push_file_name(&mut s, name);
    proof {
        assert(s@ =~= rel_path_chars(addr@, name));
    }
    s
}

/// Where the stem of the file name `name` ends, scanning the last `k`
/// characters: the largest index in `[1, k)` holding a `.` (byte 46), or the
/// whole length when there is none. A leading `.` never counts as a
/// separator, so a name that is nothing but a dotted suffix keeps itself.
pub open spec fn stem_end(name: Seq<u8>, k: int) -> int
    decreases k,
{
    if k <= 1 {
        name.len() as int
    } else if name[k - 1] == 46 {
        k - 1
    } else {
        stem_end(name, k - 1)
    }
}

/// The stem of the file name `name`: everything before the last `.`, except
/// that a `.` at the very start does not begin a suffix.
pub open spec fn stem_of(name: Seq<u8>) -> Seq<u8> {
    name.subrange(0, stem_end(name, name.len() as int))
}

/// The stem of a file name, as bytes: the part before the last `.`, keeping
/// a leading `.` and everything after it when that is the only dot. The
/// default output directory of a dump is named after the input's stem.
pub fn file_stem(name: &Vec<u8>) -> (r: Vec<u8>)
    ensures
        r@ == stem_of(name@),
{
    let n = name.len();
    let mut end: usize = n;
    if n >= 2 {
        let mut i: usize = 1;
        while i < n
            invariant
                1 <= i <= n,
                n == name@.len(),
                end <= n,
                end as int == stem_end(name@, i as int),
            decreases n - i,
        {
            if name[i] == 46 {
                end = i;
            }
            i = i + 1;
        }
    }
    proof {
        assert(end as int == stem_end(name@, name@.len() as int));
    }
    let mut r: Vec<u8> = Vec::new();
    let mut j: usize = 0;
    while j < end
        invariant
            j <= end,
            end as int == stem_end(name@, name@.len() as int),
            end <= name.len(),
            r@ == name@.subrange(0, j as int),
        decreases end - j,
    {
        r.push(name[j]);
        proof {
            assert(r@ =~= name@.subrange(0, j + 1));
        }
        j = j + 1;
    }
    proof {
        assert(r@ =~= stem_of(name@));
    }
    r
}


/// Whether `ch` is a decimal digit character.
pub open spec fn is_digit_char(ch: char) -> bool {
    ch == '0' || ch == '1' || ch == '2' || ch == '3' || ch == '4' || ch == '5' || ch == '6' || ch
        == '7' || ch == '8' || ch == '9'
}

proof fn lemma_dec_rep_digits(n: nat)
    ensures
        dec_rep(n).len() >= 1,
        forall|k: int| 0 <= k < dec_rep(n).len() ==> is_digit_char(#[trigger] dec_rep(n)[k]),
    decreases n,
{
    if n < 10 {
    } else {
        lemma_dec_rep_digits(n / 10);
        assert forall|k: int| 0 <= k < dec_rep(n).len() implies is_digit_char(
            #[trigger] dec_rep(n)[k],
        ) by {
            if k < dec_rep(n / 10).len() {
                assert(dec_rep(n)[k] == dec_rep(n / 10)[k]);
            } else {
                assert(dec_rep(n)[k] == digit_char((n % 10) as int));
            }
        }
    }
}

proof fn lemma_digit_char_injective(x: int, y: int)
    requires
        0 <= x < 10,
        0 <= y < 10,
        digit_char(x) == digit_char(y),
    ensures
        x == y,
{
}

proof fn lemma_dec_rep_injective(a: nat, b: nat)
    requires
        dec_rep(a) == dec_rep(b),
    ensures
        a == b,
    decreases a + b,
{
    lemma_dec_rep_digits(a);
    lemma_dec_rep_digits(b);
    if a < 10 && b < 10 {
        assert(dec_rep(a)[0] == digit_char(a as int));
        assert(dec_rep(b)[0] == digit_char(b as int));
        lemma_digit_char_injective(a as int, b as int);
    } else if a < 10 {
        lemma_dec_rep_digits(b / 10);
        assert(dec_rep(b).len() >= 2);
        assert(false);
    } else if b < 10 {
        lemma_dec_rep_digits(a / 10);
        assert(dec_rep(a).len() >= 2);
        assert(false);
    } else {
        let la = dec_rep(a / 10).len() as int;
        let lb = dec_rep(b / 10).len() as int;
        assert(dec_rep(a).len() == la + 1);
        assert(dec_rep(b).len() == lb + 1);
        assert(la == lb);
        assert(dec_rep(a)[la] == digit_char((a % 10) as int));
        assert(dec_rep(b)[la] == digit_char((b % 10) as int));
        lemma_digit_char_injective((a % 10) as int, (b % 10) as int);
        assert(dec_rep(a / 10) =~= dec_rep(a).subrange(0, la));
        assert(dec_rep(b / 10) =~= dec_rep(b).subrange(0, la));
        lemma_dec_rep_injective(a / 10, b / 10);
        assert(a == 10 * (a / 10) + a % 10);
        assert(b == 10 * (b / 10) + b % 10);
    }
}

/// Distinct node addresses are rendered at distinct directory paths: within
/// the two-level address space of a dump, the decimal-segment rendering
/// never maps two addresses to one path, so the on-disk tree is a faithful
/// image of the document's address space.
pub proof fn lemma_dir_paths_distinct(a1: Seq<usize>, a2: Seq<usize>)
    requires
        1 <= a1.len() <= 2,
        1 <= a2.len() <= 2,
        a1 != a2,
    ensures
        joined_segments(a1, a1.len() as int) != joined_segments(a2, a2.len() as int),
{
    let s1 = joined_segments(a1, a1.len() as int);
    let s2 = joined_segments(a2, a2.len() as int);
    lemma_dec_rep_digits(a1[0] as nat);
    lemma_dec_rep_digits(a2[0] as nat);
    if s1 == s2 {
        if a1.len() == 1 && a2.len() == 1 {
            lemma_dec_rep_injective(a1[0] as nat, a2[0] as nat);
            assert(a1 =~= a2);
        } else if a1.len() == 1 && a2.len() == 2 {
            lemma_dec_rep_digits(a2[1] as nat);
            let p2 = dec_rep(a2[0] as nat).len() as int;
            assert(joined_segments(a2, 1) == dec_rep(a2[0] as nat));
            assert(s2 == dec_rep(a2[0] as nat) + seq!['/'] + dec_rep(a2[1] as nat));
            assert(s2[p2] == '/');
            assert(is_digit_char(s1[p2]));
            assert(false);
        } else if a1.len() == 2 && a2.len() == 1 {
            lemma_dec_rep_digits(a1[1] as nat);
            let p1 = dec_rep(a1[0] as nat).len() as int;
            assert(joined_segments(a1, 1) == dec_rep(a1[0] as nat));
            assert(s1 == dec_rep(a1[0] as nat) + seq!['/'] + dec_rep(a1[1] as nat));
            assert(s1[p1] == '/');
            assert(is_digit_char(s2[p1]));
            assert(false);
        } else {
            lemma_dec_rep_digits(a1[1] as nat);
            lemma_dec_rep_digits(a2[1] as nat);
            let p1 = dec_rep(a1[0] as nat).len() as int;
            let p2 = dec_rep(a2[0] as nat).len() as int;
            assert(joined_segments(a1, 1) == dec_rep(a1[0] as nat));
            assert(s1 == dec_rep(a1[0] as nat) + seq!['/'] + dec_rep(a1[1] as nat));
            assert(joined_segments(a2, 1) == dec_rep(a2[0] as nat));
            assert(s2 == dec_rep(a2[0] as nat) + seq!['/'] + dec_rep(a2[1] as nat));
            assert(s1[p1] == '/');
            assert(s2[p2] == '/');
            if p1 < p2 {
                assert(s2[p1] == dec_rep(a2[0] as nat)[p1]);
                assert(is_digit_char(s2[p1]));
                assert(false);
            }
            if p2 < p1 {
                assert(s1[p2] == dec_rep(a1[0] as nat)[p2]);
                assert(is_digit_char(s1[p2]));
                assert(false);
            }
            assert(p1 == p2);
            assert(dec_rep(a1[0] as nat) =~= s1.subrange(0, p1));
            assert(dec_rep(a2[0] as nat) =~= s2.subrange(0, p1));
            lemma_dec_rep_injective(a1[0] as nat, a2[0] as nat);
            assert(dec_rep(a1[1] as nat) =~= s1.subrange(p1 + 1, s1.len() as int));
            assert(dec_rep(a2[1] as nat) =~= s2.subrange(p1 + 1, s2.len() as int));
            lemma_dec_rep_injective(a1[1] as nat, a2[1] as nat);
            assert(a1 =~= a2);
        }
    }
}

} // verus!
