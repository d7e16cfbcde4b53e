//! Per-line conversion of leading whitespace.
//!
//! Each line is handled independently. `tabify` collapses every full group
//! of `width` leading spaces into one tab; `untabify` expands every leading
//! tab into `width` spaces. Characters from the first character that ends
//! the leading run onwards pass through unchanged.

use vstd::prelude::*;

verus! {

/// Which direction the conversion runs.
#[derive(Clone, Copy, PartialEq, Eq, Structural, Debug)]
pub enum Mode {
    Tabify,
    Untabify,
}

/// Length of the maximal leading run of the character `c` in `s`.
pub open spec fn leading_count(s: Seq<char>, c: char) -> nat
    decreases s.len(),
{
    if s.len() > 0 && s[0] == c {
        (1 + leading_count(s.drop_first(), c)) as nat
    } else {
        0
    }
}

/// The leading run is a run: every character before `leading_count` is `c`,
/// and the character at `leading_count`, if any, is not.
pub proof fn lemma_leading_count_run(s: Seq<char>, c: char)
    ensures
        leading_count(s, c) <= s.len(),
        forall|i: int| 0 <= i < leading_count(s, c) ==> s[i] == c,
        leading_count(s, c) < s.len() ==> s[leading_count(s, c) as int] != c,
    decreases s.len(),
{
    if s.len() > 0 && s[0] == c {
        lemma_leading_count_run(s.drop_first(), c);
        assert forall|i: int| 0 <= i < leading_count(s, c) implies s[i] == c by {
            if i > 0 {
                assert(s.drop_first()[i - 1] == s[i]);
            }
        }
        if leading_count(s, c) < s.len() {
            assert(s.drop_first()[leading_count(s, c) - 1] == s[leading_count(s, c) as int]);
        }
    }
}

/// Conversely, a run of `c` of length `n` that is ended by a different
/// character (or by the end of the sequence) is the maximal leading run.
pub proof fn lemma_leading_count_from_run(s: Seq<char>, c: char, n: int)
    requires
        0 <= n <= s.len(),
        forall|i: int| 0 <= i < n ==> s[i] == c,
        n == s.len() || s[n] != c,
    ensures
        leading_count(s, c) == n,
    decreases s.len(),
{
    if n == 0 {
    } else {
        assert(s[0] == c);
        assert forall|i: int| 0 <= i < n - 1 implies s.drop_first()[i] == c by {
            assert(s.drop_first()[i] == s[i + 1]);
        }
        if n - 1 < s.drop_first().len() {
            assert(s.drop_first()[n - 1] == s[n]);
        }
        lemma_leading_count_from_run(s.drop_first(), c, n - 1);
    }
}

/// What `tabify` returns: with `n` leading spaces, `n / w` tabs, then the
/// `n % w` spaces left over, then the rest of the line unchanged. A line
/// made of spaces alone never reaches a character that would flush the
/// leftover spaces, so only the tabs are kept.
pub open spec fn tabify_spec(s: Seq<char>, w: nat) -> Seq<char>
    recommends
        w >= 1,
{
    let n = leading_count(s, ' ');
    if n == s.len() {
        Seq::new(n / w, |i: int| '\t')
    } else {
        Seq::new(n / w, |i: int| '\t') + Seq::new(n % w, |i: int| ' ') + s.skip(n as int)
    }
}

/// What `untabify` returns: with `n` leading tabs, `n * w` spaces, then the
/// rest of the line unchanged.
pub open spec fn untabify_spec(s: Seq<char>, w: nat) -> Seq<char> {
    let n = leading_count(s, '\t');
    Seq::new(n * w, |i: int| ' ') + s.skip(n as int)
}

/// Collapse every full group of `width` leading spaces into one tab.
pub fn tabify(line: &str, width: i32) -> (r: String)
    requires
        1 <= width,
    ensures
        r@ == tabify_spec(line@, width as nat),
{
    let len: usize = line.unicode_len();
    let mut n: usize = 0;
    while n < len && line.get_char(n) == ' '
        invariant
            n <= len,
            len == line@.len(),
            forall|i: int| 0 <= i < n ==> line@[i] == ' ',
        decreases len - n,
    {
        n = n + 1;
    }
    proof {
        lemma_leading_count_from_run(line@, ' ', n as int);
    }
    let w: usize = width as usize;
    let tabs: usize = n / w;
    let leftover: usize = n % w;
    let mut out = String::new();
    let mut i: usize = 0;
    while i < tabs
        invariant
            i <= tabs,
            out@ == Seq::new(i as nat, |j: int| '\t'),
        decreases tabs - i,
    {
        proof {
            reveal_strlit("\t");
        }
        out.append("\t");
        proof {
            assert(out@ =~= Seq::new((i + 1) as nat, |j: int| '\t'));
        }
        i = i + 1;
    }
    if n < len {
        let mut k: usize = 0;
        while k < leftover
            invariant
                k <= leftover,
                out@ == Seq::new(tabs as nat, |j: int| '\t') + Seq::new(
                    k as nat,
                    |j: int| ' ',
                ),
            decreases leftover - k,
        {
            proof {
                reveal_strlit(" ");
            }
            out.append(" ");
            proof {
                assert(out@ =~= Seq::new(tabs as nat, |j: int| '\t') + Seq::new(
                    (k + 1) as nat,
                    |j: int| ' ',
                ));
            }
            k = k + 1;
        }
        let rest = line.substring_char(n, len);
        out.append(rest);
        proof {
            assert(out@ =~= tabify_spec(line@, width as nat));
        }
    } else {
        proof {
            assert(out@ =~= tabify_spec(line@, width as nat));
        }
    }
    out
}

/// Expand every leading tab into `width` spaces.
pub fn untabify(line: &str, width: i32) -> (r: String)
    requires
        1 <= width,
    ensures
        r@ == untabify_spec(line@, width as nat),
{
    let len: usize = line.unicode_len();
    let mut n: usize = 0;
    while n < len && line.get_char(n) == '\t'
        invariant
            n <= len,
            len == line@.len(),
            forall|i: int| 0 <= i < n ==> line@[i] == '\t',
        decreases len - n,
    {
        n = n + 1;
    }
    proof {
        lemma_leading_count_from_run(line@, '\t', n as int);
    }
    let w: usize = width as usize;
    let mut out = String::new();
    let mut i: usize = 0;
    while i < n
        invariant
            i <= n,
            out@.len() == (i as nat) * (w as nat),
            forall|j: int| 0 <= j < out@.len() ==> out@[j] == ' ',
        decreases n - i,
    {
        let mut k: usize = 0;
        while k < w
            invariant
                k <= w,
                out@.len() == (i as nat) * (w as nat) + (k as nat),
                forall|j: int| 0 <= j < out@.len() ==> out@[j] == ' ',
            decreases w - k,
        {
            proof {
                reveal_strlit(" ");
            }
            out.append(" ");
            k = k + 1;
        }
        proof {
            assert(((i + 1) as nat) * (w as nat) == (i as nat) * (w as nat) + (w as nat))
                by (nonlinear_arith);
        }
        i = i + 1;
    }
    proof {
        assert(out@ =~= Seq::new((n as nat) * (w as nat), |j: int| ' '));
    }
    let rest = line.substring_char(n, len);
    out.append(rest);
    proof {
        assert(out@ =~= untabify_spec(line@, width as nat));
    }
    out
}

/// What `transform` returns for each mode.
pub open spec fn transform_spec(s: Seq<char>, w: nat, mode: Mode) -> Seq<char> {
    match mode {
        Mode::Tabify => tabify_spec(s, w),
        Mode::Untabify => untabify_spec(s, w),
    }
}

/// Convert one line according to `mode`.
pub fn transform(line: &str, width: i32, mode: &Mode) -> (r: String)
    requires
        1 <= width,
    ensures
        r@ == transform_spec(line@, width as nat, *mode),
{
    match mode {
        Mode::Tabify => tabify(line, width),
        Mode::Untabify => untabify(line, width),
    }
}

/// Convert every line of a document according to `mode`. Lines are handled
/// independently of their neighbours.
pub fn process(lines: &Vec<String>, mode: &Mode, width: i32) -> (out: Vec<String>)
    requires
        1 <= width,
    ensures
        out@.len() == lines@.len(),
        forall|i: int| 0 <= i < lines@.len() ==> (#[trigger] out@[i])@ == transform_spec(
            lines@[i]@,
            width as nat,
            *mode,
        ),
{
    let mut out: Vec<String> = Vec::new();
    let mut i: usize = 0;
    while i < lines.len()
        invariant
            i <= lines@.len(),
            out@.len() == i,
            1 <= width,
            forall|j: int| 0 <= j < i ==> (#[trigger] out@[j])@ == transform_spec(
                lines@[j]@,
                width as nat,
                *mode,
            ),
        decreases lines@.len() - i,
    {
        let t = transform(lines[i].as_str(), width, mode);
        out.push(t);
        i = i + 1;
    }
    out
}

/// Tabifying touches nothing past the leading spaces: the result is made of
/// a whitespace prefix followed by the line from its first non-space
/// character onwards, unchanged.
pub proof fn lemma_tabify_only_leading(s: Seq<char>, w: nat)
    requires
        w >= 1,
        leading_count(s, ' ') < s.len(),
    ensures
        ({
            let n = leading_count(s, ' ');
            let r = tabify_spec(s, w);
            let k = n / w + n % w;
            &&& r.len() == k + (s.len() - n)
            &&& r.skip(k as int) == s.skip(n as int)
            &&& forall|i: int| 0 <= i < k ==> r[i] == '\t' || r[i] == ' '
        }),
{
    let n = leading_count(s, ' ');
    let r = tabify_spec(s, w);
    let k = n / w + n % w;
    assert(r.skip(k as int) =~= s.skip(n as int));
}

/// Untabifying touches nothing past the leading tabs: the result is made of
/// a run of spaces followed by the line from its first non-tab character
/// onwards, unchanged.
pub proof fn lemma_untabify_only_leading(s: Seq<char>, w: nat)
    ensures
        ({
            let n = leading_count(s, '\t');
            let r = untabify_spec(s, w);
            &&& r.len() == n * w + (s.len() - n)
            &&& r.skip((n * w) as int) == s.skip(n as int)
            &&& forall|i: int| 0 <= i < n * w ==> r[i] == ' '
        }),
{
    let n = leading_count(s, '\t');
    let r = untabify_spec(s, w);
    lemma_leading_count_run(s, '\t');
    assert(r.skip((n * w) as int) =~= s.skip(n as int));
}

/// Column width of the maximal leading whitespace run: a space is one
/// column, a tab is `w` columns.
pub open spec fn leading_columns(s: Seq<char>, w: nat) -> nat
    decreases s.len(),
{
    if s.len() > 0 && s[0] == ' ' {
        1 + leading_columns(s.drop_first(), w)
    } else if s.len() > 0 && s[0] == '\t' {
        w + leading_columns(s.drop_first(), w)
    } else {
        0
    }
}

pub proof fn lemma_leading_count_concat(m: nat, c: char, t: Seq<char>)
    ensures
        leading_count(Seq::new(m, |i: int| c) + t, c) == m + leading_count(t, c),
    decreases m,
{
    if m == 0 {
        assert(Seq::new(0, |i: int| c) + t =~= t);
    } else {
        let x = Seq::new(m, |i: int| c) + t;
        assert(x[0] == c);
        assert(x.drop_first() =~= Seq::new((m - 1) as nat, |i: int| c) + t);
        lemma_leading_count_concat((m - 1) as nat, c, t);
    }
}

pub proof fn lemma_leading_columns_spaces(a: nat, t: Seq<char>, w: nat)
    ensures
        leading_columns(Seq::new(a, |i: int| ' ') + t, w) == a + leading_columns(t, w),
    decreases a,
{
    if a == 0 {
        assert(Seq::new(0, |i: int| ' ') + t =~= t);
    } else {
        let x = Seq::new(a, |i: int| ' ') + t;
        assert(x[0] == ' ');
        assert(x.drop_first() =~= Seq::new((a - 1) as nat, |i: int| ' ') + t);
        lemma_leading_columns_spaces((a - 1) as nat, t, w);
    }
}

pub proof fn lemma_leading_columns_tabs(a: nat, t: Seq<char>, w: nat)
    ensures
        leading_columns(Seq::new(a, |i: int| '\t') + t, w) == a * w + leading_columns(t, w),
    decreases a,
{
    if a == 0 {
        assert(Seq::new(0, |i: int| '\t') + t =~= t);
    } else {
        let x = Seq::new(a, |i: int| '\t') + t;
        assert(x[0] == '\t');
        assert(x.drop_first() =~= Seq::new((a - 1) as nat, |i: int| '\t') + t);
        lemma_leading_columns_tabs((a - 1) as nat, t, w);
        assert(w + ((a - 1) as nat) * w == a * w) by (nonlinear_arith)
            requires
                a >= 1,
        ;
    }
}

/// Untabifying a tabified line reproduces the original leading whitespace
/// measured in columns, where a space is one column and a tab is `w`
/// columns. The one family of inputs left out: a line made of spaces alone
/// whose length is not a multiple of the width — tabify never reaches a
/// character that would flush the leftover spaces there, so the leftover
/// columns are dropped.
pub proof fn lemma_tabify_untabify_round_trip(s: Seq<char>, w: nat)
    requires
        w >= 1,
        leading_count(s, ' ') < s.len() || leading_count(s, ' ') % w == 0,
    ensures
        leading_columns(untabify_spec(tabify_spec(s, w), w), w) == leading_columns(s, w),
{
    let a = leading_count(s, ' ');
    lemma_leading_count_run(s, ' ');
    vstd::arithmetic::div_mod::lemma_fundamental_div_mod(a as int, w as int);
    assert(w * (a / w) == (a / w) * w) by (nonlinear_arith);
    let x = tabify_spec(s, w);
    if a == s.len() {
        // A line of spaces alone, of a length that is a multiple of the
        // width: it becomes tabs alone, and those expand back to the same
        // number of spaces.
        assert(x =~= Seq::new(a / w, |i: int| '\t') + Seq::<char>::empty());
        lemma_leading_count_concat(a / w, '\t', Seq::<char>::empty());
        assert(leading_count(x, '\t') == a / w);
        let y = untabify_spec(x, w);
        assert((a / w) * w == a);
        assert(y =~= Seq::new(a, |i: int| ' ') + Seq::<char>::empty());
        lemma_leading_columns_spaces(a, Seq::<char>::empty(), w);
        assert(s =~= Seq::new(a, |i: int| ' ') + Seq::<char>::empty());
    } else {
        let t = s.skip(a as int);
        assert(t.len() > 0 && t[0] != ' ');
        assert(s =~= Seq::new(a, |i: int| ' ') + t);
        lemma_leading_columns_spaces(a, t, w);
        if a % w != 0 {
            // The leftover spaces sit between the tabs and the rest, so the
            // round trip is the identity, byte for byte.
            let sp_rest = Seq::new(a % w, |i: int| ' ') + t;
            assert(x =~= Seq::new(a / w, |i: int| '\t') + sp_rest);
            lemma_leading_count_concat(a / w, '\t', sp_rest);
            assert(sp_rest[0] == Seq::new(a % w, |i: int| ' ')[0]);
            assert(leading_count(sp_rest, '\t') == 0);
            assert(leading_count(x, '\t') == a / w);
            let y = untabify_spec(x, w);
            assert(x.skip((a / w) as int) =~= sp_rest);
            assert((a / w) * w + a % w == a);
            assert(y =~= Seq::new(a, |i: int| ' ') + t);
            assert(y =~= s);
        } else {
            // No leftover spaces: tabs already in the line directly after
            // the collapsed run are expanded as well, but each expands to
            // exactly its own column width.
            let b = leading_count(t, '\t');
            lemma_leading_count_run(t, '\t');
            assert(x =~= Seq::new(a / w, |i: int| '\t') + t);
            lemma_leading_count_concat(a / w, '\t', t);
            assert(leading_count(x, '\t') == a / w + b);
            let y = untabify_spec(x, w);
            assert(x.skip((a / w + b) as int) =~= t.skip(b as int));
            assert(y =~= Seq::new((a / w + b) * w, |i: int| ' ') + t.skip(b as int));
            lemma_leading_columns_spaces((a / w + b) * w, t.skip(b as int), w);
            assert((a / w + b) * w == (a / w) * w + b * w) by (nonlinear_arith);
            assert((a / w) * w == a);
            assert(t =~= Seq::new(b, |i: int| '\t') + t.skip(b as int));
            lemma_leading_columns_tabs(b, t.skip(b as int), w);
        }
    }
}

} // verus!

