//! Text form of a flag set: the names of its set named bits, in table
//! order, joined by `" | "` (`"OCHIP | CACHEABLE"`). Bits without a name are
//! not written. Parsing splits on `'|'`, trims blanks around each name and
//! refuses any name that the table does not hold.
use vstd::prelude::*;
use vstd::string::*;
use crate::desc::{ObmmMemDesc, priv_len_ok};
use crate::flags::{
    ObmmExportFlags, ObmmUnexportFlags, UbPrivData, EXPORT_ALLOWMMAP_BIT, EXPORT_REMOTENUMA_BIT,
    UB_CACHEABLE_BIT, UB_OCHIP_BIT, UNEXPORT_FORCE_BIT,
};

verus! {

/// A table of flag names, each with the bits it stands for.
pub open spec fn table_view(v: Seq<(&str, u64)>) -> Seq<(Seq<char>, u64)> {
    v.map_values(|e: (&str, u64)| (e.0@, e.1))
}

pub open spec fn separator() -> Seq<char> {
    seq![' ', '|', ' ']
}

/// White space as Unicode's White_Space property has it.
pub open spec fn is_blank(c: char) -> bool {
    let u = c as u32;
    (0x9 <= u && u <= 0xd) || u == 0x20 || u == 0x85 || u == 0xa0 || u == 0x1680 || (0x2000 <= u && u
        <= 0x200a) || u == 0x2028 || u == 0x2029 || u == 0x202f || u == 0x205f || u == 0x3000
}

/// The bits of the first entry from `i` on that is named `t`.
pub open spec fn lookup_from(tbl: Seq<(Seq<char>, u64)>, t: Seq<char>, i: int) -> Option<u64>
    decreases tbl.len() - i,
{
    if i < 0 || i >= tbl.len() {
        None
    } else if tbl[i].0 == t {
        Some(tbl[i].1)
    } else {
        lookup_from(tbl, t, i + 1)
    }
}

/// The names of the entries from `i` on whose bits are all set, joined by
/// the separator; `first` says whether nothing was written before.
pub open spec fn render_from(tbl: Seq<(Seq<char>, u64)>, bits: u64, i: int, first: bool) -> Seq<char>
    decreases tbl.len() - i,
{
    if i < 0 || i >= tbl.len() {
        Seq::empty()
    } else if tbl[i].1 != 0 && bits & tbl[i].1 == tbl[i].1 {
        (if first {
            tbl[i].0
        } else {
            separator() + tbl[i].0
        }) + render_from(tbl, bits, i + 1, false)
    } else {
        render_from(tbl, bits, i + 1, first)
    }
}

/// The text of a flag set under a name table.
pub open spec fn flag_text(tbl: Seq<(Seq<char>, u64)>, bits: u64) -> Seq<char> {
    render_from(tbl, bits, 0, true)
}

/// Index of the first `'|'` at or after `i`, or the length of `s`.
pub open spec fn next_bar(s: Seq<char>, i: int) -> int
    decreases s.len() - i,
{
    if i < 0 || i >= s.len() {
        s.len() as int
    } else if s[i] == '|' {
        i
    } else {
        next_bar(s, i + 1)
    }
}

/// First index in `[lo, hi)` that holds no blank, or `hi`.
pub open spec fn skip_blanks(s: Seq<char>, lo: int, hi: int) -> int
    decreases hi - lo,
{
    if 0 <= lo < hi && hi <= s.len() && is_blank(s[lo]) {
        skip_blanks(s, lo + 1, hi)
    } else {
        lo
    }
}

/// End of `[lo, hi)` once trailing blanks are dropped.
pub open spec fn drop_blanks(s: Seq<char>, lo: int, hi: int) -> int
    decreases hi - lo,
{
    if 0 <= lo < hi && hi <= s.len() && is_blank(s[hi - 1]) {
        drop_blanks(s, lo, hi - 1)
    } else {
        hi
    }
}

/// `s[lo..hi]` without surrounding blanks.
pub open spec fn trimmed(s: Seq<char>, lo: int, hi: int) -> Seq<char> {
    let a = skip_blanks(s, lo, hi);
    s.subrange(a, drop_blanks(s, a, hi))
}

proof fn lemma_next_bar_bounds(s: Seq<char>, i: int)
    requires
        0 <= i <= s.len(),
    ensures
        i <= next_bar(s, i) <= s.len(),
    decreases s.len() - i,
{
    if i < s.len() && s[i] != '|' {
        lemma_next_bar_bounds(s, i + 1);
    }
}

proof fn lemma_skip_bounds(s: Seq<char>, lo: int, hi: int)
    requires
        0 <= lo <= hi <= s.len(),
    ensures
        lo <= skip_blanks(s, lo, hi) <= hi,
    decreases hi - lo,
{
    if lo < hi && is_blank(s[lo]) {
        lemma_skip_bounds(s, lo + 1, hi);
    }
}

proof fn lemma_drop_bounds(s: Seq<char>, lo: int, hi: int)
    requires
        0 <= lo <= hi <= s.len(),
    ensures
        lo <= drop_blanks(s, lo, hi) <= hi,
    decreases hi - lo,
{
    if lo < hi && is_blank(s[hi - 1]) {
        lemma_drop_bounds(s, lo, hi - 1);
    }
}

#[via_fn]
proof fn parse_names_decreases(tbl: Seq<(Seq<char>, u64)>, s: Seq<char>, start: int) {
    if 0 <= start <= s.len() {
        lemma_next_bar_bounds(s, start);
    }
}

/// The union of the bits named by the `'|'`-separated names from `start` on.
pub open spec fn parse_names(tbl: Seq<(Seq<char>, u64)>, s: Seq<char>, start: int) -> Option<u64>
    decreases s.len() - start,
    via parse_names_decreases
{
    if start < 0 || start > s.len() {
        None
    } else {
        let end = next_bar(s, start);
        match lookup_from(tbl, trimmed(s, start, end), 0) {
            None => None,
            Some(b) => if end >= s.len() {
                Some(b)
            } else {
                match parse_names(tbl, s, end + 1) {
                    None => None,
                    Some(r) => Some(b | r),
                }
            },
        }
    }
}

/// What a text stands for under a name table: the empty set for a blank
/// text, else the union of the named bits; `None` where a name is unknown
/// or missing.
pub open spec fn parse_flag_text(tbl: Seq<(Seq<char>, u64)>, s: Seq<char>) -> Option<u64> {
    if skip_blanks(s, 0, s.len() as int) == s.len() {
        Some(0)
    } else {
        parse_names(tbl, s, 0)
    }
}

/// A name fit for a table: not empty, no bar, no blank at either end.
pub open spec fn plain_name(n: Seq<char>) -> bool {
    &&& n.len() > 0
    &&& !is_blank(n[0])
    &&& !is_blank(n[n.len() - 1])
    &&& forall|k: int| 0 <= k < n.len() ==> n[k] != '|'
}

proof fn lemma_next_bar_at(s: Seq<char>, i: int, j: int)
    requires
        0 <= i <= j <= s.len(),
        forall|k: int| i <= k < j ==> s[k] != '|',
        j == s.len() || s[j] == '|',
    ensures
        next_bar(s, i) == j,
    decreases j - i,
{
    if i < j {
        lemma_next_bar_at(s, i + 1, j);
    }
}

/// A single known name reads back as its bits.
proof fn lemma_parse_one(tbl: Seq<(Seq<char>, u64)>, n: Seq<char>, b: u64)
    requires
        plain_name(n),
        lookup_from(tbl, n, 0) == Some(b),
    ensures
        parse_flag_text(tbl, n) == Some(b),
{
    lemma_next_bar_at(n, 0, n.len() as int);
    assert(n.subrange(0, n.len() as int) =~= n);
}

/// Two known names joined by the separator read back as the union of
/// their bits.
proof fn lemma_parse_two(tbl: Seq<(Seq<char>, u64)>, n1: Seq<char>, b1: u64, n2: Seq<char>, b2: u64)
    requires
        plain_name(n1),
        plain_name(n2),
        lookup_from(tbl, n1, 0) == Some(b1),
        lookup_from(tbl, n2, 0) == Some(b2),
    ensures
        parse_flag_text(tbl, n1 + separator() + n2) == Some(b1 | b2),
{
    let s = n1 + separator() + n2;
    let l = n1.len() as int;
    assert(s[l] == ' ' && s[l + 1] == '|' && s[l + 2] == ' ');
    assert forall|k: int| 0 <= k < l implies s[k] != '|' by {
        assert(s[k] == n1[k]);
    }
    lemma_next_bar_at(s, 0, l + 1);
    assert(s[0] == n1[0]);
    assert(s[l - 1] == n1[l - 1]);
    assert(drop_blanks(s, 0, l) == l);
    assert(drop_blanks(s, 0, l + 1) == l);
    assert(s.subrange(0, l) =~= n1);
    assert forall|k: int| l + 2 <= k < s.len() implies s[k] != '|' by {
        if k > l + 2 {
            assert(s[k] == n2[k - l - 3]);
        }
    }
    lemma_next_bar_at(s, l + 2, s.len() as int);
    assert(s[l + 3] == n2[0]);
    assert(s[s.len() - 1] == n2[n2.len() - 1]);
    assert(skip_blanks(s, l + 3, s.len() as int) == l + 3);
    assert(skip_blanks(s, l + 2, s.len() as int) == l + 3);
    assert(drop_blanks(s, l + 3, s.len() as int) == s.len());
    assert(s.subrange(l + 3, s.len() as int) =~= n2);
    assert(parse_names(tbl, s, l + 2) == Some(b2));
}

/// A name in a flag text is not known, or is missing between two bars. The
/// offending name stands at characters `start..end` of the text (an empty
/// range where a name is missing).
#[derive(Clone, Copy, Debug, PartialEq, Eq, Structural)]
pub struct FlagParseError {
    pub start: usize,
    pub end: usize,
}

fn chars_of(text: &str) -> (r: Vec<char>)
    ensures
        r@ == text@,
{
    let n = text.unicode_len();
    let mut v: Vec<char> = Vec::new();
    let mut i: usize = 0;
    while i < n
        invariant
            n == text@.len(),
            i <= n,
            v@ == text@.subrange(0, i as int),
        decreases n - i,
    {
        v.push(text.get_char(i));
        i = i + 1;
    }
    assert(v@ =~= text@);
    v
}

fn find_bar(s: &Vec<char>, start: usize) -> (r: usize)
    requires
        start <= s@.len(),
    ensures
        r == next_bar(s@, start as int),
        start <= r <= s@.len(),
{
    proof { lemma_next_bar_bounds(s@, start as int); }
    let mut j = start;
    while j < s.len() && s[j] != '|'
        invariant
            start <= j <= s@.len(),
            next_bar(s@, j as int) == next_bar(s@, start as int),
        decreases s@.len() - j,
    {
        j = j + 1;
    }
    j
}

fn blank(c: char) -> (r: bool)
    ensures
        r == is_blank(c),
{
    let u = c as u32;
    (0x9 <= u && u <= 0xd) || u == 0x20 || u == 0x85 || u == 0xa0 || u == 0x1680 || (0x2000 <= u && u
        <= 0x200a) || u == 0x2028 || u == 0x2029 || u == 0x202f || u == 0x205f || u == 0x3000
}

fn skip(s: &Vec<char>, lo: usize, hi: usize) -> (r: usize)
    requires
        lo <= hi <= s@.len(),
    ensures
        r == skip_blanks(s@, lo as int, hi as int),
        lo <= r <= hi,
{
    proof { lemma_skip_bounds(s@, lo as int, hi as int); }
    let mut i = lo;
    while i < hi && blank(s[i])
        invariant
            lo <= i <= hi,
            hi <= s@.len(),
            skip_blanks(s@, i as int, hi as int) == skip_blanks(s@, lo as int, hi as int),
        decreases hi - i,
    {
        i = i + 1;
    }
    i
}

fn trim_end(s: &Vec<char>, lo: usize, hi: usize) -> (r: usize)
    requires
        lo <= hi <= s@.len(),
    ensures
        r == drop_blanks(s@, lo as int, hi as int),
        lo <= r <= hi,
{
    proof { lemma_drop_bounds(s@, lo as int, hi as int); }
    let mut i = hi;
    while i > lo && blank(s[i - 1])
        invariant
            lo <= i <= hi,
            hi <= s@.len(),
            drop_blanks(s@, lo as int, i as int) == drop_blanks(s@, lo as int, hi as int),
        decreases i - lo,
    {
        i = i - 1;
    }
    i
}

fn segment_is(s: &Vec<char>, lo: usize, hi: usize, name: &str) -> (r: bool)
    requires
        lo <= hi <= s@.len(),
    ensures
        r == (s@.subrange(lo as int, hi as int) == name@),
{
    let n = name.unicode_len();
    if hi - lo != n {
        return false;
    }
    let mut k: usize = 0;
    while k < n
        invariant
            n == name@.len(),
            hi - lo == n,
            lo <= hi <= s@.len(),
            k <= n,
            forall|m: int| 0 <= m < k ==> s@[lo + m] == name@[m],
        decreases n - k,
    {
        if s[lo + k] != name.get_char(k) {
            assert(s@.subrange(lo as int, hi as int)[k as int] != name@[k as int]);
            return false;
        }
        k = k + 1;
    }
    assert(s@.subrange(lo as int, hi as int) =~= name@);
    true
}

fn lookup(tbl: &Vec<(&str, u64)>, s: &Vec<char>, lo: usize, hi: usize) -> (r: Option<u64>)
    requires
        lo <= hi <= s@.len(),
    ensures
        r == lookup_from(table_view(tbl@), s@.subrange(lo as int, hi as int), 0),
{
    let ghost tv = table_view(tbl@);
    let ghost seg = s@.subrange(lo as int, hi as int);
    let mut i: usize = 0;
    while i < tbl.len()
        invariant
            i <= tbl@.len(),
            tv == table_view(tbl@),
            seg == s@.subrange(lo as int, hi as int),
            lo <= hi <= s@.len(),
            lookup_from(tv, seg, i as int) == lookup_from(tv, seg, 0),
        decreases tbl@.len() - i,
    {
        let (name, bits) = tbl[i];
        assert(tv[i as int] == (name@, bits));
        if segment_is(s, lo, hi, name) {
            return Some(bits);
        }
        i = i + 1;
    }
    None
}

/// Writes the names of the entries of `tbl` whose bits are all set in
/// `bits`, in table order, joined by `" | "`.
fn render(tbl: &Vec<(&str, u64)>, bits: u64) -> (r: String)
    ensures
        r@ == flag_text(table_view(tbl@), bits),
{
    let ghost tv = table_view(tbl@);
    let mut out = String::new();
    let mut first = true;
    let mut i: usize = 0;
    proof {
        reveal_strlit(" | ");
        assert(" | "@ =~= separator());
        assert(out@ + render_from(tv, bits, 0, true) =~= flag_text(tv, bits));
    }
    while i < tbl.len()
        invariant
            i <= tbl@.len(),
            tv == table_view(tbl@),
            " | "@ == separator(),
            out@ + render_from(tv, bits, i as int, first) == flag_text(tv, bits),
        decreases tbl@.len() - i,
    {
        let (name, b) = tbl[i];
        assert(tv[i as int] == (name@, b));
        if b != 0 && bits & b == b {
            let ghost before = out@;
            if !first {
                out.append(" | ");
            }
            out.append(name);
            proof {
                if first {
                    assert(before + (name@ + render_from(tv, bits, i + 1, false)) =~= out@ + render_from(
                        tv,
                        bits,
                        i + 1,
                        false,
                    ));
                } else {
                    assert(before + (separator() + name@ + render_from(tv, bits, i + 1, false))
                        =~= out@ + render_from(tv, bits, i + 1, false));
                }
            }
            first = false;
        }
        i = i + 1;
    }
    assert(out@ =~= out@ + render_from(tv, bits, i as int, first));
    out
}

/// Reads a text under a name table: a blank text is the empty set; every
/// name between bars must be in the table.
fn parse_text(tbl: &Vec<(&str, u64)>, text: &str) -> (r: Result<u64, FlagParseError>)
    ensures
        r is Ok <==> parse_flag_text(table_view(tbl@), text@) is Some,
        r is Ok ==> parse_flag_text(table_view(tbl@), text@) == Some(r->Ok_0),
        r matches Err(e) ==> e.start <= e.end <= text@.len() && lookup_from(
            table_view(tbl@),
            text@.subrange(e.start as int, e.end as int),
            0,
        ) is None,
{
    let ghost tv = table_view(tbl@);
    let s = chars_of(text);
    let n = s.len();
    if skip(&s, 0, n) == n {
        return Ok(0);
    }
    let mut acc: u64 = 0;
    let mut start: usize = 0;
    proof {
        if parse_names(tv, s@, 0) is Some {
            let x = parse_names(tv, s@, 0)->0;
            assert(0u64 | x == x) by (bit_vector);
        }
    }
    loop
        invariant
            n == s@.len(),
            s@ == text@,
            tv == table_view(tbl@),
            start <= n,
            skip_blanks(s@, 0, n as int) != n,
            parse_names(tv, s@, 0) is Some <==> parse_names(tv, s@, start as int) is Some,
            parse_names(tv, s@, start as int) is Some ==> parse_names(tv, s@, 0) == Some(
                acc | parse_names(tv, s@, start as int)->0,
            ),
        decreases n - start,
    {
        let end = find_bar(&s, start);
        let a = skip(&s, start, end);
        let b = trim_end(&s, a, end);
        match lookup(tbl, &s, a, b) {
            None => {
                return Err(FlagParseError { start: a, end: b });
            },
            Some(bit) => {
                if end >= n {
                    return Ok(acc | bit);
                }
                proof {
                    let rest = parse_names(tv, s@, end + 1);
                    if rest is Some {
                        let r = rest->0;
                        assert(acc | (bit | r) == (acc | bit) | r) by (bit_vector);
                    }
                }
                acc = acc | bit;
                start = end + 1;
            },
        }
    }
}

proof fn lemma_lookup_within(tbl: Seq<(Seq<char>, u64)>, t: Seq<char>, i: int, mask: u64)
    requires
        forall|j: int| 0 <= j < tbl.len() ==> #[trigger] tbl[j].1 & !mask == 0,
    ensures
        lookup_from(tbl, t, i) matches Some(b) ==> b & !mask == 0,
    decreases tbl.len() - i,
{
    if 0 <= i < tbl.len() && tbl[i].0 != t {
        lemma_lookup_within(tbl, t, i + 1, mask);
    }
}

/// Whatever a text reads as holds only bits that the table names.
proof fn lemma_parse_within(tbl: Seq<(Seq<char>, u64)>, s: Seq<char>, mask: u64)
    requires
        forall|j: int| 0 <= j < tbl.len() ==> #[trigger] tbl[j].1 & !mask == 0,
    ensures
        parse_flag_text(tbl, s) matches Some(x) ==> x & !mask == 0,
{
    assert(0u64 & !mask == 0) by (bit_vector);
    lemma_parse_names_within(tbl, s, 0, mask);
}

proof fn lemma_parse_names_within(tbl: Seq<(Seq<char>, u64)>, s: Seq<char>, start: int, mask: u64)
    requires
        forall|j: int| 0 <= j < tbl.len() ==> #[trigger] tbl[j].1 & !mask == 0,
    ensures
        parse_names(tbl, s, start) matches Some(x) ==> x & !mask == 0,
    decreases s.len() - start,
{
    if 0 <= start <= s.len() {
        lemma_next_bar_bounds(s, start);
        let end = next_bar(s, start);
        lemma_lookup_within(tbl, trimmed(s, start, end), 0, mask);
        if end < s.len() {
            lemma_parse_names_within(tbl, s, end + 1, mask);
            let l = lookup_from(tbl, trimmed(s, start, end), 0);
            let p = parse_names(tbl, s, end + 1);
            if l is Some && p is Some {
                let b = l->0;
                let r = p->0;
                assert(b & !mask == 0 && r & !mask == 0 ==> (b | r) & !mask == 0) by (bit_vector);
            }
        }
    }
}

/// `b` has exactly one bit set.
pub open spec fn single_bit(b: u64) -> bool {
    b != 0 && b & vstd::prelude::sub(b, 1) == 0
}

/// Under a table of two names for two distinct single bits, every set of
/// those bits reads back from its text.
proof fn lemma_two_entry_round_trip(
    tbl: Seq<(Seq<char>, u64)>,
    n1: Seq<char>,
    b1: u64,
    n2: Seq<char>,
    b2: u64,
    bits: u64,
)
    requires
        tbl == seq![(n1, b1), (n2, b2)],
        plain_name(n1),
        plain_name(n2),
        n1 != n2,
        single_bit(b1),
        single_bit(b2),
        b1 & b2 == 0,
        bits & !(b1 | b2) == 0,
    ensures
        parse_flag_text(tbl, flag_text(tbl, bits)) == Some(bits),
{
    assert(bits == 0 || bits == b1 || bits == b2 || bits == b1 | b2) by (bit_vector)
        requires
            b1 != 0 && b1 & vstd::prelude::sub(b1, 1) == 0,
            b2 != 0 && b2 & vstd::prelude::sub(b2, 1) == 0,
            b1 & b2 == 0,
            bits & !(b1 | b2) == 0,
    ;
    assert(b1 & b1 == b1 && b2 & b2 == b2 && b1 & b2 != b2 && b2 & b1 != b1 && 0u64 & b1 != b1
        && 0u64 & b2 != b2 && (b1 | b2) & b1 == b1 && (b1 | b2) & b2 == b2) by (bit_vector)
        requires
            b1 != 0,
            b2 != 0,
            b1 & b2 == 0,
    ;
    assert(lookup_from(tbl, n1, 0) == Some(b1));
    assert(lookup_from(tbl, n2, 1) == Some(b2));
    assert(lookup_from(tbl, n2, 0) == Some(b2));
    assert(render_from(tbl, bits, 2, true) == Seq::<char>::empty());
    assert(render_from(tbl, bits, 2, false) == Seq::<char>::empty());
    assert(tbl[0] == (n1, b1) && tbl[1] == (n2, b2));
    if bits == 0 {
        assert(render_from(tbl, bits, 1, true) == Seq::<char>::empty());
        assert(flag_text(tbl, bits) == Seq::<char>::empty());
    } else if bits == b1 {
        assert(render_from(tbl, bits, 1, false) == Seq::<char>::empty());
        assert(flag_text(tbl, bits) =~= n1);
        lemma_parse_one(tbl, n1, b1);
    } else if bits == b2 {
        assert(render_from(tbl, bits, 1, true) =~= n2);
        assert(flag_text(tbl, bits) =~= n2);
        lemma_parse_one(tbl, n2, b2);
    } else {
        assert(render_from(tbl, bits, 1, false) =~= separator() + n2);
        assert(flag_text(tbl, bits) =~= n1 + separator() + n2);
        lemma_parse_two(tbl, n1, b1, n2, b2);
    }
}

/// Under a table of one name for a single bit, both sets of that bit read
/// back from their text.
proof fn lemma_one_entry_round_trip(tbl: Seq<(Seq<char>, u64)>, n: Seq<char>, b: u64, bits: u64)
    requires
        tbl == seq![(n, b)],
        plain_name(n),
        single_bit(b),
        bits & !b == 0,
    ensures
        parse_flag_text(tbl, flag_text(tbl, bits)) == Some(bits),
{
    assert(bits == 0 || bits == b) by (bit_vector)
        requires
            b != 0 && b & vstd::prelude::sub(b, 1) == 0,
            bits & !b == 0,
    ;
    assert(b & b == b && 0u64 & b != b) by (bit_vector)
        requires
            b != 0,
    ;
    assert(tbl[0] == (n, b));
    assert(lookup_from(tbl, n, 0) == Some(b));
    assert(render_from(tbl, bits, 1, true) == Seq::<char>::empty());
    assert(render_from(tbl, bits, 1, false) == Seq::<char>::empty());
    if bits == 0 {
        assert(flag_text(tbl, bits) == Seq::<char>::empty());
    } else {
        assert(flag_text(tbl, bits) =~= n);
        lemma_parse_one(tbl, n, b);
    }
}

pub open spec fn ochip_name() -> Seq<char> {
    seq!['O', 'C', 'H', 'I', 'P']
}

pub open spec fn cacheable_name() -> Seq<char> {
    seq!['C', 'A', 'C', 'H', 'E', 'A', 'B', 'L', 'E']
}

pub open spec fn allowmmap_name() -> Seq<char> {
    seq!['A', 'L', 'L', 'O', 'W', 'M', 'M', 'A', 'P']
}

pub open spec fn remotenuma_name() -> Seq<char> {
    seq!['R', 'E', 'M', 'O', 'T', 'E', 'N', 'U', 'M', 'A']
}

pub open spec fn force_name() -> Seq<char> {
    seq!['F', 'O', 'R', 'C', 'E']
}

/// Names of the attribute bits.
pub open spec fn priv_table() -> Seq<(Seq<char>, u64)> {
    seq![(ochip_name(), UB_OCHIP_BIT as u64), (cacheable_name(), UB_CACHEABLE_BIT as u64)]
}

/// Names of the export flags.
pub open spec fn export_table() -> Seq<(Seq<char>, u64)> {
    seq![(allowmmap_name(), EXPORT_ALLOWMMAP_BIT), (remotenuma_name(), EXPORT_REMOTENUMA_BIT)]
}

/// Names of the unexport flags.
pub open spec fn unexport_table() -> Seq<(Seq<char>, u64)> {
    seq![(force_name(), UNEXPORT_FORCE_BIT)]
}

fn priv_names() -> (r: Vec<(&'static str, u64)>)
    ensures
        table_view(r@) == priv_table(),
{
    proof {
        reveal_strlit("OCHIP");
        reveal_strlit("CACHEABLE");
        assert("OCHIP"@ =~= ochip_name());
        assert("CACHEABLE"@ =~= cacheable_name());
    }
    let r = vec![("OCHIP", UB_OCHIP_BIT as u64), ("CACHEABLE", UB_CACHEABLE_BIT as u64)];
    assert(table_view(r@) =~= priv_table());
    r
}

fn export_names() -> (r: Vec<(&'static str, u64)>)
    ensures
        table_view(r@) == export_table(),
{
    proof {
        reveal_strlit("ALLOWMMAP");
        reveal_strlit("REMOTENUMA");
        assert("ALLOWMMAP"@ =~= allowmmap_name());
        assert("REMOTENUMA"@ =~= remotenuma_name());
    }
    let r = vec![("ALLOWMMAP", EXPORT_ALLOWMMAP_BIT), ("REMOTENUMA", EXPORT_REMOTENUMA_BIT)];
    assert(table_view(r@) =~= export_table());
    r
}

fn unexport_names() -> (r: Vec<(&'static str, u64)>)
    ensures
        table_view(r@) == unexport_table(),
{
    proof {
        reveal_strlit("FORCE");
        assert("FORCE"@ =~= force_name());
    }
    let r = vec![("FORCE", UNEXPORT_FORCE_BIT)];
    assert(table_view(r@) =~= unexport_table());
    r
}

impl UbPrivData {
    /// The text form: `"OCHIP | CACHEABLE"` and its parts. Reserved bits
    /// are not written.
    pub fn to_text(&self) -> (r: String)
        ensures
            r@ == flag_text(priv_table(), self@ as u64),
    {
        render(&priv_names(), self.bits() as u64)
    }

    /// Reads the text form; an unknown or missing name is an error.
    pub fn from_text(text: &str) -> (r: Result<UbPrivData, FlagParseError>)
        ensures
            r is Ok <==> parse_flag_text(priv_table(), text@) is Some,
            r matches Err(e) ==> e.start <= e.end <= text@.len() && lookup_from(
                priv_table(),
                text@.subrange(e.start as int, e.end as int),
                0,
            ) is None,
            r is Ok ==> parse_flag_text(priv_table(), text@) == Some(r->Ok_0@ as u64),
    {
        let tbl = priv_names();
        let x = match parse_text(&tbl, text) {
            Ok(x) => x,
            Err(e) => {
                return Err(e);
            },
        };
        proof {
            let mask: u64 = 96;
            assert(32u64 & !mask == 0 && 64u64 & !mask == 0) by (bit_vector)
                requires
                    mask == 96u64,
            ;
            lemma_parse_within(priv_table(), text@, mask);
            assert(x & !mask == 0 ==> x <= 0xffff) by (bit_vector)
                requires
                    mask == 96u64,
            ;
        }
        Ok(UbPrivData::from_bits_retain(x as u16))
    }
}

impl ObmmExportFlags {
    /// The text form: `"ALLOWMMAP | REMOTENUMA"` and its parts. Bits without
    /// a name are not written.
    pub fn to_text(&self) -> (r: String)
        ensures
            r@ == flag_text(export_table(), self@),
    {
        render(&export_names(), self.bits())
    }

    /// Reads the text form; an unknown or missing name is an error.
    pub fn from_text(text: &str) -> (r: Result<ObmmExportFlags, FlagParseError>)
        ensures
            r is Ok <==> parse_flag_text(export_table(), text@) is Some,
            r matches Err(e) ==> e.start <= e.end <= text@.len() && lookup_from(
                export_table(),
                text@.subrange(e.start as int, e.end as int),
                0,
            ) is None,
            r is Ok ==> parse_flag_text(export_table(), text@) == Some(r->Ok_0@),
    {
        let x = match parse_text(&export_names(), text) {
            Ok(x) => x,
            Err(e) => {
                return Err(e);
            },
        };
        Ok(ObmmExportFlags::from_bits_retain(x))
    }
}

impl ObmmUnexportFlags {
    /// The text form: `"FORCE"` or the empty text.
    pub fn to_text(&self) -> (r: String)
        ensures
            r@ == flag_text(unexport_table(), self@),
    {
        render(&unexport_names(), self.bits())
    }

    /// Reads the text form; an unknown or missing name is an error.
    pub fn from_text(text: &str) -> (r: Result<ObmmUnexportFlags, FlagParseError>)
        ensures
            r is Ok <==> parse_flag_text(unexport_table(), text@) is Some,
            r matches Err(e) ==> e.start <= e.end <= text@.len() && lookup_from(
                unexport_table(),
                text@.subrange(e.start as int, e.end as int),
                0,
            ) is None,
            r is Ok ==> parse_flag_text(unexport_table(), text@) == Some(r->Ok_0@),
    {
        let x = match parse_text(&unexport_names(), text) {
            Ok(x) => x,
            Err(e) => {
                return Err(e);
            },
        };
        Ok(ObmmUnexportFlags::from_bits_retain(x))
    }
}

/// An attribute set of named bits, written as text and read back, is the
/// same set.
pub proof fn lemma_priv_text_round_trip(bits: u16)
    requires
        bits & !(UB_OCHIP_BIT | UB_CACHEABLE_BIT) == 0,
    ensures
        parse_flag_text(priv_table(), flag_text(priv_table(), bits as u64)) == Some(bits as u64),
{
    let w = bits as u64;
    assert(w & !(32u64 | 64u64) == 0) by (bit_vector)
        requires
            w == bits as u64,
            bits & !(32u16 | 64u16) == 0,
    ;
    assert(single_bit(32) && single_bit(64) && 32u64 & 64u64 == 0) by (bit_vector);
    lemma_two_entry_round_trip(priv_table(), ochip_name(), 32, cacheable_name(), 64, w);
}

/// The parts of a descriptor that this library encodes survive a round
/// trip: the attribute set of named bits reads back from its text, and a
/// `priv_len` of 2 is the encoded length of the attribute payload.
pub proof fn lemma_desc_attrs_round_trip(d: ObmmMemDesc<UbPrivData>)
    requires
        d.priv_data@ & !(UB_OCHIP_BIT | UB_CACHEABLE_BIT) == 0,
        d.priv_len == 2,
    ensures
        parse_flag_text(priv_table(), flag_text(priv_table(), d.priv_data@ as u64)) == Some(
            d.priv_data@ as u64,
        ),
        priv_len_ok(d),
{
    lemma_priv_text_round_trip(d.priv_data@);
}

/// A set of named export flags, written as text and read back, is the same
/// set.
pub proof fn lemma_export_text_round_trip(bits: u64)
    requires
        bits & !(EXPORT_ALLOWMMAP_BIT | EXPORT_REMOTENUMA_BIT) == 0,
    ensures
        parse_flag_text(export_table(), flag_text(export_table(), bits)) == Some(bits),
{
    assert(single_bit(1) && single_bit(2) && 1u64 & 2u64 == 0) by (bit_vector);
    assert(allowmmap_name().len() != remotenuma_name().len());
    lemma_two_entry_round_trip(export_table(), allowmmap_name(), 1, remotenuma_name(), 2, bits);
}

/// A set of named unexport flags, written as text and read back, is the
/// same set.
pub proof fn lemma_unexport_text_round_trip(bits: u64)
    requires
        bits & !UNEXPORT_FORCE_BIT == 0,
    ensures
        parse_flag_text(unexport_table(), flag_text(unexport_table(), bits)) == Some(bits),
{
    assert(single_bit(1)) by (bit_vector);
    lemma_one_entry_round_trip(unexport_table(), force_name(), 1, bits);
}

} // verus!
