//! The fallback settings file: one `KEY=VALUE` pair per line, both sides
//! trimmed of white space; blank lines, `#` comments and malformed lines
//! are skipped.
use vstd::prelude::*;

verus! {

/// White space as `char::is_whitespace` has it: the Unicode `White_Space`
/// property.
pub open spec fn is_space(c: char) -> bool {
    let u = c as u32;
    (0x9 <= u && u <= 0xd) || u == 0x20 || u == 0x85 || u == 0xa0 || u == 0x1680 || (0x2000 <= u
        && u <= 0x200a) || u == 0x2028 || u == 0x2029 || u == 0x202f || u == 0x205f || u == 0x3000
}

pub open spec fn trim_start(s: Seq<char>) -> Seq<char>
    decreases s.len(),
{
    if s.len() > 0 && is_space(s[0]) {
        trim_start(s.skip(1))
    } else {
        s
    }
}

pub open spec fn trim_end(s: Seq<char>) -> Seq<char>
    decreases s.len(),
{
    if s.len() > 0 && is_space(s.last()) {
        trim_end(s.drop_last())
    } else {
        s
    }
}

/// `s` without white space at either end.
pub open spec fn trim(s: Seq<char>) -> Seq<char> {
    trim_end(trim_start(s))
}

/// The first index at or after `i` where `s` holds `c`, or `s.len()`.
pub open spec fn first_at(s: Seq<char>, c: char, i: int) -> int
    decreases s.len() - i,
{
    if i < 0 || i >= s.len() {
        s.len() as int
    } else if s[i] == c {
        i
    } else {
        first_at(s, c, i + 1)
    }
}

/// What one line of the settings file sets: the trimmed text before its
/// first `=` and the trimmed text after it. A comment, a line without `=`,
/// an empty key, and a NUL character in key or value set nothing.
pub open spec fn line_entry(l: Seq<char>) -> Option<(Seq<char>, Seq<char>)> {
    let t = trim(l);
    let p = first_at(l, '=', 0);
    let key = trim(l.take(p));
    let value = trim(l.skip(p + 1));
    if t.len() > 0 && t[0] == '#' {
        None
    } else if p >= l.len() {
        None
    } else if key.len() == 0 || key.contains('\0') || value.contains('\0') {
        None
    } else {
        Some((key, value))
    }
}

/// The pieces of `s` between its `\n` characters, in order; there is always
/// one more piece than there are line breaks.
pub open spec fn pieces(s: Seq<char>) -> Seq<Seq<char>>
    decreases s.len(),
{
    if s.len() == 0 {
        seq![Seq::empty()]
    } else {
        let p = pieces(s.drop_last());
        if s.last() == '\n' {
            p.push(Seq::empty())
        } else {
            p.update(p.len() - 1, p.last().push(s.last()))
        }
    }
}

/// The entries that the lines `ls` set, in the order of the lines.
pub open spec fn entries_of(ls: Seq<Seq<char>>) -> Seq<(Seq<char>, Seq<char>)>
    decreases ls.len(),
{
    if ls.len() == 0 {
        Seq::empty()
    } else {
        let e = entries_of(ls.drop_last());
        match line_entry(ls.last()) {
            Some(x) => e.push(x),
            None => e,
        }
    }
}

/// The entries that a settings file with the text `s` sets.
pub open spec fn settings_of(s: Seq<char>) -> Seq<(Seq<char>, Seq<char>)> {
    entries_of(pieces(s))
}

/// Whether an earlier entry than the one at `i` has the same key.
pub open spec fn key_seen_before(e: Seq<(Seq<char>, Seq<char>)>, i: int) -> bool {
    exists|j: int| 0 <= j < i && #[trigger] e[j].0 == e[i].0
}

/// Of the first `n` entries, those that are set in the environment: the first
/// entry for each key, unless the environment held that key beforehand
/// (`present[i]` tells whether it held the key of entry `i`).
pub open spec fn applied(
    e: Seq<(Seq<char>, Seq<char>)>,
    present: Seq<bool>,
    n: nat,
) -> Seq<(Seq<char>, Seq<char>)>
    decreases n,
{
    if n == 0 {
        Seq::empty()
    } else {
        let prev = applied(e, present, (n - 1) as nat);
        let i = n - 1;
        if !present[i] && !key_seen_before(e, i) {
            prev.push(e[i])
        } else {
            prev
        }
    }
}

pub open spec fn entries_view(v: Seq<(String, String)>) -> Seq<(Seq<char>, Seq<char>)> {
    v.map_values(|e: (String, String)| entry_view(e))
}

proof fn lemma_pieces_nonempty(s: Seq<char>)
    ensures
        pieces(s).len() >= 1,
    decreases s.len(),
{
    if s.len() > 0 {
        lemma_pieces_nonempty(s.drop_last());
    }
}

pub open spec fn entry_view(e: (String, String)) -> (Seq<char>, Seq<char>) {
    (e.0@, e.1@)
}

pub open spec fn opt_entry_view(e: Option<(String, String)>) -> Option<(Seq<char>, Seq<char>)> {
    match e {
        Some(x) => Some(entry_view(x)),
        None => None,
    }
}

/// Exactly `char::is_whitespace`.
pub fn is_space_char(c: char) -> (r: bool)
    ensures
        r == is_space(c),
{
    let u = c as u32;
    (0x9 <= u && u <= 0xd) || u == 0x20 || u == 0x85 || u == 0xa0 || u == 0x1680 || (0x2000 <= u
        && u <= 0x200a) || u == 0x2028 || u == 0x2029 || u == 0x202f || u == 0x205f || u == 0x3000
}

/// The bounds, within `lo..hi`, of that range of `s` trimmed.
fn trim_bounds(s: &str, lo: usize, hi: usize) -> (r: (usize, usize))
    requires
        lo <= hi <= s@.len(),
    ensures
        lo <= r.0 <= r.1 <= hi,
        s@.subrange(r.0 as int, r.1 as int) == trim(s@.subrange(lo as int, hi as int)),
{
    let mut a: usize = lo;
    while a < hi && is_space_char(s.get_char(a))
        invariant
            lo <= a <= hi <= s@.len(),
            trim_start(s@.subrange(lo as int, hi as int)) == trim_start(
                s@.subrange(a as int, hi as int),
            ),
        decreases hi - a,
    {
        assert(s@.subrange(a as int, hi as int).skip(1) =~= s@.subrange(a + 1, hi as int));
        a = a + 1;
    }
    assert(trim_start(s@.subrange(lo as int, hi as int)) == s@.subrange(a as int, hi as int));
    let mut b: usize = hi;
    while b > a && is_space_char(s.get_char(b - 1))
        invariant
            lo <= a <= b <= hi <= s@.len(),
            trim_end(s@.subrange(a as int, hi as int)) == trim_end(s@.subrange(a as int, b as int)),
        decreases b - a,
    {
        assert(s@.subrange(a as int, b as int).drop_last() =~= s@.subrange(a as int, b - 1));
        b = b - 1;
    }
    (a, b)
}

/// The first index in `lo..hi` where `s` holds `c`, or `hi`.
fn find_in(s: &str, lo: usize, hi: usize, c: char) -> (r: usize)
    requires
        lo <= hi <= s@.len(),
    ensures
        lo <= r <= hi,
        r - lo == first_at(s@.subrange(lo as int, hi as int), c, 0),
{
    let ghost l = s@.subrange(lo as int, hi as int);
    let mut i: usize = lo;
    while i < hi && s.get_char(i) != c
        invariant
            lo <= i <= hi <= s@.len(),
            l == s@.subrange(lo as int, hi as int),
            first_at(l, c, 0) == first_at(l, c, i - lo),
        decreases hi - i,
    {
        i = i + 1;
    }
    i
}

/// Whether `c` occurs in `lo..hi` of `s`.
fn holds_in(s: &str, lo: usize, hi: usize, c: char) -> (r: bool)
    requires
        lo <= hi <= s@.len(),
    ensures
        r == s@.subrange(lo as int, hi as int).contains(c),
{
    let ghost l = s@.subrange(lo as int, hi as int);
    let mut i: usize = lo;
    while i < hi
        invariant
            lo <= i <= hi <= s@.len(),
            l == s@.subrange(lo as int, hi as int),
            forall|j: int| 0 <= j < i - lo ==> l[j] != c,
        decreases hi - i,
    {
        if s.get_char(i) == c {
            assert(l[i - lo] == c);
            return true;
        }
        i = i + 1;
    }
    false
}

/// The entry that the line `lo..hi` of `s` sets, if any.
fn entry_in(s: &str, lo: usize, hi: usize) -> (r: Option<(String, String)>)
    requires
        lo <= hi <= s@.len(),
    ensures
        opt_entry_view(r) == line_entry(s@.subrange(lo as int, hi as int)),
{
    let ghost l = s@.subrange(lo as int, hi as int);
    let (a, b) = trim_bounds(s, lo, hi);
    if a < b && s.get_char(a) == '#' {
        return None;
    }
    let p = find_in(s, lo, hi, '=');
    if p == hi {
        return None;
    }
    assert(l.take(p - lo) =~= s@.subrange(lo as int, p as int));
    assert(l.skip(p - lo + 1) =~= s@.subrange(p + 1, hi as int));
    let (ka, kb) = trim_bounds(s, lo, p);
    let (va, vb) = trim_bounds(s, p + 1, hi);
    if ka == kb || holds_in(s, ka, kb, '\0') || holds_in(s, va, vb, '\0') {
        return None;
    }
    let key = String::from_str(s.substring_char(ka, kb));
    let value = String::from_str(s.substring_char(va, vb));
    Some((key, value))
}

/// The entry that one line of the settings file sets, if any.
pub fn parse_line(line: &str) -> (r: Option<(String, String)>)
    ensures
        opt_entry_view(r) == line_entry(line@),
{
    let n = line.unicode_len();
    assert(line@.subrange(0, n as int) =~= line@);
    entry_in(line, 0, n)
}

/// The entries that a settings file with the text `content` sets, in the
/// order of its lines.
pub fn parse_settings(content: &str) -> (r: Vec<(String, String)>)
    ensures
        entries_view(r@) == settings_of(content@),
{
    let n = content.unicode_len();
    let ghost s = content@;
    let mut out: Vec<(String, String)> = Vec::new();
    let mut start: usize = 0;
    let mut i: usize = 0;
    proof {
        lemma_pieces_nonempty(s.take(0));
        assert(s.take(0) =~= Seq::<char>::empty());
    }
    while i < n
        invariant
            s == content@,
            n == s.len(),
            start <= i <= n,
            pieces(s.take(i as int)).len() >= 1,
            pieces(s.take(i as int)).last() == s.subrange(start as int, i as int),
            entries_view(out@) == entries_of(pieces(s.take(i as int)).drop_last()),
        decreases n - i,
    {
        let ghost p = pieces(s.take(i as int));
        assert(s.take(i + 1).drop_last() =~= s.take(i as int));
        assert(s.take(i + 1).last() == s[i as int]);
        if content.get_char(i) == '\n' {
            let e = entry_in(content, start, i);
            let ghost old_out = out@;
            assert(pieces(s.take(i + 1)) == p.push(Seq::empty()));
            assert(p.push(Seq::empty()).drop_last() =~= p);
            match e {
                Some(x) => {
                    out.push(x);
                    assert(entries_view(out@) =~= entries_view(old_out).push(entry_view(x)));
                },
                None => {},
            }
            start = i + 1;
        } else {
            let ghost q = p.update(p.len() - 1, p.last().push(s[i as int]));
            assert(pieces(s.take(i + 1)) == q);
            assert(q.drop_last() =~= p.drop_last());
            assert(q.last() =~= s.subrange(start as int, i + 1));
        }
        i = i + 1;
    }
    assert(s.take(n as int) =~= s);
    let e = entry_in(content, start, n);
    let ghost old_out = out@;
    match e {
        Some(x) => {
            out.push(x);
            assert(entries_view(out@) =~= entries_view(old_out).push(entry_view(x)));
        },
        None => {},
    }
    out
}

/// The entries of `entries` to set in the environment, in order: the first
/// entry for each key, and none for a key that the environment already held
/// (`present[i]` tells whether it held the key of entry `i`).
pub fn entries_to_apply(entries: &Vec<(String, String)>, present: &Vec<bool>) -> (r: Vec<
    (String, String),
>)
    requires
        present@.len() == entries@.len(),
    ensures
        entries_view(r@) == applied(entries_view(entries@), present@, entries@.len() as nat),
{
    let ghost e = entries_view(entries@);
    let mut out: Vec<(String, String)> = Vec::new();
    let mut i: usize = 0;
    while i < entries.len()
        invariant
            present@.len() == entries@.len(),
            e == entries_view(entries@),
            i <= entries@.len(),
            entries_view(out@) == applied(e, present@, i as nat),
        decreases entries@.len() - i,
    {
        let mut seen = false;
        let mut j: usize = 0;
        while j < i
            invariant
                i < entries@.len(),
                e == entries_view(entries@),
                j <= i,
                seen == exists|k: int| 0 <= k < j && #[trigger] e[k].0 == e[i as int].0,
            decreases i - j,
        {
            let same = entries[j].0 == entries[i].0;
            proof {
                assert(e[j as int] == entry_view(entries@[j as int]));
                assert(e[i as int] == entry_view(entries@[i as int]));
                assert(same == (e[j as int].0 == e[i as int].0));
            }
            if same {
                seen = true;
            }
            j = j + 1;
        }
        assert(seen == key_seen_before(e, i as int));
        if !present[i] && !seen {
            let ghost old_out = out@;
            let x = (entries[i].0.clone(), entries[i].1.clone());
            out.push(x);
            assert(entries_view(out@) =~= entries_view(old_out).push(e[i as int]));
        }
        i = i + 1;
    }
    out
}

} // verus!
