//! Reading the measurement names out of line protocol text.
//!
//! The text is split at `\n`; each piece is trimmed of white space; empty
//! pieces and comments (`#...`) are skipped; the measurement is what comes
//! before the first `,` or white space, and a line without either names no
//! measurement. Names come out in order of first appearance, each once.

use vstd::prelude::*;
use crate::decimal::{chars_to_string, str_to_chars};

verus! {

/// The characters with the Unicode `White_Space` property.
pub open spec fn is_white_space(c: char) -> bool {
    let u = c as u32;
    (0x9 <= u <= 0xD) || u == 0x20 || u == 0x85 || u == 0xA0 || u == 0x1680 || (0x2000 <= u
        <= 0x200A) || u == 0x2028 || u == 0x2029 || u == 0x202F || u == 0x205F || u == 0x3000
}

/// Whether a character is white space.
///
/// Calls `char::is_whitespace`, documented to return whether the character
/// has the Unicode `White_Space` property; the contract lists those code
/// points.
#[verifier::external_body]
fn char_is_whitespace(c: char) -> (b: bool)
    ensures
        b == is_white_space(c),
{
    c.is_whitespace()
}

/// The pieces of a text between `\n` characters, in order; a text with `n`
/// newlines has `n + 1` pieces.
pub open spec fn segments(s: Seq<char>) -> Seq<Seq<char>>
    decreases s.len(),
{
    if s.len() == 0 {
        seq![Seq::empty()]
    } else {
        let init = segments(s.drop_last());
        if s.last() == '\n' {
            init.push(Seq::empty())
        } else {
            init.update(init.len() - 1, init.last().push(s.last()))
        }
    }
}

/// A text without its leading white space.
pub open spec fn trim_front(t: Seq<char>) -> Seq<char>
    decreases t.len(),
{
    if t.len() > 0 && is_white_space(t[0]) {
        trim_front(t.drop_first())
    } else {
        t
    }
}

/// A text without its trailing white space.
pub open spec fn trim_back(t: Seq<char>) -> Seq<char>
    decreases t.len(),
{
    if t.len() > 0 && is_white_space(t.last()) {
        trim_back(t.drop_last())
    } else {
        t
    }
}

/// A text without leading and trailing white space.
pub open spec fn trim(t: Seq<char>) -> Seq<char> {
    trim_back(trim_front(t))
}

/// A character that ends a measurement name.
pub open spec fn is_separator(c: char) -> bool {
    c == ',' || is_white_space(c)
}

/// The first index from `i` on holding a separator, or -1.
pub open spec fn separator_from(t: Seq<char>, i: int) -> int
    decreases t.len() - i,
{
    if i >= t.len() || i < 0 {
        -1
    } else if is_separator(t[i]) {
        i
    } else {
        separator_from(t, i + 1)
    }
}

/// The measurement a line names, if any.
pub open spec fn measurement_of(line: Seq<char>) -> Option<Seq<char>> {
    let t = trim(line);
    if t.len() == 0 || t[0] == '#' {
        None
    } else {
        let e = separator_from(t, 0);
        if e > 0 {
            Some(t.take(e))
        } else {
            None
        }
    }
}

/// Adds a name to a list unless it is there already.
pub open spec fn add_name(names: Seq<Seq<char>>, m: Option<Seq<char>>) -> Seq<Seq<char>> {
    match m {
        Some(x) => if names.contains(x) {
            names
        } else {
            names.push(x)
        },
        None => names,
    }
}

/// The measurement names of a sequence of lines, in order of first
/// appearance, each once.
pub open spec fn names_of_lines(lines: Seq<Seq<char>>) -> Seq<Seq<char>>
    decreases lines.len(),
{
    if lines.len() == 0 {
        Seq::empty()
    } else {
        add_name(names_of_lines(lines.drop_last()), measurement_of(lines.last()))
    }
}

/// The measurement names of a line protocol text.
pub open spec fn table_names(lp: Seq<char>) -> Seq<Seq<char>> {
    names_of_lines(segments(lp))
}

/// Each name is listed once.
proof fn lemma_add_name_unique(names: Seq<Seq<char>>, m: Option<Seq<char>>)
    requires
        names.no_duplicates(),
    ensures
        add_name(names, m).no_duplicates(),
{
    if let Some(x) = m {
        if !names.contains(x) {
            let r = names.push(x);
            assert forall|a: int, b: int| 0 <= a < r.len() && 0 <= b < r.len() && a != b implies r[a]
                != r[b] by {
                if a < names.len() && b < names.len() {
                } else if a < names.len() {
                    assert(r[a] == names[a]);
                    if r[a] == r[b] {
                        assert(names.contains(x));
                    }
                } else {
                    assert(r[b] == names[b]);
                    if r[a] == r[b] {
                        assert(names.contains(x));
                    }
                }
            }
        }
    }
}

/// The names of the lines hold no name twice.
pub proof fn lemma_names_unique(lines: Seq<Seq<char>>)
    ensures
        names_of_lines(lines).no_duplicates(),
    decreases lines.len(),
{
    if lines.len() > 0 {
        lemma_names_unique(lines.drop_last());
        lemma_add_name_unique(names_of_lines(lines.drop_last()), measurement_of(lines.last()));
    }
}

/// Drops leading white space.
fn trim_front_chars(t: &Vec<char>) -> (r: Vec<char>)
    ensures
        r@ == trim_front(t@),
{
    let mut i: usize = 0;
    assert(t@.skip(0) =~= t@);
    while i < t.len() && char_is_whitespace(t[i])
        invariant
            i <= t.len(),
            trim_front(t@) == trim_front(t@.skip(i as int)),
        decreases t.len() - i,
    {
        proof {
            let s = t@.skip(i as int);
            assert(s.drop_first() =~= t@.skip(i + 1));
        }
        i = i + 1;
    }
    let mut r: Vec<char> = Vec::new();
    let mut j: usize = i;
    while j < t.len()
        invariant
            i <= j <= t.len(),
            r@ == t@.subrange(i as int, j as int),
        decreases t.len() - j,
    {
        r.push(t[j]);
        j = j + 1;
        assert(r@ =~= t@.subrange(i as int, j as int));
    }
    assert(r@ =~= t@.skip(i as int));
    r
}

/// Drops trailing white space.
fn trim_back_chars(t: &Vec<char>) -> (r: Vec<char>)
    ensures
        r@ == trim_back(t@),
{
    let mut n: usize = t.len();
    assert(t@.take(t.len() as int) =~= t@);
    while n > 0 && char_is_whitespace(t[n - 1])
        invariant
            n <= t.len(),
            trim_back(t@) == trim_back(t@.take(n as int)),
        decreases n,
    {
        proof {
            let s = t@.take(n as int);
            assert(s.drop_last() =~= t@.take(n - 1));
        }
        n = n - 1;
    }
    let mut r: Vec<char> = Vec::new();
    let mut j: usize = 0;
    while j < n
        invariant
            j <= n <= t.len(),
            r@ == t@.take(j as int),
        decreases n - j,
    {
        r.push(t[j]);
        j = j + 1;
        assert(r@ =~= t@.take(j as int));
    }
    r
}

/// The measurement a line names, if any.
fn line_measurement(line: &Vec<char>) -> (m: Option<Vec<char>>)
    ensures
        match measurement_of(line@) {
            Some(x) => m is Some && m->Some_0@ == x,
            None => m is None,
        },
{
    let front = trim_front_chars(line);
    let t = trim_back_chars(&front);
    if t.len() == 0 || t[0] == '#' {
        return None;
    }
    let mut i: usize = 0;
    while i < t.len() && !(t[i] == ',' || char_is_whitespace(t[i]))
        invariant
            i <= t.len(),
            separator_from(t@, 0) == separator_from(t@, i as int),
        decreases t.len() - i,
    {
        i = i + 1;
    }
    if i == t.len() || i == 0 {
        return None;
    }
    let mut name: Vec<char> = Vec::new();
    let mut j: usize = 0;
    while j < i
        invariant
            j <= i <= t.len(),
            name@ == t@.take(j as int),
        decreases i - j,
    {
        name.push(t[j]);
        j = j + 1;
        assert(name@ =~= t@.take(j as int));
    }
    Some(name)
}

/// Whether two character vectors hold the same text.
fn same_chars(a: &Vec<char>, b: &Vec<char>) -> (r: bool)
    ensures
        r == (a@ == b@),
{
    if a.len() != b.len() {
        return false;
    }
    let mut i: usize = 0;
    while i < a.len()
        invariant
            a.len() == b.len(),
            i <= a.len(),
            forall|k: int| 0 <= k < i ==> a@[k] == b@[k],
        decreases a.len() - i,
    {
        if a[i] != b[i] {
            return false;
        }
        i = i + 1;
    }
    assert(a@ =~= b@);
    true
}

/// Adds the measurement of a line to the names found so far.
fn add_line_name(names: &mut Vec<Vec<char>>, line: &Vec<char>)
    ensures
        final(names)@.len() >= old(names)@.len(),
        forall|k: int| 0 <= k < final(names)@.len() ==> #[trigger] final(names)@[k]@ == add_name(
            old(names)@.map_values(|v: Vec<char>| v@),
            measurement_of(line@),
        )[k],
        final(names)@.len() == add_name(old(names)@.map_values(|v: Vec<char>| v@), measurement_of(line@)).len(),
{
    let ghost before = names@.map_values(|v: Vec<char>| v@);
    match line_measurement(line) {
        None => {},
        Some(m) => {
            let mut k: usize = 0;
            let mut found = false;
            while k < names.len()
                invariant
                    k <= names.len(),
                    before == names@.map_values(|v: Vec<char>| v@),
                    found == exists|q: int| 0 <= q < k && names@[q]@ == m@,
                decreases names.len() - k,
            {
                if same_chars(&names[k], &m) {
                    found = true;
                }
                k = k + 1;
            }
            proof {
                if found {
                    let q = choose|q: int| 0 <= q < k && names@[q]@ == m@;
                    assert(before[q] == m@);
                } else {
                    assert forall|q: int| 0 <= q < before.len() implies before[q] != m@ by {
                        assert(before[q] == names@[q]@);
                    }
                }
            }
            if !found {
                names.push(m);
            }
        },
    }
}

/// Extract table names from line protocol.
///
/// The measurement names in order of first appearance, each once.
pub fn extract_table_names(line_protocol: &str) -> (tables: Vec<String>)
    ensures
        tables@.len() == table_names(line_protocol@).len(),
        forall|k: int| 0 <= k < tables@.len() ==> #[trigger] tables@[k]@ == table_names(line_protocol@)[k],
{
    let chars = str_to_chars(line_protocol);
    let mut names: Vec<Vec<char>> = Vec::new();
    let mut current: Vec<char> = Vec::new();
    let ghost mut done: Seq<Seq<char>> = Seq::empty();
    let mut i: usize = 0;
    while i < chars.len()
        invariant
            i <= chars.len(),
            segments(chars@.take(i as int)) == done.push(current@),
            names@.map_values(|v: Vec<char>| v@) == names_of_lines(done),
        decreases chars.len() - i,
    {
        proof {
            assert(chars@.take(i + 1).drop_last() =~= chars@.take(i as int));
        }
        if chars[i] == '\n' {
            let ghost before = names@.map_values(|v: Vec<char>| v@);
            add_line_name(&mut names, &current);
            proof {
                assert(names@.map_values(|v: Vec<char>| v@) =~= add_name(before, measurement_of(current@)));
                assert(done.push(current@).drop_last() =~= done);
                done = done.push(current@);
            }
            current = Vec::new();
        } else {
            let ghost prev = current@;
            current.push(chars[i]);
            proof {
                assert(done.push(prev).update(done.len() as int, prev.push(chars@[i as int])) =~= done.push(
                    current@,
                ));
            }
        }
        i = i + 1;
    }
    assert(chars@.take(chars.len() as int) =~= chars@);
    let ghost before = names@.map_values(|v: Vec<char>| v@);
    add_line_name(&mut names, &current);
    proof {
        assert(names@.map_values(|v: Vec<char>| v@) =~= add_name(before, measurement_of(current@)));
        assert(done.push(current@).drop_last() =~= done);
    }
    let mut tables: Vec<String> = Vec::new();
    let mut k: usize = 0;
    while k < names.len()
        invariant
            k <= names.len(),
            tables@.len() == k,
            forall|q: int| 0 <= q < k ==> #[trigger] tables@[q]@ == names@[q]@,
        decreases names.len() - k,
    {
        tables.push(chars_to_string(&names[k]));
        k = k + 1;
    }
    proof {
        assert forall|q: int| 0 <= q < tables@.len() implies #[trigger] tables@[q]@ == table_names(
            line_protocol@,
        )[q] by {
            assert(names@.map_values(|v: Vec<char>| v@)[q] == names@[q]@);
        }
    }
    tables
}

} // verus!
