use vstd::prelude::*;

verus! {

/// The pieces of `s` between occurrences of `sep` (one piece when `sep` does not occur).
pub open spec fn split_spec(s: Seq<char>, sep: char) -> Seq<Seq<char>>
    decreases s.len(),
{
    if s.len() == 0 {
        seq![Seq::empty()]
    } else {
        let p = split_spec(s.drop_last(), sep);
        if s.last() == sep {
            p.push(Seq::empty())
        } else {
            p.update(p.len() - 1, p.last().push(s.last()))
        }
    }
}

/// The pieces joined with `sep` between each two.
pub open spec fn join_spec(ps: Seq<Seq<char>>, sep: char) -> Seq<char>
    decreases ps.len(),
{
    if ps.len() == 0 {
        Seq::empty()
    } else if ps.len() == 1 {
        ps[0]
    } else {
        join_spec(ps.drop_last(), sep) + seq![sep] + ps.last()
    }
}

pub open spec fn views(v: Seq<String>) -> Seq<Seq<char>> {
    v.map_values(|s: String| s@)
}

/// Relies on `str::split` with a `char` pattern: the substrings between the
/// matches, from first to last, including empty ones.
#[verifier::external_body]
pub(crate) fn split_on(s: &str, sep: char) -> (r: Vec<String>)
    ensures
        views(r@) == split_spec(s@, sep),
{
    s.split(sep).map(|p| p.to_string()).collect()
}

/// Joins the strings with `sep` between each two.
pub fn join_with(parts: &Vec<String>, from: usize, sep: &str) -> (r: String)
    requires
        from <= parts@.len(),
        sep@.len() == 1,
    ensures
        r@ == join_spec(views(parts@).skip(from as int), sep@[0]),
{
    let mut r = String::new();
    let mut i: usize = from;
    while i < parts.len()
        invariant
            from <= i <= parts@.len(),
            sep@.len() == 1,
            r@ == join_spec(views(parts@).subrange(from as int, i as int), sep@[0]),
        decreases parts@.len() - i,
    {
        let ghost before = views(parts@).subrange(from as int, i as int);
        if i > from {
            r.append(sep);
        }
        r.append(parts[i].as_str());
        proof {
            let after = views(parts@).subrange(from as int, i + 1);
            assert(after.drop_last() =~= before);
            assert(seq![sep@[0]] =~= sep@);
            if i == from {
                assert(r@ =~= after[0]);
            }
        }
        i = i + 1;
    }
    assert(views(parts@).subrange(from as int, parts@.len() as int) =~= views(parts@).skip(from as int));
    r
}

/// Unicode's White_Space characters, which `str::trim` removes.
pub open spec fn is_white(c: char) -> bool {
    ||| ('\u{9}' <= c && c <= '\u{d}')
    ||| c == ' '
    ||| c == '\u{85}'
    ||| c == '\u{a0}'
    ||| c == '\u{1680}'
    ||| ('\u{2000}' <= c && c <= '\u{200a}')
    ||| c == '\u{2028}'
    ||| c == '\u{2029}'
    ||| c == '\u{202f}'
    ||| c == '\u{205f}'
    ||| c == '\u{3000}'
}

/// `s` without its leading White_Space.
pub open spec fn trim_start_spec(s: Seq<char>) -> Seq<char>
    decreases s.len(),
{
    if s.len() > 0 && is_white(s[0]) {
        trim_start_spec(s.drop_first())
    } else {
        s
    }
}

/// `s` without its trailing White_Space.
pub open spec fn trim_end_spec(s: Seq<char>) -> Seq<char>
    decreases s.len(),
{
    if s.len() > 0 && is_white(s.last()) {
        trim_end_spec(s.drop_last())
    } else {
        s
    }
}

/// `s` without leading and trailing White_Space, as `str::trim` leaves it.
pub open spec fn trimmed(s: Seq<char>) -> Seq<char> {
    trim_end_spec(trim_start_spec(s))
}

/// Whether `s` holds nothing but White_Space.
pub open spec fn blank(s: Seq<char>) -> bool {
    trimmed(s).len() == 0
}

/// Relies on `str::trim`, which removes leading and trailing White_Space.
#[verifier::external_body]
fn trim(s: &str) -> (r: &str)
    ensures
        r@ == trimmed(s@),
{
    s.trim()
}

fn is_blank(s: &str) -> (r: bool)
    ensures
        r == blank(s@),
{
    trim(s).is_empty()
}

pub open spec fn without_cr(s: Seq<char>) -> Seq<char> {
    if s.len() > 0 && s.last() == '\r' {
        s.drop_last()
    } else {
        s
    }
}

/// Relies on `str::strip_suffix`: `s` without one trailing carriage return.
#[verifier::external_body]
fn drop_cr(s: &str) -> (r: String)
    ensures
        r@ == without_cr(s@),
{
    s.strip_suffix('\r').unwrap_or(s).to_string()
}

/// The first of the pieces between newlines that is not blank, without the
/// carriage return of a `\r\n` ending (a carriage return that ends the text
/// stays, as `str::lines` keeps it).
pub open spec fn first_nonblank(lines: Seq<Seq<char>>) -> Option<Seq<char>>
    decreases lines.len(),
{
    if lines.len() == 0 {
        None
    } else if !blank(lines[0]) {
        Some(if lines.len() > 1 {
            without_cr(lines[0])
        } else {
            lines[0]
        })
    } else {
        first_nonblank(lines.drop_first())
    }
}

/// The first line of `message` that holds more than white space.
pub fn first_nonblank_line(message: &str) -> (r: Option<String>)
    ensures
        r matches Some(l) ==> first_nonblank(split_spec(message@, '\n')) == Some(l@),
        r is None ==> first_nonblank(split_spec(message@, '\n')) is None,
{
    let lines = split_on(message, '\n');
    let ghost ls = views(lines@);
    let mut i: usize = 0;
    assert(ls.skip(0) =~= ls);
    while i < lines.len()
        invariant
            ls == views(lines@),
            ls == split_spec(message@, '\n'),
            i <= lines@.len(),
            first_nonblank(ls) == first_nonblank(ls.skip(i as int)),
        decreases lines@.len() - i,
    {
        assert(ls.skip(i as int)[0] == lines@[i as int]@);
        if !is_blank(lines[i].as_str()) {
            if i + 1 < lines.len() {
                return Some(drop_cr(lines[i].as_str()));
            } else {
                return Some(lines[i].clone());
            }
        }
        assert(ls.skip(i as int).drop_first() =~= ls.skip(i + 1));
        i = i + 1;
    }
    assert(ls.skip(i as int).len() == 0);
    None
}

pub open spec fn spaces(n: nat) -> Seq<char>
    decreases n,
{
    if n == 0 {
        Seq::empty()
    } else {
        spaces((n - 1) as nat).push(' ')
    }
}

/// `s` followed by spaces up to `width` characters.
pub open spec fn padded(s: Seq<char>, width: nat) -> Seq<char> {
    if s.len() >= width {
        s
    } else {
        s + spaces((width - s.len()) as nat)
    }
}

/// Relies on `format!` with `{:<width$}`: left-aligned, filled with spaces up
/// to `width` characters. A width must fit in 16 bits.
#[verifier::external_body]
fn pad_right(s: &str, width: usize) -> (r: String)
    requires
        width <= 65535,
    ensures
        r@ == padded(s@, width as nat),
{
    format!("{:<width$}", s, width = width)
}

/// One line of the tag listing: `* name` padded to sixteen columns and the
/// first non-blank line of the message for an annotated tag; the bare name for
/// a lightweight one.
pub open spec fn tag_line(name: Seq<char>, message: Option<Seq<char>>) -> Seq<char> {
    match message {
        None => name,
        Some(m) => "* "@ + padded(name, 16) + match first_nonblank(split_spec(m, '\n')) {
            Some(l) => l,
            None => Seq::empty(),
        },
    }
}

pub fn format_tag_line(name: &str, message: Option<&str>) -> (r: String)
    ensures
        r@ == tag_line(name@, match message {
            Some(m) => Some(m@),
            None => None,
        }),
{
    match message {
        None => String::from_str(name),
        Some(m) => {
            let mut line = String::from_str("* ");
            let p = pad_right(name, 16);
            line.append(p.as_str());
            if let Some(first) = first_nonblank_line(m) {
                line.append(first.as_str());
            }
            line
        },
    }
}

} // verus!
