//! Extraction of `--<key>=<value>` settings from command-line arguments.

use vstd::prelude::*;
use vstd::string::*;

verus! {

/// Error text for a key given with nothing after its `=`.
pub const EMPTY_VALUE: &'static str = "empty value";

/// Error text for a value that does not convert to the requested type.
pub const INVALID_VALUE: &'static str = "invalid value";

/// `h` occurs in `s` at position `i`.
pub open spec fn occurs_at(s: Seq<char>, h: Seq<char>, i: int) -> bool {
    &&& 0 <= i
    &&& i + h.len() <= s.len()
    &&& s.subrange(i, i + h.len()) == h
}

/// The leftmost occurrence of `h` in `s` at or after position `i`.
pub open spec fn next_match(s: Seq<char>, h: Seq<char>, i: int) -> Option<int>
    decreases s.len() + 1 - i,
{
    if i < 0 || i + h.len() > s.len() {
        None
    } else if occurs_at(s, h, i) {
        Some(i)
    } else {
        next_match(s, h, i + 1)
    }
}

/// The second piece of `s` split at the occurrences of `h`: the text after
/// the first occurrence, up to the next one or to the end. `None` when `h`
/// does not occur. An empty `h` occurs between every two characters.
pub open spec fn second_piece(s: Seq<char>, h: Seq<char>) -> Option<Seq<char>> {
    match next_match(s, h, 0) {
        None => None,
        Some(p) => {
            let start = p + h.len();
            let resume = if h.len() == 0 {
                p + 1
            } else {
                start
            };
            let end = match next_match(s, h, resume) {
                Some(e) => e,
                None => s.len() as int,
            };
            Some(s.subrange(start, end))
        },
    }
}

/// The text that `parse_and_extract` converts: the second piece, when there
/// is one and it is not empty.
pub open spec fn value_text(header: Seq<char>, arg: Seq<char>) -> Option<Seq<char>> {
    match second_piece(arg, header) {
        Some(v) => if v.len() > 0 {
            Some(v)
        } else {
            None
        },
        None => None,
    }
}

/// Finds the leftmost occurrence of `h` in `s` at or after `from`.
fn find_from(s: &str, h: &str, from: usize) -> (r: Option<usize>)
    ensures
        r == (match next_match(s@, h@, from as int) {
            Some(i) => Some(i as usize),
            None => None::<usize>,
        }),
{
    let sl: usize = s.unicode_len();
    let hl: usize = h.unicode_len();
    if hl > sl {
        return None;
    }
    let mut i: usize = from;
    while i <= sl - hl
        invariant
            sl == s@.len(),
            hl == h@.len(),
            hl <= sl,
            from <= i,
            next_match(s@, h@, from as int) == next_match(s@, h@, i as int),
        decreases sl + 1 - i,
    {
        let mut k: usize = 0;
        let mut same: bool = true;
        while k < hl
            invariant
                sl == s@.len(),
                hl == h@.len(),
                i + hl <= sl,
                k <= hl,
                same == (forall|m: int| 0 <= m < k ==> s@[i + m] == h@[m]),
            decreases hl - k,
        {
            if s.get_char(i + k) != h.get_char(k) {
                same = false;
            }
            k = k + 1;
        }
        if same {
            assert(s@.subrange(i as int, i + hl) =~= h@);
            return Some(i);
        }
        assert(!occurs_at(s@, h@, i as int)) by {
            if occurs_at(s@, h@, i as int) {
                assert forall|m: int| 0 <= m < hl implies s@[i + m] == h@[m] by {
                    assert(s@.subrange(i as int, i + hl)[m] == s@[i + m]);
                }
            }
        }
        i = i + 1;
    }
    None
}

/// The text after the first occurrence of `header` in `arg`, up to the next
/// occurrence or the end; `None` when `header` does not occur.
pub fn split_second(header: &str, arg: &str) -> (r: Option<String>)
    ensures
        r matches Some(v) ==> second_piece(arg@, header@) == Some(v@),
        r is None <==> second_piece(arg@, header@) is None,
{
    match find_from(arg, header, 0) {
        None => None,
        Some(p) => {
            let sl: usize = arg.unicode_len();
            let hl: usize = header.unicode_len();
            proof {
                lemma_next_match_bounds(arg@, header@, 0);
                if hl == 0 {
                    assert(arg@.subrange(0, 0) =~= header@);
                    assert(occurs_at(arg@, header@, 0));
                    assert(p == 0);
                }
            }
            let start: usize = p + hl;
            let resume: usize = if hl == 0 {
                p + 1
            } else {
                start
            };
            let end: usize = match find_from(arg, header, resume) {
                Some(e) => e,
                None => sl,
            };
            proof {
                if let Some(e) = next_match(arg@, header@, resume as int) {
                    lemma_next_match_bounds(arg@, header@, resume as int);
                }
            }
            let piece: &str = arg.substring_char(start, end);
            Some(String::from_str(piece))
        },
    }
}

proof fn lemma_next_match_bounds(s: Seq<char>, h: Seq<char>, i: int)
    ensures
        next_match(s, h, i) matches Some(e) ==> i <= e && occurs_at(s, h, e),
    decreases s.len() + 1 - i,
{
    if !(i < 0 || i + h.len() > s.len()) && !occurs_at(s, h, i) {
        lemma_next_match_bounds(s, h, i + 1);
    }
}

/// Relies on str::parse: the text is handed to `T`'s `FromStr`; only whether
/// the conversion succeeded is kept.
#[verifier::external_body]
fn parse_text<T: core::str::FromStr>(text: &str) -> (r: Option<T>) {
    text.parse::<T>().ok()
}

/// Maps the outcome of converting a value text to the result of extraction.
pub fn converted<T>(parsed: Option<T>) -> (r: Result<T, &'static str>)
    ensures
        match parsed {
            Some(v) => r == Ok::<T, &'static str>(v),
            None => r == Err::<T, &'static str>(INVALID_VALUE),
        },
{
    match parsed {
        Some(v) => Ok(v),
        None => Err(INVALID_VALUE),
    }
}

/// Extracts the value of a `<header><value>` argument and converts it to `T`.
///
/// The value is the text after the first occurrence of `header`, up to a
/// further occurrence or the end. A missing or empty value gives
/// `EMPTY_VALUE`; one that `T` does not accept gives `INVALID_VALUE`.
pub fn parse_and_extract<T: core::str::FromStr>(header: &String, arg: &String) -> (r: Result<
    T,
    &'static str,
>)
    ensures
        value_text(header@, arg@) is None <==> r == Err::<T, &'static str>(EMPTY_VALUE),
        value_text(header@, arg@) is Some ==> (r is Ok || r == Err::<T, &'static str>(
            INVALID_VALUE,
        )),
{
    proof {
        reveal_strlit("empty value");
        reveal_strlit("invalid value");
        assert(EMPTY_VALUE@.len() != INVALID_VALUE@.len());
    }
    let value: String = match split_second(header.as_str(), arg.as_str()) {
        Some(value) => value,
        None => return Err(EMPTY_VALUE),
    };
    if value.as_str().unicode_len() == 0 {
        return Err(EMPTY_VALUE);
    }
    converted(parse_text::<T>(value.as_str()))
}

/// `p` is a prefix of `s`.
pub open spec fn has_prefix(s: Seq<char>, p: Seq<char>) -> bool {
    p.len() <= s.len() && s.subrange(0, p.len() as int) == p
}

/// `p` is a suffix of `s`.
pub open spec fn has_suffix(s: Seq<char>, p: Seq<char>) -> bool {
    p.len() <= s.len() && s.subrange(s.len() - p.len(), s.len() as int) == p
}

/// The argument prefix that introduces the value of `key`: `--<key>=`.
pub open spec fn header_of(key: Seq<char>) -> Seq<char> {
    seq!['-', '-'] + key + seq!['=']
}

/// Whether `s` starts with `p`.
fn starts_with(s: &str, p: &str) -> (r: bool)
    ensures
        r == has_prefix(s@, p@),
{
    let sl: usize = s.unicode_len();
    let pl: usize = p.unicode_len();
    if pl > sl {
        return false;
    }
    let mut k: usize = 0;
    while k < pl
        invariant
            sl == s@.len(),
            pl == p@.len(),
            pl <= sl,
            k <= pl,
            forall|m: int| 0 <= m < k ==> s@[m] == p@[m],
        decreases pl - k,
    {
        if s.get_char(k) != p.get_char(k) {
            assert(s@.subrange(0, pl as int)[k as int] != p@[k as int]);
            return false;
        }
        k = k + 1;
    }
    assert(s@.subrange(0, pl as int) =~= p@);
    true
}

/// Whether `fname` names a portable pixmap file, that is ends with `.ppm`.
pub fn has_ppm_suffix(fname: &str) -> (r: bool)
    ensures
        r == has_suffix(fname@, ".ppm"@),
{
    proof {
        reveal_strlit(".ppm");
    }
    let suffix: &str = ".ppm";
    let sl: usize = fname.unicode_len();
    let pl: usize = suffix.unicode_len();
    if pl > sl {
        return false;
    }
    let base: usize = sl - pl;
    let mut k: usize = 0;
    while k < pl
        invariant
            sl == fname@.len(),
            pl == suffix@.len(),
            suffix@ == ".ppm"@,
            base + pl == sl,
            k <= pl,
            forall|m: int| 0 <= m < k ==> fname@[base + m] == suffix@[m],
        decreases pl - k,
    {
        if fname.get_char(base + k) != suffix.get_char(k) {
            assert(fname@.subrange(base as int, sl as int)[k as int] != suffix@[k as int]);
            return false;
        }
        k = k + 1;
    }
    assert(fname@.subrange(base as int, sl as int) =~= suffix@);
    true
}

/// Looks for the value of `key` among `args`, given as `--<key>=<value>`,
/// and converts it to `T`.
///
/// The first argument that starts with `--<key>=` decides, as
/// `parse_and_extract` does; with none, `default` is returned.
pub fn extract_value<T: core::str::FromStr>(key: &str, args: &Vec<String>, default: T) -> (r:
    Result<T, &'static str>)
    ensures
        (forall|i: int| 0 <= i < args.len() ==> !has_prefix(args[i]@, header_of(key@))) ==> r
            == Ok::<T, &'static str>(default),
        forall|i: int|
            0 <= i < args.len() && has_prefix(#[trigger] args[i]@, header_of(key@)) && (forall|
                k: int,
            |
                0 <= k < i ==> !has_prefix(args[k]@, header_of(key@))) ==> {
                &&& (value_text(header_of(key@), args[i]@) is None <==> r == Err::<
                    T,
                    &'static str,
                >(EMPTY_VALUE))
                &&& (value_text(header_of(key@), args[i]@) is Some ==> (r is Ok || r == Err::<
                    T,
                    &'static str,
                >(INVALID_VALUE)))
            },
{
    proof {
        reveal_strlit("--");
        reveal_strlit("=");
    }
    let mut header: String = String::from_str("--");
    header.append(key);
    header.append("=");
    assert(header@ =~= header_of(key@));
    let mut i: usize = 0;
    while i < args.len()
        invariant
            header@ == header_of(key@),
            i <= args.len(),
            forall|k: int| 0 <= k < i ==> !has_prefix(args[k]@, header_of(key@)),
        decreases args.len() - i,
    {
        let arg: &String = &args[i];
        if starts_with(arg.as_str(), header.as_str()) {
            return parse_and_extract::<T>(&header, arg);
        }
        i = i + 1;
    }
    Ok(default)
}

} // verus!
