//! Text handling for command-line words and comma-separated lists.
use vstd::prelude::*;

verus! {

/// The code points with the Unicode `White_Space` property.
pub open spec fn is_unicode_whitespace(c: char) -> bool {
    let u = c as int;
    ||| 0x09 <= u <= 0x0D
    ||| u == 0x20
    ||| u == 0x85
    ||| u == 0xA0
    ||| u == 0x1680
    ||| 0x2000 <= u <= 0x200A
    ||| u == 0x2028
    ||| u == 0x2029
    ||| u == 0x202F
    ||| u == 0x205F
    ||| u == 0x3000
}

/// `s` without its leading white space.
pub open spec fn trim_start_spec(s: Seq<char>) -> Seq<char>
    decreases s.len(),
{
    if s.len() > 0 && is_unicode_whitespace(s[0]) {
        trim_start_spec(s.drop_first())
    } else {
        s
    }
}

/// `s` without its trailing white space.
pub open spec fn trim_end_spec(s: Seq<char>) -> Seq<char>
    decreases s.len(),
{
    if s.len() > 0 && is_unicode_whitespace(s.last()) {
        trim_end_spec(s.drop_last())
    } else {
        s
    }
}

/// `s` without its leading and trailing white space.
pub open spec fn trimmed(s: Seq<char>) -> Seq<char> {
    trim_end_spec(trim_start_spec(s))
}

/// Lower-case form of `s` under the Unicode case mapping of `str::to_lowercase`.
pub uninterp spec fn lowercase_of(s: Seq<char>) -> Seq<char>;

/// Upper-case form of `s` under the Unicode case mapping of `str::to_uppercase`.
pub uninterp spec fn uppercase_of(s: Seq<char>) -> Seq<char>;

/// Calls `str::trim`, which std documents as returning the string with leading and
/// trailing white space removed, white space being the characters with the Unicode
/// `White_Space` property; [`is_unicode_whitespace`] lists them.
#[verifier::external_body]
pub(crate) fn trim<'a>(s: &'a str) -> (t: &'a str)
    ensures
        t@ == trimmed(s@),
{
    s.trim()
}

/// Every character of `s` is ASCII.
pub open spec fn all_ascii(s: Seq<char>) -> bool {
    forall|i: int| 0 <= i < s.len() ==> (#[trigger] s[i] as int) < 128
}

/// ASCII lower case of one character: `A`–`Z` become `a`–`z`, others are kept.
pub open spec fn ascii_lower_char(c: char) -> char {
    if 'A' <= c <= 'Z' {
        ((c as int) + 32) as char
    } else {
        c
    }
}

/// ASCII upper case of one character: `a`–`z` become `A`–`Z`, others are kept.
pub open spec fn ascii_upper_char(c: char) -> char {
    if 'a' <= c <= 'z' {
        ((c as int) - 32) as char
    } else {
        c
    }
}

/// ASCII lower case of a string, character by character.
pub open spec fn ascii_lowercase(s: Seq<char>) -> Seq<char> {
    s.map_values(|c: char| ascii_lower_char(c))
}

/// ASCII upper case of a string, character by character.
pub open spec fn ascii_uppercase(s: Seq<char>) -> Seq<char> {
    s.map_values(|c: char| ascii_upper_char(c))
}

/// Calls `str::to_lowercase`.  The full Unicode lower-case mapping is not written
/// out: the result is only named, as a function of the characters of `s`.  On an
/// all-ASCII string the Unicode mapping is the ASCII one: same length, `A`–`Z`
/// mapped to `a`–`z`, every other character kept.
#[verifier::external_body]
pub(crate) fn to_lowercase(s: &str) -> (t: String)
    ensures
        t@ == lowercase_of(s@),
        all_ascii(s@) ==> t@ == ascii_lowercase(s@),
{
    s.to_lowercase()
}

/// Calls `str::to_uppercase`.  The full Unicode upper-case mapping is not written
/// out: the result is only named, as a function of the characters of `s`.  On an
/// all-ASCII string the Unicode mapping is the ASCII one: same length, `a`–`z`
/// mapped to `A`–`Z`, every other character kept.
#[verifier::external_body]
pub(crate) fn to_uppercase(s: &str) -> (t: String)
    ensures
        t@ == uppercase_of(s@),
        all_ascii(s@) ==> t@ == ascii_uppercase(s@),
{
    s.to_uppercase()
}

/// Numeric value of a string of decimal digits.
pub open spec fn decimal_value(d: Seq<char>) -> nat
    decreases d.len(),
{
    if d.len() == 0 {
        0
    } else {
        decimal_value(d.drop_last()) * 10 + ((d.last() as int - '0' as int) as nat)
    }
}

/// Every character of `d` is an ASCII decimal digit.
pub open spec fn all_decimal_digits(d: Seq<char>) -> bool {
    forall|i: int| 0 <= i < d.len() ==> '0' <= #[trigger] d[i] <= '9'
}

/// What `usize::from_str` accepts: an optional `+`, then one or more decimal digits
/// whose value fits in a `usize`.
pub open spec fn parse_usize_spec(s: Seq<char>) -> Option<usize> {
    let d = if s.len() > 0 && s[0] == '+' {
        s.drop_first()
    } else {
        s
    };
    if d.len() > 0 && all_decimal_digits(d) && decimal_value(d) <= usize::MAX {
        Some(decimal_value(d) as usize)
    } else {
        None
    }
}

/// Calls `str::parse::<usize>`, which std documents as accepting an optional `+`
/// followed by decimal digits only, and as failing on an empty string, on any other
/// character, and when the value overflows `usize`.
#[verifier::external_body]
pub(crate) fn parse_usize(s: &str) -> (r: Option<usize>)
    ensures
        r == parse_usize_spec(s@),
{
    s.parse::<usize>().ok()
}

/// `p` occurs in `s` starting at `i`.
pub open spec fn occurs_at(s: Seq<char>, p: Seq<char>, i: int) -> bool {
    0 <= i && i + p.len() <= s.len() && s.subrange(i, i + p.len()) == p
}

/// `s` begins with `p`.
pub open spec fn has_prefix(s: Seq<char>, p: Seq<char>) -> bool {
    p.len() <= s.len() && s.take(p.len() as int) == p
}

/// `p` occurs somewhere in `s`.
pub open spec fn has_substring(s: Seq<char>, p: Seq<char>) -> bool {
    exists|i: int| occurs_at(s, p, i)
}

/// Calls `str::starts_with` with a string pattern, which std documents as true when
/// the pattern matches a prefix of the string.
#[verifier::external_body]
pub(crate) fn starts_with(s: &str, p: &str) -> (r: bool)
    ensures
        r == has_prefix(s@, p@),
{
    s.starts_with(p)
}

/// Calls `str::contains` with a string pattern, which std documents as true when the
/// pattern matches a sub-slice of the string.
#[verifier::external_body]
pub(crate) fn contains(s: &str, p: &str) -> (r: bool)
    ensures
        r == has_substring(s@, p@),
{
    s.contains(p)
}

/// Collects the characters of `s`.
pub(crate) fn chars_of(s: &str) -> (v: Vec<char>)
    ensures
        v@ == s@,
{
    let mut v: Vec<char> = Vec::new();
    for c in it: s.chars()
        invariant
            v@ == it.seq().take(it.index() as int),
    {
        v.push(c);
    }
    v
}

/// Whether two strings hold the same characters.
pub(crate) fn text_equals(a: &str, b: &str) -> (r: bool)
    ensures
        r == (a@ == b@),
{
    let ca = chars_of(a);
    let cb = chars_of(b);
    if ca.len() != cb.len() {
        return false;
    }
    let n = ca.len();
    for i in 0..n
        invariant
            n == ca@.len(),
            n == cb@.len(),
            ca@ == a@,
            cb@ == b@,
            forall|k: int| 0 <= k < i ==> ca@[k] == cb@[k],
    {
        if ca[i] != cb[i] {
            return false;
        }
    }
    assert(a@ =~= b@);
    true
}

/// The pieces of `s` between commas (`"a,,b"` has three pieces, `""` has one).
pub open spec fn split_commas(s: Seq<char>) -> Seq<Seq<char>>
    decreases s.len(),
{
    if s.len() == 0 {
        seq![Seq::empty()]
    } else {
        let p = split_commas(s.drop_last());
        if s.last() == ',' {
            p.push(Seq::empty())
        } else {
            p.update(p.len() - 1, p.last().push(s.last()))
        }
    }
}

/// The trimmed pieces, empty ones left out.
pub open spec fn nonempty_trimmed(pieces: Seq<Seq<char>>) -> Seq<Seq<char>>
    decreases pieces.len(),
{
    if pieces.len() == 0 {
        Seq::empty()
    } else {
        let r = nonempty_trimmed(pieces.drop_last());
        let t = trimmed(pieces.last());
        if t.len() > 0 {
            r.push(t)
        } else {
            r
        }
    }
}

/// The items of a comma-separated list: pieces between commas, trimmed, empty
/// ones left out.
pub open spec fn list_items_spec(s: Seq<char>) -> Seq<Seq<char>> {
    nonempty_trimmed(split_commas(s))
}

/// The character sequences of a sequence of string slices.
pub open spec fn text_views(v: Seq<&str>) -> Seq<Seq<char>> {
    v.map_values(|x: &str| x@)
}

/// Splits `s` on commas, trims every piece, and leaves out the empty ones.
pub fn list_items<'a>(s: &'a str) -> (items: Vec<&'a str>)
    ensures
        text_views(items@) == list_items_spec(s@),
{
    let cs = chars_of(s);
    let n = cs.len();
    let mut items: Vec<&'a str> = Vec::new();
    let mut start: usize = 0;
    let ghost mut done: Seq<Seq<char>> = Seq::empty();
    assert(s@.subrange(0, 0) =~= Seq::<char>::empty());
    for i in 0..n
        invariant
            n == s@.len(),
            cs@ == s@,
            start <= i,
            split_commas(s@.subrange(0, i as int)) == done.push(s@.subrange(start as int, i as int)),
            text_views(items@) == nonempty_trimmed(done),
    {
        let ghost cur = s@.subrange(start as int, i as int);
        assert(s@.subrange(0, i + 1).drop_last() =~= s@.subrange(0, i as int));
        assert(s@.subrange(0, i + 1).last() == cs@[i as int]);
        if cs[i] == ',' {
            let piece = s.substring_char(start, i);
            let t = trim(piece);
            let ghost old_items = items@;
            if t.unicode_len() > 0 {
                items.push(t);
                assert(text_views(items@) =~= text_views(old_items).push(t@));
            }
            proof {
                let old_done = done;
                done = done.push(cur);
                assert(done.drop_last() =~= old_done);
                assert(piece@ == cur);
            }
            start = i + 1;
            assert(s@.subrange(start as int, start as int) =~= Seq::<char>::empty());
        } else {
            proof {
                let p = split_commas(s@.subrange(0, i as int));
                assert(p.len() - 1 == done.len());
                assert(s@.subrange(start as int, i + 1) =~= cur.push(cs@[i as int]));
                assert(p.update(p.len() - 1, p.last().push(cs@[i as int])) =~= done.push(
                    cur.push(cs@[i as int]),
                ));
            }
        }
    }
    assert(s@.subrange(0, n as int) =~= s@);
    let piece = s.substring_char(start, n);
    let t = trim(piece);
    let ghost old_items = items@;
    let ghost last = s@.subrange(start as int, n as int);
    if t.unicode_len() > 0 {
        items.push(t);
        assert(text_views(items@) =~= text_views(old_items).push(t@));
    }
    proof {
        let all = done.push(last);
        assert(all.drop_last() =~= done);
    }
    items
}

/// Parses every item of a list, stopping at the first one that is not a `usize`
/// and giving it back.
pub open spec fn parse_all_usize(items: Seq<Seq<char>>) -> Result<Seq<usize>, Seq<char>>
    decreases items.len(),
{
    if items.len() == 0 {
        Ok(Seq::empty())
    } else {
        match parse_all_usize(items.drop_last()) {
            Err(x) => Err(x),
            Ok(v) => match parse_usize_spec(items.last()) {
                Some(k) => Ok(v.push(k)),
                None => Err(items.last()),
            },
        }
    }
}

/// Parses a comma-separated list of `usize`; an item that does not parse is given
/// back as the error.
pub fn try_parse_usize_list(s: &str) -> (r: Result<Vec<usize>, String>)
    ensures
        r matches Ok(v) ==> parse_all_usize(list_items_spec(s@)) == Ok::<Seq<usize>, Seq<char>>(v@),
        r matches Err(x) ==> parse_all_usize(list_items_spec(s@)) == Err::<Seq<usize>, Seq<char>>(x@),
{
    let items = list_items(s);
    let ghost views = text_views(items@);
    let n = items.len();
    let mut out: Vec<usize> = Vec::new();
    for i in 0..n
        invariant
            n == items@.len(),
            views == text_views(items@),
            views == list_items_spec(s@),
            parse_all_usize(views.subrange(0, i as int)) == Ok::<Seq<usize>, Seq<char>>(out@),
    {
        assert(views.subrange(0, i + 1).drop_last() =~= views.subrange(0, i as int));
        assert(views[i as int] == items@[i as int]@);
        match parse_usize(items[i]) {
            Some(k) => out.push(k),
            None => {
                let x = String::from_str(items[i]);
                proof {
                    lemma_parse_all_keeps_first_error(views, i as int + 1);
                }
                return Err(x);
            },
        }
    }
    assert(views.subrange(0, n as int) =~= views);
    Ok(out)
}

proof fn lemma_parse_all_keeps_first_error(items: Seq<Seq<char>>, k: int)
    requires
        0 < k <= items.len(),
        parse_all_usize(items.subrange(0, k)) is Err,
    ensures
        parse_all_usize(items) == parse_all_usize(items.subrange(0, k)),
    decreases items.len() - k,
{
    if k < items.len() {
        assert(items.subrange(0, k + 1).drop_last() =~= items.subrange(0, k));
        lemma_parse_all_keeps_first_error(items, k + 1);
    } else {
        assert(items.subrange(0, k) =~= items);
    }
}

/// Parses a comma-separated list of `usize`: pieces between commas are trimmed,
/// empty ones are skipped, and every other one must parse.
pub fn parse_usize_list(s: &str) -> (v: Vec<usize>)
    requires
        parse_all_usize(list_items_spec(s@)) is Ok,
    ensures
        parse_all_usize(list_items_spec(s@)) == Ok::<Seq<usize>, Seq<char>>(v@),
{
    match try_parse_usize_list(s) {
        Ok(v) => v,
        Err(_) => {
            proof {
                assert(false);
            }
            Vec::new()
        },
    }
}

/// The items of a list are exactly its pieces between commas, trimmed, in order,
/// with the empty ones left out.
pub proof fn lemma_list_items_are_nonempty_trimmed_pieces(s: Seq<char>)
    ensures
        list_items_spec(s) == split_commas(s).map_values(|p: Seq<char>| trimmed(p)).filter(
            |t: Seq<char>| t.len() > 0,
        ),
{
    lemma_nonempty_trimmed_is_filter(split_commas(s));
}

proof fn lemma_nonempty_trimmed_is_filter(pieces: Seq<Seq<char>>)
    ensures
        nonempty_trimmed(pieces) == pieces.map_values(|p: Seq<char>| trimmed(p)).filter(
            |t: Seq<char>| t.len() > 0,
        ),
    decreases pieces.len(),
{
    reveal(Seq::filter);
    let f = |p: Seq<char>| trimmed(p);
    let keep = |t: Seq<char>| t.len() > 0;
    if pieces.len() > 0 {
        lemma_nonempty_trimmed_is_filter(pieces.drop_last());
        assert(pieces.map_values(f).drop_last() =~= pieces.drop_last().map_values(f));
        assert(pieces.map_values(f).last() == trimmed(pieces.last()));
    } else {
        assert(pieces.map_values(f) =~= Seq::<Seq<char>>::empty());
    }
}

proof fn lemma_split_commas_append_piece(s: Seq<char>, p: Seq<char>)
    requires
        !p.contains(','),
    ensures
        split_commas(s + seq![','] + p) == split_commas(s).push(p),
    decreases p.len(),
{
    if p.len() == 0 {
        assert(s + seq![','] + p =~= s.push(','));
        assert((s + seq![','] + p).drop_last() =~= s);
        assert(Seq::<char>::empty() =~= p);
    } else {
        let q = p.drop_last();
        assert(!q.contains(',')) by {
            if q.contains(',') {
                let i = choose|i: int| 0 <= i < q.len() && q[i] == ',';
                assert(p[i] == ',');
            }
        }
        lemma_split_commas_append_piece(s, q);
        let whole = s + seq![','] + p;
        assert(whole.drop_last() =~= s + seq![','] + q);
        assert(whole.last() == p.last());
        assert(p.last() != ',') by {
            assert(p[p.len() - 1] == p.last());
        }
        let prev = split_commas(s).push(q);
        assert(prev.update(prev.len() - 1, prev.last().push(p.last())) =~= split_commas(s).push(p)) by {
            assert(q.push(p.last()) =~= p);
        }
    }
}

/// Appending `,` and a piece without commas to a list appends that piece, trimmed,
/// as one more item when it is not blank, and leaves the items as they are when it
/// is blank; there is no bound on the number of items.
pub proof fn lemma_list_items_append(s: Seq<char>, p: Seq<char>)
    requires
        !p.contains(','),
    ensures
        trimmed(p).len() > 0 ==> list_items_spec(s + seq![','] + p) == list_items_spec(s).push(
            trimmed(p),
        ),
        trimmed(p).len() == 0 ==> list_items_spec(s + seq![','] + p) == list_items_spec(s),
        list_items_spec(s + seq![','] + p).len() == list_items_spec(s).len() + if trimmed(
            p,
        ).len() > 0 {
            1int
        } else {
            0int
        },
{
    lemma_split_commas_append_piece(s, p);
    let pieces = split_commas(s).push(p);
    assert(pieces.drop_last() =~= split_commas(s));
}

} // verus!
