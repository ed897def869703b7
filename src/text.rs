//! Text helpers: doc-comment stripping, case conversion of identifiers,
//! joining and trimming.
use vstd::prelude::*;
use vstd::string::*;

verus! {

/// What `char::to_uppercase` yields for a non-ASCII character, collected into
/// a string.
pub uninterp spec fn upper_of(c: char) -> Seq<char>;

/// The uppercase mapping of a character: an ASCII letter `a`..`z` maps to
/// `A`..`Z`, any other ASCII character to itself.
pub open spec fn upper_char(c: char) -> Seq<char> {
    let u = c as u32;
    if 97 <= u <= 122 {
        seq![((u - 32) as u8) as char]
    } else if u < 128 {
        seq![c]
    } else {
        upper_of(c)
    }
}

/// What `char::to_lowercase` yields for a character, collected into a string.
pub uninterp spec fn lower_of(c: char) -> Seq<char>;

/// The characters with the Unicode property `White_Space`.
pub open spec fn is_white_space(c: char) -> bool {
    let u = c as u32;
    (0x9 <= u <= 0xd) || u == 0x20 || u == 0x85 || u == 0xa0 || u == 0x1680 || (0x2000 <= u
        <= 0x200a) || u == 0x2028 || u == 0x2029 || u == 0x202f || u == 0x205f || u == 0x3000
}

/// The string without its leading white space.
pub open spec fn trim_start(s: Seq<char>) -> Seq<char>
    decreases s.len(),
{
    if s.len() > 0 && is_white_space(s[0]) {
        trim_start(s.skip(1))
    } else {
        s
    }
}

/// The string without its trailing white space.
pub open spec fn trim_end(s: Seq<char>) -> Seq<char>
    decreases s.len(),
{
    if s.len() > 0 && is_white_space(s.last()) {
        trim_end(s.drop_last())
    } else {
        s
    }
}

/// The string without its leading and trailing white space.
pub open spec fn trimmed(s: Seq<char>) -> Seq<char> {
    trim_end(trim_start(s))
}

/// Relies on `char::to_uppercase`: the Unicode uppercase mapping of one character,
/// which depends on the character alone; ASCII letters map one to one to their
/// capitals and the other ASCII characters have no mapping.
#[verifier::external_body]
fn char_to_upper(c: char) -> (r: String)
    ensures
        r@ == upper_char(c),
        c as u32 >= 128 ==> r@ == upper_of(c),
{
    c.to_uppercase().collect::<String>()
}

/// Relies on `char::to_lowercase`: the Unicode lowercase mapping of one character,
/// which depends on the character alone.
#[verifier::external_body]
fn char_to_lower(c: char) -> (r: String)
    ensures
        r@ == lower_of(c),
{
    c.to_lowercase().collect::<String>()
}

/// Relies on `str::trim`: leading and trailing characters with the Unicode
/// property `White_Space` removed.
#[verifier::external_body]
fn trim_text(s: &str) -> (r: String)
    ensures
        r@ == trimmed(s@),
{
    s.trim().to_string()
}

/// The text inside a doc attribute whose tokens read `= "<text>"`; `None` for
/// tokens of any other shape.
pub open spec fn doc_text(s: Seq<char>) -> Option<Seq<char>> {
    if s.len() >= 4 && s[0] == '=' && s[1] == ' ' && s[2] == '"' && s[s.len() - 1] == '"' {
        Some(s.subrange(3, s.len() - 1))
    } else {
        None
    }
}

/// Strips the `= "` prefix and the closing `"` from the tokens of a doc attribute.
pub fn strip_comment(s: &String) -> (r: Option<String>)
    ensures
        match r {
            Some(t) => doc_text(s@) == Some(t@),
            None => doc_text(s@) is None,
        },
{
    let n = s.as_str().unicode_len();
    if n < 4 {
        return None;
    }
    let s = s.as_str();
    if s.get_char(0) == '=' && s.get_char(1) == ' ' && s.get_char(2) == '"' && s.get_char(n - 1)
        == '"' {
        Some(String::from_str(s.substring_char(3, n - 1)))
    } else {
        None
    }
}

/// The Go struct tag that keeps the Rust field name as the JSON key.
pub open spec fn json_tag_of(s: Seq<char>) -> Seq<char> {
    "`json:\""@ + s + "\"`"@
}

/// The Go struct tag for a field: `json:"<name>"` in backquotes.
pub fn json_tag(s: &String) -> (r: String)
    ensures
        r@ == json_tag_of(s@),
{
    let mut r = String::from_str("`json:\"");
    r.append(s.as_str());
    r.append("\"`");
    r
}

/// The first character mapped to uppercase, the rest unchanged.
pub open spec fn upper_first(s: Seq<char>) -> Seq<char> {
    if s.len() == 0 {
        s
    } else {
        upper_char(s[0]) + s.skip(1)
    }
}

/// The first character mapped to lowercase, the rest unchanged.
pub open spec fn lower_first(s: Seq<char>) -> Seq<char> {
    if s.len() == 0 {
        s
    } else {
        lower_of(s[0]) + s.skip(1)
    }
}

/// The string with its first character in uppercase.
pub fn to_uppercase(s: &str) -> (r: String)
    ensures
        r@ == upper_first(s@),
{
    let n = s.unicode_len();
    if n == 0 {
        return String::new();
    }
    let mut r = char_to_upper(s.get_char(0));
    r.append(s.substring_char(1, n));
    r
}

/// The string with its first character in lowercase.
pub fn to_lowercase(s: &str) -> (r: String)
    ensures
        r@ == lower_first(s@),
{
    let n = s.unicode_len();
    if n == 0 {
        return String::new();
    }
    let mut r = char_to_lower(s.get_char(0));
    r.append(s.substring_char(1, n));
    r
}

/// The pieces of `s` between underscores, as `str::split('_')` gives them.
pub open spec fn split_underscore(s: Seq<char>) -> Seq<Seq<char>>
    decreases s.len(),
{
    if s.len() == 0 {
        seq![Seq::empty()]
    } else {
        let prev = split_underscore(s.drop_last());
        if s.last() == '_' {
            prev.push(Seq::empty())
        } else {
            prev.update(prev.len() - 1, prev.last().push(s.last()))
        }
    }
}

/// The pieces concatenated, each with its first character uppercased.
pub open spec fn concat_upper(pieces: Seq<Seq<char>>) -> Seq<char>
    decreases pieces.len(),
{
    if pieces.len() == 0 {
        Seq::empty()
    } else {
        concat_upper(pieces.drop_last()) + upper_first(pieces.last())
    }
}

/// A snake_case field name in UpperCamelCase: `foo_bar` becomes `FooBar`.
pub open spec fn go_field_name(s: Seq<char>) -> Seq<char> {
    concat_upper(split_underscore(s))
}

/// The Go member name of a Rust field name: split on `_`, each piece with
/// its first character in uppercase, concatenated.
pub fn rust_field_name_to_go(s: &String) -> (r: String)
    ensures
        r@ == go_field_name(s@),
{
    let s = s.as_str();
    let n = s.unicode_len();
    let mut r = String::new();
    let mut start: usize = 0;
    let mut i: usize = 0;
    let ghost mut done: Seq<Seq<char>> = Seq::empty();
    assert(s@.take(0) =~= Seq::<char>::empty());
    assert(s@.subrange(0, 0) =~= Seq::<char>::empty());
    while i < n
        invariant
            n == s@.len(),
            start <= i <= n,
            split_underscore(s@.take(i as int)) == done.push(s@.subrange(start as int, i as int)),
            r@ == concat_upper(done),
        decreases n - i,
    {
        let c = s.get_char(i);
        assert(s@.take(i + 1).drop_last() =~= s@.take(i as int));
        assert(s@.take(i + 1).last() == c);
        if c == '_' {
            let piece = to_uppercase(s.substring_char(start, i));
            r.append(piece.as_str());
            proof {
                let cur = s@.subrange(start as int, i as int);
                assert(done.push(cur).drop_last() =~= done);
                done = done.push(cur);
                assert(s@.subrange(i + 1, i + 1) =~= Seq::<char>::empty());
            }
            start = i + 1;
        } else {
            assert(s@.subrange(start as int, i + 1) =~= s@.subrange(start as int, i as int).push(
                c,
            ));
            assert(done.push(s@.subrange(start as int, i as int)).update(
                done.len() as int,
                s@.subrange(start as int, i + 1),
            ) =~= done.push(s@.subrange(start as int, i + 1)));
        }
        i = i + 1;
    }
    let last = to_uppercase(s.substring_char(start, n));
    r.append(last.as_str());
    proof {
        let cur = s@.subrange(start as int, n as int);
        assert(s@.take(n as int) =~= s@);
        assert(done.push(cur).drop_last() =~= done);
    }
    r
}

/// The lines joined with single spaces between them.
pub open spec fn join_spaced(lines: Seq<Seq<char>>) -> Seq<char>
    decreases lines.len(),
{
    if lines.len() == 0 {
        Seq::empty()
    } else if lines.len() == 1 {
        lines[0]
    } else {
        join_spaced(lines.drop_last()) + " "@ + lines.last()
    }
}

/// The views of a list of strings.
pub open spec fn lines_of(v: Seq<String>) -> Seq<Seq<char>> {
    v.map_values(|s: String| s@)
}

/// The lines joined with single spaces.
pub fn join_with_spaces(lines: &Vec<String>) -> (r: String)
    ensures
        r@ == join_spaced(lines_of(lines@)),
{
    let mut r = String::new();
    let mut i: usize = 0;
    while i < lines.len()
        invariant
            i <= lines@.len(),
            r@ == join_spaced(lines_of(lines@.take(i as int))),
        decreases lines.len() - i,
    {
        assert(lines_of(lines@.take(i + 1)).drop_last() =~= lines_of(lines@.take(i as int)));
        if i > 0 {
            r.append(" ");
        }
        r.append(lines[i].as_str());
        i = i + 1;
    }
    assert(lines@.take(lines@.len() as int) =~= lines@);
    r
}

/// The help text of a metric: its comment lines joined with spaces and trimmed.
pub open spec fn help_text(comments: Seq<Seq<char>>) -> Seq<char> {
    trimmed(join_spaced(comments))
}

/// The help text of a metric whose struct carries these comments.
pub fn help_of(comments: &Vec<String>) -> (r: String)
    ensures
        r@ == help_text(lines_of(comments@)),
{
    let joined = join_with_spaces(comments);
    trim_text(joined.as_str())
}

/// Every character is ASCII.
pub open spec fn is_ascii_text(s: Seq<char>) -> bool {
    forall|i: int| 0 <= i < s.len() ==> (s[i] as u32) < 128
}

/// An ASCII name without underscores that does not start with a lowercase letter.
spec fn camel_shaped(r: Seq<char>) -> bool {
    &&& forall|i: int| 0 <= i < r.len() ==> (r[i] as u32) < 128 && r[i] != '_'
    &&& r.len() > 0 ==> !(97 <= r[0] as u32 <= 122)
}

proof fn lemma_split_nonempty(s: Seq<char>)
    ensures
        split_underscore(s).len() >= 1,
    decreases s.len(),
{
    if s.len() > 0 {
        lemma_split_nonempty(s.drop_last());
    }
}

proof fn lemma_split_without_underscore(s: Seq<char>)
    requires
        !s.contains('_'),
    ensures
        split_underscore(s) == seq![s],
    decreases s.len(),
{
    if s.len() == 0 {
        assert(s =~= Seq::<char>::empty());
    } else {
        let t = s.drop_last();
        assert(!t.contains('_')) by {
            if t.contains('_') {
                let i = choose|i: int| 0 <= i < t.len() && t[i] == '_';
                assert(s[i] == '_');
            }
        }
        lemma_split_without_underscore(t);
        assert(s[s.len() - 1] != '_');
        assert(t.push(s.last()) =~= s);
        assert(seq![t].update(0, t.push(s.last())) =~= seq![s]);
    }
}

proof fn lemma_go_field_name_shape(s: Seq<char>)
    requires
        is_ascii_text(s),
    ensures
        camel_shaped(go_field_name(s)),
        split_underscore(s).last().len() > 0 ==> go_field_name(s).len() > 0,
    decreases s.len(),
{
    if s.len() == 0 {
        assert(seq![Seq::<char>::empty()].drop_last() =~= Seq::<Seq<char>>::empty());
        assert(concat_upper(Seq::<Seq<char>>::empty()) == Seq::<char>::empty());
        assert(go_field_name(s) =~= Seq::<char>::empty());
    } else {
        let t = s.drop_last();
        let c = s.last();
        assert(s[s.len() - 1] == c);
        lemma_go_field_name_shape(t);
        lemma_split_nonempty(t);
        let pieces = split_underscore(t);
        let prev = go_field_name(t);
        let a = concat_upper(pieces.drop_last());
        let p = pieces.last();
        assert(prev == a + upper_first(p));
        assert forall|i: int| 0 <= i < a.len() implies a[i] == prev[i] by {}
        if c == '_' {
            assert(pieces.push(Seq::empty()).drop_last() =~= pieces);
            assert(go_field_name(s) =~= prev);
            assert(split_underscore(s).last() =~= Seq::<char>::empty());
        } else {
            let q = pieces.update(pieces.len() - 1, p.push(c));
            assert(split_underscore(s) == q);
            assert(q.drop_last() =~= pieces.drop_last());
            assert(go_field_name(s) == a + upper_first(p.push(c)));
            if p.len() > 0 {
                assert(p.push(c).skip(1) =~= p.skip(1).push(c));
                assert(go_field_name(s) =~= prev.push(c));
                assert(camel_shaped(prev.push(c))) by {
                    assert(prev.push(c)[0] == prev[0]);
                    assert forall|i: int| 0 <= i < prev.len() + 1 implies (prev.push(c)[i] as u32)
                        < 128 && prev.push(c)[i] != '_' by {
                        if i < prev.len() {
                            assert(prev.push(c)[i] == prev[i]);
                        }
                    }
                }
            } else {
                assert(p.push(c).skip(1) =~= Seq::<char>::empty());
                assert(upper_first(p) =~= Seq::<char>::empty());
                assert(a =~= prev);
                let u = upper_char(c);
                assert((c as u32) < 128 && c != '_');
                assert(u.len() == 1);
                assert((u[0] as u32) < 128);
                assert(u[0] != '_');
                assert(!(97 <= u[0] as u32 <= 122));
                assert(go_field_name(s) =~= a + u);
                assert(camel_shaped(a + u)) by {
                    if a.len() > 0 {
                        assert((a + u)[0] == a[0]);
                    } else {
                        assert((a + u)[0] == u[0]);
                    }
                    assert forall|i: int| 0 <= i < a.len() + 1 implies ((a + u)[i] as u32) < 128
                        && (a + u)[i] != '_' by {
                        if i < a.len() {
                            assert((a + u)[i] == a[i]);
                        } else {
                            assert((a + u)[i] == u[0]);
                        }
                    }
                }
            }
        }
    }
}

/// Converting a converted ASCII name changes nothing: the result has no
/// underscore, and its first character is no lowercase letter.
pub proof fn lemma_go_field_name_idempotent(s: Seq<char>)
    requires
        is_ascii_text(s),
    ensures
        !go_field_name(s).contains('_'),
        go_field_name(go_field_name(s)) == go_field_name(s),
{
    let r = go_field_name(s);
    lemma_go_field_name_shape(s);
    assert(!r.contains('_'));
    lemma_split_without_underscore(r);
    assert(seq![r].drop_last() =~= Seq::<Seq<char>>::empty());
    assert(concat_upper(Seq::<Seq<char>>::empty()) == Seq::<char>::empty());
    assert(concat_upper(seq![r]) =~= upper_first(r));
    if r.len() > 0 {
        assert(upper_char(r[0]) == seq![r[0]]);
        assert(seq![r[0]] + r.skip(1) =~= r);
    }
    assert(upper_first(r) == r);
}

} // verus!
