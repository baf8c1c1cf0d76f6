use vstd::prelude::*;

verus! {

/// Whether a character is upper case, by the Unicode property `Uppercase`.
pub uninterp spec fn uppercase(c: char) -> bool;

/// The characters of the Unicode lower-case mapping of a character.
pub uninterp spec fn lowercase(c: char) -> Seq<char>;

/// Relies on char::is_uppercase: whether `c` has the Unicode property
/// `Uppercase`, a fact of the character alone.
#[verifier::external_body]
fn is_uppercase(c: char) -> (r: bool)
    ensures
        r == uppercase(c),
{
    c.is_uppercase()
}

/// Relies on char::to_lowercase: the characters of `c`'s Unicode lower-case
/// mapping (one or more), a fact of the character alone.
#[verifier::external_body]
fn to_lowercase(c: char) -> (r: String)
    ensures
        r@ == lowercase(c),
{
    c.to_lowercase().collect()
}

/// Relies on String::push: appends one character at the end.
#[verifier::external_body]
pub(crate) fn push_char(s: &mut String, c: char)
    ensures
        final(s)@ == old(s)@.push(c),
{
    s.push(c)
}

} // verus!

verus! {

/// Whether an underscore goes in front of position `i` of a snake-cased name:
/// an upper-case letter that neither starts the name nor follows an underscore.
pub open spec fn needs_separator(s: Seq<char>, i: int) -> bool {
    i > 0 && uppercase(s[i]) && s[i - 1] != '_'
}

/// What position `i` of a name becomes in its snake-cased form.
pub open spec fn snake_piece(s: Seq<char>, i: int) -> Seq<char> {
    if needs_separator(s, i) {
        seq!['_'] + lowercase(s[i])
    } else {
        lowercase(s[i])
    }
}

/// The snake-cased form of the first `n` characters of `s`.
pub open spec fn snake_prefix(s: Seq<char>, n: int) -> Seq<char>
    decreases n,
{
    if n <= 0 {
        Seq::empty()
    } else {
        snake_prefix(s, n - 1) + snake_piece(s, n - 1)
    }
}

/// A name in lower snake case: an underscore before each upper-case character
/// that is not first and does not follow an underscore, every character
/// replaced by its lower-case mapping.
pub open spec fn snake_case(s: Seq<char>) -> Seq<char> {
    snake_prefix(s, s.len() as int)
}

/// The attribute key of a field: one leading underscore followed by another
/// character than an underscore is dropped; any other name is kept.
pub open spec fn attribute_key(name: Seq<char>) -> Seq<char> {
    if name.len() >= 2 && name[0] == '_' && name[1] != '_' {
        name.drop_first()
    } else {
        name
    }
}

/// The characters of `s` from position `start` on, as a new string.
pub fn copy_from(s: &str, start: usize) -> (r: String)
    requires
        start <= s@.len(),
    ensures
        r@ == s@.subrange(start as int, s@.len() as int),
{
    let n = s.unicode_len();
    let mut r = String::new();
    let mut i: usize = start;
    while i < n
        invariant
            n == s@.len(),
            start <= i <= n,
            r@ == s@.subrange(start as int, i as int),
        decreases n - i,
    {
        let c = s.get_char(i);
        push_char(&mut r, c);
        assert(r@ =~= s@.subrange(start as int, i + 1));
        i = i + 1;
    }
    r
}

/// Whether `s` holds exactly the characters of `t`.
pub fn same_text(s: &str, t: &str) -> (r: bool)
    ensures
        r == (s@ == t@),
{
    let n = s.unicode_len();
    if n != t.unicode_len() {
        return false;
    }
    let mut i: usize = 0;
    while i < n
        invariant
            n == s@.len(),
            n == t@.len(),
            i <= n,
            forall|j: int| 0 <= j < i ==> s@[j] == t@[j],
        decreases n - i,
    {
        if s.get_char(i) != t.get_char(i) {
            return false;
        }
        i = i + 1;
    }
    assert(s@ =~= t@);
    true
}

/// The name of a structure in lower snake case (`MyStruct` becomes `my_struct`).
pub fn to_snake_case(name: &str) -> (r: String)
    ensures
        r@ == snake_case(name@),
{
    let n = name.unicode_len();
    let mut r = String::new();
    let mut i: usize = 0;
    let mut prev: char = ' ';
    while i < n
        invariant
            n == name@.len(),
            i <= n,
            i > 0 ==> prev == name@[i - 1],
            r@ == snake_prefix(name@, i as int),
        decreases n - i,
    {
        let c = name.get_char(i);
        if i > 0 && is_uppercase(c) && prev != '_' {
            push_char(&mut r, '_');
        }
        let lowered = to_lowercase(c);
        r.append(lowered.as_str());
        assert(r@ =~= snake_prefix(name@, i + 1));
        prev = c;
        i = i + 1;
    }
    r
}

/// The attribute key that a field of this name gets.
pub fn to_attribute_key(name: &str) -> (r: String)
    ensures
        r@ == attribute_key(name@),
{
    let n = name.unicode_len();
    if n >= 2 && name.get_char(0) == '_' && name.get_char(1) != '_' {
        copy_from(name, 1)
    } else {
        let r = copy_from(name, 0);
        assert(r@ =~= name@);
        r
    }
}

} // verus!
