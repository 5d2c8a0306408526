//! Rules for names that become path components.
use vstd::prelude::*;

use crate::text::{chars_of, is_control, is_whitespace, owned, spec_is_control,
    spec_is_whitespace, string_from_chars};

verus! {

/// A character that cannot stand in an attachment path component.
pub open spec fn forbidden_in_component(c: char) -> bool {
    spec_is_control(c) || c == '\\' || c == '/' || c == ':' || c == '*' || c == '?' || c == '"'
        || c == '<' || c == '>' || c == '|'
}

/// A record id that can safely name one directory level.
pub open spec fn spec_safe_component(s: Seq<char>) -> bool {
    &&& s.len() > 0
    &&& s != seq!['.']
    &&& s != seq!['.', '.']
    &&& forall|i: int| 0 <= i < s.len() ==> !forbidden_in_component(#[trigger] s[i])
}

fn forbidden_char(c: char) -> (r: bool)
    ensures
        r == forbidden_in_component(c),
{
    is_control(c) || c == '\\' || c == '/' || c == ':' || c == '*' || c == '?' || c == '"'
        || c == '<' || c == '>' || c == '|'
}

/// Tells whether a record id can be used as a single path component.
pub fn safe_component(value: &str) -> (r: bool)
    ensures
        r == spec_safe_component(value@),
{
    let cs = chars_of(value);
    let n = cs.len();
    if n == 0 {
        return false;
    }
    if n == 1 && cs[0] == '.' {
        assert(value@ =~= seq!['.']);
        return false;
    }
    if n == 2 && cs[0] == '.' && cs[1] == '.' {
        assert(value@ =~= seq!['.', '.']);
        return false;
    }
    let mut i: usize = 0;
    while i < n
        invariant
            cs@ == value@,
            n == cs.len(),
            i <= n,
            forall|j: int| 0 <= j < i ==> !forbidden_in_component(#[trigger] value@[j]),
        decreases n - i,
    {
        if forbidden_char(cs[i]) {
            return false;
        }
        i = i + 1;
    }
    assert(value@ != seq!['.']) by {
        if value@ =~= seq!['.'] {
            assert(n == 1 && cs@[0] == '.');
        }
    }
    assert(value@ != seq!['.', '.']) by {
        if value@ =~= seq!['.', '.'] {
            assert(n == 2 && cs@[0] == '.' && cs@[1] == '.');
        }
    }
    true
}

/// The characters that `trim` or `trim_matches('.')` remove.
#[derive(Debug, Clone, Copy)]
pub enum TrimClass {
    Space,
    Dot,
}

/// Membership of a character in a trim class.
pub open spec fn in_class(c: char, class: TrimClass) -> bool {
    match class {
        TrimClass::Space => spec_is_whitespace(c),
        TrimClass::Dot => c == '.',
    }
}

/// The text without its leading characters of the class.
pub open spec fn trim_start(s: Seq<char>, class: TrimClass) -> Seq<char>
    decreases s.len(),
{
    if s.len() > 0 && in_class(s[0], class) {
        trim_start(s.drop_first(), class)
    } else {
        s
    }
}

/// The text without its trailing characters of the class.
pub open spec fn trim_end(s: Seq<char>, class: TrimClass) -> Seq<char>
    decreases s.len(),
{
    if s.len() > 0 && in_class(s.last(), class) {
        trim_end(s.drop_last(), class)
    } else {
        s
    }
}

/// The text without leading and trailing characters of the class.
pub open spec fn trim_both(s: Seq<char>, class: TrimClass) -> Seq<char> {
    trim_end(trim_start(s, class), class)
}

fn class_member(c: char, class: &TrimClass) -> (r: bool)
    ensures
        r == in_class(c, *class),
{
    match class {
        TrimClass::Space => is_whitespace(c),
        TrimClass::Dot => c == '.',
    }
}

/// Removes leading and trailing characters of the class.
pub fn trim_chars(cs: &Vec<char>, class: TrimClass) -> (r: Vec<char>)
    ensures
        r@ == trim_both(cs@, class),
{
    let n = cs.len();
    let mut i: usize = 0;
    assert(cs@.skip(0) =~= cs@);
    while i < n && class_member(cs[i], &class)
        invariant
            n == cs.len(),
            i <= n,
            trim_start(cs@, class) == trim_start(cs@.skip(i as int), class),
        decreases n - i,
    {
        assert(cs@.skip(i as int).drop_first() =~= cs@.skip(i + 1));
        i = i + 1;
    }
    let ghost start = cs@.skip(i as int);
    assert(trim_start(start, class) == start);
    let mut j: usize = n;
    assert(start =~= cs@.subrange(i as int, n as int));
    while j > i && class_member(cs[j - 1], &class)
        invariant
            n == cs.len(),
            i <= j <= n,
            trim_end(start, class) == trim_end(cs@.subrange(i as int, j as int), class),
        decreases j,
    {
        assert(cs@.subrange(i as int, j as int).drop_last() =~= cs@.subrange(i as int, j - 1));
        j = j - 1;
    }
    let mut out: Vec<char> = Vec::new();
    let mut k: usize = i;
    while k < j
        invariant
            n == cs.len(),
            i <= k <= j <= n,
            out@ == cs@.subrange(i as int, k as int),
        decreases j - k,
    {
        out.push(cs[k]);
        k = k + 1;
        assert(out@ =~= cs@.subrange(i as int, k as int));
    }
    out
}

/// The replacement of a character that cannot stand in a file name on every platform.
pub open spec fn filename_char(c: char) -> char {
    if forbidden_in_component(c) {
        '_'
    } else {
        c
    }
}

/// The fallback name for an attachment whose name is empty, `.` or `..` after cleaning.
pub open spec fn default_attachment_name() -> Seq<char> {
    "attachment.bin"@
}

/// The name under which a recovered attachment is written.
pub open spec fn spec_sanitize_filename(s: Seq<char>) -> Seq<char> {
    let mapped = s.map_values(|c: char| filename_char(c));
    let cleaned = trim_both(trim_both(trim_both(mapped, TrimClass::Space), TrimClass::Dot), TrimClass::Space);
    if cleaned.len() == 0 || cleaned == seq!['.'] || cleaned == seq!['.', '.'] {
        default_attachment_name()
    } else {
        cleaned
    }
}

/// Cleans an attachment's declared file name for cross-platform filesystem safety: control
/// characters and the characters `\ / : * ? " < > |` become `_`, surrounding white space and
/// dots are removed, and a result that is empty, `.` or `..` becomes `attachment.bin`. The
/// result is always a safe single path component.
pub fn sanitize_filename(value: &str) -> (r: String)
    ensures
        r@ == spec_sanitize_filename(value@),
        spec_safe_component(r@),
{
    let cs = chars_of(value);
    let mut mapped: Vec<char> = Vec::new();
    let mut i: usize = 0;
    while i < cs.len()
        invariant
            cs@ == value@,
            i <= cs.len(),
            mapped@ == value@.take(i as int).map_values(|c: char| filename_char(c)),
        decreases cs.len() - i,
    {
        let c = cs[i];
        let m = if forbidden_char(c) {
            '_'
        } else {
            c
        };
        mapped.push(m);
        i = i + 1;
        assert(mapped@ =~= value@.take(i as int).map_values(|c: char| filename_char(c)));
    }
    assert(value@.take(cs.len() as int) =~= value@);
    let a = trim_chars(&mapped, TrimClass::Space);
    let b = trim_chars(&a, TrimClass::Dot);
    let c = trim_chars(&b, TrimClass::Space);
    proof {
        crate::laws::law_sanitized_filename_is_safe(value@);
    }
    if c.len() == 0 || (c.len() == 1 && c[0] == '.') || (c.len() == 2 && c[0] == '.' && c[1] == '.') {
        proof {
            if c.len() == 1 {
                assert(c@ =~= seq!['.']);
            }
            if c.len() == 2 {
                assert(c@ =~= seq!['.', '.']);
            }
        }
        owned("attachment.bin")
    } else {
        proof {
            if c@ == seq!['.'] {
                assert(c@.len() == 1 && c@[0] == '.');
            }
            if c@ == seq!['.', '.'] {
                assert(c@.len() == 2 && c@[0] == '.' && c@[1] == '.');
            }
        }
        string_from_chars(c.as_slice())
    }
}

} // verus!
