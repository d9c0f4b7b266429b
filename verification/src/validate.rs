//! Safety grammars for user-supplied strings.
//!
//! Every string that is later interpolated into a shell command line must
//! first pass one of these checks: paths must be free of shell
//! metacharacters, profile names are restricted to a small benign
//! alphabet, and flags must match a fixed `--name[=value]` grammar whose
//! value part is again metacharacter-free.

use vstd::prelude::*;

verus! {

/// A character with special meaning to a command interpreter; none of
/// these may appear in a value that is interpolated into a shell string.
pub open spec fn is_metachar(c: char) -> bool {
    ||| c == ';'
    ||| c == '|'
    ||| c == '&'
    ||| c == '`'
    ||| c == '$'
    ||| c == '('
    ||| c == ')'
    ||| c == '{'
    ||| c == '}'
    ||| c == '<'
    ||| c == '>'
    ||| c == '!'
    ||| c == '\n'
    ||| c == '\r'
}

/// Whether some position of `s` holds a shell metacharacter.
pub open spec fn has_metachar(s: Seq<char>) -> bool {
    exists|i: int| 0 <= i < s.len() && is_metachar(s[i])
}

/// A path string is safe exactly when it holds no shell metacharacter.
/// The empty string is safe; emptiness is a separate concern of callers.
pub open spec fn spec_safe_path(s: Seq<char>) -> bool {
    !has_metachar(s)
}

/// Characters allowed in a terminal profile name.
pub open spec fn is_profile_char(c: char) -> bool {
    ||| ('a' <= c && c <= 'z')
    ||| ('A' <= c && c <= 'Z')
    ||| ('0' <= c && c <= '9')
    ||| c == ' '
    ||| c == '-'
    ||| c == '_'
}

/// A profile name is safe when it is non-empty and made of the benign
/// profile alphabet only.
pub open spec fn spec_safe_profile(s: Seq<char>) -> bool {
    s.len() > 0 && forall|i: int| 0 <= i < s.len() ==> is_profile_char(#[trigger] s[i])
}

/// An ASCII letter, the only admissible first character of a flag name.
pub open spec fn is_flag_name_start(c: char) -> bool {
    ('a' <= c && c <= 'z') || ('A' <= c && c <= 'Z')
}

/// A character admissible after the first position of a flag name.
pub open spec fn is_flag_name_char(c: char) -> bool {
    is_flag_name_start(c) || ('0' <= c && c <= '9') || c == '-'
}

/// Index of the first `=` in `r` at or after position `i`, or `r.len()`
/// when none follows.
pub open spec fn first_eq_from(r: Seq<char>, i: int) -> int
    decreases r.len() - i,
{
    if i < 0 || i >= r.len() {
        r.len() as int
    } else if r[i] == '=' {
        i
    } else {
        first_eq_from(r, i + 1)
    }
}

/// A well-formed flag name: non-empty, a letter first, then letters,
/// digits or hyphens.
pub open spec fn spec_safe_flag_name(n: Seq<char>) -> bool {
    &&& n.len() >= 1
    &&& is_flag_name_start(n[0])
    &&& forall|i: int| 1 <= i < n.len() ==> is_flag_name_char(#[trigger] n[i])
}

/// A flag body (everything after the leading `--`): the part before the
/// first `=` is a well-formed name, and when an `=value` suffix is
/// present the value holds no shell metacharacter.
pub open spec fn spec_safe_flag_rest(r: Seq<char>) -> bool {
    let k = first_eq_from(r, 0);
    &&& spec_safe_flag_name(r.take(k))
    &&& (k < r.len() ==> !has_metachar(r.skip(k + 1)))
}

/// The full flag grammar `--name[=value]` with a safe value.
pub open spec fn spec_safe_flag(s: Seq<char>) -> bool {
    &&& s.len() >= 2
    &&& s[0] == '-'
    &&& s[1] == '-'
    &&& spec_safe_flag_rest(s.skip(2))
}

/// `first_eq_from(r, i)` really is the first `=` at or after `i`.
pub proof fn lemma_first_eq_from(r: Seq<char>, i: int)
    requires
        0 <= i <= r.len(),
    ensures
        i <= first_eq_from(r, i) <= r.len(),
        first_eq_from(r, i) < r.len() ==> r[first_eq_from(r, i)] == '=',
        forall|m: int| i <= m < first_eq_from(r, i) ==> r[m] != '=',
    decreases r.len() - i,
{
    if i < r.len() && r[i] != '=' {
        lemma_first_eq_from(r, i + 1);
    }
}

/// Any position that is preceded by no `=` and is itself an `=` or the
/// end of the sequence is where `first_eq_from` lands.
pub proof fn lemma_first_eq_from_is(r: Seq<char>, i: int, j: int)
    requires
        0 <= i <= j <= r.len(),
        j < r.len() ==> r[j] == '=',
        forall|m: int| i <= m < j ==> r[m] != '=',
    ensures
        first_eq_from(r, i) == j,
    decreases j - i,
{
    if i < j {
        lemma_first_eq_from_is(r, i + 1, j);
    }
}

/// Decides whether `c` is a shell metacharacter.
pub fn is_metachar_char(c: char) -> (r: bool)
    ensures
        r == is_metachar(c),
{
    c == ';' || c == '|' || c == '&' || c == '`' || c == '$' || c == '(' || c == ')'
        || c == '{' || c == '}' || c == '<' || c == '>' || c == '!' || c == '\n' || c == '\r'
}

/// Accepts a path string exactly when it holds no shell metacharacter.
pub fn is_safe_path(path: &str) -> (r: bool)
    ensures
        r == spec_safe_path(path@),
{
    let n = path.unicode_len();
    let mut i: usize = 0;
    while i < n
        invariant
            n == path@.len(),
            0 <= i <= n,
            forall|m: int| 0 <= m < i ==> !is_metachar(#[trigger] path@[m]),
        decreases n - i,
    {
        let c = path.get_char(i);
        if is_metachar_char(c) {
            return false;
        }
        i += 1;
    }
    true
}

/// Accepts a terminal profile name exactly when it is non-empty and made
/// of ASCII alphanumerics, spaces, hyphens and underscores.
pub fn is_safe_profile(profile: &str) -> (r: bool)
    ensures
        r == spec_safe_profile(profile@),
{
    let n = profile.unicode_len();
    if n == 0 {
        return false;
    }
    let mut i: usize = 0;
    while i < n
        invariant
            n == profile@.len(),
            0 <= i <= n,
            forall|m: int| 0 <= m < i ==> is_profile_char(#[trigger] profile@[m]),
        decreases n - i,
    {
        let c = profile.get_char(i);
        let ok = ('a' <= c && c <= 'z') || ('A' <= c && c <= 'Z') || ('0' <= c && c <= '9')
            || c == ' ' || c == '-' || c == '_';
        if !ok {
            return false;
        }
        i += 1;
    }
    true
}

/// Accepts a flag exactly when it matches `--name[=value]`: the name is
/// a letter followed by letters, digits or hyphens, and the optional
/// value holds no shell metacharacter.
pub fn is_safe_flag(flag: &str) -> (r: bool)
    ensures
        r == spec_safe_flag(flag@),
{
    let n = flag.unicode_len();
    if n < 2 || flag.get_char(0) != '-' || flag.get_char(1) != '-' {
        return false;
    }
    let ghost rest = flag@.skip(2);
    // Find the first '=' after the leading "--".
    let mut k: usize = 2;
    while k < n && flag.get_char(k) != '='
        invariant
            n == flag@.len(),
            rest == flag@.skip(2),
            2 <= k <= n,
            forall|m: int| 2 <= m < k ==> flag@[m] != '=',
        decreases n - k,
    {
        k += 1;
    }
    proof {
        assert forall|m: int| 0 <= m < k - 2 implies rest[m] != '=' by {
            assert(rest[m] == flag@[m + 2]);
        }
        if k < n {
            assert(rest[k - 2] == flag@[k as int]);
        }
        lemma_first_eq_from_is(rest, 0, k - 2);
    }
    // The name part must be non-empty, start with a letter, and go on
    // with letters, digits or hyphens.
    if k == 2 {
        assert(!spec_safe_flag_name(rest.take(k - 2)));
        return false;
    }
    let c0 = flag.get_char(2);
    let head_ok = ('a' <= c0 && c0 <= 'z') || ('A' <= c0 && c0 <= 'Z');
    if !head_ok {
        assert(rest.take(k - 2)[0] == flag@[2]);
        return false;
    }
    let mut i: usize = 3;
    while i < k
        invariant
            n == flag@.len(),
            rest == flag@.skip(2),
            flag@[0] == '-' && flag@[1] == '-',
            first_eq_from(rest, 0) == k - 2,
            2 < k <= n,
            3 <= i <= k,
            is_flag_name_start(flag@[2]),
            forall|m: int| 3 <= m < i ==> is_flag_name_char(#[trigger] flag@[m]),
        decreases k - i,
    {
        let c = flag.get_char(i);
        let ok = ('a' <= c && c <= 'z') || ('A' <= c && c <= 'Z') || ('0' <= c && c <= '9')
            || c == '-';
        if !ok {
            assert(rest.take(k - 2)[i - 2] == flag@[i as int]);
            return false;
        }
        i += 1;
    }
    proof {
        let name = rest.take(k - 2);
        assert(name[0] == flag@[2]);
        assert forall|m: int| 1 <= m < name.len() implies is_flag_name_char(#[trigger] name[m]) by {
            assert(name[m] == flag@[m + 2]);
        }
        assert(spec_safe_flag_name(name));
    }
    // When an `=value` suffix is present, the value must be free of
    // shell metacharacters.
    if k < n {
        let mut j: usize = k + 1;
        while j < n
            invariant
                n == flag@.len(),
                rest == flag@.skip(2),
                flag@[0] == '-' && flag@[1] == '-',
                first_eq_from(rest, 0) == k - 2,
                2 < k < n,
                k + 1 <= j <= n,
                forall|m: int| k + 1 <= m < j ==> !is_metachar(#[trigger] flag@[m]),
            decreases n - j,
        {
            let c = flag.get_char(j);
            if is_metachar_char(c) {
                assert(rest.skip(k - 2 + 1)[j - k - 1] == flag@[j as int]);
                assert(has_metachar(rest.skip(k - 2 + 1)));
                return false;
            }
            j += 1;
        }
        proof {
            let value = rest.skip(k - 2 + 1);
            assert forall|m: int| 0 <= m < value.len() implies !is_metachar(#[trigger] value[m]) by {
                assert(value[m] == flag@[m + k + 1]);
            }
        }
    }
    true
}

/// Returns the position of the first flag that fails the flag grammar,
/// or `None` when every flag is safe.
pub fn first_unsafe_flag(flags: &Vec<String>) -> (r: Option<usize>)
    ensures
        match r {
            Some(i) => {
                &&& i < flags@.len()
                &&& !spec_safe_flag(flags@[i as int]@)
                &&& forall|m: int| 0 <= m < i ==> spec_safe_flag(#[trigger] flags@[m]@)
            },
            None => forall|m: int| 0 <= m < flags@.len() ==> spec_safe_flag(#[trigger] flags@[m]@),
        },
{
    let mut i: usize = 0;
    while i < flags.len()
        invariant
            0 <= i <= flags@.len(),
            forall|m: int| 0 <= m < i ==> spec_safe_flag(#[trigger] flags@[m]@),
        decreases flags@.len() - i,
    {
        if !is_safe_flag(flags[i].as_str()) {
            return Some(i);
        }
        i += 1;
    }
    None
}

/// Law: a string holding a shell metacharacter is rejected both as a
/// path and as the value part of a flag; a flag carrying it as its
/// `=value` suffix is rejected whole, whatever its name.
pub proof fn lemma_metachar_rejected(s: Seq<char>, name: Seq<char>)
    requires
        has_metachar(s),
    ensures
        !spec_safe_path(s),
        !spec_safe_flag(seq!['-', '-'] + name + seq!['='] + s),
{
    let flag = seq!['-', '-'] + name + seq!['='] + s;
    if spec_safe_flag(flag) {
        let r = flag.skip(2);
        assert(r =~= name + seq!['='] + s);
        let k = first_eq_from(r, 0);
        lemma_first_eq_from(r, 0);
        // The first '=' is at or before the one separating name and value.
        assert(r[name.len() as int] == '=');
        assert(k <= name.len());
        let i = choose|i: int| 0 <= i < s.len() && is_metachar(s[i]);
        let p = name.len() + 1 + i;
        assert(r[p] == s[i]);
        if k < r.len() {
            let value = r.skip(k + 1);
            assert(value[p - k - 1] == r[p]);
            assert(has_metachar(value));
        }
    }
}

} // verus!
