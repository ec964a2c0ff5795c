//! Registration input rules: username syntax and length, email syntax, and
//! password length. These are the rules the service applies before any
//! account is created.

use vstd::prelude::*;

verus! {

/// True when `c` may appear in a username: letters, digits and underscore.
pub open spec fn is_username_char(c: char) -> bool {
    ('a' <= c && c <= 'z') || ('A' <= c && c <= 'Z') || ('0' <= c && c <= '9') || c == '_'
}

/// True when `c` may appear in the local part of an email address.
pub open spec fn is_local_char(c: char) -> bool {
    ('a' <= c && c <= 'z') || ('A' <= c && c <= 'Z') || ('0' <= c && c <= '9') || c == '_' || c
        == '.' || c == '+' || c == '-'
}

/// True when `c` may appear inside a segment of an email domain.
pub open spec fn is_host_char(c: char) -> bool {
    ('a' <= c && c <= 'z') || ('A' <= c && c <= 'Z') || ('0' <= c && c <= '9') || c == '-'
}

/// True when `c` may appear somewhere in an email domain: a segment
/// character or the dot between segments.
pub open spec fn is_domain_char(c: char) -> bool {
    is_host_char(c) || c == '.'
}

/// A valid username is at least three characters of letters, digits and
/// underscore.
pub open spec fn valid_username(s: Seq<char>) -> bool {
    s.len() >= 3 && forall|i: int| 0 <= i < s.len() ==> is_username_char(#[trigger] s[i])
}

/// A well-formed email domain: one or more dot-separated, non-empty
/// segments of `[A-Za-z0-9-]`. Equivalently: non-empty, every character a
/// segment character or a dot, no leading, trailing or doubled dot.
pub open spec fn valid_domain(d: Seq<char>) -> bool {
    &&& d.len() >= 1
    &&& d[0] != '.'
    &&& d[d.len() - 1] != '.'
    &&& forall|i: int| 0 <= i < d.len() ==> is_domain_char(#[trigger] d[i])
    &&& forall|i: int| 0 <= i < d.len() - 1 ==> !((#[trigger] d[i]) == '.' && d[i + 1] == '.')
}

/// `s` splits as a well-formed email around the `@` at position `a`: a
/// non-empty local part before it, a well-formed domain after it.
pub open spec fn email_split_ok(s: Seq<char>, a: int) -> bool {
    &&& 1 <= a < s.len()
    &&& s[a] == '@'
    &&& forall|i: int| 0 <= i < a ==> is_local_char(#[trigger] s[i])
    &&& valid_domain(s.subrange(a + 1, s.len() as int))
}

/// A valid email address: `local@seg(.seg)*`, with the local part one or
/// more of `[A-Za-z0-9_.+-]` and each domain segment one or more of
/// `[A-Za-z0-9-]`.
pub open spec fn valid_email(s: Seq<char>) -> bool {
    exists|a: int| #[trigger] email_split_ok(s, a)
}

/// A valid password is at least eight bytes long in its UTF-8 form.
pub open spec fn valid_password(s: Seq<char>) -> bool {
    vstd::utf8::encode_utf8(s).len() >= 8
}

/// All three registration rules together.
pub open spec fn valid_credentials(username: Seq<char>, email: Seq<char>, password: Seq<char>) -> bool {
    valid_username(username) && valid_email(email) && valid_password(password)
}

/// A username shares no character with the `@` sign, so no valid username is
/// ever a valid email address. Lookups by a single identifier string are
/// therefore unambiguous between the two fields.
pub proof fn lemma_username_is_no_email(s: Seq<char>)
    requires
        valid_username(s),
    ensures
        !valid_email(s),
{
    if valid_email(s) {
        let a = choose|a: int| #[trigger] email_split_ok(s, a);
        assert(s[a] == '@');
        assert(is_username_char(s[a]));
    }
}

/// Checks the username rule: `^[A-Za-z0-9_]+$` with length at least 3.
pub fn check_username(s: &str) -> (r: bool)
    ensures
        r == valid_username(s@),
{
    let len = s.unicode_len();
    if len < 3 {
        return false;
    }
    let mut i: usize = 0;
    while i < len
        invariant
            len == s@.len(),
            0 <= i <= len,
            forall|j: int| 0 <= j < i ==> is_username_char(#[trigger] s@[j]),
        decreases len - i,
    {
        let c = s.get_char(i);
        if !(('a' <= c && c <= 'z') || ('A' <= c && c <= 'Z') || ('0' <= c && c <= '9') || c
            == '_') {
            return false;
        }
        i = i + 1;
    }
    true
}

fn is_local_char_exec(c: char) -> (r: bool)
    ensures
        r == is_local_char(c),
{
    ('a' <= c && c <= 'z') || ('A' <= c && c <= 'Z') || ('0' <= c && c <= '9') || c == '_' || c
        == '.' || c == '+' || c == '-'
}

fn is_host_char_exec(c: char) -> (r: bool)
    ensures
        r == is_host_char(c),
{
    ('a' <= c && c <= 'z') || ('A' <= c && c <= 'Z') || ('0' <= c && c <= '9') || c == '-'
}

/// Checks the email rule: `local@seg(.seg)*`.
pub fn check_email(s: &str) -> (r: bool)
    ensures
        r == valid_email(s@),
{
    let len = s.unicode_len();
    // Local part: scan up to the first character that is not a local
    // character; a well-formed address has its `@` exactly there.
    let mut i: usize = 0;
    while i < len && is_local_char_exec(s.get_char(i))
        invariant
            len == s@.len(),
            0 <= i <= len,
            forall|j: int| 0 <= j < i ==> is_local_char(#[trigger] s@[j]),
        decreases len - i,
    {
        i = i + 1;
    }
    if i == len || i == 0 || s.get_char(i) != '@' {
        proof {
            assert forall|a: int| !email_split_ok(s@, a) by {
                if email_split_ok(s@, a) {
                    if a < i {
                        assert(is_local_char(s@[a]));
                    } else if a > i && i < len {
                        assert(is_local_char(s@[i as int]));
                    }
                }
            }
        }
        return false;
    }
    let a = i;
    // Domain: every character a segment character or a dot, with no empty
    // segment; `seg_open` says the next character must open a segment.
    let mut j: usize = a + 1;
    let mut seg_open = true;
    while j < len
        invariant
            len == s@.len(),
            0 <= a < len,
            a + 1 <= j <= len,
            s@[a as int] == '@',
            forall|k: int| 0 <= k < a ==> is_local_char(#[trigger] s@[k]),
            forall|k: int| a < k < j ==> is_domain_char(#[trigger] s@[k]),
            seg_open == (j == a + 1 || s@[j - 1] == '.'),
            j > a + 1 ==> s@[a + 1] != '.',
            forall|k: int| a + 1 < k < j ==> !((#[trigger] s@[k]) == '.' && s@[k - 1] == '.'),
        decreases len - j,
    {
        let c = s.get_char(j);
        if c == '.' {
            if seg_open {
                proof {
                    lemma_no_split(s@, a as int, j as int);
                }
                return false;
            }
            seg_open = true;
        } else if is_host_char_exec(c) {
            seg_open = false;
        } else {
            proof {
                lemma_no_split(s@, a as int, j as int);
            }
            return false;
        }
        j = j + 1;
    }
    if seg_open {
        proof {
            assert forall|x: int| !email_split_ok(s@, x) by {
                if email_split_ok(s@, x) {
                    lemma_at_position_unique(s@, x, a as int);
                    let d = s@.subrange(a + 1, len as int);
                    if len == a + 1 {
                        assert(d.len() == 0);
                    } else {
                        assert(d[d.len() - 1] == s@[len - 1]);
                        assert(s@[len - 1] == '.');
                    }
                }
            }
        }
        return false;
    }
    proof {
        let d = s@.subrange(a + 1, len as int);
        assert(d.len() >= 1);
        assert(d[0] == s@[a + 1]);
        assert(d[d.len() - 1] == s@[len - 1]);
        assert forall|k: int| 0 <= k < d.len() implies is_domain_char(#[trigger] d[k]) by {
            assert(d[k] == s@[a + 1 + k]);
        }
        assert forall|k: int| 0 <= k < d.len() - 1 implies !((#[trigger] d[k]) == '.' && d[k + 1]
            == '.') by {
            assert(d[k] == s@[a + 1 + k]);
            assert(d[k + 1] == s@[a + 2 + k]);
        }
        assert(email_split_ok(s@, a as int));
    }
    true
}

/// In a well-formed split, the `@` position is forced: it is the first
/// position holding a character that is not a local character.
proof fn lemma_at_position_unique(s: Seq<char>, a: int, a2: int)
    requires
        email_split_ok(s, a),
        0 <= a2 < s.len(),
        s[a2] == '@',
        forall|j: int| 0 <= j < a2 ==> is_local_char(#[trigger] s[j]),
    ensures
        a == a2,
{
    if a < a2 {
        assert(is_local_char(s[a]));
    } else if a > a2 {
        assert(is_local_char(s[a2]));
    }
}

/// No well-formed split exists when, behind the unique `@` at `a`, the
/// domain scan stalls at position `j`: the character there either is no
/// domain character, or opens an empty segment.
proof fn lemma_no_split(s: Seq<char>, a: int, j: int)
    requires
        0 <= a < j < s.len(),
        s[a] == '@',
        forall|k: int| 0 <= k < a ==> is_local_char(#[trigger] s[k]),
        !is_domain_char(s[j]) || (s[j] == '.' && j == a + 1) || (s[j] == '.' && s[j - 1] == '.'),
    ensures
        forall|x: int| !email_split_ok(s, x),
{
    assert forall|x: int| !email_split_ok(s, x) by {
        if email_split_ok(s, x) {
            lemma_at_position_unique(s, x, a);
            let d = s.subrange(a + 1, s.len() as int);
            assert(d[j - a - 1] == s[j]);
            assert(is_domain_char(s[j]));
            if s[j] == '.' && j == a + 1 {
                assert(d[0] == '.');
            } else if s[j] == '.' && s[j - 1] == '.' {
                assert(d[j - a - 2] == s[j - 1]);
            }
        }
    }
}

/// Checks the password rule: at least eight bytes.
pub fn check_password(s: &str) -> (r: bool)
    ensures
        r == valid_password(s@),
{
    let b = s.as_bytes();
    b.len() >= 8
}

/// Checks all three registration rules together.
pub fn validate_credentials(username: &str, email: &str, password: &str) -> (r: bool)
    ensures
        r == valid_credentials(username@, email@, password@),
{
    check_username(username) && check_email(email) && check_password(password)
}

} // verus!
