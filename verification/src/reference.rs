//! The reference parser: turns a raw `owner/repo@ref` string from a
//! workflow field into a structured [`ActionReference`], or rejects it.
//!
//! A raw value is cleaned first: anything from the first `#` on is a
//! comment and is dropped, and surrounding whitespace is trimmed.  The
//! cleaned string must hold exactly one `@`; the part after it, trimmed,
//! is the reference.  A reference of exactly forty hexadecimal digits is
//! already a full commit pin and is rejected so that pinned files stay
//! untouched.  The part before the `@` splits at its first `/` into the
//! owner and the repository path, which may itself hold further `/`
//! segments.

use vstd::prelude::*;
use vstd::string::*;

use crate::chars::count_char;
use crate::chars::count_char_from;
use crate::chars::find_char;
use crate::chars::find_char_from;
use crate::chars::is_hex_digit;
use crate::chars::is_hex_digit_char;
use crate::chars::is_space;
use crate::chars::lemma_count_char_from_none;
use crate::chars::lemma_count_char_from_one;
use crate::chars::lemma_find_char_from_is;
use crate::chars::lemma_find_char_from_none;
use crate::chars::lemma_trim_id;
use crate::chars::trim;
use crate::chars::trim_str;

verus! {

/// One action reference found in a workflow document: the pointer
/// `owner/repo@reference`, where `repo` may hold `/`-separated path
/// segments and `reference` is a tag, branch or short commit.
#[derive(Clone, Debug)]
pub struct ActionReference {
    pub owner: String,
    pub repo: String,
    pub reference: String,
}

/// The mathematical value of an [`ActionReference`]: its three parts as
/// character sequences.
pub ghost struct RefView {
    pub owner: Seq<char>,
    pub repo: Seq<char>,
    pub reference: Seq<char>,
}

impl View for ActionReference {
    type V = RefView;

    open spec fn view(&self) -> RefView {
        RefView { owner: self.owner@, repo: self.repo@, reference: self.reference@ }
    }
}

/// `s` up to but not including its first `#`, or all of `s` when it has
/// none: the comment-free part of a raw field value.
pub open spec fn strip_comment(s: Seq<char>) -> Seq<char> {
    match find_char(s, '#') {
        Some(i) => s.take(i),
        None => s,
    }
}

/// The comment-free part of `s`, trimmed of surrounding whitespace.
pub open spec fn cleaned(s: Seq<char>) -> Seq<char> {
    trim(strip_comment(s))
}

/// Whether `r` is a full commit identifier: exactly forty hexadecimal
/// digits.
pub open spec fn is_full_sha(r: Seq<char>) -> bool {
    r.len() == 40 && forall|i: int| 0 <= i < r.len() ==> is_hex_digit(#[trigger] r[i])
}

/// What parsing a raw field value yields: the structured reference, or
/// `None` when the value is not an action reference or is already a full
/// commit pin.
pub open spec fn parse_reference(s: Seq<char>) -> Option<RefView> {
    let clean = cleaned(s);
    if count_char(clean, '@') != 1 {
        None
    } else {
        match find_char(clean, '@') {
            None => None,
            Some(k) => {
                let left = clean.take(k);
                let reference = trim(clean.skip(k + 1));
                if is_full_sha(reference) {
                    None
                } else {
                    match find_char(left, '/') {
                        None => None,
                        Some(j) => Some(
                            RefView { owner: left.take(j), repo: left.skip(j + 1), reference },
                        ),
                    }
                }
            },
        }
    }
}

/// Whether `s` is a full commit identifier: exactly forty hexadecimal
/// digits.
pub fn is_full_sha_str(s: &str) -> (r: bool)
    ensures
        r == is_full_sha(s@),
{
    let n = s.unicode_len();
    if n != 40 {
        return false;
    }
    let mut j: usize = 0;
    while j < n
        invariant
            j <= n,
            n == s@.len(),
            n == 40,
            forall|t: int| 0 <= t < j ==> is_hex_digit(#[trigger] s@[t]),
        decreases n - j,
    {
        if !is_hex_digit_char(s.get_char(j)) {
            return false;
        }
        j = j + 1;
    }
    true
}

/// Parses a raw `uses:`-style field value into a structured reference.
/// Returns `None` for anything that is not an `owner/repo@ref` pointer —
/// a local path, a malformed entry, or a reference already pinned to a
/// full commit identifier.
pub fn parse_uses_string(uses: &str) -> (r: Option<ActionReference>)
    ensures
        match r {
            Some(ar) => parse_reference(uses@) == Some(ar@),
            None => parse_reference(uses@) is None,
        },
{
    let n = uses.unicode_len();

    // Drop everything from the first '#' on.
    let mut i: usize = 0;
    while i < n && uses.get_char(i) != '#'
        invariant
            i <= n,
            n == uses@.len(),
            forall|j: int| 0 <= j < i ==> uses@[j] != '#',
        decreases n - i,
    {
        i = i + 1;
    }
    let before: &str = if i < n {
        proof {
            lemma_find_char_from_is(uses@, '#', 0, i as int);
        }
        uses.substring_char(0, i)
    } else {
        proof {
            lemma_find_char_from_none(uses@, '#', 0);
        }
        uses
    };
    proof {
        assert(before@ =~= strip_comment(uses@));
    }

    let clean = trim_str(before);
    assert(clean@ == cleaned(uses@));
    let m = clean.unicode_len();

    // The cleaned string must hold exactly one '@'; find it.
    let mut cnt: usize = 0;
    let mut at_idx: usize = 0;
    let mut k: usize = 0;
    while k < m
        invariant
            k <= m,
            m == clean@.len(),
            cnt <= k,
            count_char(clean@, '@') == cnt + count_char_from(clean@, '@', k as int),
            cnt > 0 ==> at_idx < k && clean@[at_idx as int] == '@',
            forall|j: int| 0 <= j < (if cnt > 0 { at_idx as int } else { k as int }) ==> clean@[j]
                != '@',
        decreases m - k,
    {
        if clean.get_char(k) == '@' {
            if cnt == 0 {
                at_idx = k;
            }
            cnt = cnt + 1;
        }
        k = k + 1;
    }
    if cnt != 1 {
        return None;
    }
    proof {
        lemma_find_char_from_is(clean@, '@', 0, at_idx as int);
    }

    let left = clean.substring_char(0, at_idx);
    let right = clean.substring_char(at_idx + 1, m);
    let reference = trim_str(right);
    proof {
        assert(left@ =~= cleaned(uses@).take(at_idx as int));
        assert(right@ =~= cleaned(uses@).skip(at_idx + 1));
    }

    // A reference that is already a full commit pin needs no action.
    if is_full_sha_str(reference) {
        return None;
    }

    // The left part splits at its first '/' into owner and repo path.
    let ln = left.unicode_len();
    let mut p: usize = 0;
    while p < ln && left.get_char(p) != '/'
        invariant
            p <= ln,
            ln == left@.len(),
            forall|j: int| 0 <= j < p ==> left@[j] != '/',
        decreases ln - p,
    {
        p = p + 1;
    }
    if p >= ln {
        proof {
            lemma_find_char_from_none(left@, '/', 0);
        }
        return None;
    }
    proof {
        lemma_find_char_from_is(left@, '/', 0, p as int);
    }

    let owner = left.substring_char(0, p);
    let repo = left.substring_char(p + 1, ln);
    let ar = ActionReference {
        owner: String::from_str(owner),
        repo: String::from_str(repo),
        reference: String::from_str(reference),
    };
    proof {
        assert(ar@.owner =~= left@.take(p as int));
        assert(ar@.repo =~= left@.skip(p + 1));
    }
    Some(ar)
}

/// The characters that may appear in a part of a composed reference
/// string without disturbing how the whole parses: no comment mark and no
/// `@` separator.
pub open spec fn plain_part(s: Seq<char>) -> bool {
    forall|i: int| 0 <= i < s.len() ==> #[trigger] s[i] != '@' && s[i] != '#'
}

/// How a well-formed composed string `owner + "/" + repo + "@" + reference`
/// decomposes under the parser: it is rejected exactly when the reference
/// is a full commit pin, and otherwise parses back into its three parts.
proof fn lemma_parse_composed(owner: Seq<char>, repo: Seq<char>, reference: Seq<char>)
    requires
        owner.len() > 0,
        !is_space(owner[0]),
        plain_part(owner),
        forall|i: int| 0 <= i < owner.len() ==> #[trigger] owner[i] != '/',
        plain_part(repo),
        reference.len() > 0,
        !is_space(reference[0]),
        !is_space(reference.last()),
        plain_part(reference),
    ensures
        parse_reference(owner + seq!['/'] + repo + seq!['@'] + reference) == (if is_full_sha(
            reference,
        ) {
            Option::<RefView>::None
        } else {
            Option::<RefView>::Some(RefView { owner, repo, reference })
        }),
{
    let full = owner + seq!['/'] + repo + seq!['@'] + reference;
    let ol = owner.len() as int;
    let rl = repo.len() as int;
    let k = ol + 1 + rl;

    // Positions of the separators within the composed string.
    assert(full.len() == ol + 1 + rl + 1 + reference.len());
    assert(forall|i: int| 0 <= i < ol ==> full[i] == owner[i]);
    assert(full[ol] == '/');
    assert(forall|i: int| 0 <= i < rl ==> full[ol + 1 + i] == repo[i]);
    assert(full[k] == '@');
    assert(forall|i: int| 0 <= i < reference.len() ==> full[k + 1 + i] == reference[i]);

    // No '#' anywhere, so nothing is stripped as a comment.
    assert(forall|i: int| 0 <= i < full.len() ==> full[i] != '#') by {
        assert forall|i: int| 0 <= i < full.len() implies full[i] != '#' by {
            if i < ol {
                assert(full[i] == owner[i]);
            } else if i == ol {
            } else if i < k {
                assert(full[i] == repo[i - ol - 1]);
            } else if i == k {
            } else {
                assert(full[i] == reference[i - k - 1]);
            }
        }
    }
    lemma_find_char_from_none(full, '#', 0);
    assert(strip_comment(full) == full);

    // Non-whitespace edges, so trimming keeps the string whole.
    assert(full[0] == owner[0]);
    assert(full.last() == reference.last());
    lemma_trim_id(full);
    assert(cleaned(full) == full);

    // Exactly one '@', at position k.
    assert(forall|j: int| 0 <= j < full.len() && j != k ==> full[j] != '@') by {
        assert forall|j: int| 0 <= j < full.len() && j != k implies full[j] != '@' by {
            if j < ol {
                assert(full[j] == owner[j]);
            } else if j == ol {
            } else if j < k {
                assert(full[j] == repo[j - ol - 1]);
            } else {
                assert(full[j] == reference[j - k - 1]);
            }
        }
    }
    lemma_count_char_from_one(full, '@', 0, k);
    lemma_find_char_from_is(full, '@', 0, k);

    let left = full.take(k);
    assert(left =~= owner + seq!['/'] + repo);

    // The trimmed reference part is the reference itself.
    assert(full.skip(k + 1) =~= reference);
    lemma_trim_id(reference);

    // The first '/' of the left part ends the owner.
    assert(forall|j: int| 0 <= j < ol ==> left[j] != '/') by {
        assert forall|j: int| 0 <= j < ol implies left[j] != '/' by {
            assert(left[j] == owner[j]);
        }
    }
    assert(left[ol] == '/');
    lemma_find_char_from_is(left, '/', 0, ol);
    assert(left.take(ol) =~= owner);
    assert(left.skip(ol + 1) =~= repo);
}

/// Law: a well-formed `owner/repo@ref` string whose reference is not a
/// full forty-digit commit identifier parses into exactly its owner, repo
/// and reference parts.
pub proof fn lemma_parse_accepts_symbolic(owner: Seq<char>, repo: Seq<char>, reference: Seq<char>)
    requires
        owner.len() > 0,
        !is_space(owner[0]),
        plain_part(owner),
        forall|i: int| 0 <= i < owner.len() ==> #[trigger] owner[i] != '/',
        plain_part(repo),
        reference.len() > 0,
        !is_space(reference[0]),
        !is_space(reference.last()),
        plain_part(reference),
        !is_full_sha(reference),
    ensures
        parse_reference(owner + seq!['/'] + repo + seq!['@'] + reference) == Some(
            RefView { owner, repo, reference },
        ),
{
    lemma_parse_composed(owner, repo, reference);
}

/// Law: a reference of exactly forty hexadecimal digits is always
/// rejected, whatever owner and repo it is attached to — already-pinned
/// files therefore produce no candidate references.
pub proof fn lemma_parse_rejects_full_sha(owner: Seq<char>, repo: Seq<char>, reference: Seq<char>)
    requires
        owner.len() > 0,
        !is_space(owner[0]),
        plain_part(owner),
        forall|i: int| 0 <= i < owner.len() ==> #[trigger] owner[i] != '/',
        plain_part(repo),
        reference.len() > 0,
        !is_space(reference[0]),
        !is_space(reference.last()),
        plain_part(reference),
        is_full_sha(reference),
    ensures
        parse_reference(owner + seq!['/'] + repo + seq!['@'] + reference) is None,
{
    lemma_parse_composed(owner, repo, reference);
}

} // verus!
