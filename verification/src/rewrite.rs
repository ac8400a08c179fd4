//! The rewriter: given the original file text and the resolutions of the
//! references found in it, builds the change records and performs exact
//! literal substitution on the text.
//!
//! Substitution always targets the full field-prefixed form
//! `uses: owner/repo@ref`, never a bare reference, so one change cannot
//! corrupt another's replacement; and every occurrence of the same
//! reference string is replaced identically, which is intended —
//! identical references resolve identically.

use vstd::prelude::*;
use vstd::string::*;

use crate::reference::ActionReference;
use crate::reference::RefView;
use crate::resolver::PinV;
use crate::resolver::ResolvedPin;

verus! {

/// One textual change: the literal `owner/repo@reference` substring as
/// extracted, and its replacement `owner/repo@sha # label`.
pub struct Change {
    pub old_text: String,
    pub new_text: String,
}

/// The value of a [`Change`].
pub ghost struct ChangeV {
    pub old_text: Seq<char>,
    pub new_text: Seq<char>,
}

impl View for Change {
    type V = ChangeV;

    open spec fn view(&self) -> ChangeV {
        ChangeV { old_text: self.old_text@, new_text: self.new_text@ }
    }
}

/// The reference string a change replaces: `owner/repo@reference`.
pub open spec fn uses_string(r: RefView) -> Seq<char> {
    r.owner + seq!['/'] + r.repo + seq!['@'] + r.reference
}

/// The pinned replacement: `owner/repo@sha # label`, the comment being
/// purely informational.
pub open spec fn pinned_string(r: RefView, p: PinV) -> Seq<char> {
    r.owner + seq!['/'] + r.repo + seq!['@'] + p.commit_sha + seq![' ', '#', ' '] + p.label
}

/// Whether resolving to `sha` changes nothing: the original reference
/// already starts with the first seven characters of the resolved commit
/// identifier.  An identifier shorter than seven characters never counts
/// as already pinned.
pub open spec fn is_noop(reference: Seq<char>, sha: Seq<char>) -> bool {
    sha.len() >= 7 && reference.len() >= 7 && reference.take(7) == sha.take(7)
}

/// The field-name prefix that substitution targets.
pub open spec fn uses_prefix() -> Seq<char> {
    seq!['u', 's', 'e', 's', ':', ' ']
}

/// The full field-prefixed form of a reference string: `uses: <s>`.
pub open spec fn field_form(s: Seq<char>) -> Seq<char> {
    uses_prefix() + s
}

/// Whether `pat` occurs in `text` starting at position `i`.
pub open spec fn match_at(text: Seq<char>, pat: Seq<char>, i: int) -> bool {
    0 <= i && i + pat.len() <= text.len() && text.subrange(i, i + pat.len() as int) == pat
}

/// The text from position `i` on with every occurrence of `pat`
/// replaced by `rep`, leftmost first, never rescanning a replacement.
pub open spec fn replace_from(text: Seq<char>, pat: Seq<char>, rep: Seq<char>, i: int) -> Seq<char>
    decreases text.len() - i,
{
    if i < 0 || i >= text.len() {
        Seq::empty()
    } else if pat.len() > 0 && match_at(text, pat, i) {
        rep + replace_from(text, pat, rep, i + pat.len() as int)
    } else {
        seq![text[i]] + replace_from(text, pat, rep, i + 1)
    }
}

/// `text` with every occurrence of `pat` replaced by `rep`.
pub open spec fn replace_all(text: Seq<char>, pat: Seq<char>, rep: Seq<char>) -> Seq<char> {
    replace_from(text, pat, rep, 0)
}

/// Law: replacement touches nothing else — a text in which the pattern
/// does not occur comes back unchanged.
pub proof fn lemma_replace_all_absent(text: Seq<char>, pat: Seq<char>, rep: Seq<char>)
    requires
        pat.len() > 0,
        forall|i: int| !match_at(text, pat, i),
    ensures
        replace_all(text, pat, rep) == text,
{
    lemma_replace_from_absent(text, pat, rep, 0);
    assert(text.skip(0) =~= text);
}

proof fn lemma_replace_from_absent(text: Seq<char>, pat: Seq<char>, rep: Seq<char>, i: int)
    requires
        0 <= i <= text.len(),
        pat.len() > 0,
        forall|j: int| i <= j ==> !match_at(text, pat, j),
    ensures
        replace_from(text, pat, rep, i) == text.skip(i),
    decreases text.len() - i,
{
    if i >= text.len() {
        assert(text.skip(i) =~= Seq::<char>::empty());
    } else {
        lemma_replace_from_absent(text, pat, rep, i + 1);
        assert(seq![text[i]] + text.skip(i + 1) =~= text.skip(i));
    }
}

/// How replacement passes the leftmost occurrence: everything before it
/// is kept byte-for-byte, the occurrence becomes the replacement, and
/// scanning continues right after it — a replacement is never rescanned.
pub proof fn lemma_replace_all_first_occurrence(
    text: Seq<char>,
    pat: Seq<char>,
    rep: Seq<char>,
    k: int,
)
    requires
        pat.len() > 0,
        match_at(text, pat, k),
        forall|j: int| 0 <= j < k ==> !match_at(text, pat, j),
    ensures
        replace_all(text, pat, rep) == text.take(k) + rep + replace_from(
            text,
            pat,
            rep,
            k + pat.len(),
        ),
{
    lemma_replace_from_to_first(text, pat, rep, 0, k);
    assert(text.subrange(0, k) =~= text.take(k));
}

proof fn lemma_replace_from_to_first(
    text: Seq<char>,
    pat: Seq<char>,
    rep: Seq<char>,
    i: int,
    k: int,
)
    requires
        pat.len() > 0,
        0 <= i <= k,
        match_at(text, pat, k),
        forall|j: int| i <= j < k ==> !match_at(text, pat, j),
    ensures
        replace_from(text, pat, rep, i) == text.subrange(i, k) + rep + replace_from(
            text,
            pat,
            rep,
            k + pat.len(),
        ),
    decreases k - i,
{
    let tail = replace_from(text, pat, rep, k + pat.len());
    if i == k {
        assert((text.subrange(k, k) + rep) + tail =~= rep + tail);
    } else {
        lemma_replace_from_to_first(text, pat, rep, i + 1, k);
        assert(seq![text[i]] + ((text.subrange(i + 1, k) + rep) + tail) =~= (text.subrange(i, k)
            + rep) + tail);
    }
}

/// Law: a text holding the pattern exactly twice has both occurrences
/// replaced identically, and everything around them preserved
/// byte-for-byte.
pub proof fn lemma_replace_all_two_occurrences(
    a: Seq<char>,
    b: Seq<char>,
    c: Seq<char>,
    pat: Seq<char>,
    rep: Seq<char>,
)
    requires
        pat.len() > 0,
        forall|j: int| 0 <= j < a.len() ==> !match_at(a + pat + b + pat + c, pat, j),
        forall|j: int|
            a.len() + pat.len() <= j < a.len() + pat.len() + b.len() ==> !match_at(
                a + pat + b + pat + c,
                pat,
                j,
            ),
        forall|j: int|
            a.len() + pat.len() + b.len() + pat.len() <= j ==> !match_at(
                a + pat + b + pat + c,
                pat,
                j,
            ),
    ensures
        replace_all(a + pat + b + pat + c, pat, rep) == a + rep + b + rep + c,
{
    let t = a + pat + b + pat + c;
    let pl = pat.len() as int;
    let k1 = a.len() as int;
    let k2 = a.len() + pat.len() + b.len();

    assert(t.subrange(k1, k1 + pl) =~= pat);
    assert(t.subrange(k2 as int, k2 as int + pl) =~= pat);
    assert(match_at(t, pat, k1));
    assert(match_at(t, pat, k2 as int));

    lemma_replace_all_first_occurrence(t, pat, rep, k1);
    lemma_replace_from_to_first(t, pat, rep, k1 + pl, k2 as int);
    lemma_replace_from_absent(t, pat, rep, k2 as int + pl);

    assert(t.take(k1) =~= a);
    assert(t.subrange(k1 + pl, k2 as int) =~= b);
    assert(t.skip(k2 as int + pl) =~= c);

    assert((t.take(k1) + rep) + ((t.subrange(k1 + pl, k2 as int) + rep) + t.skip(k2 as int + pl))
        =~= a + rep + b + rep + c);
}

/// Whether `pat` occurs in `text` at position `i`.
fn match_at_str(text: &str, pat: &str, i: usize) -> (r: bool)
    requires
        i + pat@.len() <= text@.len(),
    ensures
        r == match_at(text@, pat@, i as int),
{
    let n = text.unicode_len();
    let m = pat.unicode_len();
    let mut j: usize = 0;
    while j < m
        invariant
            j <= m,
            n == text@.len(),
            m == pat@.len(),
            i + m <= n,
            forall|t: int| 0 <= t < j ==> text@[i + t] == pat@[t],
        decreases m - j,
    {
        if text.get_char(i + j) != pat.get_char(j) {
            proof {
                if match_at(text@, pat@, i as int) {
                    assert(text@.subrange(i as int, i + pat@.len())[j as int] == pat@[j as int]);
                }
            }
            return false;
        }
        j = j + 1;
    }
    proof {
        assert(text@.subrange(i as int, i + pat@.len()) =~= pat@);
    }
    true
}

/// Replaces every occurrence of `pat` in `text` by `rep`, leftmost
/// first; a replacement is never rescanned for further occurrences.
pub fn replace_all_str(text: &str, pat: &str, rep: &str) -> (out: String)
    requires
        pat@.len() > 0,
    ensures
        out@ == replace_all(text@, pat@, rep@),
{
    let n = text.unicode_len();
    let m = pat.unicode_len();
    let mut out = String::new();
    let mut i: usize = 0;
    while i < n
        invariant
            i <= n,
            n == text@.len(),
            m == pat@.len(),
            m > 0,
            out@ + replace_from(text@, pat@, rep@, i as int) == replace_all(text@, pat@, rep@),
        decreases n - i,
    {
        let ghost out0 = out@;
        if n - i >= m && match_at_str(text, pat, i) {
            out.append(rep);
            proof {
                assert((out0 + rep@) + replace_from(text@, pat@, rep@, i + m) =~= out0 + (rep@
                    + replace_from(text@, pat@, rep@, i + m)));
            }
            i = i + m;
        } else {
            let c = text.substring_char(i, i + 1);
            out.append(c);
            proof {
                assert(c@ =~= seq![text@[i as int]]);
                assert((out0 + c@) + replace_from(text@, pat@, rep@, i + 1) =~= out0 + (c@
                    + replace_from(text@, pat@, rep@, i + 1)));
            }
            i = i + 1;
        }
    }
    proof {
        assert(out@ + Seq::<char>::empty() =~= out@);
    }
    out
}

/// The field-prefixed form of `s`: the literal text `uses: ` followed by
/// `s`.
pub fn make_field_form(s: &str) -> (r: String)
    ensures
        r@ == field_form(s@),
{
    proof {
        reveal_strlit("uses: ");
        assert("uses: "@ =~= uses_prefix());
    }
    let mut r = String::from_str("uses: ");
    r.append(s);
    r
}

/// Whether the first `k` characters of `a` and `b` agree.
fn prefix_eq(a: &str, b: &str, k: usize) -> (r: bool)
    requires
        k <= a@.len(),
        k <= b@.len(),
    ensures
        r == (a@.take(k as int) == b@.take(k as int)),
{
    let mut j: usize = 0;
    while j < k
        invariant
            j <= k,
            k <= a@.len(),
            k <= b@.len(),
            forall|t: int| 0 <= t < j ==> a@[t] == b@[t],
        decreases k - j,
    {
        if a.get_char(j) != b.get_char(j) {
            proof {
                if a@.take(k as int) == b@.take(k as int) {
                    assert(a@.take(k as int)[j as int] == b@.take(k as int)[j as int]);
                }
            }
            return false;
        }
        j = j + 1;
    }
    proof {
        assert(a@.take(k as int) =~= b@.take(k as int));
    }
    true
}

/// Decides whether a successful resolution changes the file, and builds
/// the change record when it does: the reference is left alone exactly
/// when it already starts with the first seven characters of the
/// resolved commit identifier, so an already effectively pinned
/// reference never produces a spurious rewrite.
pub fn plan_change(reference: &ActionReference, pin: &ResolvedPin) -> (c: Option<Change>)
    ensures
        match c {
            None => is_noop(reference@.reference, pin@.commit_sha),
            Some(ch) => !is_noop(reference@.reference, pin@.commit_sha) && ch@.old_text
                == uses_string(reference@) && ch@.new_text == pinned_string(reference@, pin@),
        },
{
    let sha_len = pin.commit_sha.unicode_len();
    let ref_len = reference.reference.unicode_len();
    if sha_len >= 7 && ref_len >= 7 && prefix_eq(
        reference.reference.as_str(),
        pin.commit_sha.as_str(),
        7,
    ) {
        return None;
    }

    proof {
        reveal_strlit("/");
        reveal_strlit("@");
        reveal_strlit(" # ");
    }
    let mut old_text = reference.owner.clone();
    old_text.append("/");
    old_text.append(reference.repo.as_str());
    old_text.append("@");
    old_text.append(reference.reference.as_str());
    proof {
        assert(old_text@ =~= uses_string(reference@));
    }

    let mut new_text = reference.owner.clone();
    new_text.append("/");
    new_text.append(reference.repo.as_str());
    new_text.append("@");
    new_text.append(pin.commit_sha.as_str());
    new_text.append(" # ");
    new_text.append(pin.label.as_str());
    proof {
        assert(new_text@ =~= pinned_string(reference@, pin@));
    }

    Some(Change { old_text, new_text })
}

/// One reference together with how its resolution ended: a pin, or
/// `None` when every lookup fallback was exhausted.
pub struct Resolution {
    pub reference: ActionReference,
    pub pin: Option<ResolvedPin>,
}

/// The value of a [`Resolution`].
pub ghost struct ResolutionV {
    pub reference: RefView,
    pub pin: Option<PinV>,
}

impl View for Resolution {
    type V = ResolutionV;

    open spec fn view(&self) -> ResolutionV {
        ResolutionV {
            reference: self.reference@,
            pin: match self.pin {
                Some(p) => Some(p@),
                None => None,
            },
        }
    }
}

/// The views of a sequence of resolutions.
pub open spec fn res_views(s: Seq<Resolution>) -> Seq<ResolutionV> {
    s.map_values(|r: Resolution| r@)
}

/// The views of a sequence of changes.
pub open spec fn change_views(s: Seq<Change>) -> Seq<ChangeV> {
    s.map_values(|c: Change| c@)
}

/// The change one resolution contributes: none when resolution failed,
/// none when the reference is already effectively pinned.
pub open spec fn plan_of(r: ResolutionV) -> Option<ChangeV> {
    match r.pin {
        None => None,
        Some(p) => if is_noop(r.reference.reference, p.commit_sha) {
            None
        } else {
            Some(
                ChangeV {
                    old_text: uses_string(r.reference),
                    new_text: pinned_string(r.reference, p),
                },
            )
        },
    }
}

/// The changes the resolutions from position `i` on contribute, in
/// order.
pub open spec fn planned_from(rs: Seq<ResolutionV>, i: int) -> Seq<ChangeV>
    decreases rs.len() - i,
{
    if i < 0 || i >= rs.len() {
        Seq::empty()
    } else {
        (match plan_of(rs[i]) {
            Some(c) => seq![c],
            None => Seq::empty(),
        }) + planned_from(rs, i + 1)
    }
}

/// The text after applying, in order, the changes of the resolutions
/// from position `i` on — each as a whole-text replacement of its
/// field-prefixed form.
pub open spec fn rewritten_from(text: Seq<char>, rs: Seq<ResolutionV>, i: int) -> Seq<char>
    decreases rs.len() - i,
{
    if i < 0 || i >= rs.len() {
        text
    } else {
        let t2 = match plan_of(rs[i]) {
            Some(c) => replace_all(text, field_form(c.old_text), field_form(c.new_text)),
            None => text,
        };
        rewritten_from(t2, rs, i + 1)
    }
}


/// Law: a pass that plans no change leaves the text untouched — the
/// caller can skip writing the file whenever the change list is empty.
pub proof fn lemma_no_changes_no_rewrite(text: Seq<char>, rs: Seq<ResolutionV>)
    requires
        planned_from(rs, 0).len() == 0,
    ensures
        rewritten_from(text, rs, 0) == text,
{
    lemma_no_changes_no_rewrite_from(text, rs, 0);
}

proof fn lemma_no_changes_no_rewrite_from(text: Seq<char>, rs: Seq<ResolutionV>, i: int)
    requires
        0 <= i,
        planned_from(rs, i).len() == 0,
    ensures
        rewritten_from(text, rs, i) == text,
    decreases rs.len() - i,
{
    if i < rs.len() {
        match plan_of(rs[i]) {
            Some(c) => {
                assert(planned_from(rs, i).len() >= 1);
            },
            None => {
                lemma_no_changes_no_rewrite_from(text, rs, i + 1);
            },
        }
    }
}

/// The outcome of rewriting one document: the new text, and the changes
/// actually applied, for reporting.  When `changes` is empty the text is
/// unchanged and the caller need not write the file back.
pub struct Rewrite {
    pub new_text: String,
    pub changes: Vec<Change>,
}

/// Appending one change appends its view.
proof fn lemma_change_views_push(s: Seq<Change>, c: Change)
    ensures
        change_views(s.push(c)) == change_views(s).push(c@),
{
    assert(change_views(s.push(c)) =~= change_views(s).push(c@));
}

/// Applies every accepted resolution to `content`: plans each change,
/// skips failures and no-ops, and replaces every occurrence of each
/// changed reference's field-prefixed form across the whole text, in
/// encounter order.
pub fn rewrite_document(content: &str, resolutions: &Vec<Resolution>) -> (r: Rewrite)
    ensures
        r.new_text@ == rewritten_from(content@, res_views(resolutions@), 0),
        change_views(r.changes@) == planned_from(res_views(resolutions@), 0),
{
    let ghost rv = res_views(resolutions@);
    let mut text = String::from_str(content);
    let mut changes: Vec<Change> = Vec::new();
    let n = resolutions.len();
    let mut i: usize = 0;
    while i < n
        invariant
            i <= n,
            n == resolutions@.len(),
            rv == res_views(resolutions@),
            rewritten_from(text@, rv, i as int) == rewritten_from(content@, rv, 0),
            change_views(changes@) + planned_from(rv, i as int) == planned_from(rv, 0),
        decreases n - i,
    {
        let ghost text0 = text@;
        let ghost changes0 = changes@;
        let res = &resolutions[i];
        proof {
            assert(rv[i as int] == resolutions@[i as int]@);
        }
        match &res.pin {
            Some(pin) => {
                match plan_change(&res.reference, pin) {
                    Some(ch) => {
                        proof {
                            assert(plan_of(rv[i as int]) == Some(ch@));
                        }
                        let pat = make_field_form(ch.old_text.as_str());
                        let rep = make_field_form(ch.new_text.as_str());
                        let new_text = replace_all_str(text.as_str(), pat.as_str(), rep.as_str());
                        text = new_text;
                        proof {
                            lemma_change_views_push(changes@, ch);
                            assert(change_views(changes@).push(ch@) =~= change_views(changes@)
                                + seq![ch@]);
                            assert((change_views(changes0) + seq![ch@]) + planned_from(rv, i + 1)
                                =~= change_views(changes0) + (seq![ch@] + planned_from(rv, i + 1)));
                        }
                        changes.push(ch);
                    },
                    None => {
                        proof {
                            assert(plan_of(rv[i as int]) is None);
                            assert(Seq::<ChangeV>::empty() + planned_from(rv, i + 1)
                                =~= planned_from(rv, i + 1));
                        }
                    },
                }
            },
            None => {
                proof {
                    assert(plan_of(rv[i as int]) is None);
                    assert(Seq::<ChangeV>::empty() + planned_from(rv, i + 1) =~= planned_from(
                        rv,
                        i + 1,
                    ));
                }
            },
        }
        i = i + 1;
    }
    Rewrite { new_text: text, changes }
}

} // verus!
