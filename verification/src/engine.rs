//! The sequential substitution engine: an ordered, non-overlapping,
//! multi-pass string rewriter.
//!
//! For each rule in table order, one left-to-right pass over the current
//! working text replaces every non-overlapping occurrence of the rule's
//! match pattern with its replacement; the rewritten text is then handed
//! to the next rule. Within one pass, replacement text just emitted is
//! never rescanned, but a later rule may rewrite characters that an
//! earlier rule's replacement introduced — table order decides.

use vstd::prelude::*;
use crate::table::PatternTable;

verus! {

/// The pattern `p` occurs in `s` at position `i`.
pub open spec fn matches_at(s: Seq<char>, i: int, p: Seq<char>) -> bool {
    &&& 0 <= i
    &&& i + p.len() <= s.len()
    &&& forall|j: int| 0 <= j < p.len() ==> s[i + j] == #[trigger] p[j]
}

/// The pattern `p` occurs somewhere in `s`.
pub open spec fn contains_pat(s: Seq<char>, p: Seq<char>) -> bool {
    exists|i: int| #[trigger] matches_at(s, i, p)
}

/// One left-to-right, non-overlapping substitution pass: every occurrence
/// of `p` in `s` is replaced by `r`; once a span is consumed, scanning
/// resumes immediately after it, and emitted replacement text is not
/// rescanned. An empty pattern leaves the text unchanged.
pub open spec fn replace_all(s: Seq<char>, p: Seq<char>, r: Seq<char>) -> Seq<char>
    decreases s.len(),
{
    if p.len() == 0 || s.len() < p.len() {
        s
    } else if matches_at(s, 0, p) {
        r + replace_all(s.skip(p.len() as int), p, r)
    } else {
        seq![s[0]] + replace_all(s.skip(1), p, r)
    }
}

/// The full engine: the rules applied in table order, each as one
/// substitution pass over the text the previous rules produced.
pub open spec fn apply_rules(s: Seq<char>, rs: Seq<(Seq<char>, Seq<char>)>) -> Seq<char>
    decreases rs.len(),
{
    if rs.len() == 0 {
        s
    } else {
        apply_rules(replace_all(s, rs[0].0, rs[0].1), rs.drop_first())
    }
}

/// `s` with every quotation mark removed.
pub open spec fn strip_quotes(s: Seq<char>) -> Seq<char>
    decreases s.len(),
{
    if s.len() == 0 {
        Seq::empty()
    } else if s[0] == '"' {
        strip_quotes(s.drop_first())
    } else {
        seq![s[0]] + strip_quotes(s.drop_first())
    }
}

fn is_match_at(text: &str, i: usize, pat: &str) -> (b: bool)
    requires
        i <= text@.len(),
    ensures
        b == matches_at(text@, i as int, pat@),
{
    let n = text.unicode_len();
    let m = pat.unicode_len();
    if m > n - i {
        return false;
    }
    let mut j: usize = 0;
    while j < m
        invariant
            n == text@.len(),
            m == pat@.len(),
            i + m <= n,
            j <= m,
            forall|k: int| 0 <= k < j ==> text@[i + k] == #[trigger] pat@[k],
        decreases m - j,
    {
        if text.get_char(i + j) != pat.get_char(j) {
            return false;
        }
        j += 1;
    }
    true
}

proof fn lemma_replace_step_match(s: Seq<char>, i: int, p: Seq<char>, r: Seq<char>)
    requires
        0 <= i <= s.len(),
        p.len() > 0,
        matches_at(s, i, p),
    ensures
        replace_all(s.skip(i), p, r) == r + replace_all(s.skip(i + p.len()), p, r),
{
    let t = s.skip(i);
    assert forall|j: int| 0 <= j < p.len() implies t[j] == #[trigger] p[j] by {
        assert(t[j] == s[i + j]);
    }
    assert(matches_at(t, 0, p));
    assert(t.skip(p.len() as int) =~= s.skip(i + p.len()));
}

proof fn lemma_replace_step_pass(s: Seq<char>, i: int, p: Seq<char>, r: Seq<char>)
    requires
        0 <= i < s.len(),
        p.len() > 0,
        !matches_at(s, i, p),
    ensures
        replace_all(s.skip(i), p, r) == seq![s[i]] + replace_all(s.skip(i + 1), p, r),
{
    let t = s.skip(i);
    assert(t[0] == s[i]);
    assert(t.skip(1) =~= s.skip(i + 1));
    if matches_at(t, 0, p) {
        assert forall|j: int| 0 <= j < p.len() implies s[i + j] == #[trigger] p[j] by {
            assert(t[j] == s[i + j]);
        }
        assert(matches_at(s, i, p));
        assert(false);
    }
    if t.len() < p.len() {
        assert(replace_all(t, p, r) == t);
        assert(t.skip(1).len() < p.len());
        assert(replace_all(t.skip(1), p, r) == t.skip(1));
        assert(t =~= seq![t[0]] + t.skip(1));
    }
}

/// One substitution pass over `text`, as executable code: the returned
/// string is exactly `replace_all` of the inputs' views.
pub fn replace_all_str(text: &str, pat: &str, rep: &str) -> (out: String)
    requires
        pat@.len() > 0,
    ensures
        out@ == replace_all(text@, pat@, rep@),
{
    let n = text.unicode_len();
    let mut out = String::new();
    proof {
        assert(text@.skip(0) =~= text@);
        assert(out@ + replace_all(text@, pat@, rep@) =~= replace_all(text@, pat@, rep@));
    }
    let mut i: usize = 0;
    while i < n
        invariant
            n == text@.len(),
            pat@.len() > 0,
            i <= n,
            out@ + replace_all(text@.skip(i as int), pat@, rep@) == replace_all(
                text@,
                pat@,
                rep@,
            ),
        decreases n - i,
    {
        if is_match_at(text, i, pat) {
            let m = pat.unicode_len();
            proof {
                lemma_replace_step_match(text@, i as int, pat@, rep@);
                assert((out@ + rep@) + replace_all(text@.skip(i + m), pat@, rep@) =~= out@ + (
                rep@ + replace_all(text@.skip(i + m), pat@, rep@)));
            }
            out.append(rep);
            i = i + m;
        } else {
            let piece = text.substring_char(i, i + 1);
            proof {
                lemma_replace_step_pass(text@, i as int, pat@, rep@);
                assert(piece@ =~= seq![text@[i as int]]);
                assert((out@ + piece@) + replace_all(text@.skip(i as int + 1), pat@, rep@) =~= out@
                    + (piece@ + replace_all(text@.skip(i as int + 1), pat@, rep@)));
            }
            out.append(piece);
            i = i + 1;
        }
    }
    proof {
        assert(text@.skip(n as int) =~= Seq::<char>::empty());
        assert(replace_all(Seq::<char>::empty(), pat@, rep@) == Seq::<char>::empty());
        assert(out@ + Seq::<char>::empty() =~= out@);
    }
    out
}

/// The engine applied to a whole table: rule `k + 1` runs on the text rule
/// `k` produced.
pub fn apply_table(text: &str, table: &PatternTable) -> (out: String)
    requires
        table.wf(),
    ensures
        out@ == apply_rules(text@, table@),
{
    let mut working: String = text.to_owned();
    let len = table.rules.len();
    proof {
        assert(table@.skip(0) =~= table@);
    }
    let mut k: usize = 0;
    while k < len
        invariant
            table.wf(),
            len == table.rules.len(),
            k <= len,
            apply_rules(working@, table@.skip(k as int)) == apply_rules(text@, table@),
        decreases len - k,
    {
        proof {
            assert((#[trigger] table@[k as int]).0.len() > 0);
        }
        let rule = &table.rules[k];
        let next = replace_all_str(working.as_str(), rule.pat.as_str(), rule.rep.as_str());
        proof {
            let rs = table@.skip(k as int);
            assert(rs[0] == table@[k as int]);
            assert(rs.drop_first() =~= table@.skip(k as int + 1));
            assert(apply_rules(working@, rs) == apply_rules(
                replace_all(working@, rs[0].0, rs[0].1),
                rs.drop_first(),
            ));
        }
        working = next;
        k += 1;
    }
    proof {
        assert(table@.skip(len as int) =~= Seq::<(Seq<char>, Seq<char>)>::empty());
    }
    working
}

/// Removes every quotation mark from `text`.
pub fn strip_quotes_str(text: &str) -> (out: String)
    ensures
        out@ == strip_quotes(text@),
{
    let n = text.unicode_len();
    let mut out = String::new();
    proof {
        assert(text@.skip(0) =~= text@);
        assert(out@ + strip_quotes(text@) =~= strip_quotes(text@));
    }
    let mut i: usize = 0;
    while i < n
        invariant
            n == text@.len(),
            i <= n,
            out@ + strip_quotes(text@.skip(i as int)) == strip_quotes(text@),
        decreases n - i,
    {
        let c = text.get_char(i);
        proof {
            let t = text@.skip(i as int);
            assert(t[0] == text@[i as int]);
            assert(t.drop_first() =~= text@.skip(i as int + 1));
        }
        if c != '"' {
            let piece = text.substring_char(i, i + 1);
            proof {
                assert(piece@ =~= seq![text@[i as int]]);
                assert((out@ + piece@) + strip_quotes(text@.skip(i as int + 1)) =~= out@ + (piece@
                    + strip_quotes(text@.skip(i as int + 1))));
            }
            out.append(piece);
        }
        i += 1;
    }
    proof {
        assert(text@.skip(n as int) =~= Seq::<char>::empty());
        assert(out@ + Seq::<char>::empty() =~= out@);
    }
    out
}

} // verus!
